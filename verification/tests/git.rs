use tmux_status::git_status::{
    compose_status, reduce, ReferenceType, StatusEntry, IGNORED_MASK, STAGED_CHANGES_MASK,
    UNSTAGED_CHANGES_MASK,
};
use tmux_status::themes::{Style, Theme};

fn entry(mask: u32, globally_ignored: bool) -> StatusEntry {
    StatusEntry { mask, globally_ignored }
}

#[test]
fn classify_local_branch() {
    assert_eq!(
        ReferenceType::from_ref_name(Some("refs/heads/main")),
        ReferenceType::LocalBranch(String::from("main"))
    );
    assert_eq!(
        ReferenceType::from_ref_name(Some("refs/heads/feature/x")),
        ReferenceType::LocalBranch(String::from("feature/x"))
    );
}

#[test]
fn classify_remote_branch() {
    assert_eq!(
        ReferenceType::from_ref_name(Some("refs/remotes/origin/main")),
        ReferenceType::RemoteBranch(String::from("origin/main"))
    );
}

#[test]
fn classify_tag() {
    assert_eq!(
        ReferenceType::from_ref_name(Some("refs/tags/v1.0")),
        ReferenceType::Tag(String::from("v1.0"))
    );
}

#[test]
fn classify_detached() {
    assert_eq!(ReferenceType::from_ref_name(None), ReferenceType::Head);
    assert_eq!(ReferenceType::from_ref_name(Some("HEAD")), ReferenceType::Head);
}

#[test]
fn classify_malformed_names_fall_back() {
    assert_eq!(ReferenceType::from_ref_name(Some("x")), ReferenceType::Head);
    assert_eq!(ReferenceType::from_ref_name(Some("refs/stash")), ReferenceType::Head);
    assert_eq!(ReferenceType::from_ref_name(Some("refs/notes/commits")), ReferenceType::Head);
    assert_eq!(ReferenceType::from_ref_name(Some("nails/heads/main")), ReferenceType::Head);
}

#[test]
fn classify_empty_names_fall_back() {
    assert_eq!(ReferenceType::from_ref_name(Some("refs/heads/")), ReferenceType::Head);
    assert_eq!(ReferenceType::from_ref_name(Some("refs/remotes/")), ReferenceType::Head);
    assert_eq!(ReferenceType::from_ref_name(Some("refs/tags/")), ReferenceType::Head);
}

#[test]
fn reduce_empty_is_all_false() {
    let flags = reduce(&vec![]);
    assert!(!flags.staged);
    assert!(!flags.unstaged);
    assert!(!flags.untracked);
}

#[test]
fn reduce_reorder_invariant() {
    let a = vec![entry(1, true), entry(256, true), entry(IGNORED_MASK, false)];
    let b = vec![entry(IGNORED_MASK, false), entry(1, true), entry(256, true)];
    assert_eq!(reduce(&a), reduce(&b));
}

#[test]
fn reduce_staged_from_any_entry() {
    for bit in [1u32, 2, 4, 8] {
        let flags = reduce(&vec![entry(0, true), entry(bit, true), entry(0, true)]);
        assert!(flags.staged);
        assert!(!flags.unstaged);
    }
    assert_eq!(STAGED_CHANGES_MASK, 15);
    assert_eq!(UNSTAGED_CHANGES_MASK, 128 | 256 | 512 | 2048);
}

#[test]
fn reduce_untracked_needs_ignored_bit_and_clear_check() {
    assert!(reduce(&vec![entry(IGNORED_MASK, false)]).untracked);
    assert!(!reduce(&vec![entry(IGNORED_MASK, true)]).untracked);
    assert!(!reduce(&vec![entry(256, false)]).untracked);
}

#[test]
fn divergence_fragments_suppressed_at_zero() {
    let theme = Theme::from(vec![]);
    let behind_only = compose_status(&theme, Some("refs/heads/main"), &vec![], Some((0, 3)));
    assert_eq!(
        behind_only,
        " #[default]\u{e725} main#[default] #[default]\u{f063}3#[default] "
    );
    let ahead_only = compose_status(&theme, Some("refs/heads/main"), &vec![], Some((2, 0)));
    assert_eq!(
        ahead_only,
        " #[default]\u{e725} main#[default] #[default]\u{f062}2#[default] "
    );
    let neither = compose_status(&theme, Some("refs/heads/main"), &vec![], Some((0, 0)));
    assert_eq!(neither, " #[default]\u{e725} main#[default] ");
}

#[test]
fn compose_unstaged_branch_scenario() {
    let theme = Theme::from(vec![]);
    let line = compose_status(
        &theme,
        Some("refs/heads/feature/x"),
        &vec![entry(256, true), entry(256, true)],
        None,
    );
    assert_eq!(
        line,
        " #[default]\u{e725} feature/x#[default] #[default]\u{f164}#[default] "
    );
}

#[test]
fn compose_detached_head_scenario() {
    let theme = Theme::from(vec![]);
    let line = compose_status(&theme, None, &vec![], None);
    assert_eq!(line, " #[default]\u{f135f} HEAD#[default] ");
}

#[test]
fn compose_ahead_behind_order() {
    let theme = Theme::from(vec![]);
    let line = compose_status(&theme, Some("refs/heads/main"), &vec![], Some((1, 2)));
    assert!(line.ends_with(" #[default]\u{f062}1#[default] #[default]\u{f063}2#[default] "));
    let ahead_pos = line.find('\u{f062}').unwrap();
    let behind_pos = line.find('\u{f063}').unwrap();
    assert!(ahead_pos < behind_pos);
}

#[test]
fn compose_all_flags_with_styles() {
    let theme = Theme::from(vec![
        (Style::GitBranch, String::from("#[fg=green]")),
        (Style::GitStaged, String::from("#[fg=yellow]")),
        (Style::GitUnstaged, String::from("#[fg=red]")),
        (Style::GitUntracked, String::from("#[fg=magenta]")),
    ]);
    let line = compose_status(
        &theme,
        Some("refs/heads/main"),
        &vec![entry(1, true), entry(256, true), entry(IGNORED_MASK, false)],
        None,
    );
    assert_eq!(
        line,
        " #[fg=green]\u{e725} main#[default] #[fg=yellow]\u{f135}#[default] \
#[fg=red]\u{f164}#[default] #[fg=magenta]\u{f063a}#[default] "
    );
}
