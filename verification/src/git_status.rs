use vstd::prelude::*;

use crate::glyphs;
use crate::repo::{
    reference_name, repo_discover, repo_find_reference, repo_graph_ahead_behind, repo_head,
    repo_is_path_ignored, repo_refname_to_id, repo_statuses, repo_upstream_name,
};
use crate::text::{char_to_string, find_char, find_char_at, lemma_find_char_skip, spec_dec, str_eq,
    u64_to_string};
use crate::themes::{Style, Theme};
use crate::StatusContext;

verus! {

// ---------------------------------------------------------------------------
// Reference classification
// ---------------------------------------------------------------------------

/// The semantic kind of a reference name, at the specification level.
pub enum RefKind {
    Detached,
    Local(Seq<char>),
    Remote(Seq<char>),
    Tag(Seq<char>),
}

/// The semantic kind of the reference HEAD points at, with its display name.
#[derive(Debug, PartialEq, Eq, Clone)]
pub enum ReferenceType {
    Head,
    LocalBranch(String),
    RemoteBranch(String),
    Tag(String),
}

impl View for ReferenceType {
    type V = RefKind;

    open spec fn view(&self) -> RefKind {
        match self {
            ReferenceType::Head => RefKind::Detached,
            ReferenceType::LocalBranch(s) => RefKind::Local(s@),
            ReferenceType::RemoteBranch(s) => RefKind::Remote(s@),
            ReferenceType::Tag(s) => RefKind::Tag(s@),
        }
    }
}

/// The kind named by a `refs/<category>/...` name's category and remainder.
/// An empty remainder names nothing: it falls back to a detached head, so a
/// non-detached kind never carries an empty name.
pub open spec fn classify_parts(category: Seq<char>, rest: Seq<char>) -> RefKind {
    if rest.len() == 0 {
        RefKind::Detached
    } else if category == "tags"@ {
        RefKind::Tag(rest)
    } else if category == "heads"@ {
        RefKind::Local(rest)
    } else if category == "remotes"@ {
        RefKind::Remote(rest)
    } else {
        RefKind::Detached
    }
}

/// Classifies a raw reference name. A missing name and the literal name
/// "HEAD" are a detached head. Any other name must carry the literal prefix
/// "refs/" followed by a category, a slash and a remainder; a name of any
/// other shape falls back to a detached head rather than failing.
pub open spec fn spec_classify(name: Option<Seq<char>>) -> RefKind {
    match name {
        None => RefKind::Detached,
        Some(s) => {
            if s == "HEAD"@ {
                RefKind::Detached
            } else if s.len() >= 5 && s.subrange(0, 5) == "refs/"@ {
                match find_char(s, '/', 5) {
                    Some(j) => classify_parts(
                        s.subrange(5, j),
                        s.subrange(j + 1, s.len() as int),
                    ),
                    None => RefKind::Detached,
                }
            } else {
                RefKind::Detached
            }
        }
    }
}

/// The view of an optional piece of text.
pub open spec fn opt_str_view(s: Option<&str>) -> Option<Seq<char>> {
    match s {
        Some(n) => Some(n@),
        None => None,
    }
}

impl ReferenceType {
    pub fn from_ref_name(s: Option<&str>) -> (r: Self)
        ensures
            r@ == spec_classify(opt_str_view(s)),
    {
        match s {
            None => ReferenceType::Head,
            Some(name) => {
                if str_eq(name, "HEAD") {
                    return ReferenceType::Head;
                }
                let n = name.unicode_len();
                if n < 5 {
                    return ReferenceType::Head;
                }
                let prefix = name.substring_char(0, 5);
                if !str_eq(prefix, "refs/") {
                    return ReferenceType::Head;
                }
                match find_char_at(name, '/', 5) {
                    None => ReferenceType::Head,
                    Some(j) => {
                        if j + 1 == n {
                            return ReferenceType::Head;
                        }
                        let category = name.substring_char(5, j);
                        let rest = name.substring_char(j + 1, n);
                        if str_eq(category, "tags") {
                            ReferenceType::Tag(String::from_str(rest))
                        } else if str_eq(category, "heads") {
                            ReferenceType::LocalBranch(String::from_str(rest))
                        } else if str_eq(category, "remotes") {
                            ReferenceType::RemoteBranch(String::from_str(rest))
                        } else {
                            ReferenceType::Head
                        }
                    }
                }
            }
        }
    }
}

/// Every name below `refs/heads/` with a non-empty remainder classifies as
/// the local branch named by that remainder.
pub proof fn lemma_classify_local_branch(x: Seq<char>)
    requires
        x.len() > 0,
    ensures
        spec_classify(Some("refs/heads/"@ + x)) == RefKind::Local(x),
{
    let s = "refs/heads/"@ + x;
    reveal_strlit("refs/heads/");
    reveal_strlit("refs/");
    reveal_strlit("HEAD");
    reveal_strlit("heads");
    reveal_strlit("tags");
    assert(s.len() == 11 + x.len());
    assert(s.subrange(0, 5) =~= "refs/"@);
    assert(forall|k: int| 5 <= k < 10 ==> s[k] != '/');
    lemma_find_char_skip(s, '/', 5, 10);
    assert(s[10] == '/');
    assert(find_char(s, '/', 10) == Some(10int));
    assert(s.subrange(5, 10) =~= "heads"@);
    assert(s.subrange(11, s.len() as int) =~= x);
}

/// Every name below `refs/remotes/` with a non-empty remainder classifies as
/// the remote branch named by that remainder (for `refs/remotes/<R>/<X>`,
/// that is `<R>/<X>`).
pub proof fn lemma_classify_remote_branch(x: Seq<char>)
    requires
        x.len() > 0,
    ensures
        spec_classify(Some("refs/remotes/"@ + x)) == RefKind::Remote(x),
{
    let s = "refs/remotes/"@ + x;
    reveal_strlit("refs/remotes/");
    reveal_strlit("refs/");
    reveal_strlit("HEAD");
    reveal_strlit("heads");
    reveal_strlit("tags");
    reveal_strlit("remotes");
    assert(s.len() == 13 + x.len());
    assert(s.subrange(0, 5) =~= "refs/"@);
    assert(forall|k: int| 5 <= k < 12 ==> s[k] != '/');
    lemma_find_char_skip(s, '/', 5, 12);
    assert(s[12] == '/');
    assert(find_char(s, '/', 12) == Some(12int));
    assert(s.subrange(5, 12) =~= "remotes"@);
    assert(s.subrange(13, s.len() as int) =~= x);
}

/// A missing reference name and the literal name "HEAD" both classify as a
/// detached head.
pub proof fn lemma_classify_detached()
    ensures
        spec_classify(None) == RefKind::Detached,
        spec_classify(Some("HEAD"@)) == RefKind::Detached,
{
}

// ---------------------------------------------------------------------------
// Change-set reduction
// ---------------------------------------------------------------------------

/// The status bits naming a change already recorded in the index.
pub const STAGED_CHANGES_MASK: u32 = 1u32 | 2u32 | 4u32 | 8u32;

/// The status bits naming a change only present in the working tree.
pub const UNSTAGED_CHANGES_MASK: u32 = 128u32 | 256u32 | 512u32 | 2048u32;

/// The status bit naming a path the aggregate status reports as ignored.
pub const IGNORED_MASK: u32 = 16384u32;

/// One changed path, as the working-tree/index status query reports it:
/// its status bit mask, and whether a direct check of the path against the
/// ignore rules reports it as ignored.
#[derive(Debug, PartialEq, Eq, Structural, Clone, Copy)]
pub struct StatusEntry {
    pub mask: u32,
    pub globally_ignored: bool,
}

/// The three booleans a change set reduces to.
#[derive(Debug, PartialEq, Eq, Structural, Clone, Copy)]
pub struct ChangeFlags {
    pub staged: bool,
    pub unstaged: bool,
    pub untracked: bool,
}

/// Whether some entry carries a staged-change bit.
pub open spec fn spec_staged(entries: Seq<StatusEntry>) -> bool {
    exists|i: int| 0 <= i < entries.len() && (#[trigger] entries[i]).mask & STAGED_CHANGES_MASK != 0
}

/// Whether some entry carries an unstaged-change bit.
pub open spec fn spec_unstaged(entries: Seq<StatusEntry>) -> bool {
    exists|i: int|
        0 <= i < entries.len() && (#[trigger] entries[i]).mask & UNSTAGED_CHANGES_MASK != 0
}

/// Whether some entry is reported ignored in the aggregate status and yet not
/// ignored by a direct check of its path.
pub open spec fn spec_untracked(entries: Seq<StatusEntry>) -> bool {
    exists|i: int|
        0 <= i < entries.len() && (#[trigger] entries[i]).mask & IGNORED_MASK != 0
            && !entries[i].globally_ignored
}

/// The flags a sequence of status entries reduces to.
pub open spec fn spec_reduce(entries: Seq<StatusEntry>) -> ChangeFlags {
    ChangeFlags {
        staged: spec_staged(entries),
        unstaged: spec_unstaged(entries),
        untracked: spec_untracked(entries),
    }
}

proof fn lemma_or_mask(a: u32, b: u32, m: u32)
    ensures
        (((a | b) & m) != 0) == ((a & m != 0) || (b & m != 0)),
{
    assert((((a | b) & m) != 0) == ((a & m != 0) || (b & m != 0))) by (bit_vector);
}

/// Folds the per-path status masks into the three change flags.
pub fn reduce(entries: &Vec<StatusEntry>) -> (f: ChangeFlags)
    ensures
        f == spec_reduce(entries@),
{
    let n = entries.len();
    let mut combined: u32 = 0;
    let mut untracked = false;
    let mut k: usize = 0;
    proof {
        assert(0u32 & STAGED_CHANGES_MASK == 0) by (bit_vector);
        assert(0u32 & UNSTAGED_CHANGES_MASK == 0) by (bit_vector);
        assert(entries@.subrange(0, 0).len() == 0);
    }
    while k < n
        invariant
            n == entries@.len(),
            0 <= k <= n,
            ((combined & STAGED_CHANGES_MASK) != 0) == spec_staged(entries@.subrange(0, k as int)),
            ((combined & UNSTAGED_CHANGES_MASK) != 0) == spec_unstaged(
                entries@.subrange(0, k as int),
            ),
            untracked == spec_untracked(entries@.subrange(0, k as int)),
        decreases n - k,
    {
        let e = entries[k];
        proof {
            let pre = entries@.subrange(0, k as int);
            let pre2 = entries@.subrange(0, k as int + 1);
            assert(forall|i: int| 0 <= i < pre.len() ==> pre2[i] == pre[i]);
            assert(pre2[k as int] == entries@[k as int]);
            lemma_or_mask(combined, e.mask, STAGED_CHANGES_MASK);
            lemma_or_mask(combined, e.mask, UNSTAGED_CHANGES_MASK);
            assert(spec_staged(pre2) == (spec_staged(pre) || e.mask & STAGED_CHANGES_MASK != 0))
                by {
                if spec_staged(pre2) {
                    let i = choose|i: int|
                        0 <= i < pre2.len() && (#[trigger] pre2[i]).mask & STAGED_CHANGES_MASK
                            != 0;
                    if i < k as int {
                        assert(pre[i].mask & STAGED_CHANGES_MASK != 0);
                    }
                }
                if spec_staged(pre) {
                    let i = choose|i: int|
                        0 <= i < pre.len() && (#[trigger] pre[i]).mask & STAGED_CHANGES_MASK != 0;
                    assert(pre2[i].mask & STAGED_CHANGES_MASK != 0);
                }
            }
            assert(spec_unstaged(pre2) == (spec_unstaged(pre) || e.mask & UNSTAGED_CHANGES_MASK
                != 0)) by {
                if spec_unstaged(pre2) {
                    let i = choose|i: int|
                        0 <= i < pre2.len() && (#[trigger] pre2[i]).mask & UNSTAGED_CHANGES_MASK
                            != 0;
                    if i < k as int {
                        assert(pre[i].mask & UNSTAGED_CHANGES_MASK != 0);
                    }
                }
                if spec_unstaged(pre) {
                    let i = choose|i: int|
                        0 <= i < pre.len() && (#[trigger] pre[i]).mask & UNSTAGED_CHANGES_MASK
                            != 0;
                    assert(pre2[i].mask & UNSTAGED_CHANGES_MASK != 0);
                }
            }
            assert(spec_untracked(pre2) == (spec_untracked(pre) || (e.mask & IGNORED_MASK != 0
                && !e.globally_ignored))) by {
                if spec_untracked(pre2) {
                    let i = choose|i: int|
                        0 <= i < pre2.len() && (#[trigger] pre2[i]).mask & IGNORED_MASK != 0
                            && !pre2[i].globally_ignored;
                    if i < k as int {
                        assert(pre[i].mask & IGNORED_MASK != 0 && !pre[i].globally_ignored);
                    }
                }
                if spec_untracked(pre) {
                    let i = choose|i: int|
                        0 <= i < pre.len() && (#[trigger] pre[i]).mask & IGNORED_MASK != 0
                            && !pre[i].globally_ignored;
                    assert(pre2[i].mask & IGNORED_MASK != 0 && !pre2[i].globally_ignored);
                }
            }
        }
        combined = combined | e.mask;
        if !untracked && (e.mask & IGNORED_MASK) != 0 && !e.globally_ignored {
            untracked = true;
        }
        k = k + 1;
    }
    proof {
        assert(entries@.subrange(0, n as int) =~= entries@);
    }
    ChangeFlags {
        staged: (combined & STAGED_CHANGES_MASK) != 0,
        unstaged: (combined & UNSTAGED_CHANGES_MASK) != 0,
        untracked,
    }
}

/// Reduction does not depend on the order of the entries: two sequences that
/// hold the same entries, each the same number of times, reduce alike.
pub proof fn lemma_reduce_reorder(a: Seq<StatusEntry>, b: Seq<StatusEntry>)
    requires
        a.to_multiset() == b.to_multiset(),
    ensures
        spec_reduce(a) == spec_reduce(b),
{
    broadcast use vstd::seq_lib::group_to_multiset_ensures;

    assert(spec_staged(a) == spec_staged(b)) by {
        lemma_exists_mask_symmetric(a, b);
        lemma_exists_mask_symmetric(b, a);
    }
    assert(spec_unstaged(a) == spec_unstaged(b)) by {
        lemma_exists_mask_symmetric(a, b);
        lemma_exists_mask_symmetric(b, a);
    }
    assert(spec_untracked(a) == spec_untracked(b)) by {
        lemma_exists_mask_symmetric(a, b);
        lemma_exists_mask_symmetric(b, a);
    }
}

proof fn lemma_exists_mask_symmetric(a: Seq<StatusEntry>, b: Seq<StatusEntry>)
    requires
        a.to_multiset() == b.to_multiset(),
    ensures
        spec_staged(a) ==> spec_staged(b),
        spec_unstaged(a) ==> spec_unstaged(b),
        spec_untracked(a) ==> spec_untracked(b),
{
    broadcast use vstd::seq_lib::group_to_multiset_ensures;

    if spec_staged(a) {
        let i = choose|i: int|
            0 <= i < a.len() && (#[trigger] a[i]).mask & STAGED_CHANGES_MASK != 0;
        let e = a[i];
        assert(a.contains(e));
        assert(a.to_multiset().count(e) > 0);
        assert(b.to_multiset().count(e) > 0);
        assert(b.contains(e));
        let j = choose|j: int| 0 <= j < b.len() && b[j] == e;
        assert((#[trigger] b[j]).mask & STAGED_CHANGES_MASK != 0);
    }
    if spec_unstaged(a) {
        let i = choose|i: int|
            0 <= i < a.len() && (#[trigger] a[i]).mask & UNSTAGED_CHANGES_MASK != 0;
        let e = a[i];
        assert(a.contains(e));
        assert(a.to_multiset().count(e) > 0);
        assert(b.to_multiset().count(e) > 0);
        assert(b.contains(e));
        let j = choose|j: int| 0 <= j < b.len() && b[j] == e;
        assert((#[trigger] b[j]).mask & UNSTAGED_CHANGES_MASK != 0);
    }
    if spec_untracked(a) {
        let i = choose|i: int|
            0 <= i < a.len() && (#[trigger] a[i]).mask & IGNORED_MASK != 0
                && !a[i].globally_ignored;
        let e = a[i];
        assert(a.contains(e));
        assert(a.to_multiset().count(e) > 0);
        assert(b.to_multiset().count(e) > 0);
        assert(b.contains(e));
        let j = choose|j: int| 0 <= j < b.len() && b[j] == e;
        assert((#[trigger] b[j]).mask & IGNORED_MASK != 0 && !b[j].globally_ignored);
    }
}

/// An empty change set reduces to all-false flags.
pub proof fn lemma_reduce_empty()
    ensures
        spec_reduce(Seq::<StatusEntry>::empty()) == (ChangeFlags {
            staged: false,
            unstaged: false,
            untracked: false,
        }),
{
}

/// One entry whose mask intersects the staged-change bits makes `staged`
/// true, whatever the other entries hold.
pub proof fn lemma_reduce_staged(entries: Seq<StatusEntry>, i: int)
    requires
        0 <= i < entries.len(),
        entries[i].mask & STAGED_CHANGES_MASK != 0,
    ensures
        spec_reduce(entries).staged,
{
}

// ---------------------------------------------------------------------------
// Status composition
// ---------------------------------------------------------------------------

/// The branch indicator's text: an icon for the kind, a space, and the
/// display name.
pub open spec fn ref_fragment_text(k: RefKind) -> Seq<char> {
    match k {
        RefKind::Tag(t) => seq![glyphs::MD_TAG, ' '] + t,
        RefKind::Remote(b) => seq![glyphs::DEV_GIT_COMPARE, ' '] + b,
        RefKind::Local(b) => seq![glyphs::DEV_GIT_BRANCH, ' '] + b,
        RefKind::Detached => seq![glyphs::MD_HEAD_ALERT, ' '] + "HEAD"@,
    }
}

/// The change-flag fragments, in the fixed order staged, unstaged,
/// untracked, each present exactly when its flag is set.
pub open spec fn spec_change_fragments(t: Theme, flags: ChangeFlags) -> Seq<Seq<char>> {
    (if flags.staged {
        seq![t.spec_styled(Style::GitStaged, seq![glyphs::FA_ROCKET])]
    } else {
        Seq::<Seq<char>>::empty()
    }) + (if flags.unstaged {
        seq![t.spec_styled(Style::GitUnstaged, seq![glyphs::FA_THUMBS_UP])]
    } else {
        Seq::<Seq<char>>::empty()
    }) + (if flags.untracked {
        seq![t.spec_styled(Style::GitUntracked, seq![glyphs::MD_CARDS_PLAYING])]
    } else {
        Seq::<Seq<char>>::empty()
    })
}

/// The divergence fragments: "ahead" then "behind", each an arrow icon with
/// the decimal count, and each present exactly when its count is positive.
pub open spec fn spec_divergence_fragments(t: Theme, div: Option<(u64, u64)>) -> Seq<Seq<char>> {
    match div {
        Some(d) => (if d.0 > 0 {
            seq![t.spec_styled(Style::GitAhead, seq![glyphs::FA_ARROW_UP] + spec_dec(d.0 as nat))]
        } else {
            Seq::<Seq<char>>::empty()
        }) + (if d.1 > 0 {
            seq![
                t.spec_styled(Style::GitBehind, seq![glyphs::FA_ARROW_DOWN] + spec_dec(d.1 as nat)),
            ]
        } else {
            Seq::<Seq<char>>::empty()
        }),
        None => Seq::<Seq<char>>::empty(),
    }
}

/// The full ordered fragment sequence of the repository-status section.
pub open spec fn spec_fragments(
    t: Theme,
    head: Option<Seq<char>>,
    entries: Seq<StatusEntry>,
    div: Option<(u64, u64)>,
) -> Seq<Seq<char>> {
    seq![t.spec_styled(Style::GitBranch, ref_fragment_text(spec_classify(head)))]
        + spec_change_fragments(t, spec_reduce(entries)) + spec_divergence_fragments(t, div)
}

/// Fragments joined with single-space separators.
pub open spec fn spec_join(frags: Seq<Seq<char>>) -> Seq<char>
    decreases frags.len(),
{
    if frags.len() == 0 {
        Seq::<char>::empty()
    } else if frags.len() == 1 {
        frags[0]
    } else {
        frags[0] + seq![' '] + spec_join(frags.drop_first())
    }
}

pub proof fn lemma_join_push(frags: Seq<Seq<char>>, x: Seq<char>)
    ensures
        spec_join(frags.push(x)) == (if frags.len() == 0 {
            x
        } else {
            spec_join(frags) + seq![' '] + x
        }),
    decreases frags.len(),
{
    if frags.len() == 0 {
        assert(frags.push(x).len() == 1);
        assert(frags.push(x)[0] == x);
    } else {
        assert(frags.push(x).drop_first() =~= frags.drop_first().push(x));
        assert(frags.push(x)[0] == frags[0]);
        lemma_join_push(frags.drop_first(), x);
        if frags.len() == 1 {
            assert(spec_join(frags) == frags[0]);
        }
    }
}

/// The whole rendered section: the joined fragments, with one leading and
/// one trailing space.
pub open spec fn spec_compose(
    t: Theme,
    head: Option<Seq<char>>,
    entries: Seq<StatusEntry>,
    div: Option<(u64, u64)>,
) -> Seq<char> {
    seq![' '] + spec_join(spec_fragments(t, head, entries, div)) + seq![' ']
}

/// A zero count suppresses its divergence fragment: each of "ahead" and
/// "behind" appears exactly when its count is positive.
pub proof fn lemma_divergence_suppression(t: Theme, ahead: u64, behind: u64)
    ensures
        ahead == 0 && behind == 0 ==> spec_divergence_fragments(t, Some((ahead, behind)))
            == Seq::<Seq<char>>::empty(),
        ahead == 0 && behind > 0 ==> spec_divergence_fragments(t, Some((ahead, behind))) == seq![
            t.spec_styled(Style::GitBehind, seq![glyphs::FA_ARROW_DOWN] + spec_dec(behind as nat)),
        ],
        ahead > 0 && behind == 0 ==> spec_divergence_fragments(t, Some((ahead, behind))) == seq![
            t.spec_styled(Style::GitAhead, seq![glyphs::FA_ARROW_UP] + spec_dec(ahead as nat)),
        ],
        ahead > 0 && behind > 0 ==> spec_divergence_fragments(t, Some((ahead, behind))) == seq![
            t.spec_styled(Style::GitAhead, seq![glyphs::FA_ARROW_UP] + spec_dec(ahead as nat)),
            t.spec_styled(Style::GitBehind, seq![glyphs::FA_ARROW_DOWN] + spec_dec(behind as nat)),
        ],
{
    let e = Seq::<Seq<char>>::empty();
    let a = seq![t.spec_styled(Style::GitAhead, seq![glyphs::FA_ARROW_UP] + spec_dec(ahead as nat))];
    let b = seq![
        t.spec_styled(Style::GitBehind, seq![glyphs::FA_ARROW_DOWN] + spec_dec(behind as nat)),
    ];
    assert(e + e =~= e);
    assert(e + b =~= b);
    assert(a + e =~= a);
    assert(a + b =~= seq![a[0], b[0]]);
}

/// Renders the repository-status section from the HEAD reference name, the
/// status entries, and the divergence counts, where each was available.
pub fn compose_status(
    theme: &Theme,
    head_name: Option<&str>,
    entries: &Vec<StatusEntry>,
    divergence: Option<(u64, u64)>,
) -> (line: String)
    ensures
        line@ == spec_compose(*theme, opt_str_view(head_name), entries@, divergence),
{
    let mut output: Vec<String> = Vec::new();

    let reference_type = ReferenceType::from_ref_name(head_name);
    let (icon, ref_name) = match reference_type {
        ReferenceType::Tag(t) => (glyphs::MD_TAG, t),
        ReferenceType::RemoteBranch(rb) => (glyphs::DEV_GIT_COMPARE, rb),
        ReferenceType::LocalBranch(lb) => (glyphs::DEV_GIT_BRANCH, lb),
        ReferenceType::Head => (glyphs::MD_HEAD_ALERT, String::from_str("HEAD")),
    };
    let mut ref_text = char_to_string(icon);
    ref_text.append(" ");
    ref_text.append(ref_name.as_str());
    proof {
        reveal_strlit(" ");
        assert(ref_text@ =~= ref_fragment_text(spec_classify(opt_str_view(head_name))));
    }
    output.push(theme.get_style_str(Style::GitBranch, ref_text.as_str()));

    let flags = reduce(entries);
    if flags.staged {
        output.push(theme.get_style_char(Style::GitStaged, glyphs::FA_ROCKET));
    }
    if flags.unstaged {
        output.push(theme.get_style_char(Style::GitUnstaged, glyphs::FA_THUMBS_UP));
    }
    if flags.untracked {
        output.push(theme.get_style_char(Style::GitUntracked, glyphs::MD_CARDS_PLAYING));
    }

    match divergence {
        Some((ahead, behind)) => {
            if ahead > 0 {
                let mut text = char_to_string(glyphs::FA_ARROW_UP);
                let count = u64_to_string(ahead);
                text.append(count.as_str());
                output.push(theme.get_style_str(Style::GitAhead, text.as_str()));
            }
            if behind > 0 {
                let mut text = char_to_string(glyphs::FA_ARROW_DOWN);
                let count = u64_to_string(behind);
                text.append(count.as_str());
                output.push(theme.get_style_str(Style::GitBehind, text.as_str()));
            }
        }
        None => {}
    }

    let ghost frags = spec_fragments(*theme, opt_str_view(head_name), entries@, divergence);
    proof {
        assert(output@.map_values(|s: String| s@) =~= frags);
    }

    let mut line = String::from_str(" ");
    proof {
        reveal_strlit(" ");
        assert(line@ =~= seq![' ']);
        assert(frags.subrange(0, 0) =~= Seq::<Seq<char>>::empty());
        assert(line@ =~= seq![' '] + spec_join(frags.subrange(0, 0)));
    }
    let n = output.len();
    let mut i: usize = 0;
    while i < n
        invariant
            n == output.len(),
            0 <= i <= n,
            frags == output@.map_values(|s: String| s@),
            frags.len() == n,
            line@ == seq![' '] + spec_join(frags.subrange(0, i as int)),
        decreases n - i,
    {
        if i > 0 {
            line.append(" ");
        }
        let frag = &output[i];
        line.append(frag.as_str());
        proof {
            reveal_strlit(" ");
            assert(frags.subrange(0, i as int).push(frags[i as int]) =~= frags.subrange(
                0,
                i as int + 1,
            ));
            lemma_join_push(frags.subrange(0, i as int), frags[i as int]);
            assert(line@ =~= seq![' '] + spec_join(frags.subrange(0, i as int + 1)));
        }
        i = i + 1;
    }
    line.append(" ");
    proof {
        reveal_strlit(" ");
        assert(frags.subrange(0, n as int) =~= frags);
        assert(line@ =~= spec_compose(*theme, opt_str_view(head_name), entries@, divergence));
    }
    line
}

// ---------------------------------------------------------------------------
// The repository walk
// ---------------------------------------------------------------------------

/// The commit id a reference resolves to through its name, where both the
/// name and its resolution are available.
fn ref_to_id(repo: &git2::Repository, reference: &git2::Reference) -> Option<git2::Oid> {
    match reference_name(reference) {
        Some(name) => repo_refname_to_id(repo, name.as_str()),
        None => None,
    }
}

/// One status entry per reported path, in order: the entry's mask is the
/// path's status bits, and `globally_ignored` records the direct ignore
/// check for a path whose mask carries the ignored bit (a path that cannot
/// be checked counts as ignored). Once one entry has settled `untracked`,
/// later paths are not checked again.
fn entries_from_statuses(repo: &git2::Repository, list: &Vec<(Option<String>, u32)>) -> (entries:
    Vec<StatusEntry>)
    ensures
        entries@.len() == list@.len(),
        forall|k: int| 0 <= k < list@.len() ==> (#[trigger] entries@[k]).mask == list@[k].1,
{
    let mut entries: Vec<StatusEntry> = Vec::new();
    let mut untracked_found = false;
    let n = list.len();
    let mut i: usize = 0;
    while i < n
        invariant
            n == list@.len(),
            0 <= i <= n,
            entries@.len() == i,
            forall|k: int| 0 <= k < i ==> (#[trigger] entries@[k]).mask == list@[k].1,
        decreases n - i,
    {
        let entry = &list[i];
        let bits = entry.1;
        let mut globally_ignored = true;
        if !untracked_found && (bits & IGNORED_MASK) != 0 {
            if let Some(path) = &entry.0 {
                match repo_is_path_ignored(repo, path.as_str()) {
                    Some(b) => {
                        globally_ignored = b;
                    }
                    None => {}
                }
            }
        }
        if (bits & IGNORED_MASK) != 0 && !globally_ignored {
            untracked_found = true;
        }
        entries.push(StatusEntry { mask: bits, globally_ignored });
        i = i + 1;
    }
    entries
}

/// Renders the repository-status section of one repository: the branch
/// indicator, the change flags, and the divergence counts, each gathered
/// best-effort. Yields nothing when HEAD cannot be resolved, so that the
/// whole section is omitted rather than failing.
pub fn print_status(theme: &Theme, repo: &git2::Repository) -> (r: Option<String>)
    ensures
        r matches Some(line) ==> (exists|
            head: Option<Seq<char>>,
            entries: Seq<StatusEntry>,
            div: Option<(u64, u64)>,
        |
            line@ == spec_compose(*theme, head, entries, div)),
{
    let head = match repo_head(repo) {
        Some(h) => h,
        None => {
            return None;
        }
    };
    let head_name: Option<String> = reference_name(&head);

    let entries: Vec<StatusEntry> = match repo_statuses(repo) {
        Some(list) => entries_from_statuses(repo, &list),
        None => Vec::new(),
    };

    let mut divergence: Option<(u64, u64)> = None;
    if let Some(hname) = &head_name {
        if let Some(upstream_name) = repo_upstream_name(repo, hname.as_str()) {
            if let Some(upstream) = repo_find_reference(repo, upstream_name.as_str()) {
                let head_oid = ref_to_id(repo, &head);
                let upstream_oid = ref_to_id(repo, &upstream);
                match (head_oid, upstream_oid) {
                    (Some(local), Some(other)) => {
                        match repo_graph_ahead_behind(repo, local, other) {
                            Some((ahead, behind)) => {
                                divergence = Some((ahead as u64, behind as u64));
                            }
                            None => {}
                        }
                    }
                    _ => {}
                }
            }
        }
    }

    let head_ref: Option<&str> = match &head_name {
        Some(s) => Some(s.as_str()),
        None => None,
    };
    let line = compose_status(theme, head_ref, &entries, divergence);
    proof {
        assert(line@ == spec_compose(*theme, opt_str_view(head_ref), entries@, divergence));
    }
    Some(line)
}

/// Renders the git section for the active pane's working directory, where
/// that directory is known and lies inside a repository.
pub fn git_status(ctx: &StatusContext) -> (r: Option<String>)
    ensures
        r matches Some(line) ==> (exists|
            head: Option<Seq<char>>,
            entries: Seq<StatusEntry>,
            div: Option<(u64, u64)>,
        |
            line@ == spec_compose(ctx.theme, head, entries, div)),
        ctx.spec_get_variable("pane_current_path"@) is None ==> r is None,
{
    match ctx.get_tmux_variable("pane_current_path") {
        Some(pane_current_path) => match repo_discover(pane_current_path.as_str()) {
            Some(repo) => print_status(&ctx.theme, &repo),
            None => None,
        },
        None => None,
    }
}

} // verus!
