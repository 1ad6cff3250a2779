use tmux_status::themes::{Style, Theme};
use tmux_status::tmux_details::{parse_tmux_variables, tmux_status};
use tmux_status::user_details::user_details;
use tmux_status::{tmux_left, tmux_right, StatusContext};

fn context_with(vars: Vec<(&str, &str)>) -> StatusContext {
    let mut ctx = StatusContext::new(Theme::from(vec![]));
    ctx.set_tmux_variables(
        vars.into_iter().map(|(k, v)| (String::from(k), String::from(v))).collect(),
    );
    ctx
}

#[test]
fn parse_variables_splits_on_first_equals() {
    let vars = parse_tmux_variables("window_index=3\npane_current_path=/tmp\nkey=a=b\nnoise\n");
    assert_eq!(
        vars,
        vec![
            (String::from("window_index"), String::from("3")),
            (String::from("pane_current_path"), String::from("/tmp")),
            (String::from("key"), String::from("a=b")),
        ]
    );
}

#[test]
fn parse_variables_handles_carriage_returns_and_empty_input() {
    assert_eq!(parse_tmux_variables(""), vec![]);
    assert_eq!(
        parse_tmux_variables("a=1\r\nb=2"),
        vec![(String::from("a"), String::from("1")), (String::from("b"), String::from("2"))]
    );
}

#[test]
fn context_variables_are_set_once() {
    let mut ctx = StatusContext::new(Theme::from(vec![]));
    assert!(ctx.get_tmux_variable("window_index").is_none());
    ctx.set_tmux_variables(vec![(String::from("window_index"), String::from("3"))]);
    assert_eq!(ctx.get_tmux_variable("window_index").unwrap(), "3");
    ctx.set_tmux_variables(vec![(String::from("window_index"), String::from("9"))]);
    assert_eq!(ctx.get_tmux_variable("window_index").unwrap(), "3");
}

#[test]
fn duplicate_variable_keys_keep_the_last_value() {
    let ctx = context_with(vec![("a", "1"), ("b", "2"), ("a", "3")]);
    assert_eq!(ctx.get_tmux_variable("a").unwrap(), "3");
    assert_eq!(ctx.get_tmux_variable("b").unwrap(), "2");
}

#[test]
fn tmux_status_shows_window_index() {
    let ctx = context_with(vec![("window_index", "3")]);
    assert_eq!(tmux_status(&ctx).unwrap(), " \u{eb85} 3 ");
    let bare = StatusContext::new(Theme::from(vec![]));
    assert!(tmux_status(&bare).is_none());
}

#[test]
fn tmux_left_without_window_or_repository_is_empty() {
    let ctx = StatusContext::new(Theme::from(vec![]));
    assert_eq!(tmux_left(&ctx), "");
}

#[test]
fn tmux_left_shows_window_fragment() {
    let ctx = context_with(vec![("window_index", "7")]);
    assert_eq!(tmux_left(&ctx), " \u{eb85} 7 ");
}

#[test]
fn user_fragment_is_styled_and_padded() {
    let theme = Theme::from(vec![(Style::UserDetails, String::from("#[fg=white]"))]);
    let ctx = StatusContext::new(theme);
    assert_eq!(user_details(&ctx, "alice"), "  #[fg=white]alice  ");
}

#[test]
fn tmux_right_concatenates_user_and_battery() {
    let ctx = StatusContext::new(Theme::from(vec![]));
    assert_eq!(tmux_right(&ctx, Some("bob"), None), "  #[default]bob  ");
    assert_eq!(tmux_right(&ctx, None, None), "");
}
