use tmux_status::themes::{Style, Theme};

#[test]
fn style_char() {
    let test_theme = Theme::from(vec![(Style::Normal, String::from("#[fg=red,bg=black]"))]);

    for ch in '\0'..='\u{d7ff}' {
        let actual = test_theme.get_style_char(Style::Normal, ch);
        assert_eq!(actual, format!("#[fg=red,bg=black]{}#[default]", ch));
    }
}

#[test]
fn style_srt() {
    let test_theme = Theme::from(vec![
        (Style::Normal, String::from("#[fg=red,bg=black]")),
        (Style::BatteryHigh, String::from("#[fg=green,bold]")),
    ]);

    assert_eq!(
        test_theme.get_style_str(Style::Normal, "hello!"),
        "#[fg=red,bg=black]hello!#[default]"
    );
    assert_eq!(
        test_theme.get_style_str(Style::BatteryHigh, "93% \u{f0082}"),
        "#[fg=green,bold]93% \u{f0082}#[default]"
    );
    assert_eq!(
        test_theme.get_style_str(Style::GitBranch, "\u{e725} main"),
        "#[default]\u{e725} main#[default]"
    );
}

#[test]
fn style_lookup_first_match_and_default() {
    let theme = Theme::from(vec![
        (Style::GitAhead, String::from("#[fg=blue]")),
        (Style::GitAhead, String::from("#[fg=cyan]")),
    ]);
    assert_eq!(theme.get_style(Style::GitAhead), "#[fg=blue]");
    assert_eq!(theme.get_style(Style::GitBehind), "#[default]");
}
