use tmux_status::batt_status::{batt_status, os_batt_status, BatteryStatus, Duration};
use tmux_status::text::{parse_u64, u64_to_string};
use tmux_status::themes::{Style, Theme};
use tmux_status::StatusContext;

#[test]
fn duration_from_str_parses_hours_and_minutes() {
    let d = Duration::from_str("3:15").unwrap();
    assert_eq!(d.hour, 3);
    assert_eq!(d.min, 15);
    let d = Duration::from_str("0:00").unwrap();
    assert_eq!(d.hour, 0);
    assert_eq!(d.min, 0);
}

#[test]
fn duration_from_str_accepts_a_leading_plus() {
    let d = Duration::from_str("3:+15").unwrap();
    assert_eq!(d.hour, 3);
    assert_eq!(d.min, 15);
    let d = Duration::from_str("+3:15").unwrap();
    assert_eq!(d.hour, 3);
    assert_eq!(d.min, 15);
    assert!(Duration::from_str("+:15").is_err());
    assert!(Duration::from_str("++3:15").is_err());
}

#[test]
fn duration_from_str_rejects_malformed_text() {
    assert!(Duration::from_str("").is_err());
    assert!(Duration::from_str("315").is_err());
    assert!(Duration::from_str("3:").is_err());
    assert!(Duration::from_str(":15").is_err());
    assert!(Duration::from_str("3:1x").is_err());
    assert!(Duration::from_str("99999999999999999999:1").is_err());
}

#[test]
fn os_batt_status_reads_discharging_report() {
    let raw = "Now drawing from 'Battery Power'\n -InternalBattery-0 (id=12345)\t93%; \
discharging; 3:15 remaining present: true";
    match os_batt_status(raw).unwrap() {
        BatteryStatus::Discharging { percent_charge, time_remaining } => {
            assert_eq!(percent_charge, 93);
            let d = time_remaining.unwrap();
            assert_eq!(d.hour, 3);
            assert_eq!(d.min, 15);
        }
        other => panic!("unexpected reading: {:?}", other),
    }
}

#[test]
fn os_batt_status_reads_charging_report_without_time() {
    let raw = "Now drawing from 'AC Power'\n -InternalBattery-0 (id=12345)\t100%; charged; \
present: true";
    match os_batt_status(raw).unwrap() {
        BatteryStatus::Charging { percent_charge, time_remaining } => {
            assert_eq!(percent_charge, 100);
            assert!(time_remaining.is_none());
        }
        other => panic!("unexpected reading: {:?}", other),
    }
}

#[test]
fn os_batt_status_resumes_after_an_incomplete_occurrence() {
    match os_batt_status("5%;x 7%; discharging;").unwrap() {
        BatteryStatus::Discharging { percent_charge, time_remaining } => {
            assert_eq!(percent_charge, 7);
            assert!(time_remaining.is_none());
        }
        other => panic!("unexpected reading: {:?}", other),
    }
}

#[test]
fn os_batt_status_accepts_unicode_whitespace() {
    match os_batt_status("93%;\u{a0}discharging;").unwrap() {
        BatteryStatus::Discharging { percent_charge, .. } => assert_eq!(percent_charge, 93),
        other => panic!("unexpected reading: {:?}", other),
    }
}

#[test]
fn os_batt_status_rejects_unreadable_reports() {
    assert!(os_batt_status("").is_err());
    assert!(os_batt_status("no battery here").is_err());
    assert!(os_batt_status("93% discharging").is_err());
    assert!(os_batt_status("999%; discharging; 1:00").is_err());
    assert!(os_batt_status("93%;discharging;").is_err());
}

#[test]
fn battery_text_with_and_without_time() {
    let with_time = BatteryStatus::Discharging {
        percent_charge: 93,
        time_remaining: Some(Duration { hour: 3, min: 15 }),
    };
    assert_eq!(with_time.to_status_string(), " 93% (3h 15m) \u{f0082}  ");

    let without_time = BatteryStatus::Charging { percent_charge: 42, time_remaining: None };
    assert_eq!(without_time.to_status_string(), " 42% \u{f06a5}  ");
}

#[test]
fn battery_icon_levels() {
    for (percent, icon) in
        [(100u8, '\u{f0079}'), (95, '\u{f0082}'), (55, '\u{f007d}'), (5, '\u{f007a}')]
    {
        let status =
            BatteryStatus::Discharging { percent_charge: percent, time_remaining: None };
        let text = status.to_status_string();
        assert!(text.ends_with(&format!("{}  ", icon)), "{}: {}", percent, text);
    }
}

#[test]
fn batt_status_styles_by_charge_level() {
    let theme = Theme::from(vec![
        (Style::BatteryLow, String::from("#[fg=red]")),
        (Style::BatteryMid, String::from("#[fg=yellow]")),
        (Style::BatteryHigh, String::from("#[fg=green]")),
    ]);
    let ctx = StatusContext::new(theme);

    let low = BatteryStatus::Discharging { percent_charge: 10, time_remaining: None };
    assert_eq!(batt_status(&ctx, &low), "#[fg=red] 10% \u{f007a}  #[default]");

    let mid = BatteryStatus::Discharging { percent_charge: 50, time_remaining: None };
    assert_eq!(batt_status(&ctx, &mid), "#[fg=yellow] 50% \u{f007d}  #[default]");

    let high = BatteryStatus::Charging { percent_charge: 90, time_remaining: None };
    assert_eq!(batt_status(&ctx, &high), "#[fg=green] 90% \u{f06a5}  #[default]");
}

#[test]
fn decimal_text_round_trip() {
    assert_eq!(u64_to_string(0), "0");
    assert_eq!(u64_to_string(7), "7");
    assert_eq!(u64_to_string(1234), "1234");
    assert_eq!(u64_to_string(u64::MAX), "18446744073709551615");
    assert_eq!(parse_u64("0"), Some(0));
    assert_eq!(parse_u64("1234"), Some(1234));
    assert_eq!(parse_u64("18446744073709551615"), Some(u64::MAX));
    assert_eq!(parse_u64("18446744073709551616"), None);
    assert_eq!(parse_u64(""), None);
    assert_eq!(parse_u64("12a"), None);
}
