use vstd::prelude::*;

verus! {

// The icon characters of the status line, from the "nerd fonts" icon set.

pub const MD_TAG: char = '\u{f04f9}';

pub const MD_HEAD_ALERT: char = '\u{f135f}';

pub const MD_CARDS_PLAYING: char = '\u{f063a}';

pub const MD_POWER_PLUG: char = '\u{f06a5}';

pub const MD_BATTERY: char = '\u{f0079}';

pub const MD_BATTERY_10: char = '\u{f007a}';

pub const MD_BATTERY_20: char = '\u{f007b}';

pub const MD_BATTERY_30: char = '\u{f007c}';

pub const MD_BATTERY_40: char = '\u{f007d}';

pub const MD_BATTERY_60: char = '\u{f007f}';

pub const MD_BATTERY_70: char = '\u{f0080}';

pub const MD_BATTERY_80: char = '\u{f0081}';

pub const MD_BATTERY_90: char = '\u{f0082}';

pub const DEV_GIT_BRANCH: char = '\u{e725}';

pub const DEV_GIT_COMPARE: char = '\u{e728}';

pub const FA_ROCKET: char = '\u{f135}';

pub const FA_THUMBS_UP: char = '\u{f164}';

pub const FA_ARROW_UP: char = '\u{f062}';

pub const FA_ARROW_DOWN: char = '\u{f063}';

pub const COD_WINDOW: char = '\u{eb85}';

} // verus!
