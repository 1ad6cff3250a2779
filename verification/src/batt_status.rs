use vstd::prelude::*;

use crate::glyphs;
use crate::text::{
    all_digits, char_to_string, dec_val, exec_is_digit, find_char, find_char_at, is_digit,
    parse_u64, str_eq, u64_to_string, spec_dec,
};
use crate::themes::Style;
use crate::StatusContext;

verus! {

// ---------------------------------------------------------------------------
// Battery readings
// ---------------------------------------------------------------------------

/// A time span of whole hours and minutes.
#[derive(Debug, PartialEq, Eq, Structural, Clone, Copy)]
pub struct Duration {
    pub hour: u64,
    pub min: u64,
}

#[derive(Debug, PartialEq, Eq, Structural, Clone, Copy)]
pub enum DurationError {
    InvalidDurationString,
}

/// A number's text may open with one '+' sign, which does not change its
/// value; strip it.
pub open spec fn strip_plus(s: Seq<char>) -> Seq<char> {
    if s.len() > 0 && s[0] == '+' {
        s.drop_first()
    } else {
        s
    }
}

/// What "H:M" text parses to: the text up to the first ':' and the text
/// after it must each be a non-empty digit run, optionally after one '+'
/// sign, whose value fits in a `u64`.
pub open spec fn spec_parse_duration(s: Seq<char>) -> Option<(nat, nat)> {
    match find_char(s, ':', 0) {
        Some(j) => {
            if 0 <= j < s.len() {
                let h = strip_plus(s.subrange(0, j));
                let m = strip_plus(s.subrange(j + 1, s.len() as int));
                if h.len() > 0 && all_digits(h) && dec_val(h) <= u64::MAX && m.len() > 0
                    && all_digits(m) && dec_val(m) <= u64::MAX {
                    Some((dec_val(h), dec_val(m)))
                } else {
                    None
                }
            } else {
                None
            }
        }
        None => None,
    }
}

/// Drops a number text's one optional leading '+' sign.
fn exec_strip_plus<'a>(s: &'a str) -> (r: &'a str)
    ensures
        r@ == strip_plus(s@),
{
    let n = s.unicode_len();
    if n > 0 && s.get_char(0) == '+' {
        let r = s.substring_char(1, n);
        proof {
            assert(r@ =~= strip_plus(s@));
        }
        r
    } else {
        s
    }
}

impl Duration {
    /// Parses "H:M" text.
    pub fn from_str(s: &str) -> (r: Result<Duration, DurationError>)
        ensures
            match r {
                Ok(d) => spec_parse_duration(s@) == Some((d.hour as nat, d.min as nat)),
                Err(_) => spec_parse_duration(s@) is None,
            },
    {
        match find_char_at(s, ':', 0) {
            Some(j) => {
                let n = s.unicode_len();
                let h = exec_strip_plus(s.substring_char(0, j));
                let m = exec_strip_plus(s.substring_char(j + 1, n));
                match (parse_u64(h), parse_u64(m)) {
                    (Some(hour), Some(min)) => Ok(Duration { hour, min }),
                    _ => Err(DurationError::InvalidDurationString),
                }
            }
            None => Err(DurationError::InvalidDurationString),
        }
    }
}

/// A battery reading: the charge percentage, whether the battery is
/// charging or discharging, and the time remaining where the source
/// reported one.
#[derive(Debug, PartialEq, Eq, Clone, Copy)]
pub enum BatteryStatus {
    Charging { percent_charge: u8, time_remaining: Option<Duration> },
    Discharging { percent_charge: u8, time_remaining: Option<Duration> },
}

impl BatteryStatus {
    pub open spec fn percent(&self) -> u8 {
        match self {
            BatteryStatus::Charging { percent_charge, .. } => *percent_charge,
            BatteryStatus::Discharging { percent_charge, .. } => *percent_charge,
        }
    }

    pub open spec fn time(&self) -> Option<Duration> {
        match self {
            BatteryStatus::Charging { time_remaining, .. } => *time_remaining,
            BatteryStatus::Discharging { time_remaining, .. } => *time_remaining,
        }
    }

    pub open spec fn is_discharging(&self) -> bool {
        self matches BatteryStatus::Discharging { .. }
    }
}

/// A discharging reading above 109 percent has no icon: no battery data
/// source reports one.
pub open spec fn reasonable_charge(status: BatteryStatus) -> bool {
    status.is_discharging() ==> status.percent() <= 109
}

/// The battery-level icon: a plug while charging, else a gauge picked by
/// tens of percent.
pub open spec fn spec_batt_icon(status: BatteryStatus) -> char {
    if !status.is_discharging() {
        glyphs::MD_POWER_PLUG
    } else {
        let d = status.percent() / 10;
        if d >= 10 {
            glyphs::MD_BATTERY
        } else if d == 9 {
            glyphs::MD_BATTERY_90
        } else if d == 8 {
            glyphs::MD_BATTERY_80
        } else if d == 7 {
            glyphs::MD_BATTERY_70
        } else if d == 6 {
            glyphs::MD_BATTERY_60
        } else if d == 5 {
            glyphs::MD_BATTERY_40
        } else if d == 4 {
            glyphs::MD_BATTERY_40
        } else if d == 3 {
            glyphs::MD_BATTERY_30
        } else if d == 2 {
            glyphs::MD_BATTERY_20
        } else {
            glyphs::MD_BATTERY_10
        }
    }
}

pub fn batt_icon(status: &BatteryStatus) -> (c: char)
    requires
        reasonable_charge(*status),
    ensures
        c == spec_batt_icon(*status),
{
    match status {
        BatteryStatus::Charging { .. } => glyphs::MD_POWER_PLUG,
        BatteryStatus::Discharging { percent_charge, .. } => {
            let d = *percent_charge / 10;
            if d >= 10 {
                glyphs::MD_BATTERY
            } else if d == 9 {
                glyphs::MD_BATTERY_90
            } else if d == 8 {
                glyphs::MD_BATTERY_80
            } else if d == 7 {
                glyphs::MD_BATTERY_70
            } else if d == 6 {
                glyphs::MD_BATTERY_60
            } else if d == 5 {
                glyphs::MD_BATTERY_40
            } else if d == 4 {
                glyphs::MD_BATTERY_40
            } else if d == 3 {
                glyphs::MD_BATTERY_30
            } else if d == 2 {
                glyphs::MD_BATTERY_20
            } else {
                glyphs::MD_BATTERY_10
            }
        }
    }
}

/// The battery line's text: percentage, time remaining where known, icon.
pub open spec fn spec_batt_text(status: BatteryStatus) -> Seq<char> {
    match status.time() {
        Some(d) => " "@ + spec_dec(status.percent() as nat) + "% ("@ + spec_dec(d.hour as nat)
            + "h "@ + spec_dec(d.min as nat) + "m) "@ + seq![spec_batt_icon(status)] + "  "@,
        None => " "@ + spec_dec(status.percent() as nat) + "% "@ + seq![spec_batt_icon(status)]
            + "  "@,
    }
}

impl BatteryStatus {
    /// Renders the reading as the battery line's text.
    pub fn to_status_string(&self) -> (r: String)
        requires
            reasonable_charge(*self),
        ensures
            r@ == spec_batt_text(*self),
    {
        let percent_charge = match self {
            BatteryStatus::Charging { percent_charge, .. } => *percent_charge,
            BatteryStatus::Discharging { percent_charge, .. } => *percent_charge,
        };
        let time_remaining = match self {
            BatteryStatus::Charging { time_remaining, .. } => *time_remaining,
            BatteryStatus::Discharging { time_remaining, .. } => *time_remaining,
        };
        let mut r = String::from_str(" ");
        let p = u64_to_string(percent_charge as u64);
        r.append(p.as_str());
        match time_remaining {
            Some(d) => {
                r.append("% (");
                let h = u64_to_string(d.hour);
                r.append(h.as_str());
                r.append("h ");
                let m = u64_to_string(d.min);
                r.append(m.as_str());
                r.append("m) ");
            }
            None => {
                r.append("% ");
            }
        }
        let icon = char_to_string(batt_icon(self));
        r.append(icon.as_str());
        r.append("  ");
        proof {
            assert(r@ =~= spec_batt_text(*self));
        }
        r
    }
}

/// The style a charge level is shown in.
pub open spec fn spec_batt_style(percent: u8) -> Style {
    if percent < 33 {
        Style::BatteryLow
    } else if percent < 66 {
        Style::BatteryMid
    } else {
        Style::BatteryHigh
    }
}

/// Renders the battery fragment from an already-obtained reading.
pub fn batt_status(ctx: &StatusContext, status: &BatteryStatus) -> (r: String)
    requires
        reasonable_charge(*status),
    ensures
        r@ == ctx.theme.spec_styled(spec_batt_style(status.percent()), spec_batt_text(*status)),
{
    let percent_charge = match status {
        BatteryStatus::Charging { percent_charge, .. } => *percent_charge,
        BatteryStatus::Discharging { percent_charge, .. } => *percent_charge,
    };
    let batt_charge = if percent_charge < 33 {
        Style::BatteryLow
    } else if percent_charge < 66 {
        Style::BatteryMid
    } else {
        Style::BatteryHigh
    };
    let text = status.to_status_string();
    ctx.theme.get_style_str(batt_charge, text.as_str())
}

// ---------------------------------------------------------------------------
// Reading the OS battery report
// ---------------------------------------------------------------------------

#[derive(Debug, PartialEq, Eq, Structural, Clone, Copy)]
pub enum BatteryError {
    UnreadableStatus,
}

/// Whether a character counts as whitespace in the battery report: the
/// Unicode whitespace characters.
pub open spec fn is_space(c: char) -> bool {
    let u = c as int;
    (9 <= u && u <= 13) || u == 32 || u == 0x85 || u == 0xa0 || u == 0x1680 || (0x2000 <= u && u
        <= 0x200a) || u == 0x2028 || u == 0x2029 || u == 0x202f || u == 0x205f || u == 0x3000
}

fn exec_is_space(c: char) -> (b: bool)
    ensures
        b == is_space(c),
{
    let u = c as u32;
    (9 <= u && u <= 13) || u == 32 || u == 0x85 || u == 0xa0 || u == 0x1680 || (0x2000 <= u && u
        <= 0x200a) || u == 0x2028 || u == 0x2029 || u == 0x202f || u == 0x205f || u == 0x3000
}

/// Whether position `i` is the '%' of a "<digit>%;" occurrence.
pub open spec fn pct_at(s: Seq<char>, i: int) -> bool {
    i + 1 < s.len() && s[i] == '%' && s[i + 1] == ';' && is_digit(s[i - 1])
}

/// The start of the maximal digit run ending just before `i`.
pub open spec fn digit_run_start(s: Seq<char>, i: int) -> int
    decreases i when 0 <= i <= s.len()
{
    if i == 0 {
        0
    } else if is_digit(s[i - 1]) {
        digit_run_start(s, i - 1)
    } else {
        i
    }
}

proof fn lemma_digit_run_start_le(s: Seq<char>, i: int)
    requires
        0 <= i <= s.len(),
    ensures
        0 <= digit_run_start(s, i) <= i,
    decreases i,
{
    if i > 0 && is_digit(s[i - 1]) {
        lemma_digit_run_start_le(s, i - 1);
    }
}

fn scan_digits_back(s: &str, from: usize) -> (r: usize)
    requires
        from <= s@.len(),
    ensures
        r == digit_run_start(s@, from as int),
        r <= from,
        forall|k: int| r <= k < from ==> is_digit(s@[k]),
{
    let mut k = from;
    while k > 0 && exec_is_digit(s.get_char(k - 1))
        invariant
            from <= s@.len(),
            0 <= k <= from,
            digit_run_start(s@, from as int) == digit_run_start(s@, k as int),
            forall|j: int| k <= j < from ==> is_digit(s@[j]),
        decreases k,
    {
        k = k - 1;
    }
    k
}

/// The end of the digit run starting at `i`.
pub open spec fn digit_run_end(s: Seq<char>, i: int) -> int
    decreases s.len() - i when 0 <= i
{
    if i >= s.len() {
        i
    } else if is_digit(s[i]) {
        digit_run_end(s, i + 1)
    } else {
        i
    }
}

proof fn lemma_digit_run_end_skip(s: Seq<char>, lo: int, hi: int)
    requires
        0 <= lo <= hi <= s.len(),
        forall|k: int| lo <= k < hi ==> is_digit(s[k]),
    ensures
        digit_run_end(s, lo) == digit_run_end(s, hi),
    decreases hi - lo,
{
    if lo < hi {
        lemma_digit_run_end_skip(s, lo + 1, hi);
    }
}

fn scan_digit_run(s: &str, from: usize) -> (r: usize)
    requires
        from <= s@.len(),
    ensures
        r == digit_run_end(s@, from as int),
        from <= r <= s@.len(),
        forall|k: int| from <= k < r ==> is_digit(s@[k]),
{
    let n = s.unicode_len();
    let mut j = from;
    while j < n && exec_is_digit(s.get_char(j))
        invariant
            n == s@.len(),
            from <= j <= n,
            forall|k: int| from <= k < j ==> is_digit(s@[k]),
        decreases n - j,
    {
        j = j + 1;
    }
    proof {
        lemma_digit_run_end_skip(s@, from as int, j as int);
    }
    j
}

/// The end of the whitespace run starting at `i`.
pub open spec fn space_run_end(s: Seq<char>, i: int) -> int
    decreases s.len() - i when 0 <= i
{
    if i >= s.len() {
        i
    } else if is_space(s[i]) {
        space_run_end(s, i + 1)
    } else {
        i
    }
}

proof fn lemma_space_run_end_skip(s: Seq<char>, lo: int, hi: int)
    requires
        0 <= lo <= hi <= s.len(),
        forall|k: int| lo <= k < hi ==> is_space(s[k]),
    ensures
        space_run_end(s, lo) == space_run_end(s, hi),
    decreases hi - lo,
{
    if lo < hi {
        lemma_space_run_end_skip(s, lo + 1, hi);
    }
}

fn scan_space_run(s: &str, from: usize) -> (r: usize)
    requires
        from <= s@.len(),
    ensures
        r == space_run_end(s@, from as int),
        from <= r <= s@.len(),
{
    let n = s.unicode_len();
    let mut j = from;
    while j < n && exec_is_space(s.get_char(j))
        invariant
            n == s@.len(),
            from <= j <= n,
            forall|k: int| from <= k < j ==> is_space(s@[k]),
        decreases n - j,
    {
        j = j + 1;
    }
    proof {
        lemma_space_run_end_skip(s@, from as int, j as int);
    }
    j
}

/// The end of the run of non-';' characters starting at `i`.
pub open spec fn nonsemi_run_end(s: Seq<char>, i: int) -> int
    decreases s.len() - i when 0 <= i
{
    if i >= s.len() {
        i
    } else if s[i] != ';' {
        nonsemi_run_end(s, i + 1)
    } else {
        i
    }
}

proof fn lemma_nonsemi_run_end_skip(s: Seq<char>, lo: int, hi: int)
    requires
        0 <= lo <= hi <= s.len(),
        forall|k: int| lo <= k < hi ==> s[k] != ';',
    ensures
        nonsemi_run_end(s, lo) == nonsemi_run_end(s, hi),
    decreases hi - lo,
{
    if lo < hi {
        lemma_nonsemi_run_end_skip(s, lo + 1, hi);
    }
}

fn scan_nonsemi_run(s: &str, from: usize) -> (r: usize)
    requires
        from <= s@.len(),
    ensures
        r == nonsemi_run_end(s@, from as int),
        from <= r <= s@.len(),
{
    let n = s.unicode_len();
    let mut j = from;
    while j < n && s.get_char(j) != ';'
        invariant
            n == s@.len(),
            from <= j <= n,
            forall|k: int| from <= k < j ==> s@[k] != ';',
        decreases n - j,
    {
        j = j + 1;
    }
    proof {
        lemma_nonsemi_run_end_skip(s@, from as int, j as int);
    }
    j
}

/// The battery report's fields at the specification level.
pub struct SpecBattReading {
    pub percent: nat,
    pub discharging: bool,
    pub time: Option<(nat, nat)>,
}

/// An optional "H:M" time starting at `q`: present when a non-empty digit
/// run, a ':' and another non-empty digit run stand there and both values
/// fit in a `u64`.
pub open spec fn spec_time_at(s: Seq<char>, q: int) -> Option<(nat, nat)> {
    let d1 = digit_run_end(s, q);
    if d1 == q {
        None
    } else if d1 < s.len() && s[d1] == ':' {
        let d2 = digit_run_end(s, d1 + 1);
        if d2 == d1 + 1 {
            None
        } else {
            let h = s.subrange(q, d1);
            let m = s.subrange(d1 + 1, d2);
            if dec_val(h) <= u64::MAX && dec_val(m) <= u64::MAX {
                Some((dec_val(h), dec_val(m)))
            } else {
                None
            }
        }
    } else {
        None
    }
}

/// Whether the report's structure completes after the anchor at `p`: at
/// least one whitespace character must follow the "%;", and a status token
/// closed by ';' must follow the whitespace. A whitespace run of two or
/// more directly closed by ';' also completes: its last character then
/// serves as the token.
pub open spec fn anchor_matches(s: Seq<char>, p: int) -> bool {
    let ws_end = space_run_end(s, p + 2);
    let tok_end = nonsemi_run_end(s, ws_end);
    ws_end > p + 2 && tok_end < s.len() && (tok_end > ws_end || ws_end - (p + 2) >= 2)
}

/// An anchor whose structure completes.
pub open spec fn anchor_at(s: Seq<char>, i: int) -> bool {
    pct_at(s, i) && anchor_matches(s, i)
}

/// The fields read at a completed anchor at `p`, or nothing where the
/// reader gives up for good: a status token shorter than three characters
/// (its closing ';' included), or a charge that does not fit eight bits.
pub open spec fn spec_reading_at(s: Seq<char>, p: int) -> Option<SpecBattReading> {
    let dstart = digit_run_start(s, p);
    let percent = dec_val(s.subrange(dstart, p));
    let ws_end = space_run_end(s, p + 2);
    let tok_end = nonsemi_run_end(s, ws_end);
    if tok_end == ws_end {
        None
    } else if tok_end + 1 - ws_end < 3 {
        None
    } else if percent > 255 {
        None
    } else {
        Some(
            SpecBattReading {
                percent,
                discharging: s.subrange(ws_end, ws_end + 3) == "dis"@,
                time: spec_time_at(
                    s,
                    if tok_end + 1 < s.len() && is_space(s[tok_end + 1]) {
                        tok_end + 2
                    } else {
                        tok_end + 1
                    },
                ),
            },
        )
    }
}

/// The reading at the first anchor whose structure completes; an anchor
/// whose surroundings do not complete is passed over and the scan resumes
/// behind it.
pub open spec fn spec_parse_from(s: Seq<char>, i: int) -> Option<SpecBattReading>
    decreases s.len() - i when 1 <= i
{
    if i + 1 >= s.len() {
        None
    } else if anchor_at(s, i) {
        spec_reading_at(s, i)
    } else {
        spec_parse_from(s, i + 1)
    }
}

/// What the whole battery report parses to: the reading at the first
/// "<digits>%;" occurrence followed by whitespace and a ';'-closed status
/// token (whose first three characters decide charging against
/// discharging) and an optional time remaining; an occurrence not followed
/// by that structure is passed over in favor of a later one.
pub open spec fn spec_parse_batt(s: Seq<char>) -> Option<SpecBattReading> {
    spec_parse_from(s, 1)
}

/// Whether a reading carries exactly the parsed fields.
pub open spec fn batt_matches(status: BatteryStatus, f: SpecBattReading) -> bool {
    &&& status.percent() as nat == f.percent
    &&& status.is_discharging() == f.discharging
    &&& (match (status.time(), f.time) {
        (Some(d), Some(t)) => d.hour as nat == t.0 && d.min as nat == t.1,
        (None, None) => true,
        _ => false,
    })
}

/// Reads a battery status out of the OS battery report's text.
pub fn os_batt_status(raw: &str) -> (r: Result<BatteryStatus, BatteryError>)
    ensures
        match r {
            Ok(status) => (spec_parse_batt(raw@) matches Some(f) && batt_matches(status, f)),
            Err(_) => spec_parse_batt(raw@) is None,
        },
{
    let n = raw.unicode_len();
    if n < 2 {
        return Err(BatteryError::UnreadableStatus);
    }
    let mut i: usize = 1;
    while i + 1 < n
        invariant
            n == raw@.len(),
            2 <= n,
            1 <= i <= n - 1,
            spec_parse_from(raw@, 1) == spec_parse_from(raw@, i as int),
        decreases n - i,
    {
        let prev = raw.get_char(i - 1);
        let cur = raw.get_char(i);
        let nxt = raw.get_char(i + 1);
        if cur == '%' && nxt == ';' && exec_is_digit(prev) {
            let ws_end = scan_space_run(raw, i + 2);
            let tok_end = scan_nonsemi_run(raw, ws_end);
            if ws_end > i + 2 && tok_end < n && (tok_end > ws_end || ws_end - (i + 2) >= 2) {
                proof {
                    assert(anchor_at(raw@, i as int));
                    assert(spec_parse_batt(raw@) == spec_reading_at(raw@, i as int));
                }
                if tok_end == ws_end {
                    return Err(BatteryError::UnreadableStatus);
                }
                if tok_end + 1 - ws_end < 3 {
                    return Err(BatteryError::UnreadableStatus);
                }
                let dstart = scan_digits_back(raw, i);
                proof {
                    lemma_digit_run_start_le(raw@, i as int - 1);
                    assert(digit_run_start(raw@, i as int) == digit_run_start(
                        raw@,
                        i as int - 1,
                    ));
                }
                assert(dstart < i);
                let percent_text = raw.substring_char(dstart, i);
                assert(all_digits(percent_text@));
                let percent_64 = match parse_u64(percent_text) {
                    Some(v) => v,
                    None => {
                        return Err(BatteryError::UnreadableStatus);
                    }
                };
                if percent_64 > 255 {
                    return Err(BatteryError::UnreadableStatus);
                }
                let percent_charge: u8 = percent_64 as u8;
                let cat = raw.substring_char(ws_end, ws_end + 3);
                let discharging = str_eq(cat, "dis");
                let q = if tok_end + 1 < n && exec_is_space(raw.get_char(tok_end + 1)) {
                    tok_end + 2
                } else {
                    tok_end + 1
                };
                let mut time_remaining: Option<Duration> = None;
                let d1 = scan_digit_run(raw, q);
                if d1 > q && d1 < n && raw.get_char(d1) == ':' {
                    let d2 = scan_digit_run(raw, d1 + 1);
                    if d2 > d1 + 1 {
                        let h_text = raw.substring_char(q, d1);
                        let m_text = raw.substring_char(d1 + 1, d2);
                        assert(all_digits(h_text@));
                        assert(all_digits(m_text@));
                        match (parse_u64(h_text), parse_u64(m_text)) {
                            (Some(hour), Some(min)) => {
                                time_remaining = Some(Duration { hour, min });
                            }
                            _ => {}
                        }
                    }
                }
                proof {
                    let f = spec_reading_at(raw@, i as int);
                    assert(f matches Some(g) && g.time == (match time_remaining {
                        Some(d) => Some((d.hour as nat, d.min as nat)),
                        None => None,
                    }));
                }
                let status = if discharging {
                    BatteryStatus::Discharging { percent_charge, time_remaining }
                } else {
                    BatteryStatus::Charging { percent_charge, time_remaining }
                };
                return Ok(status);
            } else {
                proof {
                    assert(!anchor_at(raw@, i as int));
                }
            }
        } else {
            proof {
                assert(!pct_at(raw@, i as int));
            }
        }
        proof {
            assert(spec_parse_from(raw@, i as int) == spec_parse_from(raw@, i as int + 1));
        }
        i = i + 1;
    }
    proof {
        assert(spec_parse_from(raw@, i as int) is None);
    }
    Err(BatteryError::UnreadableStatus)
}

} // verus!
