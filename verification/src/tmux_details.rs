use vstd::prelude::*;

use crate::glyphs;
use crate::text::{char_to_string, find_char, find_char_at};
use crate::StatusContext;

verus! {

// ---------------------------------------------------------------------------
// The multiplexer's variables
// ---------------------------------------------------------------------------

/// What one line of the variable listing contributes: a line carrying '='
/// gives one (key, value) pair split at its first '=' (with a trailing
/// carriage return stripped first); any other line gives nothing.
pub open spec fn spec_line_entry(line: Seq<char>) -> Seq<(Seq<char>, Seq<char>)> {
    let trimmed = if line.len() > 0 && line.last() == '\r' {
        line.drop_last()
    } else {
        line
    };
    match find_char(trimmed, '=', 0) {
        Some(j) => if 0 <= j < trimmed.len() {
            seq![(trimmed.subrange(0, j), trimmed.subrange(j + 1, trimmed.len() as int))]
        } else {
            Seq::empty()
        },
        None => Seq::empty(),
    }
}

/// The pairs contributed by the lines of `s` from position `i` on, the
/// lines being separated by '\n'.
pub open spec fn spec_parse_vars_from(s: Seq<char>, i: int) -> Seq<(Seq<char>, Seq<char>)>
    decreases s.len() - i when 0 <= i
{
    if i >= s.len() {
        Seq::empty()
    } else {
        match find_char(s, '\n', i) {
            Some(j) => if i <= j < s.len() {
                spec_line_entry(s.subrange(i, j)) + spec_parse_vars_from(s, j + 1)
            } else {
                Seq::empty()
            },
            None => spec_line_entry(s.subrange(i, s.len() as int)),
        }
    }
}

/// The (key, value) pairs listed in the variable listing's text.
pub open spec fn spec_parse_vars(s: Seq<char>) -> Seq<(Seq<char>, Seq<char>)> {
    spec_parse_vars_from(s, 0)
}

fn parse_line(line: &str) -> (r: Option<(String, String)>)
    ensures
        match r {
            Some(kv) => spec_line_entry(line@) == seq![(kv.0@, kv.1@)],
            None => spec_line_entry(line@) == Seq::<(Seq<char>, Seq<char>)>::empty(),
        },
{
    let n = line.unicode_len();
    let trimmed = if n > 0 && line.get_char(n - 1) == '\r' {
        line.substring_char(0, n - 1)
    } else {
        line
    };
    proof {
        if n > 0 && line@.last() == '\r' {
            assert(trimmed@ =~= line@.drop_last());
        }
    }
    let m = trimmed.unicode_len();
    match find_char_at(trimmed, '=', 0) {
        Some(j) => {
            let key = trimmed.substring_char(0, j);
            let value = trimmed.substring_char(j + 1, m);
            Some((String::from_str(key), String::from_str(value)))
        }
        None => None,
    }
}

/// Splits the variable listing into its (key, value) pairs: one pair per
/// line that carries '=', split at the line's first '='.
pub fn parse_tmux_variables(raw: &str) -> (r: Vec<(String, String)>)
    ensures
        r@.map_values(|e: (String, String)| (e.0@, e.1@)) == spec_parse_vars(raw@),
{
    let n = raw.unicode_len();
    let mut result: Vec<(String, String)> = Vec::new();
    let mut pos: usize = 0;
    while pos < n
        invariant
            n == raw@.len(),
            0 <= pos <= n,
            result@.map_values(|e: (String, String)| (e.0@, e.1@)) + spec_parse_vars_from(
                raw@,
                pos as int,
            ) == spec_parse_vars(raw@),
        decreases n - pos,
    {
        let ghost done = result@.map_values(|e: (String, String)| (e.0@, e.1@));
        match find_char_at(raw, '\n', pos) {
            Some(j) => {
                let line = raw.substring_char(pos, j);
                match parse_line(line) {
                    Some(kv) => {
                        result.push(kv);
                    }
                    None => {}
                }
                proof {
                    assert(result@.map_values(|e: (String, String)| (e.0@, e.1@)) =~= done
                        + spec_line_entry(raw@.subrange(pos as int, j as int)));
                    assert(done + spec_line_entry(raw@.subrange(pos as int, j as int))
                        + spec_parse_vars_from(raw@, j + 1) =~= done + (spec_line_entry(
                        raw@.subrange(pos as int, j as int),
                    ) + spec_parse_vars_from(raw@, j + 1)));
                }
                pos = j + 1;
            }
            None => {
                let line = raw.substring_char(pos, n);
                match parse_line(line) {
                    Some(kv) => {
                        result.push(kv);
                    }
                    None => {}
                }
                proof {
                    assert(result@.map_values(|e: (String, String)| (e.0@, e.1@)) =~= done
                        + spec_line_entry(raw@.subrange(pos as int, n as int)));
                    assert(spec_parse_vars_from(raw@, n as int) == Seq::<(
                        Seq<char>,
                        Seq<char>,
                    )>::empty());
                    assert(done + spec_line_entry(raw@.subrange(pos as int, n as int)) + Seq::<(
                        Seq<char>,
                        Seq<char>,
                    )>::empty() =~= done + spec_line_entry(raw@.subrange(pos as int, n as int)));
                }
                pos = n;
            }
        }
    }
    proof {
        assert(spec_parse_vars_from(raw@, pos as int) == Seq::<(Seq<char>, Seq<char>)>::empty());
        assert(result@.map_values(|e: (String, String)| (e.0@, e.1@)) + Seq::<(
            Seq<char>,
            Seq<char>,
        )>::empty() =~= result@.map_values(|e: (String, String)| (e.0@, e.1@)));
    }
    result
}

// ---------------------------------------------------------------------------
// The window fragment
// ---------------------------------------------------------------------------

/// The window fragment's text, where the window index is known: a window
/// icon and the index, padded with single spaces.
pub open spec fn spec_tmux_status_text(ctx: StatusContext) -> Seq<char> {
    match ctx.spec_get_variable("window_index"@) {
        Some(v) => " "@ + seq![glyphs::COD_WINDOW] + " "@ + v + " "@,
        None => Seq::empty(),
    }
}

/// Renders the window fragment, where the multiplexer reported a window
/// index.
pub fn tmux_status(ctx: &StatusContext) -> (r: Option<String>)
    ensures
        match r {
            Some(s) => s@ == spec_tmux_status_text(*ctx) && s@.len() > 0,
            None => spec_tmux_status_text(*ctx) == Seq::<char>::empty()
                && ctx.spec_get_variable("window_index"@) is None,
        },
{
    match ctx.get_tmux_variable("window_index") {
        Some(index) => {
            let mut r = String::from_str(" ");
            let icon = char_to_string(glyphs::COD_WINDOW);
            r.append(icon.as_str());
            r.append(" ");
            r.append(index.as_str());
            r.append(" ");
            Some(r)
        }
        None => None,
    }
}

} // verus!
