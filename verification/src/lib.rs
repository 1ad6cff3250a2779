use vstd::prelude::*;

pub mod batt_status;
pub mod git_status;
pub mod glyphs;
pub mod repo;
pub mod text;
pub mod themes;
pub mod tmux_details;
pub mod user_details;

use crate::batt_status::{batt_status, reasonable_charge, spec_batt_style, spec_batt_text,
    BatteryStatus};
use crate::git_status::{git_status, spec_compose, StatusEntry};
use crate::text::{assoc_lookup_last, lemma_assoc_lookup_last_skip, str_eq};
use crate::themes::Theme;
use crate::tmux_details::{spec_tmux_status_text, tmux_status};
use crate::user_details::{spec_user_text, user_details};

verus! {

/// The state one status-line render works from: the theme, and the
/// multiplexer's variables, looked up at most once per invocation.
pub struct StatusContext {
    pub theme: Theme,
    pub tmux_variables: Option<Vec<(String, String)>>,
}

impl StatusContext {
    /// The variable table, once it has been supplied.
    pub closed spec fn spec_variables(&self) -> Option<Seq<(Seq<char>, Seq<char>)>> {
        match self.tmux_variables {
            Some(ref v) => Some(v@.map_values(|e: (String, String)| (e.0@, e.1@))),
            None => None,
        }
    }

    /// The value of one variable: the last entry for the key, if any, as a
    /// table built by inserting the listing's lines in order reports it.
    pub open spec fn spec_get_variable(&self, key: Seq<char>) -> Option<Seq<char>> {
        match self.spec_variables() {
            Some(vs) => assoc_lookup_last(vs, key),
            None => None,
        }
    }

    pub fn new(theme: Theme) -> (s: Self)
        ensures
            s.theme == theme,
            s.spec_variables() is None,
    {
        Self { theme, tmux_variables: None }
    }

    /// Supplies the variable table. It is computed at most once per
    /// invocation: a table already present is kept.
    pub fn set_tmux_variables(&mut self, vars: Vec<(String, String)>)
        ensures
            final(self).theme == old(self).theme,
            final(self).spec_variables() == if old(self).spec_variables() is None {
                Some(vars@.map_values(|e: (String, String)| (e.0@, e.1@)))
            } else {
                old(self).spec_variables()
            },
    {
        if self.tmux_variables.is_none() {
            self.tmux_variables = Some(vars);
        }
    }

    pub fn get_tmux_variable(&self, key: &str) -> (r: Option<&String>)
        ensures
            match r {
                Some(v) => self.spec_get_variable(key@) == Some(v@),
                None => self.spec_get_variable(key@) is None,
            },
    {
        match &self.tmux_variables {
            None => None,
            Some(vars) => {
                let ghost vs = vars@.map_values(|e: (String, String)| (e.0@, e.1@));
                let n = vars.len();
                let mut i: usize = n;
                while i > 0
                    invariant
                        n == vars.len(),
                        0 <= i <= n,
                        vs == vars@.map_values(|e: (String, String)| (e.0@, e.1@)),
                        vs.len() == n,
                        self.spec_variables() == Some(vs),
                        forall|k: int| i <= k < n ==> #[trigger] vs[k].0 != key@,
                    decreases i,
                {
                    let entry = &vars[i - 1];
                    if str_eq(entry.0.as_str(), key) {
                        proof {
                            lemma_assoc_lookup_last_skip(vs, key@, i as int);
                            assert(vs.take(i as int).last() == vs[i - 1]);
                            assert(vs.take(i as int).len() == i);
                        }
                        return Some(&entry.1);
                    }
                    i = i - 1;
                }
                proof {
                    lemma_assoc_lookup_last_skip(vs, key@, 0);
                    assert(vs.take(0).len() == 0);
                }
                None
            }
        }
    }
}

/// Renders the status bar's left side: the window fragment, then the git
/// section, each present where its data could be gathered.
pub fn tmux_left(ctx: &StatusContext) -> (r: String)
    ensures
        (exists|git_part: Seq<char>|
            r@ == spec_tmux_status_text(*ctx) + git_part && (git_part.len() == 0 || (exists|
                head: Option<Seq<char>>,
                entries: Seq<StatusEntry>,
                div: Option<(u64, u64)>,
            |
                git_part == spec_compose(ctx.theme, head, entries, div)))),
        ctx.spec_get_variable("pane_current_path"@) is None ==> r@ == spec_tmux_status_text(*ctx),
{
    let mut out = match tmux_status(ctx) {
        Some(s) => s,
        None => String::new(),
    };
    proof {
        assert(out@ =~= spec_tmux_status_text(*ctx));
    }
    match git_status(ctx) {
        Some(g) => {
            out.append(g.as_str());
            proof {
                assert(out@ == spec_tmux_status_text(*ctx) + g@);
            }
        }
        None => {
            proof {
                let ghost git_part = Seq::<char>::empty();
                assert(out@ =~= spec_tmux_status_text(*ctx) + git_part);
            }
        }
    }
    out
}

/// Renders the status bar's right side: the user fragment, then the battery
/// fragment, each present where its data could be read.
pub fn tmux_right(ctx: &StatusContext, user: Option<&str>, battery: Option<&BatteryStatus>) -> (r:
    String)
    requires
        (match battery {
            Some(b) => reasonable_charge(*b),
            None => true,
        }),
    ensures
        r@ == (match user {
            Some(u) => spec_user_text(*ctx, u@),
            None => Seq::<char>::empty(),
        }) + (match battery {
            Some(b) => ctx.theme.spec_styled(
                spec_batt_style(b.percent()),
                spec_batt_text(*b),
            ),
            None => Seq::<char>::empty(),
        }),
{
    let mut out = match user {
        Some(u) => user_details(ctx, u),
        None => String::new(),
    };
    match battery {
        Some(b) => {
            let frag = batt_status(ctx, b);
            out.append(frag.as_str());
        }
        None => {}
    }
    proof {
        assert(out@ =~= (match user {
            Some(u) => spec_user_text(*ctx, u@),
            None => Seq::<char>::empty(),
        }) + (match battery {
            Some(b) => ctx.theme.spec_styled(spec_batt_style(b.percent()), spec_batt_text(*b)),
            None => Seq::<char>::empty(),
        }));
    }
    out
}

} // verus!
