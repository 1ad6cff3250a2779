use vstd::prelude::*;

use crate::text::{assoc_lookup, char_to_string, lemma_assoc_lookup_skip};

verus! {

/// A symbolic style name: each themed fragment of the status line is wrapped
/// in the style that the theme ties to one of these names.
#[derive(Debug, PartialEq, Eq, Hash, Clone, Copy, Structural)]
pub enum Style {
    Normal,
    GitBranch,
    GitStaged,
    GitUnstaged,
    GitUntracked,
    GitAhead,
    GitBehind,
    UserDetails,
    BatteryHigh,
    BatteryMid,
    BatteryLow,
}

/// The style prefix used for any name the theme does not mention, and the
/// reset suffix closing every styled span.
pub open spec fn default_style() -> Seq<char> {
    "#[default]"@
}

/// A theme: a table from style names to the text that opens a styled span.
pub struct Theme {
    styles: Vec<(Style, String)>,
}

impl View for Theme {
    type V = Seq<(Style, Seq<char>)>;

    closed spec fn view(&self) -> Seq<(Style, Seq<char>)> {
        self.styles@.map_values(|e: (Style, String)| (e.0, e.1@))
    }
}

impl Theme {
    /// The style prefix for a name: the first entry for it, or the default.
    pub open spec fn spec_get_style(&self, link: Style) -> Seq<char> {
        match assoc_lookup(self@, link) {
            Some(s) => s,
            None => default_style(),
        }
    }

    /// A styled span: prefix, content, reset suffix.
    pub open spec fn spec_styled(&self, style: Style, text: Seq<char>) -> Seq<char> {
        self.spec_get_style(style) + text + default_style()
    }

    pub fn from(styles: Vec<(Style, String)>) -> (t: Self)
        ensures
            t@ == styles@.map_values(|e: (Style, String)| (e.0, e.1@)),
    {
        Self { styles }
    }

    pub fn get_style(&self, link: Style) -> (r: &str)
        ensures
            r@ == self.spec_get_style(link),
    {
        let n = self.styles.len();
        let mut i: usize = 0;
        while i < n
            invariant
                n == self.styles.len(),
                0 <= i <= n,
                self@.len() == n,
                forall|k: int| 0 <= k < i ==> #[trigger] self@[k].0 != link,
            decreases n - i,
        {
            let entry = &self.styles[i];
            if entry.0 == link {
                proof {
                    lemma_assoc_lookup_skip(self@, link, i as int);
                    assert(self@.skip(i as int)[0] == self@[i as int]);
                    assert(self@.skip(i as int).len() > 0);
                }
                return entry.1.as_str();
            }
            i = i + 1;
        }
        proof {
            lemma_assoc_lookup_skip(self@, link, n as int);
            assert(self@.skip(n as int).len() == 0);
        }
        "#[default]"
    }

    pub fn get_style_char(&self, style: Style, ch: char) -> (r: String)
        ensures
            r@ == self.spec_styled(style, seq![ch]),
    {
        let mut r = String::from_str(self.get_style(style));
        let cs = char_to_string(ch);
        r.append(cs.as_str());
        r.append("#[default]");
        r
    }

    pub fn get_style_str(&self, style: Style, text: &str) -> (r: String)
        ensures
            r@ == self.spec_styled(style, text@),
    {
        let mut r = String::from_str(self.get_style(style));
        r.append(text);
        r.append("#[default]");
        r
    }
}

} // verus!
