use vstd::prelude::*;

use crate::themes::Style;
use crate::StatusContext;

verus! {

/// The user fragment's text: the user name, styled but not reset, padded
/// with two spaces on each side.
pub open spec fn spec_user_text(ctx: StatusContext, user: Seq<char>) -> Seq<char> {
    "  "@ + ctx.theme.spec_get_style(Style::UserDetails) + user + "  "@
}

/// Renders the logged-in-user fragment from an already-read user name.
pub fn user_details(ctx: &StatusContext, user: &str) -> (r: String)
    ensures
        r@ == spec_user_text(*ctx, user@),
{
    let mut r = String::from_str("  ");
    r.append(ctx.theme.get_style(Style::UserDetails));
    r.append(user);
    r.append("  ");
    r
}

} // verus!
