//! What the user has chosen for the pages.

use vstd::prelude::*;
use crate::text::str_eq;

verus! {

/// The user's choices.
#[derive(Debug, Clone)]
pub struct UserSettings {
    pub theme: String,
}

impl Default for UserSettings {
    fn default() -> (r: Self)
        ensures
            r.theme@ == "jelly"@,
    {
        UserSettings { theme: "jelly".to_owned() }
    }
}

/// Whether a text names one of the themes.
pub open spec fn names_theme(theme: Seq<char>) -> bool {
    theme == "jelly"@ || theme == "light"@ || theme == "dark"@
}

/// Whether a text names one of the themes.
pub fn is_valid_theme(theme: &str) -> (r: bool)
    ensures
        r == names_theme(theme@),
{
    str_eq(theme, "jelly") || str_eq(theme, "light") || str_eq(theme, "dark")
}

} // verus!
