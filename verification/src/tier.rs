//! The two storage tiers and how a path is assigned to one of them.

use vstd::prelude::*;
use crate::paths::{lies_under, path_starts_with};
use crate::text::{
    ascii_lowered, eq_ignore_ascii_case, first_black, is_blank, is_white_space, last_black_end,
    str_eq, trim, trimmed,
};

verus! {

/// One of the two storage roots between which shows are moved.
#[derive(Clone, Copy, Debug, PartialEq, Eq, Structural)]
pub enum Tier {
    Hot,
    Cold,
}

/// The token `hot`.
pub open spec fn hot_token() -> Seq<char> {
    seq!['h', 'o', 't']
}

/// The token `cold`.
pub open spec fn cold_token() -> Seq<char> {
    seq!['c', 'o', 'l', 'd']
}

/// The tier that a request names: its token in any case, with whitespace
/// around it.
pub open spec fn requested_tier(target: Seq<char>) -> Option<Tier> {
    let t = ascii_lowered(trimmed(target));
    if t == hot_token() {
        Some(Tier::Hot)
    } else if t == cold_token() {
        Some(Tier::Cold)
    } else {
        None
    }
}

/// The tier that a stored token stands for.
pub open spec fn tier_of_token(token: Seq<char>) -> Option<Tier> {
    if token == hot_token() {
        Some(Tier::Hot)
    } else if token == cold_token() {
        Some(Tier::Cold)
    } else {
        None
    }
}

/// A configured root: the setting without the whitespace around it, or
/// nothing where the setting is blank.
pub open spec fn root_of(setting: Seq<char>) -> Option<Seq<char>> {
    if is_blank(setting) {
        None
    } else {
        Some(trimmed(setting))
    }
}

/// The tier under whose root a path lies. The hot root is tried first.
pub open spec fn tier_under(path: Seq<char>, hot_root: Seq<char>, cold_root: Seq<char>) -> Option<
    Tier,
> {
    if lies_under(path, hot_root) {
        Some(Tier::Hot)
    } else if lies_under(path, cold_root) {
        Some(Tier::Cold)
    } else {
        None
    }
}

/// The tier under whose root a path lies, where a root may be missing.
pub open spec fn location_of(
    path: Seq<char>,
    hot_root: Option<Seq<char>>,
    cold_root: Option<Seq<char>>,
) -> Option<Tier> {
    if hot_root is Some && lies_under(path, hot_root->0) {
        Some(Tier::Hot)
    } else if cold_root is Some && lies_under(path, cold_root->0) {
        Some(Tier::Cold)
    } else {
        None
    }
}

impl Tier {
    /// The token that stands for this tier in stored rows.
    pub open spec fn token(self) -> Seq<char> {
        match self {
            Tier::Hot => hot_token(),
            Tier::Cold => cold_token(),
        }
    }

    /// The tier that is not this one.
    pub open spec fn opposite(self) -> Tier {
        match self {
            Tier::Hot => Tier::Cold,
            Tier::Cold => Tier::Hot,
        }
    }

    /// The token that stands for this tier in stored rows.
    pub fn as_str(&self) -> (r: &'static str)
        ensures
            r@ == self.token(),
    {
        proof {
            reveal_strlit("hot");
            reveal_strlit("cold");
            assert("hot"@ =~= hot_token());
            assert("cold"@ =~= cold_token());
        }
        match self {
            Tier::Hot => "hot",
            Tier::Cold => "cold",
        }
    }

    /// The name of the setting that holds this tier's root.
    pub fn config_key(&self) -> (r: &'static str)
        ensures
            r@ == match *self {
                Tier::Hot => "hot_root"@,
                Tier::Cold => "cold_root"@,
            },
    {
        match self {
            Tier::Hot => "hot_root",
            Tier::Cold => "cold_root",
        }
    }

    /// The tier that is not this one.
    pub fn other(&self) -> (r: Tier)
        ensures
            r == self.opposite(),
    {
        match self {
            Tier::Hot => Tier::Cold,
            Tier::Cold => Tier::Hot,
        }
    }

    /// The tier that a stored token stands for.
    pub fn from_token(token: &str) -> (r: Option<Tier>)
        ensures
            r == tier_of_token(token@),
    {
        proof {
            reveal_strlit("hot");
            reveal_strlit("cold");
            assert("hot"@ =~= hot_token());
            assert("cold"@ =~= cold_token());
        }
        if str_eq(token, "hot") {
            Some(Tier::Hot)
        } else if str_eq(token, "cold") {
            Some(Tier::Cold)
        } else {
            None
        }
    }
}

/// A token names the tier it stands for, and no other text does.
pub proof fn lemma_token_round_trip(tier: Tier)
    ensures
        tier_of_token(tier.token()) == Some(tier),
        requested_tier(tier.token()) == Some(tier),
        tier.opposite() != tier,
        tier.opposite().opposite() == tier,
{
    let t = tier.token();
    assert(hot_token() != cold_token()) by {
        assert(hot_token().len() == 3);
        assert(cold_token().len() == 4);
    }
    assert(forall|i: int| 0 <= i < t.len() ==> !is_white_space(t[i]));
    assert(first_black(t, 0) == 0);
    assert(last_black_end(t, 0, t.len() as int) == t.len());
    assert(trimmed(t) =~= t);
    assert(ascii_lowered(t) =~= t);
}

/// The tier that a request names, or nothing where it names none.
pub fn normalize_target(target: &str) -> (r: Option<Tier>)
    ensures
        r == requested_tier(target@),
{
    let t = trim(target);
    proof {
        reveal_strlit("hot");
        reveal_strlit("cold");
        assert("hot"@ =~= hot_token());
        assert("cold"@ =~= cold_token());
        assert(ascii_lowered(hot_token()) =~= hot_token());
        assert(ascii_lowered(cold_token()) =~= cold_token());
    }
    if eq_ignore_ascii_case(t, "hot") {
        Some(Tier::Hot)
    } else if eq_ignore_ascii_case(t, "cold") {
        Some(Tier::Cold)
    } else {
        None
    }
}

/// A configured root without the whitespace around it, or nothing where the
/// setting is blank.
pub fn trimmed_root(value: &str) -> (r: Option<String>)
    ensures
        r is Some <==> root_of(value@) is Some,
        r matches Some(root) ==> Some(root@) == root_of(value@) && root@.len() > 0,
{
    let t = trim(value);
    if t.unicode_len() == 0 {
        None
    } else {
        Some(t.to_owned())
    }
}

/// The tier under whose root a path lies, where a root may be missing.
pub fn determine_location(path: &str, hot_root: &Option<String>, cold_root: &Option<String>) -> (r:
    Option<Tier>)
    ensures
        r == location_of(
            path@,
            match *hot_root {
                Some(h) => Some(h@),
                None => None,
            },
            match *cold_root {
                Some(c) => Some(c@),
                None => None,
            },
        ),
{
    if let Some(root) = hot_root {
        if path_starts_with(path, root.as_str()) {
            return Some(Tier::Hot);
        }
    }
    if let Some(root) = cold_root {
        if path_starts_with(path, root.as_str()) {
            return Some(Tier::Cold);
        }
    }
    None
}

} // verus!
