//! The environment variables, as a snapshot taken at the start.

use vstd::prelude::*;

use crate::number::{parse_unsigned, parsed};
use crate::text::{in_lower_case, lowered, same};

verus! {

/// The value of each name, which is that of the first pair with it.
pub open spec fn pairs_map(pairs: Seq<(String, String)>) -> Map<Seq<char>, Seq<char>>
    decreases pairs.len(),
{
    if pairs.len() == 0 {
        Map::empty()
    } else {
        pairs_map(pairs.skip(1)).insert(pairs[0].0@, pairs[0].1@)
    }
}

/// The environment variables.
pub struct EnvVars {
    pairs: Vec<(String, String)>,
}

impl View for EnvVars {
    type V = Map<Seq<char>, Seq<char>>;

    /// The value of each variable that is set.
    closed spec fn view(&self) -> Map<Seq<char>, Seq<char>> {
        pairs_map(self.pairs@)
    }
}

impl EnvVars {
    /// The environment given by pairs of name and value. Of several pairs with
    /// the same name the first one counts.
    pub fn new(pairs: Vec<(String, String)>) -> (r: EnvVars)
        ensures
            r@ == pairs_map(pairs@),
    {
        EnvVars { pairs }
    }

    /// The value of the variable `name`, if it is set.
    pub fn get(&self, name: &str) -> (r: Option<&String>)
        ensures
            match r {
                Some(v) => self@.contains_key(name@) && v@ == self@[name@],
                None => !self@.contains_key(name@),
            },
    {
        let mut i: usize = 0;
        assert(self.pairs@.skip(0) =~= self.pairs@);
        while i < self.pairs.len()
            invariant
                i <= self.pairs@.len(),
                self@.contains_key(name@) == pairs_map(self.pairs@.skip(i as int)).contains_key(name@),
                self@.contains_key(name@) ==> self@[name@] == pairs_map(
                    self.pairs@.skip(i as int),
                )[name@],
            decreases self.pairs@.len() - i,
        {
            assert(self.pairs@.skip(i as int).skip(1) =~= self.pairs@.skip(i + 1));
            assert(self.pairs@.skip(i as int)[0] == self.pairs@[i as int]);
            if same(self.pairs[i].0.as_str(), name) {
                return Some(&self.pairs[i].1);
            }
            i += 1;
        }
        None
    }

    /// A copy of the value of the variable `name`, if it is set.
    pub fn value(&self, name: &str) -> (r: Option<String>)
        ensures
            match r {
                Some(v) => self@.contains_key(name@) && v@ == self@[name@],
                None => !self@.contains_key(name@),
            },
    {
        match self.get(name) {
            Some(v) => Some(v.clone()),
            None => None,
        }
    }
}

/// The value of a variable, if it is set.
pub open spec fn setting(vars: Map<Seq<char>, Seq<char>>, name: Seq<char>) -> Option<Seq<char>> {
    if vars.contains_key(name) {
        Some(vars[name])
    } else {
        None
    }
}

/// A variable is set to "true", in upper or lower case.
pub open spec fn is_true(vars: Map<Seq<char>, Seq<char>>, name: Seq<char>) -> bool {
    vars.contains_key(name) && lowered(vars[name]) == "true"@
}

/// Whether a variable is set to "true", in upper or lower case.
pub fn env_is_true(vars: &EnvVars, name: &str) -> (r: bool)
    ensures
        r == is_true(vars@, name@),
{
    match vars.get(name) {
        Some(v) => same(in_lower_case(v.as_str()).as_str(), "true"),
        None => false,
    }
}

/// The number that a variable is set to, or `default` if it is unset or no
/// number up to `max`.
pub open spec fn number_setting(
    vars: Map<Seq<char>, Seq<char>>,
    name: Seq<char>,
    default: nat,
    max: nat,
) -> nat {
    if vars.contains_key(name) && parsed(vars[name], 10, max) is Some {
        parsed(vars[name], 10, max)->0
    } else {
        default
    }
}

/// The number that a variable is set to, or `default`.
pub fn env_u64(vars: &EnvVars, name: &str, default: u64) -> (r: u64)
    ensures
        r == number_setting(vars@, name@, default as nat, u64::MAX as nat),
{
    match vars.get(name) {
        Some(v) => match parse_unsigned(v.as_str(), 10, u64::MAX) {
            Some(n) => n,
            None => default,
        },
        None => default,
    }
}

/// The number that a variable is set to, or `default`.
pub fn env_u32(vars: &EnvVars, name: &str, default: u32) -> (r: u32)
    ensures
        r == number_setting(vars@, name@, default as nat, u32::MAX as nat),
{
    match vars.get(name) {
        Some(v) => match parse_unsigned(v.as_str(), 10, u32::MAX as u64) {
            Some(n) => n as u32,
            None => default,
        },
        None => default,
    }
}

} // verus!
