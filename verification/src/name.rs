//! The name parser: structured identifiers out of an instance's free-text
//! name.
//!
//! Both readings are best-effort heuristics over an externally controlled
//! field: the account identifier is the run of decimal digits the name
//! starts with, the account name is the content of the leftmost non-empty
//! parenthesized group. Absence of either is a normal outcome, never an
//! error, and nothing is ever mutated.

use vstd::prelude::*;
use vstd::string::*;

use crate::json::{is_digit, sp_digits_end};
use crate::model::AppInstance;

verus! {

/// First position at or after `from` holding `c`, or the length.
pub open spec fn sp_find(s: Seq<char>, c: char, from: int) -> int
    decreases s.len() - from,
{
    if 0 <= from < s.len() {
        if s[from] == c {
            from
        } else {
            sp_find(s, c, from + 1)
        }
    } else {
        s.len() as int
    }
}

/// The leading digit run, when the name starts with a digit.
pub open spec fn spec_account_id(name: Seq<char>) -> Option<Seq<char>> {
    if name.len() > 0 && is_digit(name[0]) {
        Some(name.subrange(0, sp_digits_end(name, 0)))
    } else {
        None
    }
}

pub proof fn lemma_sp_find_bounds(s: Seq<char>, c: char, from: int)
    requires
        0 <= from <= s.len(),
    ensures
        from <= sp_find(s, c, from) <= s.len(),
    decreases s.len() - from,
{
    if from < s.len() && s[from] != c {
        lemma_sp_find_bounds(s, c, from + 1);
    }
}

/// The leftmost non-empty parenthesized group at or after `from`: opening
/// parentheses are scanned in order, and the first whose next `)` stands
/// at least one character away wins. An empty `()` is stepped over.
/// Returns the positions of that group's parentheses.
pub open spec fn sp_group(name: Seq<char>, from: int) -> Option<(int, int)>
    decreases name.len() - from,
{
    if !(0 <= from <= name.len()) {
        None
    } else {
        let open = sp_find(name, '(', from);
        if open < name.len() {
            let close = sp_find(name, ')', open + 1);
            if close < name.len() {
                if open + 1 < close {
                    Some((open, close))
                } else {
                    proof {
                        lemma_sp_find_bounds(name, '(', from);
                        lemma_sp_find_bounds(name, ')', open + 1);
                    }
                    sp_group(name, close + 1)
                }
            } else {
                None
            }
        } else {
            None
        }
    }
}

/// The content of the leftmost non-empty parenthesized group. Groups with
/// nothing between the parentheses are passed over; later groups beyond
/// the winning one are never consulted.
pub open spec fn spec_account_name(name: Seq<char>) -> Option<Seq<char>> {
    match sp_group(name, 0) {
        Some((open, close)) => Some(name.subrange(open + 1, close)),
        None => None,
    }
}

fn digit_at(s: &str, k: usize) -> (r: bool)
    requires
        k < s@.len(),
    ensures
        r == is_digit(s@[k as int]),
{
    let c = s.get_char(k);
    '0' <= c && c <= '9'
}

fn find_char(s: &str, c: char, from: usize) -> (r: usize)
    requires
        from <= s@.len(),
    ensures
        r as int == sp_find(s@, c, from as int),
        from <= r <= s@.len(),
        r < s@.len() ==> s@[r as int] == c,
{
    let n = s.unicode_len();
    let mut k = from;
    while k < n
        invariant
            from <= k <= n,
            n == s@.len(),
            sp_find(s@, c, from as int) == sp_find(s@, c, k as int),
        decreases n - k,
    {
        if s.get_char(k) == c {
            return k;
        }
        k = k + 1;
    }
    k
}

impl AppInstance {
    /// The longest run of decimal digits the name starts with, or nothing
    /// when the name does not start with a digit.
    pub fn account_id(&self) -> (r: Option<&str>)
        ensures
            match r {
                Some(t) => spec_account_id(self.name@) == Some(t@),
                None => spec_account_id(self.name@) is None,
            },
    {
        let name: &str = self.name.as_str();
        let n = name.unicode_len();
        if n == 0 {
            return None;
        }
        let c0 = name.get_char(0);
        if !('0' <= c0 && c0 <= '9') {
            return None;
        }
        let mut k: usize = 0;
        while k < n && digit_at(name, k)
            invariant
                k <= n,
                n == name@.len(),
                sp_digits_end(name@, 0) == sp_digits_end(name@, k as int),
            decreases n - k,
        {
            k = k + 1;
        }
        Some(name.substring_char(0, k))
    }

    /// The leftmost non-empty parenthesized group of the name, or nothing
    /// when no such group exists.
    pub fn account_name(&self) -> (r: Option<&str>)
        ensures
            match r {
                Some(t) => spec_account_name(self.name@) == Some(t@),
                None => spec_account_name(self.name@) is None,
            },
    {
        let name: &str = self.name.as_str();
        let n = name.unicode_len();
        let mut from: usize = 0;
        loop
            invariant
                from <= n,
                n == name@.len(),
                name@ == self.name@,
                sp_group(name@, 0) == sp_group(name@, from as int),
            decreases n - from,
        {
            let open = find_char(name, '(', from);
            if open >= n {
                return None;
            }
            let close = find_char(name, ')', open + 1);
            if close >= n {
                return None;
            }
            if open + 1 < close {
                return Some(name.substring_char(open + 1, close));
            }
            from = close + 1;
        }
    }
}

} // verus!
