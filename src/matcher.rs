use vstd::prelude::*;

use crate::record::{File, FileModel, Kind};

verus! {

/// A pure predicate over item records.
pub trait Matcher {
    spec fn accepts(&self, item: FileModel) -> bool;

    fn matches(&self, item: &File) -> (r: bool)
        ensures
            r == self.accepts(item@),
    ;
}

/// A tagged set of named selection strategies.
#[derive(Debug)]
pub enum Rule {
    /// The record's id is valid text that starts with this prefix.
    IdPrefix(String),
    /// The record is of this kind.
    KindIs(Kind),
    /// Either of two rules accepts the record.
    Either(Box<Rule>, Box<Rule>),
}

/// Whether `rule` accepts `item`.
pub open spec fn rule_accepts(rule: Rule, item: FileModel) -> bool
    decreases rule,
{
    match rule {
        Rule::IdPrefix(p) => match item.id {
            Some(id) => p@.is_prefix_of(id),
            None => false,
        },
        Rule::KindIs(k) => item.kind == k,
        Rule::Either(a, b) => rule_accepts(*a, item) || rule_accepts(*b, item),
    }
}

/// Whether `p` is a prefix of `s`.
pub fn has_prefix(s: &str, p: &str) -> (r: bool)
    ensures
        r == p@.is_prefix_of(s@),
{
    let n = s.unicode_len();
    let m = p.unicode_len();
    if m > n {
        return false;
    }
    let mut i: usize = 0;
    while i < m
        invariant
            m == p@.len(),
            n == s@.len(),
            m <= n,
            i <= m,
            forall|j: int| 0 <= j < i ==> s@[j] == p@[j],
        decreases m - i,
    {
        if s.get_char(i) != p.get_char(i) {
            return false;
        }
        i = i + 1;
    }
    proof {
        assert(p@ =~= s@.subrange(0, m as int));
    }
    true
}

/// Evaluates `rule` on `item`.
pub fn rule_matches(rule: &Rule, item: &File) -> (r: bool)
    ensures
        r == rule_accepts(*rule, item@),
    decreases rule,
{
    match rule {
        Rule::IdPrefix(p) => match &item.id {
            Some(id) => has_prefix(id.as_str(), p.as_str()),
            None => false,
        },
        Rule::KindIs(k) => item.kind == *k,
        Rule::Either(a, b) => rule_matches(a, item) || rule_matches(b, item),
    }
}

impl Matcher for Rule {
    open spec fn accepts(&self, item: FileModel) -> bool {
        rule_accepts(*self, item)
    }

    fn matches(&self, item: &File) -> (r: bool) {
        rule_matches(self, item)
    }
}

} // verus!
