use vstd::prelude::*;
use crate::record::Severity;

verus! {

/// Whether `p` is a prefix of `s`.
pub open spec fn is_prefix(p: Seq<u8>, s: Seq<u8>) -> bool {
    p.len() <= s.len() && s.subrange(0, p.len() as int) == p
}

pub struct RuleView {
    pub prefix: Seq<u8>,
    pub min: Severity,
}

pub struct PolicyView {
    pub default_min: Severity,
    pub rules: Seq<RuleView>,
}

/// Rule `i` names a prefix of `origin`.
pub open spec fn rule_applies(rules: Seq<RuleView>, origin: Seq<u8>, i: int) -> bool {
    0 <= i < rules.len() && is_prefix(rules[i].prefix, origin)
}

/// Among the first `n` rules, rule `b` is the one that decides for `origin`:
/// it applies, no applying rule has a longer prefix, and no later applying
/// rule has one as long.
pub open spec fn best_among(rules: Seq<RuleView>, origin: Seq<u8>, b: int, n: int) -> bool {
    b < n && rule_applies(rules, origin, b) && forall|j: int|
        0 <= j < n && #[trigger] rule_applies(rules, origin, j) ==> rules[j].prefix.len()
            <= rules[b].prefix.len() && (j > b ==> rules[j].prefix.len() < rules[b].prefix.len())
}

/// The rule that decides for `origin`, if any applies.
pub open spec fn deciding_rule(p: PolicyView, origin: Seq<u8>) -> Option<int> {
    if exists|b: int| best_among(p.rules, origin, b, p.rules.len() as int) {
        Some(choose|b: int| best_among(p.rules, origin, b, p.rules.len() as int))
    } else {
        None
    }
}

/// The minimum severity that `p` lets through for `origin`.
pub open spec fn threshold(p: PolicyView, origin: Seq<u8>) -> Severity {
    match deciding_rule(p, origin) {
        Some(b) => p.rules[b].min,
        None => p.default_min,
    }
}

/// Whether `p` lets a record of severity `sev` from `origin` through.
pub open spec fn emits(p: PolicyView, origin: Seq<u8>, sev: Severity) -> bool {
    sev.level() >= threshold(p, origin).level()
}

/// At most one rule decides.
pub proof fn lemma_best_unique(rules: Seq<RuleView>, origin: Seq<u8>, a: int, b: int, n: int)
    requires
        best_among(rules, origin, a, n),
        best_among(rules, origin, b, n),
    ensures
        a == b,
{
    assert(rule_applies(rules, origin, a));
    assert(rule_applies(rules, origin, b));
}

/// When no rule applies, the default decides; when rule `b` decides, its
/// threshold is the one used.
pub proof fn lemma_threshold(p: PolicyView, origin: Seq<u8>, b: int)
    requires
        best_among(p.rules, origin, b, p.rules.len() as int),
    ensures
        threshold(p, origin) == p.rules[b].min,
{
    let c = choose|c: int| best_among(p.rules, origin, c, p.rules.len() as int);
    lemma_best_unique(p.rules, origin, b, c, p.rules.len() as int);
}

/// A prefix rule: origins that start with `prefix` need at least `min`.
#[derive(Debug)]
pub struct FilterRule {
    pub prefix: Vec<u8>,
    pub min: Severity,
}

/// A severity policy: prefix rules, the longest applying prefix deciding (a
/// later rule for the same prefix replaces an earlier one), and one default
/// threshold for origins that no rule covers.
#[derive(Debug)]
pub struct FilterPolicy {
    pub default_min: Severity,
    pub rules: Vec<FilterRule>,
}

impl View for FilterRule {
    type V = RuleView;

    open spec fn view(&self) -> RuleView {
        RuleView { prefix: self.prefix@, min: self.min }
    }
}

impl View for FilterPolicy {
    type V = PolicyView;

    open spec fn view(&self) -> PolicyView {
        PolicyView { default_min: self.default_min, rules: self.rules@.map_values(|r: FilterRule| r@) }
    }
}

/// Whether `s` starts with `p`.
pub fn starts_with(s: &Vec<u8>, p: &Vec<u8>) -> (r: bool)
    ensures
        r == is_prefix(p@, s@),
{
    if p.len() > s.len() {
        return false;
    }
    let mut i: usize = 0;
    while i < p.len()
        invariant
            p@.len() <= s@.len(),
            i <= p@.len(),
            forall|k: int| 0 <= k < i ==> s@[k] == p@[k],
        decreases p@.len() - i,
    {
        if s[i] != p[i] {
            assert(s@.subrange(0, p@.len() as int)[i as int] != p@[i as int]);
            return false;
        }
        i = i + 1;
    }
    assert(s@.subrange(0, p@.len() as int) =~= p@);
    true
}

impl FilterPolicy {
    /// A policy with no rules: every origin needs `default_min`.
    pub fn new(default_min: Severity) -> (r: FilterPolicy)
        ensures
            r@.default_min == default_min,
            r@.rules.len() == 0,
    {
        let r = FilterPolicy { default_min, rules: Vec::new() };
        assert(r@.rules =~= Seq::<RuleView>::empty());
        r
    }

    /// Adds a rule: origins that start with `prefix` need at least `min`.
    pub fn with_rule(self, prefix: Vec<u8>, min: Severity) -> (r: FilterPolicy)
        ensures
            r@.default_min == self@.default_min,
            r@.rules == self@.rules.push(RuleView { prefix: prefix@, min }),
    {
        let mut rules = self.rules;
        rules.push(FilterRule { prefix, min });
        let r = FilterPolicy { default_min: self.default_min, rules };
        assert(r@.rules =~= self@.rules.push(RuleView { prefix: prefix@, min }));
        r
    }

    /// The policy that keeps dependency noise out: the component `own`
    /// speaks from INFO up, every other origin from WARN up.
    pub fn first_party(own: Vec<u8>) -> (r: FilterPolicy)
        ensures
            r@ == first_party_view(own@),
    {
        let r = FilterPolicy::new(Severity::Warn).with_rule(own, Severity::Info);
        assert(r@.rules =~= first_party_view(own@).rules);
        r
    }

    /// The rule that decides for `origin`: the applying rule with the
    /// longest prefix, the latest among equals.
    pub fn deciding_rule(&self, origin: &Vec<u8>) -> (r: Option<usize>)
        ensures
            r matches Some(b) ==> best_among(self@.rules, origin@, b as int, self@.rules.len() as int),
            r is None ==> forall|b: int| !best_among(self@.rules, origin@, b, self@.rules.len() as int),
            r matches Some(b) ==> deciding_rule(self@, origin@) == Some(b as int),
            r is None ==> deciding_rule(self@, origin@) is None,
    {
        let ghost rules = self@.rules;
        let mut best: Option<usize> = None;
        let mut best_len: usize = 0;
        let mut i: usize = 0;
        while i < self.rules.len()
            invariant
                i <= self.rules@.len(),
                rules == self@.rules,
                best matches None ==> forall|j: int| 0 <= j < i ==> !#[trigger] rule_applies(rules, origin@, j),
                best matches Some(b) ==> best_among(rules, origin@, b as int, i as int)
                    && best_len == rules[b as int].prefix.len(),
            decreases self.rules@.len() - i,
        {
            let rule = &self.rules[i];
            assert(rules[i as int] == rule@);
            if starts_with(origin, &rule.prefix) {
                match best {
                    None => {
                        best = Some(i);
                        best_len = rule.prefix.len();
                    },
                    Some(b) => {
                        if rule.prefix.len() >= best_len {
                            best = Some(i);
                            best_len = rule.prefix.len();
                        }
                    },
                }
            }
            i = i + 1;
        }
        match best {
            Some(b) => {
                proof {
                    let c = choose|c: int| best_among(rules, origin@, c, rules.len() as int);
                    lemma_best_unique(rules, origin@, b as int, c, rules.len() as int);
                }
            },
            None => {
                assert forall|b: int| !best_among(rules, origin@, b, rules.len() as int) by {
                    if best_among(rules, origin@, b, rules.len() as int) {
                        assert(rule_applies(rules, origin@, b));
                    }
                }
            },
        }
        best
    }

    /// Whether a record of severity `sev` from `origin` passes this policy.
    pub fn should_emit(&self, origin: &Vec<u8>, sev: Severity) -> (r: bool)
        ensures
            r == emits(self@, origin@, sev),
    {
        match self.deciding_rule(origin) {
            Some(b) => {
                proof {
                    lemma_threshold(self@, origin@, b as int);
                    assert(self@.rules[b as int] == self.rules@[b as int]@);
                }
                sev.at_least(&self.rules[b].min)
            },
            None => sev.at_least(&self.default_min),
        }
    }
}

/// The first-party policy for component `own`, as a value.
pub open spec fn first_party_view(own: Seq<u8>) -> PolicyView {
    PolicyView {
        default_min: Severity::Warn,
        rules: seq![RuleView { prefix: own, min: Severity::Info }],
    }
}

/// Under the first-party policy, an INFO record from the component itself (or
/// one of its sub-components, whose origin it prefixes) passes; an INFO record
/// from any other origin is dropped, and a WARN record from it passes.
pub proof fn lemma_first_party_policy(own: Seq<u8>, origin: Seq<u8>)
    ensures
        is_prefix(own, origin) ==> emits(first_party_view(own), origin, Severity::Info),
        !is_prefix(own, origin) ==> !emits(first_party_view(own), origin, Severity::Info),
        !is_prefix(own, origin) ==> emits(first_party_view(own), origin, Severity::Warn),
        emits(first_party_view(own), origin, Severity::Warn),
        emits(first_party_view(own), origin, Severity::Error),
        !emits(first_party_view(own), origin, Severity::Debug),
{
    let p = first_party_view(own);
    if is_prefix(own, origin) {
        assert(best_among(p.rules, origin, 0, 1));
        lemma_threshold(p, origin, 0);
    } else {
        assert forall|b: int| !best_among(p.rules, origin, b, 1) by {
            if best_among(p.rules, origin, b, 1) {
                assert(rule_applies(p.rules, origin, b));
            }
        }
    }
}

} // verus!
