//! The rule-set snapshot: an immutable mapping from domain to its rules.
//!
//! A snapshot is built whole by the refresher, published atomically, and read
//! by request handlers for the duration of one call. Until a first snapshot
//! is published, readers observe an empty mapping and every decision is
//! permissive.

use vstd::prelude::*;

use crate::rate_limits::{Descriptor, Unit};

verus! {

/// The rules of one domain.
#[derive(Clone, Debug)]
pub struct DomainConfig {
    pub domain: String,
    pub rate_limits: Vec<Descriptor>,
}

/// A snapshot of `domain -> [rule]`.
#[derive(Clone, Debug)]
pub struct RateLimitConfigs {
    domains: Vec<DomainConfig>,
}

impl View for RateLimitConfigs {
    type V = Seq<DomainConfig>;

    closed spec fn view(&self) -> Seq<DomainConfig> {
        self.domains@
    }
}

/// The position of `domain` in the snapshot, or -1 when absent.
pub open spec fn spec_find_domain(s: Seq<DomainConfig>, domain: Seq<char>) -> int
    decreases s.len(),
{
    if s.len() == 0 {
        -1
    } else if s[0].domain@ == domain {
        0
    } else {
        let r = spec_find_domain(s.subrange(1, s.len() as int), domain);
        if r == -1 {
            -1
        } else {
            r + 1
        }
    }
}

/// The rules of `domain` in the snapshot, when the snapshot holds it.
pub open spec fn spec_domain_rules(s: Seq<DomainConfig>, domain: Seq<char>) -> Option<
    Seq<Descriptor>,
> {
    let i = spec_find_domain(s, domain);
    if i == -1 {
        Option::None
    } else {
        Option::Some(s[i].rate_limits@)
    }
}

/// `spec_find_domain` returns the first position of `domain`, or -1 when no
/// position holds it.
pub proof fn lemma_find_domain_props(s: Seq<DomainConfig>, domain: Seq<char>)
    ensures
        -1 <= spec_find_domain(s, domain) < s.len(),
        spec_find_domain(s, domain) >= 0 ==> s[spec_find_domain(s, domain)].domain@ == domain && (
        forall|j: int| 0 <= j < spec_find_domain(s, domain) ==> s[j].domain@ != domain),
        spec_find_domain(s, domain) == -1 ==> (forall|j: int|
            0 <= j < s.len() ==> s[j].domain@ != domain),
    decreases s.len(),
{
    if s.len() != 0 && s[0].domain@ != domain {
        let tail = s.subrange(1, s.len() as int);
        lemma_find_domain_props(tail, domain);
        let r = spec_find_domain(tail, domain);
        if r == -1 {
            assert forall|j: int| 0 <= j < s.len() implies s[j].domain@ != domain by {
                if j >= 1 {
                    assert(tail[j - 1] == s[j]);
                }
            }
        } else {
            assert(tail[r] == s[r + 1]);
            assert forall|j: int| 0 <= j < r + 1 implies s[j].domain@ != domain by {
                if j >= 1 {
                    assert(tail[j - 1] == s[j]);
                    assert(tail[j - 1].domain@ != domain);
                }
            }
        }
    }
}

impl RateLimitConfigs {
    /// All domains in the snapshot are distinct: it is a map.
    pub closed spec fn wf(&self) -> bool {
        forall|i: int, j: int|
            0 <= i < j < self@.len() ==> (#[trigger] self@[i]).domain@ != (
            #[trigger] self@[j]).domain@
    }

    /// The snapshot no reader has ever been given a published value for:
    /// it maps no domain at all.
    pub fn new() -> (r: RateLimitConfigs)
        ensures
            r@ == Seq::<DomainConfig>::empty(),
            r.wf(),
    {
        RateLimitConfigs { domains: Vec::new() }
    }

    /// The number of domains.
    pub fn len(&self) -> (n: usize)
        ensures
            n == self@.len(),
    {
        self.domains.len()
    }

    /// The rules of `domain`, or nothing when the snapshot does not hold it.
    pub fn get(&self, domain: &String) -> (r: Option<&Vec<Descriptor>>)
        ensures
            match r {
                Option::Some(rules) => spec_domain_rules(self@, domain@) == Option::Some(rules@),
                Option::None => spec_domain_rules(self@, domain@) is None,
            },
    {
        let ghost target = spec_find_domain(self@, domain@);
        let n = self.domains.len();
        let mut i: usize = 0;
        while i < n
            invariant
                i <= n,
                n == self@.len(),
                target == spec_find_domain(self@, domain@),
                forall|j: int| 0 <= j < i ==> (#[trigger] self@[j]).domain@ != domain@,
            decreases n - i,
        {
            let hit = self.domains[i].domain == *domain;
            if hit {
                assert(target == i) by {
                    lemma_find_domain_props(self@, domain@);
                    if target == -1 {
                        assert(self@[i as int].domain@ != domain@);
                    } else if target < i as int {
                        assert(self@[target].domain@ == domain@);
                    } else if target > i as int {
                        assert(self@[i as int].domain@ != domain@);
                    }
                }
                return Option::Some(&self.domains[i].rate_limits);
            }
            i += 1;
        }
        proof {
            lemma_find_domain_props(self@, domain@);
        }
        Option::None
    }

    /// Adds the rules of one domain, overwriting an existing domain's rules.
    pub fn insert(&mut self, domain: String, rate_limits: Vec<Descriptor>)
        requires
            old(self).wf(),
        ensures
            final(self).wf(),
            spec_domain_rules(final(self)@, domain@) == Option::Some(rate_limits@),
            forall|d: Seq<char>|
                d != domain@ ==> #[trigger] spec_domain_rules(final(self)@, d)
                    == spec_domain_rules(old(self)@, d),
    {
        proof {
            lemma_find_domain_props(self@, domain@);
        }
        let ghost orig = self@;
        let ghost target = spec_find_domain(self@, domain@);
        let n = self.domains.len();
        let mut i: usize = 0;
        while i < n
            invariant
                i <= n,
                n == self@.len(),
                self@ == orig,
                old(self)@ == orig,
                self.wf(),
                target == spec_find_domain(orig, domain@),
                forall|j: int| 0 <= j < i ==> (#[trigger] self@[j]).domain@ != domain@,
            decreases n - i,
        {
            let hit = self.domains[i].domain == domain;
            if hit {
                assert(target == i) by {
                    lemma_find_domain_props(orig, domain@);
                    if target == -1 {
                        assert(orig[i as int].domain@ != domain@);
                    } else if target < i as int {
                        assert(orig[target].domain@ == domain@);
                    } else if target > i as int {
                        assert(orig[i as int].domain@ != domain@);
                    }
                }
                self.domains[i] = DomainConfig { domain, rate_limits };
                proof {
                    assert(self@ =~= orig.update(i as int, self@[i as int]));
                    lemma_update_preserves(orig, i as int, self@, domain@);
                }
                return ;
            }
            i += 1;
        }
        assert(target == -1);
        self.domains.push(DomainConfig { domain, rate_limits });
        proof {
            assert(self@ =~= orig.push(self@[orig.len() as int]));
            lemma_push_preserves(orig, self@, domain@);
        }
    }
}

/// After overwriting position `i` (whose domain already was `domain`), the
/// snapshot maps `domain` to the new rules and every other domain unchanged.
proof fn lemma_update_preserves(
    orig: Seq<DomainConfig>,
    i: int,
    updated: Seq<DomainConfig>,
    domain: Seq<char>,
)
    requires
        0 <= i < orig.len(),
        updated.len() == orig.len(),
        updated[i].domain@ == domain,
        orig[i].domain@ == domain,
        forall|j: int| 0 <= j < orig.len() && j != i ==> updated[j] == orig[j],
        forall|a: int, b: int|
            0 <= a < b < orig.len() ==> (#[trigger] orig[a]).domain@ != (#[trigger] orig[b]).domain@,
    ensures
        forall|a: int, b: int|
            0 <= a < b < updated.len() ==> (#[trigger] updated[a]).domain@ != (
            #[trigger] updated[b]).domain@,
        spec_domain_rules(updated, domain) == Option::Some(updated[i].rate_limits@),
        forall|d: Seq<char>|
            d != domain ==> #[trigger] spec_domain_rules(updated, d) == spec_domain_rules(orig, d),
{
    assert forall|a: int, b: int|
        0 <= a < b < updated.len() implies (#[trigger] updated[a]).domain@ != (
    #[trigger] updated[b]).domain@ by {
        assert(updated[a].domain@ == orig[a].domain@);
        assert(updated[b].domain@ == orig[b].domain@);
    }
    lemma_find_same_domains(orig, updated);
    lemma_find_domain_props(updated, domain);
    let r = spec_find_domain(updated, domain);
    assert(r == i) by {
        if r == -1 {
            assert(updated[i].domain@ != domain);
        } else if r != i {
            if r < i {
                assert(updated[r].domain@ == domain);
                assert(forall|a: int, b: int|
                    0 <= a < b < updated.len() ==> (#[trigger] updated[a]).domain@ != (
                    #[trigger] updated[b]).domain@);
            } else {
                assert(updated[i].domain@ != domain);
            }
        }
    }
    assert forall|d: Seq<char>| d != domain implies #[trigger] spec_domain_rules(updated, d)
        == spec_domain_rules(orig, d) by {
        lemma_find_domain_props(updated, d);
        lemma_find_domain_props(orig, d);
        lemma_find_agrees(orig, updated, d);
    }
}

/// Two snapshots of equal length whose positions carry the same domains have
/// the same find results; positions other than a changed one also keep their
/// rules, so lookups of other domains agree.
proof fn lemma_find_same_domains(orig: Seq<DomainConfig>, updated: Seq<DomainConfig>)
    requires
        updated.len() == orig.len(),
        forall|j: int|
            0 <= j < orig.len() ==> (#[trigger] updated[j]).domain@ == (#[trigger] orig[j]).domain@,
    ensures
        forall|d: Seq<char>|
            #[trigger] spec_find_domain(updated, d) == spec_find_domain(orig, d),
{
    assert forall|d: Seq<char>| #[trigger] spec_find_domain(updated, d) == spec_find_domain(
        orig,
        d,
    ) by {
        lemma_find_domain_props(orig, d);
        lemma_find_domain_props(updated, d);
        let ro = spec_find_domain(orig, d);
        let ru = spec_find_domain(updated, d);
        if ro == -1 && ru != -1 {
            assert(orig[ru].domain@ != d);
        } else if ro != -1 && ru == -1 {
            assert(updated[ro].domain@ != d);
        } else if ro != -1 && ru != -1 && ro != ru {
            if ro < ru {
                assert(updated[ro].domain@ != d);
            } else {
                assert(orig[ru].domain@ != d);
            }
        }
    }
}

/// Where a changed position's domain differs from `d`, the lookup of `d`
/// returns the same rules before and after the change.
proof fn lemma_find_agrees(orig: Seq<DomainConfig>, updated: Seq<DomainConfig>, d: Seq<char>)
    requires
        updated.len() == orig.len(),
        forall|j: int|
            0 <= j < orig.len() ==> (#[trigger] updated[j]).domain@ == (#[trigger] orig[j]).domain@,
        forall|j: int|
            0 <= j < orig.len() && (#[trigger] orig[j]).domain@ == d ==> updated[j] == orig[j],
    ensures
        spec_domain_rules(updated, d) == spec_domain_rules(orig, d),
{
    lemma_find_same_domains(orig, updated);
    lemma_find_domain_props(orig, d);
    let r = spec_find_domain(orig, d);
    if r >= 0 {
        assert(updated[r] == orig[r]);
    }
}

/// After appending a fresh domain, the snapshot maps it to the new rules and
/// every other domain unchanged.
proof fn lemma_push_preserves(orig: Seq<DomainConfig>, pushed: Seq<DomainConfig>, domain: Seq<char>)
    requires
        pushed.len() == orig.len() + 1,
        forall|j: int| 0 <= j < orig.len() ==> #[trigger] pushed[j] == orig[j],
        pushed[orig.len() as int].domain@ == domain,
        forall|j: int| 0 <= j < orig.len() ==> (#[trigger] orig[j]).domain@ != domain,
        forall|a: int, b: int|
            0 <= a < b < orig.len() ==> (#[trigger] orig[a]).domain@ != (#[trigger] orig[b]).domain@,
    ensures
        forall|a: int, b: int|
            0 <= a < b < pushed.len() ==> (#[trigger] pushed[a]).domain@ != (
            #[trigger] pushed[b]).domain@,
        spec_domain_rules(pushed, domain) == Option::Some(pushed[orig.len() as int].rate_limits@),
        forall|d: Seq<char>|
            d != domain ==> #[trigger] spec_domain_rules(pushed, d) == spec_domain_rules(orig, d),
{
    assert forall|a: int, b: int|
        0 <= a < b < pushed.len() implies (#[trigger] pushed[a]).domain@ != (
    #[trigger] pushed[b]).domain@ by {
        if b < orig.len() {
            assert(orig[a].domain@ != orig[b].domain@);
        } else {
            assert(pushed[a] == orig[a]);
        }
    }
    lemma_find_domain_props(pushed, domain);
    let r = spec_find_domain(pushed, domain);
    assert(r == orig.len()) by {
        if r == -1 {
            assert(pushed[orig.len() as int].domain@ != domain);
        } else if r < orig.len() {
            assert(pushed[r] == orig[r]);
        }
    }
    assert forall|d: Seq<char>| d != domain implies #[trigger] spec_domain_rules(pushed, d)
        == spec_domain_rules(orig, d) by {
        lemma_find_prefix_agrees(orig, pushed, d);
    }
}

/// A lookup of a domain other than the appended one is unchanged by the
/// append.
proof fn lemma_find_prefix_agrees(orig: Seq<DomainConfig>, pushed: Seq<DomainConfig>, d: Seq<char>)
    requires
        pushed.len() == orig.len() + 1,
        forall|j: int| 0 <= j < orig.len() ==> #[trigger] pushed[j] == orig[j],
        pushed[orig.len() as int].domain@ != d,
    ensures
        spec_domain_rules(pushed, d) == spec_domain_rules(orig, d),
{
    lemma_find_domain_props(orig, d);
    lemma_find_domain_props(pushed, d);
    let ro = spec_find_domain(orig, d);
    let rp = spec_find_domain(pushed, d);
    if ro == -1 {
        assert(rp == -1) by {
            if 0 <= rp < orig.len() {
                assert(pushed[rp] == orig[rp]);
                assert(orig[rp].domain@ != d);
            }
        }
    } else {
        assert(pushed[ro] == orig[ro]);
        assert(rp == ro) by {
            if rp == -1 {
                assert(pushed[ro].domain@ != d);
            } else if rp < ro {
                assert(pushed[rp] == orig[rp]);
                assert(orig[rp].domain@ != d);
            } else if rp > ro {
                assert(pushed[ro].domain@ != d);
            }
        }
    }
}

/// A rule a snapshot may hold: its unit resolves and its count is positive.
pub open spec fn spec_rule_valid(r: Descriptor) -> bool {
    r.rate_limit.unit != Unit::Unknown && r.rate_limit.requests_per_unit >= 1
}

/// A snapshot fit for publication: every rule of every domain is valid.
pub open spec fn spec_configs_valid(s: Seq<DomainConfig>) -> bool {
    forall|i: int, j: int|
        0 <= i < s.len() && 0 <= j < s[i].rate_limits@.len() ==> spec_rule_valid(
            #[trigger] s[i].rate_limits@[j],
        )
}

/// Checks that every rule of every domain has a resolvable unit and a
/// positive count; the refresher publishes a fetched rule set only when this
/// holds.
pub fn validate_configs(configs: &RateLimitConfigs) -> (ok: bool)
    ensures
        ok == spec_configs_valid(configs@),
{
    let n = configs.domains.len();
    let mut i: usize = 0;
    while i < n
        invariant
            i <= n,
            n == configs@.len(),
            forall|a: int, b: int|
                0 <= a < i && 0 <= b < configs@[a].rate_limits@.len() ==> spec_rule_valid(
                    #[trigger] configs@[a].rate_limits@[b],
                ),
        decreases n - i,
    {
        let rules = &configs.domains[i].rate_limits;
        let m = rules.len();
        let mut j: usize = 0;
        while j < m
            invariant
                j <= m,
                i < configs@.len(),
                m == configs@[i as int].rate_limits@.len(),
                rules@ == configs@[i as int].rate_limits@,
                forall|b: int|
                    0 <= b < j ==> spec_rule_valid(#[trigger] configs@[i as int].rate_limits@[b]),
            decreases m - j,
        {
            let rule = &rules[j];
            let unknown = match rule.rate_limit.unit {
                Unit::Unknown => true,
                _ => false,
            };
            if unknown || rule.rate_limit.requests_per_unit < 1 {
                return false;
            }
            j += 1;
        }
        i += 1;
    }
    true
}

} // verus!
