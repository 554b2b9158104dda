//! The matching engine: builds the evaluation set of a request.
//!
//! Given the rules of the request's domain, every descriptor entry is turned
//! into a descriptor key, and every rule whose rule-config key starts with
//! that descriptor key contributes one evaluation entry. Later matches for
//! the same rule-config key overwrite earlier ones, so each key is evaluated
//! (and incremented) once per request.

use vstd::prelude::*;
use vstd::string::StrSliceExecFns;

use crate::keys::{create_descriptor_key, create_rl_config_key, spec_descriptor_key, spec_rl_config_key};
use crate::rate_limits::{spec_from_override, Descriptor, RateLimit};
use crate::request::RateLimitRequest;

verus! {

/// One evaluation entry: a rule-config key and the limit that governs it.
#[derive(Clone, Debug)]
pub struct EvalEntry {
    pub key: String,
    pub limit: RateLimit,
}

/// The evaluation set of a request: a map from rule-config key to effective
/// limit, kept in insertion order.
#[derive(Clone, Debug)]
pub struct EvalSet {
    entries: Vec<EvalEntry>,
}

impl View for EvalSet {
    type V = Seq<(Seq<char>, RateLimit)>;

    closed spec fn view(&self) -> Seq<(Seq<char>, RateLimit)> {
        self.entries@.map_values(|e: EvalEntry| (e.key@, e.limit))
    }
}

/// The position of `key` in the evaluation view, or -1 when absent.
pub open spec fn eval_find(s: Seq<(Seq<char>, RateLimit)>, key: Seq<char>) -> int
    decreases s.len(),
{
    if s.len() == 0 {
        -1
    } else if s[0].0 == key {
        0
    } else {
        let r = eval_find(s.subrange(1, s.len() as int), key);
        if r == -1 {
            -1
        } else {
            r + 1
        }
    }
}

/// Map-style insertion: an existing key keeps its position and takes the new
/// limit; a new key is appended.
pub open spec fn spec_eval_insert(
    s: Seq<(Seq<char>, RateLimit)>,
    key: Seq<char>,
    limit: RateLimit,
) -> Seq<(Seq<char>, RateLimit)> {
    let i = eval_find(s, key);
    if i == -1 {
        s.push((key, limit))
    } else {
        s.update(i, (key, limit))
    }
}

/// `eval_find` returns the first position of `key`, or -1 when no position
/// holds it.
pub proof fn lemma_eval_find_props(s: Seq<(Seq<char>, RateLimit)>, key: Seq<char>)
    ensures
        -1 <= eval_find(s, key) < s.len(),
        eval_find(s, key) >= 0 ==> s[eval_find(s, key)].0 == key && (forall|j: int|
            0 <= j < eval_find(s, key) ==> s[j].0 != key),
        eval_find(s, key) == -1 ==> (forall|j: int| 0 <= j < s.len() ==> s[j].0 != key),
    decreases s.len(),
{
    if s.len() != 0 && s[0].0 != key {
        let tail = s.subrange(1, s.len() as int);
        lemma_eval_find_props(tail, key);
        let r = eval_find(tail, key);
        if r == -1 {
            assert forall|j: int| 0 <= j < s.len() implies s[j].0 != key by {
                if j >= 1 {
                    assert(tail[j - 1] == s[j]);
                }
            }
        } else {
            assert(tail[r] == s[r + 1]);
            assert forall|j: int| 0 <= j < r + 1 implies s[j].0 != key by {
                if j >= 1 {
                    assert(tail[j - 1] == s[j]);
                    assert(tail[j - 1].0 != key);
                }
            }
        }
    }
}

impl EvalSet {
    /// All keys in the set are distinct: it is a map, so each rule-config
    /// key is evaluated (and incremented) once per request, however many
    /// descriptor entries matched it.
    pub open spec fn wf(&self) -> bool {
        forall|i: int, j: int|
            0 <= i < j < self@.len() ==> #[trigger] self@[i].0 != #[trigger] self@[j].0
    }

    /// An empty evaluation set.
    pub fn new() -> (r: EvalSet)
        ensures
            r@ == Seq::<(Seq<char>, RateLimit)>::empty(),
            r.wf(),
    {
        let r = EvalSet { entries: Vec::new() };
        proof {
            assert(r@ =~= Seq::<(Seq<char>, RateLimit)>::empty());
        }
        r
    }

    /// The number of evaluation entries.
    pub fn len(&self) -> (n: usize)
        ensures
            n == self@.len(),
    {
        self.entries.len()
    }

    /// The entry at position `i`.
    pub fn get(&self, i: usize) -> (e: &EvalEntry)
        requires
            i < self@.len(),
        ensures
            e.key@ == self@[i as int].0,
            e.limit == self@[i as int].1,
    {
        &self.entries[i]
    }

    /// Inserts `key` with `limit`, overwriting the limit of an existing key.
    pub fn insert(&mut self, key: String, limit: RateLimit)
        requires
            old(self).wf(),
        ensures
            final(self)@ == spec_eval_insert(old(self)@, key@, limit),
            final(self).wf(),
    {
        proof {
            lemma_eval_find_props(self@, key@);
        }
        let ghost orig = self@;
        let ghost target = eval_find(self@, key@);
        let n = self.entries.len();
        let mut i: usize = 0;
        while i < n
            invariant
                i <= n,
                n == self@.len(),
                self@ == orig,
                old(self)@ == orig,
                self.wf(),
                target == eval_find(orig, key@),
                forall|j: int| 0 <= j < i ==> self@[j].0 != key@,
            decreases n - i,
        {
            let found = self.entries[i].key == key;
            if found {
                assert(self@[i as int].0 == key@);
                assert(target == i) by {
                    lemma_eval_find_props(orig, key@);
                    if target == -1 {
                        assert(orig[i as int].0 != key@);
                    } else if target < i as int {
                        assert(orig[target].0 == key@);
                    } else if target > i as int {
                        assert(orig[i as int].0 != key@);
                    }
                }
                self.entries[i] = EvalEntry { key, limit };
                proof {
                    assert(self@ =~= orig.update(i as int, (key@, limit)));
                    assert forall|a: int, b: int|
                        0 <= a < b < self@.len() implies #[trigger] self@[a].0 != #[trigger] self@[b].0 by {
                        assert(self@[a].0 == orig[a].0);
                        assert(self@[b].0 == orig[b].0);
                    }
                }
                return ;
            }
            i += 1;
        }
        assert(target == -1);
        self.entries.push(EvalEntry { key, limit });
        proof {
            assert(self@ =~= orig.push((key@, limit)));
            assert forall|a: int, b: int|
                0 <= a < b < self@.len() implies #[trigger] self@[a].0 != #[trigger] self@[b].0 by {
                if b < orig.len() {
                    assert(orig[a].0 != orig[b].0);
                }
            }
        }
    }
}

/// The limit an evaluation entry carries: the descriptor's override when one
/// is present, else the rule's own limit.
pub open spec fn spec_effective_limit(ovr: Option<RateLimit>, rule_limit: RateLimit) -> RateLimit {
    match ovr {
        Option::Some(l) => l,
        Option::None => rule_limit,
    }
}

/// The limit override a request descriptor carries, decoded.
pub open spec fn spec_override_of(d: crate::request::RequestDescriptor) -> Option<RateLimit> {
    match d.limit {
        Option::Some(o) => Option::Some(spec_from_override(o)),
        Option::None => Option::None,
    }
}

/// Folds the first `n` rules into the evaluation view for one descriptor key.
pub open spec fn spec_collect_rules(
    domain: Seq<char>,
    dkey: Seq<char>,
    ovr: Option<RateLimit>,
    rules: Seq<Descriptor>,
    acc: Seq<(Seq<char>, RateLimit)>,
    n: int,
) -> Seq<(Seq<char>, RateLimit)>
    decreases n,
{
    if n <= 0 {
        acc
    } else {
        let prev = spec_collect_rules(domain, dkey, ovr, rules, acc, n - 1);
        let rule = rules[n - 1];
        let ck = spec_rl_config_key(domain, rule);
        if dkey.is_prefix_of(ck) {
            spec_eval_insert(prev, ck, spec_effective_limit(ovr, rule.rate_limit))
        } else {
            prev
        }
    }
}

/// Folds the first `n` entries of one descriptor into the evaluation view.
pub open spec fn spec_collect_entries(
    domain: Seq<char>,
    entries: Seq<crate::request::Entry>,
    ovr: Option<RateLimit>,
    rules: Seq<Descriptor>,
    acc: Seq<(Seq<char>, RateLimit)>,
    n: int,
) -> Seq<(Seq<char>, RateLimit)>
    decreases n,
{
    if n <= 0 {
        acc
    } else {
        let prev = spec_collect_entries(domain, entries, ovr, rules, acc, n - 1);
        let e = entries[n - 1];
        spec_collect_rules(
            domain,
            spec_descriptor_key(domain, e.key@, e.value@),
            ovr,
            rules,
            prev,
            rules.len() as int,
        )
    }
}

/// Folds the first `n` descriptors of a request into the evaluation view.
pub open spec fn spec_collect_descriptors(
    domain: Seq<char>,
    descs: Seq<crate::request::RequestDescriptor>,
    rules: Seq<Descriptor>,
    acc: Seq<(Seq<char>, RateLimit)>,
    n: int,
) -> Seq<(Seq<char>, RateLimit)>
    decreases n,
{
    if n <= 0 {
        acc
    } else {
        let prev = spec_collect_descriptors(domain, descs, rules, acc, n - 1);
        let d = descs[n - 1];
        spec_collect_entries(domain, d.entries@, spec_override_of(d), rules, prev, d.entries@.len() as int)
    }
}

/// The whole evaluation view a request yields against the given rules.
pub open spec fn spec_collect(
    domain: Seq<char>,
    descs: Seq<crate::request::RequestDescriptor>,
    rules: Seq<Descriptor>,
    acc: Seq<(Seq<char>, RateLimit)>,
) -> Seq<(Seq<char>, RateLimit)> {
    spec_collect_descriptors(domain, descs, rules, acc, descs.len() as int)
}

/// Whether `prefix` starts `s`, compared character by character.
pub fn str_starts_with(s: &str, prefix: &str) -> (r: bool)
    ensures
        r == prefix@.is_prefix_of(s@),
{
    let plen = prefix.unicode_len();
    let slen = s.unicode_len();
    if plen > slen {
        return false;
    }
    let mut i: usize = 0;
    while i < plen
        invariant
            i <= plen,
            plen == prefix@.len(),
            slen == s@.len(),
            plen <= slen,
            forall|j: int| 0 <= j < i ==> prefix@[j] == s@[j],
        decreases plen - i,
    {
        if prefix.get_char(i) != s.get_char(i) {
            proof {
                assert(!prefix@.is_prefix_of(s@)) by {
                    if prefix@.is_prefix_of(s@) {
                        assert(prefix@[i as int] == s@.subrange(0, plen as int)[i as int]);
                    }
                }
            }
            return false;
        }
        i += 1;
    }
    proof {
        assert(prefix@ =~= s@.subrange(0, plen as int));
    }
    true
}

/// Builds the evaluation set: every descriptor entry is matched against every
/// rule of the domain, and matching rule-config keys are inserted with their
/// effective limit.
pub fn collect_rate_limit_entries(
    request: &RateLimitRequest,
    rate_limits: &Vec<Descriptor>,
    entries: &mut EvalSet,
)
    requires
        old(entries).wf(),
    ensures
        final(entries).wf(),
        final(entries)@ == spec_collect(
            request.domain@,
            request.descriptors@,
            rate_limits@,
            old(entries)@,
        ),
{
    let nd = request.descriptors.len();
    let mut di: usize = 0;
    while di < nd
        invariant
            di <= nd,
            nd == request.descriptors@.len(),
            entries.wf(),
            entries@ == spec_collect_descriptors(
                request.domain@,
                request.descriptors@,
                rate_limits@,
                old(entries)@,
                di as int,
            ),
        decreases nd - di,
    {
        let descriptor = &request.descriptors[di];
        let ghost acc_d = entries@;
        let limit_override: Option<RateLimit> = match &descriptor.limit {
            Option::Some(o) => Option::Some(RateLimit::from_override(o)),
            Option::None => Option::None,
        };
        assert(limit_override == spec_override_of(request.descriptors@[di as int]));
        let ne = descriptor.entries.len();
        let mut ei: usize = 0;
        while ei < ne
            invariant
                ei <= ne,
                ne == descriptor.entries@.len(),
                di < request.descriptors@.len(),
                descriptor == request.descriptors@[di as int],
                limit_override == spec_override_of(request.descriptors@[di as int]),
                entries.wf(),
                entries@ == spec_collect_entries(
                    request.domain@,
                    descriptor.entries@,
                    limit_override,
                    rate_limits@,
                    acc_d,
                    ei as int,
                ),
            decreases ne - ei,
        {
            let entry = &descriptor.entries[ei];
            let key = create_descriptor_key(
                request.domain.as_str(),
                entry.key.as_str(),
                entry.value.as_str(),
            );
            let ghost acc_e = entries@;
            let nr = rate_limits.len();
            let mut ri: usize = 0;
            while ri < nr
                invariant
                    ri <= nr,
                    nr == rate_limits@.len(),
                    key@ == spec_descriptor_key(
                        request.domain@,
                        descriptor.entries@[ei as int].key@,
                        descriptor.entries@[ei as int].value@,
                    ),
                    ei < descriptor.entries@.len(),
                    entries.wf(),
                    entries@ == spec_collect_rules(
                        request.domain@,
                        key@,
                        limit_override,
                        rate_limits@,
                        acc_e,
                        ri as int,
                    ),
                decreases nr - ri,
            {
                let limit = &rate_limits[ri];
                let requests_per_unit = limit.rate_limit.requests_per_unit;
                let config_key = create_rl_config_key(request.domain.as_str(), limit, requests_per_unit);
                if str_starts_with(config_key.as_str(), key.as_str()) {
                    match &limit_override {
                        Option::Some(override_limit) => {
                            entries.insert(config_key, *override_limit);
                        },
                        Option::None => {
                            entries.insert(config_key, limit.rate_limit);
                        },
                    }
                }
                ri += 1;
            }
            ei += 1;
        }
        di += 1;
    }
}

/// With no rules for the domain, matching adds nothing to the evaluation set.
pub proof fn lemma_empty_rules_no_evaluation(
    domain: Seq<char>,
    descs: Seq<crate::request::RequestDescriptor>,
    rules: Seq<Descriptor>,
    acc: Seq<(Seq<char>, RateLimit)>,
)
    requires
        rules.len() == 0,
    ensures
        spec_collect(domain, descs, rules, acc) == acc,
{
    lemma_collect_descriptors_no_rules(domain, descs, rules, acc, descs.len() as int);
}

/// Whether the evaluation view holds `key`.
pub open spec fn eval_contains(s: Seq<(Seq<char>, RateLimit)>, key: Seq<char>) -> bool {
    exists|i: int| 0 <= i < s.len() && (#[trigger] s[i]).0 == key
}

/// Whether some rule among the first `n` matches the descriptor key `dkey`
/// and carries the rule-config key `key`.
pub open spec fn rule_matches_key(
    domain: Seq<char>,
    dkey: Seq<char>,
    rules: Seq<Descriptor>,
    n: int,
    key: Seq<char>,
) -> bool {
    exists|r: int|
        0 <= r < n && key == spec_rl_config_key(domain, #[trigger] rules[r]) && dkey.is_prefix_of(
            spec_rl_config_key(domain, rules[r]),
        )
}

/// Whether some entry among the first `n` of one descriptor matches some rule
/// carrying the rule-config key `key`.
pub open spec fn entry_matches_key(
    domain: Seq<char>,
    entries: Seq<crate::request::Entry>,
    n: int,
    rules: Seq<Descriptor>,
    key: Seq<char>,
) -> bool {
    exists|e: int|
        0 <= e < n && rule_matches_key(
            domain,
            spec_descriptor_key(
                domain,
                (#[trigger] entries[e]).key@,
                entries[e].value@,
            ),
            rules,
            rules.len() as int,
            key,
        )
}

/// Whether some entry of one of the first `n` descriptors matches some rule
/// carrying the rule-config key `key`.
pub open spec fn descriptor_matches_key(
    domain: Seq<char>,
    descs: Seq<crate::request::RequestDescriptor>,
    n: int,
    rules: Seq<Descriptor>,
    key: Seq<char>,
) -> bool {
    exists|d: int|
        0 <= d < n && entry_matches_key(
            domain,
            (#[trigger] descs[d]).entries@,
            descs[d].entries@.len() as int,
            rules,
            key,
        )
}

/// Insertion holds exactly the inserted key and the keys already there.
proof fn lemma_insert_contains(
    s: Seq<(Seq<char>, RateLimit)>,
    key: Seq<char>,
    limit: RateLimit,
    k: Seq<char>,
)
    ensures
        eval_contains(spec_eval_insert(s, key, limit), k) <==> (k == key || eval_contains(s, k)),
{
    lemma_eval_find_props(s, key);
    let t = spec_eval_insert(s, key, limit);
    let i = eval_find(s, key);
    if eval_contains(t, k) {
        let w = choose|w: int| 0 <= w < t.len() && (#[trigger] t[w]).0 == k;
        if i == -1 {
            if w < s.len() {
                assert(s[w].0 == k);
            }
        } else {
            if w != i {
                assert(s[w].0 == k);
            }
        }
    }
    if k == key {
        if i == -1 {
            assert(t[s.len() as int].0 == k);
        } else {
            assert(t[i].0 == k);
        }
    }
    if k != key && eval_contains(s, k) {
        let w = choose|w: int| 0 <= w < s.len() && (#[trigger] s[w]).0 == k;
        assert(t[w].0 == k);
    }
}

/// The keys the rule fold holds: those of the accumulator and the config
/// keys of the matching rules among the first `n`.
proof fn lemma_collect_rules_keys(
    domain: Seq<char>,
    dkey: Seq<char>,
    ovr: Option<RateLimit>,
    rules: Seq<Descriptor>,
    acc: Seq<(Seq<char>, RateLimit)>,
    n: int,
    k: Seq<char>,
)
    requires
        n <= rules.len(),
    ensures
        eval_contains(spec_collect_rules(domain, dkey, ovr, rules, acc, n), k) <==> (eval_contains(
            acc,
            k,
        ) || rule_matches_key(domain, dkey, rules, n, k)),
    decreases n,
{
    if n > 0 {
        lemma_collect_rules_keys(domain, dkey, ovr, rules, acc, n - 1, k);
        let prev = spec_collect_rules(domain, dkey, ovr, rules, acc, n - 1);
        let rule = rules[n - 1];
        let ck = spec_rl_config_key(domain, rule);
        if dkey.is_prefix_of(ck) {
            lemma_insert_contains(prev, ck, spec_effective_limit(ovr, rule.rate_limit), k);
        }
        if rule_matches_key(domain, dkey, rules, n, k) && !(k == ck && dkey.is_prefix_of(ck)) {
            let r = choose|r: int|
                0 <= r < n && k == spec_rl_config_key(domain, #[trigger] rules[r])
                    && dkey.is_prefix_of(spec_rl_config_key(domain, rules[r]));
            assert(r < n - 1);
            assert(rule_matches_key(domain, dkey, rules, n - 1, k));
        }
        if rule_matches_key(domain, dkey, rules, n - 1, k) {
            let r = choose|r: int|
                0 <= r < n - 1 && k == spec_rl_config_key(domain, #[trigger] rules[r])
                    && dkey.is_prefix_of(spec_rl_config_key(domain, rules[r]));
            assert(rule_matches_key(domain, dkey, rules, n, k));
        }
    }
}

/// The keys the entry fold holds: those of the accumulator and the config
/// keys matched by the first `n` entries.
proof fn lemma_collect_entries_keys(
    domain: Seq<char>,
    entries: Seq<crate::request::Entry>,
    ovr: Option<RateLimit>,
    rules: Seq<Descriptor>,
    acc: Seq<(Seq<char>, RateLimit)>,
    n: int,
    k: Seq<char>,
)
    requires
        n <= entries.len(),
    ensures
        eval_contains(spec_collect_entries(domain, entries, ovr, rules, acc, n), k) <==> (
        eval_contains(acc, k) || entry_matches_key(domain, entries, n, rules, k)),
    decreases n,
{
    if n > 0 {
        lemma_collect_entries_keys(domain, entries, ovr, rules, acc, n - 1, k);
        let prev = spec_collect_entries(domain, entries, ovr, rules, acc, n - 1);
        let e = entries[n - 1];
        let dkey = spec_descriptor_key(domain, e.key@, e.value@);
        lemma_collect_rules_keys(domain, dkey, ovr, rules, prev, rules.len() as int, k);
        if eval_contains(acc, k) || entry_matches_key(domain, entries, n, rules, k) {
            if !eval_contains(acc, k) && !entry_matches_key(domain, entries, n - 1, rules, k) {
                let w = choose|w: int|
                    0 <= w < n && rule_matches_key(
                        domain,
                        spec_descriptor_key(
                            domain,
                            (#[trigger] entries[w]).key@,
                            entries[w].value@,
                        ),
                        rules,
                        rules.len() as int,
                        k,
                    );
                assert(w == n - 1);
            }
        }
        if entry_matches_key(domain, entries, n - 1, rules, k) {
            let w = choose|w: int|
                0 <= w < n - 1 && rule_matches_key(
                    domain,
                    spec_descriptor_key(domain, (#[trigger] entries[w]).key@, entries[w].value@),
                    rules,
                    rules.len() as int,
                    k,
                );
            assert(entry_matches_key(domain, entries, n, rules, k));
        }
        if rule_matches_key(domain, dkey, rules, rules.len() as int, k) {
            assert(entry_matches_key(domain, entries, n, rules, k));
        }
    }
}

/// The keys the descriptor fold holds: those of the accumulator and the
/// config keys matched by any entry of the first `n` descriptors.
proof fn lemma_collect_descriptors_keys(
    domain: Seq<char>,
    descs: Seq<crate::request::RequestDescriptor>,
    rules: Seq<Descriptor>,
    acc: Seq<(Seq<char>, RateLimit)>,
    n: int,
    k: Seq<char>,
)
    requires
        n <= descs.len(),
    ensures
        eval_contains(spec_collect_descriptors(domain, descs, rules, acc, n), k) <==> (
        eval_contains(acc, k) || descriptor_matches_key(domain, descs, n, rules, k)),
    decreases n,
{
    if n > 0 {
        lemma_collect_descriptors_keys(domain, descs, rules, acc, n - 1, k);
        let prev = spec_collect_descriptors(domain, descs, rules, acc, n - 1);
        let d = descs[n - 1];
        lemma_collect_entries_keys(
            domain,
            d.entries@,
            spec_override_of(d),
            rules,
            prev,
            d.entries@.len() as int,
            k,
        );
        if eval_contains(acc, k) || descriptor_matches_key(domain, descs, n, rules, k) {
            if !eval_contains(acc, k) && !descriptor_matches_key(domain, descs, n - 1, rules, k) {
                let w = choose|w: int|
                    0 <= w < n && entry_matches_key(
                        domain,
                        (#[trigger] descs[w]).entries@,
                        descs[w].entries@.len() as int,
                        rules,
                        k,
                    );
                assert(w == n - 1);
            }
        }
        if descriptor_matches_key(domain, descs, n - 1, rules, k) {
            let w = choose|w: int|
                0 <= w < n - 1 && entry_matches_key(
                    domain,
                    (#[trigger] descs[w]).entries@,
                    descs[w].entries@.len() as int,
                    rules,
                    k,
                );
            assert(descriptor_matches_key(domain, descs, n, rules, k));
        }
        if entry_matches_key(domain, d.entries@, d.entries@.len() as int, rules, k) {
            assert(descriptor_matches_key(domain, descs, n, rules, k));
        }
    }
}

/// The evaluation set holds exactly the matched rule-config keys: a key is
/// evaluated if and only if it is the rule-config key of some rule of the
/// domain whose key starts with the descriptor key of some request entry.
pub proof fn lemma_evaluated_keys(
    domain: Seq<char>,
    descs: Seq<crate::request::RequestDescriptor>,
    rules: Seq<Descriptor>,
    k: Seq<char>,
)
    ensures
        eval_contains(
            spec_collect(domain, descs, rules, Seq::<(Seq<char>, RateLimit)>::empty()),
            k,
        ) <==> descriptor_matches_key(domain, descs, descs.len() as int, rules, k),
{
    lemma_collect_descriptors_keys(
        domain,
        descs,
        rules,
        Seq::<(Seq<char>, RateLimit)>::empty(),
        descs.len() as int,
        k,
    );
}

/// Insertion of a limit keeps "every limit equals `l`" intact.
proof fn lemma_insert_values(
    s: Seq<(Seq<char>, RateLimit)>,
    key: Seq<char>,
    l: RateLimit,
)
    requires
        forall|i: int| 0 <= i < s.len() ==> (#[trigger] s[i]).1 == l,
    ensures
        forall|i: int|
            0 <= i < spec_eval_insert(s, key, l).len() ==> (#[trigger] spec_eval_insert(
                s,
                key,
                l,
            )[i]).1 == l,
{
    lemma_eval_find_props(s, key);
}

proof fn lemma_override_values_rules(
    domain: Seq<char>,
    dkey: Seq<char>,
    l: RateLimit,
    rules: Seq<Descriptor>,
    acc: Seq<(Seq<char>, RateLimit)>,
    n: int,
)
    requires
        forall|i: int| 0 <= i < acc.len() ==> (#[trigger] acc[i]).1 == l,
    ensures
        forall|i: int|
            0 <= i < spec_collect_rules(domain, dkey, Option::Some(l), rules, acc, n).len() ==> (
            #[trigger] spec_collect_rules(domain, dkey, Option::Some(l), rules, acc, n)[i]).1 == l,
    decreases n,
{
    if n > 0 {
        lemma_override_values_rules(domain, dkey, l, rules, acc, n - 1);
        let prev = spec_collect_rules(domain, dkey, Option::Some(l), rules, acc, n - 1);
        let rule = rules[n - 1];
        let ck = spec_rl_config_key(domain, rule);
        if dkey.is_prefix_of(ck) {
            lemma_insert_values(prev, ck, l);
        }
    }
}

proof fn lemma_override_values_entries(
    domain: Seq<char>,
    entries: Seq<crate::request::Entry>,
    l: RateLimit,
    rules: Seq<Descriptor>,
    acc: Seq<(Seq<char>, RateLimit)>,
    n: int,
)
    requires
        forall|i: int| 0 <= i < acc.len() ==> (#[trigger] acc[i]).1 == l,
    ensures
        forall|i: int|
            0 <= i < spec_collect_entries(domain, entries, Option::Some(l), rules, acc, n).len()
                ==> (#[trigger] spec_collect_entries(
                domain,
                entries,
                Option::Some(l),
                rules,
                acc,
                n,
            )[i]).1 == l,
    decreases n,
{
    if n > 0 {
        lemma_override_values_entries(domain, entries, l, rules, acc, n - 1);
        let prev = spec_collect_entries(domain, entries, Option::Some(l), rules, acc, n - 1);
        let e = entries[n - 1];
        lemma_override_values_rules(
            domain,
            spec_descriptor_key(domain, e.key@, e.value@),
            l,
            rules,
            prev,
            rules.len() as int,
        );
    }
}

/// An override wins: when a request's one descriptor carries a limit
/// override, every entry of the evaluation set carries the override's limit,
/// whatever the matched rules say.
pub proof fn lemma_override_wins(
    domain: Seq<char>,
    d: crate::request::RequestDescriptor,
    rules: Seq<Descriptor>,
    o: crate::rate_limits::RateLimitOverride,
)
    requires
        d.limit == Option::Some(o),
    ensures
        forall|i: int|
            0 <= i < spec_collect(
                domain,
                seq![d],
                rules,
                Seq::<(Seq<char>, RateLimit)>::empty(),
            ).len() ==> (#[trigger] spec_collect(
                domain,
                seq![d],
                rules,
                Seq::<(Seq<char>, RateLimit)>::empty(),
            )[i]).1 == spec_from_override(o),
{
    let acc = Seq::<(Seq<char>, RateLimit)>::empty();
    let l = spec_from_override(o);
    assert(seq![d].len() == 1);
    assert(seq![d][0] == d);
    assert(spec_override_of(d) == Option::Some(l));
    lemma_override_values_entries(domain, d.entries@, l, rules, acc, d.entries@.len() as int);
    assert(spec_collect_descriptors(domain, seq![d], rules, acc, 0) == acc);
    assert(spec_collect(domain, seq![d], rules, acc) == spec_collect_entries(
        domain,
        d.entries@,
        Option::Some(l),
        rules,
        acc,
        d.entries@.len() as int,
    ));
}

proof fn lemma_collect_entries_no_rules(
    domain: Seq<char>,
    entries: Seq<crate::request::Entry>,
    ovr: Option<RateLimit>,
    rules: Seq<Descriptor>,
    acc: Seq<(Seq<char>, RateLimit)>,
    n: int,
)
    requires
        rules.len() == 0,
    ensures
        spec_collect_entries(domain, entries, ovr, rules, acc, n) == acc,
    decreases n,
{
    if n > 0 {
        lemma_collect_entries_no_rules(domain, entries, ovr, rules, acc, n - 1);
    }
}

proof fn lemma_collect_descriptors_no_rules(
    domain: Seq<char>,
    descs: Seq<crate::request::RequestDescriptor>,
    rules: Seq<Descriptor>,
    acc: Seq<(Seq<char>, RateLimit)>,
    n: int,
)
    requires
        rules.len() == 0,
    ensures
        spec_collect_descriptors(domain, descs, rules, acc, n) == acc,
    decreases n,
{
    if n > 0 {
        lemma_collect_descriptors_no_rules(domain, descs, rules, acc, n - 1);
        let d = descs[n - 1];
        lemma_collect_entries_no_rules(
            domain,
            d.entries@,
            spec_override_of(d),
            rules,
            acc,
            d.entries@.len() as int,
        );
    }
}

} // verus!
