//! Properties of the cache and of call chains that relate several steps.

use vstd::prelude::*;
use crate::cache::{Key, Slot, unique_keys, has_key, key_pos, lookup, stored};
use crate::chain::{Stage, Invocation, Outcome, walk, finish, has_forward, at_most_one_cache};
use crate::error::RpcError;

verus! {

/// Storing a response keeps keys unique and within capacity, and makes it
/// the most recently used response under its key.
pub proof fn lemma_stored(s: Seq<Slot>, cap: nat, k: Key, v: String)
    requires
        unique_keys(s),
        cap > 0,
        s.len() <= cap,
    ensures
        unique_keys(stored(s, cap, k, v)),
        stored(s, cap, k, v).len() <= cap,
        stored(s, cap, k, v).last() == (k, v),
        lookup(stored(s, cap, k, v), k) == Some(v),
{
    let rest = if has_key(s, k) {
        s.remove(key_pos(s, k))
    } else {
        s
    };
    if has_key(s, k) {
        let p = key_pos(s, k);
        assert forall|a: int, b: int| 0 <= a < b < rest.len() implies rest[a].0 != rest[b].0 by {
            let ia = if a < p { a } else { a + 1 };
            let ib = if b < p { b } else { b + 1 };
            assert(rest[a] == s[ia] && rest[b] == s[ib]);
        }
        assert forall|j: int| 0 <= j < rest.len() implies #[trigger] rest[j].0 != k by {
            let ij = if j < p { j } else { j + 1 };
            assert(rest[j] == s[ij]);
        }
    }
    assert(!has_key(rest, k));
    let kept = if rest.len() >= cap {
        rest.subrange(1, rest.len() as int)
    } else {
        rest
    };
    assert(!has_key(kept, k)) by {
        if has_key(kept, k) {
            let j = choose|j: int| 0 <= j < kept.len() && #[trigger] kept[j].0 == k;
            if rest.len() >= cap {
                assert(rest[j + 1].0 == k);
            }
        }
    }
    let t = kept.push((k, v));
    assert(t == stored(s, cap, k, v));
    assert forall|a: int, b: int| 0 <= a < b < t.len() implies t[a].0 != t[b].0 by {
        if b == t.len() - 1 {
            assert(t[a] == kept[a]);
        } else if rest.len() >= cap {
            assert(t[a] == rest[a + 1] && t[b] == rest[b + 1]);
        }
    }
    assert(t[t.len() - 1].0 == k);
    assert(has_key(t, k));
    let q = key_pos(t, k);
    assert(q == t.len() - 1);
}

/// A full cache that takes a new key evicts exactly its least recently
/// used response and keeps all others in their order.
pub proof fn lemma_full_cache_evicts_least_recent(s: Seq<Slot>, cap: nat, k: Key, v: String)
    requires
        unique_keys(s),
        cap > 0,
        s.len() == cap,
        !has_key(s, k),
    ensures
        stored(s, cap, k, v) == s.subrange(1, s.len() as int).push((k, v)),
        !has_key(stored(s, cap, k, v), s[0].0),
        forall|i: int| 1 <= i < s.len() ==> has_key(stored(s, cap, k, v), #[trigger] s[i].0),
{
    let t = stored(s, cap, k, v);
    assert(t == s.subrange(1, s.len() as int).push((k, v)));
    assert forall|i: int| 1 <= i < s.len() implies has_key(t, #[trigger] s[i].0) by {
        assert(t[i - 1] == s[i]);
    }
    if has_key(t, s[0].0) {
        let j = choose|j: int| 0 <= j < t.len() && #[trigger] t[j].0 == s[0].0;
        if j < t.len() - 1 {
            assert(t[j] == s[j + 1]);
        }
    }
}

/// The cache after storing each response of `items` in turn.
pub open spec fn stored_all(s: Seq<Slot>, cap: nat, items: Seq<Slot>) -> Seq<Slot>
    decreases items.len(),
{
    if items.len() == 0 {
        s
    } else {
        let init = items.drop_last();
        stored(stored_all(s, cap, init), cap, items.last().0, items.last().1)
    }
}

/// Storing distinct keys into an empty cache keeps them all, oldest first,
/// while they fit.
pub proof fn lemma_distinct_fill(cap: nat, items: Seq<Slot>)
    requires
        cap > 0,
        unique_keys(items),
        items.len() <= cap,
    ensures
        stored_all(Seq::empty(), cap, items) == items,
    decreases items.len(),
{
    if items.len() > 0 {
        let init = items.drop_last();
        assert(unique_keys(init));
        lemma_distinct_fill(cap, init);
        let k = items.last().0;
        assert(!has_key(init, k)) by {
            if has_key(init, k) {
                let j = choose|j: int| 0 <= j < init.len() && #[trigger] init[j].0 == k;
                assert(items[j].0 == items[items.len() - 1].0);
            }
        }
        assert(init.len() < cap);
        assert(stored(init, cap, k, items.last().1) =~= items);
    }
}

/// With room for `cap` responses, storing `cap + 1` distinct keys into an
/// empty cache evicts exactly the first, least recently used, one.
pub proof fn lemma_distinct_overflow_evicts_first(cap: nat, items: Seq<Slot>)
    requires
        cap > 0,
        unique_keys(items),
        items.len() == cap + 1,
    ensures
        stored_all(Seq::empty(), cap, items) == items.subrange(1, items.len() as int),
{
    let init = items.drop_last();
    assert(unique_keys(init));
    lemma_distinct_fill(cap, init);
    let k = items.last().0;
    assert(!has_key(init, k)) by {
        if has_key(init, k) {
            let j = choose|j: int| 0 <= j < init.len() && #[trigger] init[j].0 == k;
            assert(items[j].0 == items[items.len() - 1].0);
        }
    }
    lemma_full_cache_evicts_least_recent(init, cap, k, items.last().1);
    assert(init.subrange(1, init.len() as int).push((k, items.last().1)) =~= items.subrange(1, items.len() as int));
}

/// A walk that does not end in a response leaves the cache as it was.
pub proof fn lemma_walk_keeps_cache(stages: Seq<Stage>, cap: nat, cache: Seq<Slot>, s: Invocation)
    requires
        !(walk(stages, cap, cache, s).2 is Respond),
    ensures
        walk(stages, cap, cache, s).0 == cache,
    decreases stages.len() - s.pos,
{
    if s.pos < stages.len() && stages[s.pos as int] == Stage::Cache && lookup(cache, s.params) is None {
        lemma_walk_keeps_cache(stages, cap, cache, Invocation { pos: s.pos + 1, fill: Some(s.params), ..s });
    }
}

/// Cache-hit equivalence: when a request at a cache stage goes upstream
/// and the reply `v` succeeds, the same request at that stage is then
/// answered with `v` without going upstream.
pub proof fn lemma_cache_hit_equivalence(stages: Seq<Stage>, cap: nat, cache: Seq<Slot>, s: Invocation, v: String)
    requires
        s.pos < stages.len(),
        stages[s.pos as int] == Stage::Cache,
        at_most_one_cache(stages),
        cap > 0,
        unique_keys(cache),
        cache.len() <= cap,
        walk(stages, cap, cache, s).2 is CallUpstream,
    ensures
        ({
            let (c1, s1, o) = walk(stages, cap, cache, s);
            let c2 = finish(c1, cap, s1.fill, Ok(v));
            walk(stages, cap, c2, s).2 == Outcome::Respond(Ok(v))
        }),
{
    reveal_with_fuel(walk, 2);
    let s2 = Invocation { pos: s.pos + 1, fill: Some(s.params), ..s };
    assert(lookup(cache, s.params) is None);
    if s2.pos < stages.len() {
        assert(stages[s2.pos as int] != Stage::Cache);
    }
    let (c1, s1, o) = walk(stages, cap, cache, s);
    assert(c1 == cache && s1.fill == Some(s.params));
    lemma_stored(cache, cap, s.params, v);
}

/// A failed upstream reply is not stored: the cache stays as it was, so
/// the same request goes upstream again.
pub proof fn lemma_failure_not_cached(stages: Seq<Stage>, cap: nat, cache: Seq<Slot>, s: Invocation, e: RpcError)
    requires
        walk(stages, cap, cache, s).2 is CallUpstream,
    ensures
        ({
            let (c1, s1, o) = walk(stages, cap, cache, s);
            let c2 = finish(c1, cap, s1.fill, Err(e));
            &&& c2 == cache
            &&& walk(stages, cap, c2, s) == walk(stages, cap, cache, s)
        }),
{
    lemma_walk_keeps_cache(stages, cap, cache, s);
}

/// A chain without a forwarding stage, whose cache is therefore empty,
/// never goes upstream and never succeeds: a walk either waits for an
/// identifier to inject or fails with `BadConfiguration`.
pub proof fn lemma_no_forward_fails(stages: Seq<Stage>, cap: nat, s: Invocation)
    requires
        !has_forward(stages),
    ensures
        ({
            let (c1, s1, o) = walk(stages, cap, Seq::empty(), s);
            &&& c1 == Seq::<Slot>::empty()
            &&& (o is ResolveBlockHash || o is ResolveBlockNumber
                || o == Outcome::Respond(Err(RpcError::BadConfiguration)))
        }),
    decreases stages.len() - s.pos,
{
    if s.pos < stages.len() {
        if stages[s.pos as int] == Stage::Cache {
            assert(!has_key(Seq::<Slot>::empty(), s.params));
            lemma_no_forward_fails(stages, cap, Invocation { pos: s.pos + 1, fill: Some(s.params), ..s });
        } else {
            assert(stages[s.pos as int] != Stage::Forward);
        }
    }
}

} // verus!
