//! The method registry: configuration, its validation, one chain per
//! method, the alias table and the `rpc_methods` introspection list.

use vstd::prelude::*;
use crate::cache::{LruCache, key_of};
use crate::chain::{Stage, CallChain, has_cache, has_forward, at_most_one_cache};
use crate::error::RpcError;

verus! {

/// One configured method.
pub struct MethodConfig {
    pub method: String,
    /// The parameter index at which to insert the current block hash.
    pub with_block_hash: Option<usize>,
    /// The parameter index at which to insert the current block number.
    pub with_block_number: Option<usize>,
    /// The room of the method's cache; 0 disables caching.
    pub cache: usize,
}

/// One configured subscription.
pub struct SubscriptionConfig {
    /// The notification name.
    pub name: String,
    pub subscribe: String,
    pub unsubscribe: String,
}

/// The configured methods, subscriptions and aliases; an alias is
/// `(existing name, new name)`.
pub struct RpcConfig {
    pub methods: Vec<MethodConfig>,
    pub subscriptions: Vec<SubscriptionConfig>,
    pub aliases: Vec<(String, String)>,
}

/// The name of the introspection method.
pub open spec fn introspection_name() -> Seq<char> {
    "rpc_methods"@
}

/// The stages of a method: hash injection, number injection, the cache
/// when enabled, then forwarding.
pub open spec fn method_stages(m: MethodConfig) -> Seq<Stage> {
    let hash = match m.with_block_hash {
        Some(i) => seq![Stage::InjectBlockHash(i)],
        None => Seq::empty(),
    };
    let number = match m.with_block_number {
        Some(i) => seq![Stage::InjectBlockNumber(i)],
        None => Seq::empty(),
    };
    let cache = if m.cache > 0 {
        seq![Stage::Cache]
    } else {
        Seq::empty()
    };
    hash + number + cache + seq![Stage::Forward]
}

pub open spec fn method_names(c: RpcConfig) -> Seq<Seq<char>> {
    Seq::new(c.methods@.len(), |i: int| c.methods@[i].method@)
}

pub open spec fn subscribe_names(c: RpcConfig) -> Seq<Seq<char>> {
    Seq::new(c.subscriptions@.len(), |i: int| c.subscriptions@[i].subscribe@)
}

pub open spec fn unsubscribe_names(c: RpcConfig) -> Seq<Seq<char>> {
    Seq::new(c.subscriptions@.len(), |i: int| c.subscriptions@[i].unsubscribe@)
}

pub open spec fn alias_names(c: RpcConfig) -> Seq<Seq<char>> {
    Seq::new(c.aliases@.len(), |i: int| c.aliases@[i].1@)
}

/// The names registered before aliases: methods, then subscribe and
/// unsubscribe names.
pub open spec fn registered_names(c: RpcConfig) -> Seq<Seq<char>> {
    method_names(c) + subscribe_names(c) + unsubscribe_names(c)
}

/// Every externally visible name: the registered names, then the aliases.
pub open spec fn external_names(c: RpcConfig) -> Seq<Seq<char>> {
    registered_names(c) + alias_names(c)
}

pub open spec fn distinct(s: Seq<Seq<char>>) -> bool {
    forall|i: int, j: int| 0 <= i < j < s.len() ==> s[i] != s[j]
}

/// A method does not inject a hash and a number at the same index.
pub open spec fn injections_ok(m: MethodConfig) -> bool {
    !(m.with_block_hash is Some && m.with_block_number is Some && m.with_block_hash == m.with_block_number)
}

/// A configuration that can be served: each external name once, none
/// taken by the introspection method, every alias of a registered name,
/// and no two injections at one index.
pub open spec fn valid_config(c: RpcConfig) -> bool {
    &&& distinct(external_names(c))
    &&& !external_names(c).contains(introspection_name())
    &&& forall|i: int| 0 <= i < c.aliases@.len() ==> registered_names(c).contains(#[trigger] c.aliases@[i].0@)
    &&& forall|i: int| 0 <= i < c.methods@.len() ==> injections_ok(#[trigger] c.methods@[i])
}

/// `n` stands in `s` at exactly one place.
pub open spec fn occurs_once(s: Seq<Seq<char>>, n: Seq<char>) -> bool {
    exists|j: int| 0 <= j < s.len() && s[j] == n && forall|k: int| 0 <= k < s.len() && s[k] == n ==> k == j
}

/// The introspection list of a valid configuration holds every method,
/// every subscribe and unsubscribe name and every alias exactly once.
pub proof fn lemma_rpc_methods_exactly_once(c: RpcConfig)
    requires
        valid_config(c),
    ensures
        distinct(external_names(c)),
        forall|i: int| 0 <= i < c.methods@.len() ==> occurs_once(external_names(c), #[trigger] c.methods@[i].method@),
        forall|i: int| 0 <= i < c.subscriptions@.len() ==> occurs_once(external_names(c), #[trigger] c.subscriptions@[i].subscribe@),
        forall|i: int| 0 <= i < c.subscriptions@.len() ==> occurs_once(external_names(c), #[trigger] c.subscriptions@[i].unsubscribe@),
        forall|i: int| 0 <= i < c.aliases@.len() ==> occurs_once(external_names(c), #[trigger] c.aliases@[i].1@),
{
    let e = external_names(c);
    let m = c.methods@.len() as int;
    let s = c.subscriptions@.len() as int;
    assert forall|j: int| 0 <= j < e.len() implies occurs_once(e, #[trigger] e[j]) by {
        assert forall|k: int| 0 <= k < e.len() && e[k] == e[j] implies k == j by {
            if k < j {
                assert(e[k] != e[j]);
            } else if j < k {
                assert(e[j] != e[k]);
            }
        }
    }
    assert forall|i: int| 0 <= i < m implies occurs_once(e, #[trigger] c.methods@[i].method@) by {
        assert(e[i] == c.methods@[i].method@);
    }
    assert forall|i: int| 0 <= i < s implies occurs_once(e, #[trigger] c.subscriptions@[i].subscribe@) by {
        assert(e[m + i] == c.subscriptions@[i].subscribe@);
    }
    assert forall|i: int| 0 <= i < s implies occurs_once(e, #[trigger] c.subscriptions@[i].unsubscribe@) by {
        assert(e[m + s + i] == c.subscriptions@[i].unsubscribe@);
    }
    assert forall|i: int| 0 <= i < c.aliases@.len() implies occurs_once(e, #[trigger] c.aliases@[i].1@) by {
        assert(e[m + 2 * s + i] == c.aliases@[i].1@);
    }
}

/// A name that stays for the rest of the process, for registering handlers
/// that outlive the configuration they were built from.
pub fn string_to_static_str(s: String) -> (r: &'static str)
    ensures
        r@ == s@,
{
    leak_str(s)
}

/// Relies on `String::into_boxed_str` and `Box::leak`: the leaked slice
/// holds the string's characters.
#[verifier::external_body]
fn leak_str(s: String) -> (r: &'static str)
    ensures
        r@ == s@,
{
    Box::leak(s.into_boxed_str())
}

/// The chain of method `m`, with an empty cache of room `m.cache` when
/// caching is enabled.
pub fn build_chain(m: &MethodConfig) -> (r: CallChain)
    ensures
        r.wf(),
        r.stages@ == method_stages(*m),
        r.cache_view().len() == 0,
        r.cache_cap() == m.cache,
        r.cache is Some <==> m.cache > 0,
{
    let mut stages: Vec<Stage> = Vec::new();
    match m.with_block_hash {
        Some(i) => stages.push(Stage::InjectBlockHash(i)),
        None => {},
    }
    match m.with_block_number {
        Some(i) => stages.push(Stage::InjectBlockNumber(i)),
        None => {},
    }
    let cache = if m.cache > 0 {
        stages.push(Stage::Cache);
        Some(LruCache::new(m.cache))
    } else {
        None
    };
    stages.push(Stage::Forward);
    let ghost s = stages@;
    assert(s =~= method_stages(*m));
    assert(s[s.len() - 1] == Stage::Forward);
    assert(has_forward(s));
    assert(at_most_one_cache(s));
    CallChain { stages, cache }
}

/// Appends the views of `src`'s names to `out`, in order.
fn push_names(out: &mut Vec<String>, src: &Vec<String>)
    ensures
        key_of(final(out)@) == key_of(old(out)@) + key_of(src@),
{
    let ghost start = key_of(out@);
    let mut i: usize = 0;
    while i < src.len()
        invariant
            i <= src@.len(),
            out@.len() == start.len() + i,
            forall|j: int| 0 <= j < start.len() ==> out@[j]@ == start[j],
            forall|j: int| 0 <= j < i ==> out@[start.len() + j]@ == src@[j]@,
        decreases src@.len() - i,
    {
        out.push(src[i].clone());
        i = i + 1;
    }
    assert(key_of(out@) =~= start + key_of(src@));
}

/// Every externally visible name: methods, subscribe names, unsubscribe
/// names and aliases, in that order.
pub fn rpc_methods(config: &RpcConfig) -> (r: Vec<String>)
    ensures
        key_of(r@) == external_names(*config),
{
    let mut methods: Vec<String> = Vec::new();
    let mut subscribe: Vec<String> = Vec::new();
    let mut unsubscribe: Vec<String> = Vec::new();
    let mut aliases: Vec<String> = Vec::new();
    let mut i: usize = 0;
    while i < config.methods.len()
        invariant
            i <= config.methods@.len(),
            methods@.len() == i,
            forall|j: int| 0 <= j < i ==> methods@[j]@ == config.methods@[j].method@,
        decreases config.methods@.len() - i,
    {
        methods.push(config.methods[i].method.clone());
        i = i + 1;
    }
    let mut i: usize = 0;
    while i < config.subscriptions.len()
        invariant
            i <= config.subscriptions@.len(),
            subscribe@.len() == i,
            forall|j: int| 0 <= j < i ==> subscribe@[j]@ == config.subscriptions@[j].subscribe@,
            unsubscribe@.len() == i,
            forall|j: int| 0 <= j < i ==> unsubscribe@[j]@ == config.subscriptions@[j].unsubscribe@,
        decreases config.subscriptions@.len() - i,
    {
        subscribe.push(config.subscriptions[i].subscribe.clone());
        unsubscribe.push(config.subscriptions[i].unsubscribe.clone());
        i = i + 1;
    }
    let mut i: usize = 0;
    while i < config.aliases.len()
        invariant
            i <= config.aliases@.len(),
            aliases@.len() == i,
            forall|j: int| 0 <= j < i ==> aliases@[j]@ == config.aliases@[j].1@,
        decreases config.aliases@.len() - i,
    {
        aliases.push(config.aliases[i].1.clone());
        i = i + 1;
    }
    assert(key_of(methods@) =~= method_names(*config));
    assert(key_of(subscribe@) =~= subscribe_names(*config));
    assert(key_of(unsubscribe@) =~= unsubscribe_names(*config));
    assert(key_of(aliases@) =~= alias_names(*config));
    let mut r: Vec<String> = Vec::new();
    assert(key_of(r@) =~= Seq::<Seq<char>>::empty());
    push_names(&mut r, &methods);
    push_names(&mut r, &subscribe);
    push_names(&mut r, &unsubscribe);
    push_names(&mut r, &aliases);
    assert(key_of(r@) =~= external_names(*config));
    r
}

/// Whether `name` is among the first `upto` of `names`.
fn position_of(names: &Vec<String>, name: &String, upto: usize) -> (r: Option<usize>)
    requires
        upto <= names@.len(),
    ensures
        match r {
            Some(j) => j < upto && names@[j as int]@ == name@,
            None => forall|j: int| 0 <= j < upto ==> names@[j]@ != name@,
        },
{
    let mut j: usize = 0;
    while j < upto
        invariant
            j <= upto <= names@.len(),
            forall|k: int| 0 <= k < j ==> names@[k]@ != name@,
        decreases upto - j,
    {
        if names[j] == *name {
            return Some(j);
        }
        j = j + 1;
    }
    None
}

fn all_distinct(names: &Vec<String>) -> (r: bool)
    ensures
        r == distinct(key_of(names@)),
{
    let mut i: usize = 0;
    while i < names.len()
        invariant
            i <= names@.len(),
            forall|a: int, b: int| 0 <= a < b < i ==> names@[a]@ != names@[b]@,
        decreases names@.len() - i,
    {
        match position_of(names, &names[i], i) {
            Some(j) => {
                assert(key_of(names@)[j as int] == key_of(names@)[i as int]);
                return false;
            },
            None => {},
        }
        i = i + 1;
    }
    true
}

/// Checks a configuration before anything is served: `BadConfiguration`
/// exactly where it is not valid.
pub fn validate(config: &RpcConfig) -> (r: Result<(), RpcError>)
    ensures
        r is Ok <==> valid_config(*config),
        r is Err ==> r == Err::<(), RpcError>(RpcError::BadConfiguration),
{
    let names = rpc_methods(config);
    if !all_distinct(&names) {
        return Err(RpcError::BadConfiguration);
    }
    let introspection = "rpc_methods".to_owned();
    match position_of(&names, &introspection, names.len()) {
        Some(j) => {
            assert(external_names(*config)[j as int] == introspection_name());
            return Err(RpcError::BadConfiguration);
        },
        None => {},
    }
    assert(names@.len() == key_of(names@).len());
    assert(names@.len() == config.methods@.len() + 2 * config.subscriptions@.len() + config.aliases@.len());
    let registered = config.methods.len() + config.subscriptions.len() + config.subscriptions.len();
    assert(registered_names(*config).len() == registered);
    assert forall|k: int| 0 <= k < registered implies names@[k]@ == #[trigger] registered_names(*config)[k] by {
        assert(key_of(names@)[k] == external_names(*config)[k]);
        assert(external_names(*config)[k] == registered_names(*config)[k]);
    }
    let mut i: usize = 0;
    while i < config.aliases.len()
        invariant
            i <= config.aliases@.len(),
            registered <= names@.len(),
            registered == registered_names(*config).len(),
            forall|k: int| 0 <= k < registered ==> names@[k]@ == #[trigger] registered_names(*config)[k],
            forall|k: int| 0 <= k < i ==> registered_names(*config).contains(#[trigger] config.aliases@[k].0@),
        decreases config.aliases@.len() - i,
    {
        match position_of(&names, &config.aliases[i].0, registered) {
            None => {
                assert(!registered_names(*config).contains(config.aliases@[i as int].0@)) by {
                    if registered_names(*config).contains(config.aliases@[i as int].0@) {
                        let k = choose|k: int| 0 <= k < registered && registered_names(*config)[k] == config.aliases@[i as int].0@;
                        assert(names@[k]@ == registered_names(*config)[k]);
                    }
                }
                return Err(RpcError::BadConfiguration);
            },
            Some(j) => {
                assert(registered_names(*config)[j as int] == config.aliases@[i as int].0@);
            },
        }
        i = i + 1;
    }
    let mut i: usize = 0;
    while i < config.methods.len()
        invariant
            i <= config.methods@.len(),
            forall|k: int| 0 <= k < i ==> injections_ok(#[trigger] config.methods@[k]),
        decreases config.methods@.len() - i,
    {
        let m = &config.methods[i];
        match (m.with_block_hash, m.with_block_number) {
            (Some(a), Some(b)) => {
                if a == b {
                    assert(!injections_ok(config.methods@[i as int]));
                    return Err(RpcError::BadConfiguration);
                }
            },
            _ => {},
        }
        i = i + 1;
    }
    Ok(())
}

} // verus!
