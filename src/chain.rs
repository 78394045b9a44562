//! The middleware chain for calls: injection stages, a cache stage and an
//! upstream-forwarding stage, walked in order with a terminal fallback.
//!
//! A chain is driven as a state machine. `advance` walks the stages until
//! outside work is needed (a chain-state query or the upstream call) or a
//! response is ready; the caller performs that work and hands its result
//! back through `resume` or `complete`.

use vstd::prelude::*;
use crate::cache::{Key, Slot, LruCache, key_of, lookup, touched, stored, has_key, copy_params};
use crate::error::RpcError;
use crate::inject::{injected, inject_param};

verus! {

/// One stage of a call chain.
#[derive(Clone, Copy, Debug, PartialEq, Eq, Structural)]
pub enum Stage {
    /// Inserts the current block hash at the given parameter index.
    InjectBlockHash(usize),
    /// Inserts the current block number at the given parameter index.
    InjectBlockNumber(usize),
    /// Answers from the chain's cache, or fills it on the way back.
    Cache,
    /// Sends the request upstream and returns the reply.
    Forward,
}

/// A call: a method name and its serialized parameters.
#[derive(Debug)]
pub struct CallRequest {
    pub method: String,
    pub params: Vec<String>,
}

impl CallRequest {
    pub open spec fn view(&self) -> (Seq<char>, Key) {
        (self.method@, key_of(self.params@))
    }

    pub fn new(method: String, params: Vec<String>) -> (r: CallRequest)
        ensures
            r.method == method,
            r.params == params,
    {
        CallRequest { method, params }
    }
}

/// Where one invocation stands, as the contracts see it.
pub struct Invocation {
    pub pos: nat,
    pub method: Seq<char>,
    pub params: Key,
    pub fill: Option<Key>,
}

/// Where one invocation of a chain stands: the next stage, the request as
/// rewritten so far, and the cache key to fill once a response succeeds.
pub struct CallState {
    pub pos: usize,
    pub request: CallRequest,
    pub fill: Option<Vec<String>>,
}

impl CallState {
    pub open spec fn view(&self) -> Invocation {
        Invocation {
            pos: self.pos as nat,
            method: self.request.method@,
            params: key_of(self.request.params@),
            fill: match self.fill {
                Some(k) => Some(key_of(k@)),
                None => None,
            },
        }
    }

    /// A fresh invocation of `request`, at the first stage.
    pub fn new(request: CallRequest) -> (r: CallState)
        ensures
            r@ == (Invocation {
                pos: 0,
                method: request.method@,
                params: key_of(request.params@),
                fill: None,
            }),
    {
        CallState { pos: 0, request, fill: None }
    }
}

/// What the chain asks of its caller next.
#[derive(Debug)]
pub enum Action {
    /// Query the current block hash, then `resume`.
    ResolveBlockHash,
    /// Query the current block number, then `resume`.
    ResolveBlockNumber,
    /// Send this request upstream, then `complete`.
    CallUpstream(CallRequest),
    /// The invocation is over with this response.
    Respond(Result<String, RpcError>),
}

/// `Action` as the contracts see it.
pub enum Outcome {
    ResolveBlockHash,
    ResolveBlockNumber,
    CallUpstream(Seq<char>, Key),
    Respond(Result<String, RpcError>),
}

impl Action {
    pub open spec fn view(&self) -> Outcome {
        match self {
            Action::ResolveBlockHash => Outcome::ResolveBlockHash,
            Action::ResolveBlockNumber => Outcome::ResolveBlockNumber,
            Action::CallUpstream(r) => Outcome::CallUpstream(r.method@, key_of(r.params@)),
            Action::Respond(r) => Outcome::Respond(*r),
        }
    }
}

pub open spec fn has_forward(stages: Seq<Stage>) -> bool {
    exists|i: int| 0 <= i < stages.len() && #[trigger] stages[i] == Stage::Forward
}

pub open spec fn has_cache(stages: Seq<Stage>) -> bool {
    exists|i: int| 0 <= i < stages.len() && #[trigger] stages[i] == Stage::Cache
}

pub open spec fn at_most_one_cache(stages: Seq<Stage>) -> bool {
    forall|i: int, j: int|
        0 <= i < stages.len() && 0 <= j < stages.len() && #[trigger] stages[i] == Stage::Cache
            && #[trigger] stages[j] == Stage::Cache ==> i == j
}

/// The cache after a response has come back through a cache stage that
/// missed on key `fill`: only a success is stored.
pub open spec fn finish(cache: Seq<Slot>, cap: nat, fill: Option<Key>, result: Result<String, RpcError>) -> Seq<Slot> {
    match (fill, result) {
        (Some(k), Ok(v)) => stored(cache, cap, k, v),
        _ => cache,
    }
}

/// Walking the stages from `s.pos` until outside work is needed or a
/// response is ready: the cache, the invocation and what comes next.
pub open spec fn walk(stages: Seq<Stage>, cap: nat, cache: Seq<Slot>, s: Invocation) -> (Seq<Slot>, Invocation, Outcome)
    decreases stages.len() - s.pos,
{
    if s.pos >= stages.len() {
        (cache, s, Outcome::Respond(Err(RpcError::BadConfiguration)))
    } else {
        match stages[s.pos as int] {
            Stage::InjectBlockHash(_) => (cache, s, Outcome::ResolveBlockHash),
            Stage::InjectBlockNumber(_) => (cache, s, Outcome::ResolveBlockNumber),
            Stage::Forward => (cache, s, Outcome::CallUpstream(s.method, s.params)),
            Stage::Cache => match lookup(cache, s.params) {
                Some(v) => (
                    finish(touched(cache, s.params), cap, s.fill, Ok(v)),
                    s,
                    Outcome::Respond(Ok(v)),
                ),
                None => walk(stages, cap, cache, Invocation { pos: s.pos + 1, fill: Some(s.params), ..s }),
            },
        }
    }
}

/// The index that an injection stage writes to.
pub open spec fn inject_index(stage: Stage) -> nat {
    match stage {
        Stage::InjectBlockHash(i) => i as nat,
        Stage::InjectBlockNumber(i) => i as nat,
        _ => 0,
    }
}

/// Going on after the injection stage at `s.pos` has had its identifier
/// resolved: a failed resolution fails the request.
pub open spec fn resumed(
    stages: Seq<Stage>,
    cap: nat,
    cache: Seq<Slot>,
    s: Invocation,
    resolved: Result<String, String>,
) -> (Seq<Slot>, Invocation, Outcome) {
    match resolved {
        Err(e) => (cache, s, Outcome::Respond(Err(RpcError::ResolutionFailure(e)))),
        Ok(v) => walk(
            stages,
            cap,
            cache,
            Invocation {
                pos: s.pos + 1,
                params: injected(s.params, inject_index(stages[s.pos as int]), v@),
                ..s
            },
        ),
    }
}

/// The stages of one method or subscription, and its cache.
pub struct CallChain {
    pub stages: Vec<Stage>,
    pub cache: Option<LruCache>,
}

impl CallChain {
    pub open spec fn cache_view(&self) -> Seq<Slot> {
        match self.cache {
            Some(c) => c@,
            None => Seq::empty(),
        }
    }

    pub open spec fn cache_cap(&self) -> nat {
        match self.cache {
            Some(c) => c.cap(),
            None => 0,
        }
    }

    /// A cache stage has a cache to use, there is at most one, and a chain
    /// that never forwards has stored nothing.
    pub open spec fn wf(&self) -> bool {
        &&& (has_cache(self.stages@) ==> self.cache is Some)
        &&& (self.cache is Some ==> self.cache->0.wf())
        &&& at_most_one_cache(self.stages@)
        &&& (!has_forward(self.stages@) ==> self.cache_view().len() == 0)
    }

    /// A chain of `stages` with a cache of room `cache_capacity` (0: none).
    /// It is refused where a cache stage has no cache or more than one
    /// cache stage is given.
    pub fn new(stages: Vec<Stage>, cache_capacity: usize) -> (r: Result<CallChain, RpcError>)
        ensures
            match r {
                Ok(c) => {
                    &&& c.wf()
                    &&& c.stages == stages
                    &&& c.cache_view().len() == 0
                    &&& c.cache_cap() == cache_capacity
                    &&& (c.cache is Some <==> cache_capacity > 0)
                },
                Err(e) => e == RpcError::BadConfiguration,
            },
            r is Ok <==> (at_most_one_cache(stages@) && (has_cache(stages@) ==> cache_capacity > 0)),
    {
        let mut seen: Option<usize> = None;
        let mut i: usize = 0;
        while i < stages.len()
            invariant
                i <= stages@.len(),
                match seen {
                    Some(j) => j < i && stages@[j as int] == Stage::Cache,
                    None => true,
                },
                forall|j: int| 0 <= j < i && #[trigger] stages@[j] == Stage::Cache ==> seen == Some(j as usize),
            decreases stages@.len() - i,
        {
            if stages[i] == Stage::Cache {
                match seen {
                    Some(j) => {
                        assert(stages@[j as int] == Stage::Cache && stages@[i as int] == Stage::Cache);
                        return Err(RpcError::BadConfiguration);
                    },
                    None => {
                        seen = Some(i);
                    },
                }
            }
            i = i + 1;
        }
        if seen.is_some() && cache_capacity == 0 {
            return Err(RpcError::BadConfiguration);
        }
        let cache = if cache_capacity > 0 {
            Some(LruCache::new(cache_capacity))
        } else {
            None
        };
        Ok(CallChain { stages, cache })
    }

    fn store(&mut self, fill: &Option<Vec<String>>, result: &Result<String, RpcError>)
        requires
            old(self).cache is Some ==> old(self).cache->0.wf(),
            fill is Some && result is Ok ==> old(self).cache is Some,
        ensures
            final(self).stages@ == old(self).stages@,
            final(self).cache is Some <==> old(self).cache is Some,
            final(self).cache is Some ==> final(self).cache->0.wf(),
            final(self).cache_cap() == old(self).cache_cap(),
            final(self).cache_view() == finish(
                old(self).cache_view(),
                old(self).cache_cap(),
                match fill {
                    Some(k) => Some(key_of(k@)),
                    None => None,
                },
                *result,
            ),
    {
        match (fill, result) {
            (Some(k), Ok(v)) => {
                match &mut self.cache {
                    Some(c) => {
                        c.put(copy_params(k), v.clone());
                    },
                    None => {},
                }
            },
            _ => {},
        }
    }

    /// Walks the stages from where `state` stands until outside work is
    /// needed or a response is ready.
    pub fn advance(&mut self, state: &mut CallState) -> (a: Action)
        requires
            old(self).wf(),
            old(state).pos <= old(self).stages@.len(),
        ensures
            final(self).wf(),
            final(self).stages@ == old(self).stages@,
            final(self).cache_cap() == old(self).cache_cap(),
            final(state).pos <= final(self).stages@.len(),
            walk(old(self).stages@, old(self).cache_cap(), old(self).cache_view(), old(state)@) == (
                final(self).cache_view(),
                final(state)@,
                a@,
            ),
    {
        let ghost stages = self.stages@;
        let ghost cap = self.cache_cap();
        let ghost target = walk(stages, cap, self.cache_view(), state@);
        loop
            invariant
                self.wf(),
                self.stages@ == stages,
                stages == old(self).stages@,
                self.cache_cap() == cap,
                cap == old(self).cache_cap(),
                state.pos <= stages.len(),
                walk(stages, cap, self.cache_view(), state@) == target,
                target == walk(old(self).stages@, old(self).cache_cap(), old(self).cache_view(), old(state)@),
            decreases stages.len() - state.pos,
        {
            if state.pos >= self.stages.len() {
                return Action::Respond(Err(RpcError::BadConfiguration));
            }
            match self.stages[state.pos] {
                Stage::InjectBlockHash(_) => {
                    return Action::ResolveBlockHash;
                },
                Stage::InjectBlockNumber(_) => {
                    return Action::ResolveBlockNumber;
                },
                Stage::Forward => {
                    let request = CallRequest::new(state.request.method.clone(), copy_params(&state.request.params));
                    return Action::CallUpstream(request);
                },
                Stage::Cache => {
                    assert(stages[state.pos as int] == Stage::Cache);
                    let ghost before = self.cache_view();
                    let hit = match &mut self.cache {
                        Some(c) => c.get(&state.request.params),
                        None => None,
                    };
                    match hit {
                        Some(v) => {
                            assert(has_key(before, state@.params));
                            let out = v.clone();
                            let result = Ok(v);
                            self.store(&state.fill, &result);
                            return Action::Respond(Ok(out));
                        },
                        None => {
                            state.fill = Some(copy_params(&state.request.params));
                            state.pos = state.pos + 1;
                        },
                    }
                },
            }
        }
    }

    /// Goes on after the injection stage where `state` stands has had its
    /// identifier resolved (`Err` holds why the query failed).
    pub fn resume(&mut self, state: &mut CallState, resolved: Result<String, String>) -> (a: Action)
        requires
            old(self).wf(),
            old(state).pos < old(self).stages@.len(),
            old(self).stages@[old(state).pos as int] is InjectBlockHash
                || old(self).stages@[old(state).pos as int] is InjectBlockNumber,
        ensures
            final(self).wf(),
            final(self).stages@ == old(self).stages@,
            final(self).cache_cap() == old(self).cache_cap(),
            final(state).pos <= final(self).stages@.len(),
            resumed(old(self).stages@, old(self).cache_cap(), old(self).cache_view(), old(state)@, resolved) == (
                final(self).cache_view(),
                final(state)@,
                a@,
            ),
    {
        match resolved {
            Err(e) => Action::Respond(Err(RpcError::ResolutionFailure(e))),
            Ok(v) => {
                let index = match self.stages[state.pos] {
                    Stage::InjectBlockHash(i) => i,
                    Stage::InjectBlockNumber(i) => i,
                    _ => 0,
                };
                let params = copy_params(&state.request.params);
                state.request.params = inject_param(params, index, v);
                let n = self.stages.len();
                assert(state.pos < n);
                state.pos = state.pos + 1;
                self.advance(state)
            },
        }
    }

    /// Finishes the invocation at the forwarding stage where `state` stands
    /// with the upstream's `reply`, which is returned as it came; a success
    /// is stored under the key of the cache stage passed on the way.
    pub fn complete(&mut self, state: &CallState, reply: Result<String, RpcError>) -> (r: Result<String, RpcError>)
        requires
            old(self).wf(),
            state.pos < old(self).stages@.len(),
            old(self).stages@[state.pos as int] == Stage::Forward,
            state.fill is Some ==> has_cache(old(self).stages@),
        ensures
            final(self).wf(),
            final(self).stages@ == old(self).stages@,
            final(self).cache_cap() == old(self).cache_cap(),
            r == reply,
            final(self).cache_view() == finish(old(self).cache_view(), old(self).cache_cap(), state@.fill, reply),
    {
        assert(has_forward(self.stages@));
        self.store(&state.fill, &reply);
        reply
    }
}

} // verus!
