//! The gateway built from a configuration: one chain per method and per
//! subscription, the name and alias table, and the introspection list.

use vstd::prelude::*;
use crate::cache::key_of;
use crate::chain::CallChain;
use crate::error::RpcError;
use crate::registry::{RpcConfig, method_stages, method_names, alias_names, registered_names,
    external_names, distinct, valid_config, build_chain, rpc_methods, validate};
use crate::subscription::{SubscriptionChain, SubscriptionStage};

verus! {

/// Whether `name` reaches method `i`, directly or through an alias.
pub open spec fn resolves_to(methods: Seq<Seq<char>>, aliases: Seq<(Seq<char>, Seq<char>)>, name: Seq<char>, i: int) -> bool {
    &&& 0 <= i < methods.len()
    &&& (methods[i] == name || exists|k: int|
        0 <= k < aliases.len() && #[trigger] aliases[k].1 == name && aliases[k].0 == methods[i])
}

pub open spec fn alias_pairs(aliases: Seq<(String, String)>) -> Seq<(Seq<char>, Seq<char>)> {
    Seq::new(aliases.len(), |k: int| (aliases[k].0@, aliases[k].1@))
}

/// The method names and the aliases, `(existing name, new name)`.
pub struct MethodTable {
    pub methods: Vec<String>,
    pub aliases: Vec<(String, String)>,
}

impl MethodTable {
    pub open spec fn names(&self) -> Seq<Seq<char>> {
        key_of(self.methods@)
    }

    pub open spec fn pairs(&self) -> Seq<(Seq<char>, Seq<char>)> {
        alias_pairs(self.aliases@)
    }

    /// Method and alias names are each registered once.
    pub open spec fn wf(&self) -> bool {
        distinct(self.names() + Seq::new(self.aliases@.len(), |k: int| self.aliases@[k].1@))
    }

    /// The index of the method that `name` reaches, if any.
    pub fn resolve(&self, name: &String) -> (r: Option<usize>)
        requires
            self.wf(),
        ensures
            match r {
                Some(i) => resolves_to(self.names(), self.pairs(), name@, i as int),
                None => forall|i: int| !resolves_to(self.names(), self.pairs(), name@, i),
            },
    {
        let mut i: usize = 0;
        while i < self.methods.len()
            invariant
                i <= self.methods@.len(),
                forall|j: int| 0 <= j < i ==> self.methods@[j]@ != name@,
            decreases self.methods@.len() - i,
        {
            if self.methods[i] == *name {
                return Some(i);
            }
            i = i + 1;
        }
        let mut k: usize = 0;
        while k < self.aliases.len()
            invariant
                k <= self.aliases@.len(),
                self.wf(),
                forall|j: int| 0 <= j < k ==> self.aliases@[j].1@ != name@,
                forall|j: int| 0 <= j < self.methods@.len() ==> self.methods@[j]@ != name@,
            decreases self.aliases@.len() - k,
        {
            if self.aliases[k].1 == *name {
                let mut i: usize = 0;
                while i < self.methods.len()
                    invariant
                        i <= self.methods@.len(),
                        self.wf(),
                        k < self.aliases@.len(),
                        self.aliases@[k as int].1@ == name@,
                        forall|j: int| 0 <= j < self.methods@.len() ==> self.methods@[j]@ != name@,
                        forall|j: int| 0 <= j < i ==> self.methods@[j]@ != self.aliases@[k as int].0@,
                    decreases self.methods@.len() - i,
                {
                    if self.methods[i] == self.aliases[k].0 {
                        assert(self.pairs()[k as int].1 == name@);
                        return Some(i);
                    }
                    i = i + 1;
                }
                assert forall|i: int| !resolves_to(self.names(), self.pairs(), name@, i) by {
                    if resolves_to(self.names(), self.pairs(), name@, i) {
                        assert(self.names()[i] == self.methods@[i]@);
                        let k2 = choose|k2: int|
                            0 <= k2 < self.pairs().len() && #[trigger] self.pairs()[k2].1 == name@
                                && self.pairs()[k2].0 == self.names()[i];
                        let n = self.methods@.len() as int;
                        let all = self.names() + Seq::new(self.aliases@.len(), |k: int| self.aliases@[k].1@);
                        assert(all.len() == n + self.aliases@.len());
                        if k2 != k {
                            assert(all[n + k2] == all[n + k]);
                        } else {
                            assert(self.names()[i] == self.methods@[i]@);
                            assert(self.pairs()[k as int].0 == self.aliases@[k as int].0@);
                        }
                    }
                }
                return None;
            }
            k = k + 1;
        }
        assert forall|i: int| !resolves_to(self.names(), self.pairs(), name@, i) by {
            if resolves_to(self.names(), self.pairs(), name@, i) {
                let k2 = choose|k2: int|
                    0 <= k2 < self.pairs().len() && #[trigger] self.pairs()[k2].1 == name@
                        && self.pairs()[k2].0 == self.names()[i];
                assert(self.aliases@[k2].1@ == name@);
            }
        }
        None
    }
}

/// Through an alias of a method, a name reaches exactly the chain that the
/// method's own name reaches.
pub proof fn lemma_alias_reaches_canonical(table: MethodTable, k: int)
    requires
        table.wf(),
        0 <= k < table.aliases@.len(),
        table.names().contains(table.aliases@[k].0@),
    ensures
        forall|i: int|
            resolves_to(table.names(), table.pairs(), table.aliases@[k].1@, i) <==> resolves_to(
                table.names(),
                table.pairs(),
                table.aliases@[k].0@,
                i,
            ),
{
    let names = table.names();
    let pairs = table.pairs();
    let n = names.len() as int;
    let all = names + Seq::new(table.aliases@.len(), |k: int| table.aliases@[k].1@);
    let old_name = table.aliases@[k].0@;
    let new_name = table.aliases@[k].1@;
    let m = choose|m: int| 0 <= m < names.len() && names[m] == old_name;
    assert(pairs[k].1 == new_name && pairs[k].0 == old_name);
    assert forall|i: int| resolves_to(names, pairs, new_name, i) <==> resolves_to(names, pairs, old_name, i) by {
        if resolves_to(names, pairs, new_name, i) {
            if names[i] == new_name {
                assert(all[i] == all[n + k]);
            } else {
                let k2 = choose|k2: int| 0 <= k2 < pairs.len() && #[trigger] pairs[k2].1 == new_name && pairs[k2].0 == names[i];
                if k2 != k {
                    assert(all[n + k2] == all[n + k]);
                }
            }
        }
        if resolves_to(names, pairs, old_name, i) {
            if names[i] != old_name {
                let k2 = choose|k2: int| 0 <= k2 < pairs.len() && #[trigger] pairs[k2].1 == old_name && pairs[k2].0 == names[i];
                assert(all[m] == all[n + k2]);
            }
        }
    }
}

/// Everything served, built from one configuration.
pub struct Gateway {
    pub table: MethodTable,
    /// The chain of each configured method, in configuration order.
    pub chains: Vec<CallChain>,
    /// The chain of each configured subscription, in configuration order.
    pub subscriptions: Vec<SubscriptionChain>,
    /// What the introspection method returns.
    pub rpc_methods: Vec<String>,
}

impl Gateway {
    /// The gateway of `config`, or `BadConfiguration` exactly where the
    /// configuration is not valid.
    pub fn new(config: &RpcConfig) -> (r: Result<Gateway, RpcError>)
        ensures
            r is Ok <==> valid_config(*config),
            r is Err ==> r == Err::<Gateway, RpcError>(RpcError::BadConfiguration),
            r is Ok ==> ({
                let g = r->Ok_0;
                &&& g.table.wf()
                &&& g.table.names() == method_names(*config)
                &&& g.table.pairs() == alias_pairs(config.aliases@)
                &&& key_of(g.rpc_methods@) == external_names(*config)
                &&& g.chains@.len() == config.methods@.len()
                &&& forall|i: int| 0 <= i < g.chains@.len() ==> {
                    &&& (#[trigger] g.chains@[i]).wf()
                    &&& g.chains@[i].stages@ == method_stages(config.methods@[i])
                    &&& g.chains@[i].cache_view().len() == 0
                    &&& g.chains@[i].cache_cap() == config.methods@[i].cache
                }
                &&& g.subscriptions@.len() == config.subscriptions@.len()
                &&& forall|i: int| 0 <= i < g.subscriptions@.len() ==>
                    (#[trigger] g.subscriptions@[i]).stages@ == seq![SubscriptionStage::Forward]
            }),
    {
        match validate(config) {
            Err(e) => {
                return Err(e);
            },
            Ok(()) => {},
        }
        let names = rpc_methods(config);
        let mut methods: Vec<String> = Vec::new();
        let mut chains: Vec<CallChain> = Vec::new();
        let mut i: usize = 0;
        while i < config.methods.len()
            invariant
                i <= config.methods@.len(),
                methods@.len() == i,
                chains@.len() == i,
                forall|j: int| 0 <= j < i ==> methods@[j]@ == config.methods@[j].method@,
                forall|j: int| 0 <= j < i ==> {
                    &&& (#[trigger] chains@[j]).wf()
                    &&& chains@[j].stages@ == method_stages(config.methods@[j])
                    &&& chains@[j].cache_view().len() == 0
                    &&& chains@[j].cache_cap() == config.methods@[j].cache
                },
            decreases config.methods@.len() - i,
        {
            methods.push(config.methods[i].method.clone());
            chains.push(build_chain(&config.methods[i]));
            i = i + 1;
        }
        let mut aliases: Vec<(String, String)> = Vec::new();
        let mut k: usize = 0;
        while k < config.aliases.len()
            invariant
                k <= config.aliases@.len(),
                aliases@.len() == k,
                forall|j: int| 0 <= j < k ==> aliases@[j].0@ == config.aliases@[j].0@ && aliases@[j].1@ == config.aliases@[j].1@,
            decreases config.aliases@.len() - k,
        {
            aliases.push((config.aliases[k].0.clone(), config.aliases[k].1.clone()));
            k = k + 1;
        }
        let mut subscriptions: Vec<SubscriptionChain> = Vec::new();
        let mut s: usize = 0;
        while s < config.subscriptions.len()
            invariant
                s <= config.subscriptions@.len(),
                subscriptions@.len() == s,
                forall|j: int| 0 <= j < s ==> (#[trigger] subscriptions@[j]).stages@ == seq![SubscriptionStage::Forward],
            decreases config.subscriptions@.len() - s,
        {
            subscriptions.push(SubscriptionChain::forwarding());
            s = s + 1;
        }
        let table = MethodTable { methods, aliases };
        assert(table.names() =~= method_names(*config));
        assert(table.pairs() =~= alias_pairs(config.aliases@));
        proof {
            let all = table.names() + Seq::new(table.aliases@.len(), |k: int| table.aliases@[k].1@);
            let ext = external_names(*config);
            let r = registered_names(*config).len() as int;
            let m = table.names().len() as int;
            assert forall|a: int, b: int| 0 <= a < b < all.len() implies all[a] != all[b] by {
                let ia = if a < m { a } else { r + a - m };
                let ib = if b < m { b } else { r + b - m };
                assert(all[a] == ext[ia] && all[b] == ext[ib]);
            }
        }
        Ok(Gateway { table, chains, subscriptions, rpc_methods: names })
    }
}

} // verus!
