use rpc_gateway::cache::{same_params, LruCache};
use rpc_gateway::chain::{Action, CallChain, CallRequest, CallState, Stage};
use rpc_gateway::error::RpcError;
use rpc_gateway::gateway::{Gateway, MethodTable};
use rpc_gateway::inject::inject_param;
use rpc_gateway::registry::{
    build_chain, rpc_methods, string_to_static_str, validate, MethodConfig, RpcConfig,
    SubscriptionConfig,
};
use rpc_gateway::subscription::{
    relay_step, RelayAction, RelayEvent, RelayState, SubscriptionChain, SubscriptionRequest,
};

fn strings(items: &[&str]) -> Vec<String> {
    items.iter().map(|s| s.to_string()).collect()
}

fn method(name: &str, hash: Option<usize>, number: Option<usize>, cache: usize) -> MethodConfig {
    MethodConfig {
        method: name.to_string(),
        with_block_hash: hash,
        with_block_number: number,
        cache,
    }
}

fn subscription(name: &str, subscribe: &str, unsubscribe: &str) -> SubscriptionConfig {
    SubscriptionConfig {
        name: name.to_string(),
        subscribe: subscribe.to_string(),
        unsubscribe: unsubscribe.to_string(),
    }
}

/// Runs one invocation, answering chain-state queries with `hash` and
/// `number` and upstream calls with `upstream`, which records each request.
fn invoke(
    chain: &mut CallChain,
    name: &str,
    params: Vec<String>,
    hash: Result<String, String>,
    number: Result<String, String>,
    seen: &mut Vec<Vec<String>>,
    upstream: &dyn Fn(&CallRequest) -> Result<String, RpcError>,
) -> Result<String, RpcError> {
    let mut state = CallState::new(CallRequest::new(name.to_string(), params));
    let mut action = chain.advance(&mut state);
    loop {
        match action {
            Action::ResolveBlockHash => action = chain.resume(&mut state, hash.clone()),
            Action::ResolveBlockNumber => action = chain.resume(&mut state, number.clone()),
            Action::CallUpstream(request) => {
                seen.push(request.params.clone());
                let reply = upstream(&request);
                return chain.complete(&state, reply);
            }
            Action::Respond(r) => return r,
        }
    }
}

fn echo(request: &CallRequest) -> Result<String, RpcError> {
    Ok(format!("{}({})", request.method, request.params.join(",")))
}

fn failing(_: &CallRequest) -> Result<String, RpcError> {
    Err(RpcError::UpstreamFailure("node down".to_string()))
}

fn no_hash() -> Result<String, String> {
    Err("no hash".to_string())
}

fn no_number() -> Result<String, String> {
    Err("no number".to_string())
}

#[test]
fn repeated_call_is_served_from_cache() {
    let mut chain = build_chain(&method("state_getStorage", None, None, 4));
    let mut seen = Vec::new();
    let first = invoke(&mut chain, "state_getStorage", strings(&["\"0x01\""]), no_hash(), no_number(), &mut seen, &echo);
    let second = invoke(&mut chain, "state_getStorage", strings(&["\"0x01\""]), no_hash(), no_number(), &mut seen, &echo);
    assert_eq!(seen.len(), 1);
    assert_eq!(first, Ok("state_getStorage(\"0x01\")".to_string()));
    assert_eq!(first, second);
}

#[test]
fn balance_scenario_calls_upstream_once_per_account() {
    let mut chain = build_chain(&method("getBalance", None, None, 2));
    let mut seen = Vec::new();
    for account in ["\"alice\"", "\"bob\"", "\"carol\""] {
        let a = invoke(&mut chain, "getBalance", strings(&[account]), no_hash(), no_number(), &mut seen, &echo);
        let b = invoke(&mut chain, "getBalance", strings(&[account]), no_hash(), no_number(), &mut seen, &echo);
        assert_eq!(a, b);
        assert_eq!(a, Ok(format!("getBalance({})", account)));
    }
    assert_eq!(seen.len(), 3);
}

#[test]
fn lru_evicts_least_recently_used() {
    let mut cache = LruCache::new(2);
    cache.put(strings(&["1"]), "one".to_string());
    cache.put(strings(&["2"]), "two".to_string());
    // Touch key 1 so that key 2 is now the least recently used.
    assert_eq!(cache.get(&strings(&["1"])), Some("one".to_string()));
    cache.put(strings(&["3"]), "three".to_string());
    assert_eq!(cache.len(), 2);
    assert_eq!(cache.get(&strings(&["2"])), None);
    assert_eq!(cache.get(&strings(&["1"])), Some("one".to_string()));
    assert_eq!(cache.get(&strings(&["3"])), Some("three".to_string()));
}

#[test]
fn lru_overflow_by_one_evicts_first_inserted() {
    let mut cache = LruCache::new(3);
    for k in ["a", "b", "c", "d"] {
        cache.put(strings(&[k]), k.to_uppercase());
    }
    assert_eq!(cache.capacity(), 3);
    assert_eq!(cache.len(), 3);
    assert_eq!(cache.get(&strings(&["a"])), None);
    for k in ["b", "c", "d"] {
        assert_eq!(cache.get(&strings(&[k])), Some(k.to_uppercase()));
    }
}

#[test]
fn lru_put_replaces_existing_key() {
    let mut cache = LruCache::new(2);
    cache.put(strings(&["k"]), "old".to_string());
    cache.put(strings(&["k"]), "new".to_string());
    assert_eq!(cache.len(), 1);
    assert_eq!(cache.get(&strings(&["k"])), Some("new".to_string()));
}

#[test]
fn failed_upstream_call_is_not_cached() {
    let mut chain = build_chain(&method("system_health", None, None, 2));
    let mut seen = Vec::new();
    let first = invoke(&mut chain, "system_health", vec![], no_hash(), no_number(), &mut seen, &failing);
    assert_eq!(first, Err(RpcError::UpstreamFailure("node down".to_string())));
    let second = invoke(&mut chain, "system_health", vec![], no_hash(), no_number(), &mut seen, &echo);
    assert_eq!(seen.len(), 2);
    assert_eq!(second, Ok("system_health()".to_string()));
}

#[test]
fn block_hash_is_injected_at_index() {
    let mut chain = build_chain(&method("state_call", Some(2), None, 0));
    let mut seen = Vec::new();
    let r = invoke(&mut chain, "state_call", strings(&["\"a\""]), Ok("\"0xhead\"".to_string()), no_number(), &mut seen, &echo);
    assert_eq!(seen, vec![strings(&["\"a\"", "null", "\"0xhead\""])]);
    assert_eq!(r, Ok("state_call(\"a\",null,\"0xhead\")".to_string()));
}

#[test]
fn injection_keeps_trailing_parameters_in_order() {
    let mut chain = build_chain(&method("state_call", Some(1), None, 0));
    let mut seen = Vec::new();
    invoke(&mut chain, "state_call", strings(&["\"a\"", "\"b\"", "\"c\""]), Ok("\"0xh\"".to_string()), no_number(), &mut seen, &echo).unwrap();
    assert_eq!(seen, vec![strings(&["\"a\"", "\"0xh\"", "\"b\"", "\"c\""])]);
}

#[test]
fn hash_and_number_injected_in_order() {
    let mut chain = build_chain(&method("chain_getBlock", Some(0), Some(1), 0));
    let mut seen = Vec::new();
    invoke(&mut chain, "chain_getBlock", vec![], Ok("\"0xh\"".to_string()), Ok("42".to_string()), &mut seen, &echo).unwrap();
    assert_eq!(seen, vec![strings(&["\"0xh\"", "42"])]);
}

#[test]
fn inject_param_pads_with_null() {
    assert_eq!(inject_param(vec![], 2, "7".to_string()), strings(&["null", "null", "7"]));
    assert_eq!(inject_param(strings(&["1", "2"]), 0, "0".to_string()), strings(&["0", "1", "2"]));
}

#[test]
fn cache_key_includes_injected_value() {
    let mut chain = build_chain(&method("state_getRuntimeVersion", Some(0), None, 4));
    let mut seen = Vec::new();
    invoke(&mut chain, "state_getRuntimeVersion", vec![], Ok("\"0x1\"".to_string()), no_number(), &mut seen, &echo).unwrap();
    invoke(&mut chain, "state_getRuntimeVersion", vec![], Ok("\"0x1\"".to_string()), no_number(), &mut seen, &echo).unwrap();
    invoke(&mut chain, "state_getRuntimeVersion", vec![], Ok("\"0x2\"".to_string()), no_number(), &mut seen, &echo).unwrap();
    assert_eq!(seen.len(), 2);
}

#[test]
fn failed_resolution_fails_the_request() {
    let mut chain = build_chain(&method("state_call", Some(0), None, 2));
    let mut seen = Vec::new();
    let r = invoke(&mut chain, "state_call", vec![], no_hash(), no_number(), &mut seen, &echo);
    assert_eq!(r, Err(RpcError::ResolutionFailure("no hash".to_string())));
    assert!(seen.is_empty());
}

#[test]
fn chain_without_forwarding_fails_with_bad_configuration() {
    let mut seen = Vec::new();
    for stages in [vec![], vec![Stage::Cache], vec![Stage::InjectBlockNumber(0), Stage::Cache]] {
        let mut chain = CallChain::new(stages, 3).unwrap();
        for _ in 0..2 {
            let r = invoke(&mut chain, "m", strings(&["1"]), Ok("\"h\"".to_string()), Ok("5".to_string()), &mut seen, &echo);
            assert_eq!(r, Err(RpcError::BadConfiguration));
        }
    }
    assert!(seen.is_empty());
    assert_eq!(RpcError::BadConfiguration.message(), "Bad configuration");
}

#[test]
fn chain_new_rejects_bad_cache_stages() {
    assert_eq!(CallChain::new(vec![Stage::Cache, Stage::Forward], 0).err(), Some(RpcError::BadConfiguration));
    assert_eq!(CallChain::new(vec![Stage::Cache, Stage::Cache, Stage::Forward], 2).err(), Some(RpcError::BadConfiguration));
    assert!(CallChain::new(vec![Stage::Forward], 0).is_ok());
}

#[test]
fn subscription_relays_in_order_until_unsubscribe() {
    let chain = SubscriptionChain::forwarding();
    let request = SubscriptionRequest {
        subscribe: "newHeads".to_string(),
        unsubscribe: "unsubscribeHeads".to_string(),
        params: vec![],
    };
    let opened = chain.open(&request).unwrap();
    assert_eq!(opened.subscribe, "newHeads");
    assert_eq!(opened.unsubscribe, "unsubscribeHeads");
    let mut state = RelayState::Requested;
    let mut pushed = Vec::new();
    let events = vec![
        RelayEvent::Opened,
        RelayEvent::Item("H1".to_string()),
        RelayEvent::Item("H2".to_string()),
        RelayEvent::Item("H3".to_string()),
        RelayEvent::SinkClosed,
        RelayEvent::Item("H4".to_string()),
    ];
    let mut actions = Vec::new();
    for event in events {
        let (next, action) = relay_step(state, event);
        state = next;
        if let RelayAction::Push(v) = &action {
            pushed.push(v.clone());
        }
        actions.push(action);
    }
    assert_eq!(pushed, strings(&["H1", "H2", "H3"]));
    assert_eq!(actions[0], RelayAction::Accept);
    assert_eq!(actions[4], RelayAction::CancelUpstream);
    assert_eq!(actions[5], RelayAction::Ignore);
    assert_eq!(state, RelayState::Closed);
}

#[test]
fn subscription_upstream_failure_and_end() {
    let (s, a) = relay_step(RelayState::Streaming, RelayEvent::UpstreamFailed("gone".to_string()));
    assert_eq!((s, a), (RelayState::Failed, RelayAction::FailSink("gone".to_string())));
    let (s, a) = relay_step(RelayState::Streaming, RelayEvent::UpstreamEnded);
    assert_eq!((s, a), (RelayState::Closed, RelayAction::CloseSink));
    let (s, a) = relay_step(RelayState::Requested, RelayEvent::OpenFailed(RpcError::UpstreamFailure("no".to_string())));
    assert_eq!((s, a), (RelayState::Failed, RelayAction::Reject(RpcError::UpstreamFailure("no".to_string()))));
    let (s, a) = relay_step(RelayState::Failed, RelayEvent::Item("x".to_string()));
    assert_eq!((s, a), (RelayState::Failed, RelayAction::Ignore));
}

#[test]
fn subscription_chain_without_forwarding_fails() {
    let chain = SubscriptionChain { stages: vec![] };
    let request = SubscriptionRequest {
        subscribe: "s".to_string(),
        unsubscribe: "u".to_string(),
        params: vec![],
    };
    assert_eq!(chain.open(&request).err(), Some(RpcError::BadConfiguration));
}

fn sample_config() -> RpcConfig {
    RpcConfig {
        methods: vec![
            method("chain_getHeader", None, None, 0),
            method("getBalance", None, None, 2),
        ],
        subscriptions: vec![subscription("heads", "newHeads", "unsubscribeHeads")],
        aliases: vec![("chain_getHeader".to_string(), "eth_blockNumber".to_string())],
    }
}

#[test]
fn alias_reaches_the_canonical_chain() {
    let config = sample_config();
    let mut gateway = Gateway::new(&config).unwrap();
    let canonical = gateway.table.resolve(&"chain_getHeader".to_string());
    let alias = gateway.table.resolve(&"eth_blockNumber".to_string());
    assert_eq!(canonical, Some(0));
    assert_eq!(alias, canonical);
    assert_eq!(gateway.table.resolve(&"missing".to_string()), None);
    let mut seen = Vec::new();
    let params = strings(&["1"]);
    let a = invoke(&mut gateway.chains[alias.unwrap()], "chain_getHeader", params.clone(), no_hash(), no_number(), &mut seen, &echo);
    let b = invoke(&mut gateway.chains[canonical.unwrap()], "chain_getHeader", params, no_hash(), no_number(), &mut seen, &echo);
    assert_eq!(a, b);
    assert_eq!(gateway.subscriptions.len(), 1);
}

#[test]
fn method_table_resolve_direct_and_alias() {
    let table = MethodTable {
        methods: strings(&["a", "b"]),
        aliases: vec![("b".to_string(), "c".to_string())],
    };
    assert_eq!(table.resolve(&"b".to_string()), Some(1));
    assert_eq!(table.resolve(&"c".to_string()), Some(1));
    assert_eq!(table.resolve(&"d".to_string()), None);
}

#[test]
fn rpc_methods_lists_every_name_once() {
    let config = sample_config();
    let names = rpc_methods(&config);
    assert_eq!(names, strings(&["chain_getHeader", "getBalance", "newHeads", "unsubscribeHeads", "eth_blockNumber"]));
    let gateway = Gateway::new(&config).unwrap();
    assert_eq!(gateway.rpc_methods, names);
    for (i, a) in names.iter().enumerate() {
        for b in names.iter().skip(i + 1) {
            assert_ne!(a, b);
        }
    }
}

#[test]
fn duplicate_names_are_rejected() {
    let mut config = sample_config();
    config.methods.push(method("newHeads", None, None, 0));
    assert_eq!(validate(&config), Err(RpcError::BadConfiguration));
    assert!(Gateway::new(&config).is_err());
}

#[test]
fn alias_of_unknown_name_is_rejected() {
    let mut config = sample_config();
    config.aliases.push(("nothing".to_string(), "alias2".to_string()));
    assert_eq!(validate(&config), Err(RpcError::BadConfiguration));
}

#[test]
fn introspection_name_is_reserved() {
    let mut config = sample_config();
    config.methods.push(method("rpc_methods", None, None, 0));
    assert_eq!(validate(&config), Err(RpcError::BadConfiguration));
}

#[test]
fn overlapping_injections_are_rejected() {
    let mut config = sample_config();
    config.methods.push(method("state_call", Some(1), Some(1), 0));
    assert_eq!(validate(&config), Err(RpcError::BadConfiguration));
    config.methods.pop();
    config.methods.push(method("state_call", Some(1), Some(2), 0));
    assert_eq!(validate(&config), Ok(()));
}

#[test]
fn built_chain_has_configured_stages() {
    let chain = build_chain(&method("m", Some(1), Some(3), 5));
    assert_eq!(
        chain.stages,
        vec![Stage::InjectBlockHash(1), Stage::InjectBlockNumber(3), Stage::Cache, Stage::Forward]
    );
    assert_eq!(chain.cache.as_ref().map(|c| c.capacity()), Some(5));
    let plain = build_chain(&method("m", None, None, 0));
    assert_eq!(plain.stages, vec![Stage::Forward]);
    assert!(plain.cache.is_none());
}

#[test]
fn same_params_compares_values() {
    assert!(same_params(&strings(&["1", "2"]), &strings(&["1", "2"])));
    assert!(!same_params(&strings(&["1", "2"]), &strings(&["1"])));
    assert!(!same_params(&strings(&["1", "2"]), &strings(&["1", "3"])));
}

#[test]
fn static_name_keeps_text() {
    let s = string_to_static_str("chain_getHeader".to_string());
    assert_eq!(s, "chain_getHeader");
}
