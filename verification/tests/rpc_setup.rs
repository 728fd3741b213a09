use jsonrpsee::RpcModule;
use redefi_eth::ethereum::{
    create_eth, eth_rpc_plan, EthRpcApi, EthRpcSettings, EXECUTE_GAS_LIMIT_MULTIPLIER,
    MAX_STORED_FILTERS,
};

fn module(names: &[&'static str]) -> RpcModule<()> {
    let mut m = RpcModule::new(());
    for name in names {
        m.register_method(name, |_, _, _| 1u64).unwrap();
    }
    m
}

fn names_of(m: &RpcModule<()>) -> Vec<&'static str> {
    let mut v: Vec<&'static str> = m.method_names().collect();
    v.sort();
    v
}

fn settings(dev: bool, pool: bool) -> EthRpcSettings {
    EthRpcSettings {
        enable_dev_signer: dev,
        is_authority: true,
        has_filter_pool: pool,
        max_past_logs: 10_000,
        fee_history_limit: 2048,
    }
}

#[test]
fn merging_nothing_keeps_the_extension() {
    let mut io = module(&["system_health"]);
    assert!(create_eth(&mut io, Vec::new()).is_ok());
    assert_eq!(names_of(&io), vec!["system_health"]);
}

#[test]
fn merging_distinct_modules_serves_every_method() {
    let mut io = module(&["system_health"]);
    let mods = vec![module(&["eth_chainId", "eth_call"]), module(&["net_version"]), module(&["web3_clientVersion"])];
    assert!(create_eth(&mut io, mods).is_ok());
    assert_eq!(
        names_of(&io),
        vec!["eth_call", "eth_chainId", "net_version", "system_health", "web3_clientVersion"]
    );
}

#[test]
fn a_clash_stops_the_merge_at_that_module() {
    let mut io = module(&["system_health"]);
    let mods = vec![module(&["eth_chainId"]), module(&["net_version"]), module(&["eth_chainId", "eth_new"]), module(&["web3_sha3"])];
    let err = create_eth(&mut io, mods).unwrap_err();
    assert_eq!(err.module, 2);
    assert_eq!(err.method, "eth_chainId");
    assert_eq!(names_of(&io), vec!["eth_chainId", "net_version", "system_health"]);
}

#[test]
fn a_clash_with_the_extension_refuses_the_first_module() {
    let mut io = module(&["net_version"]);
    let err = create_eth(&mut io, vec![module(&["net_version", "net_listening"])]).unwrap_err();
    assert_eq!(err.module, 0);
    assert_eq!(err.method, "net_version");
    assert_eq!(names_of(&io), vec!["net_version"]);
}

#[test]
fn merging_in_two_calls_is_merging_in_one() {
    let mut once = module(&["system_health"]);
    let r1 = create_eth(&mut once, vec![module(&["a"]), module(&["b"]), module(&["c"])]);
    let mut twice = module(&["system_health"]);
    let r2a = create_eth(&mut twice, vec![module(&["a"])]);
    let r2b = create_eth(&mut twice, vec![module(&["b"]), module(&["c"])]);
    assert!(r1.is_ok() && r2a.is_ok() && r2b.is_ok());
    assert_eq!(names_of(&once), names_of(&twice));
}

#[test]
fn rpc_plan_with_filter_pool_and_dev_signer() {
    let plan = eth_rpc_plan(&settings(true, true));
    assert_eq!(
        plan,
        vec![
            EthRpcApi::Eth {
                dev_signer: true,
                is_authority: true,
                fee_history_limit: 2048,
                execute_gas_limit_multiplier: 10,
                converts_transactions: false,
                forces_parent_hashes: false,
                has_pending_consensus_data: false,
            },
            EthRpcApi::EthFilter { max_stored_filters: 500, max_past_logs: 10_000 },
            EthRpcApi::Net { peer_count_as_hex: true },
            EthRpcApi::Web3,
            EthRpcApi::EthPubSub,
        ]
    );
    assert_eq!(EXECUTE_GAS_LIMIT_MULTIPLIER, 10);
    assert_eq!(MAX_STORED_FILTERS, 500);
}

#[test]
fn rpc_plan_without_filter_pool_or_dev_signer() {
    let plan = eth_rpc_plan(&settings(false, false));
    assert_eq!(plan.len(), 4);
    assert!(matches!(plan[0], EthRpcApi::Eth { dev_signer: false, .. }));
    assert!(!plan.iter().any(|a| matches!(a, EthRpcApi::EthFilter { .. })));
    assert_eq!(plan[1], EthRpcApi::Net { peer_count_as_hex: true });
    assert_eq!(plan[2], EthRpcApi::Web3);
    assert_eq!(plan[3], EthRpcApi::EthPubSub);
}
