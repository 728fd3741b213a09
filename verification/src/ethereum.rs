use vstd::prelude::*;
use crate::rpc_module::{merge_methods, rpc_method_names};
use jsonrpsee::RpcModule;
use std::marker::PhantomData;

verus! {

/// The Ethereum RPC configuration of the node, for a client `C` on a backend `BE`:
/// no gas-estimation adapter, and storage read through the override for runtimes
/// that store `AccountId32` accounts in `frame_system`. The configuration itself
/// is carried by the type alone.
pub struct DefaultEthConfig<C, BE>(pub PhantomData<(C, BE)>);

/// How many times the gas limit of a block `eth_call` and `eth_estimateGas` may
/// use, as a multiple of the block gas limit.
pub const EXECUTE_GAS_LIMIT_MULTIPLIER: u64 = 10;

/// How many filters the filter pool holds at most.
pub const MAX_STORED_FILTERS: usize = 500;

/// What the Ethereum RPC setup reads of its dependencies, beside the clients and
/// services that it hands on unchanged.
#[derive(Debug, Clone, Copy)]
pub struct EthRpcSettings {
    /// Whether to sign transactions with the development accounts.
    pub enable_dev_signer: bool,
    /// Whether the node authors blocks.
    pub is_authority: bool,
    /// Whether the node keeps a pool of filters for the filter API.
    pub has_filter_pool: bool,
    /// How many logs a single `eth_getLogs` may return.
    pub max_past_logs: u32,
    /// How many blocks of fee history are cached.
    pub fee_history_limit: u64,
}

/// An Ethereum RPC API that the node serves, with what it is built with.
#[derive(Debug, PartialEq, Eq, Structural, Clone, Copy)]
pub enum EthRpcApi {
    /// The `eth_` namespace.
    Eth {
        /// Whether the development signer is among the signers.
        dev_signer: bool,
        is_authority: bool,
        fee_history_limit: u64,
        execute_gas_limit_multiplier: u64,
        /// Whether transactions are converted for runtimes that only accept
        /// converted transactions.
        converts_transactions: bool,
        /// Whether parent hashes of some blocks are forced.
        forces_parent_hashes: bool,
        /// Whether pending blocks get consensus data from a provider.
        has_pending_consensus_data: bool,
    },
    /// The filter API (`eth_newFilter` and the like).
    EthFilter { max_stored_filters: usize, max_past_logs: u32 },
    /// The `net_` namespace.
    Net { peer_count_as_hex: bool },
    /// The `web3_` namespace.
    Web3,
    /// The `eth_subscribe` API.
    EthPubSub,
}

/// The APIs the node serves, in the order their modules are merged: `eth_`; the
/// filter API, when the node keeps a filter pool; `net_`, which reports the peer
/// count in hex; `web3_`; the subscriptions.
pub open spec fn eth_rpc_apis(settings: EthRpcSettings) -> Seq<EthRpcApi> {
    let eth = EthRpcApi::Eth {
        dev_signer: settings.enable_dev_signer,
        is_authority: settings.is_authority,
        fee_history_limit: settings.fee_history_limit,
        execute_gas_limit_multiplier: EXECUTE_GAS_LIMIT_MULTIPLIER,
        converts_transactions: false,
        forces_parent_hashes: false,
        has_pending_consensus_data: false,
    };
    let filter = if settings.has_filter_pool {
        seq![
            EthRpcApi::EthFilter {
                max_stored_filters: MAX_STORED_FILTERS,
                max_past_logs: settings.max_past_logs,
            },
        ]
    } else {
        Seq::<EthRpcApi>::empty()
    };
    seq![eth] + filter + seq![
        EthRpcApi::Net { peer_count_as_hex: true },
        EthRpcApi::Web3,
        EthRpcApi::EthPubSub,
    ]
}

/// Decides which Ethereum RPC APIs the node serves, and in which order their
/// modules go to [`create_eth`].
pub fn eth_rpc_plan(settings: &EthRpcSettings) -> (plan: Vec<EthRpcApi>)
    ensures
        plan@ == eth_rpc_apis(*settings),
        plan@.len() == (if settings.has_filter_pool { 5nat } else { 4nat }),
        plan@[0] == (EthRpcApi::Eth {
            dev_signer: settings.enable_dev_signer,
            is_authority: settings.is_authority,
            fee_history_limit: settings.fee_history_limit,
            execute_gas_limit_multiplier: 10,
            converts_transactions: false,
            forces_parent_hashes: false,
            has_pending_consensus_data: false,
        }),
        settings.has_filter_pool ==> plan@[1] == (EthRpcApi::EthFilter {
            max_stored_filters: 500,
            max_past_logs: settings.max_past_logs,
        }),
        plan@[plan@.len() - 3] == (EthRpcApi::Net { peer_count_as_hex: true }),
        plan@[plan@.len() - 2] == EthRpcApi::Web3,
        plan@[plan@.len() - 1] == EthRpcApi::EthPubSub,
{
    let mut plan: Vec<EthRpcApi> = Vec::new();
    plan.push(
        EthRpcApi::Eth {
            dev_signer: settings.enable_dev_signer,
            is_authority: settings.is_authority,
            fee_history_limit: settings.fee_history_limit,
            execute_gas_limit_multiplier: EXECUTE_GAS_LIMIT_MULTIPLIER,
            converts_transactions: false,
            forces_parent_hashes: false,
            has_pending_consensus_data: false,
        },
    );
    if settings.has_filter_pool {
        plan.push(
            EthRpcApi::EthFilter {
                max_stored_filters: MAX_STORED_FILTERS,
                max_past_logs: settings.max_past_logs,
            },
        );
    }
    plan.push(EthRpcApi::Net { peer_count_as_hex: true });
    plan.push(EthRpcApi::Web3);
    plan.push(EthRpcApi::EthPubSub);
    assert(plan@ =~= eth_rpc_apis(*settings));
    plan
}

/// A failed merge: the module at position `module` of the merge order serves a
/// method, `method`, that an earlier module (or the extension itself) already
/// serves.
pub struct RpcSetupError {
    pub module: usize,
    pub method: String,
}

/// The outcome of merging RPC modules, in order, into an extension that already
/// serves the methods `registered`: the methods served afterwards, and the
/// position of the first module that could not be merged, if any. A module can be
/// merged when none of its methods is served yet; merging stops at the first one
/// that cannot.
pub open spec fn merge_outcome(
    registered: Set<Seq<char>>,
    modules: Seq<Set<Seq<char>>>,
) -> (Set<Seq<char>>, Option<nat>)
    decreases modules.len(),
{
    if modules.len() == 0 {
        (registered, None)
    } else if !registered.disjoint(modules[0]) {
        (registered, Some(0nat))
    } else {
        shift_failure(merge_outcome(registered.union(modules[0]), modules.drop_first()), 1)
    }
}

/// `outcome` with the position of its failing module moved `by` places on.
pub open spec fn shift_failure(outcome: (Set<Seq<char>>, Option<nat>), by: nat) -> (
    Set<Seq<char>>,
    Option<nat>,
) {
    (
        outcome.0,
        match outcome.1 {
            Some(i) => Some(i + by),
            None => None,
        },
    )
}

/// The method names of each module, in order.
pub open spec fn module_method_names(modules: Seq<RpcModule<()>>) -> Seq<Set<Seq<char>>> {
    modules.map_values(|m: RpcModule<()>| rpc_method_names(m))
}

/// Merges the node's Ethereum RPC modules, built in the order of
/// [`eth_rpc_plan`], into the RPC extension `io`, one after the other, and stops
/// at the first module that serves a method `io` already serves. On success `io`
/// serves the methods it served before and those of every module; on failure it
/// serves those and the methods of the modules before the failing one, and the
/// error names the failing module and a method it shares with `io`.
pub fn create_eth(io: &mut RpcModule<()>, modules: Vec<RpcModule<()>>) -> (r: Result<
    (),
    RpcSetupError,
>)
    ensures
        rpc_method_names(*final(io)) == merge_outcome(
            rpc_method_names(*old(io)),
            module_method_names(modules@),
        ).0,
        r is Ok <==> merge_outcome(
            rpc_method_names(*old(io)),
            module_method_names(modules@),
        ).1 is None,
        r matches Err(e) ==> {
            &&& merge_outcome(rpc_method_names(*old(io)), module_method_names(modules@)).1
                == Some(e.module as nat)
            &&& e.module < modules@.len()
            &&& rpc_method_names(*final(io)).contains(e.method@)
            &&& rpc_method_names(modules@[e.module as int]).contains(e.method@)
        },
{
    let ghost base = rpc_method_names(*io);
    let ghost all = module_method_names(modules@);
    let mut rest = modules;
    let mut i: usize = 0;
    assert(rest@ =~= modules@.skip(0));
    while rest.len() > 0
        invariant
            i + rest@.len() == modules@.len(),
            modules@.len() == modules.len(),
            base == rpc_method_names(*old(io)),
            rest@ =~= modules@.skip(i as int),
            all == module_method_names(modules@),
            merge_outcome(base, all) == shift_failure(
                merge_outcome(rpc_method_names(*io), module_method_names(rest@)),
                i as nat,
            ),
        decreases rest@.len(),
    {
        let ghost cur = rpc_method_names(*io);
        let ghost names = module_method_names(rest@);
        let ghost before = rest@;
        let m = rest.remove(0);
        assert(names.drop_first() =~= module_method_names(rest@));
        assert(names[0] == rpc_method_names(m));
        match merge_methods(io, m) {
            Ok(()) => {},
            Err(method) => {
                assert(modules@[i as int] == before[0]);
                assert(!cur.disjoint(names[0]));
                assert(merge_outcome(cur, names) == (cur, Some(0nat)));
                return Err(RpcSetupError { module: i, method });
            },
        }
        i = i + 1;
        assert(rest@ =~= modules@.skip(i as int));
    }
    Ok(())
}

/// The methods served after merging, one after the other, all of `modules` into
/// an extension that serves `registered`, when none is refused.
pub open spec fn union_all(registered: Set<Seq<char>>, modules: Seq<Set<Seq<char>>>) -> Set<
    Seq<char>,
>
    decreases modules.len(),
{
    if modules.len() == 0 {
        registered
    } else {
        union_all(registered.union(modules[0]), modules.drop_first())
    }
}

/// Merging a list of modules in one call is merging its first part and then, if
/// that succeeded, its second part: the same methods end up served and the same
/// module (counted from the start of the whole list) is refused.
pub proof fn merge_in_two_steps(
    registered: Set<Seq<char>>,
    first: Seq<Set<Seq<char>>>,
    second: Seq<Set<Seq<char>>>,
)
    ensures
        merge_outcome(registered, first + second) == (if merge_outcome(registered, first).1 is None {
            shift_failure(merge_outcome(merge_outcome(registered, first).0, second), first.len())
        } else {
            merge_outcome(registered, first)
        }),
    decreases first.len(),
{
    if first.len() == 0 {
        assert(first + second =~= second);
    } else {
        let whole = first + second;
        assert(whole[0] == first[0]);
        assert(whole.drop_first() =~= first.drop_first() + second);
        if registered.disjoint(first[0]) {
            merge_in_two_steps(registered.union(first[0]), first.drop_first(), second);
        }
    }
}

/// Merging succeeds exactly when no two of the modules, and no module and the
/// extension, serve a method of the same name; then the extension serves its
/// methods and those of every module.
pub proof fn merge_succeeds_iff_names_distinct(
    registered: Set<Seq<char>>,
    modules: Seq<Set<Seq<char>>>,
)
    ensures
        merge_outcome(registered, modules).1 is None <==> {
            &&& forall|i: int| 0 <= i < modules.len() ==> registered.disjoint(#[trigger] modules[i])
            &&& forall|i: int, j: int|
                0 <= i < j < modules.len() ==> (#[trigger] modules[i]).disjoint(
                    #[trigger] modules[j],
                )
        },
        merge_outcome(registered, modules).1 is None ==> merge_outcome(registered, modules).0
            == union_all(registered, modules),
    decreases modules.len(),
{
    if modules.len() > 0 {
        let rest = modules.drop_first();
        let next = registered.union(modules[0]);
        merge_succeeds_iff_names_distinct(next, rest);
        if registered.disjoint(modules[0]) {
            if merge_outcome(registered, modules).1 is None {
                assert forall|i: int| 0 <= i < modules.len() implies registered.disjoint(
                    #[trigger] modules[i],
                ) by {
                    if i > 0 {
                        assert(rest[i - 1] == modules[i]);
                    }
                }
                assert forall|i: int, j: int| 0 <= i < j < modules.len() implies (
                #[trigger] modules[i]).disjoint(#[trigger] modules[j]) by {
                    assert(rest[j - 1] == modules[j]);
                    if i > 0 {
                        assert(rest[i - 1] == modules[i]);
                    } else {
                        assert(next.disjoint(rest[j - 1]));
                    }
                }
            } else {
                if forall|i: int| 0 <= i < modules.len() ==> registered.disjoint(#[trigger] modules[i]) {
                    if forall|i: int, j: int|
                        0 <= i < j < modules.len() ==> (#[trigger] modules[i]).disjoint(
                            #[trigger] modules[j],
                        ) {
                        assert forall|i: int| 0 <= i < rest.len() implies next.disjoint(
                            #[trigger] rest[i],
                        ) by {
                            assert(modules[i + 1] == rest[i]);
                            assert(registered.disjoint(modules[i + 1]));
                            assert(modules[0].disjoint(modules[i + 1]));
                        }
                        assert forall|i: int, j: int| 0 <= i < j < rest.len() implies (
                        #[trigger] rest[i]).disjoint(#[trigger] rest[j]) by {
                            assert(modules[i + 1] == rest[i]);
                            assert(modules[j + 1] == rest[j]);
                            assert(modules[i + 1].disjoint(modules[j + 1]));
                        }
                    }
                }
            }
        } else {
            assert(!registered.disjoint(modules[0]));
        }
    }
}

/// A refused module leaves the extension as the modules before it left it: those
/// modules all merge, and the refused one shares a method with the result.
pub proof fn refused_module_stops_merging(
    registered: Set<Seq<char>>,
    modules: Seq<Set<Seq<char>>>,
)
    requires
        merge_outcome(registered, modules).1 is Some,
    ensures
        ({
            let k = merge_outcome(registered, modules).1->0;
            &&& k < modules.len()
            &&& merge_outcome(registered, modules.take(k as int)) == (
                merge_outcome(registered, modules).0,
                None::<nat>,
            )
            &&& !merge_outcome(registered, modules).0.disjoint(modules[k as int])
        }),
    decreases modules.len(),
{
    let k = merge_outcome(registered, modules).1->0;
    if registered.disjoint(modules[0]) {
        let rest = modules.drop_first();
        let next = registered.union(modules[0]);
        refused_module_stops_merging(next, rest);
        let k1 = merge_outcome(next, rest).1->0;
        assert(k == k1 + 1);
        assert(modules.take(k as int).drop_first() =~= rest.take(k1 as int));
        assert(modules.take(k as int)[0] == modules[0]);
        assert(rest[k1 as int] == modules[k as int]);
    } else {
        assert(modules.take(0) =~= Seq::<Set<Seq<char>>>::empty());
    }
}

/// Merging never takes a method away from the extension.
pub proof fn merge_keeps_registered(registered: Set<Seq<char>>, modules: Seq<Set<Seq<char>>>)
    ensures
        registered.subset_of(merge_outcome(registered, modules).0),
    decreases modules.len(),
{
    if modules.len() > 0 && registered.disjoint(modules[0]) {
        merge_keeps_registered(registered.union(modules[0]), modules.drop_first());
    }
}

/// The node serves `eth_`, `net_`, `web3_` and the subscriptions whatever its
/// settings, the filter API exactly when it keeps a filter pool, each API once.
/// `eth_` comes first, built with the node's own settings: it signs with the
/// development accounts exactly when they are enabled, acts as an authority
/// exactly when the node is one, keeps the node's fee history limit, allows ten
/// times the block gas limit for calls, and neither converts transactions, forces
/// parent hashes nor takes pending consensus data. The filter API, when served,
/// comes second, holds at most 500 filters and the node's log limit. `net_`,
/// reporting the peer count in hex, `web3_` and the subscriptions come last.
pub proof fn eth_rpc_apis_shape(settings: EthRpcSettings)
    ensures
        ({
            let apis = eth_rpc_apis(settings);
            &&& apis.len() == (if settings.has_filter_pool { 5nat } else { 4nat })
            &&& apis[0] == EthRpcApi::Eth {
                dev_signer: settings.enable_dev_signer,
                is_authority: settings.is_authority,
                fee_history_limit: settings.fee_history_limit,
                execute_gas_limit_multiplier: 10,
                converts_transactions: false,
                forces_parent_hashes: false,
                has_pending_consensus_data: false,
            }
            &&& settings.has_filter_pool ==> apis[1] == EthRpcApi::EthFilter {
                max_stored_filters: 500,
                max_past_logs: settings.max_past_logs,
            }
            &&& apis[apis.len() - 3] == EthRpcApi::Net { peer_count_as_hex: true }
            &&& apis[apis.len() - 2] == EthRpcApi::Web3
            &&& apis[apis.len() - 1] == EthRpcApi::EthPubSub
            &&& apis.contains(EthRpcApi::Net { peer_count_as_hex: true })
            &&& apis.contains(EthRpcApi::Web3)
            &&& apis.contains(EthRpcApi::EthPubSub)
            &&& (exists|i: int| 0 <= i < apis.len() && #[trigger] apis[i] is EthFilter)
                <==> settings.has_filter_pool
            &&& forall|i: int, j: int|
                0 <= i < j < apis.len() ==> !same_api(#[trigger] apis[i], #[trigger] apis[j])
        }),
{
    let apis = eth_rpc_apis(settings);
    let n = apis.len() as int;
    assert(apis[n - 3] == EthRpcApi::Net { peer_count_as_hex: true });
    assert(apis[n - 2] == EthRpcApi::Web3);
    assert(apis[n - 1] == EthRpcApi::EthPubSub);
    if settings.has_filter_pool {
        assert(apis[1] is EthFilter);
    }
}

/// Whether two APIs are the same namespace, whatever they are built with.
pub open spec fn same_api(a: EthRpcApi, b: EthRpcApi) -> bool {
    match (a, b) {
        (EthRpcApi::Eth { .. }, EthRpcApi::Eth { .. }) => true,
        (EthRpcApi::EthFilter { .. }, EthRpcApi::EthFilter { .. }) => true,
        (EthRpcApi::Net { .. }, EthRpcApi::Net { .. }) => true,
        (EthRpcApi::Web3, EthRpcApi::Web3) => true,
        (EthRpcApi::EthPubSub, EthRpcApi::EthPubSub) => true,
        _ => false,
    }
}

} // verus!
