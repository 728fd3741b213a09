use vstd::prelude::*;
use jsonrpsee::RpcModule;

verus! {

/// `jsonrpsee::RpcModule`, the table of RPC methods that a node serves. Opaque:
/// what the library knows of a module is the set of its method names.
#[verifier::external_type_specification]
#[verifier::external_body]
#[verifier::reject_recursive_types(Context)]
pub struct ExRpcModule<Context>(RpcModule<Context>);

/// The names of the methods that an RPC module serves: the keys of its method
/// table.
pub uninterp spec fn rpc_method_names(module: RpcModule<()>) -> Set<Seq<char>>;

/// Calls `jsonrpsee::RpcModule::merge` (that of `Methods`, reached through
/// `DerefMut`). As its source shows, `merge` first checks every method name of
/// `other` against those of `io` and fails with `AlreadyRegistered(name)` on the
/// first name that `io` already serves, leaving `io` as it was; otherwise it adds
/// all of `other`'s methods to `io`. This contract says so over the method-name
/// sets, and hands back the error's name. Which of several shared names is
/// reported depends on the order of a hash map walk and is left open.
#[verifier::external_body]
pub(crate) fn merge_methods(io: &mut RpcModule<()>, other: RpcModule<()>) -> (r: Result<(), String>)
    ensures
        r is Ok <==> rpc_method_names(*old(io)).disjoint(rpc_method_names(other)),
        r is Ok ==> rpc_method_names(*final(io)) == rpc_method_names(*old(io)).union(
            rpc_method_names(other),
        ),
        r matches Err(name) ==> {
            &&& rpc_method_names(*old(io)).contains(name@)
            &&& rpc_method_names(other).contains(name@)
            &&& rpc_method_names(*final(io)) == rpc_method_names(*old(io))
        },
{
    match io.merge(other) {
        Ok(()) => Ok(()),
        Err(jsonrpsee::core::RegisterMethodError::AlreadyRegistered(name)) => Err(name),
        Err(jsonrpsee::core::RegisterMethodError::SubscriptionNameConflict(name)) => Err(name),
        Err(jsonrpsee::core::RegisterMethodError::MethodNotFound(name)) => Err(name),
    }
}

} // verus!
