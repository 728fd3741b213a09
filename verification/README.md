# redefi_eth

The Ethereum (Frontier) layer of the ReDeFi relay node, split in two.

`src/` is a Verus library that holds the decisions, with their contracts and laws:

- `eth_service`: which background tasks the node spawns and with what parameters
  (`frontier_task_plan`), and which storage reader answers each storage schema
  (`overrides_handle`, `OverrideHandle::override_for`).
- `ethereum`: which Ethereum RPC APIs the node serves (`eth_rpc_plan`) and how their
  modules are merged into the node's RPC extension (`create_eth`), with the laws of
  merging.
- `rpc_module`: the trusted boundary to `jsonrpsee::RpcModule` (its method names and
  `merge`).
- `service`: where the Frontier database lives (`frontier_database_settings`).

`app/` carries the decisions out against Substrate and Frontier: it spawns the tasks,
builds the RPC modules and opens the database.
