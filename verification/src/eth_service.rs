use vstd::prelude::*;

verus! {

/// How long, in blocks, a filter installed through `eth_newFilter` may stay in
/// the filter pool.
pub const FILTER_RETAIN_THRESHOLD: u64 = 100;

/// How long, in seconds, the mapping-sync worker waits for a block import before
/// it looks for work on its own.
pub const MAPPING_SYNC_TIMEOUT_SECS: u64 = 6;

/// How many times the mapping-sync worker retries a block it could not map.
pub const MAPPING_SYNC_RETRY_TIMES: usize = 3;

/// The block from which the mapping-sync worker starts mapping.
pub const MAPPING_SYNC_FROM: u32 = 0;

/// How many Ethereum blocks, and how many sets of transaction statuses, the block
/// data cache holds.
pub const BLOCK_DATA_CACHE_MAX_SIZE: u64 = 50;

/// How a task is spawned: on the essential handle, whose tasks stop the node when
/// they end, or on the ordinary one.
#[derive(Debug, PartialEq, Eq, Structural, Clone, Copy)]
pub enum SpawnKind {
    Essential,
    Ordinary,
}

/// A background task of the Ethereum layer, with the parameters it is started with.
#[derive(Debug, PartialEq, Eq, Structural, Clone, Copy)]
pub enum FrontierTask {
    /// Maps Ethereum blocks and transactions to the Substrate blocks that hold them.
    MappingSyncWorker { timeout_secs: u64, retry_times: usize, sync_from: u32 },
    /// Removes filters that have outlived `retain_threshold` blocks from the pool.
    FilterPool { retain_threshold: u64 },
    /// Keeps the fee history cache up to date for `eth_feeHistory`.
    FeeHistory { fee_history_limit: u64 },
}

/// The name a task is spawned under.
pub open spec fn task_name(task: FrontierTask) -> Seq<char> {
    match task {
        FrontierTask::MappingSyncWorker { .. } => "frontier-mapping-sync-worker"@,
        FrontierTask::FilterPool { .. } => "frontier-filter-pool"@,
        FrontierTask::FeeHistory { .. } => "frontier-fee-history"@,
    }
}

/// The task group every Ethereum task is spawned in.
pub open spec fn task_group() -> Seq<char> {
    "frontier"@
}

impl FrontierTask {
    /// The name the task is spawned under.
    pub fn name(&self) -> (r: &'static str)
        ensures
            r@ == task_name(*self),
    {
        match self {
            FrontierTask::MappingSyncWorker { .. } => "frontier-mapping-sync-worker",
            FrontierTask::FilterPool { .. } => "frontier-filter-pool",
            FrontierTask::FeeHistory { .. } => "frontier-fee-history",
        }
    }

    /// How the task is spawned: every Ethereum task is essential, so the node stops
    /// when one of them ends.
    pub fn spawn_kind(&self) -> (r: SpawnKind)
        ensures
            r == SpawnKind::Essential,
    {
        SpawnKind::Essential
    }

    /// The group the task is spawned in.
    pub fn group(&self) -> (r: &'static str)
        ensures
            r@ == task_group(),
    {
        "frontier"
    }
}

/// What the node starts for its Ethereum layer: the tasks, in the order they are
/// spawned, and the block data cache served to the RPC layer: its sizes, and how
/// its worker is spawned.
pub struct FrontierTaskPlan {
    pub tasks: Vec<FrontierTask>,
    pub blocks_cache_max_size: u64,
    pub statuses_cache_max_size: u64,
    pub block_data_cache_spawn: SpawnKind,
}

/// The tasks the node spawns, in order: the mapping-sync worker; the filter pool
/// maintenance, when the node keeps a filter pool; the fee history maintenance.
pub open spec fn frontier_tasks(has_filter_pool: bool, fee_history_limit: u64) -> Seq<FrontierTask> {
    let sync = FrontierTask::MappingSyncWorker {
        timeout_secs: MAPPING_SYNC_TIMEOUT_SECS,
        retry_times: MAPPING_SYNC_RETRY_TIMES,
        sync_from: MAPPING_SYNC_FROM,
    };
    let filter = if has_filter_pool {
        seq![FrontierTask::FilterPool { retain_threshold: FILTER_RETAIN_THRESHOLD }]
    } else {
        Seq::<FrontierTask>::empty()
    };
    seq![sync] + filter + seq![FrontierTask::FeeHistory { fee_history_limit }]
}

/// Decides what `spawn_frontier_tasks` starts for a node that keeps a filter pool
/// or not and caches `fee_history_limit` blocks of fee history.
pub fn frontier_task_plan(has_filter_pool: bool, fee_history_limit: u64) -> (plan: FrontierTaskPlan)
    ensures
        plan.tasks@ == frontier_tasks(has_filter_pool, fee_history_limit),
        plan.blocks_cache_max_size == BLOCK_DATA_CACHE_MAX_SIZE,
        plan.statuses_cache_max_size == BLOCK_DATA_CACHE_MAX_SIZE,
        plan.block_data_cache_spawn == SpawnKind::Ordinary,
        plan.blocks_cache_max_size == 50,
        plan.statuses_cache_max_size == 50,
{
    let mut tasks: Vec<FrontierTask> = Vec::new();
    tasks.push(
        FrontierTask::MappingSyncWorker {
            timeout_secs: MAPPING_SYNC_TIMEOUT_SECS,
            retry_times: MAPPING_SYNC_RETRY_TIMES,
            sync_from: MAPPING_SYNC_FROM,
        },
    );
    if has_filter_pool {
        tasks.push(FrontierTask::FilterPool { retain_threshold: FILTER_RETAIN_THRESHOLD });
    }
    tasks.push(FrontierTask::FeeHistory { fee_history_limit });
    assert(tasks@ =~= frontier_tasks(has_filter_pool, fee_history_limit));
    FrontierTaskPlan {
        tasks,
        blocks_cache_max_size: BLOCK_DATA_CACHE_MAX_SIZE,
        statuses_cache_max_size: BLOCK_DATA_CACHE_MAX_SIZE,
        block_data_cache_spawn: SpawnKind::Ordinary,
    }
}

/// A storage layout in which a runtime keeps its Ethereum data (the schema
/// version that the runtime records in its storage).
#[derive(Debug, PartialEq, Eq, Structural, Clone, Copy)]
pub enum StorageSchema {
    Undefined,
    V1,
    V2,
    V3,
}

/// A way of reading a runtime's Ethereum data: straight from storage, laid out as
/// one schema version, or through runtime API calls.
#[derive(Debug, PartialEq, Eq, Structural, Clone, Copy)]
pub enum StorageOverride {
    SchemaV1,
    SchemaV2,
    SchemaV3,
    RuntimeApi,
}

/// The storage overrides of the node: a reader for each schema that has one,
/// inserted in order (a later entry for a schema replaces an earlier one), and a
/// reader for any other schema.
pub struct OverrideHandle {
    pub schemas: Vec<(StorageSchema, StorageOverride)>,
    pub fallback: StorageOverride,
}

/// The map that inserting `entries` in order into an empty map gives.
pub open spec fn entries_map(entries: Seq<(StorageSchema, StorageOverride)>) -> Map<
    StorageSchema,
    StorageOverride,
>
    decreases entries.len(),
{
    if entries.len() == 0 {
        Map::empty()
    } else {
        entries_map(entries.drop_last()).insert(entries.last().0, entries.last().1)
    }
}

impl OverrideHandle {
    /// The readers by schema.
    pub open spec fn schema_map(&self) -> Map<StorageSchema, StorageOverride> {
        entries_map(self.schemas@)
    }

    /// The reader for data stored under `schema`.
    pub open spec fn reader_for(&self, schema: StorageSchema) -> StorageOverride {
        if self.schema_map().dom().contains(schema) {
            self.schema_map()[schema]
        } else {
            self.fallback
        }
    }

    /// The reader for data stored under `schema`: the one registered for it, or the
    /// fallback.
    pub fn override_for(&self, schema: StorageSchema) -> (r: StorageOverride)
        ensures
            r == self.reader_for(schema),
            (forall|i: int| 0 <= i < self.schemas@.len() ==> (#[trigger] self.schemas@[i]).0 != schema)
                ==> r == self.fallback,
            forall|i: int|
                0 <= i < self.schemas@.len() && (#[trigger] self.schemas@[i]).0 == schema && (
                forall|j: int| i < j < self.schemas@.len() ==> self.schemas@[j].0 != schema)
                    ==> r == self.schemas@[i].1,
    {
        proof {
            reader_for_by_entries(*self, schema);
        }
        let mut found = self.fallback;
        let mut i: usize = 0;
        while i < self.schemas.len()
            invariant
                i <= self.schemas@.len(),
                found == (if entries_map(self.schemas@.take(i as int)).dom().contains(schema) {
                    entries_map(self.schemas@.take(i as int))[schema]
                } else {
                    self.fallback
                }),
            decreases self.schemas@.len() - i,
        {
            let (key, reader) = self.schemas[i];
            if key == schema {
                found = reader;
            }
            assert(self.schemas@.take(i + 1).drop_last() =~= self.schemas@.take(i as int));
            i = i + 1;
        }
        assert(self.schemas@.take(i as int) =~= self.schemas@);
        found
    }
}

/// The node's storage overrides: schemas V1, V2 and V3 each read by their own
/// storage reader, anything else through the runtime API.
pub open spec fn node_overrides() -> Map<StorageSchema, StorageOverride> {
    map![
        StorageSchema::V1 => StorageOverride::SchemaV1,
        StorageSchema::V2 => StorageOverride::SchemaV2,
        StorageSchema::V3 => StorageOverride::SchemaV3,
    ]
}

/// Builds the node's storage overrides.
pub fn overrides_handle() -> (handle: OverrideHandle)
    ensures
        handle.schema_map() == node_overrides(),
        handle.fallback == StorageOverride::RuntimeApi,
        handle.schemas@ == seq![
            (StorageSchema::V1, StorageOverride::SchemaV1),
            (StorageSchema::V2, StorageOverride::SchemaV2),
            (StorageSchema::V3, StorageOverride::SchemaV3),
        ],
{
    let mut schemas: Vec<(StorageSchema, StorageOverride)> = Vec::new();
    schemas.push((StorageSchema::V1, StorageOverride::SchemaV1));
    schemas.push((StorageSchema::V2, StorageOverride::SchemaV2));
    schemas.push((StorageSchema::V3, StorageOverride::SchemaV3));
    let handle = OverrideHandle { schemas, fallback: StorageOverride::RuntimeApi };
    proof {
        let s = handle.schemas@;
        let s2 = s.drop_last();
        let s1 = s2.drop_last();
        let a = (StorageSchema::V1, StorageOverride::SchemaV1);
        let b = (StorageSchema::V2, StorageOverride::SchemaV2);
        let c = (StorageSchema::V3, StorageOverride::SchemaV3);
        assert(s =~= seq![a, b, c]);
        assert(s2 =~= seq![a, b]);
        assert(s1 =~= seq![a]);
        assert(s1.drop_last() =~= Seq::<(StorageSchema, StorageOverride)>::empty());
        assert(entries_map(s1.drop_last()) == Map::<StorageSchema, StorageOverride>::empty());
        assert(entries_map(s1) == Map::<StorageSchema, StorageOverride>::empty().insert(
            StorageSchema::V1,
            StorageOverride::SchemaV1,
        ));
        assert(entries_map(s2) == entries_map(s1).insert(StorageSchema::V2, StorageOverride::SchemaV2));
        assert(entries_map(s) == entries_map(s2).insert(StorageSchema::V3, StorageOverride::SchemaV3));
        assert(handle.schema_map() =~= node_overrides());
        assert(handle.schemas@ =~= seq![a, b, c]);
    }
    handle
}

/// The mapping-sync worker starts first and the fee history maintenance last;
/// the filter pool maintenance runs, keeping each filter for 100 blocks, exactly
/// when the node keeps a filter pool; no two tasks share a name, and all run in the
/// `frontier` group.
pub proof fn frontier_tasks_shape(has_filter_pool: bool, fee_history_limit: u64)
    ensures
        ({
            let tasks = frontier_tasks(has_filter_pool, fee_history_limit);
            &&& tasks.len() == (if has_filter_pool { 3nat } else { 2nat })
            &&& tasks[0] == FrontierTask::MappingSyncWorker {
                timeout_secs: 6,
                retry_times: 3,
                sync_from: 0,
            }
            &&& tasks.last() == FrontierTask::FeeHistory { fee_history_limit }
            &&& task_name(tasks[0]) == "frontier-mapping-sync-worker"@
            &&& task_name(tasks.last()) == "frontier-fee-history"@
            &&& has_filter_pool ==> task_name(tasks[1]) == "frontier-filter-pool"@
            &&& task_group() == "frontier"@
            &&& tasks.contains(FrontierTask::FilterPool { retain_threshold: 100 })
                <==> has_filter_pool
            &&& forall|i: int| 0 <= i < tasks.len() && (#[trigger] tasks[i] is FilterPool)
                ==> has_filter_pool
            &&& forall|i: int, j: int|
                0 <= i < j < tasks.len() ==> task_name(#[trigger] tasks[i]) != task_name(
                    #[trigger] tasks[j],
                )
        }),
{
    reveal_strlit("frontier-mapping-sync-worker");
    reveal_strlit("frontier-filter-pool");
    reveal_strlit("frontier-fee-history");
    let tasks = frontier_tasks(has_filter_pool, fee_history_limit);
    assert("frontier-mapping-sync-worker"@.len() != "frontier-filter-pool"@.len());
    assert("frontier-mapping-sync-worker"@.len() != "frontier-fee-history"@.len());
    assert("frontier-filter-pool"@[10] != "frontier-fee-history"@[10]);
    if has_filter_pool {
        assert(tasks[1] == FrontierTask::FilterPool { retain_threshold: 100 });
    } else {
        if tasks.contains(FrontierTask::FilterPool { retain_threshold: 100 }) {
            let i = choose|i: int| 0 <= i < tasks.len() && tasks[i] == FrontierTask::FilterPool {
                retain_threshold: 100,
            };
            assert(i == 0 || i == 1);
        }
    }
}

/// The node reads data of schemas V1, V2 and V3 each with the reader for that
/// schema, and data of any other schema through the runtime API; distinct schemas
/// with a reader of their own get distinct readers.
pub proof fn node_overrides_readers(handle: OverrideHandle)
    requires
        handle.schema_map() == node_overrides(),
        handle.fallback == StorageOverride::RuntimeApi,
    ensures
        handle.reader_for(StorageSchema::V1) == StorageOverride::SchemaV1,
        handle.reader_for(StorageSchema::V2) == StorageOverride::SchemaV2,
        handle.reader_for(StorageSchema::V3) == StorageOverride::SchemaV3,
        handle.reader_for(StorageSchema::Undefined) == StorageOverride::RuntimeApi,
        forall|a: StorageSchema, b: StorageSchema|
            a != b && handle.schema_map().dom().contains(a) && handle.schema_map().dom().contains(b)
                ==> #[trigger] handle.reader_for(a) != #[trigger] handle.reader_for(b),
{
}

/// Inserting entries in order gives a map whose keys are exactly the schemas the
/// entries name, each holding the reader of the last entry for it.
pub proof fn entries_map_by_entries(entries: Seq<(StorageSchema, StorageOverride)>)
    ensures
        forall|k: StorageSchema|
            #[trigger] entries_map(entries).dom().contains(k) <==> exists|i: int|
                0 <= i < entries.len() && (#[trigger] entries[i]).0 == k,
        forall|i: int|
            0 <= i < entries.len() && (forall|j: int|
                i < j < entries.len() ==> entries[j].0 != (#[trigger] entries[i]).0)
                ==> entries_map(entries)[entries[i].0] == entries[i].1,
    decreases entries.len(),
{
    if entries.len() > 0 {
        let init = entries.drop_last();
        let last = entries.last();
        entries_map_by_entries(init);
        assert(entries_map(entries) == entries_map(init).insert(last.0, last.1));
        assert forall|k: StorageSchema|
            #[trigger] entries_map(entries).dom().contains(k) <==> exists|i: int|
                0 <= i < entries.len() && (#[trigger] entries[i]).0 == k by {
            if entries_map(entries).dom().contains(k) {
                if k == last.0 {
                    assert(entries[entries.len() - 1].0 == k);
                } else {
                    assert(entries_map(init).dom().contains(k));
                    let i = choose|i: int| 0 <= i < init.len() && (#[trigger] init[i]).0 == k;
                    assert(entries[i] == init[i]);
                }
            }
            if exists|i: int| 0 <= i < entries.len() && (#[trigger] entries[i]).0 == k {
                let i = choose|i: int| 0 <= i < entries.len() && (#[trigger] entries[i]).0 == k;
                if i < entries.len() - 1 {
                    assert(init[i] == entries[i]);
                }
            }
        }
        assert forall|i: int|
            0 <= i < entries.len() && (forall|j: int|
                i < j < entries.len() ==> entries[j].0 != (#[trigger] entries[i]).0)
                implies entries_map(entries)[entries[i].0] == entries[i].1 by {
            if i < entries.len() - 1 {
                assert(entries[entries.len() - 1].0 != entries[i].0);
                assert(init[i] == entries[i]);
                assert forall|j: int| i < j < init.len() implies init[j].0 != (#[trigger] init[i]).0 by {
                    assert(init[j] == entries[j]);
                }
            }
        }
    }
}

/// A handle reads a schema with the reader of the last entry registered for it,
/// and a schema that no entry names with its fallback.
pub proof fn reader_for_by_entries(handle: OverrideHandle, schema: StorageSchema)
    ensures
        (forall|i: int| 0 <= i < handle.schemas@.len() ==> (#[trigger] handle.schemas@[i]).0 != schema)
            ==> handle.reader_for(schema) == handle.fallback,
        forall|i: int|
            0 <= i < handle.schemas@.len() && (#[trigger] handle.schemas@[i]).0 == schema && (
            forall|j: int| i < j < handle.schemas@.len() ==> handle.schemas@[j].0 != schema)
                ==> handle.reader_for(schema) == handle.schemas@[i].1,
{
    entries_map_by_entries(handle.schemas@);
    if forall|i: int| 0 <= i < handle.schemas@.len() ==> (#[trigger] handle.schemas@[i]).0 != schema {
        assert(!handle.schema_map().dom().contains(schema));
    }
}

/// The node's handle reads V1, V2 and V3 data each with that schema's own
/// reader, and anything else through the runtime API.
pub proof fn node_handle_readers(handle: OverrideHandle)
    requires
        handle.schemas@ == seq![
            (StorageSchema::V1, StorageOverride::SchemaV1),
            (StorageSchema::V2, StorageOverride::SchemaV2),
            (StorageSchema::V3, StorageOverride::SchemaV3),
        ],
        handle.fallback == StorageOverride::RuntimeApi,
    ensures
        handle.reader_for(StorageSchema::V1) == StorageOverride::SchemaV1,
        handle.reader_for(StorageSchema::V2) == StorageOverride::SchemaV2,
        handle.reader_for(StorageSchema::V3) == StorageOverride::SchemaV3,
        handle.reader_for(StorageSchema::Undefined) == StorageOverride::RuntimeApi,
{
    let s = handle.schemas@;
    assert(handle.reader_for(StorageSchema::V1) == StorageOverride::SchemaV1) by {
        reader_for_by_entries(handle, StorageSchema::V1);
        assert(s[0].0 == StorageSchema::V1 && s[1].0 != StorageSchema::V1 && s[2].0 != StorageSchema::V1);
        assert(forall|j: int| 0 < j < s.len() ==> s[j].0 != StorageSchema::V1);
    }
    assert(handle.reader_for(StorageSchema::V2) == StorageOverride::SchemaV2) by {
        reader_for_by_entries(handle, StorageSchema::V2);
        assert(s[1].0 == StorageSchema::V2 && s[2].0 != StorageSchema::V2);
        assert(forall|j: int| 1 < j < s.len() ==> s[j].0 != StorageSchema::V2);
    }
    assert(handle.reader_for(StorageSchema::V3) == StorageOverride::SchemaV3) by {
        reader_for_by_entries(handle, StorageSchema::V3);
        assert(s[2].0 == StorageSchema::V3);
        assert(forall|j: int| 2 < j < s.len() ==> s[j].0 != StorageSchema::V3);
    }
    assert(handle.reader_for(StorageSchema::Undefined) == StorageOverride::RuntimeApi) by {
        reader_for_by_entries(handle, StorageSchema::Undefined);
        assert(s[0].0 != StorageSchema::Undefined && s[1].0 != StorageSchema::Undefined && s[2].0
            != StorageSchema::Undefined);
        assert(forall|i: int| 0 <= i < s.len() ==> (#[trigger] s[i]).0 != StorageSchema::Undefined);
    }
}

} // verus!
