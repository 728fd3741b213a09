use redefi_eth::eth_service::{
    frontier_task_plan, overrides_handle, FrontierTask, SpawnKind, StorageOverride,
    StorageSchema,
};
use redefi_eth::service::{frontier_database_settings, DatabaseKind};

fn dir(parts: &[&str]) -> Vec<Vec<u8>> {
    parts.iter().map(|p| p.as_bytes().to_vec()).collect()
}

#[test]
fn tasks_with_a_filter_pool() {
    let plan = frontier_task_plan(true, 2048);
    assert_eq!(
        plan.tasks,
        vec![
            FrontierTask::MappingSyncWorker { timeout_secs: 6, retry_times: 3, sync_from: 0 },
            FrontierTask::FilterPool { retain_threshold: 100 },
            FrontierTask::FeeHistory { fee_history_limit: 2048 },
        ]
    );
    assert_eq!(plan.blocks_cache_max_size, 50);
    assert_eq!(plan.statuses_cache_max_size, 50);
    let names: Vec<&str> = plan.tasks.iter().map(|t| t.name()).collect();
    assert_eq!(names, vec!["frontier-mapping-sync-worker", "frontier-filter-pool", "frontier-fee-history"]);
    assert!(plan.tasks.iter().all(|t| t.group() == "frontier"));
    assert!(plan.tasks.iter().all(|t| t.spawn_kind() == SpawnKind::Essential));
    assert_eq!(plan.block_data_cache_spawn, SpawnKind::Ordinary);
}

#[test]
fn tasks_without_a_filter_pool() {
    let plan = frontier_task_plan(false, 7);
    assert_eq!(
        plan.tasks,
        vec![
            FrontierTask::MappingSyncWorker { timeout_secs: 6, retry_times: 3, sync_from: 0 },
            FrontierTask::FeeHistory { fee_history_limit: 7 },
        ]
    );
}

#[test]
fn each_schema_has_its_reader() {
    let h = overrides_handle();
    assert_eq!(h.override_for(StorageSchema::V1), StorageOverride::SchemaV1);
    assert_eq!(h.override_for(StorageSchema::V2), StorageOverride::SchemaV2);
    assert_eq!(h.override_for(StorageSchema::V3), StorageOverride::SchemaV3);
    assert_eq!(h.override_for(StorageSchema::Undefined), StorageOverride::RuntimeApi);
    assert_eq!(h.schemas.len(), 3);
}

#[test]
fn database_lies_in_frontier_db() {
    let s = frontier_database_settings(dir(&["/", "data", "chains", "redefi"]));
    assert_eq!(s.path, dir(&["/", "data", "chains", "redefi", "frontier", "db"]));
    assert_eq!(s.cache_size, 0);
    assert_eq!(s.source, DatabaseKind::RocksDb);
}

#[test]
fn databases_of_different_chains_differ() {
    let a = frontier_database_settings(dir(&["base", "chains", "a"]));
    let b = frontier_database_settings(dir(&["base", "chains", "b"]));
    assert_ne!(a.path, b.path);
}

#[test]
fn non_utf8_components_are_kept() {
    let s = frontier_database_settings(vec![vec![0xff, 0xfe], b"x".to_vec()]);
    assert_eq!(s.path, vec![vec![0xff, 0xfe], b"x".to_vec(), b"frontier".to_vec(), b"db".to_vec()]);
}
