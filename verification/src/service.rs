use vstd::prelude::*;

verus! {

/// The name of the directory that holds the Ethereum layer's data: the ASCII
/// bytes of `frontier`.
pub open spec fn frontier_dir_name() -> Seq<u8> {
    seq![102u8, 114u8, 111u8, 110u8, 116u8, 105u8, 101u8, 114u8]
}

/// The name of the database directory inside it: the ASCII bytes of `db`.
pub open spec fn db_dir_name() -> Seq<u8> {
    seq![100u8, 98u8]
}

/// A filesystem path held as its components, in order, each as the bytes of its
/// name.
pub open spec fn components_view(path: Seq<Vec<u8>>) -> Seq<Seq<u8>> {
    path.map_values(|c: Vec<u8>| c@)
}

/// Where the Frontier database lives: two levels below the node's configuration
/// directory, in `frontier/db`.
pub open spec fn frontier_db_path(config_dir: Seq<Seq<u8>>) -> Seq<Seq<u8>> {
    config_dir + seq![frontier_dir_name(), db_dir_name()]
}

/// The kind of database the Frontier backend is kept in.
#[derive(Debug, PartialEq, Eq, Structural, Clone, Copy)]
pub enum DatabaseKind {
    RocksDb,
    ParityDb,
}

/// The settings the Frontier key-value backend is opened with.
pub struct FrontierDbSettings {
    /// The kind of database.
    pub source: DatabaseKind,
    /// The database directory, component by component.
    pub path: Vec<Vec<u8>>,
    /// The database cache size; the node gives it none.
    pub cache_size: usize,
}

/// The database settings of the Frontier backend for a node whose configuration
/// directory is `config_dir`: a RocksDB database in `config_dir/frontier/db` with a
/// cache size of 0.
pub fn frontier_database_settings(config_dir: Vec<Vec<u8>>) -> (settings: FrontierDbSettings)
    ensures
        settings.source == DatabaseKind::RocksDb,
        components_view(settings.path@) == frontier_db_path(components_view(config_dir@)),
        settings.cache_size == 0,
        settings.path@.len() == config_dir@.len() + 2,
        forall|i: int| 0 <= i < config_dir@.len() ==> settings.path@[i] == config_dir@[i],
        settings.path@[config_dir@.len() as int]@ == seq![102u8, 114u8, 111u8, 110u8, 116u8, 105u8, 101u8, 114u8],
        settings.path@[config_dir@.len() as int + 1]@ == seq![100u8, 98u8],
{
    let mut path = config_dir;
    let ghost before = path@;
    let frontier: Vec<u8> = vec![102u8, 114u8, 111u8, 110u8, 116u8, 105u8, 101u8, 114u8];
    let db: Vec<u8> = vec![100u8, 98u8];
    assert(frontier@ =~= frontier_dir_name());
    assert(db@ =~= db_dir_name());
    path.push(frontier);
    path.push(db);
    assert(components_view(path@) =~= frontier_db_path(components_view(before)));
    FrontierDbSettings { source: DatabaseKind::RocksDb, path, cache_size: 0 }
}

/// The Frontier database lies in `frontier/db` right below the configuration
/// directory, whatever that directory is, so nodes with different configuration
/// directories never share one.
pub proof fn frontier_db_path_below_config_dir(a: Seq<Seq<u8>>, b: Seq<Seq<u8>>)
    ensures
        frontier_db_path(a).len() == a.len() + 2,
        frontier_db_path(a).take(a.len() as int) == a,
        frontier_db_path(a).subrange(a.len() as int, a.len() as int + 2) == seq![
            seq![102u8, 114u8, 111u8, 110u8, 116u8, 105u8, 101u8, 114u8],
            seq![100u8, 98u8],
        ],
        frontier_db_path(a) == frontier_db_path(b) ==> a == b,
{
    assert(frontier_db_path(a).take(a.len() as int) =~= a);
    assert(frontier_db_path(a).subrange(a.len() as int, a.len() as int + 2) =~= seq![
        frontier_dir_name(),
        db_dir_name(),
    ]);
    assert(frontier_dir_name() =~= seq![102u8, 114u8, 111u8, 110u8, 116u8, 105u8, 101u8, 114u8]);
    assert(db_dir_name() =~= seq![100u8, 98u8]);
    if frontier_db_path(a) == frontier_db_path(b) {
        assert(frontier_db_path(b).take(b.len() as int) =~= b);
    }
}

} // verus!
