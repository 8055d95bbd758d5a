//! Database records for scripts.
use vstd::prelude::*;

verus! {

/// A database record.
#[derive(Clone, Debug)]
pub struct DbRecord {
    pub id: String,
    pub collection: String,
    /// JSON text.
    pub data: String,
    /// ISO 8601.
    pub created_at: String,
    pub updated_at: String,
}

/// The state of synchronization.
#[derive(Clone, Debug)]
pub struct DbSyncStatus {
    pub connected: bool,
    pub peers: usize,
    pub room: String,
}

/// A database that scripts have access to.
pub trait DbBridge {
    fn query(&self, collection: &str) -> Vec<DbRecord>;

    fn create(&mut self, collection: &str, data: &str) -> DbRecord;

    fn update(&mut self, id: &str, data: &str) -> Option<DbRecord>;

    fn delete(&mut self, id: &str);

    fn hard_delete(&mut self, collection: &str, id: &str);

    fn get(&self, collection: &str, id: &str) -> Option<DbRecord>;

    fn start_sync(&mut self, room: &str);

    fn stop_sync(&mut self, room: Option<&str>);

    fn get_sync_status(&self, room: Option<&str>) -> DbSyncStatus;

    fn get_saved_sync_room(&self) -> Option<String>;
}

} // verus!
