//! Creating an instance of the component runtime: what a request asks for,
//! and the refusals and messages of the API.
use vstd::prelude::*;

use crate::text::append;

verus! {

/// Request body for creating a new instance.
#[derive(Debug)]
pub struct CreateInstanceRequest {
    /// Unique identifier for the new instance
    pub id: String,
    /// Whether to use persistent indexing; in memory when absent
    pub persist_index: Option<bool>,
    /// Whether persistent queries also keep the archive index; not when absent
    pub enable_archive: Option<bool>,
    /// Memory budget of the persistent index, in MiB
    pub memory_budget_mib: Option<usize>,
    /// Default capacity for priority queues
    pub default_priority_queue_capacity: Option<usize>,
    /// Default capacity for dispatch buffers
    pub default_dispatch_buffer_capacity: Option<usize>,
}

/// The storage an instance uses.
#[derive(Debug, Clone, Copy, PartialEq, Eq, Structural)]
pub struct StorageChoice {
    pub persist_index: bool,
    pub enable_archive: bool,
}

impl CreateInstanceRequest {
    /// The storage asked for: in memory, without archive, unless the request
    /// says otherwise.
    pub fn storage(&self) -> (r: StorageChoice)
        ensures
            r.persist_index == (self.persist_index == Some(true)),
            r.enable_archive == (self.enable_archive == Some(true)),
    {
        let persist_index = match self.persist_index {
            Some(b) => b,
            None => false,
        };
        let enable_archive = match self.enable_archive {
            Some(b) => b,
            None => false,
        };
        StorageChoice { persist_index, enable_archive }
    }
}

/// `./data/<key>/wal`: where an instance keeps its write-ahead log.
pub open spec fn wal_dir(storage_key: Seq<char>) -> Seq<char> {
    "./data/"@ + storage_key + "/wal"@
}

/// Where an instance with this storage key keeps its write-ahead log.
pub fn wal_directory(storage_key: &str) -> (r: String)
    ensures
        r@ == wal_dir(storage_key@),
{
    let mut m = String::new();
    append(&mut m, "./data/");
    append(&mut m, storage_key);
    append(&mut m, "/wal");
    m
}

/// `Instance '<id>' created successfully`.
pub fn instance_created_message(id: &str) -> (r: String)
    ensures
        r@ == "Instance '"@ + id@ + "' created successfully"@,
{
    let mut m = String::new();
    append(&mut m, "Instance '");
    append(&mut m, id);
    append(&mut m, "' created successfully");
    m
}

/// Where an error happened and what the underlying failure said.
#[derive(Debug)]
pub struct ErrorContext {
    pub component_type: Option<String>,
    pub component_id: Option<String>,
    pub technical_details: Option<String>,
}

/// A refusal: its code, its message and its context.
#[derive(Debug)]
pub struct Refusal {
    pub code: String,
    pub message: String,
    pub context: ErrorContext,
}

/// The refusal of an instance whose memory budget does not fit its storage.
pub fn invalid_memory_budget_error(instance_id: &str, error: &str) -> (r: Refusal)
    ensures
        r.code@ == "INVALID_REQUEST"@,
        r.message@ == "Invalid instance memory budget configuration"@,
        r.context.component_type matches Some(t) && t@ == "instance"@,
        r.context.component_id matches Some(i) && i@ == instance_id@,
        r.context.technical_details matches Some(d) && d@ == error@,
{
    Refusal {
        code: "INVALID_REQUEST".to_string(),
        message: "Invalid instance memory budget configuration".to_string(),
        context: ErrorContext {
            component_type: Some("instance".to_string()),
            component_id: Some(instance_id.to_string()),
            technical_details: Some(error.to_string()),
        },
    }
}

/// The refusal of a failed plugin operation, with its code.
pub fn plugin_operation_error(code: &str, message: &str, error: &str) -> (r: Refusal)
    ensures
        r.code@ == code@,
        r.message@ == message@,
        r.context.component_type matches Some(t) && t@ == "plugin"@,
        r.context.component_id is None,
        r.context.technical_details matches Some(d) && d@ == error@,
{
    Refusal {
        code: code.to_string(),
        message: message.to_string(),
        context: ErrorContext {
            component_type: Some("plugin".to_string()),
            component_id: None,
            technical_details: Some(error.to_string()),
        },
    }
}

/// The refusal of a failed operation on a computation graph.
pub fn operation_error(id: &str, operation: &str, error: &str) -> (r: Refusal)
    ensures
        r.code@ == "COMPUTATION_OPERATION_FAILED"@,
        r.message@ == "Failed to "@ + operation@ + " computation graph"@,
        r.context.component_type matches Some(t) && t@ == "computation"@,
        r.context.component_id matches Some(i) && i@ == id@,
        r.context.technical_details matches Some(d) && d@ == error@,
{
    let mut m = String::new();
    append(&mut m, "Failed to ");
    append(&mut m, operation);
    append(&mut m, " computation graph");
    Refusal {
        code: "COMPUTATION_OPERATION_FAILED".to_string(),
        message: m,
        context: ErrorContext {
            component_type: Some("computation".to_string()),
            component_id: Some(id.to_string()),
            technical_details: Some(error.to_string()),
        },
    }
}

/// The code of the refusal of a change that could not be saved.
pub const PERSISTENCE_FAILED: &'static str = "PERSISTENCE_FAILED";

/// The message of a change applied in memory that could not be saved after
/// `operation`.
pub open spec fn persistence_failure_message(operation: Seq<char>) -> Seq<char> {
    "Configuration change applied in memory but could not be persisted to disk after "@
        + operation
        + ". The runtime state has changed; the on-disk configuration has not. Retry the operation or restart the server after fixing the underlying persistence issue."@
}

/// What follows saving the configuration after `operation` changed the
/// runtime: `save` is `None` when the server does not persist its
/// configuration. Nothing to report when it does not, or when the save
/// succeeded; otherwise the caller is told that memory and disk now differ,
/// with the failure as the technical details (code `PERSISTENCE_FAILED`).
pub fn persist_after_operation(save: Option<Result<(), String>>, operation: &str) -> (r: Result<
    (),
    Refusal,
>)
    ensures
        match save {
            None => r is Ok,
            Some(Ok(_)) => r is Ok,
            Some(Err(e)) => r matches Err(f) && {
                &&& f.code@ == "PERSISTENCE_FAILED"@
                &&& f.message@ == persistence_failure_message(operation@)
                &&& f.context.component_type is None
                &&& f.context.component_id is None
                &&& f.context.technical_details matches Some(d) && d@ == e@
            },
        },
{
    match save {
        None => Ok(()),
        Some(Ok(_)) => Ok(()),
        Some(Err(e)) => {
            let mut m = String::new();
            append(
                &mut m,
                "Configuration change applied in memory but could not be persisted to disk after ",
            );
            append(&mut m, operation);
            append(
                &mut m,
                ". The runtime state has changed; the on-disk configuration has not. Retry the operation or restart the server after fixing the underlying persistence issue.",
            );
            Err(
                Refusal {
                    code: PERSISTENCE_FAILED.to_string(),
                    message: m,
                    context: ErrorContext {
                        component_type: None,
                        component_id: None,
                        technical_details: Some(e),
                    },
                },
            )
        },
    }
}

/// Computation graphs change only on a writable server.
pub fn require_writable(read_only: bool) -> (r: Result<(), String>)
    ensures
        r is Ok <==> !read_only,
        r matches Err(m) ==> m@ == "Server is in read-only mode. Cannot mutate computation graphs."@,
{
    if read_only {
        Err("Server is in read-only mode. Cannot mutate computation graphs.".to_string())
    } else {
        Ok(())
    }
}

/// What the API shows of a computation graph.
#[derive(Debug)]
pub struct ComputationGraphInfo {
    pub id: String,
    pub auto_start: bool,
    pub state: String,
    pub revision: u64,
    pub driver_failed: bool,
}

} // verus!
