//! Errors that the coordinator reports to its host.
use vstd::prelude::*;

use crate::text::{concat2, concat3};

verus! {

/// Why a coordinator operation failed.
#[derive(Debug)]
pub enum ClusterError {
    /// etcd could not be reached or refused the request.
    BackendUnavailable { reason: String },
    /// The coordinator itself could not go on.
    Internal { reason: String },
    /// The caller named something that cannot exist.
    InvalidReference { message: String },
    /// The lease is no longer held.
    LeaseExpired,
}

/// The content of a [`ClusterError`].
pub enum Fault {
    BackendUnavailable(Seq<char>),
    Internal(Seq<char>),
    InvalidReference(Seq<char>),
    LeaseExpired,
}

impl View for ClusterError {
    type V = Fault;

    open spec fn view(&self) -> Fault {
        match self {
            ClusterError::BackendUnavailable { reason } => Fault::BackendUnavailable(reason@),
            ClusterError::Internal { reason } => Fault::Internal(reason@),
            ClusterError::InvalidReference { message } => Fault::InvalidReference(message@),
            ClusterError::LeaseExpired => Fault::LeaseExpired,
        }
    }
}

/// The failure of one etcd call: `<call>: <detail>`.
pub open spec fn call_failed(call: Seq<char>, detail: Seq<char>) -> Fault {
    Fault::BackendUnavailable(call + ": "@ + detail)
}

/// Reports the failure of the etcd call `call`.
pub fn backend_unavailable(call: &str, detail: &str) -> (r: ClusterError)
    ensures
        r@ == call_failed(call@, detail@),
{
    ClusterError::BackendUnavailable { reason: concat3(call, ": ", detail) }
}

/// Reports a failure inside the coordinator: `<task>: <detail>`.
pub fn internal(task: &str, detail: &str) -> (r: ClusterError)
    ensures
        r@ == Fault::Internal(task@ + ": "@ + detail@),
{
    ClusterError::Internal { reason: concat3(task, ": ", detail) }
}

/// The failure of one etcd call made by the key-value store.
pub open spec fn kv_call_failed(op: Seq<char>, detail: Seq<char>) -> Fault {
    call_failed("etcd kv "@ + op, detail)
}

/// Reports the failure of the key-value store's call `op`.
pub fn unavailable(op: &str, detail: &str) -> (r: ClusterError)
    ensures
        r@ == kv_call_failed(op@, detail@),
{
    let call: String = concat2("etcd kv ", op);
    backend_unavailable(call.as_str(), detail)
}

} // verus!
