//! The data model of an instance: its workload type, its lifecycle status,
//! and the shapes in which it is requested, shown and stored.

use vstd::prelude::*;

use crate::storage;

verus! {

/// Where the workload content of a Volkanic construct comes from.
#[derive(Debug)]
pub enum VolkanicSource {
    /// The construct itself, base64 encoded.
    Base64(String),
}

impl Clone for VolkanicSource {
    fn clone(&self) -> (r: Self)
        ensures
            r == *self,
    {
        match self {
            VolkanicSource::Base64(s) => VolkanicSource::Base64(s.clone()),
        }
    }
}

impl PartialEq for VolkanicSource {
    fn eq(&self, o: &VolkanicSource) -> (r: bool) {
        match (self, o) {
            (VolkanicSource::Base64(a), VolkanicSource::Base64(b)) => a.eq(b),
        }
    }
}

impl vstd::std_specs::cmp::PartialEqSpecImpl for VolkanicSource {
    open spec fn obeys_eq_spec() -> bool {
        true
    }

    open spec fn eq_spec(&self, o: &VolkanicSource) -> bool {
        source_eq(self, o)
    }
}

impl Eq for VolkanicSource {}

/// Two sources are equal when they carry the same payload.
pub open spec fn source_eq(a: &VolkanicSource, b: &VolkanicSource) -> bool {
    match (a, b) {
        (VolkanicSource::Base64(x), VolkanicSource::Base64(y)) => x@ == y@,
    }
}

/// The kind of workload an instance runs, with the payload that identifies it.
#[derive(Debug)]
pub enum InstanceType {
    Volkanic { source: VolkanicSource },
}

impl Clone for InstanceType {
    fn clone(&self) -> (r: Self)
        ensures
            r == *self,
    {
        match self {
            InstanceType::Volkanic { source } => InstanceType::Volkanic { source: source.clone() },
        }
    }
}

impl PartialEq for InstanceType {
    fn eq(&self, o: &InstanceType) -> (r: bool) {
        match (self, o) {
            (InstanceType::Volkanic { source: a }, InstanceType::Volkanic { source: b }) => a.eq(b),
        }
    }
}

impl vstd::std_specs::cmp::PartialEqSpecImpl for InstanceType {
    open spec fn obeys_eq_spec() -> bool {
        true
    }

    open spec fn eq_spec(&self, o: &InstanceType) -> bool {
        match (self, o) {
            (InstanceType::Volkanic { source: a }, InstanceType::Volkanic { source: b }) => source_eq(a, b),
        }
    }
}

impl Eq for InstanceType {}

/// Where an instance is in its lifecycle.
#[derive(Debug, Clone, Copy, PartialEq, Eq, Structural)]
pub enum InstanceStatus {
    Inactive,
    Running,
    /// Container provisioning, with its progress.
    Creating(u8),
    /// Terminal-bound: the instance leaves the registry once deletion completes.
    Deleting,
    Starting,
    Stopping,
}

/// What observers are shown of an instance: the token and the container
/// handle are withheld.
#[derive(Debug)]
pub struct PubInstance {
    pub name: String,
    pub inst_type: InstanceType,
    pub status: InstanceStatus,
}

impl Clone for PubInstance {
    fn clone(&self) -> (r: Self)
        ensures
            r == *self,
    {
        PubInstance { name: self.name.clone(), inst_type: self.inst_type.clone(), status: self.status }
    }
}

/// What is persisted of an instance. Status is never persisted.
#[derive(Debug)]
pub struct StoredInstance {
    pub name: String,
    pub inst_type: InstanceType,
    pub host_com_token: String,
    pub container_id: Option<String>,
}

impl Clone for StoredInstance {
    fn clone(&self) -> (r: Self)
        ensures
            r == *self,
    {
        StoredInstance {
            name: self.name.clone(),
            inst_type: self.inst_type.clone(),
            host_com_token: self.host_com_token.clone(),
            container_id: clone_opt(&self.container_id),
        }
    }
}

/// A request for a new instance: no id, token or status yet.
#[derive(Debug)]
pub struct InstanceRequest {
    pub name: String,
    pub inst_type: InstanceType,
}

impl Clone for InstanceRequest {
    fn clone(&self) -> (r: Self)
        ensures
            r == *self,
    {
        InstanceRequest { name: self.name.clone(), inst_type: self.inst_type.clone() }
    }
}

/// A command pushed to the workload of one instance.
#[derive(Debug, Clone, Copy, PartialEq, Eq, Structural)]
pub enum HostEvent {
    /// Expects the host to gracefully stop the instance and wait.
    Stop,
}

/// Why an instance operation failed.
#[derive(Debug)]
pub enum Error {
    Generic(String),
    /// The container runtime reported an error; its message.
    Docker(String),
    Storage(storage::Error),
    InstanceNotFound(String),
    ExhaustedUniqueIds,
    /// The container exists, but no handle for it is known.
    ContainerIdNotFound,
    /// Inspecting the container gave no running state.
    NoContainerState,
}

impl Clone for Error {
    fn clone(&self) -> (r: Self)
        ensures
            r == *self,
    {
        match self {
            Error::Generic(s) => Error::Generic(s.clone()),
            Error::Docker(s) => Error::Docker(s.clone()),
            Error::Storage(e) => Error::Storage(e.clone()),
            Error::InstanceNotFound(s) => Error::InstanceNotFound(s.clone()),
            Error::ExhaustedUniqueIds => Error::ExhaustedUniqueIds,
            Error::ContainerIdNotFound => Error::ContainerIdNotFound,
            Error::NoContainerState => Error::NoContainerState,
        }
    }
}

/// A copy of an optional string, equal to it.
pub fn clone_opt(o: &Option<String>) -> (r: Option<String>)
    ensures
        r == *o,
{
    match o {
        Some(s) => Some(s.clone()),
        None => None,
    }
}

} // verus!
