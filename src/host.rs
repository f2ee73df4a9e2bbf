//! What a workload host is told about the instance it runs.

use vstd::prelude::*;

use crate::instance::{InstanceType, VolkanicSource};

verus! {

/// The workload a host is to run.
#[derive(Debug)]
pub enum HostInstanceType {
    VolkanicConstruct { base64: String },
}

/// The definition handed to an authenticated host.
#[derive(Debug)]
pub struct HostDefinition {
    pub i_type: HostInstanceType,
}

/// The host's form of an instance type.
pub open spec fn host_type_of(t: InstanceType) -> HostInstanceType {
    match t {
        InstanceType::Volkanic { source: VolkanicSource::Base64(b) } => HostInstanceType::VolkanicConstruct {
            base64: b,
        },
    }
}

impl From<InstanceType> for HostInstanceType {
    fn from(i_type: InstanceType) -> (r: Self) {
        match i_type {
            InstanceType::Volkanic { source } => match source {
                VolkanicSource::Base64(base64) => HostInstanceType::VolkanicConstruct { base64 },
            },
        }
    }
}

impl vstd::std_specs::convert::FromSpecImpl<InstanceType> for HostInstanceType {
    open spec fn obeys_from_spec() -> bool {
        true
    }

    open spec fn from_spec(i_type: InstanceType) -> HostInstanceType {
        host_type_of(i_type)
    }
}

impl HostDefinition {
    /// The definition of a workload of type `i_type`.
    pub fn of_type(i_type: &InstanceType) -> (r: Self)
        ensures
            r.i_type == host_type_of(*i_type),
    {
        HostDefinition { i_type: HostInstanceType::from(i_type.clone()) }
    }
}

} // verus!
