//! Notifications of committed instance changes, fanned out to listeners.

use vstd::prelude::*;

use crate::instance::PubInstance;

verus! {

/// One committed change: an instance's new public view, or its deletion.
#[derive(Debug)]
pub enum GlobalEvent {
    ModifyInstance { id: String, instance: PubInstance },
    DeleteInstance { id: String },
}

impl Clone for GlobalEvent {
    fn clone(&self) -> (r: Self)
        ensures
            r == *self,
    {
        match self {
            GlobalEvent::ModifyInstance { id, instance } => GlobalEvent::ModifyInstance {
                id: id.clone(),
                instance: instance.clone(),
            },
            GlobalEvent::DeleteInstance { id } => GlobalEvent::DeleteInstance { id: id.clone() },
        }
    }
}

} // verus!
