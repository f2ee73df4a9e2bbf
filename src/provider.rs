//! The instance registry and its lifecycle: create, start, stop, delete, and
//! the reconciliation of recorded status with what the container runtime
//! reports.
//!
//! Every operation that waits on the container runtime or on the store's file
//! is a sequence of steps. Each step takes what the runtime or the store
//! answered to the previous one, updates the registry, and names what is to be
//! asked next; the caller performs that request and hands the answer to the
//! next step. Between steps the registry is free for other operations.

use vstd::prelude::*;

use crate::global_event::GlobalEvent;
use crate::ids::{new_container_name, unique_id, unique_token, views};
use crate::instance::{
    clone_opt, Error, HostEvent, InstanceRequest, InstanceStatus, InstanceType, PubInstance,
    StoredInstance,
};
use crate::storage::{
    self, find_index, lemma_find_index, lemma_find_index_range, lemma_unique_push,
    lemma_unique_remove, record_ids, unique, JsonStorageProvider,
};

verus! {

/// The image that instance containers run.
pub const HOST_IMAGE: &'static str = "ghcr.io/8bitz0/volkanicmc-host:0.2.0";

/// The address that containers reach the control plane at, without its port.
pub const RUNNER_ADDR_PREFIX: &'static str = "http://host.docker.internal:";

/// The decimal digit for `d`.
pub open spec fn digit(d: nat) -> char {
    if d == 0 { '0' } else if d == 1 { '1' } else if d == 2 { '2' } else if d == 3 { '3' }
    else if d == 4 { '4' } else if d == 5 { '5' } else if d == 6 { '6' } else if d == 7 { '7' }
    else if d == 8 { '8' } else { '9' }
}

/// `n` written in decimal, without leading zeros.
pub open spec fn decimal(n: nat) -> Seq<char>
    decreases n,
{
    if n < 10 {
        seq![digit(n)]
    } else {
        decimal(n / 10).push(digit(n % 10))
    }
}

/// The one-character string of digit `d`.
fn digit_str(d: u16) -> (r: &'static str)
    requires
        d < 10,
    ensures
        r@ == seq![digit(d as nat)],
{
    proof {
        reveal_strlit("0");
        reveal_strlit("1");
        reveal_strlit("2");
        reveal_strlit("3");
        reveal_strlit("4");
        reveal_strlit("5");
        reveal_strlit("6");
        reveal_strlit("7");
        reveal_strlit("8");
        reveal_strlit("9");
    }
    let r = if d == 0 { "0" } else if d == 1 { "1" } else if d == 2 { "2" } else if d == 3 { "3" }
    else if d == 4 { "4" } else if d == 5 { "5" } else if d == 6 { "6" } else if d == 7 { "7" }
    else if d == 8 { "8" } else { "9" };
    assert(r@ =~= seq![digit(d as nat)]);
    r
}

/// `n` in decimal.
fn decimal_string(n: u16) -> (r: String)
    ensures
        r@ == decimal(n as nat),
    decreases n,
{
    if n < 10 {
        String::from_str(digit_str(n))
    } else {
        let mut s = decimal_string(n / 10);
        s.append(digit_str(n % 10));
        proof {
            assert(s@ =~= decimal(n as nat));
        }
        s
    }
}

/// The address that the workload of an instance reaches the control plane
/// at, on port `port`.
pub fn get_runner_addr(port: u16) -> (r: String)
    ensures
        r@ == RUNNER_ADDR_PREFIX@ + decimal(port as nat),
{
    let mut s = String::from_str(RUNNER_ADDR_PREFIX);
    s.append(decimal_string(port).as_str());
    s
}

/// Time between two reconciliation sweeps.
pub const INSTANCE_CHECK_INTERVAL_MS: u64 = 750;

/// How long a sweep waits for one instance before skipping it.
pub const INSTANCE_CHECK_CONTAINER_ID_LOCK_TIMEOUT_MS: u64 = 50;

/// A live instance of the registry.
#[derive(Debug)]
pub struct Instance {
    pub id: String,
    pub name: String,
    pub inst_type: InstanceType,
    pub status: InstanceStatus,
    /// The secret its workload authenticates with.
    pub host_com_token: String,
    /// When its workload last reported, in milliseconds since the Unix epoch.
    pub last_con: Option<i64>,
    /// The runtime's handle of its container, while one exists.
    pub container_id: Option<String>,
}

impl Clone for Instance {
    fn clone(&self) -> (r: Self)
        ensures
            r == *self,
    {
        Instance {
            id: self.id.clone(),
            name: self.name.clone(),
            inst_type: self.inst_type.clone(),
            status: self.status,
            host_com_token: self.host_com_token.clone(),
            last_con: self.last_con,
            container_id: clone_opt(&self.container_id),
        }
    }
}

/// What observers see of an instance.
pub open spec fn pub_view(i: Instance) -> PubInstance {
    PubInstance { name: i.name, inst_type: i.inst_type, status: i.status }
}

/// What the store keeps of an instance.
pub open spec fn stored_of(i: Instance) -> StoredInstance {
    StoredInstance {
        name: i.name,
        inst_type: i.inst_type,
        host_com_token: i.host_com_token,
        container_id: i.container_id,
    }
}

/// The notification that an instance now looks as it does.
pub open spec fn modified(i: Instance) -> GlobalEvent {
    GlobalEvent::ModifyInstance { id: i.id, instance: pub_view(i) }
}

/// `i` with status `s`.
pub open spec fn with_status(i: Instance, s: InstanceStatus) -> Instance {
    Instance { status: s, ..i }
}

/// `i` with container handle `h`.
pub open spec fn with_handle(i: Instance, h: Option<String>) -> Instance {
    Instance { container_id: h, ..i }
}

/// The instances after the one at `i` was stopped.
pub open spec fn stop_result(insts: Seq<Instance>, i: int) -> Seq<Instance> {
    insts.update(i, with_status(insts[i], InstanceStatus::Inactive))
}

/// The ids of a list of instances.
pub open spec fn instance_ids(s: Seq<Instance>) -> Seq<Seq<char>> {
    s.map_values(|i: Instance| i.id@)
}

/// The tokens of a list of instances.
pub open spec fn instance_tokens(s: Seq<Instance>) -> Seq<Seq<char>> {
    s.map_values(|i: Instance| i.host_com_token@)
}

/// The public view of an instance.
pub fn to_pub_instance(inst: &Instance) -> (r: PubInstance)
    ensures
        r == pub_view(*inst),
{
    PubInstance { name: inst.name.clone(), inst_type: inst.inst_type.clone(), status: inst.status }
}

/// The record that the store keeps of an instance.
fn to_stored(inst: &Instance) -> (r: StoredInstance)
    ensures
        r == stored_of(*inst),
{
    StoredInstance {
        name: inst.name.clone(),
        inst_type: inst.inst_type.clone(),
        host_com_token: inst.host_com_token.clone(),
        container_id: clone_opt(&inst.container_id),
    }
}

/// Relies on chrono::Utc::now and DateTime::timestamp_millis: the current
/// time, in milliseconds since the Unix epoch.
#[verifier::external_body]
fn now_millis() -> (r: i64) {
    chrono::Utc::now().timestamp_millis()
}

/// What a start operation asks for next.
#[derive(Debug)]
pub enum StartStep {
    /// Inspect the container; `created` tells whether this operation made it.
    Inspect { handle: String, created: bool },
    /// Create a container with this name, image and environment, and hand
    /// back its handle.
    Create { name: String, image: String, env: Vec<String> },
    /// Rewrite the store's file with these records.
    Persist(Vec<(String, StoredInstance)>),
    /// Start the container.
    Start(String),
    /// The instance runs.
    Done,
    /// The operation gave up; the instance is back to `Inactive` where it exists.
    Failed(Error),
}

/// `step` creates a container for `inst`: the host image, with the token the
/// workload authenticates with and the address it reaches the control plane at.
pub open spec fn is_create_for(step: StartStep, inst: Instance, url: Seq<char>) -> bool {
    match step {
        StartStep::Create { name, image, env } => {
            &&& image@ == HOST_IMAGE@
            &&& env@.len() == 2
            &&& env@[0]@ == "TOKEN="@ + inst.host_com_token@
            &&& env@[1]@ == "RUNNER_URL="@ + url
            &&& name@.len() == 3 + crate::ids::CONTAINER_NAME_SUFFIX_LEN
            &&& name@.subrange(0, 3) == "vk-"@
        },
        _ => false,
    }
}

/// What a delete operation asks for next.
#[derive(Debug)]
pub enum DeleteStep {
    /// Inspect the container and hand back whether it runs.
    Inspect(String),
    /// Stop the running container.
    Stop(String),
    /// Remove the container.
    Remove(String),
    /// Rewrite the store's file with these records: those of every other instance.
    Persist(Vec<(String, StoredInstance)>),
    /// The instance is gone from the registry and the store.
    Done,
    /// The deletion did not complete; the instance stays, `Inactive`.
    Failed(Error),
}

/// What a reconciliation of one instance asks for next.
#[derive(Debug)]
pub enum ReconcileStep {
    /// Inspect the container and hand back whether it runs.
    Inspect(String),
    /// The container was gone: rewrite the store's file with these records.
    Persist(Vec<(String, StoredInstance)>),
    /// Nothing more to do for this instance.
    Done,
}

/// The registry of live instances, the store that mirrors it, and the
/// notifications not yet handed out.
pub struct DockerInstanceProvider {
    instances: Vec<Instance>,
    storage: JsonStorageProvider,
    runner_url: String,
    events: Vec<GlobalEvent>,
}

impl DockerInstanceProvider {
    /// The instances, in the order they joined the registry.
    pub closed spec fn instances(&self) -> Seq<Instance> {
        self.instances@
    }

    /// The store of instance records.
    pub closed spec fn store(&self) -> JsonStorageProvider {
        self.storage
    }

    /// Notifications published and not yet taken.
    pub closed spec fn events(&self) -> Seq<GlobalEvent> {
        self.events@
    }

    /// The address that workloads reach the control plane at.
    pub closed spec fn runner_url(&self) -> Seq<char> {
        self.runner_url@
    }

    /// Ids are unique; the store holds, position for position, the record of
    /// each instance and nothing else; a running instance has a container.
    pub open spec fn wf(&self) -> bool {
        &&& unique(instance_ids(self.instances()))
        &&& self.store().records().len() == self.instances().len()
        &&& forall|i: int|
            0 <= i < self.instances().len() ==> #[trigger] self.store().records()[i] == (
                self.instances()[i].id,
                stored_of(self.instances()[i]),
            )
        &&& forall|i: int|
            0 <= i < self.instances().len() && (#[trigger] self.instances()[i]).status
                == InstanceStatus::Running ==> self.instances()[i].container_id is Some
    }

    /// Where `id` stands in the registry, or -1.
    pub open spec fn index(&self, id: Seq<char>) -> int {
        find_index(instance_ids(self.instances()), id)
    }

    /// The instance with id `id`, if any.
    pub open spec fn lookup(&self, id: Seq<char>) -> Option<Instance> {
        if self.index(id) >= 0 {
            Some(self.instances()[self.index(id)])
        } else {
            None
        }
    }

    /// Only the status of the instance at `i` changed, to `s`, and one
    /// notification of it was published.
    pub open spec fn status_set(old: &Self, new: &Self, i: int, s: InstanceStatus) -> bool {
        &&& 0 <= i < old.instances().len()
        &&& new.instances() == old.instances().update(i, with_status(old.instances()[i], s))
        &&& new.events() == old.events().push(modified(new.instances()[i]))
        &&& new.store() == old.store()
        &&& new.runner_url() == old.runner_url()
    }

    /// Nothing changed.
    pub open spec fn same(old: &Self, new: &Self) -> bool {
        &&& new.instances() == old.instances()
        &&& new.events() == old.events()
        &&& new.store() == old.store()
        &&& new.runner_url() == old.runner_url()
    }

    /// The store's ids are the registry's, so they are unique too.
    proof fn lemma_ids(&self)
        requires
            self.wf(),
        ensures
            record_ids(self.store().records()) == instance_ids(self.instances()),
            self.store().wf(),
    {
        assert forall|i: int| 0 <= i < self.instances().len() implies record_ids(
            self.store().records(),
        )[i] == instance_ids(self.instances())[i] by {
            assert(self.store().records()[i] == (self.instances()[i].id, stored_of(self.instances()[i])));
        }
        assert(record_ids(self.store().records()) =~= instance_ids(self.instances()));
    }

    /// A registry holding every stored record as an inactive instance.
    pub fn new(runner_url: String, storage: JsonStorageProvider) -> (r: Self)
        requires
            storage.wf(),
        ensures
            r.wf(),
            r.runner_url() == runner_url@,
            r.store() == storage,
            r.events().len() == 0,
            r.instances().len() == storage.records().len(),
            forall|i: int| 0 <= i < r.instances().len() ==> {
                &&& #[trigger] r.instances()[i].id == storage.records()[i].0
                &&& stored_of(r.instances()[i]) == storage.records()[i].1
                &&& r.instances()[i].status == InstanceStatus::Inactive
                &&& r.instances()[i].last_con is None
            },
    {
        let recs = storage.list_instances();
        let mut instances: Vec<Instance> = Vec::new();
        let mut k: usize = 0;
        while k < recs.len()
            invariant
                0 <= k <= recs@.len(),
                recs@ == storage.records(),
                instances@.len() == k,
                forall|i: int| 0 <= i < k ==> {
                    &&& #[trigger] instances@[i].id == recs@[i].0
                    &&& stored_of(instances@[i]) == recs@[i].1
                    &&& instances@[i].status == InstanceStatus::Inactive
                    &&& instances@[i].last_con is None
                },
            decreases recs.len() - k,
        {
            let rec = &recs[k];
            instances.push(
                Instance {
                    id: rec.0.clone(),
                    name: rec.1.name.clone(),
                    inst_type: rec.1.inst_type.clone(),
                    status: InstanceStatus::Inactive,
                    host_com_token: rec.1.host_com_token.clone(),
                    last_con: None,
                    container_id: clone_opt(&rec.1.container_id),
                },
            );
            k += 1;
        }
        let r = DockerInstanceProvider { instances, storage, runner_url, events: Vec::new() };
        proof {
            assert forall|i: int| 0 <= i < r.instances().len() implies instance_ids(r.instances())[i]
                == record_ids(storage.records())[i] by {
                assert(r.instances()[i].id == storage.records()[i].0);
            }
            assert(instance_ids(r.instances()) =~= record_ids(storage.records()));
            assert forall|i: int| 0 <= i < r.instances().len() implies #[trigger] r.store().records()[i] == (
                r.instances()[i].id,
                stored_of(r.instances()[i]),
            ) by {
                assert(r.instances()[i].id == storage.records()[i].0);
                assert(stored_of(r.instances()[i]) == storage.records()[i].1);
            }
            assert forall|i: int| 0 <= i < r.instances().len() implies (#[trigger] r.instances()[i]).status
                != InstanceStatus::Running by {
                assert(r.instances()[i].id == storage.records()[i].0);
            }
        }
        r
    }

    /// Where `id` stands in the registry, by a scan.
    fn find(&self, id: &String) -> (r: Option<usize>)
        requires
            self.wf(),
        ensures
            match r {
                Some(i) => i < self.instances().len() && self.index(id@) == i,
                None => self.index(id@) == -1,
            },
    {
        let mut i: usize = 0;
        while i < self.instances.len()
            invariant
                0 <= i <= self.instances@.len(),
                unique(instance_ids(self.instances@)),
                forall|j: int| 0 <= j < i ==> self.instances@[j].id@ != id@,
            decreases self.instances.len() - i,
        {
            if self.instances[i].id.eq(id) {
                proof {
                    lemma_find_index(instance_ids(self.instances@), i as int);
                    assert(instance_ids(self.instances@)[i as int] == id@);
                }
                return Some(i);
            }
            i += 1;
        }
        proof {
            let ids = instance_ids(self.instances@);
            lemma_find_index_range(ids, id@);
            if ids.contains(id@) {
                let k = choose|k: int| 0 <= k < ids.len() && ids[k] == id@;
                assert(self.instances@[k].id@ == id@);
            }
        }
        None
    }

    /// Sets the status of the instance at `i` and publishes its new view.
    fn set_status_at(&mut self, i: usize, status: InstanceStatus)
        requires
            old(self).wf(),
            i < old(self).instances().len(),
            status == InstanceStatus::Running ==> old(self).instances()[i as int].container_id is Some,
        ensures
            final(self).wf(),
            Self::status_set(old(self), final(self), i as int, status),
    {
        let mut inst = self.instances[i].clone();
        inst.status = status;
        let ev = GlobalEvent::ModifyInstance { id: inst.id.clone(), instance: to_pub_instance(&inst) };
        self.instances.set(i, inst);
        self.events.push(ev);
        proof {
            assert(instance_ids(self.instances@) =~= instance_ids(old(self).instances@));
            assert forall|j: int| 0 <= j < self.instances@.len() implies #[trigger] self.storage.records()[j] == (
                self.instances@[j].id,
                stored_of(self.instances@[j]),
            ) by {
                assert(old(self).storage.records()[j] == (
                    old(self).instances@[j].id,
                    stored_of(old(self).instances@[j]),
                ));
            }
        }
    }

    /// Sets the container handle of the instance at `i`, in the registry and
    /// in the store.
    fn set_handle_at(&mut self, i: usize, handle: Option<String>)
        requires
            old(self).wf(),
            i < old(self).instances().len(),
            handle is None ==> old(self).instances()[i as int].status != InstanceStatus::Running,
        ensures
            final(self).wf(),
            final(self).instances() == old(self).instances().update(
                i as int,
                with_handle(old(self).instances()[i as int], handle),
            ),
            final(self).store().records() == old(self).store().records().update(
                i as int,
                (old(self).instances()[i as int].id, stored_of(final(self).instances()[i as int])),
            ),
            final(self).store().file_path() == old(self).store().file_path(),
            final(self).events() == old(self).events(),
            final(self).runner_url() == old(self).runner_url(),
    {
        proof {
            self.lemma_ids();
            lemma_find_index(instance_ids(self.instances@), i as int);
        }
        let mut inst = self.instances[i].clone();
        inst.container_id = handle;
        let rec = to_stored(&inst);
        let id = inst.id.clone();
        self.instances.set(i, inst);
        self.storage.new_instance(id, rec);
        proof {
            assert(instance_ids(self.instances@) =~= instance_ids(old(self).instances@));
            assert forall|j: int| 0 <= j < self.instances@.len() implies #[trigger] self.storage.records()[j] == (
                self.instances@[j].id,
                stored_of(self.instances@[j]),
            ) by {
                assert(old(self).storage.records()[j] == (
                    old(self).instances@[j].id,
                    stored_of(old(self).instances@[j]),
                ));
            }
        }
    }

    /// The public view of every instance, with its id.
    pub fn list_instance(&self) -> (r: Vec<(String, PubInstance)>)
        ensures
            r@.len() == self.instances().len(),
            forall|i: int| 0 <= i < r@.len() ==> #[trigger] r@[i] == (
                self.instances()[i].id,
                pub_view(self.instances()[i]),
            ),
    {
        let mut out: Vec<(String, PubInstance)> = Vec::new();
        let mut i: usize = 0;
        while i < self.instances.len()
            invariant
                0 <= i <= self.instances@.len(),
                out@.len() == i,
                forall|j: int| 0 <= j < i ==> #[trigger] out@[j] == (
                    self.instances@[j].id,
                    pub_view(self.instances@[j]),
                ),
            decreases self.instances.len() - i,
        {
            out.push((self.instances[i].id.clone(), to_pub_instance(&self.instances[i])));
            i += 1;
        }
        out
    }

    /// The public view of the instance with id `id`.
    pub fn get_instance(&self, id: &String) -> (r: Option<PubInstance>)
        requires
            self.wf(),
        ensures
            r == match self.lookup(id@) {
                Some(inst) => Some(pub_view(inst)),
                None => None::<PubInstance>,
            },
    {
        match self.find(id) {
            Some(i) => Some(to_pub_instance(&self.instances[i])),
            None => None,
        }
    }

    /// The id of the first instance whose token is `token`.
    pub fn find_token(&self, token: &String) -> (r: Option<String>)
        ensures
            match r {
                Some(id) => exists|i: int|
                    0 <= i < self.instances().len() && #[trigger] self.instances()[i].host_com_token@
                        == token@ && id == self.instances()[i].id && forall|j: int|
                        0 <= j < i ==> self.instances()[j].host_com_token@ != token@,
                None => forall|i: int|
                    0 <= i < self.instances().len() ==> #[trigger] self.instances()[i].host_com_token@
                        != token@,
            },
    {
        let mut i: usize = 0;
        while i < self.instances.len()
            invariant
                0 <= i <= self.instances@.len(),
                forall|j: int| 0 <= j < i ==> self.instances@[j].host_com_token@ != token@,
            decreases self.instances.len() - i,
        {
            if self.instances[i].host_com_token.eq(token) {
                return Some(self.instances[i].id.clone());
            }
            i += 1;
        }
        None
    }

    /// The records of every instance, as the store's file is to hold them.
    pub fn stored_records(&self) -> (r: Vec<(String, StoredInstance)>)
        ensures
            r@ == self.store().records(),
    {
        self.storage.list_instances()
    }

    /// Hands out the notifications published since the last call.
    pub fn take_events(&mut self) -> (r: Vec<GlobalEvent>)
        ensures
            r@ == old(self).events(),
            final(self).events().len() == 0,
            final(self).instances() == old(self).instances(),
            final(self).store() == old(self).store(),
            final(self).runner_url() == old(self).runner_url(),
    {
        let mut out: Vec<GlobalEvent> = Vec::new();
        std::mem::swap(&mut out, &mut self.events);
        out
    }

    /// When the workload of `id` last reported, if the instance exists and
    /// its workload ever did.
    pub fn get_last_con(&self, id: &String) -> (r: Option<i64>)
        requires
            self.wf(),
        ensures
            r == match self.lookup(id@) {
                Some(inst) => inst.last_con,
                None => None::<i64>,
            },
    {
        match self.find(id) {
            Some(i) => self.instances[i].last_con,
            None => None,
        }
    }

    /// Records that the workload of `id` reported at time `at`.
    pub fn record_contact(&mut self, id: &String, at: i64) -> (r: Result<(), Error>)
        requires
            old(self).wf(),
        ensures
            final(self).wf(),
            match r {
                Ok(()) => {
                    let i = old(self).index(id@);
                    &&& i >= 0
                    &&& final(self).instances() == old(self).instances().update(
                        i,
                        Instance { last_con: Some(at), ..old(self).instances()[i] },
                    )
                    &&& final(self).events() == old(self).events()
                    &&& final(self).store() == old(self).store()
                    &&& final(self).runner_url() == old(self).runner_url()
                },
                Err(e) => old(self).index(id@) == -1 && e == Error::InstanceNotFound(*id)
                    && Self::same(old(self), final(self)),
            },
    {
        match self.find(id) {
            Some(i) => {
                let mut inst = self.instances[i].clone();
                inst.last_con = Some(at);
                self.instances.set(i, inst);
                proof {
                    assert(instance_ids(self.instances@) =~= instance_ids(old(self).instances@));
                    assert forall|j: int| 0 <= j < self.instances@.len() implies #[trigger] self.storage.records()[j] == (
                        self.instances@[j].id,
                        stored_of(self.instances@[j]),
                    ) by {
                        assert(old(self).storage.records()[j] == (
                            old(self).instances@[j].id,
                            stored_of(old(self).instances@[j]),
                        ));
                    }
                }
                Ok(())
            },
            None => Err(Error::InstanceNotFound(id.clone())),
        }
    }

    /// Records that the workload of `id` has just reported.
    pub fn set_last_con(&mut self, id: &String) -> (r: Result<(), Error>)
        requires
            old(self).wf(),
        ensures
            final(self).wf(),
            match r {
                Ok(()) => {
                    let i = old(self).index(id@);
                    &&& i >= 0
                    &&& final(self).instances()[i].last_con is Some
                    &&& final(self).instances() == old(self).instances().update(
                        i,
                        Instance { last_con: final(self).instances()[i].last_con, ..old(self).instances()[i] },
                    )
                    &&& final(self).events() == old(self).events()
                    &&& final(self).store() == old(self).store()
                    &&& final(self).runner_url() == old(self).runner_url()
                },
                Err(e) => old(self).index(id@) == -1 && e == Error::InstanceNotFound(*id)
                    && Self::same(old(self), final(self)),
            },
    {
        self.record_contact(id, now_millis())
    }

    /// The ids in use.
    fn ids(&self) -> (r: Vec<String>)
        ensures
            views(r@) == instance_ids(self.instances()),
    {
        let mut out: Vec<String> = Vec::new();
        let mut i: usize = 0;
        while i < self.instances.len()
            invariant
                0 <= i <= self.instances@.len(),
                out@.len() == i,
                forall|j: int| 0 <= j < i ==> #[trigger] out@[j]@ == self.instances@[j].id@,
            decreases self.instances.len() - i,
        {
            out.push(self.instances[i].id.clone());
            i += 1;
        }
        proof {
            assert(views(out@) =~= instance_ids(self.instances@));
        }
        out
    }

    /// The tokens in use.
    fn tokens(&self) -> (r: Vec<String>)
        ensures
            views(r@) == instance_tokens(self.instances()),
    {
        let mut out: Vec<String> = Vec::new();
        let mut i: usize = 0;
        while i < self.instances.len()
            invariant
                0 <= i <= self.instances@.len(),
                out@.len() == i,
                forall|j: int| 0 <= j < i ==> #[trigger] out@[j]@ == self.instances@[j].host_com_token@,
            decreases self.instances.len() - i,
        {
            out.push(self.instances[i].host_com_token.clone());
            i += 1;
        }
        proof {
            assert(views(out@) =~= instance_tokens(self.instances@));
        }
        out
    }

    /// Adds an inactive instance without a container under id `id`, with
    /// token `token`, and stores its record.
    pub fn insert_instance(&mut self, id: String, token: String, inst: InstanceRequest)
        requires
            old(self).wf(),
            !instance_ids(old(self).instances()).contains(id@),
        ensures
            final(self).wf(),
            ({
                let n = Instance {
                    id,
                    name: inst.name,
                    inst_type: inst.inst_type,
                    status: InstanceStatus::Inactive,
                    host_com_token: token,
                    last_con: None,
                    container_id: None,
                };
                &&& final(self).instances() == old(self).instances().push(n)
                &&& final(self).store().records() == old(self).store().records().push((id, stored_of(n)))
                &&& final(self).store().file_path() == old(self).store().file_path()
                &&& final(self).events() == old(self).events().push(modified(n))
                &&& final(self).runner_url() == old(self).runner_url()
            }),
    {
        let new_inst = Instance {
            id: id.clone(),
            name: inst.name,
            inst_type: inst.inst_type,
            status: InstanceStatus::Inactive,
            host_com_token: token,
            last_con: None,
            container_id: None,
        };
        let rec = to_stored(&new_inst);
        let ev = GlobalEvent::ModifyInstance { id: id.clone(), instance: to_pub_instance(&new_inst) };
        proof {
            self.lemma_ids();
            lemma_find_index_range(record_ids(self.storage.records()), id@);
        }
        self.instances.push(new_inst);
        self.storage.new_instance(id, rec);
        self.events.push(ev);
        proof {
            assert(instance_ids(self.instances@) =~= instance_ids(old(self).instances@).push(id@));
            lemma_unique_push(instance_ids(old(self).instances@), id@);
            assert forall|j: int| 0 <= j < self.instances@.len() implies #[trigger] self.storage.records()[j] == (
                self.instances@[j].id,
                stored_of(self.instances@[j]),
            ) by {
                if j < old(self).instances@.len() {
                    assert(old(self).storage.records()[j] == (
                        old(self).instances@[j].id,
                        stored_of(old(self).instances@[j]),
                    ));
                }
            }
            assert forall|j: int| 0 <= j < self.instances@.len() && (#[trigger] self.instances@[j]).status
                == InstanceStatus::Running implies self.instances@[j].container_id is Some by {
                if j < old(self).instances@.len() {
                    assert(old(self).instances@[j] == self.instances@[j]);
                }
            }
        }
    }

    /// Creates an inactive instance without a container, under a fresh random
    /// id and with a fresh random token, and stores its record; its id.
    pub fn new_instance(&mut self, inst: InstanceRequest) -> (r: Result<String, Error>)
        requires
            old(self).wf(),
        ensures
            final(self).wf(),
            match r {
                Ok(id) => {
                    let n = final(self).instances().last();
                    &&& !instance_ids(old(self).instances()).contains(id@)
                    &&& !instance_tokens(old(self).instances()).contains(n.host_com_token@)
                    &&& crate::ids::is_uuid_v4_text(id@)
                    &&& n.host_com_token@.len() == crate::ids::TOKEN_LEN
                    &&& n == Instance {
                        id,
                        name: inst.name,
                        inst_type: inst.inst_type,
                        status: InstanceStatus::Inactive,
                        host_com_token: n.host_com_token,
                        last_con: None,
                        container_id: None,
                    }
                    &&& final(self).instances() == old(self).instances().push(n)
                    &&& final(self).store().records() == old(self).store().records().push((id, stored_of(n)))
                    &&& final(self).store().file_path() == old(self).store().file_path()
                    &&& final(self).events() == old(self).events().push(modified(n))
                    &&& final(self).runner_url() == old(self).runner_url()
                },
                Err(e) => e == Error::ExhaustedUniqueIds && Self::same(old(self), final(self)),
            },
            (forall|i: int|
                0 <= i < old(self).instances().len() ==> (#[trigger] old(self).instances()[i]).id@.len()
                    != 36 && old(self).instances()[i].host_com_token@.len() != crate::ids::TOKEN_LEN)
                ==> r is Ok,
    {
        let ids = self.ids();
        let tokens = self.tokens();
        proof {
            if forall|i: int|
                0 <= i < self.instances@.len() ==> (#[trigger] self.instances@[i]).id@.len() != 36
                    && self.instances@[i].host_com_token@.len() != crate::ids::TOKEN_LEN {
                assert forall|i: int| 0 <= i < ids@.len() implies (#[trigger] ids@[i])@.len() != 36 by {
                    assert(views(ids@).len() == ids@.len());
                    assert(instance_ids(self.instances@).len() == self.instances@.len());
                    assert(views(ids@)[i] == instance_ids(self.instances@)[i]);
                    let inst = self.instances@[i];
                    assert(inst.id@.len() != 36);
                }
                assert forall|i: int| 0 <= i < tokens@.len() implies (#[trigger] tokens@[i])@.len()
                    != crate::ids::TOKEN_LEN by {
                    assert(views(tokens@).len() == tokens@.len());
                    assert(instance_tokens(self.instances@).len() == self.instances@.len());
                    assert(views(tokens@)[i] == instance_tokens(self.instances@)[i]);
                    let inst = self.instances@[i];
                    assert(inst.host_com_token@.len() != crate::ids::TOKEN_LEN);
                }
            }
        }
        let id = match unique_id(ids) {
            Ok(id) => id,
            Err(e) => return Err(e),
        };
        let token = match unique_token(tokens) {
            Ok(t) => t,
            Err(e) => return Err(e),
        };
        self.insert_instance(id.clone(), token, inst);
        Ok(id)
    }

    /// Stops the instance `id`: `Stopping` unless it is already inactive, then
    /// `Inactive`, whether or not it has a container. Where it has one, the
    /// command for its workload to shut down is handed back for sending.
    pub fn stop_instance(&mut self, id: &String) -> (r: Result<Option<HostEvent>, Error>)
        requires
            old(self).wf(),
        ensures
            final(self).wf(),
            match r {
                Ok(cmd) => {
                    let i = old(self).index(id@);
                    let before = old(self).instances()[i];
                    let after = with_status(before, InstanceStatus::Inactive);
                    &&& i >= 0
                    &&& final(self).instances() == stop_result(old(self).instances(), i)
                    &&& final(self).events() == if before.status == InstanceStatus::Inactive {
                        old(self).events().push(modified(after))
                    } else {
                        old(self).events().push(modified(with_status(before, InstanceStatus::Stopping))).push(
                            modified(after),
                        )
                    }
                    &&& final(self).store() == old(self).store()
                    &&& final(self).runner_url() == old(self).runner_url()
                    &&& cmd == if before.container_id is Some {
                        Some(HostEvent::Stop)
                    } else {
                        None::<HostEvent>
                    }
                },
                Err(e) => old(self).index(id@) == -1 && e == Error::InstanceNotFound(*id)
                    && Self::same(old(self), final(self)),
            },
    {
        let i = match self.find(id) {
            Some(i) => i,
            None => return Err(Error::InstanceNotFound(id.clone())),
        };
        if self.instances[i].status != InstanceStatus::Inactive {
            self.set_status_at(i, InstanceStatus::Stopping);
        }
        let cmd = if self.instances[i].container_id.is_some() {
            Some(HostEvent::Stop)
        } else {
            None
        };
        self.set_status_at(i, InstanceStatus::Inactive);
        proof {
            let before = old(self).instances()[i as int];
            assert(with_status(with_status(before, InstanceStatus::Stopping), InstanceStatus::Inactive)
                == with_status(before, InstanceStatus::Inactive));
        }
        Ok(cmd)
    }

    /// The request to create a container for the instance at `i`.
    fn create_step(&self, i: usize) -> (r: StartStep)
        requires
            i < self.instances().len(),
        ensures
            is_create_for(r, self.instances()[i as int], self.runner_url()),
    {
        let mut token = String::from_str("TOKEN=");
        token.append(self.instances[i].host_com_token.as_str());
        let mut url = String::from_str("RUNNER_URL=");
        url.append(self.runner_url.as_str());
        let mut env: Vec<String> = Vec::new();
        env.push(token);
        env.push(url);
        StartStep::Create { name: new_container_name(), image: String::from_str(HOST_IMAGE), env }
    }

    /// Begins starting the instance `id`: it becomes `Starting`, and its
    /// container is inspected, or created where it has none.
    pub fn start_instance(&mut self, id: &String) -> (r: StartStep)
        requires
            old(self).wf(),
        ensures
            final(self).wf(),
            ({
                let i = old(self).index(id@);
                if i >= 0 {
                    &&& Self::status_set(old(self), final(self), i, InstanceStatus::Starting)
                    &&& match old(self).instances()[i].container_id {
                        Some(h) => r == StartStep::Inspect { handle: h, created: false },
                        None => is_create_for(r, old(self).instances()[i], old(self).runner_url()),
                    }
                } else {
                    r == StartStep::Failed(Error::InstanceNotFound(*id)) && Self::same(old(self), final(self))
                }
            }),
    {
        let i = match self.find(id) {
            Some(i) => i,
            None => return StartStep::Failed(Error::InstanceNotFound(id.clone())),
        };
        self.set_status_at(i, InstanceStatus::Starting);
        match &self.instances[i].container_id {
            Some(h) => StartStep::Inspect { handle: h.clone(), created: false },
            None => self.create_step(i),
        }
    }

    /// Continues a start after the container was inspected: `inspected` is
    /// the handle the runtime reports, or the error of the inspection. A
    /// container that cannot be inspected is created, unless this operation
    /// created it already.
    pub fn start_inspected(&mut self, id: &String, created: bool, inspected: Result<Option<String>, Error>) -> (r: StartStep)
        requires
            old(self).wf(),
        ensures
            final(self).wf(),
            ({
                let i = old(self).index(id@);
                if i >= 0 {
                    match inspected {
                        Ok(Some(c)) => r == StartStep::Start(c) && Self::same(old(self), final(self)),
                        Ok(None) => r == StartStep::Failed(Error::ContainerIdNotFound)
                            && Self::status_set(old(self), final(self), i, InstanceStatus::Inactive),
                        Err(_) => if created {
                            r == StartStep::Failed(Error::ContainerIdNotFound)
                                && Self::status_set(old(self), final(self), i, InstanceStatus::Inactive)
                        } else {
                            is_create_for(r, old(self).instances()[i], old(self).runner_url())
                                && Self::same(old(self), final(self))
                        },
                    }
                } else {
                    r == StartStep::Failed(Error::InstanceNotFound(*id)) && Self::same(old(self), final(self))
                }
            }),
    {
        let i = match self.find(id) {
            Some(i) => i,
            None => return StartStep::Failed(Error::InstanceNotFound(id.clone())),
        };
        match inspected {
            Ok(Some(c)) => StartStep::Start(c),
            Ok(None) => {
                self.set_status_at(i, InstanceStatus::Inactive);
                StartStep::Failed(Error::ContainerIdNotFound)
            },
            Err(_) => {
                if created {
                    self.set_status_at(i, InstanceStatus::Inactive);
                    StartStep::Failed(Error::ContainerIdNotFound)
                } else {
                    self.create_step(i)
                }
            },
        }
    }

    /// Continues a start after the runtime was asked to create a container:
    /// its handle is recorded and stored, or the start fails with the
    /// runtime's error.
    pub fn start_created(&mut self, id: &String, created: Result<String, Error>) -> (r: StartStep)
        requires
            old(self).wf(),
        ensures
            final(self).wf(),
            ({
                let i = old(self).index(id@);
                if i >= 0 {
                    match created {
                        Ok(h) => {
                            &&& final(self).instances() == old(self).instances().update(
                                i,
                                with_handle(old(self).instances()[i], Some(h)),
                            )
                            &&& final(self).store().records() == old(self).store().records().update(
                                i,
                                (old(self).instances()[i].id, stored_of(final(self).instances()[i])),
                            )
                            &&& final(self).store().file_path() == old(self).store().file_path()
                            &&& final(self).events() == old(self).events()
                            &&& final(self).runner_url() == old(self).runner_url()
                            &&& r matches StartStep::Persist(recs) && recs@ == final(self).store().records()
                        },
                        Err(e) => r == StartStep::Failed(e)
                            && Self::status_set(old(self), final(self), i, InstanceStatus::Inactive),
                    }
                } else {
                    r == StartStep::Failed(Error::InstanceNotFound(*id)) && Self::same(old(self), final(self))
                }
            }),
    {
        let i = match self.find(id) {
            Some(i) => i,
            None => return StartStep::Failed(Error::InstanceNotFound(id.clone())),
        };
        match created {
            Ok(h) => {
                self.set_handle_at(i, Some(h));
                StartStep::Persist(self.storage.list_instances())
            },
            Err(e) => {
                self.set_status_at(i, InstanceStatus::Inactive);
                StartStep::Failed(e)
            },
        }
    }

    /// Continues a start after the store's file was rewritten: the new
    /// container is inspected again.
    pub fn start_saved(&mut self, id: &String, saved: Result<(), storage::Error>) -> (r: StartStep)
        requires
            old(self).wf(),
        ensures
            final(self).wf(),
            ({
                let i = old(self).index(id@);
                if i >= 0 {
                    match saved {
                        Ok(()) => match old(self).instances()[i].container_id {
                            Some(h) => r == StartStep::Inspect { handle: h, created: true }
                                && Self::same(old(self), final(self)),
                            None => r == StartStep::Failed(Error::ContainerIdNotFound)
                                && Self::status_set(old(self), final(self), i, InstanceStatus::Inactive),
                        },
                        Err(e) => r == StartStep::Failed(Error::Storage(e))
                            && Self::status_set(old(self), final(self), i, InstanceStatus::Inactive),
                    }
                } else {
                    r == StartStep::Failed(Error::InstanceNotFound(*id)) && Self::same(old(self), final(self))
                }
            }),
    {
        let i = match self.find(id) {
            Some(i) => i,
            None => return StartStep::Failed(Error::InstanceNotFound(id.clone())),
        };
        match saved {
            Ok(()) => match &self.instances[i].container_id {
                Some(h) => StartStep::Inspect { handle: h.clone(), created: true },
                None => {
                    self.set_status_at(i, InstanceStatus::Inactive);
                    StartStep::Failed(Error::ContainerIdNotFound)
                },
            },
            Err(e) => {
                self.set_status_at(i, InstanceStatus::Inactive);
                StartStep::Failed(Error::Storage(e))
            },
        }
    }

    /// Ends a start after the runtime was asked to start container `handle`:
    /// the instance runs only where the runtime started it and it is still the
    /// instance's container; otherwise it is back to `Inactive`.
    pub fn start_started(&mut self, id: &String, handle: &String, started: Result<(), Error>) -> (r: StartStep)
        requires
            old(self).wf(),
        ensures
            final(self).wf(),
            ({
                let i = old(self).index(id@);
                if i >= 0 {
                    let h = old(self).instances()[i].container_id;
                    match started {
                        Ok(()) => if h is Some && h->Some_0@ == handle@ {
                            r == StartStep::Done
                                && Self::status_set(old(self), final(self), i, InstanceStatus::Running)
                        } else {
                            r == StartStep::Failed(Error::ContainerIdNotFound)
                                && Self::status_set(old(self), final(self), i, InstanceStatus::Inactive)
                        },
                        Err(e) => r == StartStep::Failed(e)
                            && Self::status_set(old(self), final(self), i, InstanceStatus::Inactive),
                    }
                } else {
                    r == StartStep::Failed(Error::InstanceNotFound(*id)) && Self::same(old(self), final(self))
                }
            }),
    {
        let i = match self.find(id) {
            Some(i) => i,
            None => return StartStep::Failed(Error::InstanceNotFound(id.clone())),
        };
        match started {
            Ok(()) => {
                let ours = match &self.instances[i].container_id {
                    Some(h) => h.eq(handle),
                    None => false,
                };
                if ours {
                    self.set_status_at(i, InstanceStatus::Running);
                    StartStep::Done
                } else {
                    self.set_status_at(i, InstanceStatus::Inactive);
                    StartStep::Failed(Error::ContainerIdNotFound)
                }
            },
            Err(e) => {
                self.set_status_at(i, InstanceStatus::Inactive);
                StartStep::Failed(e)
            },
        }
    }

    /// The stored records but that of the instance at `i`.
    fn records_without(&self, i: usize) -> (r: Vec<(String, StoredInstance)>)
        requires
            self.wf(),
            i < self.instances().len(),
        ensures
            r@ == self.store().records().remove(i as int),
    {
        let mut recs = self.storage.list_instances();
        recs.remove(i);
        recs
    }

    /// Begins deleting the instance `id`: it becomes `Deleting` at once. Its
    /// container, if any, is inspected; without one the store is rewritten
    /// without it.
    pub fn del_instance(&mut self, id: &String) -> (r: Result<DeleteStep, Error>)
        requires
            old(self).wf(),
        ensures
            final(self).wf(),
            ({
                let i = old(self).index(id@);
                if i >= 0 {
                    &&& Self::status_set(old(self), final(self), i, InstanceStatus::Deleting)
                    &&& match old(self).instances()[i].container_id {
                        Some(h) => r == Ok::<DeleteStep, Error>(DeleteStep::Inspect(h)),
                        None => r matches Ok(DeleteStep::Persist(recs))
                            && recs@ == old(self).store().records().remove(i),
                    }
                } else {
                    r == Err::<DeleteStep, Error>(Error::InstanceNotFound(*id)) && Self::same(old(self), final(self))
                }
            }),
    {
        let i = match self.find(id) {
            Some(i) => i,
            None => return Err(Error::InstanceNotFound(id.clone())),
        };
        self.set_status_at(i, InstanceStatus::Deleting);
        match &self.instances[i].container_id {
            Some(h) => Ok(DeleteStep::Inspect(h.clone())),
            None => Ok(DeleteStep::Persist(self.records_without(i))),
        }
    }

    /// Continues a delete after the container was inspected: `inspected` is
    /// whether it runs, as far as the runtime reports a state. A running
    /// container is stopped first.
    pub fn delete_inspected(&mut self, id: &String, inspected: Result<Option<bool>, Error>) -> (r: DeleteStep)
        requires
            old(self).wf(),
        ensures
            final(self).wf(),
            ({
                let i = old(self).index(id@);
                if i >= 0 {
                    match old(self).instances()[i].container_id {
                        Some(h) => match inspected {
                            Ok(Some(true)) => r == DeleteStep::Stop(h) && Self::same(old(self), final(self)),
                            Ok(Some(false)) => r == DeleteStep::Remove(h) && Self::same(old(self), final(self)),
                            Ok(None) => r == DeleteStep::Failed(Error::NoContainerState)
                                && Self::status_set(old(self), final(self), i, InstanceStatus::Inactive),
                            Err(e) => r == DeleteStep::Failed(e)
                                && Self::status_set(old(self), final(self), i, InstanceStatus::Inactive),
                        },
                        None => r == DeleteStep::Failed(Error::ContainerIdNotFound)
                            && Self::status_set(old(self), final(self), i, InstanceStatus::Inactive),
                    }
                } else {
                    r == DeleteStep::Failed(Error::InstanceNotFound(*id)) && Self::same(old(self), final(self))
                }
            }),
    {
        let i = match self.find(id) {
            Some(i) => i,
            None => return DeleteStep::Failed(Error::InstanceNotFound(id.clone())),
        };
        let h = match &self.instances[i].container_id {
            Some(h) => h.clone(),
            None => {
                self.set_status_at(i, InstanceStatus::Inactive);
                return DeleteStep::Failed(Error::ContainerIdNotFound);
            },
        };
        match inspected {
            Ok(Some(running)) => if running {
                DeleteStep::Stop(h)
            } else {
                DeleteStep::Remove(h)
            },
            Ok(None) => {
                self.set_status_at(i, InstanceStatus::Inactive);
                DeleteStep::Failed(Error::NoContainerState)
            },
            Err(e) => {
                self.set_status_at(i, InstanceStatus::Inactive);
                DeleteStep::Failed(e)
            },
        }
    }

    /// Continues a delete after the runtime was asked to stop the container.
    pub fn delete_stopped(&mut self, id: &String, stopped: Result<(), Error>) -> (r: DeleteStep)
        requires
            old(self).wf(),
        ensures
            final(self).wf(),
            ({
                let i = old(self).index(id@);
                if i >= 0 {
                    match old(self).instances()[i].container_id {
                        Some(h) => match stopped {
                            Ok(()) => r == DeleteStep::Remove(h) && Self::same(old(self), final(self)),
                            Err(e) => r == DeleteStep::Failed(e)
                                && Self::status_set(old(self), final(self), i, InstanceStatus::Inactive),
                        },
                        None => r == DeleteStep::Failed(Error::ContainerIdNotFound)
                            && Self::status_set(old(self), final(self), i, InstanceStatus::Inactive),
                    }
                } else {
                    r == DeleteStep::Failed(Error::InstanceNotFound(*id)) && Self::same(old(self), final(self))
                }
            }),
    {
        let i = match self.find(id) {
            Some(i) => i,
            None => return DeleteStep::Failed(Error::InstanceNotFound(id.clone())),
        };
        let h = match &self.instances[i].container_id {
            Some(h) => h.clone(),
            None => {
                self.set_status_at(i, InstanceStatus::Inactive);
                return DeleteStep::Failed(Error::ContainerIdNotFound);
            },
        };
        match stopped {
            Ok(()) => DeleteStep::Remove(h),
            Err(e) => {
                self.set_status_at(i, InstanceStatus::Inactive);
                DeleteStep::Failed(e)
            },
        }
    }

    /// Continues a delete after the runtime was asked to remove the
    /// container: the handle is cleared, and the store is rewritten without
    /// the instance. An instance found running meanwhile is marked
    /// `Deleting` again, since it no longer has a container.
    pub fn delete_removed(&mut self, id: &String, removed: Result<(), Error>) -> (r: DeleteStep)
        requires
            old(self).wf(),
        ensures
            final(self).wf(),
            ({
                let i = old(self).index(id@);
                if i >= 0 {
                    let before = old(self).instances()[i];
                    let mid = if before.status == InstanceStatus::Running {
                        with_status(before, InstanceStatus::Deleting)
                    } else {
                        before
                    };
                    match removed {
                        Ok(()) => {
                            &&& final(self).instances() == old(self).instances().update(i, with_handle(mid, None))
                            &&& final(self).events() == if before.status == InstanceStatus::Running {
                                old(self).events().push(modified(mid))
                            } else {
                                old(self).events()
                            }
                            &&& final(self).store().records() == old(self).store().records().update(
                                i,
                                (before.id, stored_of(final(self).instances()[i])),
                            )
                            &&& final(self).store().file_path() == old(self).store().file_path()
                            &&& final(self).runner_url() == old(self).runner_url()
                            &&& r matches DeleteStep::Persist(recs)
                                && recs@ == final(self).store().records().remove(i)
                        },
                        Err(e) => r == DeleteStep::Failed(e)
                            && Self::status_set(old(self), final(self), i, InstanceStatus::Inactive),
                    }
                } else {
                    r == DeleteStep::Failed(Error::InstanceNotFound(*id)) && Self::same(old(self), final(self))
                }
            }),
    {
        let i = match self.find(id) {
            Some(i) => i,
            None => return DeleteStep::Failed(Error::InstanceNotFound(id.clone())),
        };
        match removed {
            Ok(()) => {
                if self.instances[i].status == InstanceStatus::Running {
                    self.set_status_at(i, InstanceStatus::Deleting);
                }
                self.set_handle_at(i, None);
                DeleteStep::Persist(self.records_without(i))
            },
            Err(e) => {
                self.set_status_at(i, InstanceStatus::Inactive);
                DeleteStep::Failed(e)
            },
        }
    }

    /// Ends a delete after the store's file was rewritten without the
    /// instance: it leaves the registry and the store, and its deletion is
    /// published.
    pub fn delete_persisted(&mut self, id: &String, persisted: Result<(), storage::Error>) -> (r: DeleteStep)
        requires
            old(self).wf(),
        ensures
            final(self).wf(),
            ({
                let i = old(self).index(id@);
                if i >= 0 {
                    match persisted {
                        Ok(()) => {
                            &&& r == DeleteStep::Done
                            &&& final(self).instances() == old(self).instances().remove(i)
                            &&& final(self).store().records() == old(self).store().records().remove(i)
                            &&& final(self).store().file_path() == old(self).store().file_path()
                            &&& final(self).events() == old(self).events().push(
                                GlobalEvent::DeleteInstance { id: old(self).instances()[i].id },
                            )
                            &&& final(self).runner_url() == old(self).runner_url()
                        },
                        Err(e) => r == DeleteStep::Failed(Error::Storage(e))
                            && Self::status_set(old(self), final(self), i, InstanceStatus::Inactive),
                    }
                } else {
                    r == DeleteStep::Failed(Error::InstanceNotFound(*id)) && Self::same(old(self), final(self))
                }
            }),
    {
        let i = match self.find(id) {
            Some(i) => i,
            None => return DeleteStep::Failed(Error::InstanceNotFound(id.clone())),
        };
        match persisted {
            Ok(()) => {
                proof {
                    self.lemma_ids();
                    lemma_find_index(instance_ids(self.instances@), i as int);
                }
                let gone = self.instances.remove(i);
                let found = self.storage.del_instance(&gone.id);
                self.events.push(GlobalEvent::DeleteInstance { id: gone.id });
                proof {
                    assert(found);
                    assert(instance_ids(self.instances@) =~= instance_ids(old(self).instances@).remove(i as int));
                    lemma_unique_remove(instance_ids(old(self).instances@), i as int);
                    assert forall|j: int| 0 <= j < self.instances@.len() implies #[trigger] self.storage.records()[j] == (
                        self.instances@[j].id,
                        stored_of(self.instances@[j]),
                    ) by {
                        let oj = if j < i { j } else { j + 1 };
                        assert(old(self).storage.records()[oj] == (
                            old(self).instances@[oj].id,
                            stored_of(old(self).instances@[oj]),
                        ));
                    }
                    assert forall|j: int| 0 <= j < self.instances@.len() && (#[trigger] self.instances@[j]).status
                        == InstanceStatus::Running implies self.instances@[j].container_id is Some by {
                        let oj = if j < i { j } else { j + 1 };
                        assert(old(self).instances@[oj] == self.instances@[j]);
                    }
                }
                DeleteStep::Done
            },
            Err(e) => {
                self.set_status_at(i, InstanceStatus::Inactive);
                DeleteStep::Failed(Error::Storage(e))
            },
        }
    }

    /// The instance at `i` still has container `handle`.
    pub open spec fn holds_container(&self, i: int, handle: Seq<char>) -> bool {
        &&& 0 <= i < self.instances().len()
        &&& self.instances()[i].container_id is Some
        &&& self.instances()[i].container_id->Some_0@ == handle
    }

    /// `t` is the id and the container handle of one of the instances.
    pub open spec fn is_target(&self, t: (String, String)) -> bool {
        exists|i: int|
            0 <= i < self.instances().len() && t.0 == self.instances()[i].id
                && self.instances()[i].container_id == Some(t.1)
    }

    /// The id and container handle of every instance that has a container,
    /// in registry order: what one reconciliation sweep checks.
    pub fn reconcile_targets(&self) -> (r: Vec<(String, String)>)
        ensures
            forall|k: int| 0 <= k < r@.len() ==> self.is_target(#[trigger] r@[k]),
            forall|i: int|
                0 <= i < self.instances().len() && (#[trigger] self.instances()[i]).container_id is Some
                    ==> r@.contains((self.instances()[i].id, self.instances()[i].container_id->Some_0)),
    {
        let mut out: Vec<(String, String)> = Vec::new();
        let mut i: usize = 0;
        while i < self.instances.len()
            invariant
                0 <= i <= self.instances@.len(),
                forall|k: int| 0 <= k < out@.len() ==> self.is_target(#[trigger] out@[k]),
                forall|j: int|
                    0 <= j < i && (#[trigger] self.instances@[j]).container_id is Some ==> out@.contains(
                        (self.instances@[j].id, self.instances@[j].container_id->Some_0),
                    ),
            decreases self.instances.len() - i,
        {
            match &self.instances[i].container_id {
                Some(h) => {
                    let ghost before = out@;
                    let t = (self.instances[i].id.clone(), h.clone());
                    proof {
                        assert(self.is_target(t));
                    }
                    out.push(t);
                    proof {
                        assert forall|k: int| 0 <= k < out@.len() implies self.is_target(#[trigger] out@[k]) by {
                            if k < before.len() {
                                assert(out@[k] == before[k]);
                            }
                        }
                        assert forall|j: int|
                            0 <= j <= i && (#[trigger] self.instances@[j]).container_id is Some implies out@.contains(
                                (self.instances@[j].id, self.instances@[j].container_id->Some_0),
                            ) by {
                            let e = (self.instances@[j].id, self.instances@[j].container_id->Some_0);
                            if j < i {
                                let k = choose|k: int| 0 <= k < before.len() && before[k] == e;
                                assert(out@[k] == e);
                            } else {
                                assert(out@[before.len() as int] == e);
                            }
                        }
                    }
                },
                None => {},
            }
            i += 1;
        }
        out
    }

    /// Reconciles instance `id` with the containers that the runtime lists.
    /// Where its container `handle` is no longer listed, it was destroyed
    /// outside: the handle is cleared, the instance becomes `Inactive`, and
    /// the store is rewritten. Where it is listed, it is inspected. An
    /// instance that is gone or has another container meanwhile is left alone.
    pub fn reconcile_listed(&mut self, id: &String, handle: &String, listed: &Vec<String>) -> (r: ReconcileStep)
        requires
            old(self).wf(),
        ensures
            final(self).wf(),
            ({
                let i = old(self).index(id@);
                if i >= 0 && old(self).holds_container(i, handle@) {
                    if views(listed@).contains(handle@) {
                        r == ReconcileStep::Inspect(*handle) && Self::same(old(self), final(self))
                    } else {
                        let after = with_handle(with_status(old(self).instances()[i], InstanceStatus::Inactive), None);
                        &&& final(self).instances() == old(self).instances().update(i, after)
                        &&& final(self).events() == old(self).events().push(modified(after))
                        &&& final(self).store().records() == old(self).store().records().update(
                            i,
                            (after.id, stored_of(after)),
                        )
                        &&& final(self).store().file_path() == old(self).store().file_path()
                        &&& final(self).runner_url() == old(self).runner_url()
                        &&& r matches ReconcileStep::Persist(recs) && recs@ == final(self).store().records()
                    }
                } else {
                    r == ReconcileStep::Done && Self::same(old(self), final(self))
                }
            }),
    {
        let i = match self.find(id) {
            Some(i) => i,
            None => return ReconcileStep::Done,
        };
        let current = match &self.instances[i].container_id {
            Some(h) => h.eq(handle),
            None => false,
        };
        if !current {
            return ReconcileStep::Done;
        }
        if crate::ids::contains_str(listed, handle) {
            return ReconcileStep::Inspect(handle.clone());
        }
        self.set_status_at(i, InstanceStatus::Inactive);
        self.set_handle_at(i, None);
        ReconcileStep::Persist(self.storage.list_instances())
    }

    /// `new` is `old` after the status of instance `id` was corrected by what
    /// inspecting its container `handle` reported.
    pub open spec fn reconciled(
        old: &Self,
        new: &Self,
        id: Seq<char>,
        handle: Seq<char>,
        running: Option<bool>,
    ) -> bool {
        let i = old.index(id);
        let st = old.instances()[i].status;
        let runs = running == Some(true);
        if i >= 0 && old.holds_container(i, handle) {
            if runs && st == InstanceStatus::Inactive {
                Self::status_set(old, new, i, InstanceStatus::Running)
            } else if !runs && st == InstanceStatus::Running {
                Self::status_set(old, new, i, InstanceStatus::Inactive)
            } else {
                Self::same(old, new)
            }
        } else {
            Self::same(old, new)
        }
    }

    /// Corrects the status of instance `id` by what inspecting its container
    /// `handle` reported: an inactive instance whose container runs becomes
    /// `Running`, a running one whose container does not becomes `Inactive`.
    /// Other statuses, belonging to operations under way, are left alone.
    pub fn reconcile_inspected(&mut self, id: &String, handle: &String, running: Option<bool>)
        requires
            old(self).wf(),
        ensures
            final(self).wf(),
            Self::reconciled(old(self), final(self), id@, handle@, running),
            ({
                let i = old(self).index(id@);
                let st = old(self).instances()[i].status;
                i >= 0 && old(self).holds_container(i, handle@) && (st == InstanceStatus::Inactive || st
                    == InstanceStatus::Running) ==> (final(self).instances()[i].status
                    == InstanceStatus::Running <==> running == Some(true))
            }),
    {
        let i = match self.find(id) {
            Some(i) => i,
            None => return,
        };
        let current = match &self.instances[i].container_id {
            Some(h) => h.eq(handle),
            None => false,
        };
        if !current {
            return;
        }
        let runs = match running {
            Some(b) => b,
            None => false,
        };
        if runs && self.instances[i].status == InstanceStatus::Inactive {
            self.set_status_at(i, InstanceStatus::Running);
        } else if !runs && self.instances[i].status == InstanceStatus::Running {
            self.set_status_at(i, InstanceStatus::Inactive);
        }
    }
}

/// A running instance has a container: every operation keeps the registry
/// well formed, and a well-formed registry holds no running instance without
/// one.
pub proof fn lemma_running_has_container(p: &DockerInstanceProvider, id: Seq<char>)
    requires
        p.wf(),
        p.lookup(id) is Some,
        p.lookup(id)->Some_0.status == InstanceStatus::Running,
    ensures
        p.lookup(id)->Some_0.container_id is Some,
{
    lemma_find_index_range(instance_ids(p.instances()), id);
    let i = p.index(id);
    assert(p.instances()[i].status == InstanceStatus::Running);
}

/// Reconciling an inactive or running instance against its container leaves
/// it running exactly when the runtime reported the container running.
pub proof fn lemma_reconciled_status(
    old: &DockerInstanceProvider,
    new: &DockerInstanceProvider,
    id: Seq<char>,
    handle: Seq<char>,
    running: Option<bool>,
)
    requires
        old.wf(),
        old.index(id) >= 0,
        old.holds_container(old.index(id), handle),
        old.lookup(id)->Some_0.status == InstanceStatus::Inactive || old.lookup(id)->Some_0.status
            == InstanceStatus::Running,
        DockerInstanceProvider::reconciled(old, new, id, handle, running),
    ensures
        new.lookup(id) is Some,
        new.lookup(id)->Some_0.status == InstanceStatus::Running <==> running == Some(true),
        new.lookup(id)->Some_0.container_id == old.lookup(id)->Some_0.container_id,
{
    let i = old.index(id);
    assert(instance_ids(new.instances()) =~= instance_ids(old.instances()));
}

/// Stopping is idempotent: a second stop changes nothing, an instance that
/// is already inactive stays as it is, and the instance keeps its place, so
/// that a repeated stop finds it again.
pub proof fn lemma_stop_idempotent(insts: Seq<Instance>, i: int)
    requires
        0 <= i < insts.len(),
    ensures
        stop_result(stop_result(insts, i), i) == stop_result(insts, i),
        stop_result(insts, i)[i].status == InstanceStatus::Inactive,
        insts[i].status == InstanceStatus::Inactive ==> stop_result(insts, i) == insts,
        instance_ids(stop_result(insts, i)) == instance_ids(insts),
{
    assert(stop_result(stop_result(insts, i), i) =~= stop_result(insts, i));
    if insts[i].status == InstanceStatus::Inactive {
        assert(stop_result(insts, i) =~= insts);
    }
    assert(instance_ids(stop_result(insts, i)) =~= instance_ids(insts));
}

/// A delete that fails at any step, the removal of the container included,
/// leaves the instance in the registry and in the store, `Inactive`.
pub proof fn lemma_failed_delete_keeps_instance(
    old: &DockerInstanceProvider,
    new: &DockerInstanceProvider,
    id: Seq<char>,
)
    requires
        old.wf(),
        new.wf(),
        old.index(id) >= 0,
        DockerInstanceProvider::status_set(old, new, old.index(id), InstanceStatus::Inactive),
    ensures
        new.lookup(id) == Some(with_status(old.lookup(id)->Some_0, InstanceStatus::Inactive)),
        new.store().lookup(id) == Some(stored_of(old.lookup(id)->Some_0)),
{
    let i = old.index(id);
    assert(instance_ids(new.instances()) =~= instance_ids(old.instances()));
    new.lemma_ids();
    assert(new.store().records()[i] == (new.instances()[i].id, stored_of(new.instances()[i])));
}

} // verus!
