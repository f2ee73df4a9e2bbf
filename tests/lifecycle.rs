use volkanic_runner::config::Config;
use volkanic_runner::global_event::GlobalEvent;
use volkanic_runner::instance::{Error, HostEvent, InstanceRequest, InstanceStatus, InstanceType, VolkanicSource};
use volkanic_runner::provider::{DeleteStep, DockerInstanceProvider, ReconcileStep, StartStep};
use volkanic_runner::storage::JsonStorageProvider;

fn provider() -> DockerInstanceProvider {
    let mut cfg = Config::default();
    cfg.storage.path = Some("instances.json".to_string());
    let store = JsonStorageProvider::new(cfg).unwrap();
    DockerInstanceProvider::new("http://host.docker.internal:8080".to_string(), store)
}

fn request(name: &str) -> InstanceRequest {
    InstanceRequest {
        name: name.to_string(),
        inst_type: InstanceType::Volkanic { source: VolkanicSource::Base64("dGVzdA==".to_string()) },
    }
}

/// A container runtime that records what it was asked.
#[derive(Default)]
struct FakeRuntime {
    calls: Vec<String>,
    containers: Vec<(String, bool)>,
    next: u32,
}

impl FakeRuntime {
    fn run_start(&mut self, p: &mut DockerInstanceProvider, id: &String) -> StartStep {
        let mut step = p.start_instance(id);
        loop {
            step = match step {
                StartStep::Inspect { handle, created } => {
                    self.calls.push(format!("inspect {}", handle));
                    let r = if self.containers.iter().any(|c| c.0 == handle) {
                        Ok(Some(handle.clone()))
                    } else {
                        Err(Error::Docker("no such container".to_string()))
                    };
                    p.start_inspected(id, created, r)
                }
                StartStep::Create { name, image, env } => {
                    assert!(name.starts_with("vk-"));
                    assert_eq!(image, "ghcr.io/8bitz0/volkanicmc-host:0.2.0");
                    assert_eq!(env.len(), 2);
                    assert!(env[0].starts_with("TOKEN="));
                    assert_eq!(env[1], "RUNNER_URL=http://host.docker.internal:8080");
                    self.next += 1;
                    let h = format!("c{}", self.next);
                    self.calls.push(format!("create {}", h));
                    self.containers.push((h.clone(), false));
                    p.start_created(id, Ok(h))
                }
                StartStep::Persist(_) => p.start_saved(id, Ok(())),
                StartStep::Start(h) => {
                    self.calls.push(format!("start {}", h));
                    for c in self.containers.iter_mut() {
                        if c.0 == h {
                            c.1 = true;
                        }
                    }
                    p.start_started(id, &h, Ok(()))
                }
                done => return done,
            };
        }
    }

    fn run_delete(&mut self, p: &mut DockerInstanceProvider, id: &String, fail_remove: bool) -> DeleteStep {
        let mut step = p.del_instance(id).unwrap();
        loop {
            step = match step {
                DeleteStep::Inspect(h) => {
                    self.calls.push(format!("inspect {}", h));
                    let running = self.containers.iter().find(|c| c.0 == h).map(|c| c.1);
                    p.delete_inspected(id, Ok(running))
                }
                DeleteStep::Stop(h) => {
                    self.calls.push(format!("stop {}", h));
                    p.delete_stopped(id, Ok(()))
                }
                DeleteStep::Remove(h) => {
                    self.calls.push(format!("remove {}", h));
                    if fail_remove {
                        p.delete_removed(id, Err(Error::Docker("removal refused".to_string())))
                    } else {
                        self.containers.retain(|c| c.0 != h);
                        p.delete_removed(id, Ok(()))
                    }
                }
                DeleteStep::Persist(_) => p.delete_persisted(id, Ok(())),
                done => return done,
            };
        }
    }

    fn sweep(&mut self, p: &mut DockerInstanceProvider) {
        for (id, handle) in p.reconcile_targets() {
            let listed: Vec<String> = self.containers.iter().map(|c| c.0.clone()).collect();
            match p.reconcile_listed(&id, &handle, &listed) {
                ReconcileStep::Inspect(h) => {
                    let running = self.containers.iter().find(|c| c.0 == h).map(|c| c.1);
                    p.reconcile_inspected(&id, &h, running);
                }
                ReconcileStep::Persist(_) | ReconcileStep::Done => {}
            }
        }
    }
}

fn status_of(p: &DockerInstanceProvider, id: &String) -> InstanceStatus {
    p.get_instance(id).unwrap().status
}

fn handle_of(p: &DockerInstanceProvider, id: &String) -> Option<String> {
    p.stored_records().into_iter().find(|r| &r.0 == id).and_then(|r| r.1.container_id)
}

#[test]
fn create_instance_is_inactive_and_listed() {
    let mut p = provider();
    let req = InstanceRequest {
        name: "survival".to_string(),
        inst_type: InstanceType::Volkanic { source: VolkanicSource::Base64("…".to_string()) },
    };
    let id = p.new_instance(req).unwrap();
    let view = p.get_instance(&id).unwrap();
    assert_eq!(view.status, InstanceStatus::Inactive);
    assert_eq!(view.name, "survival");
    assert!(view.inst_type == InstanceType::Volkanic { source: VolkanicSource::Base64("…".to_string()) });
    let list = p.list_instance();
    assert_eq!(list.len(), 1);
    assert_eq!(list[0].0, id);
    assert_eq!(list[0].1.name, "survival");
    let stored = p.stored_records();
    assert_eq!(stored.len(), 1);
    assert_eq!(stored[0].0, id);
    assert_eq!(stored[0].1.host_com_token.len(), 64);
    assert!(stored[0].1.container_id.is_none());
    let events = p.take_events();
    assert_eq!(events.len(), 1);
    assert!(matches!(&events[0], GlobalEvent::ModifyInstance { id: e, instance } if e == &id && instance.status == InstanceStatus::Inactive));
    assert!(p.take_events().is_empty());
}

#[test]
fn generated_ids_and_tokens_are_distinct() {
    let mut p = provider();
    let mut ids = Vec::new();
    for k in 0..60 {
        ids.push(p.new_instance(request(&format!("i{}", k))).unwrap());
    }
    let stored = p.stored_records();
    for a in 0..ids.len() {
        assert_eq!(ids[a].len(), 36);
        for b in (a + 1)..ids.len() {
            assert_ne!(ids[a], ids[b]);
            assert_ne!(stored[a].1.host_com_token, stored[b].1.host_com_token);
        }
    }
    let tok = stored[7].1.host_com_token.clone();
    assert_eq!(p.find_token(&tok), Some(ids[7].clone()));
    assert_eq!(p.find_token(&"nope".to_string()), None);
}

#[test]
fn start_without_handle_creates_then_starts() {
    let mut p = provider();
    let mut rt = FakeRuntime::default();
    let id = p.new_instance(request("survival")).unwrap();
    p.take_events();
    let end = rt.run_start(&mut p, &id);
    assert!(matches!(end, StartStep::Done));
    assert_eq!(rt.calls, vec!["create c1", "inspect c1", "start c1"]);
    assert_eq!(status_of(&p, &id), InstanceStatus::Running);
    assert_eq!(handle_of(&p, &id), Some("c1".to_string()));
    let statuses: Vec<InstanceStatus> = p
        .take_events()
        .into_iter()
        .map(|e| match e {
            GlobalEvent::ModifyInstance { instance, .. } => instance.status,
            GlobalEvent::DeleteInstance { .. } => panic!("unexpected deletion"),
        })
        .collect();
    assert_eq!(statuses, vec![InstanceStatus::Starting, InstanceStatus::Running]);
}

#[test]
fn start_with_handle_starts_existing_container() {
    let mut p = provider();
    let mut rt = FakeRuntime::default();
    let id = p.new_instance(request("a")).unwrap();
    rt.run_start(&mut p, &id);
    p.stop_instance(&id).unwrap();
    rt.calls.clear();
    let end = rt.run_start(&mut p, &id);
    assert!(matches!(end, StartStep::Done));
    assert_eq!(rt.calls, vec!["inspect c1", "start c1"]);
    assert_eq!(status_of(&p, &id), InstanceStatus::Running);
}

#[test]
fn start_failures_roll_back_to_inactive() {
    let mut p = provider();
    let id = p.new_instance(request("a")).unwrap();
    assert!(matches!(p.start_instance(&id), StartStep::Create { .. }));
    let r = p.start_created(&id, Err(Error::Docker("no image".to_string())));
    assert!(matches!(r, StartStep::Failed(Error::Docker(_))));
    assert_eq!(status_of(&p, &id), InstanceStatus::Inactive);

    p.start_instance(&id);
    let r = p.start_inspected(&id, true, Err(Error::Docker("gone".to_string())));
    assert!(matches!(r, StartStep::Failed(Error::ContainerIdNotFound)));
    assert_eq!(status_of(&p, &id), InstanceStatus::Inactive);

    p.start_instance(&id);
    let r = p.start_inspected(&id, false, Ok(None));
    assert!(matches!(r, StartStep::Failed(Error::ContainerIdNotFound)));
    assert_eq!(status_of(&p, &id), InstanceStatus::Inactive);

    p.start_instance(&id);
    let r = p.start_started(&id, &"c9".to_string(), Ok(()));
    assert!(matches!(r, StartStep::Failed(Error::ContainerIdNotFound)));
    assert_eq!(status_of(&p, &id), InstanceStatus::Inactive);

    p.start_instance(&id);
    p.start_created(&id, Ok("c1".to_string()));
    let r = p.start_saved(&id, Err(volkanic_runner::storage::Error::Io("disk full".to_string())));
    assert!(matches!(r, StartStep::Failed(Error::Storage(_))));
    assert_eq!(status_of(&p, &id), InstanceStatus::Inactive);

    p.start_instance(&id);
    let r = p.start_started(&id, &"c1".to_string(), Err(Error::Docker("refused".to_string())));
    assert!(matches!(r, StartStep::Failed(Error::Docker(_))));
    assert_eq!(status_of(&p, &id), InstanceStatus::Inactive);
}

#[test]
fn unknown_id_is_not_found() {
    let mut p = provider();
    let id = "missing".to_string();
    assert!(p.get_instance(&id).is_none());
    assert!(matches!(p.start_instance(&id), StartStep::Failed(Error::InstanceNotFound(s)) if s == "missing"));
    assert!(matches!(p.stop_instance(&id), Err(Error::InstanceNotFound(_))));
    assert!(matches!(p.del_instance(&id), Err(Error::InstanceNotFound(_))));
    assert!(matches!(p.set_last_con(&id), Err(Error::InstanceNotFound(_))));
    assert!(matches!(p.reconcile_listed(&id, &"c1".to_string(), &vec![]), ReconcileStep::Done));
    assert!(p.take_events().is_empty());
}

#[test]
fn stop_inactive_is_idempotent() {
    let mut p = provider();
    let id = p.new_instance(request("a")).unwrap();
    p.take_events();
    assert_eq!(p.stop_instance(&id).unwrap(), None);
    assert_eq!(status_of(&p, &id), InstanceStatus::Inactive);
    assert_eq!(p.stop_instance(&id).unwrap(), None);
    assert_eq!(status_of(&p, &id), InstanceStatus::Inactive);
    assert_eq!(p.take_events().len(), 2);
}

#[test]
fn stop_running_sends_stop_command() {
    let mut p = provider();
    let mut rt = FakeRuntime::default();
    let id = p.new_instance(request("a")).unwrap();
    rt.run_start(&mut p, &id);
    p.take_events();
    assert_eq!(p.stop_instance(&id).unwrap(), Some(HostEvent::Stop));
    assert_eq!(status_of(&p, &id), InstanceStatus::Inactive);
    let statuses: Vec<InstanceStatus> = p
        .take_events()
        .into_iter()
        .map(|e| match e {
            GlobalEvent::ModifyInstance { instance, .. } => instance.status,
            GlobalEvent::DeleteInstance { .. } => panic!("unexpected deletion"),
        })
        .collect();
    assert_eq!(statuses, vec![InstanceStatus::Stopping, InstanceStatus::Inactive]);
}

#[test]
fn reconcile_clears_externally_removed_container() {
    let mut p = provider();
    let mut rt = FakeRuntime::default();
    let id = p.new_instance(request("a")).unwrap();
    rt.run_start(&mut p, &id);
    rt.containers.clear();
    rt.sweep(&mut p);
    assert_eq!(status_of(&p, &id), InstanceStatus::Inactive);
    assert_eq!(handle_of(&p, &id), None);
    assert!(p.reconcile_targets().is_empty());
}

#[test]
fn reconcile_follows_running_state() {
    let mut p = provider();
    let mut rt = FakeRuntime::default();
    let id = p.new_instance(request("a")).unwrap();
    rt.run_start(&mut p, &id);
    rt.containers[0].1 = false;
    rt.sweep(&mut p);
    assert_eq!(status_of(&p, &id), InstanceStatus::Inactive);
    rt.containers[0].1 = true;
    rt.sweep(&mut p);
    assert_eq!(status_of(&p, &id), InstanceStatus::Running);
    assert_eq!(p.reconcile_targets(), vec![(id.clone(), "c1".to_string())]);
}

#[test]
fn reconcile_leaves_transient_status_alone() {
    let mut p = provider();
    let mut rt = FakeRuntime::default();
    let id = p.new_instance(request("a")).unwrap();
    rt.run_start(&mut p, &id);
    p.del_instance(&id).unwrap();
    p.reconcile_inspected(&id, &"c1".to_string(), Some(false));
    assert_eq!(status_of(&p, &id), InstanceStatus::Deleting);
    p.reconcile_inspected(&id, &"other".to_string(), Some(true));
    assert_eq!(status_of(&p, &id), InstanceStatus::Deleting);
}

#[test]
fn reconcile_without_state_counts_as_not_running() {
    let mut p = provider();
    let mut rt = FakeRuntime::default();
    let id = p.new_instance(request("a")).unwrap();
    rt.run_start(&mut p, &id);
    p.reconcile_inspected(&id, &"c1".to_string(), None);
    assert_eq!(status_of(&p, &id), InstanceStatus::Inactive);
}

#[test]
fn delete_running_stops_then_removes() {
    let mut p = provider();
    let mut rt = FakeRuntime::default();
    let id = p.new_instance(request("a")).unwrap();
    let other = p.new_instance(request("b")).unwrap();
    rt.run_start(&mut p, &id);
    p.take_events();
    rt.calls.clear();
    let end = rt.run_delete(&mut p, &id, false);
    assert!(matches!(end, DeleteStep::Done));
    assert_eq!(rt.calls, vec!["inspect c1", "stop c1", "remove c1"]);
    let list = p.list_instance();
    assert_eq!(list.len(), 1);
    assert_eq!(list[0].0, other);
    assert_eq!(p.stored_records().len(), 1);
    let deleted = p
        .take_events()
        .into_iter()
        .filter(|e| matches!(e, GlobalEvent::DeleteInstance { id: d } if d == &id))
        .count();
    assert_eq!(deleted, 1);
}

#[test]
fn delete_without_container_removes_at_once() {
    let mut p = provider();
    let id = p.new_instance(request("a")).unwrap();
    let step = p.del_instance(&id).unwrap();
    assert_eq!(status_of(&p, &id), InstanceStatus::Deleting);
    assert!(matches!(&step, DeleteStep::Persist(recs) if recs.is_empty()));
    assert!(matches!(p.delete_persisted(&id, Ok(())), DeleteStep::Done));
    assert!(p.get_instance(&id).is_none());
    assert!(p.stored_records().is_empty());
}

#[test]
fn delete_with_failed_removal_keeps_instance_inactive() {
    let mut p = provider();
    let mut rt = FakeRuntime::default();
    let id = p.new_instance(request("a")).unwrap();
    rt.run_start(&mut p, &id);
    let end = rt.run_delete(&mut p, &id, true);
    assert!(matches!(end, DeleteStep::Failed(Error::Docker(_))));
    assert_eq!(status_of(&p, &id), InstanceStatus::Inactive);
    assert_eq!(p.stored_records().len(), 1);
    assert_eq!(handle_of(&p, &id), Some("c1".to_string()));
}

#[test]
fn delete_failures_roll_back() {
    let mut p = provider();
    let mut rt = FakeRuntime::default();
    let id = p.new_instance(request("a")).unwrap();
    rt.run_start(&mut p, &id);

    p.del_instance(&id).unwrap();
    assert!(matches!(p.delete_inspected(&id, Ok(None)), DeleteStep::Failed(Error::NoContainerState)));
    assert_eq!(status_of(&p, &id), InstanceStatus::Inactive);

    p.del_instance(&id).unwrap();
    let r = p.delete_inspected(&id, Err(Error::Docker("down".to_string())));
    assert!(matches!(r, DeleteStep::Failed(Error::Docker(_))));

    p.del_instance(&id).unwrap();
    assert!(matches!(p.delete_stopped(&id, Err(Error::Docker("x".to_string()))), DeleteStep::Failed(_)));
    assert_eq!(status_of(&p, &id), InstanceStatus::Inactive);

    p.del_instance(&id).unwrap();
    p.delete_removed(&id, Ok(()));
    let r = p.delete_persisted(&id, Err(volkanic_runner::storage::Error::Io("x".to_string())));
    assert!(matches!(r, DeleteStep::Failed(Error::Storage(_))));
    assert_eq!(status_of(&p, &id), InstanceStatus::Inactive);
    assert_eq!(handle_of(&p, &id), None);
    assert!(matches!(p.delete_inspected(&id, Ok(Some(true))), DeleteStep::Failed(Error::ContainerIdNotFound)));
}

#[test]
fn heartbeat_is_recorded() {
    let mut p = provider();
    let id = p.new_instance(request("a")).unwrap();
    assert!(p.set_last_con(&id).is_ok());
    assert_eq!(status_of(&p, &id), InstanceStatus::Inactive);
}

#[test]
fn reload_starts_inactive_with_handles_kept() {
    let mut p = provider();
    let mut rt = FakeRuntime::default();
    let id = p.new_instance(request("a")).unwrap();
    rt.run_start(&mut p, &id);
    let mut cfg = Config::default();
    cfg.storage.path = Some("instances.json".to_string());
    let mut store = JsonStorageProvider::new(cfg).unwrap();
    store.load(p.stored_records());
    let q = DockerInstanceProvider::new("http://x:1".to_string(), store);
    assert_eq!(status_of(&q, &id), InstanceStatus::Inactive);
    assert_eq!(handle_of(&q, &id), Some("c1".to_string()));
    assert_eq!(q.reconcile_targets(), vec![(id.clone(), "c1".to_string())]);
}

#[test]
fn insert_instance_with_given_id_and_token() {
    let mut p = provider();
    p.insert_instance("fixed".to_string(), "secret".to_string(), request("named"));
    let view = p.get_instance(&"fixed".to_string()).unwrap();
    assert_eq!(view.name, "named");
    assert_eq!(view.status, InstanceStatus::Inactive);
    assert_eq!(p.find_token(&"secret".to_string()), Some("fixed".to_string()));
    let stored = p.stored_records();
    assert_eq!(stored[0].1.host_com_token, "secret");
    assert_eq!(p.take_events().len(), 1);
}

#[test]
fn contact_time_is_recorded() {
    let mut p = provider();
    let id = p.new_instance(request("a")).unwrap();
    assert_eq!(p.get_last_con(&id), None);
    p.record_contact(&id, 1_700_000_000_123).unwrap();
    assert_eq!(p.get_last_con(&id), Some(1_700_000_000_123));
    p.set_last_con(&id).unwrap();
    assert!(p.get_last_con(&id).unwrap() > 1_700_000_000_123);
    assert!(matches!(p.record_contact(&"x".to_string(), 5), Err(Error::InstanceNotFound(_))));
    assert_eq!(p.get_last_con(&"x".to_string()), None);
}
