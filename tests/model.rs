use volkanic_runner::auth::bearer_token;
use volkanic_runner::config::{Config, StorageConfig};
use volkanic_runner::provider::get_runner_addr;
use volkanic_runner::host::{HostDefinition, HostInstanceType};
use volkanic_runner::info::{VkInfo, VkMode, PROTOCOL_VER};
use volkanic_runner::instance::{InstanceType, StoredInstance, VolkanicSource};
use volkanic_runner::storage::{Error, JsonStorageProvider};

fn record(name: &str) -> StoredInstance {
    StoredInstance {
        name: name.to_string(),
        inst_type: InstanceType::Volkanic { source: VolkanicSource::Base64("AA==".to_string()) },
        host_com_token: format!("tok-{}", name),
        container_id: None,
    }
}

fn store() -> JsonStorageProvider {
    let cfg = Config {
        address: "127.0.0.1".to_string(),
        port: 9000,
        storage: StorageConfig { path: Some("data.json".to_string()) },
    };
    JsonStorageProvider::new(cfg).unwrap()
}

#[test]
fn default_config() {
    let c = Config::default();
    assert_eq!(c.address, "0.0.0.0");
    assert_eq!(c.port, 8080);
    assert!(c.storage.path.is_none());
}

#[test]
fn store_needs_a_path() {
    assert!(matches!(JsonStorageProvider::new(Config::default()), Err(Error::NoStoragePath)));
    assert_eq!(store().path(), "data.json");
}

#[test]
fn store_upsert_get_delete() {
    let mut s = store();
    s.new_instance("a".to_string(), record("one"));
    s.new_instance("b".to_string(), record("two"));
    s.new_instance("a".to_string(), record("three"));
    let all = s.list_instances();
    assert_eq!(all.len(), 2);
    assert_eq!(all[0].0, "a");
    assert_eq!(all[0].1.name, "three");
    assert_eq!(s.get_instance(&"b".to_string()).unwrap().name, "two");
    assert!(s.get_instance(&"c".to_string()).is_none());
    assert!(s.del_instance(&"a".to_string()));
    assert!(!s.del_instance(&"a".to_string()));
    assert_eq!(s.list_instances().len(), 1);
}

#[test]
fn store_load_keeps_last_record_of_an_id() {
    let mut s = store();
    s.new_instance("old".to_string(), record("gone"));
    s.load(vec![("x".to_string(), record("1")), ("x".to_string(), record("2")), ("y".to_string(), record("3"))]);
    let all = s.list_instances();
    assert_eq!(all.len(), 2);
    assert_eq!(all[0].1.name, "2");
    assert!(s.get_instance(&"old".to_string()).is_none());
}

#[test]
fn info_reports_protocol() {
    let i = VkInfo::new();
    assert_eq!(i.protocol, PROTOCOL_VER);
    assert_eq!(i.protocol, 1);
    assert_eq!(i.version, "0.1.0");
    assert_eq!(i.mode, VkMode::NoAuth);
}

#[test]
fn host_type_from_instance_type() {
    let t = InstanceType::Volkanic { source: VolkanicSource::Base64("Zm9v".to_string()) };
    let HostInstanceType::VolkanicConstruct { base64 } = HostInstanceType::from(t.clone());
    assert_eq!(base64, "Zm9v");
    let HostInstanceType::VolkanicConstruct { base64 } = HostDefinition::of_type(&t).i_type;
    assert_eq!(base64, "Zm9v");
}

#[test]
fn source_equality() {
    let a = VolkanicSource::Base64("x".to_string());
    assert!(a == VolkanicSource::Base64("x".to_string()));
    assert!(a != VolkanicSource::Base64("y".to_string()));
}

#[test]
fn bearer_token_is_second_word() {
    assert_eq!(bearer_token("Bearer abc123"), Some("abc123".to_string()));
    assert_eq!(bearer_token("  Bearer\t xyz  trailing"), Some("xyz".to_string()));
    assert_eq!(bearer_token("Bearer"), None);
    assert_eq!(bearer_token("Bearer   "), None);
    assert_eq!(bearer_token(""), None);
    assert_eq!(bearer_token("a\u{3000}b"), Some("b".to_string()));
}

#[test]
fn runner_addr_has_port() {
    assert_eq!(get_runner_addr(8080), "http://host.docker.internal:8080");
    assert_eq!(get_runner_addr(0), "http://host.docker.internal:0");
    assert_eq!(get_runner_addr(65535), "http://host.docker.internal:65535");
}

#[test]
fn store_load_of_unique_records_keeps_them_in_order() {
    let mut s = store();
    let recs = vec![("y".to_string(), record("1")), ("x".to_string(), record("2"))];
    s.load(recs);
    let all = s.list_instances();
    assert_eq!(all.len(), 2);
    assert_eq!(all[0].0, "y");
    assert_eq!(all[1].0, "x");
    assert_eq!(all[1].1.name, "2");
}
