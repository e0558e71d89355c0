use tape_backup::acl::{privs_to_priv_names, AccessControl, AclEntry, Role, PRIV_CLOUD_AUDIT,
    PRIV_CLOUD_BACKUP, PRIV_CLOUD_DELETE, PRIV_DATASTORE_READ, PRIV_TAPE_WRITE, ROLE_CLOUD_ADMIN};
use tape_backup::cloud::media_location::MediaLocation;
use tape_backup::cloud::media_pool::{MediaSetPolicy, RetentionPolicy};
use tape_backup::datastore::BackupType;
use tape_backup::jobs::{FilterType, GroupFilter};
use tape_backup::jobs::KeepOptions;
use tape_backup::key_derivation::Kdf;
use tape_backup::maintenance::{MaintenanceError, MaintenanceMode, MaintenanceType, Operation};
use tape_backup::network::{CloudInterface, CloudNetworkInterfaceType};
use tape_backup::pipeline::AbortSignal;
use tape_backup::progress::StoreProgress;
use tape_backup::tape::media_location::BackupLocation;

#[test]
fn media_location_round_trip() {
    let cases = ["offline", "online-svc1", "vault-v1", "cloud-bucket9"];
    for text in cases {
        let loc = MediaLocation::parse(text).unwrap();
        assert_eq!(loc.to_text(), text);
    }
    assert_eq!(MediaLocation::parse("offline").unwrap(), MediaLocation::Offline);
    assert_eq!(
        MediaLocation::parse("online-abc").unwrap(),
        MediaLocation::Online("abc".to_string())
    );
    assert!(MediaLocation::parse("elsewhere").is_err());
    assert!(MediaLocation::parse("").is_err());
}

#[test]
fn backup_location_round_trip() {
    let cases = ["local", "cloud-bucket", "vault-v2"];
    for text in cases {
        let loc = BackupLocation::parse(text).unwrap();
        assert_eq!(loc.to_text(), text);
    }
    assert_eq!(BackupLocation::parse("local").unwrap(), BackupLocation::Local);
    assert!(BackupLocation::parse("offline").is_err());
}

#[test]
fn media_set_policy_parse() {
    assert_eq!(MediaSetPolicy::parse("continue").unwrap(), MediaSetPolicy::ContinueCurrent);
    assert_eq!(MediaSetPolicy::parse("always").unwrap(), MediaSetPolicy::AlwaysCreate);
    assert!(MediaSetPolicy::parse("sat 20:00").is_err());
}

#[test]
fn retention_policy_parse() {
    assert_eq!(RetentionPolicy::parse("overwrite").unwrap(), RetentionPolicy::OverwriteAlways);
    assert_eq!(RetentionPolicy::parse("keep").unwrap(), RetentionPolicy::KeepForever);
    assert!(RetentionPolicy::parse("10d").is_err());
}

#[test]
fn maintenance_check_semantics() {
    let normal = MaintenanceMode::new(MaintenanceType::ReadOnly, None);
    assert!(normal.check(Some(Operation::Read)).is_ok());
    assert!(normal.check(Some(Operation::Lookup)).is_ok());
    assert!(normal.check(None).is_ok());
    assert!(normal.check(Some(Operation::Write)).is_err());

    let offline = MaintenanceMode::new(MaintenanceType::Offline, None);
    assert!(offline.check(Some(Operation::Lookup)).is_ok());
    assert!(offline.check(Some(Operation::Read)).is_err());

    let delete = MaintenanceMode::new(MaintenanceType::Delete, None);
    assert!(delete.check(Some(Operation::Lookup)).is_err());
    match delete.check(None) {
        Err(MaintenanceError::Delete) => {}
        other => panic!("unexpected: {:?}", other),
    }
}

#[test]
fn maintenance_message_percent_decoded() {
    let mode = MaintenanceMode::new(
        MaintenanceType::ReadOnly,
        Some("disk%20swap%21".to_string()),
    );
    match mode.check(Some(Operation::Write)) {
        Err(MaintenanceError::ReadOnly(msg)) => assert_eq!(msg, "disk swap!"),
        other => panic!("unexpected: {:?}", other),
    }
}

#[test]
fn backup_type_names() {
    assert_eq!(BackupType::parse("vm"), Some(BackupType::Vm));
    assert_eq!(BackupType::parse("ct"), Some(BackupType::Ct));
    assert_eq!(BackupType::parse("host"), Some(BackupType::Host));
    assert_eq!(BackupType::parse("cloud"), Some(BackupType::Cloud));
    assert_eq!(BackupType::parse("lxc"), None);
    assert_eq!(BackupType::Vm.to_text(), "vm");
}

#[test]
fn group_filter_parse_and_text() {
    let f = GroupFilter::parse("type:vm").unwrap();
    assert!(!f.is_exclude);
    assert_eq!(f.to_text(), "type:vm");

    let f = GroupFilter::parse("exclude:group:vm/100").unwrap();
    assert!(f.is_exclude);
    assert_eq!(f.to_text(), "exclude:group:vm/100");

    let f = GroupFilter::parse("include:regex:^vm/1.*$").unwrap();
    assert!(!f.is_exclude);
    assert_eq!(f.to_text(), "regex:^vm/1.*$");

    assert!(GroupFilter::parse("colour:blue").is_err());
    assert!(GroupFilter::parse("group:vm").is_err());
    assert!(GroupFilter::parse("group:vm/").is_err());
    assert!(GroupFilter::parse("type:lxc").is_err());
    assert!(GroupFilter::parse("regex:(").is_err());
}

#[test]
fn group_filter_matching() {
    let by_type = GroupFilter::parse("type:vm").unwrap();
    assert!(by_type.matches(BackupType::Vm, "100"));
    assert!(!by_type.matches(BackupType::Ct, "100"));

    let by_group = GroupFilter::parse("group:vm/100").unwrap();
    assert!(by_group.matches(BackupType::Vm, "100"));
    assert!(!by_group.matches(BackupType::Vm, "101"));
    assert!(!by_group.matches(BackupType::Ct, "100"));

    let by_regex = GroupFilter::parse("regex:^vm/1.*$").unwrap();
    assert!(by_regex.matches(BackupType::Vm, "100"));
    assert!(by_regex.matches(BackupType::Vm, "1"));
    assert!(!by_regex.matches(BackupType::Vm, "200"));
    assert!(!by_regex.matches(BackupType::Ct, "100"));
}

#[test]
fn filter_type_equality() {
    let a = FilterType::Regex("^vm/.*$".to_string());
    let b = FilterType::Regex("^vm/.*$".to_string());
    let c = FilterType::Regex("^ct/.*$".to_string());
    assert!(a == b);
    assert!(a != c);
    assert!(FilterType::BackupType(BackupType::Vm) == FilterType::BackupType(BackupType::Vm));
    assert!(FilterType::BackupType(BackupType::Vm) != FilterType::Group("vm/1".to_string()));
}

#[test]
fn privilege_names() {
    let names = privs_to_priv_names(PRIV_CLOUD_AUDIT | PRIV_CLOUD_DELETE);
    assert_eq!(names, vec!["Cloud.Audit", "Cloud.Delete"]);
    assert_eq!(privs_to_priv_names(0).len(), 0);
    let all = privs_to_priv_names(ROLE_CLOUD_ADMIN);
    assert_eq!(
        all,
        vec!["Cloud.Audit", "Cloud.Modify", "Cloud.Backup", "Cloud.Restore", "Cloud.Delete"]
    );
}

#[test]
fn role_privileges() {
    assert_eq!(Role::NoAccess.privileges(), 0);
    assert_eq!(Role::Admin.privileges(), u64::MAX);
    assert_eq!(Role::CloudUser.privileges() & PRIV_CLOUD_BACKUP, PRIV_CLOUD_BACKUP);
    assert_eq!(Role::CloudAudit.privileges(), PRIV_CLOUD_AUDIT);
}

#[test]
fn access_control_check() {
    let acl = AccessControl {
        entries: vec![
            AclEntry {
                auth_id: "alice@pbs".to_string(),
                path: vec!["datastore".to_string(), "store1".to_string()],
                privs: PRIV_DATASTORE_READ,
            },
            AclEntry {
                auth_id: "alice@pbs".to_string(),
                path: vec!["tape".to_string(), "drive".to_string(), "drive1".to_string()],
                privs: PRIV_TAPE_WRITE,
            },
        ],
    };
    let store_path = vec!["datastore".to_string(), "store1".to_string()];
    assert!(acl.check_privs("alice@pbs", &store_path, PRIV_DATASTORE_READ));
    assert!(!acl.check_privs("bob@pbs", &store_path, PRIV_DATASTORE_READ));
    assert!(!acl.check_privs("alice@pbs", &store_path, PRIV_TAPE_WRITE));
    let other_path = vec!["datastore".to_string(), "store2".to_string()];
    assert!(!acl.check_privs("alice@pbs", &other_path, PRIV_DATASTORE_READ));
}

#[test]
fn progress_permille_values() {
    let done = StoreProgress::new(0);
    assert_eq!(done.permille(), 1000);

    let mut p = StoreProgress::new(4);
    p.done_groups = 1;
    assert_eq!(p.permille(), 250);

    p.done_groups = 1;
    p.group_snapshots = 2;
    p.done_snapshots = 1;
    assert_eq!(p.permille(), 375);
}

#[test]
fn kdf_default_is_scrypt() {
    assert_eq!(Kdf::default(), Kdf::Scrypt);
}

#[test]
fn interface_new_is_blank() {
    let iface = CloudInterface::new("eth0".to_string());
    assert_eq!(iface.name, "eth0");
    assert_eq!(iface.interface_type, CloudNetworkInterfaceType::Unknown);
    assert!(iface.method.is_none());
    assert!(iface.cidr.is_none());
    assert!(iface.tags.is_empty());
}

#[test]
fn abort_signal_countdown() {
    let mut sig = AbortSignal::never();
    for _ in 0..10 {
        assert!(!sig.check());
    }
    let mut sig = AbortSignal::after(2);
    assert!(!sig.check());
    assert!(!sig.check());
    assert!(sig.check());
    assert!(sig.check());
}

#[test]
fn keep_options_keeps_something() {
    let none = KeepOptions {
        keep_last: None,
        keep_hourly: None,
        keep_daily: None,
        keep_weekly: None,
        keep_monthly: None,
        keep_yearly: None,
    };
    assert!(!none.keeps_something());
    let zero = KeepOptions { keep_daily: Some(0), ..none };
    assert!(!zero.keeps_something());
    let some = KeepOptions { keep_weekly: Some(2), ..none };
    assert!(some.keeps_something());
}
