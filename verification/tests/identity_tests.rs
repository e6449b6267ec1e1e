use tempfile::tempdir;
use zerotrust_track::check_directory;
use zerotrust_track::identity::{populate_identity, resolve_identity, NameTuple};
use zerotrust_track::uuid_rep::{self, Uuid};

fn empty_tuple() -> NameTuple {
    NameTuple {
        name: None,
        uuid: None,
    }
}

#[test]
fn test_check_directory_success() {
    let tempdir = tempdir().unwrap();
    let data_directory = tempdir.path();

    assert!(check_directory(data_directory.to_str().unwrap()));
}

#[test]
fn test_check_directory_fail() {
    assert!(!check_directory("/I_like_strange_things"));
}

#[test]
fn test_populate_config_defined_name_uuid() {
    let uuid = uuid_rep::new_v4();
    let (name, resolved_uuid) = populate_identity(
        &Some(String::from("I am a name")),
        &Some(uuid),
        &empty_tuple(),
        &Vec::new(),
    );

    assert_eq!(String::from("I am a name"), name);
    assert_eq!(uuid, resolved_uuid);
}

#[test]
fn test_populate_config_undefined_uuid() {
    let (name, uuid) = populate_identity(
        &Some(String::from("I am a name")),
        &None,
        &empty_tuple(),
        &Vec::new(),
    );
    assert_eq!(String::from("I am a name"), name, "names are not the same");

    let stored = NameTuple {
        name: Some(name.clone()),
        uuid: Some(uuid),
    };
    let (second_name, second_uuid) = populate_identity(
        &Some(String::from("I am a name")),
        &None,
        &stored,
        &Vec::new(),
    );
    assert_eq!(name, second_name, "names are not the same");
    assert_eq!(uuid, second_uuid, "uuid is not defined");
}

#[test]
fn test_populate_config_undefined_name() {
    let uuid = uuid_rep::new_v4();

    let (name, resolved_uuid) = populate_identity(
        &None,
        &Some(uuid),
        &empty_tuple(),
        &Vec::new(),
    );

    assert_eq!(uuid, resolved_uuid, "uuid's are not the same");
    assert_eq!(name, "unknown", "name is not defined");
}

#[test]
fn test_identity_idempotence() {
    let names = vec![String::from("alpha"), String::from("beta")];
    let (name, uuid) = populate_identity(&None, &None, &empty_tuple(), &names);
    assert!(name == "alpha" || name == "beta");

    let stored = NameTuple {
        name: Some(name.clone()),
        uuid: Some(uuid),
    };
    let other_names = vec![String::from("gamma")];
    let (second_name, second_uuid) = populate_identity(&None, &None, &stored, &other_names);
    assert_eq!(name, second_name);
    assert_eq!(uuid, second_uuid);
}

#[test]
fn test_resolve_identity_priority_order() {
    let stored = NameTuple {
        name: Some(String::from("stored-name")),
        uuid: Some(Uuid::new(1, 1)),
    };
    let (name, uuid) = resolve_identity(
        &Some(String::from("config-name")),
        &Some(Uuid::new(2, 2)),
        &stored,
        String::from("fallback"),
        Uuid::new(3, 3),
    );
    assert_eq!(name, "config-name");
    assert_eq!(uuid, Uuid::new(2, 2));

    let (name, uuid) = resolve_identity(
        &None,
        &None,
        &stored,
        String::from("fallback"),
        Uuid::new(3, 3),
    );
    assert_eq!(name, "stored-name");
    assert_eq!(uuid, Uuid::new(1, 1));

    let (name, uuid) = resolve_identity(
        &None,
        &None,
        &empty_tuple(),
        String::from("fallback"),
        Uuid::new(3, 3),
    );
    assert_eq!(name, "fallback");
    assert_eq!(uuid, Uuid::new(3, 3));
}
