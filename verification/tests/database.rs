use caf::database::{Database, Metadata};
use caf::package::PackageId;

#[test]
fn database_new_never_fails() {
    assert!(Database::new("/var/db".to_string()).is_ok());
}

#[test]
fn database_paths() {
    let db = Database::new("/var/db".to_string()).unwrap();
    assert_eq!(
        Database::get_package_path(&"/var/db".to_string(), &"widget".to_string()),
        "/var/db/pkgs/widget"
    );
    let plan = db.install_package_plan(&"widget".to_string(), &"1.0".to_string(), vec![5, 6]);
    assert_eq!(plan.dir, "/var/db/pkgs/widget/1.0");
    assert_eq!(plan.file, "/var/db/pkgs/widget/1.0/content.zip");
    assert_eq!(plan.content, vec![5, 6]);
    assert_eq!(db.get_metadata_path(&"widget".to_string()), "/var/db/pkgs/widget/metadata.json");
}

#[test]
fn database_add_records_the_active_version() {
    let db = Database::new("/var/db".to_string()).unwrap();
    let rec = db.add_plan(&PackageId { name: "widget".into(), version: "1.0".into() });
    assert_eq!(rec.dir, "/var/db/pkgs/widget");
    assert_eq!(rec.file, "/var/db/pkgs/widget/metadata.json");
    assert_eq!(rec.metadata.name(), "widget");
    assert_eq!(rec.metadata.active_version(), "1.0");
}

fn meta(name: &str, version: &str) -> Metadata {
    Metadata::new(name.to_string(), version.to_string())
}

#[test]
fn all_metadata_lists_every_parsed_file_in_order() {
    let db = Database::new("/var/db".to_string()).unwrap();
    assert!(db.get_all_pkgs_metadata(vec![]).is_empty());
    let all = db.get_all_pkgs_metadata(vec![
        Some(meta("widget", "1.0")),
        None,
        Some(meta("gadget", "2.1")),
    ]);
    assert_eq!(all.len(), 2);
    assert_eq!(all[0].name(), "widget");
    assert_eq!(all[0].active_version(), "1.0");
    assert_eq!(all[1].name(), "gadget");
    assert_eq!(all[1].active_version(), "2.1");
}

#[test]
fn metadata_of_a_package_is_found_by_name() {
    let db = Database::new("/var/db".to_string()).unwrap();
    let files = vec![
        vec![meta("alpha", "0.1"), meta("beta", "0.2")],
        vec![],
        vec![meta("gamma", "3.0"), meta("beta", "9.9")],
    ];
    let found = db.get_pkgs_metadata(&"beta".to_string(), &files).unwrap();
    assert_eq!(found.name(), "beta");
    assert_eq!(found.active_version(), "0.2");
    let found = db.get_pkgs_metadata(&"gamma".to_string(), &files).unwrap();
    assert_eq!(found.active_version(), "3.0");
    assert!(db.get_pkgs_metadata(&"delta".to_string(), &files).is_none());
    assert!(db.get_pkgs_metadata(&"beta".to_string(), &vec![]).is_none());
}
