use std::collections::HashMap;

use caf::pkgman::{
    active_package_version, retrieved_package, CompressedPackageContent, InstallPlan, InstallStep,
    MetadataRead, Package, PackageEntry, PackageId, PackageManager, PackageMetadata, VersionEntry,
};
use caf::CafError;

/// A store of files kept in memory, in which the plans of the library are
/// carried out as the program carries them out on disk.
#[derive(Default)]
struct FileTable {
    dirs: Vec<String>,
    contents: HashMap<String, Vec<u8>>,
    metadata: HashMap<String, PackageMetadata>,
}

impl FileTable {
    fn install(&mut self, plan: InstallPlan) -> Result<(), CafError> {
        self.install_failing_at(plan, None)
    }

    /// Carries the installation out step by step, as the program does; the
    /// step `failing`, if any, fails.
    fn install_failing_at(
        &mut self,
        plan: InstallPlan,
        failing: Option<InstallStep>,
    ) -> Result<(), CafError> {
        let mut step = Some(plan.first_step());
        while let Some(s) = step {
            let outcome = if Some(s) == failing {
                Err("disk full".to_string())
            } else {
                match s {
                    InstallStep::SerializeMetadata => {}
                    InstallStep::CreateDirectory => self.dirs.push(plan.install_dir.clone()),
                    InstallStep::WriteContent => {
                        self.contents.insert(plan.content_path.clone(), plan.content.0.clone());
                    }
                    InstallStep::WriteMetadata => {
                        self.metadata.insert(plan.metadata_path.clone(), plan.metadata.clone());
                    }
                }
                Ok(())
            };
            step = plan.after_step(s, outcome)?;
        }
        Ok(())
    }

    fn read_content(&self, path: &str) -> Result<Vec<u8>, String> {
        self.contents.get(path).cloned().ok_or_else(|| "No such file or directory".to_string())
    }

    fn read_metadata(&self, path: &str) -> MetadataRead {
        match self.metadata.get(path) {
            Some(m) => MetadataRead::Parsed(m.clone()),
            None => MetadataRead::OpenFailed("No such file or directory".to_string()),
        }
    }
}

const ROOT: &str = "/tmp/caf-store";

fn fixture_package() -> Package {
    Package {
        id: PackageId {
            name: "widget".into(),
            version: "1.0.0".into(),
        },
        content: CompressedPackageContent(vec![1, 2, 3, 4]),
    }
}

fn manager() -> PackageManager {
    PackageManager::new(ROOT.to_string(), true).unwrap()
}

#[test]
fn install_package_writes_content_and_metadata() {
    // given:
    let mut store = FileTable::default();
    let manager = manager();
    let package = fixture_package();

    // when:
    store.install(manager.install_plan(package.clone())).unwrap();

    // then:
    let install_path = format!("{}/pkgs/{}/{}", ROOT, package.id.name, package.id.version);
    let content_path = format!("{}/content.zip", install_path);
    let metadata_path = format!("{}/pkgs/{}/metadata.json", ROOT, package.id.name);

    assert!(store.contents.contains_key(&content_path));
    assert_eq!(store.read_content(&content_path).unwrap(), package.content.0);

    let metadata = store.metadata.get(&metadata_path).unwrap().clone();
    let expected_metadata =
        PackageMetadata::new(package.id.name.clone(), package.id.version.clone());
    assert_eq!(metadata, expected_metadata);
}

#[test]
fn retrieve_package_returns_stored_package() {
    // given:
    let mut store = FileTable::default();
    let manager = manager();
    let package = fixture_package();
    store.install(manager.install_plan(package.clone())).unwrap();

    // when:
    let path = manager.retrieve_package_path(&package.id);
    let retrieved = retrieved_package(&package.id, store.read_content(&path)).unwrap();

    // then:
    assert_eq!(retrieved, package);
}

#[test]
fn retrieve_active_package_version_reads_metadata() {
    // given:
    let mut store = FileTable::default();
    let manager = manager();
    let package = fixture_package();
    store.install(manager.install_plan(package.clone())).unwrap();

    // when:
    let path = manager.get_metadata_path(&package.id.name);
    let active = active_package_version(&package.id.name, store.read_metadata(&path)).unwrap();

    // then:
    assert_eq!(active, package.id);
}

#[test]
fn install_plan_creates_the_version_directory() {
    let plan = manager().install_plan(fixture_package());
    assert_eq!(plan.install_dir, "/tmp/caf-store/pkgs/widget/1.0.0");
    assert_eq!(plan.content_path, "/tmp/caf-store/pkgs/widget/1.0.0/content.zip");
    assert_eq!(plan.metadata_path, "/tmp/caf-store/pkgs/widget/metadata.json");
    assert_eq!(plan.metadata.name(), "widget");
    assert_eq!(plan.metadata.active_version(), "1.0.0");
}

#[test]
fn installing_a_second_version_makes_it_active() {
    let mut store = FileTable::default();
    let manager = manager();
    let first = fixture_package();
    let mut second = fixture_package();
    second.id.version = "2.0.0".into();
    second.content = CompressedPackageContent(vec![9, 9]);
    store.install(manager.install_plan(first.clone())).unwrap();
    store.install(manager.install_plan(second.clone())).unwrap();

    let path = manager.get_metadata_path(&first.id.name);
    let active = active_package_version(&first.id.name, store.read_metadata(&path)).unwrap();
    assert_eq!(active, second.id);

    let old = retrieved_package(&first.id, store.read_content(&manager.retrieve_package_path(&first.id)))
        .unwrap();
    assert_eq!(old, first);
}

#[test]
fn package_manager_refuses_a_root_that_is_not_a_directory() {
    let err = PackageManager::new("/etc/passwd".to_string(), false).err().unwrap();
    assert_eq!(err.message(), "/etc/passwd is not a valid directory");
    assert!(err.source_message().is_none());
}

#[test]
fn package_manager_paths() {
    let m = manager();
    assert_eq!(m.root_dir(), ROOT);
    assert_eq!(m.get_packages_dir_path(), "/tmp/caf-store/pkgs");
    assert_eq!(m.get_package_path(&"widget".to_string()), "/tmp/caf-store/pkgs/widget");
    let rooted_with_slash = PackageManager::new("/srv/".to_string(), true).unwrap();
    assert_eq!(rooted_with_slash.get_packages_dir_path(), "/srv/pkgs");
}

#[test]
fn install_step_errors_name_the_package() {
    let plan = manager().install_plan(fixture_package());
    let e = plan.step_error(InstallStep::SerializeMetadata, "bad".to_string());
    assert_eq!(
        e.message(),
        "unable to serialize the package metadata into JSON for package widget@1.0.0"
    );
    assert_eq!(e.source_message().unwrap(), "bad");
    let e = plan.step_error(InstallStep::CreateDirectory, "denied".to_string());
    assert_eq!(e.message(), "unable to create the package directory for package widget@1.0.0");
    let e = plan.step_error(InstallStep::WriteContent, "full".to_string());
    assert_eq!(
        e.message(),
        "unable to write the file content of the package widget@1.0.0 to the file /tmp/caf-store/pkgs/widget/1.0.0/content.zip"
    );
    let e = plan.step_error(InstallStep::WriteMetadata, "full".to_string());
    assert_eq!(e.message(), "unable to write the package metadata for package widget@1.0.0");
}

#[test]
fn retrieving_a_missing_package_fails() {
    let id = fixture_package().id;
    let e = retrieved_package(&id, Err("No such file or directory".to_string())).err().unwrap();
    assert_eq!(e.message(), "unable to retrieve the package from the db");
    assert_eq!(e.source_message().unwrap(), "No such file or directory");
}

#[test]
fn active_version_errors() {
    let name = "widget".to_string();
    let e = active_package_version(&name, MetadataRead::OpenFailed("gone".to_string())).err().unwrap();
    assert_eq!(
        e.message(),
        "unable to open the metadata file for the package version retrieval of package widget"
    );
    assert_eq!(e.source_message().unwrap(), "gone");
    let e = active_package_version(&name, MetadataRead::ParseFailed("eof".to_string())).err().unwrap();
    assert_eq!(e.message(), "unable to serialize the package metadata into JSON for package widget");
    assert_eq!(e.source_message().unwrap(), "eof");
}

#[test]
fn active_version_takes_the_recorded_name() {
    let recorded = PackageMetadata::new("gadget".to_string(), "3.1".to_string());
    let id = active_package_version(&"widget".to_string(), MetadataRead::Parsed(recorded)).unwrap();
    assert_eq!(id, PackageId { name: "gadget".into(), version: "3.1".into() });
}

fn version(name: Option<&str>, is_dir: bool) -> Result<VersionEntry, String> {
    Ok(VersionEntry { name: name.map(|n| n.to_string()), is_dir })
}

#[test]
fn all_package_ids_lists_version_directories() {
    let listing = vec![
        Ok(PackageEntry {
            name: Some("widget".to_string()),
            versions: Ok(vec![
                version(Some("1.0.0"), true),
                version(Some("metadata.json"), false),
                Err("unreadable".to_string()),
                version(None, true),
                version(Some("2.0.0"), true),
            ]),
        }),
        Err("unreadable".to_string()),
        Ok(PackageEntry { name: None, versions: Ok(vec![version(Some("1.0"), true)]) }),
        Ok(PackageEntry { name: Some("broken".to_string()), versions: Err("denied".to_string()) }),
        Ok(PackageEntry {
            name: Some("gadget".to_string()),
            versions: Ok(vec![version(Some("0.1"), true)]),
        }),
    ];
    let ids = manager().all_package_ids_iter(Ok(listing)).unwrap();
    assert_eq!(
        ids,
        vec![
            PackageId { name: "widget".into(), version: "1.0.0".into() },
            PackageId { name: "widget".into(), version: "2.0.0".into() },
            PackageId { name: "gadget".into(), version: "0.1".into() },
        ]
    );
}

#[test]
fn all_package_ids_of_an_empty_store() {
    let ids = manager().all_package_ids_iter(Ok(vec![])).unwrap();
    assert!(ids.is_empty());
}

#[test]
fn all_package_ids_fails_when_the_directory_cannot_be_read() {
    let e = manager().all_package_ids_iter(Err("denied".to_string())).err().unwrap();
    assert_eq!(e.message(), "unable to read subdirectories of /tmp/caf-store/pkgs");
    assert_eq!(e.source_message().unwrap(), "denied");
}

#[test]
fn package_display() {
    let p = fixture_package();
    assert_eq!(p.id.to_display_string(), "widget@1.0.0");
    assert_eq!(p.to_display_string(), "widget@1.0.0");
}

#[test]
fn package_equality_compares_contents() {
    let a = fixture_package();
    let mut b = fixture_package();
    assert_eq!(a, b);
    b.content = CompressedPackageContent(vec![1, 2, 3]);
    assert_ne!(a, b);
    b.content = CompressedPackageContent(vec![1, 2, 3, 5]);
    assert_ne!(a, b);
}

#[test]
fn install_steps_run_in_order() {
    let plan = manager().install_plan(fixture_package());
    assert_eq!(plan.first_step(), InstallStep::SerializeMetadata);
    assert_eq!(
        plan.after_step(InstallStep::SerializeMetadata, Ok(())).unwrap(),
        Some(InstallStep::CreateDirectory)
    );
    assert_eq!(
        plan.after_step(InstallStep::CreateDirectory, Ok(())).unwrap(),
        Some(InstallStep::WriteContent)
    );
    assert_eq!(
        plan.after_step(InstallStep::WriteContent, Ok(())).unwrap(),
        Some(InstallStep::WriteMetadata)
    );
    assert_eq!(plan.after_step(InstallStep::WriteMetadata, Ok(())).unwrap(), None);
    let e = plan.after_step(InstallStep::CreateDirectory, Err("denied".to_string())).err().unwrap();
    assert_eq!(e.message(), "unable to create the package directory for package widget@1.0.0");
    assert_eq!(e.source_message().unwrap(), "denied");
}

#[test]
fn failed_content_write_leaves_the_metadata_as_it_was() {
    let manager = manager();
    let mut store = FileTable::default();
    let first = fixture_package();
    store.install(manager.install_plan(first.clone())).unwrap();
    let mut second = fixture_package();
    second.id.version = "2.0.0".into();
    let e = store
        .install_failing_at(manager.install_plan(second.clone()), Some(InstallStep::WriteContent))
        .err()
        .unwrap();
    assert_eq!(
        e.message(),
        "unable to write the file content of the package widget@2.0.0 to the file /tmp/caf-store/pkgs/widget/2.0.0/content.zip"
    );
    let read = store.read_metadata(&manager.get_metadata_path(&"widget".to_string()));
    assert_eq!(active_package_version(&"widget".to_string(), read).unwrap(), first.id);
}
