use vstd::prelude::*;

use crate::package::{PackageId, PackageIdView};
use crate::pkgman::{content_path, install_dir, metadata_path, package_dir};
use crate::path::{join_path, spec_join};

verus! {

/// The error type of the operating system's input and output.
#[verifier::external_type_specification]
#[verifier::external_body]
pub struct ExIoError(std::io::Error);

// Layout of the database:
//   {root}/pkgs/{name}/{version}/content.zip  the contents of one version
//   {root}/pkgs/{name}/metadata.json          the metadata of a package

/// The directory of one package in the database rooted at `root`.
pub open spec fn db_package_dir(root: Seq<char>, name: Seq<char>) -> Seq<char> {
    spec_join(spec_join(root, "pkgs"@), name)
}

/// The directory of one version of a package in the database.
pub open spec fn db_install_dir(root: Seq<char>, name: Seq<char>, version: Seq<char>) -> Seq<char> {
    spec_join(db_package_dir(root, name), version)
}

/// The file that holds the contents of one version.
pub open spec fn db_content_file(root: Seq<char>, name: Seq<char>, version: Seq<char>) -> Seq<
    char,
> {
    spec_join(db_install_dir(root, name, version), "content.zip"@)
}

/// The metadata file of one package in the database.
pub open spec fn db_metadata_file(root: Seq<char>, name: Seq<char>) -> Seq<char> {
    spec_join(db_package_dir(root, name), "metadata.json"@)
}

/// The database lays packages out as the package store does: the same
/// directory for a package and for each of its versions, the same contents
/// file and the same metadata file, so that what the store's laws say of its
/// paths holds of the database's too.
pub proof fn law_database_layout_is_the_store_layout(root: Seq<char>, id: PackageIdView)
    ensures
        db_package_dir(root, id.name) == package_dir(root, id.name),
        db_install_dir(root, id.name, id.version) == install_dir(root, id),
        db_content_file(root, id.name, id.version) == content_path(root, id),
        db_metadata_file(root, id.name) == metadata_path(root, id.name),
{
}

/// A package database rooted at a directory.
#[derive(Debug)]
pub struct Database {
    root_dir: String,
}

impl View for Database {
    type V = Seq<char>;

    closed spec fn view(&self) -> Seq<char> {
        self.root_dir@
    }
}

/// The metadata of a package, as values.
pub struct MetadataView {
    pub name: Seq<char>,
    pub active_version: Seq<char>,
}

/// What the database records of a package: its name and its active version.
#[derive(Debug)]
pub struct Metadata {
    name: String,
    active_version: String,
}

impl View for Metadata {
    type V = MetadataView;

    closed spec fn view(&self) -> MetadataView {
        MetadataView { name: self.name@, active_version: self.active_version@ }
    }
}

impl Metadata {
    pub fn new(name: String, active_version: String) -> (m: Metadata)
        ensures
            m@ == (MetadataView { name: name@, active_version: active_version@ }),
    {
        Metadata { name, active_version }
    }

    pub fn name(&self) -> (n: &String)
        ensures
            n@ == self@.name,
    {
        &self.name
    }

    pub fn active_version(&self) -> (v: &String)
        ensures
            v@ == self@.active_version,
    {
        &self.active_version
    }
}

impl Clone for Metadata {
    fn clone(&self) -> (c: Metadata)
        ensures
            c@ == self@,
    {
        Metadata { name: self.name.clone(), active_version: self.active_version.clone() }
    }
}

/// The metadata that the read metadata files hold, in order: those that
/// could not be read or parsed (`None`) are passed over.
pub open spec fn parsed_metadata(files: Seq<Option<Metadata>>) -> Seq<MetadataView>
    decreases files.len(),
{
    if files.len() == 0 {
        Seq::empty()
    } else {
        parsed_metadata(files.drop_last()) + match files.last() {
            Some(m) => seq![m@],
            None => Seq::empty(),
        }
    }
}

/// The views of a sequence of metadata.
pub open spec fn metadata_views(ms: Seq<Metadata>) -> Seq<MetadataView> {
    ms.map_values(|m: Metadata| m@)
}

/// The work of installing one version into the database: create `dir`, then
/// write `content` to `file`.
#[derive(Debug)]
pub struct DatabaseInstall {
    pub dir: String,
    pub file: String,
    pub content: Vec<u8>,
}

/// The work of recording a package's metadata: create `dir`, then write the
/// serialized `metadata` to `file`.
#[derive(Debug)]
pub struct MetadataRecord {
    pub dir: String,
    pub file: String,
    pub metadata: Metadata,
}

impl Database {
    /// A database rooted at `root_dir`; this never fails.
    pub fn new(root_dir: String) -> (r: Result<Database, std::io::Error>)
        ensures
            r is Ok,
            r matches Ok(db) ==> db@ == root_dir@,
    {
        Ok(Database { root_dir })
    }

    /// The directory of the package named `package_name` under `root_dir`.
    pub fn get_package_path(root_dir: &String, package_name: &String) -> (p: String)
        ensures
            p@ == db_package_dir(root_dir@, package_name@),
    {
        let pkgs = join_path(root_dir.as_str(), "pkgs");
        join_path(pkgs.as_str(), package_name.as_str())
    }

    /// What installing version `package_version` of `package_name` with the
    /// contents `zip_content` does.
    pub fn install_package_plan(
        &self,
        package_name: &String,
        package_version: &String,
        zip_content: Vec<u8>,
    ) -> (plan: DatabaseInstall)
        ensures
            plan.dir@ == db_install_dir(self@, package_name@, package_version@),
            plan.file@ == db_content_file(self@, package_name@, package_version@),
            plan.content@ == zip_content@,
    {
        let pkg_path = Database::get_package_path(&self.root_dir, package_name);
        let dir = join_path(pkg_path.as_str(), package_version.as_str());
        let file = join_path(dir.as_str(), "content.zip");
        DatabaseInstall { dir, file, content: zip_content }
    }

    /// The metadata of every package, from what reading the metadata file of
    /// each package gave: every file that parsed, once, in order.
    pub fn get_all_pkgs_metadata(&self, files: Vec<Option<Metadata>>) -> (all: Vec<Metadata>)
        ensures
            metadata_views(all@) == parsed_metadata(files@),
    {
        let mut all: Vec<Metadata> = Vec::new();
        let mut i: usize = 0;
        while i < files.len()
            invariant
                i <= files@.len(),
                metadata_views(all@) == parsed_metadata(files@.take(i as int)),
            decreases files@.len() - i,
        {
            proof {
                assert(files@.take(i + 1).drop_last() =~= files@.take(i as int));
                assert(files@.take(i + 1).last() == files@[i as int]);
            }
            let ghost before = all@;
            match &files[i] {
                Some(m) => {
                    all.push(m.clone());
                    assert(metadata_views(all@) =~= metadata_views(before) + seq![m@]);
                },
                None => {
                    assert(metadata_views(all@) =~= metadata_views(before) + Seq::<MetadataView>::empty());
                },
            }
            i = i + 1;
        }
        assert(files@.take(files@.len() as int) =~= files@);
        all
    }

    /// The metadata of the package named `package_name`, looked up in the
    /// contents of the metadata files: the first entry of that name, or
    /// `None` where no file holds one.
    pub fn get_pkgs_metadata(&self, package_name: &String, files: &Vec<Vec<Metadata>>) -> (r: Option<
        Metadata,
    >)
        ensures
            r is None <==> !exists|i: int, j: int|
                0 <= i < files@.len() && 0 <= j < files@[i]@.len() && #[trigger] files@[i]@[j]@.name
                    == package_name@,
            r matches Some(m) ==> exists|i: int, j: int|
                0 <= i < files@.len() && 0 <= j < files@[i]@.len() && m@ == #[trigger] files@[i]@[j]@
                    && m@.name == package_name@,
    {
        let mut i: usize = 0;
        while i < files.len()
            invariant
                i <= files@.len(),
                forall|a: int, b: int|
                    0 <= a < i && 0 <= b < files@[a]@.len() ==> #[trigger] files@[a]@[b]@.name
                        != package_name@,
            decreases files@.len() - i,
        {
            let list = &files[i];
            let mut j: usize = 0;
            while j < list.len()
                invariant
                    i < files@.len(),
                    *list == files@[i as int],
                    j <= list@.len(),
                    forall|a: int, b: int|
                        0 <= a < i && 0 <= b < files@[a]@.len() ==> #[trigger] files@[a]@[b]@.name
                            != package_name@,
                    forall|b: int| 0 <= b < j ==> #[trigger] list@[b]@.name != package_name@,
                decreases list@.len() - j,
            {
                if list[j].name == *package_name {
                    assert(files@[i as int]@[j as int]@.name == package_name@);
                    return Some(list[j].clone());
                }
                j = j + 1;
            }
            i = i + 1;
        }
        None
    }

    /// The metadata file of the package named `package_name`.
    pub fn get_metadata_path(&self, package_name: &String) -> (p: String)
        ensures
            p@ == db_metadata_file(self@, package_name@),
    {
        let pkg_path = Database::get_package_path(&self.root_dir, package_name);
        join_path(pkg_path.as_str(), "metadata.json")
    }

    /// What recording `package_id` as its package's active version does.
    pub fn add_plan(&self, package_id: &PackageId) -> (rec: MetadataRecord)
        ensures
            rec.dir@ == db_package_dir(self@, package_id.name@),
            rec.file@ == db_metadata_file(self@, package_id.name@),
            rec.metadata@ == (MetadataView {
                name: package_id.name@,
                active_version: package_id.version@,
            }),
    {
        let dir = Database::get_package_path(&self.root_dir, &package_id.name);
        let file = self.get_metadata_path(&package_id.name);
        let metadata = Metadata {
            name: package_id.name.clone(),
            active_version: package_id.version.clone(),
        };
        MetadataRecord { dir, file, metadata }
    }
}

} // verus!
