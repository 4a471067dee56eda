use vstd::prelude::*;

use crate::errors::{CafError, CafErrorView};
use crate::package::{package_label, PackageIdView, PackageView};
pub use crate::package::{CompressedPackageContent, Package, PackageId};
use crate::path::{join_path, lemma_join_ends_with, spec_join};

verus! {

// Layout of the package store:
//   {root}/pkgs/{name}/{version}/content.zip   the contents of one version
//   {root}/pkgs/{name}/metadata.json       the active version of a package

/// The directory that holds all packages.
pub open spec fn packages_dir(root: Seq<char>) -> Seq<char> {
    spec_join(root, "pkgs"@)
}

/// The directory of one package.
pub open spec fn package_dir(root: Seq<char>, name: Seq<char>) -> Seq<char> {
    spec_join(packages_dir(root), name)
}

/// The directory of one version of a package.
pub open spec fn install_dir(root: Seq<char>, id: PackageIdView) -> Seq<char> {
    spec_join(package_dir(root, id.name), id.version)
}

/// The file that holds the contents of one version of a package.
pub open spec fn content_path(root: Seq<char>, id: PackageIdView) -> Seq<char> {
    spec_join(install_dir(root, id), "content.zip"@)
}

/// The file that records the active version of a package.
pub open spec fn metadata_path(root: Seq<char>, name: Seq<char>) -> Seq<char> {
    spec_join(package_dir(root, name), "metadata.json"@)
}

/// The metadata of a package, as values.
pub struct PackageMetadataView {
    pub name: Seq<char>,
    pub active_version: Seq<char>,
}

/// What the store records of a package: its name and its active version.
#[derive(Debug)]
pub struct PackageMetadata {
    name: String,
    active_version: String,
}

impl View for PackageMetadata {
    type V = PackageMetadataView;

    closed spec fn view(&self) -> PackageMetadataView {
        PackageMetadataView { name: self.name@, active_version: self.active_version@ }
    }
}

impl PackageMetadata {
    pub fn new(name: String, active_version: String) -> (m: PackageMetadata)
        ensures
            m@ == (PackageMetadataView { name: name@, active_version: active_version@ }),
    {
        PackageMetadata { name, active_version }
    }

    pub fn name(&self) -> (n: &String)
        ensures
            n@ == self@.name,
    {
        &self.name
    }

    pub fn active_version(&self) -> (v: &String)
        ensures
            v@ == self@.active_version,
    {
        &self.active_version
    }
}

impl Clone for PackageMetadata {
    fn clone(&self) -> (c: PackageMetadata)
        ensures
            c@ == self@,
    {
        PackageMetadata { name: self.name.clone(), active_version: self.active_version.clone() }
    }
}

impl PartialEq for PackageMetadata {
    fn eq(&self, other: &PackageMetadata) -> (r: bool) {
        self.name == other.name && self.active_version == other.active_version
    }
}

impl vstd::std_specs::cmp::PartialEqSpecImpl for PackageMetadata {
    open spec fn obeys_eq_spec() -> bool {
        true
    }

    open spec fn eq_spec(&self, other: &PackageMetadata) -> bool {
        self@ == other@
    }
}

impl Eq for PackageMetadata {
}

/// The steps of installing a package, each of which can fail.
#[derive(Clone, Copy, Debug, PartialEq, Eq, Structural)]
pub enum InstallStep {
    SerializeMetadata,
    CreateDirectory,
    WriteContent,
    WriteMetadata,
}

/// The place of a step in an installation: steps are carried out in this
/// order, each only after the one before it succeeded.
pub open spec fn install_step_index(step: InstallStep) -> int {
    match step {
        InstallStep::SerializeMetadata => 0,
        InstallStep::CreateDirectory => 1,
        InstallStep::WriteContent => 2,
        InstallStep::WriteMetadata => 3,
    }
}

/// The step that follows `step` once it succeeded, or `None` after the last.
pub open spec fn next_install_step(step: InstallStep) -> Option<InstallStep> {
    match step {
        InstallStep::SerializeMetadata => Some(InstallStep::CreateDirectory),
        InstallStep::CreateDirectory => Some(InstallStep::WriteContent),
        InstallStep::WriteContent => Some(InstallStep::WriteMetadata),
        InstallStep::WriteMetadata => None,
    }
}

/// A run of an installation, as the steps carried out and whether each
/// succeeded: it starts with the first step, and each step after the first
/// follows a step that succeeded.
pub open spec fn is_install_run(run: Seq<(InstallStep, bool)>) -> bool {
    &&& run.len() > 0 ==> run[0].0 == InstallStep::SerializeMetadata
    &&& forall|i: int|
        0 <= i < run.len() - 1 ==> #[trigger] run[i].1 && next_install_step(run[i].0) == Some(
            run[i + 1].0,
        )
}

/// In a run, the step at each place is the step of that index.
proof fn lemma_install_run_index(run: Seq<(InstallStep, bool)>, k: int)
    requires
        is_install_run(run),
        0 <= k < run.len(),
    ensures
        install_step_index(run[k].0) == k,
    decreases k,
{
    if k > 0 {
        lemma_install_run_index(run, k - 1);
        assert(run[k - 1].1);
    }
}

/// The metadata is never written before the contents were: in every run of an
/// installation, where the metadata file is written, the contents were
/// written, successfully, at an earlier step; so the metadata never names a
/// version whose contents are missing.
pub proof fn law_metadata_written_after_content(run: Seq<(InstallStep, bool)>, k: int)
    requires
        is_install_run(run),
        0 <= k < run.len(),
        run[k].0 == InstallStep::WriteMetadata,
    ensures
        exists|j: int| 0 <= j < k && #[trigger] run[j] == (InstallStep::WriteContent, true),
{
    lemma_install_run_index(run, k);
    lemma_install_run_index(run, k - 1);
    assert(run[k - 1].1);
    assert(run[k - 1] == (InstallStep::WriteContent, true));
}

/// A run stops at its first failure: no step follows one that failed.
pub proof fn law_install_stops_at_failure(run: Seq<(InstallStep, bool)>, k: int)
    requires
        is_install_run(run),
        0 <= k < run.len(),
        !run[k].1,
    ensures
        k == run.len() - 1,
{
    if k < run.len() - 1 {
        assert(run[k].1);
    }
}

/// The message of the error given when a step of installing `id` fails.
pub open spec fn install_step_message(
    step: InstallStep,
    id: PackageIdView,
    content_file: Seq<char>,
) -> Seq<char> {
    match step {
        InstallStep::SerializeMetadata =>
            "unable to serialize the package metadata into JSON for package "@ + package_label(id),
        InstallStep::CreateDirectory =>
            "unable to create the package directory for package "@ + package_label(id),
        InstallStep::WriteContent =>
            "unable to write the file content of the package "@ + package_label(id)
                + " to the file "@ + content_file,
        InstallStep::WriteMetadata =>
            "unable to write the package metadata for package "@ + package_label(id),
    }
}

/// What installing a package does, as values: the directory to create, the
/// file to write the contents to, and the file to record the metadata in.
pub struct InstallPlanView {
    pub package: PackageIdView,
    pub install_dir: Seq<char>,
    pub content_path: Seq<char>,
    pub content: Seq<u8>,
    pub metadata_path: Seq<char>,
    pub metadata: PackageMetadataView,
}

/// What installing `package` in the store rooted at `root` does: it creates the
/// version's directory, writes the contents there, and records the version as
/// the package's active one.
pub open spec fn install_plan_of(root: Seq<char>, package: PackageView) -> InstallPlanView {
    InstallPlanView {
        package: package.id,
        install_dir: install_dir(root, package.id),
        content_path: content_path(root, package.id),
        content: package.content,
        metadata_path: metadata_path(root, package.id.name),
        metadata: PackageMetadataView {
            name: package.id.name,
            active_version: package.id.version,
        },
    }
}

/// The work of installing one package, to be carried out in this order:
/// serialize `metadata`, create `install_dir`, write `content` to
/// `content_path`, write the serialized metadata to `metadata_path`.
#[derive(Debug)]
pub struct InstallPlan {
    pub package: PackageId,
    pub install_dir: String,
    pub content_path: String,
    pub content: CompressedPackageContent,
    pub metadata_path: String,
    pub metadata: PackageMetadata,
}

impl View for InstallPlan {
    type V = InstallPlanView;

    open spec fn view(&self) -> InstallPlanView {
        InstallPlanView {
            package: self.package@,
            install_dir: self.install_dir@,
            content_path: self.content_path@,
            content: self.content@,
            metadata_path: self.metadata_path@,
            metadata: self.metadata@,
        }
    }
}

impl InstallPlan {
    /// The step that an installation starts with.
    pub fn first_step(&self) -> (step: InstallStep)
        ensures
            step == InstallStep::SerializeMetadata,
            install_step_index(step) == 0,
    {
        InstallStep::SerializeMetadata
    }

    /// What follows once `step` of this installation was carried out with
    /// `outcome`: where it succeeded, the next step, or `None` once the last
    /// one is done; where it failed, the installation stops with the error
    /// of that step.
    pub fn after_step(&self, step: InstallStep, outcome: Result<(), String>) -> (r: Result<
        Option<InstallStep>,
        CafError,
    >)
        ensures
            outcome is Ok ==> r == Ok::<Option<InstallStep>, CafError>(next_install_step(step)),
            outcome is Err ==> r is Err && r->Err_0@ == (CafErrorView {
                message: install_step_message(step, self.package@, self.content_path@),
                source: Some(outcome->Err_0@),
            }),
    {
        match outcome {
            Ok(()) => Ok(
                match step {
                    InstallStep::SerializeMetadata => Some(InstallStep::CreateDirectory),
                    InstallStep::CreateDirectory => Some(InstallStep::WriteContent),
                    InstallStep::WriteContent => Some(InstallStep::WriteMetadata),
                    InstallStep::WriteMetadata => None,
                },
            ),
            Err(source) => Err(self.step_error(step, source)),
        }
    }

    /// The error given when `step` of this installation fails with `source`.
    pub fn step_error(&self, step: InstallStep, source: String) -> (e: CafError)
        ensures
            e@ == (CafErrorView {
                message: install_step_message(step, self.package@, self.content_path@),
                source: Some(source@),
            }),
    {
        let label = self.package.to_display_string();
        let mut message = match step {
            InstallStep::SerializeMetadata => String::from_str(
                "unable to serialize the package metadata into JSON for package ",
            ),
            InstallStep::CreateDirectory => String::from_str(
                "unable to create the package directory for package ",
            ),
            InstallStep::WriteContent => String::from_str(
                "unable to write the file content of the package ",
            ),
            InstallStep::WriteMetadata => String::from_str(
                "unable to write the package metadata for package ",
            ),
        };
        message.append(label.as_str());
        if step == InstallStep::WriteContent {
            message.append(" to the file ");
            message.append(self.content_path.as_str());
        }
        CafError::with_source(message.as_str(), source)
    }
}

/// The message of the error given when the contents of a package cannot be read.
pub open spec fn retrieve_error_message() -> Seq<char> {
    "unable to retrieve the package from the db"@
}

/// The message of the error given when the metadata file of a package cannot be opened.
pub open spec fn metadata_open_error_message(name: Seq<char>) -> Seq<char> {
    "unable to open the metadata file for the package version retrieval of package "@ + name
}

/// The message of the error given when the metadata file of a package cannot be parsed.
pub open spec fn metadata_parse_error_message(name: Seq<char>) -> Seq<char> {
    "unable to serialize the package metadata into JSON for package "@ + name
}

/// What came of reading the metadata file of a package.
#[derive(Debug)]
pub enum MetadataRead {
    /// The file could not be opened; the error's text.
    OpenFailed(String),
    /// The file could not be parsed; the error's text.
    ParseFailed(String),
    /// The file held this metadata.
    Parsed(PackageMetadata),
}

/// The package that a read of the contents of `request` gives: the contents
/// with `request` as the id, or the error of the read.
pub fn retrieved_package(request: &PackageId, read: Result<Vec<u8>, String>) -> (r: Result<
    Package,
    CafError,
>)
    ensures
        read is Ok <==> r is Ok,
        r matches Ok(p) ==> p@ == (PackageView { id: request@, content: read->Ok_0@ }),
        r matches Err(e) ==> e@ == (CafErrorView {
            message: retrieve_error_message(),
            source: Some(read->Err_0@),
        }),
{
    match read {
        Ok(bytes) => Ok(Package { id: request.clone(), content: CompressedPackageContent(bytes) }),
        Err(e) => Err(CafError::with_source("unable to retrieve the package from the db", e)),
    }
}

/// The active version of the package named `package_name`, from what a read
/// of its metadata file gave. The id carries the name and the version that the
/// file records.
pub fn active_package_version(package_name: &String, read: MetadataRead) -> (r: Result<
    PackageId,
    CafError,
>)
    ensures
        read is Parsed <==> r is Ok,
        r matches Ok(id) ==> id@ == (PackageIdView {
            name: read->Parsed_0@.name,
            version: read->Parsed_0@.active_version,
        }),
        read matches MetadataRead::OpenFailed(s) ==> r is Err && r->Err_0@ == (CafErrorView {
            message: metadata_open_error_message(package_name@),
            source: Some(s@),
        }),
        read matches MetadataRead::ParseFailed(s) ==> r is Err && r->Err_0@ == (CafErrorView {
            message: metadata_parse_error_message(package_name@),
            source: Some(s@),
        }),
{
    match read {
        MetadataRead::OpenFailed(s) => {
            let mut message = String::from_str(
                "unable to open the metadata file for the package version retrieval of package ",
            );
            message.append(package_name.as_str());
            Err(CafError::with_source(message.as_str(), s))
        },
        MetadataRead::ParseFailed(s) => {
            let mut message = String::from_str(
                "unable to serialize the package metadata into JSON for package ",
            );
            message.append(package_name.as_str());
            Err(CafError::with_source(message.as_str(), s))
        },
        MetadataRead::Parsed(m) => Ok(PackageId { name: m.name, version: m.active_version }),
    }
}

/// An entry of a package's directory, as listed: its name, where it is valid
/// unicode, and whether it is a directory (a version of the package).
#[derive(Debug)]
pub struct VersionEntry {
    pub name: Option<String>,
    pub is_dir: bool,
}

/// An entry of the packages directory, as listed: its name, where it is valid
/// unicode, and the listing of its own entries, or the error of that listing.
#[derive(Debug)]
pub struct PackageEntry {
    pub name: Option<String>,
    pub versions: Result<Vec<Result<VersionEntry, String>>, String>,
}

/// The ids that one listed version entry contributes: one where the entry is a
/// directory and both names are valid unicode, none otherwise.
pub open spec fn version_ids(package_name: Option<String>, entry: Result<VersionEntry, String>) -> Seq<
    PackageIdView,
> {
    match entry {
        Ok(v) => if v.is_dir && package_name is Some && v.name is Some {
            seq![PackageIdView { name: package_name->Some_0@, version: v.name->Some_0@ }]
        } else {
            Seq::empty()
        },
        Err(_) => Seq::empty(),
    }
}

/// The ids that the listed version entries of one package contribute, in order.
pub open spec fn versions_ids(
    package_name: Option<String>,
    entries: Seq<Result<VersionEntry, String>>,
) -> Seq<PackageIdView>
    decreases entries.len(),
{
    if entries.len() == 0 {
        Seq::empty()
    } else {
        versions_ids(package_name, entries.drop_last()) + version_ids(
            package_name,
            entries.last(),
        )
    }
}

/// The ids that one listed package entry contributes: those of its versions,
/// none where the entry or its listing failed.
pub open spec fn package_ids(entry: Result<PackageEntry, String>) -> Seq<PackageIdView> {
    match entry {
        Ok(p) => match p.versions {
            Ok(vs) => versions_ids(p.name, vs@),
            Err(_) => Seq::empty(),
        },
        Err(_) => Seq::empty(),
    }
}

/// The ids of all installed package versions, in the order of the listing.
pub open spec fn listed_ids(entries: Seq<Result<PackageEntry, String>>) -> Seq<PackageIdView>
    decreases entries.len(),
{
    if entries.len() == 0 {
        Seq::empty()
    } else {
        listed_ids(entries.drop_last()) + package_ids(entries.last())
    }
}

proof fn lemma_versions_ids_contains(
    package_name: Option<String>,
    entries: Seq<Result<VersionEntry, String>>,
    j: int,
)
    requires
        0 <= j < entries.len(),
        version_ids(package_name, entries[j]).len() == 1,
    ensures
        versions_ids(package_name, entries).contains(version_ids(package_name, entries[j])[0]),
    decreases entries.len(),
{
    let all = versions_ids(package_name, entries);
    let front = versions_ids(package_name, entries.drop_last());
    if j == entries.len() - 1 {
        assert(all[front.len() as int] == version_ids(package_name, entries[j])[0]);
    } else {
        assert(entries.drop_last()[j] == entries[j]);
        lemma_versions_ids_contains(package_name, entries.drop_last(), j);
        let k = choose|k: int|
            0 <= k < front.len() && front[k] == version_ids(package_name, entries[j])[0];
        assert(all[k] == front[k]);
    }
}

proof fn lemma_listed_ids_contains(
    entries: Seq<Result<PackageEntry, String>>,
    i: int,
    id: PackageIdView,
)
    requires
        0 <= i < entries.len(),
        package_ids(entries[i]).contains(id),
    ensures
        listed_ids(entries).contains(id),
    decreases entries.len(),
{
    let all = listed_ids(entries);
    let front = listed_ids(entries.drop_last());
    if i == entries.len() - 1 {
        let k = choose|k: int| 0 <= k < package_ids(entries[i]).len() && package_ids(entries[i])[k] == id;
        assert(all[front.len() + k] == id);
    } else {
        assert(entries.drop_last()[i] == entries[i]);
        lemma_listed_ids_contains(entries.drop_last(), i, id);
        let k = choose|k: int| 0 <= k < front.len() && front[k] == id;
        assert(all[k] == front[k]);
    }
}

/// Every installed version that the listing shows is listed: where the
/// listing holds a readable package directory with a valid name, and in it a
/// version directory with a valid name, their id is among the ids listed.
pub proof fn lemma_listed_version_is_found(
    entries: Seq<Result<PackageEntry, String>>,
    i: int,
    j: int,
)
    requires
        0 <= i < entries.len(),
        entries[i] is Ok,
        entries[i]->Ok_0.name is Some,
        entries[i]->Ok_0.versions is Ok,
        0 <= j < entries[i]->Ok_0.versions->Ok_0@.len(),
        entries[i]->Ok_0.versions->Ok_0@[j] is Ok,
        entries[i]->Ok_0.versions->Ok_0@[j]->Ok_0.is_dir,
        entries[i]->Ok_0.versions->Ok_0@[j]->Ok_0.name is Some,
    ensures
        listed_ids(entries).contains(
            PackageIdView {
                name: entries[i]->Ok_0.name->Some_0@,
                version: entries[i]->Ok_0.versions->Ok_0@[j]->Ok_0.name->Some_0@,
            },
        ),
{
    let p = entries[i]->Ok_0;
    let vs = p.versions->Ok_0@;
    let id = PackageIdView {
        name: p.name->Some_0@,
        version: vs[j]->Ok_0.name->Some_0@,
    };
    assert(version_ids(p.name, vs[j])[0] == id);
    lemma_versions_ids_contains(p.name, vs, j);
    lemma_listed_ids_contains(entries, i, id);
}

/// The listing `entries` shows, at places `i` and `j`, a version directory
/// named `version` of a package directory named `name`.
pub open spec fn lists_version(
    entries: Seq<Result<PackageEntry, String>>,
    i: int,
    j: int,
    name: Seq<char>,
    version: Seq<char>,
) -> bool {
    &&& 0 <= i < entries.len()
    &&& entries[i] matches Ok(p)
    &&& p.name matches Some(n)
    &&& n@ == name
    &&& p.versions matches Ok(vs)
    &&& 0 <= j < vs@.len()
    &&& vs@[j] matches Ok(v)
    &&& v.is_dir
    &&& v.name matches Some(vn)
    &&& vn@ == version
}

/// The listing `entries` of the packages directory of the store rooted at
/// `root` shows every version directory that `dirs` holds.
pub open spec fn listing_shows_all(
    root: Seq<char>,
    dirs: Set<Seq<char>>,
    entries: Seq<Result<PackageEntry, String>>,
) -> bool {
    forall|id: PackageIdView|
        #[trigger] dirs.contains(install_dir(root, id)) ==> exists|i: int, j: int|
            lists_version(entries, i, j, id.name, id.version)
}

/// A listing taken after an installation shows the installed version: where
/// the store's directories, once the installation of `package` created its
/// version directory, are all shown by the listing, the ids listed include
/// `package.id`.
pub proof fn law_listing_after_install_shows_id(
    root: Seq<char>,
    package: PackageView,
    dirs: Set<Seq<char>>,
    entries: Seq<Result<PackageEntry, String>>,
)
    requires
        listing_shows_all(root, dirs.insert(install_plan_of(root, package).install_dir), entries),
    ensures
        listed_ids(entries).contains(package.id),
{
    let after = dirs.insert(install_plan_of(root, package).install_dir);
    assert(after.contains(install_dir(root, package.id)));
    let (i, j) = choose|i: int, j: int|
        lists_version(entries, i, j, package.id.name, package.id.version);
    lemma_listed_version_is_found(entries, i, j);
}

/// The listed version entry `e` is a directory named `version`.
pub open spec fn is_version_dir(e: Result<VersionEntry, String>, version: Seq<char>) -> bool {
    &&& e matches Ok(v)
    &&& v.is_dir
    &&& v.name matches Some(vn)
    &&& vn@ == version
}

/// Every id the versions of one package contribute comes from a listed
/// version entry that is a directory with a valid name.
proof fn lemma_versions_ids_sound(
    package_name: Option<String>,
    entries: Seq<Result<VersionEntry, String>>,
    id: PackageIdView,
)
    requires
        versions_ids(package_name, entries).contains(id),
    ensures
        package_name matches Some(n) && n@ == id.name,
        exists|j: int|
            0 <= j < entries.len() && is_version_dir(#[trigger] entries[j], id.version),
    decreases entries.len(),
{
    let front = versions_ids(package_name, entries.drop_last());
    let last = version_ids(package_name, entries.last());
    let all = versions_ids(package_name, entries);
    assert(all == front + last);
    let k = choose|k: int| 0 <= k < all.len() && all[k] == id;
    if k < front.len() {
        assert(front[k] == id);
        assert(front.contains(id));
        lemma_versions_ids_sound(package_name, entries.drop_last(), id);
        let j = choose|j: int|
            0 <= j < entries.drop_last().len() && is_version_dir(
                #[trigger] entries.drop_last()[j],
                id.version,
            );
        assert(entries[j] == entries.drop_last()[j]);
    } else {
        assert(last[k - front.len()] == id);
        let j = entries.len() - 1;
        assert(entries[j] == entries.last());
    }
}

/// Every id the listing gives comes from a listed package directory and a
/// version entry of it that is a directory: a file beside the versions, such
/// as the metadata file, is never listed as a version.
pub proof fn law_listed_ids_come_from_version_directories(
    entries: Seq<Result<PackageEntry, String>>,
    id: PackageIdView,
)
    requires
        listed_ids(entries).contains(id),
    ensures
        exists|i: int, j: int| lists_version(entries, i, j, id.name, id.version),
    decreases entries.len(),
{
    let front = listed_ids(entries.drop_last());
    let last = package_ids(entries.last());
    let all = listed_ids(entries);
    assert(all == front + last);
    let k = choose|k: int| 0 <= k < all.len() && all[k] == id;
    if k < front.len() {
        assert(front[k] == id);
        law_listed_ids_come_from_version_directories(entries.drop_last(), id);
        let (i, j) = choose|i: int, j: int|
            lists_version(entries.drop_last(), i, j, id.name, id.version);
        assert(entries[i] == entries.drop_last()[i]);
        assert(lists_version(entries, i, j, id.name, id.version));
    } else {
        assert(last[k - front.len()] == id);
        assert(last.contains(id));
        let i = entries.len() - 1;
        assert(entries[i] == entries.last());
        let p = entries[i]->Ok_0;
        let vs = p.versions->Ok_0@;
        lemma_versions_ids_sound(p.name, vs, id);
        let j = choose|j: int|
            0 <= j < vs.len() && is_version_dir(#[trigger] vs[j], id.version);
        assert(lists_version(entries, i, j, id.name, id.version));
    }
}

/// The views of a sequence of package ids.
pub open spec fn ids_view(ids: Seq<PackageId>) -> Seq<PackageIdView> {
    ids.map_values(|id: PackageId| id@)
}

/// The message of the error given when the packages directory cannot be listed.
pub open spec fn listing_error_message(dir: Seq<char>) -> Seq<char> {
    "unable to read subdirectories of "@ + dir
}

fn push_version_ids(
    ids: &mut Vec<PackageId>,
    package_name: &Option<String>,
    entries: &Vec<Result<VersionEntry, String>>,
)
    ensures
        ids_view(final(ids)@) == ids_view(old(ids)@) + versions_ids(*package_name, entries@),
{
    let mut i: usize = 0;
    while i < entries.len()
        invariant
            i <= entries.len(),
            ids_view(ids@) == ids_view(old(ids)@) + versions_ids(*package_name, entries@.take(i as int)),
        decreases entries.len() - i,
    {
        proof {
            assert(entries@.take(i + 1).drop_last() =~= entries@.take(i as int));
            assert(entries@.take(i + 1).last() == entries@[i as int]);
        }
        let ghost before = ids@;
        match &entries[i] {
            Ok(v) => {
                if v.is_dir {
                    match (package_name, &v.name) {
                        (Some(n), Some(vn)) => {
                            ids.push(PackageId { name: n.clone(), version: vn.clone() });
                            assert(ids_view(ids@) =~= ids_view(before) + seq![ids@.last()@]);
                        },
                        _ => {},
                    }
                }
            },
            Err(_) => {},
        }
        proof {
            assert(ids_view(old(ids)@) + versions_ids(*package_name, entries@.take(i + 1))
                =~= ids_view(old(ids)@) + versions_ids(*package_name, entries@.take(i as int))
                + version_ids(*package_name, entries@[i as int]));
        }
        i = i + 1;
    }
    assert(entries@.take(entries@.len() as int) =~= entries@);
}

/// What a file of the store holds, as values: the contents of a package
/// version, or the metadata of a package.
pub enum StoredFile {
    Content(Seq<u8>),
    Metadata(PackageMetadataView),
}

/// The store after an installation has been carried out on it: every file
/// that the plan writes holds what the plan writes there.
pub open spec fn after_install(
    store: Map<Seq<char>, StoredFile>,
    plan: InstallPlanView,
) -> Map<Seq<char>, StoredFile> {
    store.insert(plan.content_path, StoredFile::Content(plan.content)).insert(
        plan.metadata_path,
        StoredFile::Metadata(plan.metadata),
    )
}

/// The file of a version's contents and the metadata file of a package are
/// never the same file: one ends in `content.zip`, the other in `metadata.json`.
pub proof fn lemma_content_and_metadata_paths_differ(root: Seq<char>, id: PackageIdView)
    ensures
        content_path(root, id) != metadata_path(root, id.name),
{
    reveal_strlit("content.zip");
    reveal_strlit("metadata.json");
    let c = content_path(root, id);
    let m = metadata_path(root, id.name);
    lemma_join_ends_with(install_dir(root, id), "content.zip"@);
    lemma_join_ends_with(package_dir(root, id.name), "metadata.json"@);
    assert(c.last() == 'p') by {
        assert(c[c.len() - 1] == "content.zip"@[10]);
    }
    assert(m.last() == 'n') by {
        assert(m[m.len() - 1] == "metadata.json"@[12]);
    }
}

/// Retrieving a package after installing it gives back that package: once
/// the installation of `package` has been carried out, whatever the store held
/// before, the file that retrieval reads for `package.id` holds the package's
/// contents, and the package made of them is `package`.
pub proof fn lemma_retrieve_after_install(
    root: Seq<char>,
    package: PackageView,
    store: Map<Seq<char>, StoredFile>,
)
    ensures
        after_install(store, install_plan_of(root, package)).contains_key(
            content_path(root, package.id),
        ),
        after_install(store, install_plan_of(root, package))[content_path(root, package.id)]
            == StoredFile::Content(package.content),
        (PackageView { id: package.id, content: package.content }) == package,
{
    lemma_content_and_metadata_paths_differ(root, package.id);
}

/// The active version after an installation is the installed one: once the
/// installation of `package` has been carried out, the metadata file of its
/// name records metadata from which the active version read is `package.id`.
pub proof fn lemma_active_version_after_install(
    root: Seq<char>,
    package: PackageView,
    store: Map<Seq<char>, StoredFile>,
)
    ensures
        ({
            let after = after_install(store, install_plan_of(root, package));
            &&& after.contains_key(metadata_path(root, package.id.name))
            &&& after[metadata_path(root, package.id.name)] matches StoredFile::Metadata(m)
            &&& (PackageIdView { name: m.name, version: m.active_version }) == package.id
        }),
{
}

/// The last version installed is the active one, whatever the order of the
/// version strings: once `first` and then `second`, two versions of one
/// package, were installed, whatever the store held before, the metadata file
/// of the package records metadata from which the active version read is
/// `second.id`.
pub proof fn law_last_install_is_active(
    root: Seq<char>,
    first: PackageView,
    second: PackageView,
    store: Map<Seq<char>, StoredFile>,
)
    requires
        first.id.name == second.id.name,
    ensures
        ({
            let after = after_install(
                after_install(store, install_plan_of(root, first)),
                install_plan_of(root, second),
            );
            &&& after.contains_key(metadata_path(root, second.id.name))
            &&& after[metadata_path(root, second.id.name)] matches StoredFile::Metadata(m)
            &&& (PackageIdView { name: m.name, version: m.active_version }) == second.id
        }),
{
}

/// A name that can stand as one component of a path: it is not empty and
/// holds no separator.
pub open spec fn is_component(s: Seq<char>) -> bool {
    s.len() > 0 && !s.contains('/')
}

/// A sequence without a separator has none at its first place.
proof fn lemma_no_separator_first(c: Seq<char>)
    requires
        c.len() > 0,
        !c.contains('/'),
    ensures
        c[0] != '/',
{
    if c[0] == '/' {
        assert(c.contains('/'));
    }
}

/// Joining a component without a separator to a path that does not end in
/// one puts a separator between them.
proof fn lemma_join_plain(base: Seq<char>, c: Seq<char>)
    requires
        base.len() > 0,
        base.last() != '/',
        !c.contains('/'),
    ensures
        spec_join(base, c) == base + seq!['/'] + c,
{
    if c.len() > 0 {
        lemma_no_separator_first(c);
    }
}

/// `root` joined with `pkgs` ends in `pkgs`.
proof fn lemma_pkgs_base(root: Seq<char>)
    ensures
        spec_join(root, "pkgs"@).len() >= 4,
        spec_join(root, "pkgs"@).last() == 's',
        spec_join(root, "pkgs"@).subrange(
            spec_join(root, "pkgs"@).len() - 4,
            spec_join(root, "pkgs"@).len() as int,
        ) == "pkgs"@,
{
    reveal_strlit("pkgs");
    let b = spec_join(root, "pkgs"@);
    lemma_join_ends_with(root, "pkgs"@);
    assert(b.last() == b.subrange(b.len() - 4, b.len() as int)[3]);
}

/// Where two paths made of a component without separator, a separator and a
/// rest are equal, their components and their rests are equal.
proof fn lemma_split_at_separator(s1: Seq<char>, t1: Seq<char>, s2: Seq<char>, t2: Seq<char>)
    requires
        !s1.contains('/'),
        !s2.contains('/'),
        s1 + (seq!['/'] + t1) == s2 + (seq!['/'] + t2),
    ensures
        s1 == s2,
        t1 == t2,
{
    let x = s1 + (seq!['/'] + t1);
    let y = s2 + (seq!['/'] + t2);
    if s1.len() < s2.len() {
        assert(x[s1.len() as int] == '/');
        assert(y[s1.len() as int] == s2[s1.len() as int]);
        assert(s2.contains('/'));
    }
    if s2.len() < s1.len() {
        assert(y[s2.len() as int] == '/');
        assert(x[s2.len() as int] == s1[s2.len() as int]);
        assert(s1.contains('/'));
    }
    assert(s1 =~= x.subrange(0, s1.len() as int));
    assert(s2 =~= y.subrange(0, s2.len() as int));
    assert(t1 =~= x.subrange(s1.len() as int + 1, x.len() as int));
    assert(t2 =~= y.subrange(s2.len() as int + 1, y.len() as int));
}

/// Two paths with a common start are equal only where what follows it is.
proof fn lemma_strip_prefix(p: Seq<char>, a: Seq<char>, b: Seq<char>)
    requires
        p + a == p + b,
    ensures
        a == b,
{
    assert(a =~= (p + a).subrange(p.len() as int, (p + a).len() as int));
    assert(b =~= (p + b).subrange(p.len() as int, (p + b).len() as int));
}

/// The directory of a package is `{root}/pkgs/{name}`, spelled out.
#[verifier::spinoff_prover]
#[verifier::rlimit(40)]
proof fn lemma_package_dir_shape(root: Seq<char>, name: Seq<char>)
    requires
        !name.contains('/'),
    ensures
        package_dir(root, name) == spec_join(root, "pkgs"@) + (seq!['/'] + name),
{
    lemma_pkgs_base(root);
    lemma_join_plain(spec_join(root, "pkgs"@), name);
    assert(spec_join(root, "pkgs"@) + seq!['/'] + name =~= spec_join(root, "pkgs"@) + (seq!['/']
        + name));
}

/// The contents file of a version is `{root}/pkgs/{name}/{version}/content.zip`,
/// spelled out.
proof fn lemma_content_path_shape(root: Seq<char>, id: PackageIdView)
    requires
        is_component(id.name),
        is_component(id.version),
    ensures
        content_path(root, id) == spec_join(root, "pkgs"@) + (seq!['/'] + (id.name + (seq!['/']
            + (id.version + (seq!['/'] + "content.zip"@))))),
{
    reveal_strlit("content.zip");
    lemma_package_dir_shape(root, id.name);
    let b = spec_join(root, "pkgs"@);
    let pd = package_dir(root, id.name);
    assert(pd.last() == id.name.last());
    lemma_join_plain(pd, id.version);
    let d = install_dir(root, id);
    assert(d.last() == id.version.last());
    assert(!id.version.contains('/'));
    assert(id.version.last() != '/') by {
        if id.version.last() == '/' {
            assert(id.version.contains('/'));
        }
    }
    assert(id.name.last() != '/') by {
        if id.name.last() == '/' {
            assert(id.name.contains('/'));
        }
    }
    assert(!"content.zip"@.contains('/')) by {
        if "content.zip"@.contains('/') {
            let k = choose|k: int| 0 <= k < "content.zip"@.len() && "content.zip"@[k] == '/';
        }
    }
    lemma_join_plain(d, "content.zip"@);
    assert(content_path(root, id) =~= b + (seq!['/'] + (id.name + (seq!['/'] + (id.version + (
    seq!['/'] + "content.zip"@))))));
}

/// The metadata file of a package is `{root}/pkgs/{name}/metadata.json`,
/// spelled out.
proof fn lemma_metadata_path_shape(root: Seq<char>, name: Seq<char>)
    requires
        is_component(name),
    ensures
        metadata_path(root, name) == spec_join(root, "pkgs"@) + (seq!['/'] + (name + (seq!['/']
            + "metadata.json"@))),
{
    reveal_strlit("metadata.json");
    lemma_package_dir_shape(root, name);
    let b = spec_join(root, "pkgs"@);
    let pd = package_dir(root, name);
    assert(pd.last() == name.last());
    assert(name.last() != '/') by {
        if name.last() == '/' {
            assert(name.contains('/'));
        }
    }
    assert(!"metadata.json"@.contains('/')) by {
        if "metadata.json"@.contains('/') {
            let k = choose|k: int| 0 <= k < "metadata.json"@.len() && "metadata.json"@[k] == '/';
        }
    }
    lemma_join_plain(pd, "metadata.json"@);
    assert(metadata_path(root, name) =~= b + (seq!['/'] + (name + (seq!['/'] + "metadata.json"@))));
}

/// The directory of a package is the packages directory `{root}/pkgs` joined
/// with the whole name: its path ends in `pkgs/` and the name, and two names
/// without a separator share a directory only where they are the same name.
pub proof fn law_package_dir_is_named_after_the_package(
    root: Seq<char>,
    n1: Seq<char>,
    n2: Seq<char>,
)
    requires
        !n1.contains('/'),
        !n2.contains('/'),
    ensures
        package_dir(root, n1) == spec_join(spec_join(root, "pkgs"@), n1),
        ("pkgs/"@ + n1).is_suffix_of(package_dir(root, n1)),
        package_dir(root, n1) == package_dir(root, n2) ==> n1 == n2,
{
    reveal_strlit("pkgs/");
    reveal_strlit("pkgs");
    lemma_pkgs_base(root);
    lemma_package_dir_shape(root, n1);
    lemma_package_dir_shape(root, n2);
    let b = spec_join(root, "pkgs"@);
    let d = package_dir(root, n1);
    let suffix = "pkgs/"@ + n1;
    assert(d.subrange(d.len() - suffix.len(), d.len() as int) =~= suffix) by {
        assert forall|k: int| 0 <= k < suffix.len() implies d[d.len() - suffix.len() + k]
            == suffix[k] by {
            if k < 4 {
                assert(d[b.len() - 4 + k] == b[b.len() - 4 + k]);
                assert(b[b.len() - 4 + k] == b.subrange(b.len() - 4, b.len() as int)[k]);
            }
        }
    }
    if package_dir(root, n1) == package_dir(root, n2) {
        lemma_strip_prefix(b, seq!['/'] + n1, seq!['/'] + n2);
        lemma_strip_prefix(seq!['/'], n1, n2);
    }
}

/// Each version has a contents file of its own: two package versions whose
/// names and versions are components share a contents file only where they
/// are the same version of the same package.
pub proof fn law_content_paths_are_distinct(root: Seq<char>, a: PackageIdView, b: PackageIdView)
    requires
        is_component(a.name),
        is_component(a.version),
        is_component(b.name),
        is_component(b.version),
    ensures
        content_path(root, a) == content_path(root, b) ==> a == b,
{
    lemma_content_path_shape(root, a);
    lemma_content_path_shape(root, b);
    if content_path(root, a) == content_path(root, b) {
        let base = spec_join(root, "pkgs"@) + seq!['/'];
        let c = seq!['/'] + "content.zip"@;
        assert(content_path(root, a) =~= base + (a.name + (seq!['/'] + (a.version + c))));
        assert(content_path(root, b) =~= base + (b.name + (seq!['/'] + (b.version + c))));
        lemma_strip_prefix(
            base,
            a.name + (seq!['/'] + (a.version + c)),
            b.name + (seq!['/'] + (b.version + c)),
        );
        lemma_split_at_separator(a.name, a.version + c, b.name, b.version + c);
        lemma_split_at_separator(a.version, "content.zip"@, b.version, "content.zip"@);
    }
}

/// Each package has a metadata file of its own: two package names that are
/// components share a metadata file only where they are the same name.
pub proof fn law_metadata_paths_are_distinct(root: Seq<char>, n1: Seq<char>, n2: Seq<char>)
    requires
        is_component(n1),
        is_component(n2),
    ensures
        metadata_path(root, n1) == metadata_path(root, n2) ==> n1 == n2,
{
    lemma_metadata_path_shape(root, n1);
    lemma_metadata_path_shape(root, n2);
    if metadata_path(root, n1) == metadata_path(root, n2) {
        let base = spec_join(root, "pkgs"@) + seq!['/'];
        let m = seq!['/'] + "metadata.json"@;
        assert(metadata_path(root, n1) =~= base + (n1 + m));
        assert(metadata_path(root, n2) =~= base + (n2 + m));
        lemma_strip_prefix(base, n1 + m, n2 + m);
        lemma_split_at_separator(n1, "metadata.json"@, n2, "metadata.json"@);
    }
}

/// A contents file is never a metadata file: one ends in `content.zip`, the
/// other in `metadata.json`.
proof fn lemma_content_is_not_metadata(root: Seq<char>, id: PackageIdView, name: Seq<char>)
    ensures
        content_path(root, id) != metadata_path(root, name),
{
    reveal_strlit("content.zip");
    reveal_strlit("metadata.json");
    let c = content_path(root, id);
    let m = metadata_path(root, name);
    lemma_join_ends_with(install_dir(root, id), "content.zip"@);
    lemma_join_ends_with(package_dir(root, name), "metadata.json"@);
    assert(c[c.len() - 1] == "content.zip"@[10]);
    assert(m[m.len() - 1] == "metadata.json"@[12]);
}

/// Installing one version keeps what another version holds: once `first` and
/// then a different version `second` were installed, the contents file of
/// `first` still holds `first`'s contents, whatever the store held before.
pub proof fn law_install_keeps_other_versions(
    root: Seq<char>,
    first: PackageView,
    second: PackageView,
    store: Map<Seq<char>, StoredFile>,
)
    requires
        is_component(first.id.name),
        is_component(first.id.version),
        is_component(second.id.name),
        is_component(second.id.version),
        first.id != second.id,
    ensures
        ({
            let after = after_install(
                after_install(store, install_plan_of(root, first)),
                install_plan_of(root, second),
            );
            &&& after.contains_key(content_path(root, first.id))
            &&& after[content_path(root, first.id)] == StoredFile::Content(first.content)
        }),
{
    law_content_paths_are_distinct(root, first.id, second.id);
    lemma_content_is_not_metadata(root, first.id, first.id.name);
    lemma_content_is_not_metadata(root, first.id, second.id.name);
}

/// Installing a package leaves the active version of every other package as
/// it was: the metadata file of any other name holds, after the installation,
/// just what it held before, or is missing as it was.
pub proof fn law_install_keeps_other_active_versions(
    root: Seq<char>,
    package: PackageView,
    other: Seq<char>,
    store: Map<Seq<char>, StoredFile>,
)
    requires
        is_component(package.id.name),
        is_component(other),
        other != package.id.name,
    ensures
        ({
            let after = after_install(store, install_plan_of(root, package));
            &&& after.contains_key(metadata_path(root, other)) == store.contains_key(
                metadata_path(root, other),
            )
            &&& store.contains_key(metadata_path(root, other)) ==> after[metadata_path(root, other)]
                == store[metadata_path(root, other)]
        }),
{
    law_metadata_paths_are_distinct(root, package.id.name, other);
    lemma_content_is_not_metadata(root, package.id, other);
}

/// The package store rooted at a directory.
#[derive(Debug)]
pub struct PackageManager {
    root_dir: String,
}

impl View for PackageManager {
    type V = Seq<char>;

    closed spec fn view(&self) -> Seq<char> {
        self.root_dir@
    }
}

/// The message of the error given when the root is not a directory.
pub open spec fn invalid_root_message(root: Seq<char>) -> Seq<char> {
    root + " is not a valid directory"@
}

impl PackageManager {
    /// A store rooted at `root_dir`; `root_is_dir` says whether that path is a
    /// directory. The packages directory is to be created next.
    pub fn new(root_dir: String, root_is_dir: bool) -> (r: Result<PackageManager, CafError>)
        ensures
            root_is_dir <==> r is Ok,
            r matches Ok(pm) ==> pm@ == root_dir@,
            r matches Err(e) ==> e@ == (CafErrorView {
                message: invalid_root_message(root_dir@),
                source: None,
            }),
    {
        if !root_is_dir {
            let mut message = root_dir;
            message.append(" is not a valid directory");
            return Err(CafError::new(message.as_str()));
        }
        Ok(PackageManager { root_dir })
    }

    /// The root directory of the store.
    pub fn root_dir(&self) -> (r: &String)
        ensures
            r@ == self@,
    {
        &self.root_dir
    }

    /// The directory that holds all packages.
    pub fn get_packages_dir_path(&self) -> (p: String)
        ensures
            p@ == packages_dir(self@),
    {
        join_path(self.root_dir.as_str(), "pkgs")
    }

    /// The directory of the package named `package_name`.
    pub fn get_package_path(&self, package_name: &String) -> (p: String)
        ensures
            p@ == package_dir(self@, package_name@),
    {
        let dir = self.get_packages_dir_path();
        join_path(dir.as_str(), package_name.as_str())
    }

    /// The file that holds the contents of the package version `id`.
    pub fn get_content_path(&self, id: &PackageId) -> (p: String)
        ensures
            p@ == content_path(self@, id@),
    {
        let pkg = self.get_package_path(&id.name);
        let dir = join_path(pkg.as_str(), id.version.as_str());
        join_path(dir.as_str(), "content.zip")
    }

    /// The file that records the active version of the package named `package_name`.
    pub fn get_metadata_path(&self, package_name: &String) -> (p: String)
        ensures
            p@ == metadata_path(self@, package_name@),
    {
        let pkg = self.get_package_path(package_name);
        join_path(pkg.as_str(), "metadata.json")
    }
    /// What installing `package` does.
    pub fn install_plan(&self, package: Package) -> (plan: InstallPlan)
        ensures
            plan@ == install_plan_of(self@, package@),
    {
        let pkg_path = self.get_package_path(&package.id.name);
        let install_dir = join_path(pkg_path.as_str(), package.id.version.as_str());
        let content_path = join_path(install_dir.as_str(), "content.zip");
        let metadata_path = join_path(pkg_path.as_str(), "metadata.json");
        let metadata = PackageMetadata::new(package.id.name.clone(), package.id.version.clone());
        InstallPlan {
            package: package.id,
            install_dir,
            content_path,
            content: package.content,
            metadata_path,
            metadata,
        }
    }

    /// The file to read to retrieve the package version `request`.
    pub fn retrieve_package_path(&self, request: &PackageId) -> (p: String)
        ensures
            p@ == content_path(self@, request@),
    {
        self.get_content_path(request)
    }
    /// The ids of all installed package versions, from the listing of the
    /// packages directory: every version directory whose own name and whose
    /// package's name are valid unicode, in the order of the listing. Entries
    /// that could not be read are passed over; a listing that failed as a
    /// whole gives an error.
    pub fn all_package_ids_iter(
        &self,
        listing: Result<Vec<Result<PackageEntry, String>>, String>,
    ) -> (r: Result<Vec<PackageId>, CafError>)
        ensures
            listing is Ok <==> r is Ok,
            r matches Ok(ids) ==> ids_view(ids@) == listed_ids(listing->Ok_0@),
            r matches Err(e) ==> e@ == (CafErrorView {
                message: listing_error_message(packages_dir(self@)),
                source: Some(listing->Err_0@),
            }),
    {
        match listing {
            Err(e) => {
                let dir = self.get_packages_dir_path();
                let mut message = String::from_str("unable to read subdirectories of ");
                message.append(dir.as_str());
                Err(CafError::with_source(message.as_str(), e))
            },
            Ok(entries) => {
                let mut ids: Vec<PackageId> = Vec::new();
                let mut i: usize = 0;
                while i < entries.len()
                    invariant
                        i <= entries.len(),
                        ids_view(ids@) == listed_ids(entries@.take(i as int)),
                    decreases entries.len() - i,
                {
                    proof {
                        assert(entries@.take(i + 1).drop_last() =~= entries@.take(i as int));
                        assert(entries@.take(i + 1).last() == entries@[i as int]);
                    }
                    match &entries[i] {
                        Ok(p) => match &p.versions {
                            Ok(vs) => push_version_ids(&mut ids, &p.name, vs),
                            Err(_) => {},
                        },
                        Err(_) => {},
                    }
                    proof {
                        assert(ids_view(ids@) =~= listed_ids(entries@.take(i + 1)));
                    }
                    i = i + 1;
                }
                assert(entries@.take(entries@.len() as int) =~= entries@);
                Ok(ids)
            },
        }
    }
}

} // verus!
