use vstd::prelude::*;

verus! {

/// The identity of a package, as values.
pub struct PackageIdView {
    pub name: Seq<char>,
    pub version: Seq<char>,
}

/// A package: its name and one of its versions.
#[derive(Debug)]
pub struct PackageId {
    pub name: String,
    pub version: String,
}

impl View for PackageId {
    type V = PackageIdView;

    open spec fn view(&self) -> PackageIdView {
        PackageIdView { name: self.name@, version: self.version@ }
    }
}

/// How a package is displayed: `name@version`.
pub open spec fn package_label(id: PackageIdView) -> Seq<char> {
    id.name + seq!['@'] + id.version
}

impl PackageId {
    pub fn new(name: String, version: String) -> (id: PackageId)
        ensures
            id.name@ == name@,
            id.version@ == version@,
    {
        PackageId { name, version }
    }

    /// The text this package id is displayed as.
    pub fn to_display_string(&self) -> (s: String)
        ensures
            s@ == package_label(self@),
    {
        let mut s = self.name.clone();
        s.append("@");
        s.append(self.version.as_str());
        proof {
            reveal_strlit("@");
        }
        s
    }
}

impl Clone for PackageId {
    fn clone(&self) -> (c: PackageId)
        ensures
            c@ == self@,
    {
        PackageId { name: self.name.clone(), version: self.version.clone() }
    }
}

impl PartialEq for PackageId {
    fn eq(&self, other: &PackageId) -> (r: bool) {
        self.name == other.name && self.version == other.version
    }
}

impl vstd::std_specs::cmp::PartialEqSpecImpl for PackageId {
    open spec fn obeys_eq_spec() -> bool {
        true
    }

    open spec fn eq_spec(&self, other: &PackageId) -> bool {
        self@ == other@
    }
}

impl Eq for PackageId {
}

/// The contents of a package, compressed into a single file (zip, tar.gz, ...).
#[derive(Debug)]
pub struct CompressedPackageContent(pub Vec<u8>);

impl View for CompressedPackageContent {
    type V = Seq<u8>;

    open spec fn view(&self) -> Seq<u8> {
        self.0@
    }
}

impl Clone for CompressedPackageContent {
    fn clone(&self) -> (c: CompressedPackageContent)
        ensures
            c@ == self@,
    {
        CompressedPackageContent(self.0.clone())
    }
}

/// Whether two byte sequences hold the same bytes.
pub fn bytes_equal(a: &Vec<u8>, b: &Vec<u8>) -> (r: bool)
    ensures
        r == (a@ == b@),
{
    if a.len() != b.len() {
        return false;
    }
    let mut i: usize = 0;
    while i < a.len()
        invariant
            a.len() == b.len(),
            i <= a.len(),
            forall|j: int| 0 <= j < i ==> a@[j] == b@[j],
        decreases a.len() - i,
    {
        if a[i] != b[i] {
            return false;
        }
        i = i + 1;
    }
    assert(a@ =~= b@);
    true
}

impl PartialEq for CompressedPackageContent {
    fn eq(&self, other: &CompressedPackageContent) -> (r: bool) {
        bytes_equal(&self.0, &other.0)
    }
}

impl vstd::std_specs::cmp::PartialEqSpecImpl for CompressedPackageContent {
    open spec fn obeys_eq_spec() -> bool {
        true
    }

    open spec fn eq_spec(&self, other: &CompressedPackageContent) -> bool {
        self@ == other@
    }
}

impl Eq for CompressedPackageContent {
}

/// A package as values.
pub struct PackageView {
    pub id: PackageIdView,
    pub content: Seq<u8>,
}

/// A package: its identity and its compressed contents.
#[derive(Debug)]
pub struct Package {
    pub id: PackageId,
    pub content: CompressedPackageContent,
}

impl View for Package {
    type V = PackageView;

    open spec fn view(&self) -> PackageView {
        PackageView { id: self.id@, content: self.content@ }
    }
}

impl Package {
    /// The text this package is displayed as: that of its id.
    pub fn to_display_string(&self) -> (s: String)
        ensures
            s@ == package_label(self.id@),
    {
        self.id.to_display_string()
    }
}

impl Clone for Package {
    fn clone(&self) -> (c: Package)
        ensures
            c@ == self@,
    {
        Package { id: self.id.clone(), content: self.content.clone() }
    }
}

impl PartialEq for Package {
    fn eq(&self, other: &Package) -> (r: bool) {
        self.id == other.id && self.content == other.content
    }
}

impl vstd::std_specs::cmp::PartialEqSpecImpl for Package {
    open spec fn obeys_eq_spec() -> bool {
        true
    }

    open spec fn eq_spec(&self, other: &Package) -> bool {
        self@ == other@
    }
}

impl Eq for Package {
}

} // verus!
