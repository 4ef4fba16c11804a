use vstd::prelude::*;

verus! {

/// Whether a build is present in the install directory.
#[derive(Clone, Copy, Debug, PartialEq, Eq, Structural)]
pub enum InstallState {
    NotInstalled,
    Installed,
    InstallInProgress,
}

/// One downloadable build artifact and its metadata.
#[derive(Clone, Debug)]
pub struct Package {
    /// Position within the channel's ordered collection.
    pub index: usize,
    pub name: String,
    pub version: String,
    pub build_hash: String,
    pub download_url: String,
    pub checksum: Option<String>,
    pub install_state: InstallState,
}

/// What a package holds, as plain values.
pub struct PackageView {
    pub index: usize,
    pub name: Seq<char>,
    pub version: Seq<char>,
    pub build_hash: Seq<char>,
    pub download_url: Seq<char>,
    pub checksum: Option<Seq<char>>,
    pub install_state: InstallState,
}

impl View for Package {
    type V = PackageView;

    open spec fn view(&self) -> PackageView {
        PackageView {
            index: self.index,
            name: self.name@,
            version: self.version@,
            build_hash: self.build_hash@,
            download_url: self.download_url@,
            checksum: match self.checksum {
                Some(c) => Some(c@),
                None => None,
            },
            install_state: self.install_state,
        }
    }
}

/// The views of the packages of `db`, in order.
pub open spec fn views_of(db: Seq<Package>) -> Seq<PackageView> {
    db.map_values(|p: Package| p@)
}

/// A reconciliation key: the version followed by the build hash.
pub type Key = (Seq<char>, Seq<char>);

/// The key under which a package is reconciled.
pub open spec fn key_of(p: Package) -> Key {
    (p.version@, p.build_hash@)
}

/// `db` holds a package whose key is `k`.
pub open spec fn has_key(db: Seq<Package>, k: Key) -> bool {
    exists|i: int| 0 <= i < db.len() && #[trigger] key_of(db[i]) == k
}

/// No two packages of `db` share a key.
pub open spec fn keys_unique(db: Seq<Package>) -> bool {
    forall|i: int, j: int|
        0 <= i < db.len() && 0 <= j < db.len() && i != j ==> key_of(#[trigger] db[i]) != key_of(
            #[trigger] db[j],
        )
}

impl Package {
    /// Whether `self` and `other` have the same reconciliation key.
    pub fn same_key(&self, other: &Package) -> (r: bool)
        ensures
            r == (key_of(*self) == key_of(*other)),
    {
        self.version == other.version && self.build_hash == other.build_hash
    }
}

/// Whether some package of `db` has the key of `p`.
pub fn contains_key(db: &Vec<Package>, p: &Package) -> (r: bool)
    ensures
        r == has_key(db@, key_of(*p)),
{
    let mut i: usize = 0;
    while i < db.len()
        invariant
            i <= db@.len(),
            forall|j: int| 0 <= j < i ==> key_of(#[trigger] db@[j]) != key_of(*p),
        decreases db@.len() - i,
    {
        if db[i].same_key(p) {
            return true;
        }
        i = i + 1;
    }
    false
}

/// Whether the keys of `db` are pairwise distinct.
pub fn has_unique_keys(db: &Vec<Package>) -> (r: bool)
    ensures
        r == keys_unique(db@),
{
    let mut i: usize = 0;
    while i < db.len()
        invariant
            i <= db@.len(),
            forall|a: int, b: int|
                0 <= a < i && 0 <= b < db@.len() && a != b ==> key_of(#[trigger] db@[a])
                    != key_of(#[trigger] db@[b]),
        decreases db@.len() - i,
    {
        let mut j: usize = 0;
        while j < db.len()
            invariant
                i < db@.len(),
                j <= db@.len(),
                forall|a: int, b: int|
                    0 <= a < i && 0 <= b < db@.len() && a != b ==> key_of(#[trigger] db@[a])
                        != key_of(#[trigger] db@[b]),
                forall|b: int|
                    0 <= b < j && b != i ==> key_of(db@[i as int]) != key_of(#[trigger] db@[b]),
            decreases db@.len() - j,
        {
            if j != i && db[i].same_key(&db[j]) {
                return false;
            }
            j = j + 1;
        }
        i = i + 1;
    }
    true
}

} // verus!
