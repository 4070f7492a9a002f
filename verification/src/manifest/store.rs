//! The installed manifests.
use vstd::prelude::*;
use crate::first::first_some;
use crate::first::{lemma_first_at, lemma_first_none, no_first_finding_means_none};
use crate::manifest::error::ManifestFault;
use crate::manifest::{AppId, AppManifest, ManifestError};
use crate::ordered::OrderedMap;
use crate::path::FilePath;
use crate::path::file_name;
use crate::text::{chars_of, has_suffix};

verus! {

/// The directory of installed manifests.
#[derive(Debug)]
pub struct ManifestStore {
    root: FilePath,
}

/// What reading one directory entry gave.
#[derive(Debug)]
pub enum StoredManifest {
    /// The entry could not be listed.
    Unlisted(String),
    /// The file could not be read.
    Unreadable(FilePath, String),
    /// The file holds no manifest.
    Malformed(FilePath, String),
    /// The file holds a manifest.
    Parsed(FilePath, AppManifest),
}

impl StoredManifest {
    /// The path of the entry, where it was listed.
    pub open spec fn path(self) -> Option<Seq<char>> {
        match self {
            StoredManifest::Unlisted(_) => None,
            StoredManifest::Unreadable(path, _) => Some(path@),
            StoredManifest::Malformed(path, _) => Some(path@),
            StoredManifest::Parsed(path, _) => Some(path@),
        }
    }

    /// The manifest of an entry that counts.
    pub open spec fn manifest(self) -> Option<AppManifest> {
        match self {
            StoredManifest::Parsed(path, manifest) => if is_manifest_path(path@) {
                Some(manifest)
            } else {
                None
            },
            _ => None,
        }
    }
}

/// A path whose file name has the extension of manifests.
pub open spec fn is_manifest_path(path: Seq<char>) -> bool {
    match file_name(path) {
        Some(name) => ".toml"@.is_suffix_of(name) && name.len() > 5,
        None => false,
    }
}

/// Whether the file name of a path has the extension of manifests.
pub fn is_manifest_file(path: &FilePath) -> (r: bool)
    ensures
        r == is_manifest_path(path@),
{
    match path.file_name() {
        Some(name) => has_suffix(name.as_str(), ".toml") && chars_of(name.as_str()).len() > 5,
        None => false,
    }
}

/// Whether an earlier entry holds a manifest with this id.
pub open spec fn id_taken(entries: Seq<StoredManifest>, i: int, id: Seq<char>) -> bool {
    exists|j: int|
        0 <= j < i && (#[trigger] entries[j]).manifest() is Some && entries[j].manifest()->0.id@
            == id
}

/// The fault of one entry.
pub open spec fn entry_fault(
    root: Seq<char>,
    entries: Seq<StoredManifest>,
    i: int,
) -> Option<ManifestFault> {
    match entries[i] {
        StoredManifest::Unlisted(source) => Some(ManifestFault::ReadDir(root, source@)),
        StoredManifest::Unreadable(path, source) => if is_manifest_path(path@) {
            Some(ManifestFault::Read(path@, source@))
        } else {
            None
        },
        StoredManifest::Malformed(path, source) => if is_manifest_path(path@) {
            Some(ManifestFault::Parse(path@, source@))
        } else {
            None
        },
        StoredManifest::Parsed(path, manifest) => if !is_manifest_path(path@) {
            None
        } else if manifest.fault() is Some {
            manifest.fault()
        } else if id_taken(entries, i, manifest.id@) {
            Some(ManifestFault::DuplicateId(path@))
        } else {
            None
        },
    }
}

/// The first fault of the entries.
pub open spec fn entries_fault(root: Seq<char>, entries: Seq<StoredManifest>) -> Option<
    ManifestFault,
> {
    first_some(Seq::new(entries.len(), |i: int| entry_fault(root, entries, i)))
}

/// The manifests of the first `n` entries under their ids.
pub open spec fn holds_entries(
    manifests: Map<Seq<char>, AppManifest>,
    entries: Seq<StoredManifest>,
    n: int,
) -> bool {
    &&& forall|id: Seq<char>| #[trigger]
        manifests.contains_key(id) <==> id_taken(entries, n, id)
    &&& forall|i: int|
        0 <= i < n && (#[trigger] entries[i]).manifest() is Some
            ==> manifests[entries[i].manifest()->0.id@] == entries[i].manifest()->0
}

impl ManifestStore {
    /// The directory.
    pub closed spec fn root_path(&self) -> Seq<char> {
        self.root@
    }

    /// The store in a directory.
    pub fn new(root: FilePath) -> (r: ManifestStore)
        ensures
            r.root_path() == root@,
    {
        ManifestStore { root }
    }

    /// The directory to list.
    pub fn root(&self) -> (r: &FilePath)
        ensures
            r@ == self.root_path(),
    {
        &self.root
    }

    /// All installed manifests under their ids, from what listing the
    /// directory gave: nothing where it does not exist, an error, or its
    /// entries in order.
    pub fn load_all(&self, listing: Option<Result<Vec<StoredManifest>, String>>) -> (r: Result<
        OrderedMap<AppId, AppManifest>,
        ManifestError,
    >)
        ensures
            match listing {
                None => r is Ok && r->Ok_0@ == Map::<Seq<char>, AppManifest>::empty(),
                Some(Err(source)) => r is Err && r->Err_0@ == ManifestFault::ReadDir(
                    self.root_path(),
                    source@,
                ),
                Some(Ok(entries)) => match r {
                    Ok(manifests) => entries_fault(self.root_path(), entries@) is None
                        && holds_entries(manifests@, entries@, entries@.len() as int),
                    Err(e) => entries_fault(self.root_path(), entries@) == Some(e@),
                },
            },
    {
        let mut manifests: OrderedMap<AppId, AppManifest> = OrderedMap::new();
        let entries = match listing {
            None => return Ok(manifests),
            Some(Err(source)) => return Err(ManifestError::ReadDir(self.root.clone(), source)),
            Some(Ok(entries)) => entries,
        };
        let ghost all = entries@;
        let ghost root = self.root_path();
        let ghost faults = Seq::new(all.len(), |i: int| entry_fault(root, all, i));
        let mut rest = entries;
        let ghost mut i: int = 0;
        // The entries are taken from the end of the reversed list.
        let mut reversed: Vec<StoredManifest> = Vec::new();
        while rest.len() > 0
            invariant
                rest@.len() + reversed@.len() == all.len(),
                forall|j: int| 0 <= j < rest@.len() ==> rest@[j] == all[j],
                forall|j: int|
                    0 <= j < reversed@.len() ==> reversed@[j] == all[all.len() - 1 - j],
            decreases rest@.len(),
        {
            if let Some(entry) = rest.pop() {
                reversed.push(entry);
            }
        }
        while reversed.len() > 0
            invariant
                0 <= i <= all.len(),
                reversed@.len() == all.len() - i,
                root == self.root_path(),
                faults == Seq::new(all.len(), |i: int| entry_fault(root, all, i)),
                forall|j: int|
                    0 <= j < reversed@.len() ==> reversed@[j] == all[all.len() - 1 - j],
                forall|j: int| 0 <= j < i ==> faults[j] is None,
                holds_entries(manifests@, all, i),
                listing == Some(Ok::<Vec<StoredManifest>, String>(entries)),
                entries@ == all,
            decreases reversed@.len(),
        {
            let entry = match reversed.pop() {
                Some(entry) => entry,
                None => return Ok(manifests),
            };
            assert(entry == all[i]);
            assert(faults[i] == entry_fault(root, all, i));
            let ghost before = manifests@;
            match entry {
                StoredManifest::Unlisted(source) => {
                    proof {
                        lemma_first_at(faults, i);
                    }
                    return Err(ManifestError::ReadDir(self.root.clone(), source));
                },
                StoredManifest::Unreadable(path, source) => {
                    if is_manifest_file(&path) {
                        proof {
                            lemma_first_at(faults, i);
                        }
                        return Err(ManifestError::Read(path, source));
                    }
                },
                StoredManifest::Malformed(path, source) => {
                    if is_manifest_file(&path) {
                        proof {
                            lemma_first_at(faults, i);
                        }
                        return Err(ManifestError::Parse(path, source));
                    }
                },
                StoredManifest::Parsed(path, manifest) => {
                    if is_manifest_file(&path) {
                        if let Err(e) = manifest.validate() {
                            proof {
                                lemma_first_at(faults, i);
                            }
                            return Err(e);
                        }
                        if manifests.contains(manifest.id.as_str()) {
                            proof {
                                lemma_first_at(faults, i);
                            }
                            return Err(ManifestError::DuplicateId(path));
                        }
                        let id = manifest.id.clone();
                        manifests.insert(id, manifest);
                    }
                },
            }
            proof {
                assert forall|id: Seq<char>| #[trigger]
                    manifests@.contains_key(id) <==> id_taken(all, i + 1, id) by {
                    if id_taken(all, i, id) {
                        let j = choose|j: int|
                            0 <= j < i && (#[trigger] all[j]).manifest() is Some
                                && all[j].manifest()->0.id@ == id;
                        assert(all[j].manifest() is Some);
                    }
                    if all[i].manifest() is Some && all[i].manifest()->0.id@ == id {
                        assert(id_taken(all, i + 1, id));
                    }
                    if id_taken(all, i + 1, id) {
                        let j = choose|j: int|
                            0 <= j < i + 1 && (#[trigger] all[j]).manifest() is Some
                                && all[j].manifest()->0.id@ == id;
                        if j < i {
                            assert(id_taken(all, i, id));
                            assert(before.contains_key(id));
                        }
                    }
                    assert(before.contains_key(id) <==> id_taken(all, i, id));
                }
                assert forall|j: int|
                    0 <= j < i + 1 && (#[trigger] all[j]).manifest() is Some implies manifests@[all[j].manifest()->0.id@]
                    == all[j].manifest()->0 by {
                    if j < i {
                        assert(id_taken(all, i, all[j].manifest()->0.id@));
                        assert(before.contains_key(all[j].manifest()->0.id@));
                    }
                }
                i = i + 1;
            }
        }
        proof {
            lemma_first_none(faults);
        }
        Ok(manifests)
    }
}

/// The manifests can be loaded exactly where every entry can be listed, every manifest file can be
/// read and holds a sound manifest, and no application has two of them; other files do not matter.
pub proof fn manifests_load_where_every_file_is_sound(
    root: Seq<char>,
    entries: Seq<StoredManifest>,
)
    ensures
        entries_fault(root, entries) is None <==> {
            &&& forall|i: int|
                0 <= i < entries.len() ==> match #[trigger] entries[i] {
                    StoredManifest::Unlisted(_) => false,
                    StoredManifest::Unreadable(path, _) => !is_manifest_path(path@),
                    StoredManifest::Malformed(path, _) => !is_manifest_path(path@),
                    StoredManifest::Parsed(path, manifest) => is_manifest_path(path@)
                        ==> manifest.fault() is None,
                }
            &&& forall|i: int, j: int|
                0 <= i < j < entries.len() && (#[trigger] entries[i]).manifest() is Some && (
                #[trigger] entries[j]).manifest() is Some ==> entries[i].manifest()->0.id@
                    != entries[j].manifest()->0.id@
        },
{
    let faults = Seq::new(entries.len(), |i: int| entry_fault(root, entries, i));
    no_first_finding_means_none(faults);
    if entries_fault(root, entries) is None {
        assert forall|i: int| 0 <= i < entries.len() implies match #[trigger] entries[i] {
            StoredManifest::Unlisted(_) => false,
            StoredManifest::Unreadable(path, _) => !is_manifest_path(path@),
            StoredManifest::Malformed(path, _) => !is_manifest_path(path@),
            StoredManifest::Parsed(path, manifest) => is_manifest_path(path@)
                ==> manifest.fault() is None,
        } by {
            assert(faults[i] is None);
        }
        assert forall|i: int, j: int|
            0 <= i < j < entries.len() && (#[trigger] entries[i]).manifest() is Some && (
            #[trigger] entries[j]).manifest() is Some implies entries[i].manifest()->0.id@
            != entries[j].manifest()->0.id@ by {
            assert(faults[j] is None);
            assert(!id_taken(entries, j, entries[j].manifest()->0.id@));
        }
    } else {
        let i = choose|i: int| 0 <= i < faults.len() && !((#[trigger] faults[i]) is None);
        assert(entry_fault(root, entries, i) is Some);
        if entries[i].manifest() is Some && entries[i].manifest()->0.fault() is None {
            let id = entries[i].manifest()->0.id@;
            assert(id_taken(entries, i, id));
            let j = choose|j: int|
                0 <= j < i && (#[trigger] entries[j]).manifest() is Some
                    && entries[j].manifest()->0.id@ == id;
            assert(entries[j].manifest() is Some && entries[i].manifest() is Some);
        }
    }
}

/// The manifests that were loaded are those of the files: each application is there with its own
/// manifest, and no other application is.
pub proof fn loaded_manifests_are_those_of_the_files(
    manifests: Map<Seq<char>, AppManifest>,
    entries: Seq<StoredManifest>,
    path: FilePath,
    manifest: AppManifest,
    i: int,
    id: Seq<char>,
)
    requires
        holds_entries(manifests, entries, entries.len() as int),
    ensures
        0 <= i < entries.len() && entries[i] == StoredManifest::Parsed(path, manifest)
            && is_manifest_path(path@) ==> manifests.contains_key(manifest.id@)
            && manifests[manifest.id@] == manifest,
        manifests.contains_key(id) ==> exists|j: int|
            0 <= j < entries.len() && (#[trigger] entries[j]).manifest() is Some
                && entries[j].manifest()->0.id@ == id,
{
    if 0 <= i < entries.len() && entries[i] == StoredManifest::Parsed(path, manifest)
        && is_manifest_path(path@) {
        assert(entries[i].manifest() == Some(manifest));
        assert(id_taken(entries, entries.len() as int, manifest.id@));
    }
}

/// A file is taken for a manifest exactly where its name ends as manifest files do and something
/// stands before that ending.
pub proof fn manifest_files_have_a_name_before_their_ending(path: Seq<char>, stem: Seq<char>)
    requires
        file_name(path) == Some(stem + ".toml"@),
    ensures
        is_manifest_path(path) <==> stem.len() > 0,
{
    reveal_strlit(".toml");
    let name = stem + ".toml"@;
    assert(".toml"@ =~= name.subrange(name.len() - 5, name.len() as int));
}

} // verus!
