//! Recognising `pythonX.Y` executables, indexing them by version, and
//! choosing the one that best satisfies a request.
use vstd::prelude::*;

use crate::error::{Error, Result};
use crate::version::{exact_version_of, parses_exact, precedes, satisfies, ExactVersion, RequestedVersion};
use std::path::{Path, PathBuf};
use vstd::string::StrSliceExecFns;

verus! {

/// The final component of a path, as version extraction reads it.
pub enum FileName {
    /// The path has no final component (e.g. `/`).
    Missing,
    /// The final component is not valid Unicode.
    NotText,
    /// The final component, as text.
    Text(String),
}

/// The final component of a path, as [`FileName`] reads it: what
/// `Path::file_name` and then `OsStr::to_str` give. It depends on the path
/// alone.
pub uninterp spec fn path_file_name(path: &Path) -> FileName;

/// The final component of an owned path, as [`FileName`] reads it: what
/// `Path::file_name` and then `OsStr::to_str` give on the borrowed path.
pub uninterp spec fn buf_file_name(path: PathBuf) -> FileName;

/// Relies on `Path::file_name` and `OsStr::to_str`: the final component of
/// the path, if there is one, and that component as text, if it is valid
/// Unicode. The two calls stand together because the `OsStr` between them
/// lives in `std::ffi`, which this library does not name.
#[verifier::external_body]
fn file_name_of(path: &Path) -> (r: FileName)
    ensures
        r == path_file_name(path),
{
    match path.file_name() {
        None => FileName::Missing,
        Some(raw) => match raw.to_str() {
            Some(text) => FileName::Text(text.to_string()),
            None => FileName::NotText,
        },
    }
}

/// Relies on `Path::file_name` and `OsStr::to_str`, reached through
/// `PathBuf`'s `Deref` to `Path`: as for [`file_name_of`].
#[verifier::external_body]
fn buf_file_name_of(path: &PathBuf) -> (r: FileName)
    ensures
        r == buf_file_name(*path),
{
    match path.file_name() {
        None => FileName::Missing,
        Some(raw) => match raw.to_str() {
            Some(text) => FileName::Text(text.to_string()),
            None => FileName::NotText,
        },
    }
}

/// `s` has the shape of an executable name: it starts with `python` and is
/// at least as long, in UTF-8 bytes, as `python3.0`.
pub open spec fn is_executable_name(s: Seq<char>) -> bool {
    &&& vstd::utf8::encode_utf8(s).len() >= 9
    &&& s.len() >= 6
    &&& s.subrange(0, 6) == seq!['p', 'y', 't', 'h', 'o', 'n']
}

/// The version part of an executable name: what follows `python`.
pub open spec fn version_part(s: Seq<char>) -> Seq<char> {
    s.subrange(6, s.len() as int)
}

/// `r` is what extracting a version from a path whose final component is
/// `name` gives.
pub open spec fn extracts(name: FileName, r: Result<ExactVersion>) -> bool {
    match name {
        FileName::Missing => r == Err::<ExactVersion, Error>(Error::FileNameMissing),
        FileName::NotText => r == Err::<ExactVersion, Error>(Error::FileNameToStrError),
        FileName::Text(s) => if is_executable_name(s@) {
            parses_exact(
                version_part(s@),
                r,
                exact_version_of(version_part(s@)).unwrap_or(ExactVersion { major: 0, minor: 0 }),
            )
        } else {
            r == Err::<ExactVersion, Error>(Error::PathFileNameError)
        },
    }
}

/// The version an executable's file name carries, if it carries one.
pub open spec fn file_name_version(name: FileName) -> Option<ExactVersion> {
    match name {
        FileName::Text(s) => if is_executable_name(s@) {
            exact_version_of(version_part(s@))
        } else {
            None
        },
        _ => None,
    }
}

fn acceptable_file_name(file_name: &str) -> (r: bool)
    ensures
        r == is_executable_name(file_name@),
{
    let prefix = "python";
    proof {
        reveal_strlit("python");
    }
    if file_name.as_bytes().len() < 9 {
        return false;
    }
    let n = file_name.unicode_len();
    if n < 6 {
        return false;
    }
    let mut i: usize = 0;
    while i < 6
        invariant
            i <= 6 <= n,
            n == file_name@.len(),
            prefix@ == seq!['p', 'y', 't', 'h', 'o', 'n'],
            forall|j: int| 0 <= j < i ==> file_name@[j] == prefix@[j],
        decreases 6 - i,
    {
        if file_name.get_char(i) != prefix.get_char(i) {
            assert(file_name@.subrange(0, 6)[i as int] != prefix@[i as int]);
            return false;
        }
        i = i + 1;
    }
    assert(file_name@.subrange(0, 6) =~= prefix@);
    true
}

impl ExactVersion {
    /// Extracts the version from the final component of a path: it must be
    /// text of the shape `python<major>.<minor>`.
    pub fn from_file_name(name: &FileName) -> (r: Result<Self>)
        ensures
            extracts(*name, r),
            r is Ok <==> file_name_version(*name) is Some,
            r matches Ok(v) ==> file_name_version(*name) == Some(v),
    {
        match name {
            FileName::Missing => Err(Error::FileNameMissing),
            FileName::NotText => Err(Error::FileNameToStrError),
            FileName::Text(file_name) => {
                let text = file_name.as_str();
                if acceptable_file_name(text) {
                    let n = text.unicode_len();
                    ExactVersion::from_str(text.substring_char(6, n))
                } else {
                    Err(Error::PathFileNameError)
                }
            },
        }
    }

    /// Constructs an [`ExactVersion`] from a `pythonX.Y` file path.
    ///
    /// A path without a final component gives [`Error::FileNameMissing`], one
    /// whose final component is not text [`Error::FileNameToStrError`], one
    /// whose final component is not shaped like `pythonX.Y`
    /// [`Error::PathFileNameError`].
    pub fn from_path(path: &Path) -> (r: Result<Self>)
        ensures
            extracts(path_file_name(path), r),
            r is Ok <==> file_name_version(path_file_name(path)) is Some,
            r matches Ok(v) ==> file_name_version(path_file_name(path)) == Some(v),
    {
        let name = file_name_of(path);
        ExactVersion::from_file_name(&name)
    }
}


/// Executables found, at most one per version.
pub struct ExecutableIndex {
    entries: Vec<(ExactVersion, PathBuf)>,
}

/// `v` is the newest version in `index` that satisfies `requested`.
pub open spec fn is_best_match(
    index: Map<ExactVersion, PathBuf>,
    requested: RequestedVersion,
    v: ExactVersion,
) -> bool {
    &&& index.contains_key(v)
    &&& satisfies(v, requested)
    &&& forall|w: ExactVersion|
        index.contains_key(w) && satisfies(w, requested) ==> !precedes(v, w)
}

impl View for ExecutableIndex {
    type V = Map<ExactVersion, PathBuf>;

    closed spec fn view(&self) -> Map<ExactVersion, PathBuf> {
        Map::new(
            |v: ExactVersion| exists|i: int| 0 <= i < self.entries@.len() && self.entries@[i].0 == v,
            |v: ExactVersion|
                self.entries@[choose|i: int|
                    0 <= i < self.entries@.len() && self.entries@[i].0 == v].1,
        )
    }
}

impl ExecutableIndex {
    /// No version occurs twice among the entries.
    pub closed spec fn wf(&self) -> bool {
        forall|i: int, j: int|
            0 <= i < self.entries@.len() && 0 <= j < self.entries@.len() && i != j
                ==> self.entries@[i].0 != self.entries@[j].0
    }

    proof fn lemma_entry(&self, i: int)
        requires
            self.wf(),
            0 <= i < self.entries@.len(),
        ensures
            self@.contains_key(self.entries@[i].0),
            self@[self.entries@[i].0] == self.entries@[i].1,
    {
        let v = self.entries@[i].0;
        assert(self@.dom().contains(v));
        let k = choose|k: int| 0 <= k < self.entries@.len() && self.entries@[k].0 == v;
        assert(k == i);
    }

    proof fn lemma_keys(&self)
        requires
            self.wf(),
        ensures
            forall|v: ExactVersion|
                #[trigger] self@.contains_key(v) ==> exists|i: int|
                    0 <= i < self.entries@.len() && self.entries@[i].0 == v,
    {
    }

    /// An empty index.
    pub fn new() -> (r: Self)
        ensures
            r.wf(),
            r@ == Map::<ExactVersion, PathBuf>::empty(),
    {
        let r = ExecutableIndex { entries: Vec::new() };
        assert(r@ =~= Map::<ExactVersion, PathBuf>::empty());
        r
    }

    /// Records `path` for `version` unless the index already holds a path for
    /// that version: the first path recorded for a version is kept.
    pub fn insert_if_absent(&mut self, version: ExactVersion, path: PathBuf)
        requires
            old(self).wf(),
        ensures
            final(self).wf(),
            old(self)@.contains_key(version) ==> final(self)@ == old(self)@,
            !old(self)@.contains_key(version) ==> final(self)@ == old(self)@.insert(version, path),
    {
        let n = self.entries.len();
        let mut i: usize = 0;
        while i < n
            invariant
                *self == *old(self),
                self.wf(),
                n == self.entries@.len(),
                i <= n,
                forall|j: int| 0 <= j < i ==> self.entries@[j].0 != version,
            decreases n - i,
        {
            if self.entries[i].0 == version {
                proof {
                    self.lemma_entry(i as int);
                }
                return;
            }
            i = i + 1;
        }
        let ghost before = *self;
        assert(!before@.contains_key(version));
        self.entries.push((version, path));
        proof {
            let m = before@.insert(version, path);
            assert forall|v: ExactVersion| #[trigger] self@.contains_key(v) <==> m.contains_key(v) by {
                if v == version {
                    assert(self.entries@[n as int].0 == version);
                }
                if m.contains_key(v) && v != version {
                    before.lemma_keys();
                    let k = choose|k: int| 0 <= k < before.entries@.len() && before.entries@[k].0 == v;
                    assert(self.entries@[k].0 == v);
                }
                if self@.contains_key(v) && v != version {
                    let k = choose|k: int| 0 <= k < self.entries@.len() && self.entries@[k].0 == v;
                    assert(k < n);
                    assert(before.entries@[k].0 == v);
                }
            }
            assert(self.wf());
            assert forall|v: ExactVersion| #[trigger] self@.contains_key(v) implies self@[v] == m[v] by {
                if v == version {
                    self.lemma_entry(n as int);
                } else {
                    before.lemma_keys();
                    let k = choose|k: int| 0 <= k < before.entries@.len() && before.entries@[k].0 == v;
                    before.lemma_entry(k);
                    self.lemma_entry(k);
                }
            }
            assert(self@ =~= m);
        }
    }
}


impl ExecutableIndex {
    /// The number of versions in the index.
    pub fn len(&self) -> (r: usize)
        requires
            self.wf(),
        ensures
            r == self@.dom().len(),
    {
        proof {
            let keys = self.entries@.map_values(|e: (ExactVersion, PathBuf)| e.0);
            assert(keys.no_duplicates());
            keys.unique_seq_to_set();
            assert forall|v: ExactVersion| #[trigger] keys.to_set().contains(v) <==> self@.dom().contains(v) by {
                if self@.dom().contains(v) {
                    let k = choose|k: int| 0 <= k < self.entries@.len() && self.entries@[k].0 == v;
                    assert(keys[k] == v);
                }
                if keys.to_set().contains(v) {
                    let k = choose|k: int| 0 <= k < keys.len() && keys[k] == v;
                    assert(self.entries@[k].0 == v);
                }
            }
            assert(keys.to_set() =~= self@.dom());
        }
        self.entries.len()
    }

    /// The path recorded for `version`, if any.
    pub fn get(&self, version: &ExactVersion) -> (r: Option<&PathBuf>)
        requires
            self.wf(),
        ensures
            r is None <==> !self@.contains_key(*version),
            r matches Some(p) ==> *p == self@[*version],
    {
        let n = self.entries.len();
        let mut i: usize = 0;
        while i < n
            invariant
                self.wf(),
                n == self.entries@.len(),
                i <= n,
                forall|j: int| 0 <= j < i ==> self.entries@[j].0 != *version,
            decreases n - i,
        {
            if self.entries[i].0 == *version {
                proof {
                    self.lemma_entry(i as int);
                }
                return Some(&self.entries[i].1);
            }
            i = i + 1;
        }
        proof {
            self.lemma_keys();
        }
        None
    }

    /// Whether the index holds a path for `version`.
    pub fn contains_key(&self, version: &ExactVersion) -> (r: bool)
        requires
            self.wf(),
        ensures
            r == self@.contains_key(*version),
    {
        self.get(version).is_some()
    }
}

/// The versions, with their paths, of the files in `files` whose names
/// carry a version, in the order of `files`.
pub open spec fn recognized(files: Seq<(FileName, PathBuf)>) -> Seq<(ExactVersion, PathBuf)>
    decreases files.len(),
{
    if files.len() == 0 {
        Seq::empty()
    } else {
        let earlier = recognized(files.drop_last());
        match file_name_version(files.last().0) {
            Some(v) => earlier.push((v, files.last().1)),
            None => earlier,
        }
    }
}

/// Each version in `found` mapped to the path of its first occurrence.
pub open spec fn first_seen(found: Seq<(ExactVersion, PathBuf)>) -> Map<ExactVersion, PathBuf>
    decreases found.len(),
{
    if found.len() == 0 {
        Map::empty()
    } else {
        let earlier = first_seen(found.drop_last());
        if earlier.contains_key(found.last().0) {
            earlier
        } else {
            earlier.insert(found.last().0, found.last().1)
        }
    }
}

/// Pairs each file name with the path it was read from.
pub open spec fn named_paths(names: Seq<FileName>, paths: Seq<PathBuf>) -> Seq<(FileName, PathBuf)> {
    Seq::new(paths.len(), |i: int| (names[i], paths[i]))
}

/// Indexes files by the version their names carry, in order: a file is
/// recorded for its version unless an earlier file had that version. Files
/// whose names carry no version are skipped.
pub fn index_file_names(files: Vec<(FileName, PathBuf)>) -> (r: ExecutableIndex)
    ensures
        r.wf(),
        r@ == first_seen(recognized(files@)),
{
    let mut executables = ExecutableIndex::new();
    let n = files.len();
    let mut i: usize = 0;
    while i < n
        invariant
            n == files@.len(),
            i <= n,
            executables.wf(),
            executables@ == first_seen(recognized(files@.subrange(0, i as int))),
        decreases n - i,
    {
        let ghost before = files@.subrange(0, i as int);
        let ghost upto = files@.subrange(0, i + 1);
        assert(upto.drop_last() =~= before);
        assert(upto.last() == files@[i as int]);
        let (name, path) = &files[i];
        match ExactVersion::from_file_name(name) {
            Ok(version) => {
                let ghost found = recognized(before).push((version, *path));
                assert(recognized(upto) == found);
                assert(found.drop_last() =~= recognized(before));
                executables.insert_if_absent(version, path.clone());
            },
            Err(_) => {
                assert(recognized(upto) == recognized(before));
            },
        }
        i = i + 1;
    }
    assert(files@.subrange(0, n as int) =~= files@);
    executables
}

/// Indexes the executables among `paths`, in order: each path whose file
/// name is `pythonX.Y` is recorded for its version, unless an earlier path
/// had that version. Other paths are skipped.
pub fn all_executables_in_paths(paths: Vec<PathBuf>) -> (r: ExecutableIndex)
    ensures
        r.wf(),
        r@ == first_seen(
            recognized(named_paths(paths@.map_values(|p: PathBuf| buf_file_name(p)), paths@)),
        ),
{
    let mut files: Vec<(FileName, PathBuf)> = Vec::new();
    let ghost mut names: Seq<FileName> = Seq::empty();
    let n = paths.len();
    let mut i: usize = 0;
    while i < n
        invariant
            n == paths@.len(),
            i <= n,
            names =~= paths@.subrange(0, i as int).map_values(|p: PathBuf| buf_file_name(p)),
            files@ == named_paths(names, paths@.subrange(0, i as int)),
        decreases n - i,
    {
        let name = buf_file_name_of(&paths[i]);
        proof {
            names = names.push(name);
        }
        files.push((name, paths[i].clone()));
        assert(files@ =~= named_paths(names, paths@.subrange(0, i + 1)));
        i = i + 1;
    }
    assert(paths@.subrange(0, n as int) =~= paths@);
    assert(names =~= paths@.map_values(|p: PathBuf| buf_file_name(p)));
    index_file_names(files)
}

/// Chooses the executable for `requested`: the path of the newest version in
/// the index that satisfies the request, or `None` when no version does.
/// For an exact request this is the path of that very version.
pub fn find_executable_in_index(requested: RequestedVersion, found_executables: &ExecutableIndex) -> (r: Option<PathBuf>)
    requires
        found_executables.wf(),
    ensures
        r is None <==> forall|v: ExactVersion|
            #[trigger] found_executables@.contains_key(v) ==> !satisfies(v, requested),
        r matches Some(p) ==> exists|v: ExactVersion|
            is_best_match(found_executables@, requested, v) && found_executables@[v] == p,
{
    let entries = &found_executables.entries;
    let n = entries.len();
    let mut best: Option<usize> = None;
    let mut i: usize = 0;
    while i < n
        invariant
            n == entries@.len(),
            i <= n,
            best matches Some(b) ==> {
                &&& b < i
                &&& satisfies(entries@[b as int].0, requested)
                &&& forall|j: int|
                    0 <= j < i && satisfies(#[trigger] entries@[j].0, requested) ==> !precedes(
                        entries@[b as int].0,
                        entries@[j].0,
                    )
            },
            best is None ==> forall|j: int| 0 <= j < i ==> !satisfies(#[trigger] entries@[j].0, requested),
        decreases n - i,
    {
        let version = entries[i].0;
        if version.supports(requested) {
            match best {
                None => {
                    best = Some(i);
                },
                Some(b) => {
                    match entries[b].0.compare(&version) {
                        std::cmp::Ordering::Less => {
                            best = Some(i);
                        },
                        _ => {},
                    }
                },
            }
        }
        i = i + 1;
    }
    proof {
        found_executables.lemma_keys();
    }
    match best {
        None => {
            assert forall|v: ExactVersion| #[trigger] found_executables@.contains_key(v) implies !satisfies(v, requested) by {
                let k = choose|k: int| 0 <= k < entries@.len() && entries@[k].0 == v;
                assert(!satisfies(entries@[k].0, requested));
            }
            None
        },
        Some(b) => {
            let ghost v = entries@[b as int].0;
            proof {
                found_executables.lemma_entry(b as int);
                assert forall|w: ExactVersion|
                    found_executables@.contains_key(w) && satisfies(w, requested) implies !precedes(v, w) by {
                    let k = choose|k: int| 0 <= k < entries@.len() && entries@[k].0 == w;
                    assert(satisfies(entries@[k].0, requested));
                }
                assert(is_best_match(found_executables@, requested, v));
            }
            Some(entries[b].1.clone())
        },
    }
}


/// An index holds at most one best match for a request, so the path that
/// [`find_executable_in_index`] returns is determined by the index.
pub proof fn lemma_best_match_unique(
    index: Map<ExactVersion, PathBuf>,
    requested: RequestedVersion,
    v: ExactVersion,
    w: ExactVersion,
)
    requires
        is_best_match(index, requested, v),
        is_best_match(index, requested, w),
    ensures
        v == w,
{
}


/// The versions that [`first_seen`] maps are exactly those that occur.
pub proof fn lemma_first_seen_domain(found: Seq<(ExactVersion, PathBuf)>, v: ExactVersion)
    ensures
        first_seen(found).contains_key(v) <==> exists|j: int| 0 <= j < found.len() && found[j].0 == v,
    decreases found.len(),
{
    if found.len() > 0 {
        let earlier = found.drop_last();
        lemma_first_seen_domain(earlier, v);
        if exists|j: int| 0 <= j < earlier.len() && earlier[j].0 == v {
            let j = choose|j: int| 0 <= j < earlier.len() && earlier[j].0 == v;
            assert(found[j].0 == v);
        }
        if exists|j: int| 0 <= j < found.len() && found[j].0 == v {
            let j = choose|j: int| 0 <= j < found.len() && found[j].0 == v;
            if j < found.len() - 1 {
                assert(earlier[j].0 == v);
            }
        }
    }
}

/// First seen wins: when the same version occurs several times, the index
/// maps it to the path of its earliest occurrence.
pub proof fn lemma_first_seen_wins(found: Seq<(ExactVersion, PathBuf)>, k: int)
    requires
        0 <= k < found.len(),
        forall|j: int| 0 <= j < k ==> found[j].0 != found[k].0,
    ensures
        first_seen(found).contains_key(found[k].0),
        first_seen(found)[found[k].0] == found[k].1,
    decreases found.len(),
{
    let earlier = found.drop_last();
    lemma_first_seen_domain(earlier, found[k].0);
    if k < found.len() - 1 {
        assert(earlier[k] == found[k]);
        assert forall|j: int| 0 <= j < k implies earlier[j].0 != earlier[k].0 by {
            assert(earlier[j] == found[j]);
        }
        lemma_first_seen_wins(earlier, k);
    } else {
        assert forall|j: int| 0 <= j < earlier.len() implies earlier[j].0 != found[k].0 by {
            assert(earlier[j] == found[j]);
        }
    }
}

} // verus!
