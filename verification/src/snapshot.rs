//! Snapshots of files: what the cache recorded of each file when it was
//! built, and which recorded files have since been modified or deleted.

use vstd::prelude::*;
use vstd::bytes::{spec_u64_from_le_bytes, spec_u64_to_le_bytes, u64_from_le_bytes, u64_to_le_bytes, lemma_auto_spec_u64_to_from_le_bytes};
use vstd::utf8::{decode_utf8, encode_utf8, encode_utf8_decode_utf8, encode_utf8_valid_utf8, valid_utf8};
use crate::archive::archive_fits_len;
use crate::cacheable::{opt_view, Cacheable, to_bytes, try_from_bytes};
use crate::dyn_data::CacheableDynData;
use crate::store::SnapshotStore;
use crate::text::{str_equal, string_from_utf8, utf8_bytes};

verus! {

/// How a recorded file is checked for changes: by the version of the
/// library it belongs to, or by the time the compilation recorded it.
pub enum Strategy {
    LibVersion(String),
    CompileTime(u64),
}

/// The view of a strategy.
pub enum StrategyView {
    LibVersion(Seq<char>),
    CompileTime(u64),
}

impl View for Strategy {
    type V = StrategyView;

    open spec fn view(&self) -> StrategyView {
        match self {
            Strategy::LibVersion(v) => StrategyView::LibVersion(v@),
            Strategy::CompileTime(t) => StrategyView::CompileTime(*t),
        }
    }
}

/// The type name a library version is written under.
pub open spec fn lib_version_name() -> Seq<char> {
    "LibVersion"@
}

/// The type name a compile time is written under.
pub open spec fn compile_time_name() -> Seq<char> {
    "CompileTime"@
}

impl Strategy {
    /// The type name and payload a strategy is written as: the version's
    /// UTF-8 bytes, or the time's eight little-endian bytes.
    pub open spec fn spec_dyn_data(v: StrategyView) -> (Seq<char>, Seq<u8>) {
        match v {
            StrategyView::LibVersion(s) => (lib_version_name(), encode_utf8(s)),
            StrategyView::CompileTime(t) => (compile_time_name(), spec_u64_to_le_bytes(t)),
        }
    }

    /// The strategy that a type name and payload stand for, if any.
    pub open spec fn spec_from_dyn_data(name: Seq<char>, data: Seq<u8>) -> Option<StrategyView> {
        if name == lib_version_name() {
            if valid_utf8(data) {
                Some(StrategyView::LibVersion(decode_utf8(data)))
            } else {
                None
            }
        } else if name == compile_time_name() {
            if data.len() == 8 {
                Some(StrategyView::CompileTime(spec_u64_from_le_bytes(data)))
            } else {
                None
            }
        } else {
            None
        }
    }

    /// The type name and payload a strategy is written as stand for that
    /// strategy.
    pub proof fn lemma_dyn_data_round_trip(v: StrategyView)
        ensures
            Self::spec_from_dyn_data(Self::spec_dyn_data(v).0, Self::spec_dyn_data(v).1) == Some(v),
    {
        reveal_strlit("LibVersion");
        reveal_strlit("CompileTime");
        lemma_auto_spec_u64_to_from_le_bytes();
        assert(lib_version_name().len() != compile_time_name().len());
        if let StrategyView::LibVersion(s) = v {
            encode_utf8_valid_utf8(s);
            encode_utf8_decode_utf8(s);
        }
    }

    /// Builds the type name and payload that the strategy is written as.
    pub fn to_dyn_data(&self) -> (data: CacheableDynData)
        ensures
            data@ == Self::spec_dyn_data(self@),
    {
        match self {
            Strategy::LibVersion(v) => CacheableDynData("LibVersion".to_owned(), utf8_bytes(v.as_str())),
            Strategy::CompileTime(t) => CacheableDynData("CompileTime".to_owned(), u64_to_le_bytes(*t)),
        }
    }

    /// Rebuilds a strategy from a type name and payload.
    pub fn from_dyn_data(data: CacheableDynData) -> (strategy: Option<Strategy>)
        ensures
            opt_view(strategy) == Self::spec_from_dyn_data(data@.0, data@.1),
    {
        let CacheableDynData(name, payload) = data;
        if str_equal(name.as_str(), "LibVersion") {
            match string_from_utf8(payload) {
                Some(s) => Some(Strategy::LibVersion(s)),
                None => None,
            }
        } else if str_equal(name.as_str(), "CompileTime") {
            if payload.len() == 8 {
                Some(Strategy::CompileTime(u64_from_le_bytes(payload.as_slice())))
            } else {
                None
            }
        } else {
            None
        }
    }
}

/// How a strategy is written: a library version as the `CacheableDynData`
/// named `LibVersion` holding the version's UTF-8 bytes, a compile time as the
/// one named `CompileTime` holding eight bytes that read back, little-endian,
/// as the time. A compile time can always be written; a version exactly when
/// its bytes and the 10-byte name fit the archive.
pub proof fn lemma_strategy_written_form(v: Seq<char>, t: u64)
    ensures
        Strategy::spec_dyn_data(StrategyView::LibVersion(v)) == ("LibVersion"@, encode_utf8(v)),
        Strategy::spec_dyn_data(StrategyView::CompileTime(t)).0 == "CompileTime"@,
        Strategy::spec_dyn_data(StrategyView::CompileTime(t)).1.len() == 8,
        spec_u64_from_le_bytes(Strategy::spec_dyn_data(StrategyView::CompileTime(t)).1) == t,
        Strategy::spec_to_bytes(StrategyView::LibVersion(v)) == CacheableDynData::spec_to_bytes(
            ("LibVersion"@, encode_utf8(v)),
        ),
        Strategy::spec_writable(StrategyView::LibVersion(v)) <==> encode_utf8(v).len() + 10
            <= 0x7fff_ff00,
        Strategy::spec_writable(StrategyView::CompileTime(t)),
{
    reveal_strlit("LibVersion");
    reveal_strlit("CompileTime");
    assert(vstd::utf8::is_ascii_chars("LibVersion"@));
    assert(vstd::utf8::is_ascii_chars("CompileTime"@));
    crate::raw_source::lemma_ascii_name_len("LibVersion"@);
    crate::raw_source::lemma_ascii_name_len("CompileTime"@);
    lemma_auto_spec_u64_to_from_le_bytes();
}

/// How a name and payload are read as a strategy: under `LibVersion` a UTF-8
/// payload is the version it encodes; under `CompileTime` an eight-byte
/// payload is the little-endian time; anything else is refused.
pub proof fn lemma_strategy_read_form(name: Seq<char>, d: Seq<u8>)
    ensures
        valid_utf8(d) ==> Strategy::spec_from_dyn_data("LibVersion"@, d) == Some(
            StrategyView::LibVersion(decode_utf8(d)),
        ),
        !valid_utf8(d) ==> Strategy::spec_from_dyn_data("LibVersion"@, d) is None,
        d.len() == 8 ==> Strategy::spec_from_dyn_data("CompileTime"@, d) == Some(
            StrategyView::CompileTime(spec_u64_from_le_bytes(d)),
        ),
        d.len() != 8 ==> Strategy::spec_from_dyn_data("CompileTime"@, d) is None,
        name != "LibVersion"@ && name != "CompileTime"@ ==> Strategy::spec_from_dyn_data(name, d)
            is None,
{
    reveal_strlit("LibVersion");
    reveal_strlit("CompileTime");
    assert("LibVersion"@.len() != "CompileTime"@.len());
}

impl Cacheable for Strategy {
    open spec fn spec_to_bytes(v: StrategyView) -> Seq<u8> {
        CacheableDynData::spec_to_bytes(Self::spec_dyn_data(v))
    }

    open spec fn spec_writable(v: StrategyView) -> bool {
        CacheableDynData::spec_writable(Self::spec_dyn_data(v))
    }

    open spec fn spec_from_bytes(bytes: Seq<u8>) -> Option<StrategyView> {
        match CacheableDynData::spec_from_bytes(bytes) {
            Some((name, data)) => Self::spec_from_dyn_data(name, data),
            None => None,
        }
    }

    fn writable(&self) -> (ok: bool) {
        match self {
            Strategy::LibVersion(v) => archive_fits_len("LibVersion", v.as_str().as_bytes().len()),
            Strategy::CompileTime(t) => {
                proof {
                    lemma_auto_spec_u64_to_from_le_bytes();
                }
                archive_fits_len("CompileTime", 8)
            },
        }
    }

    fn serialize(&self) -> (bytes: Vec<u8>) {
        let data = self.to_dyn_data();
        proof {
            Self::lemma_dyn_data_round_trip(self@);
        }
        to_bytes(&data)
    }

    fn try_deserialize(bytes: &[u8]) -> (value: Option<Self>) {
        let data: Option<CacheableDynData> = try_from_bytes(bytes);
        let value = match data {
            Some(d) => Self::from_dyn_data(d),
            None => None,
        };
        proof {
            assert forall|v: StrategyView|
                Self::spec_writable(v) && #[trigger] Self::spec_to_bytes(v) == bytes@ implies opt_view(
                    value,
                ) == Some(v) by {
                let p = Self::spec_dyn_data(v);
                assert(CacheableDynData::spec_writable(p) && CacheableDynData::spec_to_bytes(p)
                    == bytes@);
                Self::lemma_dyn_data_round_trip(v);
            }
        }
        value
    }
}

} // verus!

verus! {

/// Whether a recorded file changed since the snapshot was taken.
#[derive(PartialEq, Eq, Structural, Clone, Copy, Debug)]
pub enum ValidateResult {
    NoChanged,
    Modified,
    Deleted,
}

/// A file handed to `Snapshot::add`, with what the snapshot options say of
/// its path and the version of the library it belongs to, if one was found.
pub struct SnapshotFile {
    pub path: String,
    pub immutable: bool,
    pub managed: bool,
    pub lib_version: Option<String>,
}

/// The view of a `SnapshotFile`.
pub struct SnapshotFileView {
    pub path: Seq<char>,
    pub immutable: bool,
    pub managed: bool,
    pub lib_version: Option<Seq<char>>,
}

impl View for SnapshotFile {
    type V = SnapshotFileView;

    open spec fn view(&self) -> SnapshotFileView {
        SnapshotFileView {
            path: self.path@,
            immutable: self.immutable,
            managed: self.managed,
            lib_version: match self.lib_version {
                Some(v) => Some(v@),
                None => None,
            },
        }
    }
}

/// The bytes a compile time is recorded as.
pub open spec fn compile_time_bytes(t: u64) -> Seq<u8> {
    Strategy::spec_to_bytes(StrategyView::CompileTime(t))
}

/// What `Snapshot::add` does to the recorded map for one file: an immutable
/// file is skipped; a managed file with a library version has the version
/// recorded; then the compile time is recorded under the file's path.
pub open spec fn add_file(m: Map<Seq<char>, Seq<u8>>, f: SnapshotFileView, t: u64) -> Map<
    Seq<char>,
    Seq<u8>,
> {
    if f.immutable {
        m
    } else {
        let m1 = match f.lib_version {
            Some(v) => if f.managed {
                m.insert(f.path, Strategy::spec_to_bytes(StrategyView::LibVersion(v)))
            } else {
                m
            },
            None => m,
        };
        m1.insert(f.path, compile_time_bytes(t))
    }
}

/// What `Snapshot::add` does to the recorded map for files in order.
pub open spec fn add_files(m: Map<Seq<char>, Seq<u8>>, files: Seq<SnapshotFileView>, t: u64) -> Map<
    Seq<char>,
    Seq<u8>,
>
    decreases files.len(),
{
    if files.len() == 0 {
        m
    } else {
        add_file(add_files(m, files.drop_last(), t), files.last(), t)
    }
}

/// The paths among `files` that are not immutable.
pub open spec fn recorded_paths(files: Seq<SnapshotFileView>) -> Set<Seq<char>> {
    Set::new(|k: Seq<char>| exists|i: int| 0 <= i < files.len() && !files[i].immutable && #[trigger] files[i].path == k)
}

/// The set of the given paths.
pub open spec fn path_set(paths: Seq<Seq<char>>) -> Set<Seq<char>> {
    Set::new(|k: Seq<char>| exists|i: int| 0 <= i < paths.len() && #[trigger] paths[i] == k)
}

/// The paths of the entries whose validation gave `which`, in order.
pub open spec fn paths_with(
    entries: Seq<(Seq<char>, Seq<u8>)>,
    results: Seq<ValidateResult>,
    which: ValidateResult,
) -> Seq<Seq<char>>
    decreases entries.len(),
{
    if entries.len() == 0 || results.len() == 0 {
        Seq::empty()
    } else {
        let rest = paths_with(entries.drop_last(), results.drop_last(), which);
        if results.last() == which {
            rest.push(entries.last().0)
        } else {
            rest
        }
    }
}

/// The strategies that the stored bytes read back as.
pub open spec fn stored_strategies(entries: Seq<(Seq<char>, Seq<u8>)>) -> Seq<Option<StrategyView>> {
    entries.map_values(|e: (Seq<char>, Seq<u8>)| Strategy::spec_from_bytes(e.1))
}

/// A snapshot of files over the snapshot scope of a storage.
pub struct Snapshot {
    storage: SnapshotStore,
}

impl View for Snapshot {
    type V = Seq<(Seq<char>, Seq<u8>)>;

    closed spec fn view(&self) -> Seq<(Seq<char>, Seq<u8>)> {
        self.storage@
    }
}

impl Snapshot {
    /// The path to bytes map that the snapshot has recorded.
    pub closed spec fn spec_map(&self) -> Map<Seq<char>, Seq<u8>> {
        self.storage.spec_map()
    }

    /// A snapshot over `storage`.
    pub fn new(storage: SnapshotStore) -> (snapshot: Self)
        ensures
            snapshot@ == storage@,
            snapshot.spec_map() == storage.spec_map(),
    {
        Self { storage }
    }

    /// The snapshot's storage.
    pub fn storage(&self) -> (storage: &SnapshotStore)
        ensures
            storage@ == self@,
            storage.spec_map() == self.spec_map(),
    {
        &self.storage
    }

    /// Records `files` at `compile_time`.
    pub fn add(&mut self, files: &Vec<SnapshotFile>, compile_time: u64)
        requires
            forall|i: int|
                0 <= i < files@.len() ==> ((#[trigger] files@[i]@).lib_version matches Some(v)
                    ==> Strategy::spec_writable(StrategyView::LibVersion(v))),
        ensures
            final(self).spec_map() == add_files(
                old(self).spec_map(),
                files@.map_values(|f: SnapshotFile| f@),
                compile_time,
            ),
    {
        let ghost views = files@.map_values(|f: SnapshotFile| f@);
        let ghost start = self.spec_map();
        proof {
            reveal_strlit("CompileTime");
            crate::text::lemma_encode_utf8_len(compile_time_name());
            lemma_auto_spec_u64_to_from_le_bytes();
        }
        let n = files.len();
        let mut i: usize = 0;
        while i < n
            invariant
                n == files@.len(),
                0 <= i <= n,
                views == files@.map_values(|f: SnapshotFile| f@),
                self.spec_map() == add_files(start, views.take(i as int), compile_time),
                Strategy::spec_writable(StrategyView::CompileTime(compile_time)),
                forall|j: int|
                    0 <= j < files@.len() ==> ((#[trigger] files@[j]@).lib_version matches Some(v)
                        ==> Strategy::spec_writable(StrategyView::LibVersion(v))),
            decreases n - i,
        {
            let file = &files[i];
            proof {
                assert(views.take(i + 1).drop_last() =~= views.take(i as int));
                assert(views.take(i + 1).last() == file@);
            }
            if !file.immutable {
                if file.managed {
                    if let Some(version) = &file.lib_version {
                        let bytes = to_bytes(&Strategy::LibVersion(version.clone()));
                        self.storage.set(file.path.clone(), bytes);
                    }
                }
                let bytes = to_bytes(&Strategy::CompileTime(compile_time));
                self.storage.set(file.path.clone(), bytes);
            }
            i = i + 1;
        }
        proof {
            assert(views.take(n as int) =~= views);
        }
    }

    /// Forgets what was recorded of `files`.
    pub fn remove(&mut self, files: &Vec<String>)
        ensures
            final(self).spec_map() == old(self).spec_map().remove_keys(
                path_set(crate::text::string_views(files@)),
            ),
    {
        let ghost paths = crate::text::string_views(files@);
        let ghost start = self.spec_map();
        let n = files.len();
        let mut i: usize = 0;
        proof {
            assert(start.remove_keys(path_set(paths.take(0))) =~= start);
        }
        while i < n
            invariant
                n == files@.len(),
                0 <= i <= n,
                paths == crate::text::string_views(files@),
                self.spec_map() == start.remove_keys(path_set(paths.take(i as int))),
            decreases n - i,
        {
            self.storage.remove(files[i].as_str());
            proof {
                let before = path_set(paths.take(i as int));
                let after = path_set(paths.take(i + 1));
                assert(paths.take(i + 1)[i as int] == files@[i as int]@);
                assert forall|k: Seq<char>| after.contains(k) <==> before.contains(k) || k == files@[i as int]@ by {
                    if after.contains(k) {
                        let j = choose|j: int| 0 <= j < i + 1 && #[trigger] paths.take(i + 1)[j] == k;
                        if j < i {
                            assert(paths.take(i as int)[j] == k);
                        }
                    }
                    if before.contains(k) {
                        let j = choose|j: int| 0 <= j < i && #[trigger] paths.take(i as int)[j] == k;
                        assert(paths.take(i + 1)[j] == k);
                    }
                }
                assert(self.spec_map() =~= start.remove_keys(after));
            }
            i = i + 1;
        }
        proof {
            assert(paths.take(n as int) =~= paths);
        }
    }

    /// Reads back the strategy recorded in each entry, in the storage's
    /// order; `None` where some entry does not read back as a strategy.
    pub fn strategies(&self) -> (strategies: Option<Vec<Strategy>>)
        ensures
            strategies is Some <==> forall|i: int|
                0 <= i < self@.len() ==> (#[trigger] stored_strategies(self@)[i]) is Some,
            strategies matches Some(v) ==> v@.len() == self@.len() && forall|i: int|
                0 <= i < self@.len() ==> Some(#[trigger] v@[i]@) == stored_strategies(self@)[i],
    {
        let n = self.storage.len();
        let mut out: Vec<Strategy> = Vec::new();
        let mut i: usize = 0;
        while i < n
            invariant
                n == self@.len(),
                0 <= i <= n,
                out@.len() == i,
                forall|j: int| 0 <= j < i ==> Some(#[trigger] out@[j]@) == stored_strategies(self@)[j],
            decreases n - i,
        {
            let entry = self.storage.entry(i);
            let read = try_from_bytes::<Strategy>(entry.1.as_slice());
            assert(stored_strategies(self@)[i as int] == opt_view(read));
            match read {
                Some(s) => out.push(s),
                None => {
                    assert(stored_strategies(self@)[i as int] is None);
                    return None;
                },
            }
            i = i + 1;
        }
        assert forall|i: int| 0 <= i < self@.len() implies (#[trigger] stored_strategies(self@)[i]) is Some by {
            assert(Some(out@[i]@) == stored_strategies(self@)[i]);
        }
        Some(out)
    }

    /// Splits the recorded paths by the validation result of each entry, in
    /// the storage's order: `results[i]` is what validating entry `i` gave.
    /// Returns the modified paths and the deleted paths.
    pub fn calc_modified_files(&self, results: &Vec<ValidateResult>) -> (files: (Vec<String>, Vec<String>))
        requires
            results@.len() == self@.len(),
        ensures
            crate::text::string_views(files.0@) == paths_with(self@, results@, ValidateResult::Modified),
            crate::text::string_views(files.1@) == paths_with(self@, results@, ValidateResult::Deleted),
    {
        let n = self.storage.len();
        let mut modified_files: Vec<String> = Vec::new();
        let mut deleted_files: Vec<String> = Vec::new();
        let mut i: usize = 0;
        while i < n
            invariant
                n == self@.len(),
                n == results@.len(),
                0 <= i <= n,
                crate::text::string_views(modified_files@) == paths_with(
                    self@.take(i as int),
                    results@.take(i as int),
                    ValidateResult::Modified,
                ),
                crate::text::string_views(deleted_files@) == paths_with(
                    self@.take(i as int),
                    results@.take(i as int),
                    ValidateResult::Deleted,
                ),
            decreases n - i,
        {
            let entry = self.storage.entry(i);
            proof {
                assert(self@.take(i + 1).drop_last() =~= self@.take(i as int));
                assert(results@.take(i + 1).drop_last() =~= results@.take(i as int));
            }
            match results[i] {
                ValidateResult::Modified => {
                    modified_files.push(entry.0.clone());
                },
                ValidateResult::Deleted => {
                    deleted_files.push(entry.0.clone());
                },
                ValidateResult::NoChanged => {},
            }
            proof {
                assert(crate::text::string_views(modified_files@) =~= paths_with(
                    self@.take(i + 1),
                    results@.take(i + 1),
                    ValidateResult::Modified,
                ));
                assert(crate::text::string_views(deleted_files@) =~= paths_with(
                    self@.take(i + 1),
                    results@.take(i + 1),
                    ValidateResult::Deleted,
                ));
            }
            i = i + 1;
        }
        proof {
            assert(self@.take(n as int) =~= self@);
            assert(results@.take(n as int) =~= results@);
        }
        (modified_files, deleted_files)
    }
}

} // verus!

verus! {

/// Law of `Snapshot::add`: whatever the options and library versions, every
/// file that is not immutable ends up recorded with the compile time (a
/// library version recorded for it first is overwritten), and every other
/// path keeps what it had.
pub proof fn lemma_add_records_compile_time(
    m: Map<Seq<char>, Seq<u8>>,
    files: Seq<SnapshotFileView>,
    t: u64,
)
    ensures
        add_files(m, files, t) == m.union_prefer_right(
            Map::new(|k: Seq<char>| recorded_paths(files).contains(k), |k: Seq<char>| compile_time_bytes(t)),
        ),
    decreases files.len(),
{
    let target = m.union_prefer_right(
        Map::new(|k: Seq<char>| recorded_paths(files).contains(k), |k: Seq<char>| compile_time_bytes(t)),
    );
    if files.len() == 0 {
        assert(add_files(m, files, t) =~= target);
    } else {
        let init = files.drop_last();
        let f = files.last();
        lemma_add_records_compile_time(m, init, t);
        assert forall|k: Seq<char>|
            recorded_paths(files).contains(k) <==> recorded_paths(init).contains(k) || (!f.immutable
                && f.path == k) by {
            if recorded_paths(files).contains(k) {
                let i = choose|i: int|
                    0 <= i < files.len() && !files[i].immutable && #[trigger] files[i].path == k;
                if i < files.len() - 1 {
                    assert(init[i].path == k);
                }
            }
            if recorded_paths(init).contains(k) {
                let i = choose|i: int|
                    0 <= i < init.len() && !init[i].immutable && #[trigger] init[i].path == k;
                assert(files[i].path == k);
            }
            if !f.immutable && f.path == k {
                assert(files[files.len() - 1].path == k);
            }
        }
        assert(add_files(m, files, t) =~= target);
    }
}

} // verus!

verus! {

/// A path is reported with result `which` exactly when some entry with that
/// path validated to `which`.
pub proof fn lemma_paths_with_members(
    entries: Seq<(Seq<char>, Seq<u8>)>,
    results: Seq<ValidateResult>,
    which: ValidateResult,
    k: Seq<char>,
)
    requires
        entries.len() == results.len(),
    ensures
        paths_with(entries, results, which).contains(k) <==> exists|i: int|
            0 <= i < entries.len() && results[i] == which && #[trigger] entries[i].0 == k,
    decreases entries.len(),
{
    if entries.len() > 0 {
        let e0 = entries.drop_last();
        let r0 = results.drop_last();
        lemma_paths_with_members(e0, r0, which, k);
        let rest = paths_with(e0, r0, which);
        if paths_with(entries, results, which).contains(k) {
            let j = choose|j: int| 0 <= j < paths_with(entries, results, which).len() && paths_with(entries, results, which)[j] == k;
            if rest.contains(k) {
                let i = choose|i: int| 0 <= i < e0.len() && r0[i] == which && #[trigger] e0[i].0 == k;
                assert(entries[i].0 == k);
            } else {
                assert(j == rest.len());
                assert(entries[entries.len() - 1].0 == k);
            }
        }
        if exists|i: int| 0 <= i < entries.len() && results[i] == which && #[trigger] entries[i].0 == k {
            let i = choose|i: int| 0 <= i < entries.len() && results[i] == which && #[trigger] entries[i].0 == k;
            if i < entries.len() - 1 {
                assert(e0[i].0 == k);
                let j = choose|j: int| 0 <= j < rest.len() && rest[j] == k;
                if results.last() == which {
                    assert(rest.push(entries.last().0)[j] == k);
                }
            } else {
                assert(paths_with(entries, results, which) == rest.push(entries.last().0));
                assert(rest.push(entries.last().0)[rest.len() as int] == k);
            }
        }
    }
}

/// Law of `Snapshot::calc_modified_files`: over a well-formed storage (no
/// path twice), no path is reported both modified and deleted, and a
/// reported path is one that the snapshot recorded.
pub proof fn lemma_modified_deleted_disjoint(
    entries: Seq<(Seq<char>, Seq<u8>)>,
    results: Seq<ValidateResult>,
    k: Seq<char>,
)
    requires
        entries.len() == results.len(),
        crate::store::distinct_keys(entries),
    ensures
        !(paths_with(entries, results, ValidateResult::Modified).contains(k) && paths_with(
            entries,
            results,
            ValidateResult::Deleted,
        ).contains(k)),
        paths_with(entries, results, ValidateResult::Modified).contains(k) ==> crate::store::entries_map(entries).contains_key(k),
        paths_with(entries, results, ValidateResult::Deleted).contains(k) ==> crate::store::entries_map(entries).contains_key(k),
{
    lemma_paths_with_members(entries, results, ValidateResult::Modified, k);
    lemma_paths_with_members(entries, results, ValidateResult::Deleted, k);
    crate::store::lemma_map_domain(entries, k);
    if paths_with(entries, results, ValidateResult::Modified).contains(k) && paths_with(
        entries,
        results,
        ValidateResult::Deleted,
    ).contains(k) {
        let i = choose|i: int| 0 <= i < entries.len() && results[i] == ValidateResult::Modified && #[trigger] entries[i].0 == k;
        let j = choose|j: int| 0 <= j < entries.len() && results[j] == ValidateResult::Deleted && #[trigger] entries[j].0 == k;
        if i < j {
            assert(entries[i].0 != entries[j].0);
        } else if j < i {
            assert(entries[j].0 != entries[i].0);
        }
    }
}

} // verus!

verus! {

/// The paths of `files`.
pub open spec fn file_paths(files: Seq<SnapshotFileView>) -> Set<Seq<char>> {
    Set::new(|k: Seq<char>| exists|i: int| 0 <= i < files.len() && #[trigger] files[i].path == k)
}

/// Law of `Snapshot::add` and `Snapshot::remove`: removing the files that
/// were just added leaves the recorded map as it was before, less those
/// files' paths (what was recorded of them before is gone too).
pub proof fn lemma_add_then_remove(m: Map<Seq<char>, Seq<u8>>, files: Seq<SnapshotFileView>, t: u64)
    ensures
        add_files(m, files, t).remove_keys(file_paths(files)) == m.remove_keys(file_paths(files)),
{
    lemma_add_records_compile_time(m, files, t);
    assert forall|k: Seq<char>| recorded_paths(files).contains(k) implies file_paths(files).contains(k) by {
        let i = choose|i: int| 0 <= i < files.len() && !files[i].immutable && #[trigger] files[i].path == k;
        assert(files[i].path == k);
    }
    assert(add_files(m, files, t).remove_keys(file_paths(files)) =~= m.remove_keys(file_paths(files)));
}

} // verus!
