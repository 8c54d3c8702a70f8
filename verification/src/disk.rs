//! A snapshot of what the disk said about a set of paths. The queries of the
//! analyzer read the disk through such a snapshot only, so each of them is a
//! function of the corpus and the snapshot.

use vstd::prelude::*;
use vstd::hash_map::StringHashMap;
use crate::paths::optional_view;

verus! {

/// What the disk said about one path.
pub struct PathStatus {
    /// The canonical form of the path, where the disk could give one.
    pub canonical: Option<String>,
    /// Whether the path exists.
    pub exists: bool,
}

/// What the disk said about one path, as a mathematical value.
pub struct PathFacts {
    pub canonical: Option<Seq<char>>,
    pub exists: bool,
}

impl View for PathStatus {
    type V = PathFacts;

    open spec fn view(&self) -> PathFacts {
        PathFacts { canonical: optional_view(self.canonical), exists: self.exists }
    }
}

/// The paths that were probed, each with what was found.
pub type DiskView = Map<Seq<char>, PathFacts>;

/// The canonical form of `path` according to `disk`; a path that was not
/// probed has none.
pub open spec fn canonical_on(disk: DiskView, path: Seq<char>) -> Option<Seq<char>> {
    if disk.dom().contains(path) {
        disk[path].canonical
    } else {
        None
    }
}

/// Whether `path` exists according to `disk`; a path that was not probed
/// does not.
pub open spec fn present_on(disk: DiskView, path: Seq<char>) -> bool {
    disk.dom().contains(path) && disk[path].exists
}

/// Whether `disk` answers for `path` and for what it resolves to: the path
/// was probed, and so was its canonical form where it has one.
pub open spec fn probed(disk: DiskView, path: Seq<char>) -> bool {
    disk.dom().contains(path) && match disk[path].canonical {
        Some(canonical) => disk.dom().contains(canonical),
        None => true,
    }
}

/// What was found on disk for the paths that were probed.
pub struct DiskSnapshot {
    statuses: StringHashMap<PathStatus>,
}

impl View for DiskSnapshot {
    type V = DiskView;

    closed spec fn view(&self) -> DiskView {
        self.statuses@.map_values(|status: PathStatus| status@)
    }
}

impl DiskSnapshot {
    /// A snapshot in which no path was probed.
    pub fn new() -> (disk: Self)
        ensures
            disk@ == Map::<Seq<char>, PathFacts>::empty(),
    {
        let disk = DiskSnapshot { statuses: StringHashMap::new() };
        assert(disk@ =~= Map::<Seq<char>, PathFacts>::empty());
        disk
    }

    /// Records what the disk said about `path`, in place of anything recorded
    /// for it before.
    pub fn record(&mut self, path: String, canonical: Option<String>, exists: bool)
        ensures
            final(self)@ == old(self)@.insert(
                path@,
                PathFacts { canonical: optional_view(canonical), exists },
            ),
    {
        let ghost before = self@;
        let ghost key = path@;
        let ghost facts = PathFacts { canonical: optional_view(canonical), exists };
        self.statuses.insert(path, PathStatus { canonical, exists });
        assert(self@ =~= before.insert(key, facts));
    }

    /// The canonical form of `path`, if it was probed and has one.
    pub fn canonical(&self, path: &str) -> (canonical: Option<String>)
        ensures
            optional_view(canonical) == canonical_on(self@, path@),
    {
        match self.statuses.get(path) {
            Some(status) => match &status.canonical {
                Some(c) => Some(c.clone()),
                None => None,
            },
            None => None,
        }
    }

    /// Whether the snapshot answers for `path` and for what it resolves to.
    pub fn answers_for(&self, path: &str) -> (answered: bool)
        ensures
            answered == probed(self@, path@),
    {
        match self.statuses.get(path) {
            Some(status) => match &status.canonical {
                Some(canonical) => self.statuses.contains_key(canonical.as_str()),
                None => true,
            },
            None => false,
        }
    }

    /// Whether `path` was probed and exists.
    pub fn is_present(&self, path: &str) -> (present: bool)
        ensures
            present == present_on(self@, path@),
    {
        match self.statuses.get(path) {
            Some(status) => status.exists,
            None => false,
        }
    }
}

} // verus!
