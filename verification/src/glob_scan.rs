//! The search for the matches of a deny pattern, directory by directory: it
//! goes no deeper than its bound and enters nothing that stands for another
//! object.

use vstd::prelude::*;

use crate::filesystem_plan::{FilesystemPlanError, PathPresence};
use crate::native_path;
use crate::native_path::{NativePath, PathModel};
use crate::ordering;

verus! {

/// An object that the search meets.
#[derive(Debug)]
pub struct ScanEntry {
    /// Its path.
    pub path: NativePath,
    /// Whether it stands for another object.
    pub reparse: bool,
    /// Whether it is a directory.
    pub directory: bool,
    /// Whether the pattern matches it.
    pub matches: bool,
}

/// What the search knows of an object that it meets.
#[verifier::ext_equal]
pub struct EntryModel {
    /// Its path.
    pub path: PathModel,
    /// Whether it stands for another object.
    pub reparse: bool,
    /// Whether it is a directory.
    pub directory: bool,
    /// Whether the pattern matches it.
    pub matches: bool,
    /// How far it lies below the root of the search.
    pub depth: u64,
}

impl ScanEntry {
    /// The object at a depth.
    pub open spec fn at(self, depth: u64) -> EntryModel {
        EntryModel {
            path: self.path@,
            reparse: self.reparse,
            directory: self.directory,
            matches: self.matches,
            depth,
        }
    }
}

/// What a search has still to visit and what it has found.
#[verifier::ext_equal]
pub struct ScanModel {
    /// The greatest depth at which directories are not read any more.
    pub bound: Option<u64>,
    /// The objects to visit, the last one first.
    pub stack: Seq<EntryModel>,
    /// The matches, in the order of their paths and once each.
    pub found: Seq<PathModel>,
    /// The depth of the directory whose objects are waited for.
    pub depth: u64,
}

/// Whether a directory at a depth is read.
pub open spec fn within_bound(bound: Option<u64>, depth: u64) -> bool {
    bound is None || depth < bound->0
}

/// Where a search comes to next: the directory that it reads, or none where
/// it is over; it fails at an object that stands for another.
pub open spec fn next_directory(state: ScanModel) -> Result<
    (ScanModel, Option<PathModel>),
    PathModel,
>
    decreases state.stack.len(),
{
    if state.stack.len() == 0 {
        Ok((state, None))
    } else {
        let entry = state.stack.last();
        let rest = ScanModel {
            stack: state.stack.drop_last(),
            found: if entry.matches {
                native_path::with_path(state.found, entry.path)
            } else {
                state.found
            },
            depth: entry.depth,
            ..state
        };
        if entry.reparse {
            Err(entry.path)
        } else if entry.directory && within_bound(state.bound, entry.depth) {
            Ok((rest, Some(entry.path)))
        } else {
            next_directory(ScanModel { depth: state.depth, ..rest })
        }
    }
}

/// The keys of objects.
pub open spec fn entry_keys(entries: Seq<ScanEntry>) -> Seq<Seq<u32>> {
    entries.map_values(|entry: ScanEntry| entry.path@.key())
}

/// Objects in the reverse of an order, at a depth.
pub open spec fn reversed_at(
    entries: Seq<ScanEntry>,
    positions: Seq<usize>,
    depth: u64,
) -> Seq<EntryModel> {
    Seq::new(
        positions.len(),
        |i: int| entries[positions[positions.len() - 1 - i] as int].at(depth),
    )
}

/// One level below a depth.
pub open spec fn below(depth: u64) -> u64 {
    if depth == u64::MAX {
        depth
    } else {
        (depth + 1) as u64
    }
}

/// Whether a search comes from one state to another by taking in the objects
/// of the directory that was read last: they are visited in the order of their
/// paths.
pub open spec fn takes_in(before: ScanModel, children: Seq<ScanEntry>, after: ScanModel) -> bool {
    exists|positions: Seq<usize>|
        {
            &&& #[trigger] ordering::ascending(positions, entry_keys(children))
            &&& after == (ScanModel {
                stack: before.stack + reversed_at(children, positions, below(before.depth)),
                ..before
            })
        }
}

/// An object to visit.
struct Visit {
    entry: ScanEntry,
    depth: u64,
}

/// A search for the matches of a deny pattern.
pub struct GlobScan {
    bound: Option<u64>,
    stack: Vec<Visit>,
    found_keys: Vec<Vec<u32>>,
    found: Vec<NativePath>,
    depth: u64,
}

/// The objects that a stack holds.
spec fn visits(stack: Seq<Visit>) -> Seq<EntryModel> {
    stack.map_values(|visit: Visit| visit.entry.at(visit.depth))
}

impl View for GlobScan {
    type V = ScanModel;

    closed spec fn view(&self) -> ScanModel {
        ScanModel {
            bound: self.bound,
            stack: visits(self.stack@),
            found: native_path::models(self.found@),
            depth: self.depth,
        }
    }
}

impl GlobScan {
    /// Whether the matches are in order and once each.
    pub closed spec fn wf(&self) -> bool {
        &&& ordering::strictly_ascending(native_path::path_keys(self@.found))
        &&& ordering::key_list(self.found_keys@) == native_path::path_keys(self@.found)
    }

    /// A search that starts at a root, as the system shows it; a root that
    /// does not exist has no matches.
    pub fn start(root: ScanEntry, presence: PathPresence, bound: Option<u64>) -> (result: Result<
        GlobScan,
        FilesystemPlanError<NativePath>,
    >)
        ensures
            match result {
                Ok(scan) => {
                    &&& scan.wf()
                    &&& scan@.bound == bound
                    &&& scan@.found == Seq::<PathModel>::empty()
                    &&& scan@.depth == 0
                    &&& scan@.stack == (if presence is Present {
                        seq![root.at(0)]
                    } else {
                        Seq::empty()
                    })
                    &&& !(presence is Failed)
                },
                Err(error) => presence is Failed && error@ == (FilesystemPlanError::Metadata {
                    path: root.path@,
                    code: presence->code,
                }),
            },
    {
        let mut stack: Vec<Visit> = Vec::new();
        match presence {
            PathPresence::Present => {
                stack.push(Visit { entry: root, depth: 0 });
                assert(visits(stack@) =~= seq![root.at(0)]);
            },
            PathPresence::Missing => {
                assert(visits(stack@) =~= Seq::empty());
            },
            PathPresence::Failed { code } => {
                return Err(FilesystemPlanError::Metadata { path: root.path, code });
            },
        }
        let scan = GlobScan {
            bound,
            stack,
            found_keys: Vec::new(),
            found: Vec::new(),
            depth: 0,
        };
        proof {
            assert(scan@.found =~= Seq::empty());
            assert(ordering::key_list(scan.found_keys@) =~= native_path::path_keys(
                scan@.found,
            ));
        }
        Ok(scan)
    }

    /// Adds a match, unless it is there already.
    fn add_match(&mut self, path: &NativePath)
        requires
            old(self).wf(),
        ensures
            final(self).wf(),
            final(self)@ == (ScanModel {
                found: native_path::with_path(old(self)@.found, path@),
                ..old(self)@
            }),
    {
        let ghost before = self@;
        let ghost keys = native_path::path_keys(before.found);
        let key = path.key();
        let i = ordering::find_slot(&self.found_keys, &key);
        proof {
            ordering::slot_divides(keys, key@);
        }
        assert(self.found_keys@.len() == keys.len());
        assert(self.found@.len() == keys.len());
        if i < self.found.len() && ordering::same_words(&self.found_keys[i], &key) {
            assert(keys[i as int] == key@);
        } else {
            assert(!ordering::is_present(keys, key@));
            proof {
                ordering::insert_keeps_order(keys, key@);
            }
            self.found_keys.insert(i, key);
            self.found.insert(i, path.clone());
            proof {
                assert(self@.found =~= before.found.insert(i as int, path@));
                assert(native_path::path_keys(self@.found) =~= keys.insert(i as int, key@));
                assert(ordering::key_list(self.found_keys@) =~= keys.insert(i as int, key@));
            }
        }
    }

    /// Goes on to the next directory to read; none where the search is over.
    pub fn next(&mut self) -> (result: Result<
        Option<NativePath>,
        FilesystemPlanError<NativePath>,
    >)
        requires
            old(self).wf(),
        ensures
            final(self).wf(),
            match result {
                Ok(directory) => match next_directory(old(self)@) {
                    Ok((state, path)) => {
                        &&& final(self)@ == state
                        &&& path == (match directory {
                            Some(directory) => Some(directory@),
                            None => None,
                        })
                    },
                    Err(_) => false,
                },
                Err(error) => match next_directory(old(self)@) {
                    Ok(_) => false,
                    Err(path) => error@ == (FilesystemPlanError::GlobReparsePoint { path }),
                },
            },
            result matches Ok(Some(_)) ==> within_bound(final(self)@.bound, final(self)@.depth),
    {
        let ghost expected = next_directory(self@);
        loop
            invariant
                self.wf(),
                expected == next_directory(old(self)@),
                next_directory(self@) == expected,
            decreases self.stack@.len(),
        {
            let ghost before = self@;
            match self.stack.pop() {
                None => {
                    assert(before.stack.len() == 0);
                    assert(self@ == before);
                    return Ok(None);
                },
                Some(visit) => {
                    assert(before.stack.last() == visit.entry.at(visit.depth));
                    assert(self@.stack =~= before.stack.drop_last());
                    if visit.entry.reparse {
                        return Err(
                            FilesystemPlanError::GlobReparsePoint { path: visit.entry.path },
                        );
                    }
                    if visit.entry.matches {
                        self.add_match(&visit.entry.path);
                    }
                    let inside = match self.bound {
                        None => true,
                        Some(bound) => visit.depth < bound,
                    };
                    if visit.entry.directory && inside {
                        self.depth = visit.depth;
                        return Ok(Some(visit.entry.path));
                    }
                },
            }
        }
    }

    /// Adds the objects of the directory that was read last: they are
    /// visited in the order of their paths.
    pub fn supply(&mut self, children: Vec<ScanEntry>)
        requires
            old(self).wf(),
        ensures
            final(self).wf(),
            takes_in(old(self)@, children@, final(self)@),
    {
        let ghost before = self@;
        let mut keys: Vec<Vec<u32>> = Vec::new();
        for i in 0..children.len()
            invariant
                keys@.len() == i,
                forall|j: int| 0 <= j < i ==> (#[trigger] keys@[j])@ == children@[j].path@.key(),
        {
            keys.push(children[i].path.key());
        }
        assert(ordering::key_list(keys@) =~= entry_keys(children@));
        let positions = ordering::sorted_positions(&keys);
        let depth: u64 = if self.depth == u64::MAX {
            self.depth
        } else {
            self.depth + 1
        };
        let count: usize = positions.len();
        for i in 0..count
            invariant
                self.wf(),
                count == positions@.len(),
                depth == below(before.depth),
                ordering::ascending(positions@, entry_keys(children@)),
                self@.bound == before.bound,
                self@.found == before.found,
                self@.depth == before.depth,
                self@.stack == before.stack + reversed_at(children@, positions@, depth).take(
                    i as int,
                ),
        {
            let at = positions[count - 1 - i];
            let child = &children[at];
            let ghost held = self@.stack;
            self.stack.push(
                Visit {
                    entry: ScanEntry {
                        path: child.path.clone(),
                        reparse: child.reparse,
                        directory: child.directory,
                        matches: child.matches,
                    },
                    depth,
                },
            );
            proof {
                let all = reversed_at(children@, positions@, depth);
                assert(self@.stack =~= held.push(all[i as int]));
                assert(self@.stack =~= before.stack + all.take(i + 1));
            }
        }
        proof {
            let all = reversed_at(children@, positions@, depth);
            assert(all.take(count as int) =~= all);
            assert(self@ =~= (ScanModel { stack: before.stack + all, ..before }));
        }
    }

    /// The matches of a search that is over.
    pub fn into_matches(self) -> (matches: Vec<NativePath>)
        ensures
            native_path::models(matches@) == self@.found,
    {
        self.found
    }
}

/// A search reads no directory below its bound and none that stands for
/// another object.
pub proof fn search_stays_in_bounds(state: ScanModel)
    ensures
        next_directory(state) matches Ok((after, Some(path))) ==> {
            &&& within_bound(state.bound, after.depth)
            &&& exists|i: int|
                {
                    &&& 0 <= i < state.stack.len()
                    &&& (#[trigger] state.stack[i]).path == path
                    &&& state.stack[i].directory
                    &&& !state.stack[i].reparse
                    &&& state.stack[i].depth == after.depth
                }
        },
    decreases state.stack.len(),
{
    if state.stack.len() > 0 {
        let last = state.stack.len() - 1;
        let entry = state.stack[last];
        let rest = ScanModel {
            stack: state.stack.drop_last(),
            found: if entry.matches {
                native_path::with_path(state.found, entry.path)
            } else {
                state.found
            },
            ..state
        };
        search_stays_in_bounds(rest);
        if next_directory(state) is Ok && next_directory(state)->Ok_0.1 is Some {
            if !(entry.directory && within_bound(state.bound, entry.depth)) {
                let (after, path) = next_directory(rest)->Ok_0;
                let i = choose|i: int|
                    {
                        &&& 0 <= i < rest.stack.len()
                        &&& (#[trigger] rest.stack[i]).path == path->0
                        &&& rest.stack[i].directory
                        &&& !rest.stack[i].reparse
                        &&& rest.stack[i].depth == after.depth
                    };
                assert(state.stack[i] == rest.stack[i]);
            } else {
                assert(state.stack[last].path == next_directory(state)->Ok_0.1->0);
            }
        }
    }
}

} // verus!
