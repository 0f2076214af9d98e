//! Finding what exists below a directory: the file system is read outside,
//! one directory at a time; what to read and what to keep is decided here.

use vstd::prelude::*;

use crate::acl_error::{AclError, AclErrorModel, FilesystemAclError};
use crate::acl_operations::SubtreePath;
use crate::filesystem_path;
use crate::native_path;
use crate::native_path::{NativePath, PathModel};
use crate::ordering;

verus! {

/// What was seen of an object.
#[derive(Clone, Copy, Debug, PartialEq, Eq, Structural)]
pub enum ObjectFacts {
    /// It is there.
    Seen {
        /// Its attributes.
        attributes: u32,
        /// Whether it is a directory.
        is_directory: bool,
    },
    /// It is not there.
    Missing,
    /// It could not be inspected.
    Failed {
        /// The system's error number.
        code: i32,
    },
}

/// An object that a directory lists.
#[derive(Debug)]
pub struct ListedObject {
    /// Its path.
    pub path: NativePath,
    /// What was seen of it.
    pub facts: ObjectFacts,
}

/// How a directory was read.
#[derive(Debug)]
pub enum DirectoryListing {
    /// It is not there any more.
    Missing,
    /// It could not be read.
    Failed {
        /// The system's error number.
        code: i32,
    },
    /// It lists these objects; a system's error number stands for one that
    /// could not be read.
    Listed(Vec<Result<ListedObject, i32>>),
}

/// An object that was found.
#[verifier::ext_equal]
pub struct FoundModel {
    /// Its path.
    pub path: PathModel,
    /// Whether it is a directory.
    pub is_directory: bool,
}

/// What was found.
pub open spec fn found_models(found: Seq<SubtreePath>) -> Seq<FoundModel> {
    found.map_values(
        |item: SubtreePath| FoundModel { path: item.path@, is_directory: item.is_directory },
    )
}

/// The keys of what was found.
pub open spec fn found_keys(found: Seq<FoundModel>) -> Seq<Seq<u32>> {
    found.map_values(|item: FoundModel| item.path.key())
}

/// The paths of the directories among what was found.
pub open spec fn directories(found: Seq<FoundModel>) -> Seq<PathModel>
    decreases found.len(),
{
    if found.len() == 0 {
        Seq::empty()
    } else if found.last().is_directory {
        directories(found.drop_last()).push(found.last().path)
    } else {
        directories(found.drop_last())
    }
}

/// Whether a path is left out.
pub open spec fn is_excluded(path: PathModel, excluded: Seq<PathModel>) -> bool {
    exists|i: int|
        0 <= i < excluded.len() && (path.same_path(#[trigger] excluded[i]) || path.is_within(
            excluded[i],
        ))
}

/// The listed objects that are kept after `kept`, from the `i`th on: those
/// that are there, are not left out and do not stand for others.
pub open spec fn kept_children_from(
    parent: PathModel,
    listed: Seq<Result<ListedObject, i32>>,
    excluded: Seq<PathModel>,
    kept: Seq<FoundModel>,
    i: int,
) -> Result<Seq<FoundModel>, AclErrorModel>
    decreases listed.len() - i,
{
    if i < 0 || i >= listed.len() {
        Ok(kept)
    } else {
        match listed[i] {
            Err(code) => Err(FilesystemAclError::Enumerate { path: parent, code }),
            Ok(object) => if is_excluded(object.path@, excluded) {
                kept_children_from(parent, listed, excluded, kept, i + 1)
            } else {
                match object.facts {
                    ObjectFacts::Missing => kept_children_from(
                        parent,
                        listed,
                        excluded,
                        kept,
                        i + 1,
                    ),
                    ObjectFacts::Failed { code } => Err(
                        FilesystemAclError::Metadata { path: object.path@, code },
                    ),
                    ObjectFacts::Seen { attributes, is_directory } => if filesystem_path::is_reparse_point(
                    attributes) {
                        kept_children_from(parent, listed, excluded, kept, i + 1)
                    } else {
                        kept_children_from(
                            parent,
                            listed,
                            excluded,
                            kept.push(FoundModel { path: object.path@, is_directory }),
                            i + 1,
                        )
                    },
                }
            },
        }
    }
}

/// Whether a list holds what another holds, the last key first.
pub open spec fn is_descending(sorted: Seq<FoundModel>, all: Seq<FoundModel>) -> bool {
    exists|positions: Seq<usize>|
        {
            &&& #[trigger] ordering::ascending(positions, found_keys(all))
            &&& sorted == Seq::new(
                all.len(),
                |i: int| all[positions[all.len() - 1 - i] as int],
            )
        }
}

/// Whether a list holds what another holds, the first key first.
pub open spec fn is_ascending(sorted: Seq<FoundModel>, all: Seq<FoundModel>) -> bool {
    exists|positions: Seq<usize>|
        {
            &&& #[trigger] ordering::ascending(positions, found_keys(all))
            &&& sorted == Seq::new(all.len(), |i: int| all[positions[i] as int])
        }
}

/// The state of a search.
#[verifier::ext_equal]
pub struct ScanModel {
    /// What is left out.
    pub excluded: Seq<PathModel>,
    /// The directories that are still to be read, the next one last.
    pub pending: Seq<PathModel>,
    /// What was found.
    pub found: Seq<FoundModel>,
}

impl ScanModel {
    /// Whether nothing that is left out was found or is to be read, but for
    /// the root.
    pub open spec fn keeps_out_the_excluded(self) -> bool {
        forall|i: int|
            0 <= i < self.found.len() ==> !is_excluded(
                (#[trigger] self.found[i]).path,
                self.excluded,
            )
    }
}

/// Whether a search comes from one state to another by taking in how a
/// directory was read.
pub open spec fn takes_in(
    before: ScanModel,
    parent: PathModel,
    listing: DirectoryListing,
    after: ScanModel,
) -> bool {
    &&& after.excluded == before.excluded
    &&& match listing {
        DirectoryListing::Missing => after == before,
        DirectoryListing::Failed { .. } => false,
        DirectoryListing::Listed(objects) => match kept_children_from(
            parent,
            objects@,
            before.excluded,
            Seq::empty(),
            0,
        ) {
            Err(_) => false,
            Ok(children) => exists|sorted: Seq<FoundModel>|
                {
                    &&& #[trigger] is_descending(sorted, children)
                    &&& after.found == before.found + sorted
                    &&& after.pending == before.pending + directories(sorted)
                },
        },
    }
}

/// A search for what exists below a directory.
#[derive(Debug)]
pub struct SubtreeScan {
    excluded: Vec<NativePath>,
    pending: Vec<NativePath>,
    found: Vec<SubtreePath>,
}

impl View for SubtreeScan {
    type V = ScanModel;

    closed spec fn view(&self) -> ScanModel {
        ScanModel {
            excluded: native_path::models(self.excluded@),
            pending: native_path::models(self.pending@),
            found: found_models(self.found@),
        }
    }
}

/// Whether a path is left out.
pub fn excludes(path: &NativePath, excluded: &Vec<NativePath>) -> (yes: bool)
    ensures
        yes == is_excluded(path@, native_path::models(excluded@)),
{
    let ghost list = native_path::models(excluded@);
    for i in 0..excluded.len()
        invariant
            list == native_path::models(excluded@),
            forall|j: int|
                0 <= j < i ==> !(path@.same_path(#[trigger] list[j]) || path@.is_within(list[j])),
    {
        assert(list[i as int] == excluded@[i as int]@);
        if path.same_path(&excluded[i]) || path.is_within(&excluded[i]) {
            return true;
        }
    }
    false
}

/// The positions of what was found, in the order of the keys.
fn key_order(found: &Vec<SubtreePath>) -> (positions: Vec<usize>)
    ensures
        ordering::ascending(positions@, found_keys(found_models(found@))),
{
    let mut keys: Vec<Vec<u32>> = Vec::new();
    for i in 0..found.len()
        invariant
            keys@.len() == i,
            forall|j: int| 0 <= j < i ==> (#[trigger] keys@[j])@ == found@[j].path@.key(),
    {
        keys.push(found[i].path.key());
    }
    assert(ordering::key_list(keys@) =~= found_keys(found_models(found@)));
    ordering::sorted_positions(&keys)
}

impl SubtreeScan {
    /// A search below a root, which is inspected itself: one that stands for
    /// another object is refused, and below one that is no directory there is
    /// nothing to find.
    pub fn start(root: &NativePath, facts: ObjectFacts, excluded: Vec<NativePath>) -> (result:
        Result<SubtreeScan, AclError>)
        ensures
            match facts {
                ObjectFacts::Missing => result matches Err(error) && error@ == (
                AclErrorModel::Metadata { path: root@, code: NOT_FOUND }),
                ObjectFacts::Failed { code } => result matches Err(error) && error@ == (
                AclErrorModel::Metadata { path: root@, code }),
                ObjectFacts::Seen { attributes, is_directory } => if filesystem_path::is_reparse_point(
                attributes) {
                    result matches Err(error) && error@ == (AclErrorModel::ReparsePoint {
                        path: root@,
                    })
                } else {
                    result matches Ok(scan) && scan@ == (ScanModel {
                        excluded: native_path::models(excluded@),
                        pending: if is_directory {
                            seq![root@]
                        } else {
                            Seq::empty()
                        },
                        found: Seq::empty(),
                    })
                },
            },
    {
        match facts {
            ObjectFacts::Missing => Err(
                FilesystemAclError::Metadata { path: root.clone(), code: NOT_FOUND },
            ),
            ObjectFacts::Failed { code } => Err(
                FilesystemAclError::Metadata { path: root.clone(), code },
            ),
            ObjectFacts::Seen { attributes, is_directory } => {
                if attributes & filesystem_path::FILE_ATTRIBUTE_REPARSE_POINT != 0 {
                    return Err(FilesystemAclError::ReparsePoint { path: root.clone() });
                }
                let mut pending: Vec<NativePath> = Vec::new();
                if is_directory {
                    pending.push(root.clone());
                    assert(native_path::models(pending@) =~= seq![root@]);
                } else {
                    assert(native_path::models(pending@) =~= Seq::<PathModel>::empty());
                }
                let found: Vec<SubtreePath> = Vec::new();
                assert(found_models(found@) =~= Seq::<FoundModel>::empty());
                Ok(SubtreeScan { excluded, pending, found })
            },
        }
    }

    /// The directory to read next, if one is left.
    pub fn next(&mut self) -> (directory: Option<NativePath>)
        ensures
            match directory {
                Some(path) => {
                    &&& old(self)@.pending.len() > 0
                    &&& path@ == old(self)@.pending.last()
                    &&& final(self)@ == (ScanModel {
                        pending: old(self)@.pending.drop_last(),
                        ..old(self)@
                    })
                },
                None => old(self)@.pending.len() == 0 && final(self)@ == old(self)@,
            },
    {
        let ghost before = native_path::models(self.pending@);
        let directory = self.pending.pop();
        proof {
            if directory is Some {
                assert(native_path::models(self.pending@) =~= before.drop_last());
            }
        }
        directory
    }

    /// Whether a path is left out of the search.
    pub fn leaves_out(&self, path: &NativePath) -> (yes: bool)
        ensures
            yes == is_excluded(path@, self@.excluded),
    {
        excludes(path, &self.excluded)
    }

    /// Takes in how a directory was read. One that is not there any more
    /// holds nothing.
    pub fn supply(&mut self, parent: &NativePath, listing: DirectoryListing) -> (result: Result<
        (),
        AclError,
    >)
        ensures
            final(self)@.excluded == old(self)@.excluded,
            old(self)@.keeps_out_the_excluded() ==> final(self)@.keeps_out_the_excluded(),
            match listing {
                DirectoryListing::Missing => result is Ok && final(self)@ == old(self)@,
                DirectoryListing::Failed { code } => {
                    &&& final(self)@ == old(self)@
                    &&& result matches Err(error) && error@ == (AclErrorModel::Enumerate {
                        path: parent@,
                        code,
                    })
                },
                DirectoryListing::Listed(objects) => match kept_children_from(
                    parent@,
                    objects@,
                    old(self)@.excluded,
                    Seq::empty(),
                    0,
                ) {
                    Err(failure) => {
                        &&& final(self)@ == old(self)@
                        &&& result matches Err(error) && error@ == failure
                    },
                    Ok(_) => result is Ok,
                },
            },
            result is Ok ==> takes_in(old(self)@, parent@, listing, final(self)@),
    {
        match listing {
            DirectoryListing::Missing => Ok(()),
            DirectoryListing::Failed { code } => Err(
                FilesystemAclError::Enumerate { path: parent.clone(), code },
            ),
            DirectoryListing::Listed(objects) => {
                let children = match kept_children(parent, &objects, &self.excluded) {
                    Ok(children) => children,
                    Err(error) => {
                        return Err(error);
                    },
                };
                self.take(&children);
                Ok(())
            },
        }
    }

    /// Takes in objects, the last key first.
    fn take(&mut self, children: &Vec<SubtreePath>)
        requires
            forall|i: int|
                0 <= i < children@.len() ==> !is_excluded(
                    (#[trigger] children@[i]).path@,
                    old(self)@.excluded,
                ),
        ensures
            final(self)@.excluded == old(self)@.excluded,
            old(self)@.keeps_out_the_excluded() ==> final(self)@.keeps_out_the_excluded(),
            exists|sorted: Seq<FoundModel>|
                {
                    &&& #[trigger] is_descending(sorted, found_models(children@))
                    &&& final(self)@.found == old(self)@.found + sorted
                    &&& final(self)@.pending == old(self)@.pending + directories(sorted)
                },
    {
        let ghost before = self@;
        let ghost all = found_models(children@);
        let positions = key_order(children);
        let count: usize = positions.len();
        let ghost sorted = Seq::new(all.len(), |i: int| all[positions@[all.len() - 1 - i] as int]);
        let mut done: usize = 0;
        assert(sorted.take(0) =~= Seq::<FoundModel>::empty());
        assert(before.found + Seq::<FoundModel>::empty() =~= before.found);
        assert(before.pending + Seq::<PathModel>::empty() =~= before.pending);
        while done < count
            invariant
                done <= count,
                count == positions@.len(),
                all == found_models(children@),
                ordering::ascending(positions@, found_keys(all)),
                sorted == Seq::new(
                    all.len(),
                    |i: int| all[positions@[all.len() - 1 - i] as int],
                ),
                self@.excluded == before.excluded,
                self@.found == before.found + sorted.take(done as int),
                self@.pending == before.pending + directories(sorted.take(done as int)),
            decreases count - done,
        {
            let at: usize = positions[count - 1 - done];
            let child = &children[at];
            let ghost item = all[at as int];
            let ghost held = self@;
            assert(sorted[done as int] == item);
            assert(sorted.take(done + 1).drop_last() =~= sorted.take(done as int));
            if child.is_directory {
                self.pending.push(child.path.clone());
                assert(native_path::models(self.pending@) =~= held.pending.push(item.path));
                assert(before.pending + directories(sorted.take(done as int)).push(item.path)
                    =~= held.pending.push(item.path));
            }
            self.found.push(
                SubtreePath { path: child.path.clone(), is_directory: child.is_directory },
            );
            assert(found_models(self.found@) =~= held.found.push(item));
            assert(before.found + sorted.take(done + 1) =~= held.found.push(item));
            done = done + 1;
        }
        assert(sorted.take(count as int) =~= sorted);
        assert(is_descending(sorted, all));
        proof {
            if before.keeps_out_the_excluded() {
                assert forall|i: int| 0 <= i < self@.found.len() implies !is_excluded(
                    (#[trigger] self@.found[i]).path,
                    self@.excluded,
                ) by {
                    if i < before.found.len() {
                        assert(self@.found[i] == before.found[i]);
                    } else {
                        let k = positions@[all.len() - 1 - (i - before.found.len())] as int;
                        assert(self@.found[i] == all[k]);
                        assert(all[k].path == children@[k].path@);
                    }
                }
            }
        }
    }

    /// Everything that was found, in the order of the keys.
    pub fn into_paths(self) -> (paths: Vec<SubtreePath>)
        ensures
            is_ascending(found_models(paths@), self@.found),
    {
        let ghost all = found_models(self.found@);
        let positions = key_order(&self.found);
        let mut paths: Vec<SubtreePath> = Vec::new();
        for i in 0..positions.len()
            invariant
                all == found_models(self.found@),
                ordering::ascending(positions@, found_keys(all)),
                paths@.len() == i,
                forall|j: int|
                    0 <= j < i ==> found_models(paths@)[j] == all[(#[trigger] positions@[j]) as int],
        {
            let item = &self.found[positions[i]];
            let ghost before = found_models(paths@);
            paths.push(
                SubtreePath { path: item.path.clone(), is_directory: item.is_directory },
            );
            assert(found_models(paths@) =~= before.push(all[positions@[i as int] as int]));
        }
        assert(found_models(paths@) =~= Seq::new(all.len(), |i: int| all[positions@[i] as int]));
        paths
    }
}

/// The system's error number for something that is not there.
pub const NOT_FOUND: i32 = 2;

/// What is kept is not left out, wherever what was kept before was not.
proof fn kept_children_are_not_excluded(
    parent: PathModel,
    listed: Seq<Result<ListedObject, i32>>,
    excluded: Seq<PathModel>,
    kept: Seq<FoundModel>,
    i: int,
    children: Seq<FoundModel>,
)
    requires
        kept_children_from(parent, listed, excluded, kept, i) == Ok::<
            Seq<FoundModel>,
            AclErrorModel,
        >(children),
        forall|j: int| 0 <= j < kept.len() ==> !is_excluded((#[trigger] kept[j]).path, excluded),
    ensures
        forall|j: int|
            0 <= j < children.len() ==> !is_excluded((#[trigger] children[j]).path, excluded),
    decreases listed.len() - i,
{
    if 0 <= i < listed.len() {
        if let Ok(object) = listed[i] {
            if is_excluded(object.path@, excluded) {
                kept_children_are_not_excluded(parent, listed, excluded, kept, i + 1, children);
            } else if let ObjectFacts::Seen { attributes, is_directory } = object.facts {
                if filesystem_path::is_reparse_point(attributes) {
                    kept_children_are_not_excluded(
                        parent,
                        listed,
                        excluded,
                        kept,
                        i + 1,
                        children,
                    );
                } else {
                    kept_children_are_not_excluded(
                        parent,
                        listed,
                        excluded,
                        kept.push(FoundModel { path: object.path@, is_directory }),
                        i + 1,
                        children,
                    );
                }
            } else if object.facts is Missing {
                kept_children_are_not_excluded(parent, listed, excluded, kept, i + 1, children);
            }
        }
    }
}

/// The listed objects that are kept.
fn kept_children(
    parent: &NativePath,
    objects: &Vec<Result<ListedObject, i32>>,
    excluded: &Vec<NativePath>,
) -> (result: Result<Vec<SubtreePath>, AclError>)
    ensures
        match (
            kept_children_from(
                parent@,
                objects@,
                native_path::models(excluded@),
                Seq::empty(),
                0,
            ),
            result,
        ) {
            (Err(failure), Err(error)) => error@ == failure,
            (Ok(children), Ok(kept)) => {
                &&& found_models(kept@) == children
                &&& forall|i: int|
                    0 <= i < kept@.len() ==> !is_excluded(
                        (#[trigger] kept@[i]).path@,
                        native_path::models(excluded@),
                    )
            },
            _ => false,
        },
{
    let ghost out = native_path::models(excluded@);
    let ghost whole = kept_children_from(parent@, objects@, out, Seq::empty(), 0);
    let mut kept: Vec<SubtreePath> = Vec::new();
    assert(found_models(kept@) =~= Seq::<FoundModel>::empty());
    for i in 0..objects.len()
        invariant
            out == native_path::models(excluded@),
            whole == kept_children_from(parent@, objects@, out, Seq::empty(), 0),
            kept_children_from(parent@, objects@, out, found_models(kept@), i as int) == whole,
    {
        match &objects[i] {
            Err(code) => {
                return Err(FilesystemAclError::Enumerate { path: parent.clone(), code: *code });
            },
            Ok(object) => {
                if !excludes(&object.path, excluded) {
                    match object.facts {
                        ObjectFacts::Missing => {},
                        ObjectFacts::Failed { code } => {
                            return Err(
                                FilesystemAclError::Metadata { path: object.path.clone(), code },
                            );
                        },
                        ObjectFacts::Seen { attributes, is_directory } => {
                            if attributes & filesystem_path::FILE_ATTRIBUTE_REPARSE_POINT == 0 {
                                let ghost before = found_models(kept@);
                                kept.push(SubtreePath { path: object.path.clone(), is_directory });
                                assert(found_models(kept@) =~= before.push(
                                    FoundModel { path: object.path@, is_directory },
                                ));
                            }
                        },
                    }
                }
            },
        }
    }
    proof {
        kept_children_are_not_excluded(
            parent@,
            objects@,
            out,
            Seq::empty(),
            0,
            found_models(kept@),
        );
        assert forall|i: int| 0 <= i < kept@.len() implies !is_excluded(
            (#[trigger] kept@[i]).path@,
            out,
        ) by {
            assert(found_models(kept@)[i].path == kept@[i].path@);
        }
    }
    Ok(kept)
}

} // verus!
