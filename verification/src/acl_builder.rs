//! Building the access-control plan of a filesystem plan.

use vstd::prelude::*;

use crate::acl_entries;
use crate::acl_entries::{
    AclEntry, AclEntryModel, OperationModel, PendingAclOperation, FILE_ALL_ACCESS,
    READ_ALLOW_MASK, WRITE_ALLOW_MASK, WRITE_DENY_MASK,
};
use crate::acl_error::{AclError, AclErrorModel, FilesystemAclError};
use crate::acl_plan::{AuthorityModel, FilesystemAuthorities};
use crate::filesystem_plan;
use crate::filesystem_plan::{
    FilesystemPlan, FilesystemPlanAccess, MissingFilesystemTargetKind,
    MissingModel, PlannedModel,
};
use crate::keyed::Keyed;
use crate::native_path;
use crate::native_path::{NativePath, PathModel};
use crate::ordering;
use crate::text;

verus! {

/// What a builder starts from.
#[verifier::ext_equal]
pub struct AclContext {
    /// The group that every sandbox account belongs to.
    pub group: Seq<char>,
    /// The authorities of the profile.
    pub authorities: AuthorityModel,
    /// The writable roots.
    pub write_roots: Seq<PathModel>,
    /// The first readable target.
    pub anchor: PathModel,
}

/// What a builder has gathered, each list in the order of its paths.
#[verifier::ext_equal]
pub struct BuilderModel {
    /// What roots get.
    pub foundation: Seq<OperationModel>,
    /// What lies below them gets.
    pub continuation: Seq<OperationModel>,
    /// What guarded paths get.
    pub denies: Seq<OperationModel>,
}

/// The keys of operations.
pub open spec fn operation_keys(operations: Seq<OperationModel>) -> Seq<Seq<u32>> {
    operations.map_values(|operation: OperationModel| operation.path.key())
}

/// Operations with a further request for an object.
pub open spec fn with_request(
    operations: Seq<OperationModel>,
    path: PathModel,
    entries: Seq<AclEntryModel>,
    protect_dacl: bool,
    remove_sids: Seq<Seq<char>>,
    excluded_roots: Seq<PathModel>,
) -> Seq<OperationModel> {
    let keys = operation_keys(operations);
    let i = ordering::slot(keys, path.key());
    if ordering::is_present(keys, path.key()) {
        operations.update(
            i,
            operations[i].merged(entries, protect_dacl, remove_sids, excluded_roots),
        )
    } else {
        operations.insert(
            i,
            OperationModel::empty(path).merged(entries, protect_dacl, remove_sids, excluded_roots),
        )
    }
}

impl AclContext {
    /// Who may write below the roots, from the `i`th on, that a path lies
    /// strictly below.
    pub open spec fn writers_above_from(self, path: PathModel, i: int) -> Seq<Seq<char>>
        decreases self.write_roots.len() - i,
    {
        if i < 0 || i >= self.write_roots.len() {
            Seq::empty()
        } else {
            let root = self.write_roots[i];
            let rest = self.writers_above_from(path, i + 1);
            if !path.same_path(root) && path.is_within(root)
                && self.authorities.writers.dom().contains(root.key()) {
                seq![self.authorities.writers[root.key()]] + rest
            } else {
                rest
            }
        }
    }

    /// The writable roots, from the `i`th on, that lie within a path.
    pub open spec fn roots_within_from(self, path: PathModel, i: int) -> Seq<PathModel>
        decreases self.write_roots.len() - i,
    {
        if i < 0 || i >= self.write_roots.len() {
            Seq::empty()
        } else {
            let rest = self.roots_within_from(path, i + 1);
            if self.write_roots[i].is_within(path) {
                seq![self.write_roots[i]] + rest
            } else {
                rest
            }
        }
    }

    /// Whether a root is the last of the deepest roots that hold a path.
    pub open spec fn is_deepest_root(self, path: PathModel, i: int) -> bool {
        &&& 0 <= i < self.write_roots.len()
        &&& path.is_within(self.write_roots[i])
        &&& forall|j: int|
            0 <= j < self.write_roots.len() && path.is_within(#[trigger] self.write_roots[j])
                ==> if j > i {
                self.write_roots[j].component_count() < self.write_roots[i].component_count()
            } else {
                self.write_roots[j].component_count() <= self.write_roots[i].component_count()
            }
    }

    /// The entries of a readable root.
    pub open spec fn read_entries(self) -> Seq<AclEntryModel> {
        seq![
            acl_entries::allowing(self.group, READ_ALLOW_MASK),
            acl_entries::allowing(self.authorities.read_base, READ_ALLOW_MASK),
        ]
    }

    /// The entries of a writable root.
    pub open spec fn write_entries(self, writer: Seq<char>) -> Seq<AclEntryModel> {
        seq![
            acl_entries::allowing(self.group, WRITE_ALLOW_MASK),
            acl_entries::allowing(self.authorities.read_base, READ_ALLOW_MASK),
            acl_entries::allowing(writer, WRITE_ALLOW_MASK),
        ]
    }

    /// The state with a writable object.
    pub open spec fn with_writable(
        self,
        state: BuilderModel,
        path: PathModel,
        root: PathModel,
    ) -> Result<BuilderModel, AclErrorModel> {
        if self.authorities.writers.dom().contains(root.key()) {
            Ok(
                BuilderModel {
                    foundation: with_request(
                        state.foundation,
                        path,
                        self.write_entries(self.authorities.writers[root.key()]),
                        true,
                        seq![self.authorities.guard],
                        Seq::empty(),
                    ),
                    ..state
                },
            )
        } else {
            Err(AclErrorModel::MissingWriteAuthority { path: root })
        }
    }

    /// The state with an object that is guarded by denying rights.
    pub open spec fn with_deny(self, state: BuilderModel, path: PathModel, mask: u32) -> BuilderModel {
        BuilderModel {
            denies: with_request(
                state.denies,
                path,
                seq![acl_entries::denying(self.authorities.guard, mask)],
                true,
                self.writers_above_from(path, 0),
                self.roots_within_from(path, 0),
            ),
            ..state
        }
    }

    /// The state with a target of the plan.
    pub open spec fn with_target(self, state: BuilderModel, target: PlannedModel) -> Result<
        BuilderModel,
        AclErrorModel,
    > {
        match target.access {
            FilesystemPlanAccess::ReadRoot => Ok(
                BuilderModel {
                    foundation: with_request(
                        state.foundation,
                        target.path,
                        self.read_entries(),
                        true,
                        self.writers_above_from(target.path, 0),
                        Seq::empty(),
                    ),
                    ..state
                },
            ),
            FilesystemPlanAccess::WriteRoot => self.with_writable(state, target.path, target.path),
            FilesystemPlanAccess::ReadOnly => Ok(
                self.with_deny(state, target.path, WRITE_DENY_MASK),
            ),
            FilesystemPlanAccess::Deny => Ok(self.with_deny(state, target.path, FILE_ALL_ACCESS)),
        }
    }

    /// The state with targets, from the `i`th on.
    pub open spec fn with_targets_from(
        self,
        state: BuilderModel,
        targets: Seq<PlannedModel>,
        i: int,
    ) -> Result<BuilderModel, AclErrorModel>
        decreases targets.len() - i,
    {
        if i < 0 || i >= targets.len() {
            Ok(state)
        } else {
            match self.with_target(state, targets[i]) {
                Ok(next) => self.with_targets_from(next, targets, i + 1),
                Err(error) => Err(error),
            }
        }
    }

    /// The state with a missing target of the plan.
    pub open spec fn with_missing(self, state: BuilderModel, target: MissingModel) -> BuilderModel {
        match target.kind {
            MissingFilesystemTargetKind::SkippedScope => state,
            MissingFilesystemTargetKind::ReadOnly => self.with_deny(
                state,
                target.path,
                WRITE_DENY_MASK,
            ),
            MissingFilesystemTargetKind::Protected => self.with_deny(
                state,
                target.path,
                FILE_ALL_ACCESS,
            ),
        }
    }

    /// The state with missing targets, from the `i`th on.
    pub open spec fn with_missing_from(
        self,
        state: BuilderModel,
        missing: Seq<MissingModel>,
        i: int,
    ) -> BuilderModel
        decreases missing.len() - i,
    {
        if i < 0 || i >= missing.len() {
            state
        } else {
            self.with_missing_from(self.with_missing(state, missing[i]), missing, i + 1)
        }
    }

    /// The state with everything that a plan asks for.
    pub open spec fn with_plan(
        self,
        state: BuilderModel,
        targets: Seq<PlannedModel>,
        missing: Seq<MissingModel>,
    ) -> Result<BuilderModel, AclErrorModel> {
        match self.with_targets_from(state, targets, 0) {
            Ok(next) => Ok(self.with_missing_from(next, missing, 0)),
            Err(error) => Err(error),
        }
    }

    /// The state with a created directory: it is writable as the deepest
    /// root is that it lies below.
    pub open spec fn with_directory(self, state: BuilderModel, directory: PathModel) -> Result<
        BuilderModel,
        AclErrorModel,
    > {
        if exists|i: int| self.is_deepest_root(directory, i) {
            let i = choose|i: int| self.is_deepest_root(directory, i);
            self.with_writable(state, directory, self.write_roots[i])
        } else {
            Err(
                AclErrorModel::MaterializationOutsideAnchor {
                    path: directory,
                    anchor: self.anchor,
                },
            )
        }
    }

    /// The state with created directories, from the `i`th on.
    pub open spec fn with_directories_from(
        self,
        state: BuilderModel,
        directories: Seq<PathModel>,
        i: int,
    ) -> Result<BuilderModel, AclErrorModel>
        decreases directories.len() - i,
    {
        if i < 0 || i >= directories.len() {
            Ok(state)
        } else {
            match self.with_directory(state, directories[i]) {
                Ok(next) => self.with_directories_from(next, directories, i + 1),
                Err(error) => Err(error),
            }
        }
    }
}

/// The operations that a list holds.
pub open spec fn operation_models(operations: Seq<PendingAclOperation>) -> Seq<OperationModel> {
    operations.map_values(|operation: PendingAclOperation| operation@)
}

/// Whether a list of operations is in order, each of them well formed.
pub open spec fn operations_wf(list: Keyed<PendingAclOperation>) -> bool {
    &&& list.wf()
    &&& list.keys() == operation_keys(operation_models(list.items()))
    &&& forall|i: int| 0 <= i < list.items().len() ==> (#[trigger] list.items()[i]).wf()
}

/// Takes a request for an object into a list of operations.
pub fn merge_pending(
    operations: &mut Keyed<PendingAclOperation>,
    path: &NativePath,
    entries: &Vec<AclEntry>,
    protect_dacl: bool,
    remove_sids: &Vec<String>,
    excluded_roots: &Vec<NativePath>,
)
    requires
        operations_wf(*old(operations)),
    ensures
        operations_wf(*final(operations)),
        operation_models(final(operations).items()) == with_request(
            operation_models(old(operations).items()),
            path@,
            acl_entries::entry_models(entries@),
            protect_dacl,
            text::texts(remove_sids@),
            native_path::models(excluded_roots@),
        ),
{
    let ghost before = operation_models(operations.items());
    let ghost keys = operations.keys();
    let key = path.key();
    let (i, present) = operations.locate(&key);
    proof {
        ordering::slot_divides(keys, key@);
    }
    let ghost expected = with_request(
        before,
        path@,
        acl_entries::entry_models(entries@),
        protect_dacl,
        text::texts(remove_sids@),
        native_path::models(excluded_roots@),
    );
    if present {
        let ghost items = operations.items();
        let operation = operations.get_mut(i);
        operation.merge(entries, protect_dacl, remove_sids, excluded_roots);
        proof {
            assert(operation_models(operations.items()) =~= expected);
            assert(operation_keys(expected) =~= keys);
            assert forall|j: int| 0 <= j < operations.items().len() implies (
            #[trigger] operations.items()[j]).wf() by {
                if j != i {
                    assert(operations.items()[j] == items[j]);
                }
            }
        }
    } else {
        let mut operation = PendingAclOperation::new(path.clone());
        operation.merge(entries, protect_dacl, remove_sids, excluded_roots);
        let ghost items = operations.items();
        operations.insert(i, key, operation);
        proof {
            assert(operation_models(operations.items()) =~= expected);
            assert(operation_keys(expected) =~= keys.insert(i as int, key@));
            assert forall|j: int| 0 <= j < operations.items().len() implies (
            #[trigger] operations.items()[j]).wf() by {
                if j < i {
                    assert(operations.items()[j] == items[j]);
                } else if j > i {
                    assert(operations.items()[j] == items[j - 1]);
                }
            }
        }
    }
}

/// Gathers what the objects of a plan get.
pub struct AclPlanBuilder<'a> {
    authorities: &'a FilesystemAuthorities,
    group_sid: String,
    write_roots: Vec<NativePath>,
    anchor: NativePath,
    foundation: Keyed<PendingAclOperation>,
    continuation: Keyed<PendingAclOperation>,
    denies: Keyed<PendingAclOperation>,
}

impl<'a> View for AclPlanBuilder<'a> {
    type V = BuilderModel;

    closed spec fn view(&self) -> BuilderModel {
        BuilderModel {
            foundation: operation_models(self.foundation.items()),
            continuation: operation_models(self.continuation.items()),
            denies: operation_models(self.denies.items()),
        }
    }
}

impl<'a> AclPlanBuilder<'a> {
    /// What the builder starts from.
    pub closed spec fn context(&self) -> AclContext {
        AclContext {
            group: self.group_sid@,
            authorities: self.authorities@,
            write_roots: native_path::models(self.write_roots@),
            anchor: self.anchor@,
        }
    }

    /// Whether everything gathered is in order.
    pub closed spec fn wf(&self) -> bool {
        &&& self.authorities.wf()
        &&& operations_wf(self.foundation)
        &&& operations_wf(self.continuation)
        &&& operations_wf(self.denies)
    }

    /// A builder for a plan that has gathered nothing.
    pub fn new(
        plan: &FilesystemPlan,
        authorities: &'a FilesystemAuthorities,
        group_sid: &str,
    ) -> (builder: AclPlanBuilder<'a>)
        requires
            authorities.wf(),
        ensures
            builder.wf(),
            builder.context() == (AclContext {
                group: group_sid@,
                authorities: authorities@,
                write_roots: filesystem_plan::write_root_paths(plan@.targets),
                anchor: plan@.anchor,
            }),
            builder@ == (BuilderModel {
                foundation: Seq::empty(),
                continuation: Seq::empty(),
                denies: Seq::empty(),
            }),
    {
        let builder = AclPlanBuilder {
            authorities,
            group_sid: group_sid.to_owned(),
            write_roots: filesystem_plan::write_roots(plan.targets()),
            anchor: plan.profile_anchor().clone(),
            foundation: Keyed::new(),
            continuation: Keyed::new(),
            denies: Keyed::new(),
        };
        proof {
            assert(builder@.foundation =~= Seq::empty());
            assert(builder@.continuation =~= Seq::empty());
            assert(builder@.denies =~= Seq::empty());
            assert(operation_keys(builder@.foundation) =~= Seq::empty());
            assert(operation_keys(builder@.continuation) =~= Seq::empty());
            assert(operation_keys(builder@.denies) =~= Seq::empty());
        }
        builder
    }

    /// Who may write below the roots that a path lies strictly below.
    pub fn inherited_write_sids(&self, path: &NativePath) -> (sids: Vec<String>)
        requires
            self.wf(),
        ensures
            text::texts(sids@) == self.context().writers_above_from(path@, 0),
    {
        let ghost context = self.context();
        let mut sids: Vec<String> = Vec::new();
        assert(text::texts(sids@) + context.writers_above_from(path@, 0)
            =~= context.writers_above_from(path@, 0));
        for i in 0..self.write_roots.len()
            invariant
                self.wf(),
                context == self.context(),
                text::texts(sids@) + context.writers_above_from(path@, i as int)
                    == context.writers_above_from(path@, 0),
        {
            let root = &self.write_roots[i];
            assert(context.write_roots[i as int] == root@);
            let ghost held = text::texts(sids@);
            let ghost rest = context.writers_above_from(path@, i + 1);
            if !path.same_path(root) && path.is_within(root) {
                match self.authorities.write_sid(root) {
                    Some(sid) => {
                        sids.push(sid.clone());
                        assert(text::texts(sids@) =~= held.push(sid@));
                        assert(held + (seq![sid@] + rest) =~= text::texts(sids@) + rest);
                    },
                    None => {},
                }
            }
        }
        assert(text::texts(sids@) + Seq::<Seq<char>>::empty() =~= text::texts(sids@));
        sids
    }

    /// The writable roots that lie within a path.
    fn roots_within(&self, path: &NativePath) -> (roots: Vec<NativePath>)
        ensures
            native_path::models(roots@) == self.context().roots_within_from(path@, 0),
    {
        let ghost context = self.context();
        let mut roots: Vec<NativePath> = Vec::new();
        assert(native_path::models(roots@) + context.roots_within_from(path@, 0)
            =~= context.roots_within_from(path@, 0));
        for i in 0..self.write_roots.len()
            invariant
                context == self.context(),
                native_path::models(roots@) + context.roots_within_from(path@, i as int)
                    == context.roots_within_from(path@, 0),
        {
            let root = &self.write_roots[i];
            assert(context.write_roots[i as int] == root@);
            let ghost held = native_path::models(roots@);
            let ghost rest = context.roots_within_from(path@, i + 1);
            if root.is_within(path) {
                roots.push(root.clone());
                assert(native_path::models(roots@) =~= held.push(root@));
                assert(held + (seq![root@] + rest) =~= native_path::models(roots@) + rest);
            }
        }
        assert(native_path::models(roots@) + Seq::<PathModel>::empty() =~= native_path::models(
            roots@,
        ));
        roots
    }

    /// Guards an object by denying rights.
    fn insert_deny(&mut self, path: &NativePath, mask: u32)
        requires
            old(self).wf(),
        ensures
            final(self).wf(),
            final(self).context() == old(self).context(),
            final(self)@ == old(self).context().with_deny(old(self)@, path@, mask),
    {
        let ghost context = self.context();
        let sids = self.inherited_write_sids(path);
        let roots = self.roots_within(path);
        let mut entries: Vec<AclEntry> = Vec::new();
        entries.push(AclEntry::deny(self.authorities.profile_guard_sid(), mask));
        assert(acl_entries::entry_models(entries@) =~= seq![
            acl_entries::denying(context.authorities.guard, mask),
        ]);
        merge_pending(&mut self.denies, path, &entries, true, &sids, &roots);
    }

    /// Makes an object writable as a root is.
    fn insert_writable(&mut self, path: &NativePath, root: &NativePath) -> (result: Result<
        (),
        AclError,
    >)
        requires
            old(self).wf(),
        ensures
            final(self).wf(),
            final(self).context() == old(self).context(),
            match result {
                Ok(()) => old(self).context().with_writable(old(self)@, path@, root@) == Ok::<
                    BuilderModel,
                    AclErrorModel,
                >(final(self)@),
                Err(error) => old(self).context().with_writable(old(self)@, path@, root@) == Err::<
                    BuilderModel,
                    AclErrorModel,
                >(error@),
            },
    {
        let ghost context = self.context();
        let mut entries: Vec<AclEntry> = Vec::new();
        let mut sids: Vec<String> = Vec::new();
        match self.authorities.write_sid(root) {
            Some(sid) => {
                entries.push(AclEntry::allow(self.group_sid.as_str(), WRITE_ALLOW_MASK));
                entries.push(
                    AclEntry::allow(self.authorities.read_base_sid(), READ_ALLOW_MASK),
                );
                entries.push(AclEntry::allow(sid.as_str(), WRITE_ALLOW_MASK));
                assert(acl_entries::entry_models(entries@) =~= context.write_entries(sid@));
                sids.push(self.authorities.profile_guard_sid().to_owned());
                assert(text::texts(sids@) =~= seq![context.authorities.guard]);
            },
            None => {
                return Err(FilesystemAclError::MissingWriteAuthority { path: root.clone() });
            },
        }
        let roots: Vec<NativePath> = Vec::new();
        assert(native_path::models(roots@) =~= Seq::<PathModel>::empty());
        merge_pending(&mut self.foundation, path, &entries, true, &sids, &roots);
        Ok(())
    }

    /// Makes an object readable.
    fn insert_readable(&mut self, path: &NativePath)
        requires
            old(self).wf(),
        ensures
            final(self).wf(),
            final(self).context() == old(self).context(),
            final(self)@ == (BuilderModel {
                foundation: with_request(
                    old(self)@.foundation,
                    path@,
                    old(self).context().read_entries(),
                    true,
                    old(self).context().writers_above_from(path@, 0),
                    Seq::empty(),
                ),
                ..old(self)@
            }),
    {
        let ghost context = self.context();
        let sids = self.inherited_write_sids(path);
        let mut entries: Vec<AclEntry> = Vec::new();
        entries.push(AclEntry::allow(self.group_sid.as_str(), READ_ALLOW_MASK));
        entries.push(AclEntry::allow(self.authorities.read_base_sid(), READ_ALLOW_MASK));
        assert(acl_entries::entry_models(entries@) =~= context.read_entries());
        let roots: Vec<NativePath> = Vec::new();
        assert(native_path::models(roots@) =~= Seq::<PathModel>::empty());
        merge_pending(&mut self.foundation, path, &entries, true, &sids, &roots);
    }

    /// Gathers what the targets of a plan get.
    pub fn collect(&mut self, plan: &FilesystemPlan) -> (result: Result<(), AclError>)
        requires
            old(self).wf(),
        ensures
            final(self).wf(),
            final(self).context() == old(self).context(),
            match result {
                Ok(()) => old(self).context().with_plan(
                    old(self)@,
                    plan@.targets,
                    plan@.missing,
                ) == Ok::<BuilderModel, AclErrorModel>(final(self)@),
                Err(error) => old(self).context().with_plan(
                    old(self)@,
                    plan@.targets,
                    plan@.missing,
                ) == Err::<BuilderModel, AclErrorModel>(error@),
            },
    {
        let ghost context = self.context();
        let targets = plan.targets();
        let ghost planned = plan@.targets;
        let ghost expected = context.with_targets_from(self@, planned, 0);
        for i in 0..targets.len()
            invariant
                self.wf(),
                self.context() == context,
                context == old(self).context(),
                planned == plan@.targets,
                planned == filesystem_plan::planned_models(targets@),
                expected == context.with_targets_from(old(self)@, planned, 0),
                context.with_targets_from(self@, planned, i as int) == expected,
        {
            let target = &targets[i];
            assert(planned[i as int] == targets@[i as int]@);
            match target.access() {
                FilesystemPlanAccess::ReadRoot => {
                    self.insert_readable(target.path());
                },
                FilesystemPlanAccess::WriteRoot => match self.insert_writable(
                    target.path(),
                    target.path(),
                ) {
                    Ok(()) => {},
                    Err(error) => {
                        return Err(error);
                    },
                },
                FilesystemPlanAccess::ReadOnly => {
                    self.insert_deny(target.path(), WRITE_DENY_MASK);
                },
                FilesystemPlanAccess::Deny => {
                    self.insert_deny(target.path(), FILE_ALL_ACCESS);
                },
            }
        }
        assert(context.with_targets_from(self@, planned, planned.len() as int) == Ok::<
            BuilderModel,
            AclErrorModel,
        >(self@));
        let missing = plan.missing_targets();
        let ghost absent = plan@.missing;
        let ghost last = context.with_missing_from(self@, absent, 0);
        for i in 0..missing.len()
            invariant
                self.wf(),
                self.context() == context,
                absent == filesystem_plan::missing_models(missing@),
                context.with_missing_from(self@, absent, i as int) == last,
        {
            let target = &missing[i];
            assert(absent[i as int] == missing@[i as int]@);
            match target.kind() {
                MissingFilesystemTargetKind::SkippedScope => {},
                MissingFilesystemTargetKind::ReadOnly => {
                    self.insert_deny(target.path(), WRITE_DENY_MASK);
                },
                MissingFilesystemTargetKind::Protected => {
                    self.insert_deny(target.path(), FILE_ALL_ACCESS);
                },
            }
        }
        Ok(())
    }

    /// The last of the deepest roots that hold a path.
    fn deepest_root(&self, path: &NativePath) -> (found: Option<usize>)
        ensures
            match found {
                Some(i) => self.context().is_deepest_root(path@, i as int),
                None => forall|i: int| !self.context().is_deepest_root(path@, i),
            },
    {
        let ghost roots = self.context().write_roots;
        let mut found: Option<usize> = None;
        let mut depth: u128 = 0;
        for i in 0..self.write_roots.len()
            invariant
                roots == self.context().write_roots,
                match found {
                    Some(k) => {
                        &&& k < i
                        &&& path@.is_within(roots[k as int])
                        &&& depth == roots[k as int].component_count()
                        &&& forall|j: int|
                            0 <= j < i && path@.is_within(#[trigger] roots[j]) ==> if j > k {
                                roots[j].component_count() < depth
                            } else {
                                roots[j].component_count() <= depth
                            }
                    },
                    None => forall|j: int| 0 <= j < i ==> !path@.is_within(#[trigger] roots[j]),
                },
        {
            assert(roots[i as int] == self.write_roots@[i as int]@);
            if path.is_within(&self.write_roots[i]) {
                let count = self.write_roots[i].component_count();
                match found {
                    None => {
                        found = Some(i);
                        depth = count;
                    },
                    Some(_) => {
                        if count >= depth {
                            found = Some(i);
                            depth = count;
                        }
                    },
                }
            }
        }
        found
    }

    /// Makes created directories writable as the deepest roots are that they
    /// lie below.
    pub fn collect_materialized_foundations(&mut self, directories: &Vec<NativePath>) -> (result:
        Result<(), AclError>)
        requires
            old(self).wf(),
        ensures
            final(self).wf(),
            final(self).context() == old(self).context(),
            match result {
                Ok(()) => old(self).context().with_directories_from(
                    old(self)@,
                    native_path::models(directories@),
                    0,
                ) == Ok::<BuilderModel, AclErrorModel>(final(self)@),
                Err(error) => old(self).context().with_directories_from(
                    old(self)@,
                    native_path::models(directories@),
                    0,
                ) == Err::<BuilderModel, AclErrorModel>(error@),
            },
    {
        let ghost context = self.context();
        let ghost paths = native_path::models(directories@);
        let ghost expected = context.with_directories_from(self@, paths, 0);
        for i in 0..directories.len()
            invariant
                self.wf(),
                self.context() == context,
                context == old(self).context(),
                paths == native_path::models(directories@),
                expected == context.with_directories_from(old(self)@, paths, 0),
                context.with_directories_from(self@, paths, i as int) == expected,
        {
            let directory = &directories[i];
            assert(paths[i as int] == directory@);
            match self.deepest_root(directory) {
                None => {
                    return Err(
                        FilesystemAclError::MaterializationOutsideAnchor {
                            path: directory.clone(),
                            anchor: self.anchor.clone(),
                        },
                    );
                },
                Some(k) => {
                    proof {
                        let chosen = choose|j: int| context.is_deepest_root(directory@, j);
                        assert(context.is_deepest_root(directory@, k as int));
                        deepest_root_is_unique(context, directory@, k as int, chosen);
                        assert(context.write_roots[k as int] == self.write_roots@[k as int]@);
                    }
                    let root = self.write_roots[k].clone();
                    match self.insert_writable(directory, &root) {
                        Ok(()) => {},
                        Err(error) => {
                            return Err(error);
                        },
                    }
                },
            }
        }
        Ok(())
    }
}

impl<'a> AclPlanBuilder<'a> {
    /// What roots, what lies below them, and guarded paths get.
    pub(crate) fn lists(&self) -> (lists: (
        &Keyed<PendingAclOperation>,
        &Keyed<PendingAclOperation>,
        &Keyed<PendingAclOperation>,
    ))
        ensures
            operation_models(lists.0.items()) == self@.foundation,
            operation_models(lists.1.items()) == self@.continuation,
            operation_models(lists.2.items()) == self@.denies,
    {
        (&self.foundation, &self.continuation, &self.denies)
    }

    /// Gathers what one object below a root gets.
    pub(crate) fn continue_with(
        &mut self,
        path: &NativePath,
        entries: &Vec<AclEntry>,
        remove_sids: &Vec<String>,
        excluded_roots: &Vec<NativePath>,
    )
        requires
            old(self).wf(),
        ensures
            final(self).wf(),
            final(self).context() == old(self).context(),
            final(self)@ == (BuilderModel {
                continuation: with_request(
                    old(self)@.continuation,
                    path@,
                    acl_entries::entry_models(entries@),
                    false,
                    text::texts(remove_sids@),
                    native_path::models(excluded_roots@),
                ),
                ..old(self)@
            }),
    {
        merge_pending(
            &mut self.continuation,
            path,
            entries,
            false,
            remove_sids,
            excluded_roots,
        );
    }
}

/// There is one last deepest root.
proof fn deepest_root_is_unique(context: AclContext, path: PathModel, i: int, j: int)
    requires
        context.is_deepest_root(path, i),
        context.is_deepest_root(path, j),
    ensures
        i == j,
{
    assert(path.is_within(context.write_roots[i]));
    assert(path.is_within(context.write_roots[j]));
}

/// Some root is the deepest that holds a path, and only one, wherever any root does;
/// no root that holds the path has more components.
pub proof fn one_root_is_the_deepest(context: AclContext, path: PathModel, i: int, j: int)
    ensures
        context.is_deepest_root(path, i) && context.is_deepest_root(path, j) ==> i == j,
        0 <= j < context.write_roots.len() && path.is_within(context.write_roots[j]) ==> exists|
            k: int,
        |
            context.is_deepest_root(path, k),
        context.is_deepest_root(path, i) && 0 <= j < context.write_roots.len() && path.is_within(
            context.write_roots[j],
        ) ==> context.write_roots[j].component_count()
            <= context.write_roots[i].component_count(),
{
    let roots = context.write_roots;
    if 0 <= j < roots.len() && path.is_within(roots[j]) {
        let k = deepest_of_the_first(context, path, roots.len() as int, j);
        assert(context.is_deepest_root(path, k));
    }
}

/// The deepest of the first roots that hold a path.
proof fn deepest_of_the_first(context: AclContext, path: PathModel, n: int, j: int) -> (k: int)
    requires
        0 <= j < n <= context.write_roots.len(),
        path.is_within(context.write_roots[j]),
    ensures
        0 <= k < n,
        path.is_within(context.write_roots[k]),
        forall|l: int|
            0 <= l < n && path.is_within(#[trigger] context.write_roots[l]) ==> if l > k {
                context.write_roots[l].component_count() < context.write_roots[k].component_count()
            } else {
                context.write_roots[l].component_count() <= context.write_roots[k].component_count()
            },
    decreases n,
{
    let roots = context.write_roots;
    let last = n - 1;
    if exists|l: int| 0 <= l < last && path.is_within(#[trigger] roots[l]) {
        let l = choose|l: int| 0 <= l < last && path.is_within(#[trigger] roots[l]);
        let k = deepest_of_the_first(context, path, last, l);
        if path.is_within(roots[last]) && roots[last].component_count()
            >= roots[k].component_count() {
            last
        } else {
            k
        }
    } else {
        last
    }
}

} // verus!
