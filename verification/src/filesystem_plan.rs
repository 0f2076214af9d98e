//! The filesystem plan: which paths a profile reads, writes and denies, and
//! what is missing, before any access-control list is touched.

use vstd::prelude::*;

use crate::filesystem_path::ValidatedPathError;
use crate::native_path;
use crate::native_path::{NativePath, PathModel};
use crate::ordering;
use crate::profile_digest;
use crate::profile_digest::RecordModel;

verus! {

/// What the effective policy says of a path.
#[derive(Clone, Copy, Debug, PartialEq, Eq, Structural)]
pub enum FilesystemDecision {
    /// It may be read.
    Read,
    /// It may be read and written.
    Write,
    /// It may not be touched.
    Deny,
    /// Another component enforces it.
    ExternallyEnforced,
    /// The policy could not decide.
    Undecided {
        /// The number under which whoever asked keeps the policy's failure.
        failure: u64,
    },
}

/// What to do about a path that does not exist.
#[derive(Clone, Copy, Debug, PartialEq, Eq, Structural)]
pub enum MissingPathBehavior {
    /// Leave it out.
    Skip,
    /// Fail.
    Error,
}

/// Where a target comes from.
#[derive(Clone, Copy, Debug, PartialEq, Eq, Structural)]
pub struct TargetOrigins {
    /// A scope of the policy.
    pub scope: bool,
    /// A read-only path below a writable one.
    pub read_only: bool,
    /// A match of a deny pattern.
    pub glob: bool,
    /// A path that is protected below every writable one.
    pub protected: bool,
}

/// Why a target may be missing.
#[derive(Clone, Copy, Debug, PartialEq, Eq, Structural)]
pub enum MissingFilesystemTargetKind {
    /// A scope that may be left out.
    SkippedScope,
    /// A read-only path below a writable one.
    ReadOnly,
    /// A protected path below a writable one.
    Protected,
}

/// How a target is enforced.
#[derive(Clone, Copy, Debug, PartialEq, Eq, Structural)]
pub enum FilesystemPlanAccess {
    /// Readable, below no writable target.
    ReadRoot,
    /// Writable.
    WriteRoot,
    /// Readable, below a writable target.
    ReadOnly,
    /// Denied.
    Deny,
}

/// Why there is no plan, with paths of type `P`.
#[derive(Debug)]
pub enum FilesystemPlanError<P> {
    /// The policy could not be asked, or could not decide.
    BackendContract {
        /// The number under which whoever asked keeps the policy's failure.
        failure: u64,
    },
    /// Another component claims the filesystem.
    ExternalOwnership,
    /// No root or platform scope is readable.
    MissingReadablePlatformBase,
    /// The policy names the Unix directory for temporary files.
    SlashTmpScope,
    /// A required path does not exist.
    RequiredPathMissing {
        /// The missing path.
        path: P,
    },
    /// A path could not be inspected.
    Metadata {
        /// The path.
        path: P,
        /// The system's error number.
        code: i32,
    },
    /// A directory could not be searched for a deny pattern.
    GlobScan {
        /// The directory.
        path: P,
        /// The system's error number.
        code: i32,
    },
    /// The search for a deny pattern met an object that stands for another.
    GlobReparsePoint {
        /// The object.
        path: P,
    },
    /// An unbounded search would visit a complete volume.
    UnboundedRootGlob,
    /// A read-only path lies outside its writable root.
    ReadOnlyOutsideWriteRoot {
        /// The read-only path.
        path: P,
        /// The writable root.
        root: P,
    },
    /// The policy lets a read-only path be written.
    ReadOnlyPolicyMismatch {
        /// The read-only path.
        path: P,
    },
    /// The policy lets a protected path be written.
    ProtectedPathWritable {
        /// The protected path.
        path: P,
    },
    /// The policy does not deny a match of a deny pattern.
    GlobPolicyMismatch {
        /// The match.
        path: P,
    },
    /// Another component enforces a path.
    ExternalPath {
        /// The path.
        path: P,
    },
    /// No existing directory above a missing path was found.
    MissingTargetWithoutAnchor {
        /// The missing path.
        path: P,
    },
    /// A path cannot be enforced.
    InvalidPath(ValidatedPathError<P>),
}

impl View for FilesystemPlanError<NativePath> {
    type V = FilesystemPlanError<PathModel>;

    open spec fn view(&self) -> FilesystemPlanError<PathModel> {
        match *self {
            FilesystemPlanError::BackendContract { failure } =>
            FilesystemPlanError::BackendContract { failure },
            FilesystemPlanError::ExternalOwnership => FilesystemPlanError::ExternalOwnership,
            FilesystemPlanError::MissingReadablePlatformBase =>
            FilesystemPlanError::MissingReadablePlatformBase,
            FilesystemPlanError::SlashTmpScope => FilesystemPlanError::SlashTmpScope,
            FilesystemPlanError::RequiredPathMissing { path } =>
            FilesystemPlanError::RequiredPathMissing { path: path@ },
            FilesystemPlanError::Metadata { path, code } => FilesystemPlanError::Metadata {
                path: path@,
                code,
            },
            FilesystemPlanError::GlobScan { path, code } => FilesystemPlanError::GlobScan {
                path: path@,
                code,
            },
            FilesystemPlanError::GlobReparsePoint { path } =>
            FilesystemPlanError::GlobReparsePoint { path: path@ },
            FilesystemPlanError::UnboundedRootGlob => FilesystemPlanError::UnboundedRootGlob,
            FilesystemPlanError::ReadOnlyOutsideWriteRoot { path, root } =>
            FilesystemPlanError::ReadOnlyOutsideWriteRoot { path: path@, root: root@ },
            FilesystemPlanError::ReadOnlyPolicyMismatch { path } =>
            FilesystemPlanError::ReadOnlyPolicyMismatch { path: path@ },
            FilesystemPlanError::ProtectedPathWritable { path } =>
            FilesystemPlanError::ProtectedPathWritable { path: path@ },
            FilesystemPlanError::GlobPolicyMismatch { path } =>
            FilesystemPlanError::GlobPolicyMismatch { path: path@ },
            FilesystemPlanError::ExternalPath { path } => FilesystemPlanError::ExternalPath {
                path: path@,
            },
            FilesystemPlanError::MissingTargetWithoutAnchor { path } =>
            FilesystemPlanError::MissingTargetWithoutAnchor { path: path@ },
            FilesystemPlanError::InvalidPath(error) => FilesystemPlanError::InvalidPath(error@),
        }
    }
}

impl Clone for FilesystemPlanError<NativePath> {
    fn clone(&self) -> (copy: Self)
        ensures
            copy@ == self@,
    {
        match self {
            FilesystemPlanError::BackendContract { failure } =>
            FilesystemPlanError::BackendContract { failure: *failure },
            FilesystemPlanError::ExternalOwnership => FilesystemPlanError::ExternalOwnership,
            FilesystemPlanError::MissingReadablePlatformBase =>
            FilesystemPlanError::MissingReadablePlatformBase,
            FilesystemPlanError::SlashTmpScope => FilesystemPlanError::SlashTmpScope,
            FilesystemPlanError::RequiredPathMissing { path } =>
            FilesystemPlanError::RequiredPathMissing { path: path.clone() },
            FilesystemPlanError::Metadata { path, code } => FilesystemPlanError::Metadata {
                path: path.clone(),
                code: *code,
            },
            FilesystemPlanError::GlobScan { path, code } => FilesystemPlanError::GlobScan {
                path: path.clone(),
                code: *code,
            },
            FilesystemPlanError::GlobReparsePoint { path } =>
            FilesystemPlanError::GlobReparsePoint { path: path.clone() },
            FilesystemPlanError::UnboundedRootGlob => FilesystemPlanError::UnboundedRootGlob,
            FilesystemPlanError::ReadOnlyOutsideWriteRoot { path, root } =>
            FilesystemPlanError::ReadOnlyOutsideWriteRoot {
                path: path.clone(),
                root: root.clone(),
            },
            FilesystemPlanError::ReadOnlyPolicyMismatch { path } =>
            FilesystemPlanError::ReadOnlyPolicyMismatch { path: path.clone() },
            FilesystemPlanError::ProtectedPathWritable { path } =>
            FilesystemPlanError::ProtectedPathWritable { path: path.clone() },
            FilesystemPlanError::GlobPolicyMismatch { path } =>
            FilesystemPlanError::GlobPolicyMismatch { path: path.clone() },
            FilesystemPlanError::ExternalPath { path } => FilesystemPlanError::ExternalPath {
                path: path.clone(),
            },
            FilesystemPlanError::MissingTargetWithoutAnchor { path } =>
            FilesystemPlanError::MissingTargetWithoutAnchor { path: path.clone() },
            FilesystemPlanError::InvalidPath(error) => FilesystemPlanError::InvalidPath(
                error.clone(),
            ),
        }
    }
}

/// Whether something exists at a path.
#[derive(Clone, Copy, Debug, PartialEq, Eq, Structural)]
pub enum PathPresence {
    /// Something exists.
    Present,
    /// Nothing exists.
    Missing,
    /// The system could not say.
    Failed {
        /// The system's error number.
        code: i32,
    },
}

/// Where the object at a path was opened, or why it was not.
pub type Opened = Result<NativePath, ValidatedPathError<NativePath>>;

/// What the system says of a path.
#[derive(Debug)]
pub struct PathObservation {
    /// Whether something exists there.
    pub presence: PathPresence,
    /// Where it was opened; read only where something exists.
    pub opened: Opened,
}

/// A read-only path below a writable scope, as the system shows it.
#[derive(Debug)]
pub struct ReadOnlyObservation {
    /// The path.
    pub path: NativePath,
    /// What is there.
    pub observed: PathObservation,
    /// What is at its parent, at the parent of that, and so on.
    pub ancestors: Vec<PathObservation>,
}

/// A path that a scope stands for, as policy and system show it.
#[derive(Debug)]
pub struct ScopeObservation {
    /// The path.
    pub path: NativePath,
    /// What the policy says of it.
    pub decision: FilesystemDecision,
    /// What is there.
    pub observed: PathObservation,
    /// The read-only paths that the rule names below it.
    pub read_only: Vec<ReadOnlyObservation>,
}

/// A match of a deny pattern.
#[derive(Debug)]
pub struct GlobMatch {
    /// The path.
    pub path: NativePath,
    /// What the policy says of it.
    pub decision: FilesystemDecision,
    /// Where it was opened, or why it was not.
    pub opened: Opened,
}

/// A directory searched for a deny pattern.
#[derive(Debug)]
pub struct GlobObservation {
    /// The directory.
    pub root: NativePath,
    /// The matches below it, or why the search failed; read only where the
    /// search is allowed.
    pub matches: Result<Vec<GlobMatch>, FilesystemPlanError<NativePath>>,
}

/// A rule of a policy layer, with what policy and system say of its paths.
#[derive(Debug)]
pub enum RuleObservation {
    /// A scope.
    Scope {
        /// Whether it is the Unix directory for temporary files.
        slash_tmp: bool,
        /// Whether it is a root or the platform's minimum.
        platform_base: bool,
        /// What to do where a path does not exist.
        missing: MissingPathBehavior,
        /// The paths that it stands for.
        resolved: Vec<ScopeObservation>,
    },
    /// A pattern of denied paths.
    Glob {
        /// The pattern.
        pattern: Vec<u16>,
        /// The directories that it is searched in.
        roots: Vec<GlobObservation>,
    },
}

/// A layer of the effective policy.
#[derive(Debug)]
pub struct LayerObservation {
    /// Whether another component claims the filesystem.
    pub external: bool,
    /// The paths that are protected below every writable one.
    pub protected_relative_paths: Vec<NativePath>,
    /// The rules.
    pub rules: Vec<RuleObservation>,
}

/// A protected path below a writable root, as policy and system show it.
#[derive(Debug)]
pub struct ProtectedObservation {
    /// The writable root.
    pub root: NativePath,
    /// The path.
    pub path: NativePath,
    /// What the policy says of it.
    pub decision: FilesystemDecision,
    /// What is there.
    pub observed: PathObservation,
    /// What is at its parent, at the parent of that, and so on.
    pub ancestors: Vec<PathObservation>,
}

/// A target of a plan under construction.
#[verifier::ext_equal]
pub struct TargetModel {
    /// The path.
    pub path: PathModel,
    /// Where it comes from.
    pub origins: TargetOrigins,
}

/// A missing target.
#[verifier::ext_equal]
pub struct MissingModel {
    /// The path.
    pub path: PathModel,
    /// The existing directory above it.
    pub anchor: Option<PathModel>,
    /// Why it may be missing.
    pub kind: MissingFilesystemTargetKind,
}

/// What a collector has gathered.
#[verifier::ext_equal]
pub struct CollectorModel {
    /// Whether searches have a depth bound.
    pub bounded: bool,
    /// The targets, in the order of their paths.
    pub targets: Seq<TargetModel>,
    /// The missing targets, in the order of their kinds and paths.
    pub missing: Seq<MissingModel>,
    /// The protected relative paths, in their order.
    pub protected: Seq<PathModel>,
    /// Whether a root or platform scope is readable.
    pub readable_base: bool,
}

impl TargetOrigins {
    /// The origins of either.
    pub open spec fn merged(self, other: TargetOrigins) -> TargetOrigins {
        TargetOrigins {
            scope: self.scope || other.scope,
            read_only: self.read_only || other.read_only,
            glob: self.glob || other.glob,
            protected: self.protected || other.protected,
        }
    }

    /// Adds the origins of another.
    pub fn merge(&mut self, other: TargetOrigins)
        ensures
            *final(self) == old(self).merged(other),
    {
        self.scope = self.scope || other.scope;
        self.read_only = self.read_only || other.read_only;
        self.glob = self.glob || other.glob;
        self.protected = self.protected || other.protected;
    }
}

/// The origins of a scope.
pub open spec fn from_scope() -> TargetOrigins {
    TargetOrigins { scope: true, read_only: false, glob: false, protected: false }
}

/// The origins of a read-only path.
pub open spec fn from_read_only() -> TargetOrigins {
    TargetOrigins { scope: false, read_only: true, glob: false, protected: false }
}

/// The origins of a pattern match.
pub open spec fn from_glob() -> TargetOrigins {
    TargetOrigins { scope: false, read_only: false, glob: true, protected: false }
}

/// The origins of a protected path.
pub open spec fn from_protected() -> TargetOrigins {
    TargetOrigins { scope: false, read_only: false, glob: false, protected: true }
}

/// The place of a missing target's kind in the order of kinds.
pub open spec fn kind_rank(kind: MissingFilesystemTargetKind) -> u32 {
    match kind {
        MissingFilesystemTargetKind::SkippedScope => 0,
        MissingFilesystemTargetKind::ReadOnly => 1,
        MissingFilesystemTargetKind::Protected => 2,
    }
}

impl MissingModel {
    /// The words by which missing targets are ordered and told apart.
    pub open spec fn key(self) -> Seq<u32> {
        seq![kind_rank(self.kind)] + self.path.key()
    }
}

/// The keys of targets.
pub open spec fn target_keys(targets: Seq<TargetModel>) -> Seq<Seq<u32>> {
    targets.map_values(|target: TargetModel| target.path.key())
}

/// The keys of missing targets.
pub open spec fn missing_keys(missing: Seq<MissingModel>) -> Seq<Seq<u32>> {
    missing.map_values(|target: MissingModel| target.key())
}

impl CollectorModel {
    /// Whether nothing occurs twice and everything is in order.
    pub open spec fn wf(self) -> bool {
        &&& ordering::strictly_ascending(target_keys(self.targets))
        &&& ordering::strictly_ascending(missing_keys(self.missing))
        &&& ordering::strictly_ascending(native_path::path_keys(self.protected))
    }

    /// With an existing target: the first spelling of a path stays, and the
    /// origins of all of them count.
    pub open spec fn with_target(self, path: PathModel, origins: TargetOrigins) -> CollectorModel {
        let keys = target_keys(self.targets);
        let i = ordering::slot(keys, path.key());
        if ordering::is_present(keys, path.key()) {
            let held = self.targets[i];
            let merged = TargetModel { path: held.path, origins: held.origins.merged(origins) };
            CollectorModel { targets: self.targets.update(i, merged), ..self }
        } else {
            CollectorModel {
                targets: self.targets.insert(i, TargetModel { path, origins }),
                ..self
            }
        }
    }

    /// With a missing target: the first one of a kind and path stays.
    pub open spec fn with_missing(self, target: MissingModel) -> CollectorModel {
        let keys = missing_keys(self.missing);
        if ordering::is_present(keys, target.key()) {
            self
        } else {
            CollectorModel {
                missing: self.missing.insert(ordering::slot(keys, target.key()), target),
                ..self
            }
        }
    }

    /// With a protected relative path: the first spelling stays.
    pub open spec fn with_protected(self, path: PathModel) -> CollectorModel {
        CollectorModel { protected: native_path::with_path(self.protected, path), ..self }
    }

    /// With protected relative paths, from the `i`th on.
    pub open spec fn with_protected_from(self, paths: Seq<NativePath>, i: int) -> CollectorModel
        decreases paths.len() - i,
    {
        if i < 0 || i >= paths.len() {
            self
        } else {
            self.with_protected(paths[i]@).with_protected_from(paths, i + 1)
        }
    }
}

/// What came of a step: the collected state or the failure.
pub type Collected = Result<CollectorModel, FilesystemPlanError<PathModel>>;

/// Whether a step that was expected to come to something returned and left
/// behind just that.
pub open spec fn came_to(
    expected: Collected,
    result: Result<(), FilesystemPlanError<NativePath>>,
    state: CollectorModel,
) -> bool {
    match result {
        Ok(()) => expected == Ok::<CollectorModel, FilesystemPlanError<PathModel>>(state),
        Err(error) => expected == Err::<CollectorModel, FilesystemPlanError<PathModel>>(error@),
    }
}

/// The state with the object that was opened at a path.
pub open spec fn with_opened(
    state: CollectorModel,
    opened: Opened,
    origins: TargetOrigins,
) -> Collected {
    match opened {
        Ok(path) => Ok(state.with_target(path@, origins)),
        Err(error) => Err(FilesystemPlanError::InvalidPath(error@)),
    }
}

/// The nearest existing directory above a path and not above a root, where
/// `ancestors` tells from the `i`th on what is at `candidate` and above it.
pub open spec fn anchor_from(
    path: PathModel,
    root: Option<PathModel>,
    candidate: Option<PathModel>,
    ancestors: Seq<PathObservation>,
    i: int,
) -> Result<PathModel, FilesystemPlanError<PathModel>>
    decreases ancestors.len() - i,
{
    if candidate is None || (root is Some && !candidate->0.is_within(root->0)) || i < 0 || i
        >= ancestors.len() {
        Err(FilesystemPlanError::MissingTargetWithoutAnchor { path })
    } else {
        match ancestors[i].presence {
            PathPresence::Present => match ancestors[i].opened {
                Ok(opened) => Ok(opened@),
                Err(error) => Err(FilesystemPlanError::InvalidPath(error@)),
            },
            PathPresence::Missing => anchor_from(
                path,
                root,
                candidate->0.parent(),
                ancestors,
                i + 1,
            ),
            PathPresence::Failed { code } => Err(
                FilesystemPlanError::Metadata { path: candidate->0, code },
            ),
        }
    }
}

/// The nearest existing directory above a path and not above a root.
pub open spec fn anchor_of(
    path: PathModel,
    root: Option<PathModel>,
    ancestors: Seq<PathObservation>,
) -> Result<PathModel, FilesystemPlanError<PathModel>> {
    anchor_from(path, root, path.parent(), ancestors, 0)
}

/// The state with a missing path that must be created before it is guarded.
pub open spec fn with_anchored(
    state: CollectorModel,
    path: PathModel,
    kind: MissingFilesystemTargetKind,
    root: PathModel,
    ancestors: Seq<PathObservation>,
) -> Collected {
    match anchor_of(path, Some(root), ancestors) {
        Ok(anchor) => Ok(
            state.with_missing(MissingModel { path, anchor: Some(anchor), kind }),
        ),
        Err(error) => Err(error),
    }
}

/// The state with a path that is guarded below a writable root, whether it
/// exists or not.
pub open spec fn with_guarded(
    state: CollectorModel,
    path: PathModel,
    observed: PathObservation,
    origins: TargetOrigins,
    kind: MissingFilesystemTargetKind,
    root: PathModel,
    ancestors: Seq<PathObservation>,
) -> Collected {
    match observed.presence {
        PathPresence::Present => with_opened(state, observed.opened, origins),
        PathPresence::Missing => with_anchored(state, path, kind, root, ancestors),
        PathPresence::Failed { code } => Err(FilesystemPlanError::Metadata { path, code }),
    }
}

/// The state with read-only paths below a writable root, from the `i`th on.
pub open spec fn with_read_only_from(
    state: CollectorModel,
    root: PathModel,
    paths: Seq<ReadOnlyObservation>,
    i: int,
) -> Collected
    decreases paths.len() - i,
{
    if i < 0 || i >= paths.len() {
        Ok(state)
    } else if !paths[i].path@.is_within(root) {
        Err(FilesystemPlanError::ReadOnlyOutsideWriteRoot { path: paths[i].path@, root })
    } else {
        match with_guarded(
            state,
            paths[i].path@,
            paths[i].observed,
            from_read_only(),
            MissingFilesystemTargetKind::ReadOnly,
            root,
            paths[i].ancestors@,
        ) {
            Ok(next) => with_read_only_from(next, root, paths, i + 1),
            Err(error) => Err(error),
        }
    }
}

/// The state with the path of a scope itself.
pub open spec fn with_scope_path(
    state: CollectorModel,
    path: PathModel,
    observed: PathObservation,
    missing: MissingPathBehavior,
    origins: TargetOrigins,
) -> Collected {
    match observed.presence {
        PathPresence::Present => with_opened(state, observed.opened, origins),
        PathPresence::Missing => if missing is Skip {
            Ok(
                state.with_missing(
                    MissingModel {
                        path,
                        anchor: None,
                        kind: MissingFilesystemTargetKind::SkippedScope,
                    },
                ),
            )
        } else {
            Err(FilesystemPlanError::RequiredPathMissing { path })
        },
        PathPresence::Failed { code } => Err(FilesystemPlanError::Metadata { path, code }),
    }
}

/// Whether a decision lets a path be read.
pub open spec fn is_readable(decision: FilesystemDecision) -> bool {
    decision is Read || decision is Write
}

/// The state with one path of a scope.
pub open spec fn with_scope(
    state: CollectorModel,
    scope: ScopeObservation,
    platform_base: bool,
    missing: MissingPathBehavior,
) -> Collected {
    let based = CollectorModel {
        readable_base: state.readable_base || (is_readable(scope.decision) && (platform_base
            || scope.path@.is_volume_root())),
        ..state
    };
    if let FilesystemDecision::Undecided { failure } = scope.decision {
        Err(FilesystemPlanError::BackendContract { failure })
    } else {
        match with_scope_path(based, scope.path@, scope.observed, missing, from_scope()) {
            Err(error) => Err(error),
            Ok(next) => if scope.observed.presence is Present && scope.decision is Write {
                with_read_only_from(next, scope.path@, scope.read_only@, 0)
            } else {
                Ok(next)
            },
        }
    }
}

/// The state with the paths of a scope, from the `i`th on.
pub open spec fn with_scopes_from(
    state: CollectorModel,
    scopes: Seq<ScopeObservation>,
    platform_base: bool,
    missing: MissingPathBehavior,
    i: int,
) -> Collected
    decreases scopes.len() - i,
{
    if i < 0 || i >= scopes.len() {
        Ok(state)
    } else {
        match with_scope(state, scopes[i], platform_base, missing) {
            Ok(next) => with_scopes_from(next, scopes, platform_base, missing, i + 1),
            Err(error) => Err(error),
        }
    }
}

/// The state with pattern matches, from the `i`th on.
pub open spec fn with_matches_from(
    state: CollectorModel,
    matches: Seq<GlobMatch>,
    i: int,
) -> Collected
    decreases matches.len() - i,
{
    if i < 0 || i >= matches.len() {
        Ok(state)
    } else if let FilesystemDecision::Undecided { failure } = matches[i].decision {
        Err(FilesystemPlanError::BackendContract { failure })
    } else if !(matches[i].decision is Deny) {
        Err(FilesystemPlanError::GlobPolicyMismatch { path: matches[i].path@ })
    } else {
        match with_opened(state, matches[i].opened, from_glob()) {
            Ok(next) => with_matches_from(next, matches, i + 1),
            Err(error) => Err(error),
        }
    }
}

/// Whether a code unit separates names: a slash or a backslash.
pub open spec fn is_separator(unit: u16) -> bool {
    unit == 47 || unit == 92
}

/// Whether the name that starts at a position of the pattern is `**`.
pub open spec fn is_recursive_name(pattern: Seq<u16>, i: int) -> bool {
    &&& 0 <= i
    &&& i + 2 <= pattern.len()
    &&& i == 0 || is_separator(pattern[i - 1])
    &&& i + 2 == pattern.len() || is_separator(pattern[i + 2])
    &&& pattern[i] == 42
    &&& pattern[i + 1] == 42
}

/// Whether a pattern matches at any depth: a name of it is `**`.
pub open spec fn is_recursive_pattern(pattern: Seq<u16>) -> bool {
    exists|i: int| is_recursive_name(pattern, i)
}

/// Whether a search for a pattern would visit a complete volume without a
/// bound on its depth.
pub open spec fn visits_volume(bounded: bool, root: PathModel, pattern: Seq<u16>) -> bool {
    !bounded && root.is_volume_root() && is_recursive_pattern(pattern)
}

/// The state with the directories that a pattern is searched in, from the
/// `i`th on.
pub open spec fn with_globs_from(
    state: CollectorModel,
    pattern: Seq<u16>,
    roots: Seq<GlobObservation>,
    i: int,
) -> Collected
    decreases roots.len() - i,
{
    if i < 0 || i >= roots.len() {
        Ok(state)
    } else if visits_volume(state.bounded, roots[i].root@, pattern) {
        Err(FilesystemPlanError::UnboundedRootGlob)
    } else {
        match roots[i].matches {
            Err(error) => Err(error@),
            Ok(matches) => match with_matches_from(state, matches@, 0) {
                Ok(next) => with_globs_from(next, pattern, roots, i + 1),
                Err(error) => Err(error),
            },
        }
    }
}

/// The state with one rule.
pub open spec fn with_rule(state: CollectorModel, rule: RuleObservation) -> Collected {
    match rule {
        RuleObservation::Scope { slash_tmp, platform_base, missing, resolved } => if slash_tmp {
            Err(FilesystemPlanError::SlashTmpScope)
        } else {
            with_scopes_from(state, resolved@, platform_base, missing, 0)
        },
        RuleObservation::Glob { pattern, roots } => with_globs_from(state, pattern@, roots@, 0),
    }
}

/// The state with rules, from the `i`th on.
pub open spec fn with_rules_from(
    state: CollectorModel,
    rules: Seq<RuleObservation>,
    i: int,
) -> Collected
    decreases rules.len() - i,
{
    if i < 0 || i >= rules.len() {
        Ok(state)
    } else {
        match with_rule(state, rules[i]) {
            Ok(next) => with_rules_from(next, rules, i + 1),
            Err(error) => Err(error),
        }
    }
}

/// The state with a policy layer.
pub open spec fn with_layer(state: CollectorModel, layer: LayerObservation) -> Collected {
    if layer.external {
        Err(FilesystemPlanError::ExternalOwnership)
    } else {
        with_rules_from(
            state.with_protected_from(layer.protected_relative_paths@, 0),
            layer.rules@,
            0,
        )
    }
}

/// The state with protected paths below writable roots, from the `i`th on.
pub open spec fn with_protected_paths_from(
    state: CollectorModel,
    paths: Seq<ProtectedObservation>,
    i: int,
) -> Collected
    decreases paths.len() - i,
{
    if i < 0 || i >= paths.len() {
        Ok(state)
    } else if let FilesystemDecision::Undecided { failure } = paths[i].decision {
        Err(FilesystemPlanError::BackendContract { failure })
    } else if paths[i].decision is Write {
        Err(FilesystemPlanError::ProtectedPathWritable { path: paths[i].path@ })
    } else if paths[i].decision is ExternallyEnforced {
        Err(FilesystemPlanError::ExternalPath { path: paths[i].path@ })
    } else {
        match with_guarded(
            state,
            paths[i].path@,
            paths[i].observed,
            from_protected(),
            MissingFilesystemTargetKind::Protected,
            paths[i].root@,
            paths[i].ancestors@,
        ) {
            Ok(next) => with_protected_paths_from(next, paths, i + 1),
            Err(error) => Err(error),
        }
    }
}

/// A target of a plan under construction.
#[derive(Debug)]
struct PendingFilesystemTarget {
    path: NativePath,
    origins: TargetOrigins,
}

/// A path that enforcement must hold although nothing exists there yet.
#[derive(Debug)]
pub struct MissingFilesystemTarget {
    path: NativePath,
    anchor: Option<NativePath>,
    kind: MissingFilesystemTargetKind,
}

impl View for MissingFilesystemTarget {
    type V = MissingModel;

    closed spec fn view(&self) -> MissingModel {
        MissingModel {
            path: self.path@,
            anchor: match self.anchor {
                Some(anchor) => Some(anchor@),
                None => None,
            },
            kind: self.kind,
        }
    }
}

impl MissingFilesystemTarget {
    /// The missing path.
    pub fn path(&self) -> (path: &NativePath)
        ensures
            path@ == self@.path,
    {
        &self.path
    }

    /// The existing directory above it; none for a scope that is left out.
    pub fn anchor(&self) -> (anchor: Option<&NativePath>)
        ensures
            match anchor {
                Some(anchor) => self@.anchor == Some(anchor@),
                None => self@.anchor is None,
            },
    {
        match &self.anchor {
            Some(anchor) => Some(anchor),
            None => None,
        }
    }

    /// Why the path may be missing.
    pub fn kind(&self) -> (kind: MissingFilesystemTargetKind)
        ensures
            kind == self@.kind,
    {
        self.kind
    }
}

/// Gathers the targets of a plan, layer by layer.
pub struct FilesystemPlanCollector {
    bounded: bool,
    target_keys: Vec<Vec<u32>>,
    targets: Vec<PendingFilesystemTarget>,
    missing_keys: Vec<Vec<u32>>,
    missing: Vec<MissingFilesystemTarget>,
    protected_keys: Vec<Vec<u32>>,
    protected: Vec<NativePath>,
    readable_base: bool,
}

/// The targets that a list holds.
spec fn target_models(targets: Seq<PendingFilesystemTarget>) -> Seq<TargetModel> {
    targets.map_values(
        |target: PendingFilesystemTarget|
            TargetModel { path: target.path@, origins: target.origins },
    )
}

/// The missing targets that a list holds.
pub open spec fn missing_models(missing: Seq<MissingFilesystemTarget>) -> Seq<MissingModel> {
    missing.map_values(|target: MissingFilesystemTarget| target@)
}

impl View for FilesystemPlanCollector {
    type V = CollectorModel;

    closed spec fn view(&self) -> CollectorModel {
        CollectorModel {
            bounded: self.bounded,
            targets: target_models(self.targets@),
            missing: missing_models(self.missing@),
            protected: native_path::models(self.protected@),
            readable_base: self.readable_base,
        }
    }
}

impl FilesystemPlanCollector {
    /// Whether the cached keys belong to what was gathered, in order.
    pub closed spec fn wf(&self) -> bool {
        &&& self@.wf()
        &&& ordering::key_list(self.target_keys@) == target_keys(self@.targets)
        &&& ordering::key_list(self.missing_keys@) == missing_keys(self@.missing)
        &&& ordering::key_list(self.protected_keys@) == native_path::path_keys(self@.protected)
    }

    /// A collector that has gathered nothing; `bounded` tells whether pattern
    /// searches have a depth bound.
    pub fn new(bounded: bool) -> (collector: FilesystemPlanCollector)
        ensures
            collector.wf(),
            collector@ == (CollectorModel {
                bounded,
                targets: Seq::empty(),
                missing: Seq::empty(),
                protected: Seq::empty(),
                readable_base: false,
            }),
    {
        let collector = FilesystemPlanCollector {
            bounded,
            target_keys: Vec::new(),
            targets: Vec::new(),
            missing_keys: Vec::new(),
            missing: Vec::new(),
            protected_keys: Vec::new(),
            protected: Vec::new(),
            readable_base: false,
        };
        proof {
            assert(collector@.targets =~= Seq::empty());
            assert(collector@.missing =~= Seq::empty());
            assert(collector@.protected =~= Seq::empty());
            assert(ordering::key_list(collector.target_keys@) =~= target_keys(collector@.targets));
            assert(ordering::key_list(collector.missing_keys@) =~= missing_keys(
                collector@.missing,
            ));
            assert(ordering::key_list(collector.protected_keys@) =~= native_path::path_keys(
                collector@.protected,
            ));
        }
        collector
    }

    /// Adds the object that was opened at an existing path.
    fn insert_opened(&mut self, path: NativePath, origins: TargetOrigins)
        requires
            old(self).wf(),
        ensures
            final(self).wf(),
            final(self)@ == old(self)@.with_target(path@, origins),
    {
        let ghost before = self@;
        let ghost keys = target_keys(before.targets);
        let key = path.key();
        let i = ordering::find_slot(&self.target_keys, &key);
        proof {
            ordering::slot_divides(keys, key@);
        }
        assert(self.target_keys@.len() == keys.len());
        assert(self.targets@.len() == keys.len());
        if i < self.targets.len() && ordering::same_words(&self.target_keys[i], &key) {
            assert(keys[i as int] == key@);
            let mut merged = self.targets[i].origins;
            merged.merge(origins);
            let held = self.targets[i].path.clone();
            self.targets.set(i, PendingFilesystemTarget { path: held, origins: merged });
            proof {
                let now = before.with_target(path@, origins);
                assert(self@.targets =~= now.targets);
                assert(target_keys(self@.targets) =~= keys);
            }
        } else {
            assert(!ordering::is_present(keys, key@));
            proof {
                ordering::insert_keeps_order(keys, key@);
            }
            self.target_keys.insert(i, key);
            self.targets.insert(i, PendingFilesystemTarget { path, origins });
            proof {
                let now = before.with_target(path@, origins);
                assert(self@.targets =~= now.targets);
                assert(target_keys(self@.targets) =~= keys.insert(i as int, key@));
                assert(ordering::key_list(self.target_keys@) =~= keys.insert(i as int, key@));
            }
        }
    }

    /// Adds the object that exists at a path, or fails as opening it did.
    fn insert_existing(&mut self, opened: &Opened, origins: TargetOrigins) -> (result: Result<
        (),
        FilesystemPlanError<NativePath>,
    >)
        requires
            old(self).wf(),
        ensures
            final(self).wf(),
            came_to(with_opened(old(self)@, *opened, origins), result, final(self)@),
    {
        match opened {
            Ok(path) => {
                self.insert_opened(path.clone(), origins);
                Ok(())
            },
            Err(error) => Err(FilesystemPlanError::InvalidPath(error.clone())),
        }
    }

    /// Adds a missing target, unless its kind and path are there already.
    fn insert_missing_target(&mut self, target: MissingFilesystemTarget)
        requires
            old(self).wf(),
        ensures
            final(self).wf(),
            final(self)@ == old(self)@.with_missing(target@),
    {
        let ghost before = self@;
        let ghost keys = missing_keys(before.missing);
        let rank: u32 = match target.kind {
            MissingFilesystemTargetKind::SkippedScope => 0,
            MissingFilesystemTargetKind::ReadOnly => 1,
            MissingFilesystemTargetKind::Protected => 2,
        };
        let words = target.path.key();
        let mut key: Vec<u32> = Vec::new();
        key.push(rank);
        for j in 0..words.len()
            invariant
                key@ == seq![rank] + words@.take(j as int),
        {
            key.push(words[j]);
            assert(key@ =~= seq![rank] + words@.take(j + 1));
        }
        assert(words@.take(words@.len() as int) =~= words@);
        assert(key@ == target@.key());
        let i = ordering::find_slot(&self.missing_keys, &key);
        proof {
            ordering::slot_divides(keys, key@);
        }
        assert(self.missing_keys@.len() == keys.len());
        assert(self.missing@.len() == keys.len());
        if i < self.missing.len() && ordering::same_words(&self.missing_keys[i], &key) {
            assert(keys[i as int] == key@);
        } else {
            assert(!ordering::is_present(keys, key@));
            proof {
                ordering::insert_keeps_order(keys, key@);
            }
            self.missing_keys.insert(i, key);
            self.missing.insert(i, target);
            proof {
                let now = before.with_missing(target@);
                assert(self@.missing =~= now.missing);
                assert(missing_keys(self@.missing) =~= keys.insert(i as int, key@));
                assert(ordering::key_list(self.missing_keys@) =~= keys.insert(i as int, key@));
            }
        }
    }

    /// Adds a protected relative path, unless it is there already.
    fn insert_protected(&mut self, path: &NativePath)
        requires
            old(self).wf(),
        ensures
            final(self).wf(),
            final(self)@ == old(self)@.with_protected(path@),
    {
        let ghost before = self@;
        let ghost keys = native_path::path_keys(before.protected);
        let key = path.key();
        let i = ordering::find_slot(&self.protected_keys, &key);
        proof {
            ordering::slot_divides(keys, key@);
        }
        assert(self.protected_keys@.len() == keys.len());
        assert(self.protected@.len() == keys.len());
        if i < self.protected.len() && ordering::same_words(&self.protected_keys[i], &key) {
            assert(keys[i as int] == key@);
        } else {
            assert(!ordering::is_present(keys, key@));
            proof {
                ordering::insert_keeps_order(keys, key@);
            }
            self.protected_keys.insert(i, key);
            self.protected.insert(i, path.clone());
            proof {
                let now = before.with_protected(path@);
                assert(self@.protected =~= now.protected);
                assert(native_path::path_keys(self@.protected) =~= keys.insert(i as int, key@));
                assert(ordering::key_list(self.protected_keys@) =~= keys.insert(i as int, key@));
            }
        }
    }

    /// Adds the path of a scope, and tells whether it exists.
    pub fn collect_scope(
        &mut self,
        path: &NativePath,
        observed: &PathObservation,
        missing: MissingPathBehavior,
        origins: TargetOrigins,
    ) -> (result: Result<bool, FilesystemPlanError<NativePath>>)
        requires
            old(self).wf(),
        ensures
            final(self).wf(),
            match result {
                Ok(exists) => {
                    &&& exists == (observed.presence is Present)
                    &&& with_scope_path(old(self)@, path@, *observed, missing, origins) == Ok::<
                        CollectorModel,
                        FilesystemPlanError<PathModel>,
                    >(final(self)@)
                },
                Err(error) => with_scope_path(old(self)@, path@, *observed, missing, origins)
                    == Err::<CollectorModel, FilesystemPlanError<PathModel>>(error@),
            },
    {
        match observed.presence {
            PathPresence::Present => match self.insert_existing(&observed.opened, origins) {
                Ok(()) => Ok(true),
                Err(error) => Err(error),
            },
            PathPresence::Missing => match missing {
                MissingPathBehavior::Skip => {
                    self.insert_missing_target(
                        MissingFilesystemTarget {
                            path: path.clone(),
                            anchor: None,
                            kind: MissingFilesystemTargetKind::SkippedScope,
                        },
                    );
                    Ok(false)
                },
                MissingPathBehavior::Error => Err(
                    FilesystemPlanError::RequiredPathMissing { path: path.clone() },
                ),
            },
            PathPresence::Failed { code } => Err(
                FilesystemPlanError::Metadata { path: path.clone(), code },
            ),
        }
    }

    /// Adds a missing path with the existing directory above it.
    fn insert_missing(
        &mut self,
        path: &NativePath,
        kind: MissingFilesystemTargetKind,
        required_root: &NativePath,
        ancestors: &Vec<PathObservation>,
    ) -> (result: Result<(), FilesystemPlanError<NativePath>>)
        requires
            old(self).wf(),
        ensures
            final(self).wf(),
            came_to(
                with_anchored(old(self)@, path@, kind, required_root@, ancestors@),
                result,
                final(self)@,
            ),
    {
        match nearest_existing_ancestor(path, required_root, ancestors) {
            Ok(anchor) => {
                self.insert_missing_target(
                    MissingFilesystemTarget { path: path.clone(), anchor: Some(anchor), kind },
                );
                Ok(())
            },
            Err(error) => Err(error),
        }
    }

    /// Adds a path that is guarded below a writable root.
    fn collect_guarded(
        &mut self,
        path: &NativePath,
        observed: &PathObservation,
        origins: TargetOrigins,
        kind: MissingFilesystemTargetKind,
        root: &NativePath,
        ancestors: &Vec<PathObservation>,
    ) -> (result: Result<(), FilesystemPlanError<NativePath>>)
        requires
            old(self).wf(),
        ensures
            final(self).wf(),
            came_to(
                with_guarded(old(self)@, path@, *observed, origins, kind, root@, ancestors@),
                result,
                final(self)@,
            ),
    {
        match observed.presence {
            PathPresence::Present => self.insert_existing(&observed.opened, origins),
            PathPresence::Missing => self.insert_missing(path, kind, root, ancestors),
            PathPresence::Failed { code } => Err(
                FilesystemPlanError::Metadata { path: path.clone(), code },
            ),
        }
    }

    /// Adds the read-only paths below a writable root.
    pub fn collect_read_only_subpaths(
        &mut self,
        write_root: &NativePath,
        paths: &Vec<ReadOnlyObservation>,
    ) -> (result: Result<(), FilesystemPlanError<NativePath>>)
        requires
            old(self).wf(),
        ensures
            final(self).wf(),
            came_to(
                with_read_only_from(old(self)@, write_root@, paths@, 0),
                result,
                final(self)@,
            ),
    {
        let origins = TargetOrigins { scope: false, read_only: true, glob: false, protected: false };
        let ghost expected = with_read_only_from(self@, write_root@, paths@, 0);
        for i in 0..paths.len()
            invariant
                self.wf(),
                origins == from_read_only(),
                expected == with_read_only_from(old(self)@, write_root@, paths@, 0),
                with_read_only_from(self@, write_root@, paths@, i as int) == expected,
        {
            let item = &paths[i];
            if !item.path.is_within(write_root) {
                return Err(
                    FilesystemPlanError::ReadOnlyOutsideWriteRoot {
                        path: item.path.clone(),
                        root: write_root.clone(),
                    },
                );
            }
            match self.collect_guarded(
                &item.path,
                &item.observed,
                origins,
                MissingFilesystemTargetKind::ReadOnly,
                write_root,
                &item.ancestors,
            ) {
                Ok(()) => {},
                Err(error) => {
                    return Err(error);
                },
            }
        }
        Ok(())
    }

    /// Adds one path of a scope, with the read-only paths below it.
    fn collect_scope_path(
        &mut self,
        scope: &ScopeObservation,
        platform_base: bool,
        missing: MissingPathBehavior,
    ) -> (result: Result<(), FilesystemPlanError<NativePath>>)
        requires
            old(self).wf(),
        ensures
            final(self).wf(),
            came_to(
                with_scope(old(self)@, *scope, platform_base, missing),
                result,
                final(self)@,
            ),
    {
        let readable = match scope.decision {
            FilesystemDecision::Undecided { failure } => {
                return Err(FilesystemPlanError::BackendContract { failure });
            },
            FilesystemDecision::Read | FilesystemDecision::Write => true,
            _ => false,
        };
        if readable && (platform_base || scope.path.is_complete_volume_root()) {
            self.readable_base = true;
        }
        let origins = TargetOrigins { scope: true, read_only: false, glob: false, protected: false };
        match self.collect_scope(&scope.path, &scope.observed, missing, origins) {
            Err(error) => Err(error),
            Ok(exists) => {
                let writable = match scope.decision {
                    FilesystemDecision::Write => true,
                    _ => false,
                };
                if exists && writable {
                    self.collect_read_only_subpaths(&scope.path, &scope.read_only)
                } else {
                    Ok(())
                }
            },
        }
    }

    /// Adds the paths of a scope.
    fn collect_scopes(
        &mut self,
        scopes: &Vec<ScopeObservation>,
        platform_base: bool,
        missing: MissingPathBehavior,
    ) -> (result: Result<(), FilesystemPlanError<NativePath>>)
        requires
            old(self).wf(),
        ensures
            final(self).wf(),
            came_to(
                with_scopes_from(old(self)@, scopes@, platform_base, missing, 0),
                result,
                final(self)@,
            ),
    {
        let ghost expected = with_scopes_from(self@, scopes@, platform_base, missing, 0);
        for i in 0..scopes.len()
            invariant
                self.wf(),
                expected == with_scopes_from(old(self)@, scopes@, platform_base, missing, 0),
                with_scopes_from(self@, scopes@, platform_base, missing, i as int) == expected,
        {
            match self.collect_scope_path(&scopes[i], platform_base, missing) {
                Ok(()) => {},
                Err(error) => {
                    return Err(error);
                },
            }
        }
        Ok(())
    }

    /// Adds the matches of a deny pattern below one directory.
    fn collect_matches(&mut self, matches: &Vec<GlobMatch>) -> (result: Result<
        (),
        FilesystemPlanError<NativePath>,
    >)
        requires
            old(self).wf(),
        ensures
            final(self).wf(),
            came_to(with_matches_from(old(self)@, matches@, 0), result, final(self)@),
    {
        let origins = TargetOrigins { scope: false, read_only: false, glob: true, protected: false };
        let ghost expected = with_matches_from(self@, matches@, 0);
        for i in 0..matches.len()
            invariant
                self.wf(),
                origins == from_glob(),
                expected == with_matches_from(old(self)@, matches@, 0),
                with_matches_from(self@, matches@, i as int) == expected,
        {
            let item = &matches[i];
            match item.decision {
                FilesystemDecision::Deny => {},
                FilesystemDecision::Undecided { failure } => {
                    return Err(FilesystemPlanError::BackendContract { failure });
                },
                _ => {
                    return Err(FilesystemPlanError::GlobPolicyMismatch { path: item.path.clone() });
                },
            }
            match self.insert_existing(&item.opened, origins) {
                Ok(()) => {},
                Err(error) => {
                    return Err(error);
                },
            }
        }
        Ok(())
    }

    /// Adds the matches of a deny pattern.
    pub fn collect_glob(&mut self, pattern: &Vec<u16>, roots: &Vec<GlobObservation>) -> (result:
        Result<(), FilesystemPlanError<NativePath>>)
        requires
            old(self).wf(),
        ensures
            final(self).wf(),
            came_to(with_globs_from(old(self)@, pattern@, roots@, 0), result, final(self)@),
    {
        let ghost expected = with_globs_from(self@, pattern@, roots@, 0);
        for i in 0..roots.len()
            invariant
                self.wf(),
                expected == with_globs_from(old(self)@, pattern@, roots@, 0),
                with_globs_from(self@, pattern@, roots@, i as int) == expected,
        {
            let item = &roots[i];
            if is_unbounded_search(self.bounded, &item.root, pattern) {
                return Err(FilesystemPlanError::UnboundedRootGlob);
            }
            match &item.matches {
                Err(error) => {
                    return Err(error.clone());
                },
                Ok(matches) => match self.collect_matches(matches) {
                    Ok(()) => {},
                    Err(error) => {
                        return Err(error);
                    },
                },
            }
        }
        Ok(())
    }

    /// Adds what a policy layer asks for.
    pub fn collect_layer(&mut self, layer: &LayerObservation) -> (result: Result<
        (),
        FilesystemPlanError<NativePath>,
    >)
        requires
            old(self).wf(),
        ensures
            final(self).wf(),
            came_to(with_layer(old(self)@, *layer), result, final(self)@),
    {
        if layer.external {
            return Err(FilesystemPlanError::ExternalOwnership);
        }
        let ghost protected = self@.with_protected_from(layer.protected_relative_paths@, 0);
        for i in 0..layer.protected_relative_paths.len()
            invariant
                self.wf(),
                !layer.external,
                protected == old(self)@.with_protected_from(layer.protected_relative_paths@, 0),
                self@.with_protected_from(layer.protected_relative_paths@, i as int) == protected,
        {
            self.insert_protected(&layer.protected_relative_paths[i]);
        }
        let ghost expected = with_rules_from(self@, layer.rules@, 0);
        for i in 0..layer.rules.len()
            invariant
                self.wf(),
                expected == with_layer(old(self)@, *layer),
                with_rules_from(self@, layer.rules@, i as int) == expected,
        {
            let result = match &layer.rules[i] {
                RuleObservation::Scope { slash_tmp, platform_base, missing, resolved } => {
                    if *slash_tmp {
                        Err(FilesystemPlanError::SlashTmpScope)
                    } else {
                        self.collect_scopes(resolved, *platform_base, *missing)
                    }
                },
                RuleObservation::Glob { pattern, roots } => self.collect_glob(pattern, roots),
            };
            match result {
                Ok(()) => {},
                Err(error) => {
                    return Err(error);
                },
            }
        }
        Ok(())
    }

    /// Adds the protected paths below the writable roots.
    pub fn collect_protected(&mut self, paths: &Vec<ProtectedObservation>) -> (result: Result<
        (),
        FilesystemPlanError<NativePath>,
    >)
        requires
            old(self).wf(),
        ensures
            final(self).wf(),
            came_to(with_protected_paths_from(old(self)@, paths@, 0), result, final(self)@),
    {
        let origins = TargetOrigins { scope: false, read_only: false, glob: false, protected: true };
        let ghost expected = with_protected_paths_from(self@, paths@, 0);
        for i in 0..paths.len()
            invariant
                self.wf(),
                origins == from_protected(),
                expected == with_protected_paths_from(old(self)@, paths@, 0),
                with_protected_paths_from(self@, paths@, i as int) == expected,
        {
            let item = &paths[i];
            match item.decision {
                FilesystemDecision::Undecided { failure } => {
                    return Err(FilesystemPlanError::BackendContract { failure });
                },
                FilesystemDecision::Write => {
                    return Err(
                        FilesystemPlanError::ProtectedPathWritable { path: item.path.clone() },
                    );
                },
                FilesystemDecision::ExternallyEnforced => {
                    return Err(FilesystemPlanError::ExternalPath { path: item.path.clone() });
                },
                FilesystemDecision::Read | FilesystemDecision::Deny => {},
            }
            match self.collect_guarded(
                &item.path,
                &item.observed,
                origins,
                MissingFilesystemTargetKind::Protected,
                &item.root,
                &item.ancestors,
            ) {
                Ok(()) => {},
                Err(error) => {
                    return Err(error);
                },
            }
        }
        Ok(())
    }
}

/// The nearest existing directory above a path and not above a root.
pub fn nearest_existing_ancestor(
    path: &NativePath,
    required_root: &NativePath,
    ancestors: &Vec<PathObservation>,
) -> (result: Result<NativePath, FilesystemPlanError<NativePath>>)
    ensures
        match result {
            Ok(anchor) => anchor_of(path@, Some(required_root@), ancestors@) == Ok::<
                PathModel,
                FilesystemPlanError<PathModel>,
            >(anchor@),
            Err(error) => anchor_of(path@, Some(required_root@), ancestors@) == Err::<
                PathModel,
                FilesystemPlanError<PathModel>,
            >(error@),
        },
{
    let mut candidate = path.parent();
    let ghost expected = anchor_of(path@, Some(required_root@), ancestors@);
    for i in 0..ancestors.len()
        invariant
            expected == anchor_of(path@, Some(required_root@), ancestors@),
            anchor_from(
                path@,
                Some(required_root@),
                match candidate {
                    Some(candidate) => Some(candidate@),
                    None => None,
                },
                ancestors@,
                i as int,
            ) == expected,
    {
        let next = match &candidate {
            None => {
                return Err(FilesystemPlanError::MissingTargetWithoutAnchor { path: path.clone() });
            },
            Some(parent) => {
                if !parent.is_within(required_root) {
                    return Err(
                        FilesystemPlanError::MissingTargetWithoutAnchor { path: path.clone() },
                    );
                }
                match ancestors[i].presence {
                    PathPresence::Present => match &ancestors[i].opened {
                        Ok(opened) => {
                            return Ok(opened.clone());
                        },
                        Err(error) => {
                            return Err(FilesystemPlanError::InvalidPath(error.clone()));
                        },
                    },
                    PathPresence::Missing => parent.parent(),
                    PathPresence::Failed { code } => {
                        return Err(FilesystemPlanError::Metadata { path: parent.clone(), code });
                    },
                }
            },
        };
        candidate = next;
    }
    Err(FilesystemPlanError::MissingTargetWithoutAnchor { path: path.clone() })
}

/// Whether a pattern matches at any depth: a name of it is `**`.
pub fn pattern_is_recursive(pattern: &Vec<u16>) -> (recursive: bool)
    ensures
        recursive == is_recursive_pattern(pattern@),
{
    let length: usize = pattern.len();
    if length < 2 {
        return false;
    }
    let mut i: usize = 0;
    while i <= length - 2
        invariant
            length == pattern@.len(),
            2 <= length,
            i <= length - 1,
            forall|j: int| 0 <= j < i ==> !is_recursive_name(pattern@, j),
        decreases length - i,
    {
        let starts = i == 0 || pattern[i - 1] == 47 || pattern[i - 1] == 92;
        if starts && pattern[i] == 42 && pattern[i + 1] == 42 && (i + 2 == length || pattern[i + 2]
            == 47 || pattern[i + 2] == 92) {
            assert(is_recursive_name(pattern@, i as int));
            return true;
        }
        assert(!is_recursive_name(pattern@, i as int));
        i = i + 1;
    }
    false
}

/// Whether a search for a pattern would visit a complete volume without a
/// bound on its depth. Such a search is refused before it begins.
pub fn is_unbounded_search(bounded: bool, root: &NativePath, pattern: &Vec<u16>) -> (refused: bool)
    ensures
        refused == visits_volume(bounded, root@, pattern@),
{
    !bounded && root.is_complete_volume_root() && pattern_is_recursive(pattern)
}

/// How a target is enforced that the policy decided on, where the targets
/// and decisions of the whole plan are given; none where another component
/// enforces it or the policy could not decide.
pub open spec fn planned_access(
    targets: Seq<TargetModel>,
    decisions: Seq<FilesystemDecision>,
    i: int,
) -> Option<FilesystemPlanAccess> {
    match decisions[i] {
        FilesystemDecision::Write => Some(FilesystemPlanAccess::WriteRoot),
        FilesystemDecision::Read => if exists|j: int|
            below_write_root(targets, decisions, i, j) {
            Some(FilesystemPlanAccess::ReadOnly)
        } else {
            Some(FilesystemPlanAccess::ReadRoot)
        },
        FilesystemDecision::Deny => Some(FilesystemPlanAccess::Deny),
        FilesystemDecision::ExternallyEnforced | FilesystemDecision::Undecided { .. } => None,
    }
}

/// Whether a target lies within another one that may be written.
pub open spec fn below_write_root(
    targets: Seq<TargetModel>,
    decisions: Seq<FilesystemDecision>,
    i: int,
    j: int,
) -> bool {
    &&& 0 <= j < targets.len()
    &&& decisions[j] is Write
    &&& targets[i].path.is_within(targets[j].path)
}

/// Why the policy contradicts the origins of a target or could not decide on
/// it, from the `i`th on.
pub open spec fn contradiction_from(
    targets: Seq<TargetModel>,
    decisions: Seq<FilesystemDecision>,
    i: int,
) -> Option<FilesystemPlanError<PathModel>>
    decreases targets.len() - i,
{
    if i < 0 || i >= targets.len() {
        None
    } else if let FilesystemDecision::Undecided { failure } = decisions[i] {
        Some(FilesystemPlanError::BackendContract { failure })
    } else if decisions[i] is Write && targets[i].origins.protected {
        Some(FilesystemPlanError::ProtectedPathWritable { path: targets[i].path })
    } else if decisions[i] is Write && targets[i].origins.read_only {
        Some(FilesystemPlanError::ReadOnlyPolicyMismatch { path: targets[i].path })
    } else {
        contradiction_from(targets, decisions, i + 1)
    }
}

/// Why a target cannot be planned, from the `i`th on.
pub open spec fn obstacle_from(
    targets: Seq<TargetModel>,
    decisions: Seq<FilesystemDecision>,
    reopened: Seq<Opened>,
    i: int,
) -> Option<FilesystemPlanError<PathModel>>
    decreases targets.len() - i,
{
    if i < 0 || i >= targets.len() {
        None
    } else if decisions[i] is ExternallyEnforced {
        Some(FilesystemPlanError::ExternalPath { path: targets[i].path })
    } else if reopened[i] is Err {
        Some(FilesystemPlanError::InvalidPath(reopened[i]->Err_0@))
    } else {
        obstacle_from(targets, decisions, reopened, i + 1)
    }
}

/// Why there is no classification of the targets.
pub open spec fn classification_failure(
    targets: Seq<TargetModel>,
    decisions: Seq<FilesystemDecision>,
    reopened: Seq<Opened>,
) -> Option<FilesystemPlanError<PathModel>> {
    match contradiction_from(targets, decisions, 0) {
        Some(error) => Some(error),
        None => obstacle_from(targets, decisions, reopened, 0),
    }
}

/// A target with the way in which it is enforced.
#[verifier::ext_equal]
pub struct PlannedModel {
    /// Where the target was opened.
    pub path: PathModel,
    /// How it is enforced.
    pub access: FilesystemPlanAccess,
    /// Where it comes from.
    pub origins: TargetOrigins,
}

/// The targets with the way in which each is enforced.
pub open spec fn classification(
    targets: Seq<TargetModel>,
    decisions: Seq<FilesystemDecision>,
    reopened: Seq<Opened>,
) -> Seq<PlannedModel> {
    Seq::new(
        targets.len(),
        |i: int|
            PlannedModel {
                path: reopened[i]->Ok_0@,
                access: planned_access(targets, decisions, i)->0,
                origins: targets[i].origins,
            },
    )
}

/// No read-only or protected target of a classification is writable, and
/// every target that is read-only in it lies within one that is writable.
pub proof fn classification_keeps_guarded_targets(
    targets: Seq<TargetModel>,
    decisions: Seq<FilesystemDecision>,
    reopened: Seq<Opened>,
    i: int,
)
    requires
        decisions.len() == targets.len(),
        reopened.len() == targets.len(),
        classification_failure(targets, decisions, reopened) is None,
        0 <= i < targets.len(),
    ensures
        (targets[i].origins.read_only || targets[i].origins.protected) ==> !(classification(
            targets,
            decisions,
            reopened,
        )[i].access is WriteRoot),
        classification(targets, decisions, reopened)[i].access is ReadOnly ==> exists|j: int|
            {
                &&& #[trigger] below_write_root(targets, decisions, i, j)
                &&& classification(targets, decisions, reopened)[j].access is WriteRoot
            },
{
    no_contradiction_at(targets, decisions, 0, i);
    no_obstacle_at(targets, decisions, reopened, 0, i);
    if classification(targets, decisions, reopened)[i].access is ReadOnly {
        let j = choose|j: int| below_write_root(targets, decisions, i, j);
        assert(below_write_root(targets, decisions, i, j));
        assert(classification(targets, decisions, reopened)[j].access is WriteRoot);
    }
}

/// A target of a classification is one on which the policy decided, which this
/// process enforces, and which was opened again; it may be written only where
/// nothing guards it.
pub proof fn decided_targets(
    targets: Seq<TargetModel>,
    decisions: Seq<FilesystemDecision>,
    reopened: Seq<Opened>,
    i: int,
)
    requires
        classification_failure(targets, decisions, reopened) is None,
        0 <= i < targets.len(),
    ensures
        !(decisions[i] is Undecided),
        !(decisions[i] is ExternallyEnforced),
        decisions[i] is Write ==> !targets[i].origins.protected && !targets[i].origins.read_only,
        reopened[i] is Ok,
{
    no_contradiction_at(targets, decisions, 0, i);
    no_obstacle_at(targets, decisions, reopened, 0, i);
}

/// Where no target from `from` on is contradicted, none at `i` is.
proof fn no_contradiction_at(
    targets: Seq<TargetModel>,
    decisions: Seq<FilesystemDecision>,
    from: int,
    i: int,
)
    requires
        0 <= from <= i < targets.len(),
        contradiction_from(targets, decisions, from) is None,
    ensures
        decisions[i] is Write ==> !targets[i].origins.protected && !targets[i].origins.read_only,
        !(decisions[i] is Undecided),
    decreases i - from,
{
    if from < i {
        no_contradiction_at(targets, decisions, from + 1, i);
    }
}

/// Where no target from `from` on meets an obstacle, none at `i` does.
proof fn no_obstacle_at(
    targets: Seq<TargetModel>,
    decisions: Seq<FilesystemDecision>,
    reopened: Seq<Opened>,
    from: int,
    i: int,
)
    requires
        0 <= from <= i < targets.len(),
        obstacle_from(targets, decisions, reopened, from) is None,
    ensures
        !(decisions[i] is ExternallyEnforced),
        reopened[i] is Ok,
    decreases i - from,
{
    if from < i {
        no_obstacle_at(targets, decisions, reopened, from + 1, i);
    }
}

/// A target of a plan.
#[derive(Debug)]
pub struct FilesystemPlanTarget {
    path: NativePath,
    access: FilesystemPlanAccess,
    origins: TargetOrigins,
}

impl View for FilesystemPlanTarget {
    type V = PlannedModel;

    closed spec fn view(&self) -> PlannedModel {
        PlannedModel { path: self.path@, access: self.access, origins: self.origins }
    }
}

impl FilesystemPlanTarget {
    /// How the target is enforced.
    pub fn access(&self) -> (access: FilesystemPlanAccess)
        ensures
            access == self@.access,
    {
        self.access
    }

    /// Where the target was opened.
    pub fn path(&self) -> (path: &NativePath)
        ensures
            path@ == self@.path,
    {
        &self.path
    }

    /// Where the target comes from.
    pub fn origins(&self) -> (origins: TargetOrigins)
        ensures
            origins == self@.origins,
    {
        self.origins
    }
}

/// The planned targets that a list holds.
pub open spec fn planned_models(targets: Seq<FilesystemPlanTarget>) -> Seq<PlannedModel> {
    targets.map_values(|target: FilesystemPlanTarget| target@)
}

/// The paths of the targets that may be written.
pub open spec fn write_root_paths(targets: Seq<PlannedModel>) -> Seq<PathModel>
    decreases targets.len(),
{
    if targets.len() == 0 {
        Seq::empty()
    } else {
        let head = write_root_paths(targets.drop_last());
        if targets.last().access is WriteRoot {
            head.push(targets.last().path)
        } else {
            head
        }
    }
}

/// The paths of the targets that may be written.
pub fn write_roots(targets: &Vec<FilesystemPlanTarget>) -> (roots: Vec<NativePath>)
    ensures
        native_path::models(roots@) == write_root_paths(planned_models(targets@)),
{
    let ghost planned = planned_models(targets@);
    let mut roots: Vec<NativePath> = Vec::new();
    assert(native_path::models(roots@) =~= write_root_paths(planned.take(0)));
    for i in 0..targets.len()
        invariant
            planned == planned_models(targets@),
            native_path::models(roots@) == write_root_paths(planned.take(i as int)),
    {
        assert(planned.take(i + 1).drop_last() =~= planned.take(i as int));
        assert(planned.take(i + 1).last() == targets@[i as int]@);
        let ghost before = native_path::models(roots@);
        match targets[i].access {
            FilesystemPlanAccess::WriteRoot => {
                roots.push(targets[i].path.clone());
                assert(native_path::models(roots@) =~= before.push(targets@[i as int]@.path));
            },
            _ => {},
        }
    }
    assert(planned.take(targets@.len() as int) =~= planned);
    roots
}

/// What policy and system say of the gathered targets, one by one.
#[derive(Debug)]
pub struct ClassificationFacts {
    /// What the policy says of each target.
    pub decisions: Vec<FilesystemDecision>,
    /// Where each target was opened again, or why it was not.
    pub reopened: Vec<Opened>,
}

/// A path that is protected below a writable root.
#[derive(Debug)]
pub struct ProtectedCandidate {
    /// The writable root.
    pub root: NativePath,
    /// The protected path.
    pub path: NativePath,
}

/// Every protected relative path below every root, root by root.
pub open spec fn candidates(roots: Seq<PathModel>, protected: Seq<PathModel>) -> Seq<
    (PathModel, PathModel),
> {
    Seq::new(
        roots.len() * protected.len(),
        |i: int|
            (
                roots[i / protected.len() as int],
                roots[i / protected.len() as int].join(protected[i % protected.len() as int]),
            ),
    )
}

/// The pairs that a list of candidates holds.
pub open spec fn candidate_pairs(list: Seq<ProtectedCandidate>) -> Seq<(PathModel, PathModel)> {
    list.map_values(|candidate: ProtectedCandidate| (candidate.root@, candidate.path@))
}

/// What a plan holds.
#[verifier::ext_equal]
pub struct PlanModel {
    /// The targets.
    pub targets: Seq<PlannedModel>,
    /// The missing targets.
    pub missing: Seq<MissingModel>,
    /// The first readable target.
    pub anchor: PathModel,
}

/// Whether a target may at least be read.
pub open spec fn is_root_access(access: FilesystemPlanAccess) -> bool {
    access is ReadRoot || access is WriteRoot
}

/// The path of the first target, from the `i`th on, that may be read.
pub open spec fn first_root_from(targets: Seq<PlannedModel>, i: int) -> Option<PathModel>
    decreases targets.len() - i,
{
    if i < 0 || i >= targets.len() {
        None
    } else if is_root_access(targets[i].access) {
        Some(targets[i].path)
    } else {
        first_root_from(targets, i + 1)
    }
}

/// A complete filesystem plan.
#[derive(Debug)]
pub struct FilesystemPlan {
    profile_sha256: String,
    targets: Vec<FilesystemPlanTarget>,
    missing: Vec<MissingFilesystemTarget>,
    profile_anchor: NativePath,
}

impl View for FilesystemPlan {
    type V = PlanModel;

    closed spec fn view(&self) -> PlanModel {
        PlanModel {
            targets: planned_models(self.targets@),
            missing: missing_models(self.missing@),
            anchor: self.profile_anchor@,
        }
    }
}

impl FilesystemPlan {
    /// The text that stands for the plan.
    pub closed spec fn digest(&self) -> Seq<char> {
        self.profile_sha256@
    }

    /// The text that stands for the plan.
    pub fn profile_sha256(&self) -> (digest: &str)
        ensures
            digest@ == self.digest(),
    {
        self.profile_sha256.as_str()
    }

    /// The first readable target.
    pub fn profile_anchor(&self) -> (path: &NativePath)
        ensures
            path@ == self@.anchor,
    {
        &self.profile_anchor
    }

    /// The targets.
    pub fn targets(&self) -> (targets: &Vec<FilesystemPlanTarget>)
        ensures
            planned_models(targets@) == self@.targets,
    {
        &self.targets
    }

    /// The missing targets.
    pub fn missing_targets(&self) -> (missing: &Vec<MissingFilesystemTarget>)
        ensures
            missing_models(missing@) == self@.missing,
    {
        &self.missing
    }
}

impl FilesystemPlanCollector {
    /// The paths of the gathered targets, in their order.
    pub fn pending_paths(&self) -> (paths: Vec<NativePath>)
        ensures
            paths@.len() == self@.targets.len(),
            forall|i: int| 0 <= i < paths@.len() ==> (#[trigger] paths@[i])@
                == self@.targets[i].path,
    {
        let mut paths: Vec<NativePath> = Vec::new();
        for i in 0..self.targets.len()
            invariant
                paths@.len() == i,
                forall|j: int| 0 <= j < i ==> (#[trigger] paths@[j])@ == self.targets@[j].path@,
        {
            paths.push(self.targets[i].path.clone());
        }
        paths
    }

    /// Decides how every gathered target is enforced.
    pub fn classify_pending(&self, facts: &ClassificationFacts) -> (result: Result<
        Vec<FilesystemPlanTarget>,
        FilesystemPlanError<NativePath>,
    >)
        requires
            facts.decisions@.len() == self@.targets.len(),
            facts.reopened@.len() == self@.targets.len(),
        ensures
            match result {
                Ok(targets) => {
                    &&& classification_failure(
                        self@.targets,
                        facts.decisions@,
                        facts.reopened@,
                    ) is None
                    &&& planned_models(targets@) == classification(
                        self@.targets,
                        facts.decisions@,
                        facts.reopened@,
                    )
                },
                Err(error) => classification_failure(
                    self@.targets,
                    facts.decisions@,
                    facts.reopened@,
                ) == Some(error@),
            },
    {
        let ghost gathered = self@.targets;
        let ghost decisions = facts.decisions@;
        let ghost reopened = facts.reopened@;
        let count: usize = self.targets.len();
        for i in 0..count
            invariant
                count == self.targets@.len(),
                gathered == self@.targets,
                decisions == facts.decisions@,
                decisions.len() == count,
                contradiction_from(gathered, decisions, i as int) == contradiction_from(
                    gathered,
                    decisions,
                    0,
                ),
        {
            assert(gathered[i as int].path == self.targets@[i as int].path@);
            assert(gathered[i as int].origins == self.targets@[i as int].origins);
            let writable = match facts.decisions[i] {
                FilesystemDecision::Undecided { failure } => {
                    return Err(FilesystemPlanError::BackendContract { failure });
                },
                FilesystemDecision::Write => true,
                _ => false,
            };
            if writable {
                if self.targets[i].origins.protected {
                    return Err(
                        FilesystemPlanError::ProtectedPathWritable {
                            path: self.targets[i].path.clone(),
                        },
                    );
                }
                if self.targets[i].origins.read_only {
                    return Err(
                        FilesystemPlanError::ReadOnlyPolicyMismatch {
                            path: self.targets[i].path.clone(),
                        },
                    );
                }
            }
        }
        let mut targets: Vec<FilesystemPlanTarget> = Vec::new();
        for i in 0..count
            invariant
                count == self.targets@.len(),
                gathered == self@.targets,
                decisions == facts.decisions@,
                decisions.len() == count,
                reopened == facts.reopened@,
                reopened.len() == count,
                contradiction_from(gathered, decisions, 0) is None,
                obstacle_from(gathered, decisions, reopened, i as int) == obstacle_from(
                    gathered,
                    decisions,
                    reopened,
                    0,
                ),
                targets@.len() == i,
                forall|j: int|
                    0 <= j < i ==> (#[trigger] targets@[j])@ == classification(
                        gathered,
                        decisions,
                        reopened,
                    )[j],
        {
            assert(gathered[i as int].path == self.targets@[i as int].path@);
            assert(gathered[i as int].origins == self.targets@[i as int].origins);
            proof {
                no_contradiction_at(gathered, decisions, 0, i as int);
            }
            let access = match facts.decisions[i] {
                FilesystemDecision::Undecided { failure } => {
                    return Err(FilesystemPlanError::BackendContract { failure });
                },
                FilesystemDecision::Write => FilesystemPlanAccess::WriteRoot,
                FilesystemDecision::Read => {
                    if self.lies_below_write_root(i, &facts.decisions) {
                        FilesystemPlanAccess::ReadOnly
                    } else {
                        FilesystemPlanAccess::ReadRoot
                    }
                },
                FilesystemDecision::Deny => FilesystemPlanAccess::Deny,
                FilesystemDecision::ExternallyEnforced => {
                    return Err(
                        FilesystemPlanError::ExternalPath { path: self.targets[i].path.clone() },
                    );
                },
            };
            match &facts.reopened[i] {
                Ok(path) => {
                    targets.push(
                        FilesystemPlanTarget {
                            path: path.clone(),
                            access,
                            origins: self.targets[i].origins,
                        },
                    );
                },
                Err(error) => {
                    return Err(FilesystemPlanError::InvalidPath(error.clone()));
                },
            }
        }
        assert(planned_models(targets@) =~= classification(gathered, decisions, reopened));
        Ok(targets)
    }

    /// Whether a target lies within one that may be written.
    fn lies_below_write_root(&self, i: usize, decisions: &Vec<FilesystemDecision>) -> (yes: bool)
        requires
            i < self@.targets.len(),
            decisions@.len() == self@.targets.len(),
        ensures
            yes <==> exists|j: int| below_write_root(self@.targets, decisions@, i as int, j),
    {
        for j in 0..self.targets.len()
            invariant
                i < self.targets@.len(),
                decisions@.len() == self.targets@.len(),
                forall|k: int|
                    0 <= k < j ==> !below_write_root(self@.targets, decisions@, i as int, k),
        {
            assert(self@.targets[j as int].path == self.targets@[j as int].path@);
            assert(self@.targets[i as int].path == self.targets@[i as int].path@);
            let writable = match decisions[j] {
                FilesystemDecision::Write => true,
                _ => false,
            };
            if writable && self.targets[i].path.is_within(&self.targets[j].path) {
                assert(below_write_root(self@.targets, decisions@, i as int, j as int));
                return true;
            }
        }
        false
    }

    /// The roots that may be written, once the layers are collected; fails
    /// where nothing on the platform is readable.
    pub fn preliminary_write_roots(&self, facts: &ClassificationFacts) -> (result: Result<
        Vec<NativePath>,
        FilesystemPlanError<NativePath>,
    >)
        requires
            facts.decisions@.len() == self@.targets.len(),
            facts.reopened@.len() == self@.targets.len(),
        ensures
            match result {
                Ok(roots) => {
                    &&& self@.readable_base
                    &&& classification_failure(
                        self@.targets,
                        facts.decisions@,
                        facts.reopened@,
                    ) is None
                    &&& native_path::models(roots@) == write_root_paths(
                        classification(self@.targets, facts.decisions@, facts.reopened@),
                    )
                },
                Err(error) => if !self@.readable_base {
                    error@ == FilesystemPlanError::<PathModel>::MissingReadablePlatformBase
                } else {
                    classification_failure(self@.targets, facts.decisions@, facts.reopened@)
                        == Some(error@)
                },
            },
    {
        if !self.readable_base {
            return Err(FilesystemPlanError::MissingReadablePlatformBase);
        }
        match self.classify_pending(facts) {
            Ok(targets) => Ok(write_roots(&targets)),
            Err(error) => Err(error),
        }
    }

    /// Every protected path below the given roots.
    pub fn protected_candidates(&self, roots: &Vec<NativePath>) -> (list: Vec<ProtectedCandidate>)
        ensures
            candidate_pairs(list@) == candidates(native_path::models(roots@), self@.protected),
    {
        let ghost tops = native_path::models(roots@);
        let ghost names = self@.protected;
        let width: usize = self.protected.len();
        let mut list: Vec<ProtectedCandidate> = Vec::new();
        for i in 0..roots.len()
            invariant
                tops == native_path::models(roots@),
                names == native_path::models(self.protected@),
                width == names.len(),
                list@.len() == i * width,
                forall|k: int|
                    0 <= k < list@.len() ==> candidate_pairs(list@)[k] == #[trigger] candidates(
                        tops,
                        names,
                    )[k],
        {
            let ghost base = list@.len();
            for j in 0..width
                invariant
                    i < roots@.len(),
                    tops == native_path::models(roots@),
                    names == native_path::models(self.protected@),
                    width == names.len(),
                    base == i * width,
                    list@.len() == base + j,
                    forall|k: int|
                        0 <= k < list@.len() ==> candidate_pairs(list@)[k]
                            == #[trigger] candidates(tops, names)[k],
            {
                let ghost before = list@;
                list.push(
                    ProtectedCandidate {
                        root: roots[i].clone(),
                        path: roots[i].join(&self.protected[j]),
                    },
                );
                proof {
                    let at = base + j;
                    assert(at / width as int == i && at % width as int == j) by {
                        vstd::arithmetic::div_mod::lemma_fundamental_div_mod_converse(
                            at as int,
                            width as int,
                            i as int,
                            j as int,
                        );
                    }
                    assert(at < roots@.len() * width) by (nonlinear_arith)
                        requires
                            at == i * width + j,
                            j < width,
                            i + 1 <= roots@.len(),
                    ;
                    assert(tops[i as int] == roots@[i as int]@);
                    assert(names[j as int] == self.protected@[j as int]@);
                    assert forall|k: int| 0 <= k < list@.len() implies candidate_pairs(list@)[k]
                        == #[trigger] candidates(tops, names)[k] by {
                        if k < before.len() {
                            assert(candidate_pairs(before)[k] == candidate_pairs(list@)[k]);
                        }
                    }
                }
            }
            assert(i * width + width == (i + 1) * width) by (nonlinear_arith);
        }
        assert(candidate_pairs(list@) =~= candidates(tops, names));
        list
    }
}

/// How finishing a collection comes out: the planned targets and the first of
/// them that may be read, or the failure.
pub open spec fn finished(state: CollectorModel, facts: ClassificationFacts) -> Result<
    PlanModel,
    FilesystemPlanError<PathModel>,
> {
    match classification_failure(state.targets, facts.decisions@, facts.reopened@) {
        Some(error) => Err(error),
        None => {
            let targets = classification(state.targets, facts.decisions@, facts.reopened@);
            match first_root_from(targets, 0) {
                Some(anchor) => Ok(PlanModel { targets, missing: state.missing, anchor }),
                None => Err(FilesystemPlanError::MissingReadablePlatformBase),
            }
        },
    }
}

impl FilesystemPlanCollector {
    /// Makes the plan, once the layers and the protected paths are collected.
    pub fn finish(self, facts: &ClassificationFacts) -> (result: Result<
        FilesystemPlan,
        FilesystemPlanError<NativePath>,
    >)
        requires
            facts.decisions@.len() == self@.targets.len(),
            facts.reopened@.len() == self@.targets.len(),
        ensures
            match result {
                Ok(plan) => {
                    &&& finished(self@, *facts) == Ok::<PlanModel, FilesystemPlanError<PathModel>>(
                        plan@,
                    )
                    &&& exists|records: Seq<RecordModel>|
                        {
                            &&& #[trigger] profile_digest::is_record_list(
                                records,
                                plan@.targets,
                                plan@.missing,
                            )
                            &&& plan.digest() == profile_digest::records_digest(records)
                        }
                    &&& profile_digest::is_digest_text(plan.digest())
                },
                Err(error) => finished(self@, *facts) == Err::<
                    PlanModel,
                    FilesystemPlanError<PathModel>,
                >(error@),
            },
    {
        let targets = match self.classify_pending(facts) {
            Ok(targets) => targets,
            Err(error) => {
                return Err(error);
            },
        };
        let ghost planned = planned_models(targets@);
        let mut anchor: Option<NativePath> = None;
        let mut i: usize = 0;
        while i < targets.len() && anchor.is_none()
            invariant
                i <= targets@.len(),
                planned == planned_models(targets@),
                match anchor {
                    Some(anchor) => first_root_from(planned, 0) == Some(anchor@),
                    None => first_root_from(planned, i as int) == first_root_from(planned, 0),
                },
            decreases targets@.len() - i,
        {
            assert(planned[i as int] == targets@[i as int]@);
            match targets[i].access {
                FilesystemPlanAccess::ReadRoot | FilesystemPlanAccess::WriteRoot => {
                    anchor = Some(targets[i].path.clone());
                },
                _ => {},
            }
            i = i + 1;
        }
        match anchor {
            None => Err(FilesystemPlanError::MissingReadablePlatformBase),
            Some(profile_anchor) => {
                let profile_sha256 = profile_digest::profile_digest(&targets, &self.missing);
                let plan = FilesystemPlan {
                    profile_sha256,
                    targets,
                    missing: self.missing,
                    profile_anchor,
                };
                assert(plan@.targets == planned);
                assert(plan@.missing == self@.missing);
                Ok(plan)
            },
        }
    }
}

} // verus!
