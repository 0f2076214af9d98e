//! Creating directories that a policy speaks of and that are not there, with
//! a marker by which they are known again, and removing them.

use vstd::prelude::*;

use crate::acl_error::{AclError, AclErrorModel, FilesystemAclError, MaterializationRecovery};
use crate::acl_mutation;
use crate::acl_mutation::{DaclModel, PersistedDacl};
use crate::bytes;
use crate::filesystem_path::FilesystemObjectIdentity;
use crate::native_path;
use crate::native_path::{NativePath, PathModel};
use crate::outside;
use crate::utf16;

verus! {

/// The name of the file that marks a created directory.
pub const MATERIALIZATION_MARKER_NAME: &'static str = ".cageforge-materialized-path";

/// The size of what a marker holds.
pub const MARKER_NONCE_BYTES: usize = 32;

/// The native status of creating something that is there.
pub const ERROR_ALREADY_EXISTS: u32 = 183;

/// The directories from below an anchor down to a path, the anchor's child
/// first, if going up from the path leads to the anchor.
pub open spec fn components(anchor: PathModel, target: PathModel) -> Option<Seq<PathModel>>
    decreases target.parts.len(),
{
    if target.same_path(anchor) {
        Some(Seq::empty())
    } else if target.parts.len() == 0 {
        None
    } else {
        match components(anchor, target.parent()->Some_0) {
            Some(above) => Some(above.push(target)),
            None => None,
        }
    }
}

/// The directories to create from below an anchor down to a path, parents
/// first. A path that does not lie below the anchor, or from which going up
/// does not lead to it, is refused.
pub fn materialization_components(anchor: &NativePath, target: &NativePath) -> (result: Result<
    Vec<NativePath>,
    AclError,
>)
    ensures
        match result {
            Ok(paths) => {
                &&& target@.is_within(anchor@)
                &&& components(anchor@, target@) == Some(native_path::models(paths@))
            },
            Err(error) => {
                &&& !target@.is_within(anchor@) || components(anchor@, target@) is None
                &&& error@ == (AclErrorModel::MaterializationOutsideAnchor {
                    path: target@,
                    anchor: anchor@,
                })
            },
        },
{
    if !target.is_within(anchor) {
        return Err(
            FilesystemAclError::MaterializationOutsideAnchor {
                path: target.clone(),
                anchor: anchor.clone(),
            },
        );
    }
    match components_up_to(anchor, target) {
        Some(paths) => Ok(paths),
        None => Err(
            FilesystemAclError::MaterializationOutsideAnchor {
                path: target.clone(),
                anchor: anchor.clone(),
            },
        ),
    }
}

/// The directories from below an anchor down to a path.
fn components_up_to(anchor: &NativePath, target: &NativePath) -> (paths: Option<Vec<NativePath>>)
    ensures
        match (paths, components(anchor@, target@)) {
            (Some(found), Some(expected)) => native_path::models(found@) == expected,
            (None, None) => true,
            _ => false,
        },
    decreases target@.parts.len(),
{
    if target.same_path(anchor) {
        let none: Vec<NativePath> = Vec::new();
        assert(native_path::models(none@) =~= Seq::<PathModel>::empty());
        return Some(none);
    }
    match target.parent() {
        None => None,
        Some(parent) => match components_up_to(anchor, &parent) {
            None => None,
            Some(above) => {
                let mut paths = above;
                let ghost before = native_path::models(paths@);
                paths.push(target.clone());
                assert(native_path::models(paths@) =~= before.push(target@));
                Some(paths)
            },
        },
    }
}

/// Parents are created before what they hold: every directory is the parent
/// of the next one, the last one is the path itself, and none is the anchor.
pub proof fn components_are_parent_first(anchor: PathModel, target: PathModel)
    requires
        components(anchor, target) is Some,
    ensures
        ({
            let paths = components(anchor, target)->Some_0;
            &&& forall|i: int|
                0 <= i < paths.len() ==> !(#[trigger] paths[i]).same_path(anchor)
            &&& forall|i: int, j: int|
                0 <= i && j == i + 1 && j < paths.len() ==> (#[trigger] paths[j]).parent() == Some(
                    #[trigger] paths[i],
                )
            &&& paths.len() > 0 ==> paths.last() == target
            &&& paths.len() == 0 ==> target.same_path(anchor)
        }),
    decreases target.parts.len(),
{
    if !target.same_path(anchor) {
        components_are_parent_first(anchor, target.parent()->Some_0);
    }
}

/// The path of the marker in a directory.
pub open spec fn marker_path(path: PathModel) -> PathModel {
    path.child(utf16::encode(MATERIALIZATION_MARKER_NAME@))
}

/// The path of the marker in a directory.
pub fn path_of_marker(path: &NativePath) -> (marker: NativePath)
    ensures
        marker@ == marker_path(path@),
{
    path.child(MATERIALIZATION_MARKER_NAME)
}

/// What a marker holds that was drawn: not all zeros.
pub open spec fn usable_nonce(drawn: Seq<u8>) -> Seq<u8> {
    if forall|i: int| 0 <= i < drawn.len() ==> drawn[i] == 0 {
        drawn.update(0, 1)
    } else {
        drawn
    }
}

/// Makes what was drawn for a marker usable.
pub fn nonce_from(drawn: Vec<u8>) -> (nonce: Vec<u8>)
    requires
        drawn@.len() == MARKER_NONCE_BYTES,
    ensures
        nonce@ == usable_nonce(drawn@),
        nonce@.len() == MARKER_NONCE_BYTES,
        exists|i: int| 0 <= i < nonce@.len() && #[trigger] nonce@[i] != 0,
{
    for i in 0..drawn.len()
        invariant
            drawn@.len() == MARKER_NONCE_BYTES,
            forall|j: int| 0 <= j < i ==> drawn@[j] == 0,
    {
        if drawn[i] != 0 {
            assert(drawn@[i as int] != 0);
            return drawn;
        }
    }
    let mut nonce = drawn;
    nonce.set(0, 1);
    assert(nonce@[0] != 0);
    nonce
}

/// Why the creation of a directory failed, with failures of single steps of
/// type `E`.
#[derive(Debug)]
pub enum CreationFailure<E> {
    /// No random number could be drawn.
    Random(getrandom::Error),
    /// A step failed.
    Step(E),
    /// Something appeared at the directory's path.
    Race,
    /// The directory could not be created.
    Create {
        /// The native status.
        code: u32,
    },
    /// Something appeared at the marker's path.
    MarkerRace,
    /// The marker could not be created.
    MarkerCreate {
        /// The native status.
        code: u32,
    },
    /// The capability state did not find the directory.
    Outcome(MaterializationRecovery),
}

/// The next step of the creation of a directory, or how it ended.
#[derive(Debug)]
pub enum CreationStep<E> {
    /// Note the creation in the journal.
    BeginJournal,
    /// Create the directory.
    CreateDirectory,
    /// Open the directory.
    OpenDirectory,
    /// Create the marker.
    CreateMarker,
    /// Write the marker.
    WriteMarker,
    /// Check the directory and the marker.
    Verify,
    /// Settle the journal.
    Resolve,
    /// The directory is there.
    Done,
    /// The creation failed.
    Failed(CreationFailure<E>),
}

/// What came of a step.
#[derive(Debug)]
pub enum CreationEvent<E> {
    /// A step was done, or why not.
    Finished(Result<(), E>),
    /// Something was created, or the native status.
    Created(Result<(), u32>),
    /// The journal was settled.
    Resolved(Result<MaterializationRecovery, E>),
}

impl<E> CreationStep<E> {
    /// Whether an event can come of the step.
    pub open spec fn expects(self, event: CreationEvent<E>) -> bool {
        match self {
            CreationStep::BeginJournal
            | CreationStep::OpenDirectory
            | CreationStep::WriteMarker
            | CreationStep::Verify => event is Finished,
            CreationStep::CreateDirectory | CreationStep::CreateMarker => event is Created,
            CreationStep::Resolve => event is Resolved,
            CreationStep::Done | CreationStep::Failed(_) => false,
        }
    }

    /// The step after one that was done.
    pub open spec fn following(self) -> CreationStep<E> {
        match self {
            CreationStep::BeginJournal => CreationStep::CreateDirectory,
            CreationStep::CreateDirectory => CreationStep::OpenDirectory,
            CreationStep::OpenDirectory => CreationStep::CreateMarker,
            CreationStep::CreateMarker => CreationStep::WriteMarker,
            CreationStep::WriteMarker => CreationStep::Verify,
            CreationStep::Verify => CreationStep::Resolve,
            CreationStep::Resolve => CreationStep::Done,
            step => step,
        }
    }

    /// The step after an event.
    pub open spec fn after(self, event: CreationEvent<E>) -> CreationStep<E> {
        match event {
            CreationEvent::Finished(Ok(_)) => self.following(),
            CreationEvent::Finished(Err(error)) => CreationStep::Failed(
                CreationFailure::Step(error),
            ),
            CreationEvent::Created(Ok(_)) => self.following(),
            CreationEvent::Created(Err(code)) => CreationStep::Failed(
                match (self is CreateDirectory, code == ERROR_ALREADY_EXISTS) {
                    (true, true) => CreationFailure::Race,
                    (true, false) => CreationFailure::Create { code },
                    (false, true) => CreationFailure::MarkerRace,
                    (false, false) => CreationFailure::MarkerCreate { code },
                },
            ),
            CreationEvent::Resolved(Ok(MaterializationRecovery::Present)) => self.following(),
            CreationEvent::Resolved(Ok(outcome)) => CreationStep::Failed(
                CreationFailure::Outcome(outcome),
            ),
            CreationEvent::Resolved(Err(error)) => CreationStep::Failed(
                CreationFailure::Step(error),
            ),
        }
    }

    /// The step after one that was done.
    fn next(self) -> (step: CreationStep<E>)
        ensures
            step == self.following(),
    {
        match self {
            CreationStep::BeginJournal => CreationStep::CreateDirectory,
            CreationStep::CreateDirectory => CreationStep::OpenDirectory,
            CreationStep::OpenDirectory => CreationStep::CreateMarker,
            CreationStep::CreateMarker => CreationStep::WriteMarker,
            CreationStep::WriteMarker => CreationStep::Verify,
            CreationStep::Verify => CreationStep::Resolve,
            CreationStep::Resolve => CreationStep::Done,
            step => step,
        }
    }

    /// Takes the step after an event.
    pub fn advance(self, event: CreationEvent<E>) -> (step: CreationStep<E>)
        requires
            self.expects(event),
        ensures
            step == self.after(event),
    {
        match event {
            CreationEvent::Finished(Ok(_)) => self.next(),
            CreationEvent::Finished(Err(error)) => CreationStep::Failed(
                CreationFailure::Step(error),
            ),
            CreationEvent::Created(Ok(_)) => self.next(),
            CreationEvent::Created(Err(code)) => {
                let exists = code == ERROR_ALREADY_EXISTS;
                let directory = match self {
                    CreationStep::CreateDirectory => true,
                    _ => false,
                };
                CreationStep::Failed(
                    match (directory, exists) {
                        (true, true) => CreationFailure::Race,
                        (true, false) => CreationFailure::Create { code },
                        (false, true) => CreationFailure::MarkerRace,
                        (false, false) => CreationFailure::MarkerCreate { code },
                    },
                )
            },
            CreationEvent::Resolved(Ok(outcome)) => match outcome {
                MaterializationRecovery::Present => self.next(),
                MaterializationRecovery::Absent => CreationStep::Failed(
                    CreationFailure::Outcome(outcome),
                ),
            },
            CreationEvent::Resolved(Err(error)) => CreationStep::Failed(
                CreationFailure::Step(error),
            ),
        }
    }
}

/// The step after several events.
pub open spec fn run<E>(step: CreationStep<E>, events: Seq<CreationEvent<E>>) -> CreationStep<E>
    decreases events.len(),
{
    if events.len() == 0 {
        step
    } else {
        run(step, events.drop_last()).after(events.last())
    }
}

/// Whether every event can come of the step that it follows.
pub open spec fn fits<E>(step: CreationStep<E>, events: Seq<CreationEvent<E>>) -> bool
    decreases events.len(),
{
    events.len() > 0 ==> {
        &&& fits(step, events.drop_last())
        &&& run(step, events.drop_last()).expects(events.last())
    }
}

/// How many steps lie before a step.
pub open spec fn place<E>(step: CreationStep<E>) -> int {
    match step {
        CreationStep::BeginJournal => 0,
        CreationStep::CreateDirectory => 1,
        CreationStep::OpenDirectory => 2,
        CreationStep::CreateMarker => 3,
        CreationStep::WriteMarker => 4,
        CreationStep::Verify => 5,
        CreationStep::Resolve => 6,
        CreationStep::Done => 7,
        CreationStep::Failed(_) => -1,
    }
}

/// No step of a creation is left out: a directory is there only after every
/// step was done, each in its turn.
pub proof fn creation_takes_every_step<E>(events: Seq<CreationEvent<E>>)
    requires
        fits(CreationStep::<E>::BeginJournal, events),
    ensures
        run(CreationStep::<E>::BeginJournal, events) is Failed || place(
            run(CreationStep::<E>::BeginJournal, events),
        ) == events.len(),
    decreases events.len(),
{
    if events.len() > 0 {
        creation_takes_every_step(events.drop_last());
    }
}

/// What is needed to create a directory.
#[derive(Debug)]
pub struct PlannedComponent {
    /// The directory.
    pub path: NativePath,
    /// Its marker.
    pub marker_path: NativePath,
    /// What the marker will hold.
    pub nonce: Vec<u8>,
}

/// Plans the creation of a directory from what was drawn for its marker: where
/// the marker goes and what it will hold. The creation then starts with the
/// journal.
pub fn component_from_drawn<E>(
    path: &NativePath,
    drawn: Result<Vec<u8>, getrandom::Error>,
) -> (result: Result<(PlannedComponent, CreationStep<E>), CreationFailure<E>>)
    requires
        drawn matches Ok(bytes) ==> bytes@.len() == MARKER_NONCE_BYTES,
    ensures
        match drawn {
            Ok(bytes) => result matches Ok((planned, step)) && {
                &&& planned.path@ == path@
                &&& planned.marker_path@ == marker_path(path@)
                &&& planned.nonce@ == usable_nonce(bytes@)
                &&& planned.nonce@.len() == MARKER_NONCE_BYTES
                &&& exists|i: int| 0 <= i < planned.nonce@.len() && #[trigger] planned.nonce@[i] != 0
                &&& step is BeginJournal
            },
            Err(error) => result == Err::<(PlannedComponent, CreationStep<E>), CreationFailure<E>>(
                CreationFailure::Random(error),
            ),
        },
{
    match drawn {
        Ok(bytes) => {
            let planned = PlannedComponent {
                path: path.clone(),
                marker_path: path_of_marker(path),
                nonce: nonce_from(bytes),
            };
            Ok((planned, CreationStep::BeginJournal))
        },
        Err(error) => Err(CreationFailure::Random(error)),
    }
}

/// Plans the creation of a directory with a marker that is drawn.
pub fn create_materialized_component<E>(path: &NativePath) -> (result: Result<
    (PlannedComponent, CreationStep<E>),
    CreationFailure<E>,
>)
    ensures
        match result {
            Ok((planned, step)) => {
                &&& planned.path@ == path@
                &&& planned.marker_path@ == marker_path(path@)
                &&& planned.nonce@.len() == MARKER_NONCE_BYTES
                &&& exists|i: int| 0 <= i < planned.nonce@.len() && #[trigger] planned.nonce@[i] != 0
                &&& step is BeginJournal
            },
            Err(failure) => failure is Random,
        },
{
    component_from_drawn(path, outside::random_bytes(MARKER_NONCE_BYTES))
}

/// What was seen of the security of an object.
#[derive(Debug)]
pub struct SecurityFacts {
    /// Whether the object belongs to whom it has to belong to.
    pub owner_matches: bool,
    /// Its list.
    pub descriptor: PersistedDacl,
}

/// Why created objects are not what they have to be, with failures of single
/// reads of type `E`.
#[derive(Debug)]
pub enum CheckFailure<E> {
    /// A read failed.
    Read(E),
    /// An object is another than recorded.
    Object(AclError),
}

/// What a failed check says.
pub enum CheckFailureModel<E> {
    /// A read failed.
    Read(E),
    /// An object is another than recorded.
    Object(AclErrorModel),
}

impl<E> View for CheckFailure<E> {
    type V = CheckFailureModel<E>;

    open spec fn view(&self) -> CheckFailureModel<E> {
        match *self {
            CheckFailure::Read(error) => CheckFailureModel::Read(error),
            CheckFailure::Object(error) => CheckFailureModel::Object(error@),
        }
    }
}

/// Why the security of an object is not what it has to be; a difference of
/// the list is reported as given.
pub open spec fn security_failure<E>(
    path: PathModel,
    facts: Result<SecurityFacts, E>,
    expected: DaclModel,
    difference: AclErrorModel,
) -> Option<CheckFailureModel<E>> {
    match facts {
        Err(error) => Some(CheckFailureModel::Read(error)),
        Ok(facts) => if !facts.owner_matches {
            Some(
                CheckFailureModel::Object(
                    FilesystemAclError::MaterializationOwnerMismatch { path },
                ),
            )
        } else if facts.descriptor@ != expected {
            Some(CheckFailureModel::Object(difference))
        } else {
            None
        },
    }
}

/// Why a marker does not hold what it has to hold.
pub open spec fn contents_failure<E>(
    path: PathModel,
    contents: Result<Vec<u8>, E>,
    nonce: Seq<u8>,
) -> Option<CheckFailureModel<E>> {
    match contents {
        Err(error) => Some(CheckFailureModel::Read(error)),
        Ok(contents) => if contents@ != nonce {
            Some(
                CheckFailureModel::Object(
                    FilesystemAclError::MaterializationMarkerMismatch { path },
                ),
            )
        } else {
            None
        },
    }
}

/// Whether the security of an object is what it has to be.
fn check_security<E>(
    path: &NativePath,
    facts: Result<SecurityFacts, E>,
    expected: &PersistedDacl,
    difference: AclError,
) -> (result: Result<(), CheckFailure<E>>)
    ensures
        match (security_failure(path@, facts, expected@, difference@), result) {
            (None, Ok(_)) => true,
            (Some(failure), Err(error)) => error@ == failure,
            _ => false,
        },
{
    match facts {
        Err(error) => Err(CheckFailure::Read(error)),
        Ok(facts) => if !facts.owner_matches {
            Err(
                CheckFailure::Object(
                    FilesystemAclError::MaterializationOwnerMismatch { path: path.clone() },
                ),
            )
        } else if !acl_mutation::same_dacl(&facts.descriptor, expected) {
            Err(CheckFailure::Object(difference))
        } else {
            Ok(())
        },
    }
}

/// Whether a marker holds what it has to hold.
pub fn verify_marker_contents<E>(
    path: &NativePath,
    contents: Result<Vec<u8>, E>,
    expected_nonce: &Vec<u8>,
) -> (result: Result<(), CheckFailure<E>>)
    ensures
        match (contents_failure(path@, contents, expected_nonce@), result) {
            (None, Ok(_)) => true,
            (Some(failure), Err(error)) => error@ == failure,
            _ => false,
        },
{
    match contents {
        Err(error) => Err(CheckFailure::Read(error)),
        Ok(contents) => if bytes::same_bytes(contents.as_slice(), expected_nonce.as_slice()) {
            Ok(())
        } else {
            Err(
                CheckFailure::Object(
                    FilesystemAclError::MaterializationMarkerMismatch { path: path.clone() },
                ),
            )
        },
    }
}

/// A created directory as it is recorded.
#[derive(Debug)]
pub struct MaterializedObject {
    /// Where it is.
    pub path: NativePath,
    /// Which object it is.
    pub identity: FilesystemObjectIdentity,
    /// Its list.
    pub descriptor: PersistedDacl,
    /// Where its marker is.
    pub marker_path: NativePath,
    /// Which object the marker is.
    pub marker_identity: FilesystemObjectIdentity,
    /// The marker's list.
    pub marker_descriptor: PersistedDacl,
    /// What the marker holds.
    pub marker_nonce: Vec<u8>,
}

/// Why a created directory and its marker are not what they have to be, in
/// the order in which they are read.
pub open spec fn materialization_failure<E>(
    path: PathModel,
    descriptor: DaclModel,
    marker: PathModel,
    marker_descriptor: DaclModel,
    nonce: Seq<u8>,
    directory_facts: Result<SecurityFacts, E>,
    marker_facts: Result<SecurityFacts, E>,
    contents: Result<Vec<u8>, E>,
) -> Option<CheckFailureModel<E>> {
    let directory_failure = security_failure(
        path,
        directory_facts,
        descriptor,
        FilesystemAclError::DescriptorSnapshotMismatch { path },
    );
    let marker_failure = security_failure(
        marker,
        marker_facts,
        marker_descriptor,
        FilesystemAclError::DescriptorSnapshotMismatch { path: marker },
    );
    if directory_failure is Some {
        directory_failure
    } else if marker_failure is Some {
        marker_failure
    } else {
        contents_failure(marker, contents, nonce)
    }
}

/// Whether a created directory and its marker are what they have to be.
pub fn verify_materialization<E>(
    path: &NativePath,
    expected_descriptor: &PersistedDacl,
    marker_path: &NativePath,
    expected_marker_descriptor: &PersistedDacl,
    expected_nonce: &Vec<u8>,
    directory_facts: Result<SecurityFacts, E>,
    marker_facts: Result<SecurityFacts, E>,
    contents: Result<Vec<u8>, E>,
) -> (result: Result<(), CheckFailure<E>>)
    ensures
        match (
            materialization_failure(
                path@,
                expected_descriptor@,
                marker_path@,
                expected_marker_descriptor@,
                expected_nonce@,
                directory_facts,
                marker_facts,
                contents,
            ),
            result,
        ) {
            (None, Ok(_)) => true,
            (Some(failure), Err(error)) => error@ == failure,
            _ => false,
        },
{
    match check_security(
        path,
        directory_facts,
        expected_descriptor,
        FilesystemAclError::DescriptorSnapshotMismatch { path: path.clone() },
    ) {
        Ok(_) => {},
        Err(failure) => {
            return Err(failure);
        },
    }
    match check_security(
        marker_path,
        marker_facts,
        expected_marker_descriptor,
        FilesystemAclError::DescriptorSnapshotMismatch { path: marker_path.clone() },
    ) {
        Ok(_) => {},
        Err(failure) => {
            return Err(failure);
        },
    }
    verify_marker_contents(marker_path, contents, expected_nonce)
}

/// Why a directory or its marker may not be removed, where its identity is
/// looked at first.
pub open spec fn cleanup_failure<E>(
    object: PathModel,
    path: PathModel,
    recorded: FilesystemObjectIdentity,
    identity: FilesystemObjectIdentity,
    descriptor: DaclModel,
    facts: Result<SecurityFacts, E>,
) -> Option<CheckFailureModel<E>> {
    let drift = FilesystemAclError::MaterializationDrift { path: object };
    if !acl_mutation::is_same_object(identity, recorded) {
        Some(CheckFailureModel::Object(drift))
    } else {
        security_failure(path, facts, descriptor, drift)
    }
}

impl MaterializedObject {
    /// Whether the objects that were checked are the recorded ones.
    pub fn verify_recorded(
        &self,
        identity: &FilesystemObjectIdentity,
        marker_identity: &FilesystemObjectIdentity,
    ) -> (result: Result<(), AclError>)
        ensures
            match result {
                Ok(_) => acl_mutation::is_same_object(*identity, self.identity)
                    && acl_mutation::is_same_object(*marker_identity, self.marker_identity),
                Err(error) => {
                    &&& !(acl_mutation::is_same_object(*identity, self.identity)
                        && acl_mutation::is_same_object(*marker_identity, self.marker_identity))
                    &&& error@ == (AclErrorModel::MaterializationDrift { path: self.path@ })
                },
            },
    {
        if acl_mutation::same_identity(identity, &self.identity) && acl_mutation::same_identity(
            marker_identity,
            &self.marker_identity,
        ) {
            Ok(())
        } else {
            Err(FilesystemAclError::MaterializationDrift { path: self.path.clone() })
        }
    }

    /// Whether the directory may be removed.
    pub fn verify_directory_for_cleanup<E>(
        &self,
        identity: &FilesystemObjectIdentity,
        facts: Result<SecurityFacts, E>,
    ) -> (result: Result<(), CheckFailure<E>>)
        ensures
            match (
                cleanup_failure(
                    self.path@,
                    self.path@,
                    self.identity,
                    *identity,
                    self.descriptor@,
                    facts,
                ),
                result,
            ) {
                (None, Ok(_)) => true,
                (Some(failure), Err(error)) => error@ == failure,
                _ => false,
            },
    {
        if !acl_mutation::same_identity(identity, &self.identity) {
            return Err(
                CheckFailure::Object(
                    FilesystemAclError::MaterializationDrift { path: self.path.clone() },
                ),
            );
        }
        check_security(
            &self.path,
            facts,
            &self.descriptor,
            FilesystemAclError::MaterializationDrift { path: self.path.clone() },
        )
    }

    /// Whether the marker may be removed.
    pub fn verify_marker_for_cleanup<E>(
        &self,
        identity: &FilesystemObjectIdentity,
        facts: Result<SecurityFacts, E>,
        contents: Result<Vec<u8>, E>,
    ) -> (result: Result<(), CheckFailure<E>>)
        ensures
            ({
                let security = cleanup_failure(
                    self.path@,
                    self.marker_path@,
                    self.marker_identity,
                    *identity,
                    self.marker_descriptor@,
                    facts,
                );
                let expected = if security is Some {
                    security
                } else {
                    contents_failure(self.marker_path@, contents, self.marker_nonce@)
                };
                match (expected, result) {
                    (None, Ok(_)) => true,
                    (Some(failure), Err(error)) => error@ == failure,
                    _ => false,
                }
            }),
    {
        if !acl_mutation::same_identity(identity, &self.marker_identity) {
            return Err(
                CheckFailure::Object(
                    FilesystemAclError::MaterializationDrift { path: self.path.clone() },
                ),
            );
        }
        match check_security(
            &self.marker_path,
            facts,
            &self.marker_descriptor,
            FilesystemAclError::MaterializationDrift { path: self.path.clone() },
        ) {
            Ok(_) => {},
            Err(failure) => {
                return Err(failure);
            },
        }
        verify_marker_contents(&self.marker_path, contents, &self.marker_nonce)
    }
}

/// Whether something is there.
#[derive(Clone, Copy, Debug, PartialEq, Eq, Structural)]
pub enum Presence {
    /// It is there.
    Present,
    /// It is not there.
    Missing,
    /// That could not be found out.
    Failed {
        /// The system's error number.
        code: i32,
    },
}

/// What to do about a directory that has to be there.
#[derive(Debug, Clone, Copy, PartialEq, Eq, Structural)]
pub enum ComponentAction {
    /// Nothing: it was handled before.
    Retained,
    /// Check the recorded directory.
    VerifyRecorded,
    /// Create it.
    Create,
}

/// What to do about a directory that has to be there.
pub open spec fn component_action(
    path: PathModel,
    handled: Seq<PathModel>,
    recorded: bool,
    presence: Presence,
) -> Result<ComponentAction, AclErrorModel> {
    if exists|i: int| 0 <= i < handled.len() && (#[trigger] handled[i]).same_path(path) {
        Ok(ComponentAction::Retained)
    } else if recorded {
        Ok(ComponentAction::VerifyRecorded)
    } else {
        match presence {
            Presence::Missing => Ok(ComponentAction::Create),
            Presence::Failed { code } => Err(
                FilesystemAclError::MaterializationMetadata { path, code },
            ),
            Presence::Present => Err(FilesystemAclError::MaterializationRace { path }),
        }
    }
}

/// What to do about a directory that has to be there: one that was handled
/// is left alone, a recorded one is checked, and one that is missing is
/// created. Something that is there without a record is refused.
pub fn retain_or_create(
    path: &NativePath,
    handled: &Vec<NativePath>,
    recorded: bool,
    presence: Presence,
) -> (result: Result<ComponentAction, AclError>)
    ensures
        match (
            component_action(path@, native_path::models(handled@), recorded, presence),
            result,
        ) {
            (Ok(expected), Ok(action)) => action == expected,
            (Err(failure), Err(error)) => error@ == failure,
            _ => false,
        },
{
    let ghost list = native_path::models(handled@);
    for i in 0..handled.len()
        invariant
            list == native_path::models(handled@),
            forall|j: int| 0 <= j < i ==> !(#[trigger] list[j]).same_path(path@),
    {
        assert(list[i as int] == handled@[i as int]@);
        if handled[i].same_path(path) {
            return Ok(ComponentAction::Retained);
        }
    }
    if recorded {
        return Ok(ComponentAction::VerifyRecorded);
    }
    match presence {
        Presence::Missing => Ok(ComponentAction::Create),
        Presence::Failed { code } => Err(
            FilesystemAclError::MaterializationMetadata { path: path.clone(), code },
        ),
        Presence::Present => Err(FilesystemAclError::MaterializationRace { path: path.clone() }),
    }
}

/// Whether a creation that was under way has to be checked, or is to be
/// settled as not done.
pub fn recover_pending(path: &NativePath, presence: Presence) -> (result: Result<
    MaterializationRecovery,
    AclError,
>)
    ensures
        match presence {
            Presence::Missing => result == Ok::<MaterializationRecovery, AclError>(
                MaterializationRecovery::Absent,
            ),
            Presence::Present => result == Ok::<MaterializationRecovery, AclError>(
                MaterializationRecovery::Present,
            ),
            Presence::Failed { code } => result matches Err(error) && error@ == (
            AclErrorModel::MaterializationMetadata { path: path@, code }),
        },
{
    match presence {
        Presence::Missing => Ok(MaterializationRecovery::Absent),
        Presence::Present => Ok(MaterializationRecovery::Present),
        Presence::Failed { code } => Err(
            FilesystemAclError::MaterializationMetadata { path: path.clone(), code },
        ),
    }
}

/// Whether the capability state came to the outcome that was expected.
pub fn verify_outcome(
    path: &NativePath,
    expected: MaterializationRecovery,
    outcome: MaterializationRecovery,
) -> (result: Result<(), AclError>)
    ensures
        match result {
            Ok(_) => outcome == expected,
            Err(error) => outcome != expected && error@ == (
            AclErrorModel::MaterializationOutcome { path: path@, actual: outcome }),
        },
{
    if outcome == expected {
        Ok(())
    } else {
        Err(FilesystemAclError::MaterializationOutcome { path: path.clone(), actual: outcome })
    }
}

/// How far a removal that was under way had come.
#[derive(Clone, Copy, Debug, PartialEq, Eq, Structural)]
pub enum MaterializationRemovalPhase {
    /// The marker was about to be deleted.
    MarkerDeleteArmed,
    /// The directory was about to be deleted.
    DirectoryDeleteArmed,
}

/// The next step of the removal of a directory.
#[derive(Clone, Copy, Debug, PartialEq, Eq, Structural)]
pub enum RemovalStep {
    /// Check the directory and the marker.
    VerifyBoth,
    /// Note the removal in the journal.
    Begin,
    /// Check the directory, then look for the marker.
    VerifyDirectoryThenMarker,
    /// Check the marker.
    VerifyMarker,
    /// Delete the marker.
    DeleteMarker,
    /// Note that the directory is next.
    ArmDirectory,
    /// Look for the directory.
    FindDirectory,
    /// Check the directory.
    VerifyDirectory,
    /// See that the directory is empty.
    CheckEmpty,
    /// Delete the directory.
    DeleteDirectory,
    /// Settle the journal.
    Resolve,
    /// The directory is gone.
    Done,
}

impl RemovalStep {
    /// The step after one that was done, where something looked for was
    /// found or not.
    pub open spec fn after(self, present: bool) -> RemovalStep {
        match self {
            RemovalStep::VerifyBoth => RemovalStep::Begin,
            RemovalStep::Begin => RemovalStep::DeleteMarker,
            RemovalStep::VerifyDirectoryThenMarker => if present {
                RemovalStep::VerifyMarker
            } else {
                RemovalStep::ArmDirectory
            },
            RemovalStep::VerifyMarker => RemovalStep::DeleteMarker,
            RemovalStep::DeleteMarker => RemovalStep::ArmDirectory,
            RemovalStep::ArmDirectory => RemovalStep::CheckEmpty,
            RemovalStep::FindDirectory => if present {
                RemovalStep::VerifyDirectory
            } else {
                RemovalStep::Resolve
            },
            RemovalStep::VerifyDirectory => RemovalStep::CheckEmpty,
            RemovalStep::CheckEmpty => RemovalStep::DeleteDirectory,
            RemovalStep::DeleteDirectory => RemovalStep::Resolve,
            RemovalStep::Resolve => RemovalStep::Done,
            RemovalStep::Done => RemovalStep::Done,
        }
    }

    /// The first step of a removal, or of taking up one that was under way.
    pub fn first(pending: Option<MaterializationRemovalPhase>) -> (step: RemovalStep)
        ensures
            step == (match pending {
                None => RemovalStep::VerifyBoth,
                Some(
                    MaterializationRemovalPhase::MarkerDeleteArmed,
                ) => RemovalStep::VerifyDirectoryThenMarker,
                Some(
                    MaterializationRemovalPhase::DirectoryDeleteArmed,
                ) => RemovalStep::FindDirectory,
            }),
    {
        match pending {
            None => RemovalStep::VerifyBoth,
            Some(MaterializationRemovalPhase::MarkerDeleteArmed) => {
                RemovalStep::VerifyDirectoryThenMarker
            },
            Some(MaterializationRemovalPhase::DirectoryDeleteArmed) => RemovalStep::FindDirectory,
        }
    }

    /// Takes the step after one that was done.
    pub fn advance(self, present: bool) -> (step: RemovalStep)
        ensures
            step == self.after(present),
    {
        match self {
            RemovalStep::VerifyBoth => RemovalStep::Begin,
            RemovalStep::Begin => RemovalStep::DeleteMarker,
            RemovalStep::VerifyDirectoryThenMarker => if present {
                RemovalStep::VerifyMarker
            } else {
                RemovalStep::ArmDirectory
            },
            RemovalStep::VerifyMarker => RemovalStep::DeleteMarker,
            RemovalStep::DeleteMarker => RemovalStep::ArmDirectory,
            RemovalStep::ArmDirectory => RemovalStep::CheckEmpty,
            RemovalStep::FindDirectory => if present {
                RemovalStep::VerifyDirectory
            } else {
                RemovalStep::Resolve
            },
            RemovalStep::VerifyDirectory => RemovalStep::CheckEmpty,
            RemovalStep::CheckEmpty => RemovalStep::DeleteDirectory,
            RemovalStep::DeleteDirectory => RemovalStep::Resolve,
            RemovalStep::Resolve => RemovalStep::Done,
            RemovalStep::Done => RemovalStep::Done,
        }
    }
}

/// A directory is deleted only after it was seen to be empty.
pub proof fn only_empty_directories_are_deleted(step: RemovalStep, present: bool)
    requires
        step.after(present) is DeleteDirectory,
    ensures
        step is CheckEmpty,
{
}

/// A marker is deleted only after it was checked: right before, or with the
/// directory before the removal was noted.
pub proof fn only_checked_markers_are_deleted(step: RemovalStep, present: bool)
    requires
        step.after(present) is DeleteMarker,
    ensures
        step is VerifyMarker || step is Begin,
        forall|before: RemovalStep, found: bool|
            step is Begin && #[trigger] before.after(found) == step ==> before is VerifyBoth,
{
}

/// Whether a directory that is to be removed is empty.
pub fn verify_empty(path: &NativePath, first_entry: Option<Result<(), i32>>) -> (result: Result<
    (),
    AclError,
>)
    ensures
        match first_entry {
            None => result is Ok,
            Some(Ok(_)) => result matches Err(error) && error@ == (
            AclErrorModel::MaterializationNotEmpty { path: path@ }),
            Some(Err(code)) => result matches Err(error) && error@ == (AclErrorModel::Enumerate {
                path: path@,
                code,
            }),
        },
{
    match first_entry {
        None => Ok(()),
        Some(Ok(_)) => Err(FilesystemAclError::MaterializationNotEmpty { path: path.clone() }),
        Some(Err(code)) => Err(FilesystemAclError::Enumerate { path: path.clone(), code }),
    }
}

/// Whether a deleted object is gone, where `armed` is the native status of
/// deleting it.
pub fn verify_deleted(path: &NativePath, armed: Result<(), u32>, presence: Presence) -> (result:
    Result<(), AclError>)
    ensures
        match (armed, presence) {
            (Err(code), _) => result matches Err(error) && error@ == (
            AclErrorModel::MaterializationRemove { path: path@, code }),
            (Ok(_), Presence::Missing) => result is Ok,
            (Ok(_), Presence::Failed { code }) => result matches Err(error) && error@ == (
            AclErrorModel::MaterializationMetadata { path: path@, code }),
            (Ok(_), Presence::Present) => result matches Err(error) && error@ == (
            AclErrorModel::MaterializationRemoveReadBack { path: path@ }),
        },
{
    match armed {
        Err(code) => Err(FilesystemAclError::MaterializationRemove { path: path.clone(), code }),
        Ok(_) => match presence {
            Presence::Missing => Ok(()),
            Presence::Failed { code } => Err(
                FilesystemAclError::MaterializationMetadata { path: path.clone(), code },
            ),
            Presence::Present => Err(
                FilesystemAclError::MaterializationRemoveReadBack { path: path.clone() },
            ),
        },
    }
}

/// What a new object's security descriptor is for.
#[derive(Clone, Copy, Debug, PartialEq, Eq, Structural)]
pub enum CreationDescriptorKind {
    /// A directory, and everything below it.
    Directory,
    /// A marker.
    Marker,
}

/// The security descriptor of a new object as text: its owner,
/// administrators and the system may do everything, no one else anything.
pub open spec fn creation_sddl(kind: CreationDescriptorKind, owner_sid: Seq<char>) -> Seq<char> {
    match kind {
        CreationDescriptorKind::Directory => "O:"@ + owner_sid + "D:P(A;OICI;FA;;;"@ + owner_sid
            + ")(A;OICI;FA;;;BA)(A;OICI;FA;;;SY)"@,
        CreationDescriptorKind::Marker => "O:"@ + owner_sid + "D:P(A;;FA;;;"@ + owner_sid
            + ")(A;;FA;;;BA)(A;;FA;;;SY)"@,
    }
}

impl CreationDescriptorKind {
    /// The security descriptor of a new object as text.
    pub fn sddl(self, owner_sid: &str) -> (sddl: String)
        ensures
            sddl@ == creation_sddl(self, owner_sid@),
    {
        let mut sddl = "O:".to_owned();
        sddl.append(owner_sid);
        match self {
            CreationDescriptorKind::Directory => {
                sddl.append("D:P(A;OICI;FA;;;");
                sddl.append(owner_sid);
                sddl.append(")(A;OICI;FA;;;BA)(A;OICI;FA;;;SY)");
            },
            CreationDescriptorKind::Marker => {
                sddl.append("D:P(A;;FA;;;");
                sddl.append(owner_sid);
                sddl.append(")(A;;FA;;;BA)(A;;FA;;;SY)");
            },
        }
        sddl
    }
}

/// Creating a directory goes on only where a step came to what it was for, and
/// fails for the cause that the step gave: what is there already was made by someone
/// else, directory and marker alike, and only a directory that is found there counts.
pub proof fn creation_failures_tell_their_cause<E>(step: CreationStep<E>, event: CreationEvent<E>)
    requires
        step.expects(event),
    ensures
        match event {
            CreationEvent::Finished(Ok(_)) | CreationEvent::Created(Ok(_)) => place(
                step.after(event),
            ) == place(step) + 1,
            CreationEvent::Finished(Err(error)) => step.after(event) == CreationStep::Failed(
                CreationFailure::Step(error),
            ),
            CreationEvent::Resolved(Ok(outcome)) => if outcome is Present {
                place(step.after(event)) == place(step) + 1
            } else {
                step.after(event) == CreationStep::<E>::Failed(CreationFailure::Outcome(outcome))
            },
            CreationEvent::Resolved(Err(error)) => step.after(event) == CreationStep::Failed(
                CreationFailure::Step(error),
            ),
            CreationEvent::Created(Err(code)) => step.after(event) matches CreationStep::Failed(
                failure,
            ) && (match failure {
                CreationFailure::Race => step is CreateDirectory && code == 183,
                CreationFailure::Create { code: told } => step is CreateDirectory && told == code
                    && code != 183,
                CreationFailure::MarkerRace => step is CreateMarker && code == 183,
                CreationFailure::MarkerCreate { code: told } => step is CreateMarker && told == code
                    && code != 183,
                _ => false,
            }),
        },
{
}

/// A nonce is what was drawn, unless that was nothing but zeros, of which one
/// changes; so no two draws but those two come to the same nonce.
pub proof fn nonces_are_as_drawn(drawn: Seq<u8>, other: Seq<u8>)
    requires
        drawn.len() > 0,
        other.len() == drawn.len(),
        exists|i: int| 0 <= i < drawn.len() && #[trigger] drawn[i] != 0,
    ensures
        usable_nonce(drawn) == drawn,
        usable_nonce(other).len() == other.len(),
        exists|i: int| 0 <= i < other.len() && #[trigger] usable_nonce(other)[i] != 0,
        usable_nonce(other) == other || forall|i: int|
            0 <= i < other.len() ==> #[trigger] other[i] == 0,
{
    if usable_nonce(other) != other {
        assert(usable_nonce(other)[0] == 1);
    } else if forall|i: int| 0 <= i < other.len() ==> other[i] == 0 {
        assert(other.update(0, 1)[0] == 1);
    }
}

/// A created object passes exactly where it could be looked at, belongs to whom
/// it has to, and has the list that it has to have; a marker also where its bytes are
/// the nonce.
pub proof fn accepted_objects_are_our_own<E>(
    path: PathModel,
    facts: Result<SecurityFacts, E>,
    expected: DaclModel,
    difference: AclErrorModel,
    contents: Result<Vec<u8>, E>,
    nonce: Seq<u8>,
)
    ensures
        security_failure(path, facts, expected, difference) is None <==> (facts matches Ok(seen)
            && seen.owner_matches && seen.descriptor@ == expected),
        contents_failure(path, contents, nonce) is None <==> (contents matches Ok(read) && read@
            == nonce),
        (facts matches Err(error) ==> security_failure(path, facts, expected, difference) == Some(
            CheckFailureModel::<E>::Read(error),
        )),
        (facts matches Ok(seen) ==> !seen.owner_matches ==> security_failure(
            path,
            facts,
            expected,
            difference,
        ) == Some(
            CheckFailureModel::<E>::Object(
                FilesystemAclError::MaterializationOwnerMismatch { path },
            ),
        )),
{
}

/// A created directory passes exactly where it and its marker do.
pub proof fn accepted_directories_have_their_marker<E>(
    path: PathModel,
    descriptor: DaclModel,
    marker: PathModel,
    marker_descriptor: DaclModel,
    nonce: Seq<u8>,
    directory_facts: Result<SecurityFacts, E>,
    marker_facts: Result<SecurityFacts, E>,
    contents: Result<Vec<u8>, E>,
    recorded: FilesystemObjectIdentity,
    identity: FilesystemObjectIdentity,
)
    ensures
        materialization_failure(
            path,
            descriptor,
            marker,
            marker_descriptor,
            nonce,
            directory_facts,
            marker_facts,
            contents,
        ) is None <==> (directory_facts matches Ok(directory) && directory.owner_matches
            && directory.descriptor@ == descriptor) && (marker_facts matches Ok(held)
            && held.owner_matches && held.descriptor@ == marker_descriptor) && (
        contents matches Ok(read) && read@ == nonce),
        cleanup_failure(path, path, recorded, identity, descriptor, directory_facts) is None <==> (
        directory_facts matches Ok(directory) && directory.owner_matches
            && directory.descriptor@ == descriptor) && recorded.volume_serial_number
            == identity.volume_serial_number && recorded.file_id@ == identity.file_id@,
{
}

/// A directory is created only where nothing is there, nothing of it is recorded
/// and it was not handled before; one that is there and is not our own is never taken
/// for it.
pub proof fn only_missing_directories_are_created(
    path: PathModel,
    handled: Seq<PathModel>,
    recorded: bool,
    presence: Presence,
)
    ensures
        ({
            let before = exists|i: int|
                0 <= i < handled.len() && (#[trigger] handled[i]).same_path(path);
            let action = component_action(path, handled, recorded, presence);
            &&& action == Ok::<ComponentAction, AclErrorModel>(ComponentAction::Retained) <==> before
            &&& action == Ok::<ComponentAction, AclErrorModel>(ComponentAction::VerifyRecorded)
                <==> !before && recorded
            &&& action == Ok::<ComponentAction, AclErrorModel>(ComponentAction::Create)
                <==> !before && !recorded && presence is Missing
            &&& action is Err <==> !before && !recorded && !(presence is Missing)
            &&& action matches Err(error) ==> match presence {
                Presence::Present => error == (AclErrorModel::MaterializationRace { path }),
                Presence::Failed { code } => error == (AclErrorModel::MaterializationMetadata {
                    path,
                    code,
                }),
                Presence::Missing => false,
            }
        }),
{
}

impl RemovalStep {
    /// How many steps are left at most.
    pub open spec fn left(self) -> int {
        match self {
            RemovalStep::VerifyBoth => 8,
            RemovalStep::Begin => 7,
            RemovalStep::VerifyDirectoryThenMarker => 8,
            RemovalStep::VerifyMarker => 7,
            RemovalStep::DeleteMarker => 6,
            RemovalStep::ArmDirectory => 5,
            RemovalStep::FindDirectory => 6,
            RemovalStep::VerifyDirectory => 5,
            RemovalStep::CheckEmpty => 4,
            RemovalStep::DeleteDirectory => 3,
            RemovalStep::Resolve => 2,
            RemovalStep::Done => 1,
        }
    }
}

/// A removal comes to an end, checks what it deletes, and passes nothing over
/// that is there: it settles only once the directory was deleted or found missing,
/// and arms the directory only once the marker was deleted or found missing.
pub proof fn removals_come_to_an_end(step: RemovalStep, present: bool)
    ensures
        !(step is Done) ==> step.after(present).left() < step.left(),
        step.after(present) is Done ==> step is Resolve || step is Done,
        step.after(present) is Resolve ==> step is DeleteDirectory || step is FindDirectory
            && !present,
        step.after(present) is ArmDirectory ==> step is DeleteMarker || step
            is VerifyDirectoryThenMarker && !present,
        step.after(present) is CheckEmpty ==> step is ArmDirectory || step is VerifyDirectory,
        step.after(present) is VerifyMarker ==> step is VerifyDirectoryThenMarker && present,
        step.after(present) is VerifyDirectory ==> step is FindDirectory && present,
        step is DeleteMarker ==> step.after(present) is ArmDirectory,
        step is ArmDirectory ==> step.after(present) is CheckEmpty,
        !(step.after(present) is VerifyBoth),
        !(step.after(present) is FindDirectory),
        !(step.after(present) is VerifyDirectoryThenMarker),
{
}

} // verus!
