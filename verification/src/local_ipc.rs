//! Named pipes that a launch may use: which ones, and how their access-control
//! lists are changed for the launch and put back after it.

use vstd::prelude::*;

use crate::acl_mutation;
use crate::acl_mutation::{DaclModel, ExplicitEntry, ExplicitModel, PersistedDacl};
use crate::descriptors;
use crate::descriptors::{ObservedAcl, SE_DACL_PROTECTED};
use crate::random_sid;
use crate::text;

verus! {

/// The rights that are asked for on a pipe whose list is changed: to read and
/// write the list and to read the attributes.
pub const PIPE_OPEN_ACCESS: u32 = 0x0006_0080;

/// What a rule is about, with names of type `S`.
#[derive(Debug)]
pub enum LocalIpcEndpoint<S> {
    /// A named pipe.
    WindowsNamedPipe(S),
    /// A socket in a file system.
    UnixSocket(S),
}

/// A rule of a policy.
#[derive(Debug)]
pub struct LocalIpcRule<S> {
    /// What it is about.
    pub endpoint: LocalIpcEndpoint<S>,
    /// Whether it forbids.
    pub denied: bool,
}

impl View for LocalIpcRule<String> {
    type V = LocalIpcRule<Seq<char>>;

    open spec fn view(&self) -> LocalIpcRule<Seq<char>> {
        LocalIpcRule {
            endpoint: match self.endpoint {
                LocalIpcEndpoint::WindowsNamedPipe(name) => LocalIpcEndpoint::WindowsNamedPipe(
                    name@,
                ),
                LocalIpcEndpoint::UnixSocket(path) => LocalIpcEndpoint::UnixSocket(path@),
            },
            denied: self.denied,
        }
    }
}

/// Why pipes cannot be opened to a launch, with names of type `S` and failures
/// of the state store of type `E`.
#[derive(Debug)]
#[allow(inconsistent_fields)]
pub enum WindowsLocalIpcError<S, E> {
    /// The state store failed.
    Lock(E),
    /// A rule forbids a pipe.
    DenyRule {
        /// The pipe.
        name: S,
    },
    /// A rule is about a socket in a file system.
    PosixEndpoint {
        /// The socket.
        endpoint: S,
    },
    /// The random number source failed.
    SidGeneration {
        /// Its failure.
        source: getrandom::Error,
    },
    /// A pipe's list could not be read.
    DescriptorRead {
        /// The pipe.
        name: S,
        /// The native status.
        code: u32,
    },
    /// A pipe has no complete list.
    DescriptorInvalid {
        /// The pipe.
        name: S,
    },
    /// A pipe's new list could not be made.
    DescriptorBuild {
        /// The pipe.
        name: S,
        /// The native status.
        code: u32,
    },
    /// A pipe's list could not be written.
    DescriptorWrite {
        /// The pipe.
        name: S,
        /// The native status.
        code: u32,
    },
    /// A pipe's list does not hold the launch's identity.
    DescriptorReadBack {
        /// The pipe.
        name: S,
    },
    /// A pipe's list was changed by someone else.
    DescriptorDrift {
        /// The pipe.
        name: S,
    },
    /// A pipe's list could not be put back.
    DescriptorRestore {
        /// The pipe.
        name: S,
        /// The native status.
        code: u32,
    },
}

impl<E> View for WindowsLocalIpcError<String, E> {
    type V = WindowsLocalIpcError<Seq<char>, E>;

    open spec fn view(&self) -> WindowsLocalIpcError<Seq<char>, E> {
        match *self {
            WindowsLocalIpcError::Lock(error) => WindowsLocalIpcError::Lock(error),
            WindowsLocalIpcError::DenyRule { name } => WindowsLocalIpcError::DenyRule {
                name: name@,
            },
            WindowsLocalIpcError::PosixEndpoint { endpoint } =>
                WindowsLocalIpcError::PosixEndpoint { endpoint: endpoint@ },
            WindowsLocalIpcError::SidGeneration { source } => WindowsLocalIpcError::SidGeneration {
                source,
            },
            WindowsLocalIpcError::DescriptorRead { name, code } =>
                WindowsLocalIpcError::DescriptorRead { name: name@, code },
            WindowsLocalIpcError::DescriptorInvalid { name } =>
                WindowsLocalIpcError::DescriptorInvalid { name: name@ },
            WindowsLocalIpcError::DescriptorBuild { name, code } =>
                WindowsLocalIpcError::DescriptorBuild { name: name@, code },
            WindowsLocalIpcError::DescriptorWrite { name, code } =>
                WindowsLocalIpcError::DescriptorWrite { name: name@, code },
            WindowsLocalIpcError::DescriptorReadBack { name } =>
                WindowsLocalIpcError::DescriptorReadBack { name: name@ },
            WindowsLocalIpcError::DescriptorDrift { name } =>
                WindowsLocalIpcError::DescriptorDrift { name: name@ },
            WindowsLocalIpcError::DescriptorRestore { name, code } =>
                WindowsLocalIpcError::DescriptorRestore { name: name@, code },
        }
    }
}

/// The rules of a layer, as they read.
pub open spec fn rule_models(rules: Seq<LocalIpcRule<String>>) -> Seq<LocalIpcRule<Seq<char>>> {
    Seq::new(rules.len(), |i: int| rules[i]@)
}

/// The rules of all layers, one layer after the other.
pub open spec fn all_rules(layers: Seq<Vec<LocalIpcRule<String>>>) -> Seq<LocalIpcRule<Seq<char>>>
    decreases layers.len(),
{
    if layers.len() == 0 {
        Seq::empty()
    } else {
        all_rules(layers.drop_last()) + rule_models(layers.last()@)
    }
}

/// Names with one more, unless it is there.
pub open spec fn with_name(names: Seq<Seq<char>>, name: Seq<char>) -> Seq<Seq<char>> {
    if names.contains(name) {
        names
    } else {
        names.push(name)
    }
}

/// The pipes that rules let a launch use, each once, in order; or the first
/// rule that cannot be enforced.
pub open spec fn pipe_names_of<E>(rules: Seq<LocalIpcRule<Seq<char>>>) -> Result<
    Seq<Seq<char>>,
    WindowsLocalIpcError<Seq<char>, E>,
>
    decreases rules.len(),
{
    if rules.len() == 0 {
        Ok(Seq::empty())
    } else {
        match pipe_names_of::<E>(rules.drop_last()) {
            Err(error) => Err(error),
            Ok(names) => match rules.last().endpoint {
                LocalIpcEndpoint::WindowsNamedPipe(name) => if rules.last().denied {
                    Err(WindowsLocalIpcError::DenyRule { name })
                } else {
                    Ok(with_name(names, name))
                },
                LocalIpcEndpoint::UnixSocket(path) => Err(
                    WindowsLocalIpcError::PosixEndpoint { endpoint: path },
                ),
            },
        }
    }
}

/// Once rules cannot be enforced, more rules do not help.
proof fn failure_stays<E>(rules: Seq<LocalIpcRule<Seq<char>>>, count: int)
    requires
        0 <= count <= rules.len(),
        pipe_names_of::<E>(rules.take(count)) is Err,
    ensures
        pipe_names_of::<E>(rules) == pipe_names_of::<E>(rules.take(count)),
    decreases rules.len(),
{
    if count < rules.len() {
        assert(rules.drop_last().take(count) =~= rules.take(count));
        failure_stays::<E>(rules.drop_last(), count);
    } else {
        assert(rules.take(count) =~= rules);
    }
}

/// The rules of the first layers come first.
proof fn first_layers_first(layers: Seq<Vec<LocalIpcRule<String>>>, count: int)
    requires
        0 <= count <= layers.len(),
    ensures
        all_rules(layers.take(count)).len() <= all_rules(layers).len(),
        all_rules(layers).take(all_rules(layers.take(count)).len() as int) == all_rules(
            layers.take(count),
        ),
    decreases layers.len(),
{
    if count < layers.len() {
        first_layers_first(layers.drop_last(), count);
        assert(layers.drop_last().take(count) =~= layers.take(count));
        let first = all_rules(layers.take(count));
        let most = all_rules(layers.drop_last());
        assert(all_rules(layers).take(first.len() as int) =~= most.take(first.len() as int));
    } else {
        assert(layers.take(count) =~= layers);
        assert(all_rules(layers).take(all_rules(layers).len() as int) =~= all_rules(layers));
    }
}

/// Whether a name is in a list.
fn lists_name(names: &Vec<String>, name: &str) -> (yes: bool)
    ensures
        yes == text::texts(names@).contains(name@),
{
    for i in 0..names.len()
        invariant
            forall|j: int| 0 <= j < i ==> text::texts(names@)[j] != name@,
    {
        assert(text::texts(names@)[i as int] == names@[i as int]@);
        if text::same_text(names[i].as_str(), name) {
            assert(text::texts(names@)[i as int] == name@);
            return true;
        }
    }
    false
}

/// The pipes that a policy's layers let a launch use.
pub fn pipe_names<E>(layers: &Vec<Vec<LocalIpcRule<String>>>) -> (names: Result<
    Vec<String>,
    WindowsLocalIpcError<String, E>,
>)
    ensures
        match names {
            Ok(list) => pipe_names_of::<E>(all_rules(layers@)) == Ok::<
                Seq<Seq<char>>,
                WindowsLocalIpcError<Seq<char>, E>,
            >(text::texts(list@)),
            Err(error) => pipe_names_of::<E>(all_rules(layers@)) == Err::<
                Seq<Seq<char>>,
                WindowsLocalIpcError<Seq<char>, E>,
            >(error@),
        },
{
    let mut names: Vec<String> = Vec::new();
    let ghost whole = all_rules(layers@);
    assert(text::texts(names@) =~= Seq::<Seq<char>>::empty());
    assert(layers@.take(0) =~= Seq::<Vec<LocalIpcRule<String>>>::empty());
    for i in 0..layers.len()
        invariant
            whole == all_rules(layers@),
            pipe_names_of::<E>(all_rules(layers@.take(i as int))) == Ok::<
                Seq<Seq<char>>,
                WindowsLocalIpcError<Seq<char>, E>,
            >(text::texts(names@)),
    {
        let rules = &layers[i];
        let ghost before = all_rules(layers@.take(i as int));
        let ghost models = rule_models(rules@);
        proof {
            assert(layers@.take(i + 1).drop_last() =~= layers@.take(i as int));
            assert(all_rules(layers@.take(i + 1)) == before + models);
            first_layers_first(layers@, i + 1);
            assert(before + models.take(0) =~= before);
        }
        for k in 0..rules.len()
            invariant
                i < layers@.len(),
                rules == layers@[i as int],
                models == rule_models(rules@),
                before == all_rules(layers@.take(i as int)),
                whole == all_rules(layers@),
                (before + models).len() <= whole.len(),
                whole.take((before + models).len() as int) == before + models,
                pipe_names_of::<E>(before + models.take(k as int)) == Ok::<
                    Seq<Seq<char>>,
                    WindowsLocalIpcError<Seq<char>, E>,
                >(text::texts(names@)),
        {
            let ghost now = before + models.take(k + 1);
            proof {
                assert(now.drop_last() =~= before + models.take(k as int));
                assert(now.last() == rules@[k as int]@);
                let seen = (before.len() + k + 1) as int;
                assert(whole.take(seen) =~= now) by {
                    assert forall|j: int| 0 <= j < seen implies whole.take(seen)[j] == now[j] by {
                        assert(whole.take((before + models).len() as int)[j] == (before
                            + models)[j]);
                    }
                }
                if pipe_names_of::<E>(now) is Err {
                    failure_stays::<E>(whole, seen);
                }
            }
            match &rules[k].endpoint {
                LocalIpcEndpoint::WindowsNamedPipe(name) => {
                    if rules[k].denied {
                        return Err(
                            WindowsLocalIpcError::DenyRule { name: name.as_str().to_owned() },
                        );
                    }
                    if !lists_name(&names, name.as_str()) {
                        let ghost listed = names@;
                        names.push(name.as_str().to_owned());
                        assert(text::texts(names@) =~= text::texts(listed).push(name@));
                    }
                },
                LocalIpcEndpoint::UnixSocket(path) => {
                    return Err(
                        WindowsLocalIpcError::PosixEndpoint {
                            endpoint: path.as_str().to_owned(),
                        },
                    );
                },
            }
        }
        assert(models.take(rules@.len() as int) =~= models);
    }
    assert(layers@.take(layers@.len() as int) =~= layers@);
    Ok(names)
}

/// The pipes that rules come to are those of the rules, each once.
pub proof fn names_are_the_granted_pipes<E>(rules: Seq<LocalIpcRule<Seq<char>>>)
    ensures
        pipe_names_of::<E>(rules) matches Ok(names) ==> names.no_duplicates() && (forall|
            name: Seq<char>,
        |
            names.contains(name) <==> exists|i: int|
                0 <= i < rules.len() && (#[trigger] rules[i]).endpoint
                    == LocalIpcEndpoint::WindowsNamedPipe(name)) && (forall|i: int|
            0 <= i < rules.len() ==> !(#[trigger] rules[i]).denied && rules[i].endpoint
                is WindowsNamedPipe),
    decreases rules.len(),
{
    if rules.len() > 0 && pipe_names_of::<E>(rules) is Ok {
        let rest = rules.drop_last();
        names_are_the_granted_pipes::<E>(rest);
        let names = pipe_names_of::<E>(rules)->Ok_0;
        let before = pipe_names_of::<E>(rest)->Ok_0;
        let last = rules.last().endpoint->WindowsNamedPipe_0;
        assert(names == with_name(before, last));
        assert forall|name: Seq<char>| names.contains(name) <==> exists|i: int|
            0 <= i < rules.len() && (#[trigger] rules[i]).endpoint
                == LocalIpcEndpoint::WindowsNamedPipe(name) by {
            if names.contains(name) {
                let at = choose|at: int| 0 <= at < names.len() && names[at] == name;
                if name == last {
                    assert(rules[rules.len() - 1].endpoint == LocalIpcEndpoint::WindowsNamedPipe(
                        name,
                    ));
                } else {
                    assert(before[at] == name);
                    assert(before.contains(name));
                    let i = choose|i: int|
                        0 <= i < rest.len() && (#[trigger] rest[i]).endpoint
                            == LocalIpcEndpoint::WindowsNamedPipe(name);
                    assert(rules[i] == rest[i]);
                }
            }
            if exists|i: int|
                0 <= i < rules.len() && (#[trigger] rules[i]).endpoint
                    == LocalIpcEndpoint::WindowsNamedPipe(name) {
                let i = choose|i: int|
                    0 <= i < rules.len() && (#[trigger] rules[i]).endpoint
                        == LocalIpcEndpoint::WindowsNamedPipe(name);
                if i < rest.len() {
                    assert(rest[i] == rules[i]);
                    assert(before.contains(name));
                    let at = choose|at: int| 0 <= at < before.len() && before[at] == name;
                    assert(names[at] == name);
                } else {
                    assert(name == last);
                    if before.contains(last) {
                    } else {
                        assert(names[before.len() as int] == name);
                    }
                }
            }
        }
        assert forall|i: int| 0 <= i < rules.len() implies !(#[trigger] rules[i]).denied
            && rules[i].endpoint is WindowsNamedPipe by {
            if i < rest.len() {
                assert(rest[i] == rules[i]);
            }
        }
    }
}

/// The identity that lets a launch use its pipes, as it was drawn.
pub fn capability_sid_from_drawn<E>(drawn: Result<String, getrandom::Error>) -> (sid: Result<
    String,
    WindowsLocalIpcError<String, E>,
>)
    ensures
        match drawn {
            Ok(text) => sid == Ok::<String, WindowsLocalIpcError<String, E>>(text),
            Err(source) => sid == Err::<String, WindowsLocalIpcError<String, E>>(
                WindowsLocalIpcError::SidGeneration { source },
            ),
        },
{
    match drawn {
        Ok(text) => Ok(text),
        Err(source) => Err(WindowsLocalIpcError::SidGeneration { source }),
    }
}

/// Draws the identity that lets a launch use its pipes.
pub fn random_capability_sid<E>() -> (sid: Result<String, WindowsLocalIpcError<String, E>>)
    ensures
        match sid {
            Ok(drawn) => random_sid::is_random_sid(drawn@),
            Err(error) => error is SidGeneration,
        },
{
    capability_sid_from_drawn(random_sid::draw_sid())
}

/// What was read of a pipe's descriptor.
#[derive(Debug)]
pub struct PipeDescriptorRead {
    /// The native status.
    pub status: u32,
    /// Whether there is a descriptor with a list.
    pub present: bool,
    /// The list's bytes in use, where their number could be had.
    pub used: Option<Vec<u8>>,
    /// The control bits, where they could be had.
    pub control: Option<u16>,
}

/// The list of a pipe, as it was read.
pub fn read_snapshot<E>(name: &str, read: PipeDescriptorRead) -> (snapshot: Result<
    PersistedDacl,
    WindowsLocalIpcError<String, E>,
>)
    ensures
        match snapshot {
            Ok(dacl) => read.status == 0 && read.present && (read.used matches Some(used)
                && acl_mutation::MIN_DACL_BYTES <= used@.len() <= acl_mutation::MAX_DACL_BYTES
                && dacl@.bytes == used@) && (read.control matches Some(control) && dacl@.protected
                == (control & SE_DACL_PROTECTED != 0)),
            Err(error) => if read.status != 0 {
                error@ == (WindowsLocalIpcError::<Seq<char>, E>::DescriptorRead {
                    name: name@,
                    code: read.status,
                })
            } else {
                error@ == (WindowsLocalIpcError::<Seq<char>, E>::DescriptorInvalid { name: name@ })
                    && (!read.present || read.control is None || !(read.used matches Some(used)
                    && acl_mutation::MIN_DACL_BYTES <= used@.len() <= acl_mutation::MAX_DACL_BYTES))
            },
        },
{
    if read.status != 0 {
        return Err(
            WindowsLocalIpcError::DescriptorRead { name: name.to_owned(), code: read.status },
        );
    }
    if !read.present {
        return Err(WindowsLocalIpcError::DescriptorInvalid { name: name.to_owned() });
    }
    match (read.used, read.control) {
        (Some(used), Some(control)) => {
            if used.len() < acl_mutation::MIN_DACL_BYTES || used.len()
                > acl_mutation::MAX_DACL_BYTES {
                return Err(WindowsLocalIpcError::DescriptorInvalid { name: name.to_owned() });
            }
            Ok(PersistedDacl { bytes: used, protected: control & SE_DACL_PROTECTED != 0 })
        },
        _ => Err(WindowsLocalIpcError::DescriptorInvalid { name: name.to_owned() }),
    }
}

/// The list that was made for a pipe: it protects as the old one does.
pub fn snapshot_from_acl<E>(name: &str, used: Option<Vec<u8>>, protected: bool) -> (snapshot:
    Result<PersistedDacl, WindowsLocalIpcError<String, E>>)
    ensures
        match snapshot {
            Ok(dacl) => used matches Some(bytes) && acl_mutation::MIN_DACL_BYTES <= bytes@.len()
                <= acl_mutation::MAX_DACL_BYTES && dacl@ == (DaclModel { bytes: bytes@, protected }),
            Err(error) => error@ == (WindowsLocalIpcError::<Seq<char>, E>::DescriptorInvalid {
                name: name@,
            }) && !(used matches Some(bytes) && acl_mutation::MIN_DACL_BYTES <= bytes@.len()
                <= acl_mutation::MAX_DACL_BYTES),
        },
{
    match used {
        Some(bytes) => {
            if bytes.len() < acl_mutation::MIN_DACL_BYTES || bytes.len()
                > acl_mutation::MAX_DACL_BYTES {
                return Err(WindowsLocalIpcError::DescriptorInvalid { name: name.to_owned() });
            }
            Ok(PersistedDacl { bytes, protected })
        },
        None => Err(WindowsLocalIpcError::DescriptorInvalid { name: name.to_owned() }),
    }
}

/// The native access mode that adds rights.
pub const GRANT_ACCESS: i32 = 1;

/// The entry that lets someone use a pipe.
pub open spec fn pipe_grant(sid: Seq<u8>) -> ExplicitModel {
    ExplicitModel { sid, mode: GRANT_ACCESS, mask: descriptors::PIPE_ACCESS_MASK, inheritance: 0 }
}

/// The entries by which a pipe's list is extended for a launch: its
/// capability and the account that it runs under may use the pipe.
pub fn build_granted_acl(capability: Vec<u8>, account: Vec<u8>) -> (entries: Vec<ExplicitEntry>)
    ensures
        acl_mutation::explicit_models(entries@) == seq![
            pipe_grant(capability@),
            pipe_grant(account@),
        ],
{
    let mut entries: Vec<ExplicitEntry> = Vec::new();
    entries.push(
        ExplicitEntry {
            sid: capability,
            mode: GRANT_ACCESS,
            mask: descriptors::PIPE_ACCESS_MASK,
            inheritance: 0,
        },
    );
    entries.push(
        ExplicitEntry {
            sid: account,
            mode: GRANT_ACCESS,
            mask: descriptors::PIPE_ACCESS_MASK,
            inheritance: 0,
        },
    );
    assert(acl_mutation::explicit_models(entries@) =~= seq![
        pipe_grant(capability@),
        pipe_grant(account@),
    ]);
    entries
}

/// What making a pipe's new list came to. A call that gave no list in spite of
/// its status says why in the thread's last error.
pub fn built_acl<E>(name: &str, status: u32, given: bool, last_error: u32) -> (result: Result<
    (),
    WindowsLocalIpcError<String, E>,
>)
    ensures
        match result {
            Ok(_) => status == 0 && given,
            Err(error) => !(status == 0 && given) && error@ == (WindowsLocalIpcError::<
                Seq<char>,
                E,
            >::DescriptorBuild {
                name: name@,
                code: if status == 0 {
                    last_error
                } else {
                    status
                },
            }),
        },
{
    if status == 0 && given {
        Ok(())
    } else {
        let code: u32 = if status == 0 {
            last_error
        } else {
            status
        };
        Err(WindowsLocalIpcError::DescriptorBuild { name: name.to_owned(), code })
    }
}

/// What putting a pipe's list back came to.
pub fn restored<E>(name: &str, status: u32) -> (result: Result<
    (),
    WindowsLocalIpcError<String, E>,
>)
    ensures
        match result {
            Ok(_) => status == 0,
            Err(error) => status != 0 && error@ == (WindowsLocalIpcError::<
                Seq<char>,
                E,
            >::DescriptorRestore { name: name@, code: status }),
        },
{
    if status == 0 {
        Ok(())
    } else {
        Err(WindowsLocalIpcError::DescriptorRestore { name: name.to_owned(), code: status })
    }
}

/// Whether a pipe's list lets the launch and the runner's account use it.
pub fn grants_both(acl: &ObservedAcl, capability: &Vec<u8>, account: &Vec<u8>) -> (yes: bool)
    ensures
        yes == (descriptors::lets_use_pipe(*acl, capability@) && descriptors::lets_use_pipe(
            *acl,
            account@,
        )),
{
    descriptors::snapshot_contains_sid(acl, capability) && descriptors::snapshot_contains_sid(
        acl,
        account,
    )
}

/// The next step of opening one pipe to a launch, or what it came to.
#[derive(Debug)]
pub enum PipeStep<E> {
    /// Open the pipe, read its list and make the new one.
    Prepare,
    /// Note the change in the state store.
    Journal,
    /// Read the two identities.
    ParseSids,
    /// Write the new list.
    Write,
    /// Read the list back.
    ReadBack,
    /// Write the old list: the new one is not as it has to be.
    WriteBack {
        /// Why.
        error: WindowsLocalIpcError<String, E>,
    },
    /// Note the list as it was read back.
    UpdateJournal,
    /// Put the old list back, as far as possible.
    Restore {
        /// Why.
        error: WindowsLocalIpcError<String, E>,
    },
    /// The pipe is open to the launch.
    Done,
    /// It could not be opened.
    Failed {
        /// Why.
        error: WindowsLocalIpcError<String, E>,
    },
}

/// What came of a step.
#[derive(Debug)]
pub enum PipeEvent<E> {
    /// It succeeded, or failed.
    Done(Result<(), WindowsLocalIpcError<String, E>>),
    /// The list was read back, and whether it lets the launch and the runner's
    /// account use the pipe.
    ReadBack(Result<bool, WindowsLocalIpcError<String, E>>),
    /// It was tried.
    Tried,
}

impl<E> PipeStep<E> {
    /// Whether an event can come of the step.
    pub open spec fn expects(self, event: PipeEvent<E>) -> bool {
        match self {
            PipeStep::Prepare
            | PipeStep::Journal
            | PipeStep::ParseSids
            | PipeStep::Write
            | PipeStep::UpdateJournal => event is Done,
            PipeStep::ReadBack => event is ReadBack,
            PipeStep::WriteBack { .. } | PipeStep::Restore { .. } => event is Tried,
            PipeStep::Done | PipeStep::Failed { .. } => false,
        }
    }

    /// Whether a step follows an event on a pipe.
    pub open spec fn leads_to(self, event: PipeEvent<E>, name: Seq<char>, next: PipeStep<E>) -> bool {
        match (self, event) {
            (PipeStep::Prepare, PipeEvent::Done(Ok(_))) => next is Journal,
            (PipeStep::Journal, PipeEvent::Done(Ok(_))) => next is ParseSids,
            (PipeStep::ParseSids, PipeEvent::Done(Ok(_))) => next is Write,
            (PipeStep::Write, PipeEvent::Done(Ok(_))) => next is ReadBack,
            (PipeStep::UpdateJournal, PipeEvent::Done(Ok(_))) => next is Done,
            (PipeStep::Prepare, PipeEvent::Done(Err(error)))
            | (PipeStep::Journal, PipeEvent::Done(Err(error))) => next == PipeStep::Failed {
                error,
            },
            (PipeStep::ParseSids, PipeEvent::Done(Err(error)))
            | (PipeStep::Write, PipeEvent::Done(Err(error)))
            | (PipeStep::UpdateJournal, PipeEvent::Done(Err(error))) => next == PipeStep::Restore {
                error,
            },
            (PipeStep::ReadBack, PipeEvent::ReadBack(Ok(granted))) => if granted {
                next is UpdateJournal
            } else {
                next matches PipeStep::WriteBack { error } && error@ == (WindowsLocalIpcError::<
                    Seq<char>,
                    E,
                >::DescriptorReadBack { name })
            },
            (PipeStep::ReadBack, PipeEvent::ReadBack(Err(error))) => next == PipeStep::WriteBack {
                error,
            },
            (PipeStep::WriteBack { error }, PipeEvent::Tried) => next == PipeStep::Restore {
                error,
            },
            (PipeStep::Restore { error }, PipeEvent::Tried) => next == PipeStep::Failed { error },
            _ => next == self,
        }
    }

    /// Takes the step after an event on a pipe.
    pub fn advance(self, event: PipeEvent<E>, name: &str) -> (step: PipeStep<E>)
        requires
            self.expects(event),
        ensures
            self.leads_to(event, name@, step),
    {
        match (self, event) {
            (PipeStep::Prepare, PipeEvent::Done(Ok(_))) => PipeStep::Journal,
            (PipeStep::Journal, PipeEvent::Done(Ok(_))) => PipeStep::ParseSids,
            (PipeStep::ParseSids, PipeEvent::Done(Ok(_))) => PipeStep::Write,
            (PipeStep::Write, PipeEvent::Done(Ok(_))) => PipeStep::ReadBack,
            (PipeStep::UpdateJournal, PipeEvent::Done(Ok(_))) => PipeStep::Done,
            (PipeStep::Prepare, PipeEvent::Done(Err(error))) => PipeStep::Failed { error },
            (PipeStep::Journal, PipeEvent::Done(Err(error))) => PipeStep::Failed { error },
            (PipeStep::ParseSids, PipeEvent::Done(Err(error))) => PipeStep::Restore { error },
            (PipeStep::Write, PipeEvent::Done(Err(error))) => PipeStep::Restore { error },
            (PipeStep::UpdateJournal, PipeEvent::Done(Err(error))) => PipeStep::Restore { error },
            (PipeStep::ReadBack, PipeEvent::ReadBack(Ok(granted))) => if granted {
                PipeStep::UpdateJournal
            } else {
                PipeStep::WriteBack {
                    error: WindowsLocalIpcError::DescriptorReadBack { name: name.to_owned() },
                }
            },
            (PipeStep::ReadBack, PipeEvent::ReadBack(Err(error))) => PipeStep::WriteBack { error },
            (PipeStep::WriteBack { error }, PipeEvent::Tried) => PipeStep::Restore { error },
            (PipeStep::Restore { error }, PipeEvent::Tried) => PipeStep::Failed { error },
            (step, _) => step,
        }
    }
}

/// A pipe's list is written only after the change was noted, the pipe counts
/// as open only after its list was seen to let the launch use it, and after a
/// write that came to nothing the old list is put back.
pub proof fn pipe_changes_are_noted_and_checked<E>(
    step: PipeStep<E>,
    event: PipeEvent<E>,
    name: Seq<char>,
    next: PipeStep<E>,
)
    requires
        step.expects(event),
        step.leads_to(event, name, next),
    ensures
        next is ParseSids ==> step is Journal,
        next is Write ==> step is ParseSids,
        next is UpdateJournal ==> event == PipeEvent::<E>::ReadBack(Ok(true)),
        next is Done ==> step is UpdateJournal,
        next is Failed ==> step is Prepare || step is Journal || step is Restore,
{
}

/// A pipe whose list was changed for a launch.
#[derive(Debug)]
pub struct NamedPipeAcl {
    /// The pipe.
    pub name: String,
    /// Its list before the launch.
    pub original: PersistedDacl,
    /// Its list for the launch.
    pub after: PersistedDacl,
}

/// Whether a recorded list has a length that a list can have.
pub open spec fn is_recorded_list(dacl: DaclModel) -> bool {
    acl_mutation::MIN_DACL_BYTES <= dacl.bytes.len() <= acl_mutation::MAX_DACL_BYTES
}

impl NamedPipeAcl {
    /// Whether both lists that are recorded of the pipe can be lists.
    pub open spec fn is_usable(self) -> bool {
        is_recorded_list(self.original@) && is_recorded_list(self.after@)
    }

    /// Whether both lists that are recorded of the pipe can be lists.
    pub fn usable(&self) -> (usable: bool)
        ensures
            usable == self.is_usable(),
    {
        let original: usize = self.original.bytes.len();
        let after: usize = self.after.bytes.len();
        acl_mutation::MIN_DACL_BYTES <= original && original <= acl_mutation::MAX_DACL_BYTES
            && acl_mutation::MIN_DACL_BYTES <= after && after <= acl_mutation::MAX_DACL_BYTES
    }
}

/// Whether an abandoned pipe's list is put back: only as long as it is as it
/// was left.
pub fn restores_on_drop(pipe: &NamedPipeAcl, released: bool, current: &Option<PersistedDacl>) -> (
    restore: bool)
    ensures
        restore == (!released && (current matches Some(dacl) && dacl@ == pipe.after@)),
{
    if released {
        return false;
    }
    match current {
        Some(dacl) => acl_mutation::same_dacl(dacl, &pipe.after),
        None => false,
    }
}

/// The next step of putting a pipe's list back, or what it came to.
#[derive(Debug)]
pub enum PutBackStep<E> {
    /// Read the list.
    Read,
    /// Write the old list.
    Write,
    /// Read the list back.
    ReadBack,
    /// Take the pipe out of the state store.
    Resolve,
    /// The pipe is as it was.
    Done,
    /// It is not.
    Failed {
        /// Why.
        error: WindowsLocalIpcError<String, E>,
    },
}

/// What came of a step.
#[derive(Debug)]
pub enum PutBackEvent<E> {
    /// The list.
    Read(Result<PersistedDacl, WindowsLocalIpcError<String, E>>),
    /// It succeeded, or failed.
    Done(Result<(), WindowsLocalIpcError<String, E>>),
}

impl<E> PutBackStep<E> {
    /// Whether an event can come of the step.
    pub open spec fn expects(self, event: PutBackEvent<E>) -> bool {
        match self {
            PutBackStep::Read | PutBackStep::ReadBack => event is Read,
            PutBackStep::Write | PutBackStep::Resolve => event is Done,
            PutBackStep::Done | PutBackStep::Failed { .. } => false,
        }
    }

    /// Whether a step follows an event on a pipe. Of a pipe that is left over
    /// from an earlier process the recorded lists are checked, and it may be
    /// as it was already.
    pub open spec fn leads_to(
        self,
        event: PutBackEvent<E>,
        pipe: NamedPipeAcl,
        left_over: bool,
        next: PutBackStep<E>,
    ) -> bool {
        let drift = WindowsLocalIpcError::<Seq<char>, E>::DescriptorDrift { name: pipe.name@ };
        match (self, event) {
            (PutBackStep::Read, PutBackEvent::Read(Ok(dacl))) => if left_over
                && !pipe.is_usable() {
                next matches PutBackStep::Failed { error } && error@ == (WindowsLocalIpcError::<
                    Seq<char>,
                    E,
                >::DescriptorInvalid { name: pipe.name@ })
            } else if left_over && dacl@ == pipe.original@ {
                next is Resolve
            } else if dacl@ == pipe.after@ {
                next is Write
            } else {
                next matches PutBackStep::Failed { error } && error@ == drift
            },
            (PutBackStep::Write, PutBackEvent::Done(Ok(_))) => next is ReadBack,
            (PutBackStep::ReadBack, PutBackEvent::Read(Ok(dacl))) => if dacl@ == pipe.original@ {
                next is Resolve
            } else {
                next matches PutBackStep::Failed { error } && error@ == drift
            },
            (PutBackStep::Resolve, PutBackEvent::Done(Ok(_))) => next is Done,
            (_, PutBackEvent::Read(Err(error))) | (_, PutBackEvent::Done(Err(error))) => next
                == PutBackStep::Failed { error },
            _ => next == self,
        }
    }

    /// Takes the step after an event on a pipe.
    pub fn advance(self, event: PutBackEvent<E>, pipe: &NamedPipeAcl, left_over: bool) -> (step:
        PutBackStep<E>)
        requires
            self.expects(event),
        ensures
            self.leads_to(event, *pipe, left_over, step),
    {
        match (self, event) {
            (PutBackStep::Read, PutBackEvent::Read(Ok(dacl))) => {
                if left_over && !pipe.usable() {
                    PutBackStep::Failed {
                        error: WindowsLocalIpcError::DescriptorInvalid {
                            name: pipe.name.as_str().to_owned(),
                        },
                    }
                } else if left_over && acl_mutation::same_dacl(&dacl, &pipe.original) {
                    PutBackStep::Resolve
                } else if acl_mutation::same_dacl(&dacl, &pipe.after) {
                    PutBackStep::Write
                } else {
                    PutBackStep::Failed {
                        error: WindowsLocalIpcError::DescriptorDrift {
                            name: pipe.name.as_str().to_owned(),
                        },
                    }
                }
            },
            (PutBackStep::Write, PutBackEvent::Done(Ok(_))) => PutBackStep::ReadBack,
            (PutBackStep::ReadBack, PutBackEvent::Read(Ok(dacl))) => {
                if acl_mutation::same_dacl(&dacl, &pipe.original) {
                    PutBackStep::Resolve
                } else {
                    PutBackStep::Failed {
                        error: WindowsLocalIpcError::DescriptorDrift {
                            name: pipe.name.as_str().to_owned(),
                        },
                    }
                }
            },
            (PutBackStep::Resolve, PutBackEvent::Done(Ok(_))) => PutBackStep::Done,
            (_, PutBackEvent::Read(Err(error))) => PutBackStep::Failed { error },
            (_, PutBackEvent::Done(Err(error))) => PutBackStep::Failed { error },
            (step, _) => step,
        }
    }
}

/// A pipe's list is written back only over the list of the launch, and the
/// pipe leaves the state store only once its old list was seen. A pipe that is
/// left over with a record that cannot be its lists is not touched.
pub proof fn pipes_are_put_back_over_our_own_change<E>(
    step: PutBackStep<E>,
    event: PutBackEvent<E>,
    pipe: NamedPipeAcl,
    left_over: bool,
    next: PutBackStep<E>,
)
    requires
        step.expects(event),
        step.leads_to(event, pipe, left_over, next),
    ensures
        next is Write ==> (event matches PutBackEvent::Read(Ok(dacl)) && dacl@ == pipe.after@),
        next is Resolve ==> (event matches PutBackEvent::Read(Ok(dacl)) && dacl@ == pipe.original@),
        next is Done ==> step is Resolve,
        step is Read && left_over && !pipe.is_usable() ==> next is Failed,
{
}

/// The pipes of a launch, in the order in which they are put back: the last
/// one first.
pub fn release_order(count: usize) -> (order: Vec<usize>)
    ensures
        order@ == Seq::new(count as nat, |i: int| (count - 1 - i) as usize),
{
    let mut order: Vec<usize> = Vec::new();
    for i in 0..count
        invariant
            order@ == Seq::new(i as nat, |k: int| (count - 1 - k) as usize),
    {
        order.push(count - 1 - i);
        assert(order@ =~= Seq::new((i + 1) as nat, |k: int| (count - 1 - k) as usize));
    }
    order
}

/// The next step of opening pipes to a launch, or what it came to.
#[derive(Debug)]
pub enum ApplyStep<E> {
    /// Keep other launches from changing pipes.
    AcquireLease,
    /// Draw the launch's identity.
    DrawSid,
    /// Open the state store.
    BeginSession,
    /// Open a pipe to the launch.
    OpenPipe {
        /// Which.
        index: usize,
    },
    /// Save the state store.
    FinishSession,
    /// The pipes are open to the launch.
    Done,
    /// They could not be opened: those that were are abandoned.
    Failed {
        /// Why.
        error: WindowsLocalIpcError<String, E>,
    },
}

impl<E> ApplyStep<E> {
    /// The first step for so many pipes: without any there is nothing to do.
    pub fn first(pipes: usize) -> (step: Option<ApplyStep<E>>)
        ensures
            pipes == 0 ==> step is None,
            pipes > 0 ==> (step matches Some(first) && first is AcquireLease),
    {
        if pipes == 0 {
            None
        } else {
            Some(ApplyStep::AcquireLease)
        }
    }

    /// The step after the result of a step, for so many pipes.
    pub open spec fn after(
        self,
        result: Result<(), WindowsLocalIpcError<String, E>>,
        pipes: usize,
    ) -> ApplyStep<E> {
        match (self, result) {
            (_, Err(error)) => ApplyStep::Failed { error },
            (ApplyStep::AcquireLease, Ok(_)) => ApplyStep::DrawSid,
            (ApplyStep::DrawSid, Ok(_)) => ApplyStep::BeginSession,
            (ApplyStep::BeginSession, Ok(_)) => ApplyStep::OpenPipe { index: 0 },
            (ApplyStep::OpenPipe { index }, Ok(_)) => if index + 1 < pipes {
                ApplyStep::OpenPipe { index: (index + 1) as usize }
            } else {
                ApplyStep::FinishSession
            },
            (ApplyStep::FinishSession, Ok(_)) => ApplyStep::Done,
            (step, Ok(_)) => step,
        }
    }

    /// Takes the step after the result of a step, for so many pipes.
    pub fn advance(self, result: Result<(), WindowsLocalIpcError<String, E>>, pipes: usize) -> (step:
        ApplyStep<E>)
        requires
            pipes > 0,
            !(self is Done),
            !(self is Failed),
        ensures
            step == self.after(result, pipes),
    {
        match (self, result) {
            (_, Err(error)) => ApplyStep::Failed { error },
            (ApplyStep::AcquireLease, Ok(_)) => ApplyStep::DrawSid,
            (ApplyStep::DrawSid, Ok(_)) => ApplyStep::BeginSession,
            (ApplyStep::BeginSession, Ok(_)) => ApplyStep::OpenPipe { index: 0 },
            (ApplyStep::OpenPipe { index }, Ok(_)) => if index < pipes - 1 {
                ApplyStep::OpenPipe { index: index + 1 }
            } else {
                ApplyStep::FinishSession
            },
            (ApplyStep::FinishSession, Ok(_)) => ApplyStep::Done,
            (step, Ok(_)) => step,
        }
    }
}

/// The steps after so many that succeeded.
pub open spec fn applied<E>(pipes: usize, count: nat) -> ApplyStep<E>
    decreases count,
{
    if count == 0 {
        ApplyStep::AcquireLease
    } else {
        applied::<E>(pipes, (count - 1) as nat).after(Ok(()), pipes)
    }
}

/// If every step succeeds, every pipe is opened, in order, before the state
/// store is saved.
pub proof fn every_pipe_is_opened<E>(pipes: usize, index: nat)
    requires
        pipes > 0,
        index < pipes,
    ensures
        applied::<E>(pipes, index + 3) == (ApplyStep::<E>::OpenPipe { index: index as usize }),
        applied::<E>(pipes, (pipes + 3) as nat) is FinishSession,
        applied::<E>(pipes, (pipes + 4) as nat) is Done,
    decreases index,
{
    reveal_with_fuel(applied, 5);
    opened_at::<E>(pipes, index);
    opened_at::<E>(pipes, (pipes - 1) as nat);
}

/// The step at which a pipe is opened.
proof fn opened_at<E>(pipes: usize, index: nat)
    requires
        pipes > 0,
        index < pipes,
    ensures
        applied::<E>(pipes, index + 3) == (ApplyStep::<E>::OpenPipe { index: index as usize }),
    decreases index,
{
    reveal_with_fuel(applied, 4);
    if index > 0 {
        opened_at::<E>(pipes, (index - 1) as nat);
    }
}

/// Which rules keep a launch from its pipes: one that denies a pipe and one that
/// names a socket, and no other. The failure tells the name that such a rule gives.
pub proof fn only_unsupported_rules_are_refused<E>(rules: Seq<LocalIpcRule<Seq<char>>>)
    ensures
        pipe_names_of::<E>(rules) is Ok <==> forall|i: int|
            0 <= i < rules.len() ==> !(#[trigger] rules[i]).denied && rules[i].endpoint
                is WindowsNamedPipe,
        pipe_names_of::<E>(rules) matches Err(error) ==> exists|i: int|
            {
                &&& 0 <= i < rules.len()
                &&& match (#[trigger] rules[i]).endpoint {
                    LocalIpcEndpoint::WindowsNamedPipe(name) => rules[i].denied && error == (
                    WindowsLocalIpcError::<Seq<char>, E>::DenyRule { name }),
                    LocalIpcEndpoint::UnixSocket(path) => error == (WindowsLocalIpcError::<
                        Seq<char>,
                        E,
                    >::PosixEndpoint { endpoint: path }),
                }
            },
    decreases rules.len(),
{
    if rules.len() > 0 {
        let front = rules.drop_last();
        let n = rules.len() - 1;
        only_unsupported_rules_are_refused::<E>(front);
        assert forall|i: int| 0 <= i < front.len() implies #[trigger] front[i] == rules[i] by {}
        if pipe_names_of::<E>(front) is Err {
            let i = choose|i: int|
                {
                    &&& 0 <= i < front.len()
                    &&& match (#[trigger] front[i]).endpoint {
                        LocalIpcEndpoint::WindowsNamedPipe(name) => front[i].denied
                            && pipe_names_of::<E>(front)->Err_0 == (WindowsLocalIpcError::<
                            Seq<char>,
                            E,
                        >::DenyRule { name }),
                        LocalIpcEndpoint::UnixSocket(path) => pipe_names_of::<E>(front)->Err_0 == (
                        WindowsLocalIpcError::<Seq<char>, E>::PosixEndpoint { endpoint: path }),
                    }
                };
            assert(rules[i] == front[i]);
        } else {
            assert(rules[n] == rules.last());
            if pipe_names_of::<E>(rules) is Ok {
                assert forall|i: int| 0 <= i < rules.len() implies !(#[trigger] rules[i]).denied
                    && rules[i].endpoint is WindowsNamedPipe by {
                    if i < n {
                        assert(front[i] == rules[i]);
                    }
                }
            }
        }
    }
}

/// Changing a pipe's list takes every step in turn. What fails before the change is
/// noted just fails; what fails after it is taken back first, and a list that does not
/// read back as granted is written back before that. The cause stays the same.
pub proof fn pipe_failures_are_taken_back<E>(
    step: PipeStep<E>,
    event: PipeEvent<E>,
    name: Seq<char>,
    next: PipeStep<E>,
)
    requires
        step.expects(event),
        step.leads_to(event, name, next),
    ensures
        match next {
            PipeStep::Prepare => false,
            PipeStep::Journal => step is Prepare && (event matches PipeEvent::Done(result)
                && result is Ok),
            PipeStep::ParseSids => step is Journal && (event matches PipeEvent::Done(result)
                && result is Ok),
            PipeStep::Write => step is ParseSids && (event matches PipeEvent::Done(result)
                && result is Ok),
            PipeStep::ReadBack => step is Write && (event matches PipeEvent::Done(result)
                && result is Ok),
            PipeStep::WriteBack { error } => step is ReadBack && (event matches PipeEvent::ReadBack(
                result,
            ) && (result matches Err(cause) ==> cause == error) && result != Ok::<
                bool,
                WindowsLocalIpcError<String, E>,
            >(true)),
            PipeStep::UpdateJournal => step is ReadBack && event == PipeEvent::<E>::ReadBack(
                Ok(true),
            ),
            PipeStep::Restore { error } => step == (PipeStep::WriteBack { error }) || (step
                is ParseSids || step is Write || step is UpdateJournal) && event == PipeEvent::Done(
                Err::<(), WindowsLocalIpcError<String, E>>(error),
            ),
            PipeStep::Done => step is UpdateJournal && (event matches PipeEvent::Done(result)
                && result is Ok),
            PipeStep::Failed { error } => step == (PipeStep::Restore { error }) || (step is Prepare
                || step is Journal) && event == PipeEvent::Done(
                Err::<(), WindowsLocalIpcError<String, E>>(error),
            ),
        },
{
}

/// A pipe's list is put back in turn: it is read, written, read back and
/// settled, and where it is neither our own change nor the list from before, or does
/// not read back, putting it back fails. A failed step is told as it is.
pub proof fn put_back_steps_follow<E>(
    step: PutBackStep<E>,
    event: PutBackEvent<E>,
    pipe: NamedPipeAcl,
    left_over: bool,
    next: PutBackStep<E>,
)
    requires
        step.expects(event),
        step.leads_to(event, pipe, left_over, next),
    ensures
        match next {
            PutBackStep::Read => false,
            PutBackStep::Write => step is Read && (event matches PutBackEvent::Read(Ok(dacl))
                && dacl@ == pipe.after@) && (left_over ==> pipe.is_usable()),
            PutBackStep::ReadBack => step is Write && (event matches PutBackEvent::Done(result)
                && result is Ok),
            PutBackStep::Resolve => (step is ReadBack || step is Read && left_over
                && pipe.is_usable()) && (event matches PutBackEvent::Read(Ok(dacl)) && dacl@
                == pipe.original@),
            PutBackStep::Done => step is Resolve && (event matches PutBackEvent::Done(result)
                && result is Ok),
            PutBackStep::Failed { error } => match event {
                PutBackEvent::Read(Err(cause)) | PutBackEvent::Done(Err(cause)) => error == cause,
                PutBackEvent::Read(Ok(dacl)) => step is ReadBack && dacl@ != pipe.original@ || step
                    is Read && (dacl@ != pipe.after@ || left_over && !pipe.is_usable()),
                PutBackEvent::Done(Ok(_)) => false,
            },
        },
        (event matches PutBackEvent::Done(result) && result is Err) ==> next is Failed,
        (event matches PutBackEvent::Read(result) && result is Err) ==> next is Failed,
{
}

/// Applying the pipes stops at the first step that fails, for its cause, and
/// only there.
pub proof fn applying_stops_at_a_failure<E>(
    step: ApplyStep<E>,
    result: Result<(), WindowsLocalIpcError<String, E>>,
    pipes: usize,
)
    requires
        pipes > 0,
        !(step is Done),
        !(step is Failed),
    ensures
        step.after(result, pipes) is Failed <==> result is Err,
        result matches Err(error) ==> step.after(result, pipes) == (ApplyStep::<E>::Failed { error }),
        step.after(result, pipes) is Done ==> step is FinishSession,
        step.after(result, pipes) is FinishSession ==> (step matches ApplyStep::OpenPipe { index }
            && index + 1 >= pipes),
        step.after(result, pipes) is BeginSession ==> step is DrawSid,
        step.after(result, pipes) is DrawSid ==> step is AcquireLease,
        step.after(result, pipes) matches ApplyStep::OpenPipe { index } ==> (if index == 0 {
            step is BeginSession
        } else {
            step == (ApplyStep::<E>::OpenPipe { index: (index - 1) as usize })
        }),
{
}

/// What is recorded of a pipe can be put back only where both lists have at least a
/// header and no more bytes than a list can say that it has.
pub proof fn recorded_lists_fit_their_size(pipe: NamedPipeAcl)
    ensures
        pipe.is_usable() <==> 8 <= pipe.original@.bytes.len() < 0x1_0000 && 8
            <= pipe.after@.bytes.len() < 0x1_0000,
{
}

} // verus!
