//! Creating the temporary file that a new configuration is staged in.
//!
//! The creation is a state machine. A step names the system call that comes next; its outcome leads
//! to the step after it.
use crate::freebsd::errors::{ConfigError, Errno, OsError};
use vstd::prelude::*;

verus! {

/// Any file may be a target of the configuration.
pub fn check_config_write_target<T, E>(_target: &T) -> (checked: Result<(), E>)
    ensures
        checked == Ok::<(), E>(()),
{
    Ok(())
}

/// No file is written in place: it is always replaced by a staged one.
pub fn write_existing_config<T, E>(_target: &T, _contents: &[u8]) -> (written: Result<bool, E>)
    ensures
        written == Ok::<bool, E>(false),
{
    Ok(false)
}

// ---------------------------------------------------------------------------
// Access control lists
// ---------------------------------------------------------------------------

/// The error numbers by which a file system says that it has no lists of a kind.
pub open spec fn acl_kind_is_absent(errno: Errno) -> bool {
    errno is InvalidArgument || errno is NotSupported
}

/// The access control list that was looked up, or nothing where the file system has none of its
/// kind.
pub fn config_acl<A, E>(looked_up: Result<A, OsError<E>>) -> (acl: Result<Option<A>, E>)
    ensures
        acl == match looked_up {
            Ok(acl) => Ok::<Option<A>, E>(Some(acl)),
            Err(error) => if acl_kind_is_absent(error.errno) {
                Ok(None)
            } else {
                Err(error.error)
            },
        },
{
    match looked_up {
        Ok(acl) => Ok(Some(acl)),
        Err(error) => if error.errno == Errno::InvalidArgument || error.errno
            == Errno::NotSupported {
            Ok(None)
        } else {
            Err(error.error)
        },
    }
}

// ---------------------------------------------------------------------------
// Creating the temporary file
// ---------------------------------------------------------------------------

/// The directory that a file stands in: its parent, or the current directory where that is empty.
pub fn staging_directory(parent: Option<Vec<u8>>) -> (directory: Vec<u8>)
    ensures
        directory@ == match parent {
            Some(parent) => if parent@.len() > 0 {
                parent@
            } else {
                seq![0x2eu8]
            },
            None => seq![0x2eu8],
        },
{
    match parent {
        Some(parent) => if parent.len() > 0 {
            parent
        } else {
            vec![0x2e]
        },
        None => vec![0x2e],
    }
}

/// Where the creation of a temporary file stands: the system call to make next, or how it ended.
pub enum CreateStep<E> {
    /// Open the directory of the file.
    OpenDirectory,
    /// Look up the NFSv4 rules of the directory.
    ReadDirectoryAcl,
    /// Find out whether the rules say no more than the mode bits.
    CheckDirectoryAcl,
    /// Create the file, which must not exist yet, for writing and with these mode bits.
    Create { mode: u32 },
    /// The file exists.
    Created,
    /// No file was created.
    Failed(ConfigError<E>),
}

/// What came of a step of the creation.
pub enum CreateEvent<E> {
    /// The system call succeeded.
    Succeeded,
    /// Whether the rules say no more than the mode bits.
    Trivial(bool),
    /// The system call failed.
    Failed(OsError<E>),
}

/// `event` is an outcome of `step`.
pub open spec fn create_outcome<E>(step: CreateStep<E>, event: CreateEvent<E>) -> bool {
    match step {
        CreateStep::OpenDirectory | CreateStep::ReadDirectoryAcl | CreateStep::Create {
            ..
        } => event is Succeeded || event is Failed,
        CreateStep::CheckDirectoryAcl => event is Trivial || event is Failed,
        CreateStep::Created | CreateStep::Failed(_) => false,
    }
}

/// The first step: only a private file needs to know its directory.
pub open spec fn create_start<E>(private: bool) -> CreateStep<E> {
    if private {
        CreateStep::OpenDirectory
    } else {
        CreateStep::Create { mode: 0o666 }
    }
}

/// The step that follows `step` on `event`.
pub open spec fn create_step<E>(step: CreateStep<E>, event: CreateEvent<E>) -> CreateStep<E> {
    match (step, event) {
        (CreateStep::ReadDirectoryAcl, CreateEvent::Failed(error)) => if acl_kind_is_absent(
            error.errno,
        ) {
            CreateStep::Create { mode: 0o600 }
        } else {
            CreateStep::Failed(ConfigError::Os(error.error))
        },
        (_, CreateEvent::Failed(error)) => CreateStep::Failed(ConfigError::Os(error.error)),
        (CreateStep::OpenDirectory, CreateEvent::Succeeded) => CreateStep::ReadDirectoryAcl,
        (CreateStep::ReadDirectoryAcl, CreateEvent::Succeeded) => CreateStep::CheckDirectoryAcl,
        (CreateStep::CheckDirectoryAcl, CreateEvent::Trivial(trivial)) => if trivial {
            CreateStep::Create { mode: 0o600 }
        } else {
            CreateStep::Failed(ConfigError::NontrivialDirectoryAcl)
        },
        (CreateStep::Create { .. }, CreateEvent::Succeeded) => CreateStep::Created,
        _ => step,
    }
}

/// Starts to create a temporary file.
pub fn create_config_temporary<E>(private: bool) -> (step: CreateStep<E>)
    ensures
        step == create_start::<E>(private),
{
    if private {
        CreateStep::OpenDirectory
    } else {
        CreateStep::Create { mode: 0o666 }
    }
}

impl<E> CreateStep<E> {
    /// The step that follows this one, once it had this outcome.
    pub fn advance(self, event: CreateEvent<E>) -> (next: CreateStep<E>)
        requires
            create_outcome(self, event),
        ensures
            next == create_step(self, event),
    {
        match self {
            CreateStep::OpenDirectory => match event {
                CreateEvent::Succeeded => CreateStep::ReadDirectoryAcl,
                CreateEvent::Failed(error) => CreateStep::Failed(ConfigError::Os(error.error)),
                CreateEvent::Trivial(_) => CreateStep::OpenDirectory,
            },
            CreateStep::ReadDirectoryAcl => {
                let looked_up: Result<(), OsError<E>> = match event {
                    CreateEvent::Failed(error) => Err(error),
                    _ => Ok(()),
                };
                match config_acl(looked_up) {
                    Ok(Some(_)) => CreateStep::CheckDirectoryAcl,
                    Ok(None) => CreateStep::Create { mode: 0o600 },
                    Err(error) => CreateStep::Failed(ConfigError::Os(error)),
                }
            },
            CreateStep::CheckDirectoryAcl => match event {
                CreateEvent::Trivial(trivial) => if trivial {
                    CreateStep::Create { mode: 0o600 }
                } else {
                    CreateStep::Failed(ConfigError::NontrivialDirectoryAcl)
                },
                CreateEvent::Failed(error) => CreateStep::Failed(ConfigError::Os(error.error)),
                CreateEvent::Succeeded => CreateStep::CheckDirectoryAcl,
            },
            CreateStep::Create { mode } => match event {
                CreateEvent::Succeeded => CreateStep::Created,
                CreateEvent::Failed(error) => CreateStep::Failed(ConfigError::Os(error.error)),
                CreateEvent::Trivial(_) => CreateStep::Create { mode },
            },
            CreateStep::Created => CreateStep::Created,
            CreateStep::Failed(error) => CreateStep::Failed(error),
        }
    }
}

/// Step `i + 1` follows step `i` on event `i`.
pub open spec fn creation_moves<E>(
    steps: Seq<CreateStep<E>>,
    events: Seq<CreateEvent<E>>,
    i: int,
) -> bool {
    create_outcome(steps[i], events[i]) && steps[i + 1] == create_step(steps[i], events[i])
}

/// `steps` are the steps of a creation, each but the first after the outcome of the one before.
pub open spec fn is_creation<E>(
    private: bool,
    steps: Seq<CreateStep<E>>,
    events: Seq<CreateEvent<E>>,
) -> bool {
    &&& steps.len() == events.len() + 1
    &&& steps[0] == create_start::<E>(private)
    &&& forall|i: int| 0 <= i < events.len() ==> #[trigger] creation_moves(steps, events, i)
}

/// A private file is created only after its directory was found to have no NFSv4 rules or trivial
/// ones, and with access for its owner alone. Where the rules say more, no file is ever created.
pub proof fn private_files_are_created_in_plain_directories_only<E>(
    steps: Seq<CreateStep<E>>,
    events: Seq<CreateEvent<E>>,
    i: int,
)
    requires
        is_creation(true, steps, events),
        0 <= i < steps.len(),
        steps[i] is Create || steps[i] is Created,
    ensures
        steps[i] is Create ==> steps[i] == (CreateStep::<E>::Create { mode: 0o600 }),
        exists|k: int|
            0 <= k < i && match #[trigger] events[k] {
                CreateEvent::Trivial(trivial) => steps[k] is CheckDirectoryAcl && trivial,
                CreateEvent::Failed(error) => steps[k] is ReadDirectoryAcl && acl_kind_is_absent(
                    error.errno,
                ),
                CreateEvent::Succeeded => false,
            },
        forall|k: int| 0 <= k < events.len() ==> #[trigger] events[k] != CreateEvent::<
            E,
        >::Trivial(false),
    decreases i,
{
    assert(creation_moves(steps, events, i - 1));
    if steps[i] is Created {
        private_files_are_created_in_plain_directories_only(steps, events, i - 1);
    } else {
        assert(steps[i - 1] is CheckDirectoryAcl || steps[i - 1] is ReadDirectoryAcl);
    }
    assert forall|k: int| 0 <= k < events.len() implies #[trigger] events[k] != CreateEvent::<
        E,
    >::Trivial(false) by {
        lemma_refusal_ends_creation(steps, events, k, i);
    }
}

/// A creation that met rules beyond the mode bits neither had created a file nor does so later.
proof fn lemma_refusal_ends_creation<E>(
    steps: Seq<CreateStep<E>>,
    events: Seq<CreateEvent<E>>,
    k: int,
    i: int,
)
    requires
        is_creation(true, steps, events),
        0 <= k < events.len(),
        0 <= i < steps.len(),
        steps[i] is Create || steps[i] is Created,
    ensures
        events[k] != CreateEvent::<E>::Trivial(false),
    decreases if i <= k { k - i } else { i - k },
{
    if events[k] == CreateEvent::<E>::Trivial(false) {
        assert(creation_moves(steps, events, k));
        if i <= k {
            assert(creation_moves(steps, events, i));
            if i < k {
                if steps[i] is Created {
                    assert(false);
                } else {
                    assert(creation_moves(steps, events, i + 1));
                    assert(steps[i + 1] is Created || steps[i + 1] is Failed);
                    assert(false);
                }
            }
        } else if i == k + 1 {
            assert(steps[i] is Failed);
        } else {
            assert(creation_moves(steps, events, k + 1));
        }
    }
}

/// A creation goes through where the directory has no NFSv4 rules or trivial ones. A private file is
/// then created for its owner alone; any other file needs no look at its directory and is created
/// for everyone whom the process lets in.
pub proof fn creations_go_through<E>(absent: OsError<E>)
    requires
        absent.errno == Errno::InvalidArgument || absent.errno == Errno::NotSupported,
    ensures
        ({
            let opened = create_step(create_start::<E>(true), CreateEvent::Succeeded);
            let looked_up = create_step(opened, CreateEvent::Succeeded);
            let without = create_step(opened, CreateEvent::Failed(absent));
            let trivial = create_step(looked_up, CreateEvent::Trivial(true));
            &&& create_start::<E>(true) is OpenDirectory
            &&& opened is ReadDirectoryAcl
            &&& looked_up is CheckDirectoryAcl
            &&& without == (CreateStep::<E>::Create { mode: 384 })
            &&& trivial == (CreateStep::<E>::Create { mode: 384 })
            &&& create_step(without, CreateEvent::Succeeded) is Created
            &&& create_start::<E>(false) == (CreateStep::<E>::Create { mode: 438 })
            &&& create_step(create_start::<E>(false), CreateEvent::Succeeded) is Created
        }),
{
}

/// A creation fails for these causes alone, and for each of them: a system call that fails, unless
/// it looks up rules of a kind that the file system lacks, and rules of the directory that say more
/// than the mode bits. The failure of a system call is told by its own error.
pub proof fn creations_fail_for_a_cause<E>(step: CreateStep<E>, event: CreateEvent<E>)
    requires
        create_outcome(step, event),
    ensures
        ({
            let next = create_step(step, event);
            &&& event matches CreateEvent::Failed(error) ==> {
                if step is ReadDirectoryAcl && (error.errno == Errno::InvalidArgument
                    || error.errno == Errno::NotSupported) {
                    next is Create
                } else {
                    next == CreateStep::Failed(ConfigError::Os(error.error))
                }
            }
            &&& event == CreateEvent::<E>::Trivial(false) ==> next == CreateStep::<E>::Failed(
                ConfigError::NontrivialDirectoryAcl,
            )
            &&& event is Succeeded || event == CreateEvent::<E>::Trivial(true) ==> !(
            next is Failed)
        }),
{
}

/// Every outcome that the kernel can give is taken: any call may fail or succeed, and the check of
/// the rules tells whether they are trivial.
pub proof fn every_outcome_is_taken<E>(step: CreateStep<E>, trivial: bool, error: OsError<E>)
    ensures
        !(step is Created || step is Failed) ==> create_outcome(step, CreateEvent::Failed(error)),
        step is OpenDirectory || step is ReadDirectoryAcl || step is Create ==> create_outcome(
            step,
            CreateEvent::Succeeded,
        ),
        step is CheckDirectoryAcl ==> create_outcome(step, CreateEvent::Trivial(trivial)),
{
}

} // verus!
