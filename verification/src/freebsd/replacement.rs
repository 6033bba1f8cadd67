//! Filling the temporary file that is to replace a configuration file: it takes over the owner,
//! attributes, access rules and mode of that file, and then the new contents.
//!
//! The work is a state machine. A step names the system call that comes next; its outcome leads to
//! the step after it.
use crate::freebsd::attributes::{AttributeEvent, AttributeStep, Namespace};
use crate::freebsd::config::config_acl;
use crate::freebsd::errors::{ConfigError, OsError};
use vstd::prelude::*;

verus! {

/// The kinds of access control lists.
#[derive(Debug, Clone, Copy, PartialEq, Eq, Structural)]
pub enum AclKind {
    /// POSIX access rules.
    Access,
    /// NFSv4 rules.
    Nfs4,
}

/// Owner, group and mode of a file.
#[derive(Debug, Clone, Copy, PartialEq, Eq, Structural)]
pub struct FileMetadata {
    pub uid: u32,
    pub gid: u32,
    pub mode: u32,
}

/// Where the work stands: the system call to make next, or how it ended. The source is the file
/// that is to be replaced, where there is one.
pub enum ReplacementStep<E> {
    /// Open the temporary file for writing, and empty it.
    OpenTemporary { has_source: bool },
    /// Open the source for reading.
    OpenSource,
    /// Read the metadata of the source.
    ReadSource,
    /// Read the metadata of the temporary file.
    ReadTemporary { source: FileMetadata },
    /// Give the temporary file the owner and group of the source.
    ChangeOwner { source: FileMetadata },
    /// Copy the attributes of one namespace.
    CopyAttributes { source: FileMetadata, namespace: Namespace, step: AttributeStep<E> },
    /// Look up one kind of access rules of the source.
    ReadAcl { source: FileMetadata, kind: AclKind },
    /// Set the rules that were looked up on the temporary file.
    SetAcl { source: FileMetadata, kind: AclKind },
    /// Read the metadata of the temporary file again, to compare its mode.
    CheckMode { source: FileMetadata },
    /// Give the temporary file the mode of the source.
    SetPermissions { source: FileMetadata },
    /// Write the new contents.
    WriteContents,
    /// Bring the file to the disk.
    Sync,
    /// The temporary file can replace the source.
    Finished,
    /// It cannot.
    Failed(ConfigError<E>),
}

/// What came of a step.
pub enum ReplacementEvent<E> {
    /// The system call succeeded.
    Succeeded,
    /// The metadata that were read.
    Metadata(FileMetadata),
    /// What came of a step of the attribute copy.
    Attribute(AttributeEvent<E>),
    /// The system call failed.
    Failed(OsError<E>),
}

// ---------------------------------------------------------------------------
// Model
// ---------------------------------------------------------------------------

/// Where the work stands, over mathematical values.
pub enum ReplacementView<E> {
    OpenTemporary { has_source: bool },
    OpenSource,
    ReadSource,
    ReadTemporary { source: FileMetadata },
    ChangeOwner { source: FileMetadata },
    CopyAttributes {
        source: FileMetadata,
        namespace: Namespace,
        step: crate::freebsd::attributes::AttributeView<E>,
    },
    ReadAcl { source: FileMetadata, kind: AclKind },
    SetAcl { source: FileMetadata, kind: AclKind },
    CheckMode { source: FileMetadata },
    SetPermissions { source: FileMetadata },
    WriteContents,
    Sync,
    Finished,
    Failed(crate::freebsd::errors::ConfigErrorView<E>),
}

/// What came of a step, over mathematical values.
pub enum ReplacementEventView<E> {
    Succeeded,
    Metadata(FileMetadata),
    Attribute(crate::freebsd::attributes::AttributeEventView<E>),
    Failed(OsError<E>),
}

impl<E> View for ReplacementStep<E> {
    type V = ReplacementView<E>;

    open spec fn view(&self) -> ReplacementView<E> {
        match *self {
            ReplacementStep::OpenTemporary { has_source } => ReplacementView::OpenTemporary {
                has_source,
            },
            ReplacementStep::OpenSource => ReplacementView::OpenSource,
            ReplacementStep::ReadSource => ReplacementView::ReadSource,
            ReplacementStep::ReadTemporary { source } => ReplacementView::ReadTemporary { source },
            ReplacementStep::ChangeOwner { source } => ReplacementView::ChangeOwner { source },
            ReplacementStep::CopyAttributes {
                source,
                namespace,
                step,
            } => ReplacementView::CopyAttributes { source, namespace, step: step@ },
            ReplacementStep::ReadAcl { source, kind } => ReplacementView::ReadAcl { source, kind },
            ReplacementStep::SetAcl { source, kind } => ReplacementView::SetAcl { source, kind },
            ReplacementStep::CheckMode { source } => ReplacementView::CheckMode { source },
            ReplacementStep::SetPermissions { source } => ReplacementView::SetPermissions {
                source,
            },
            ReplacementStep::WriteContents => ReplacementView::WriteContents,
            ReplacementStep::Sync => ReplacementView::Sync,
            ReplacementStep::Finished => ReplacementView::Finished,
            ReplacementStep::Failed(error) => ReplacementView::Failed(error@),
        }
    }
}

impl<E> View for ReplacementEvent<E> {
    type V = ReplacementEventView<E>;

    open spec fn view(&self) -> ReplacementEventView<E> {
        match *self {
            ReplacementEvent::Succeeded => ReplacementEventView::Succeeded,
            ReplacementEvent::Metadata(metadata) => ReplacementEventView::Metadata(metadata),
            ReplacementEvent::Attribute(event) => ReplacementEventView::Attribute(event@),
            ReplacementEvent::Failed(error) => ReplacementEventView::Failed(error),
        }
    }
}

/// `event` is an outcome of `step`.
pub open spec fn replacement_outcome<E>(
    step: ReplacementView<E>,
    event: ReplacementEventView<E>,
) -> bool {
    match step {
        ReplacementView::ReadSource | ReplacementView::ReadTemporary {
            ..
        } | ReplacementView::CheckMode { .. } => event is Metadata || event is Failed,
        ReplacementView::CopyAttributes { step, .. } => match event {
            ReplacementEventView::Attribute(event) => {
                crate::freebsd::attributes::attribute_outcome(step, event)
            },
            _ => false,
        },
        ReplacementView::Finished | ReplacementView::Failed(_) => false,
        _ => event is Succeeded || event is Failed,
    }
}

/// The step for what the attribute copy of a namespace has come to. The user namespace comes before
/// the system namespace, and both before the access rules.
pub open spec fn after_attributes<E>(
    source: FileMetadata,
    namespace: Namespace,
    step: crate::freebsd::attributes::AttributeView<E>,
) -> ReplacementView<E> {
    match step {
        crate::freebsd::attributes::AttributeView::Done => match namespace {
            Namespace::User => ReplacementView::CopyAttributes {
                source,
                namespace: Namespace::System,
                step: crate::freebsd::attributes::AttributeView::ListSize,
            },
            Namespace::System => ReplacementView::ReadAcl { source, kind: AclKind::Access },
        },
        crate::freebsd::attributes::AttributeView::Failed(error) => ReplacementView::Failed(error),
        step => ReplacementView::CopyAttributes { source, namespace, step },
    }
}

/// The attribute copy starts with the user namespace.
pub open spec fn attributes_start<E>(source: FileMetadata) -> ReplacementView<E> {
    ReplacementView::CopyAttributes {
        source,
        namespace: Namespace::User,
        step: crate::freebsd::attributes::AttributeView::ListSize,
    }
}

/// The step that follows `step` on `event`. A failure ends the work, but for the look-up of access
/// rules where the file system has none of that kind.
pub open spec fn replacement_step<E>(
    superuser: bool,
    step: ReplacementView<E>,
    event: ReplacementEventView<E>,
) -> ReplacementView<E> {
    match (step, event) {
        (
            ReplacementView::ReadAcl { source, kind },
            ReplacementEventView::Failed(error),
        ) => if !crate::freebsd::config::acl_kind_is_absent(error.errno) {
            ReplacementView::Failed(crate::freebsd::errors::ConfigErrorView::Os(error.error))
        } else {
            match kind {
                AclKind::Access => ReplacementView::ReadAcl { source, kind: AclKind::Nfs4 },
                AclKind::Nfs4 => ReplacementView::SetPermissions { source },
            }
        },
        (_, ReplacementEventView::Failed(error)) => ReplacementView::Failed(
            crate::freebsd::errors::ConfigErrorView::Os(error.error),
        ),
        (
            ReplacementView::OpenTemporary { has_source },
            ReplacementEventView::Succeeded,
        ) => if has_source {
            ReplacementView::OpenSource
        } else {
            ReplacementView::WriteContents
        },
        (ReplacementView::OpenSource, ReplacementEventView::Succeeded) => {
            ReplacementView::ReadSource
        },
        (ReplacementView::ReadSource, ReplacementEventView::Metadata(source)) => {
            ReplacementView::ReadTemporary { source }
        },
        (
            ReplacementView::ReadTemporary { source },
            ReplacementEventView::Metadata(temporary),
        ) => if source.uid != temporary.uid || source.gid != temporary.gid {
            ReplacementView::ChangeOwner { source }
        } else {
            attributes_start(source)
        },
        (ReplacementView::ChangeOwner { source }, ReplacementEventView::Succeeded) => {
            attributes_start(source)
        },
        (
            ReplacementView::CopyAttributes { source, namespace, step },
            ReplacementEventView::Attribute(event),
        ) => after_attributes(
            source,
            namespace,
            crate::freebsd::attributes::attribute_step(namespace, superuser, step, event),
        ),
        (ReplacementView::ReadAcl { source, kind }, ReplacementEventView::Succeeded) => {
            ReplacementView::SetAcl { source, kind }
        },
        (ReplacementView::SetAcl { source, kind }, ReplacementEventView::Succeeded) => match kind {
            AclKind::Access => ReplacementView::ReadAcl { source, kind: AclKind::Nfs4 },
            AclKind::Nfs4 => ReplacementView::CheckMode { source },
        },
        (
            ReplacementView::CheckMode { source },
            ReplacementEventView::Metadata(temporary),
        ) => if temporary.mode != source.mode {
            ReplacementView::Failed(crate::freebsd::errors::ConfigErrorView::ModeNotPreserved)
        } else {
            ReplacementView::WriteContents
        },
        (ReplacementView::SetPermissions { .. }, ReplacementEventView::Succeeded) => {
            ReplacementView::WriteContents
        },
        (ReplacementView::WriteContents, ReplacementEventView::Succeeded) => {
            ReplacementView::Sync
        },
        (ReplacementView::Sync, ReplacementEventView::Succeeded) => ReplacementView::Finished,
        _ => step,
    }
}

// ---------------------------------------------------------------------------
// Steps
// ---------------------------------------------------------------------------

/// Starts to copy the attributes of a namespace.
pub fn copy_config_attributes<E>() -> (step: AttributeStep<E>)
    ensures
        step@ == crate::freebsd::attributes::AttributeView::<E>::ListSize,
{
    AttributeStep::ListSize
}

/// Starts to fill a temporary file.
pub fn write_config_temporary<E>(has_source: bool) -> (step: ReplacementStep<E>)
    ensures
        step@ == (ReplacementView::<E>::OpenTemporary { has_source }),
{
    ReplacementStep::OpenTemporary { has_source }
}

/// The first step of the attribute copy.
fn start_attributes<E>(source: FileMetadata, namespace: Namespace) -> (step: ReplacementStep<E>)
    ensures
        step@ == (ReplacementView::<E>::CopyAttributes {
            source,
            namespace,
            step: crate::freebsd::attributes::AttributeView::ListSize,
        }),
{
    ReplacementStep::CopyAttributes { source, namespace, step: copy_config_attributes() }
}

/// The step for what the attribute copy of a namespace has come to.
fn finish_attributes<E>(
    source: FileMetadata,
    namespace: Namespace,
    step: AttributeStep<E>,
) -> (next: ReplacementStep<E>)
    ensures
        next@ == after_attributes(source, namespace, step@),
{
    match step {
        AttributeStep::Done => match namespace {
            Namespace::User => start_attributes(source, Namespace::System),
            Namespace::System => ReplacementStep::ReadAcl { source, kind: AclKind::Access },
        },
        AttributeStep::Failed(error) => ReplacementStep::Failed(error),
        step => ReplacementStep::CopyAttributes { source, namespace, step },
    }
}

/// The outcome of a step that gives nothing but success or failure.
fn plain_outcome<E>(event: ReplacementEvent<E>) -> (outcome: Result<(), OsError<E>>)
    ensures
        outcome == match event@ {
            ReplacementEventView::Failed(error) => Err::<(), OsError<E>>(error),
            _ => Ok(()),
        },
{
    match event {
        ReplacementEvent::Failed(error) => Err(error),
        _ => Ok(()),
    }
}

impl<E> ReplacementStep<E> {
    /// The step that follows this one, once it had this outcome.
    pub fn advance(self, superuser: bool, event: ReplacementEvent<E>) -> (next: ReplacementStep<E>)
        requires
            replacement_outcome(self@, event@),
        ensures
            next@ == replacement_step(superuser, self@, event@),
    {
        match self {
            ReplacementStep::OpenTemporary { has_source } => match plain_outcome(event) {
                Ok(()) => if has_source {
                    ReplacementStep::OpenSource
                } else {
                    ReplacementStep::WriteContents
                },
                Err(error) => ReplacementStep::Failed(ConfigError::Os(error.error)),
            },
            ReplacementStep::OpenSource => match plain_outcome(event) {
                Ok(()) => ReplacementStep::ReadSource,
                Err(error) => ReplacementStep::Failed(ConfigError::Os(error.error)),
            },
            ReplacementStep::ReadSource => match event {
                ReplacementEvent::Metadata(source) => ReplacementStep::ReadTemporary { source },
                ReplacementEvent::Failed(error) => ReplacementStep::Failed(
                    ConfigError::Os(error.error),
                ),
                _ => ReplacementStep::ReadSource,
            },
            ReplacementStep::ReadTemporary { source } => match event {
                ReplacementEvent::Metadata(temporary) => if source.uid != temporary.uid
                    || source.gid != temporary.gid {
                    ReplacementStep::ChangeOwner { source }
                } else {
                    start_attributes(source, Namespace::User)
                },
                ReplacementEvent::Failed(error) => ReplacementStep::Failed(
                    ConfigError::Os(error.error),
                ),
                _ => ReplacementStep::ReadTemporary { source },
            },
            ReplacementStep::ChangeOwner { source } => match plain_outcome(event) {
                Ok(()) => start_attributes(source, Namespace::User),
                Err(error) => ReplacementStep::Failed(ConfigError::Os(error.error)),
            },
            ReplacementStep::CopyAttributes { source, namespace, step } => match event {
                ReplacementEvent::Attribute(event) => finish_attributes(
                    source,
                    namespace,
                    step.advance(namespace, superuser, event),
                ),
                _ => ReplacementStep::CopyAttributes { source, namespace, step },
            },
            ReplacementStep::ReadAcl { source, kind } => match config_acl(plain_outcome(event)) {
                Ok(Some(())) => ReplacementStep::SetAcl { source, kind },
                Ok(None) => match kind {
                    AclKind::Access => ReplacementStep::ReadAcl { source, kind: AclKind::Nfs4 },
                    AclKind::Nfs4 => ReplacementStep::SetPermissions { source },
                },
                Err(error) => ReplacementStep::Failed(ConfigError::Os(error)),
            },
            ReplacementStep::SetAcl { source, kind } => match plain_outcome(event) {
                Ok(()) => match kind {
                    AclKind::Access => ReplacementStep::ReadAcl { source, kind: AclKind::Nfs4 },
                    AclKind::Nfs4 => ReplacementStep::CheckMode { source },
                },
                Err(error) => ReplacementStep::Failed(ConfigError::Os(error.error)),
            },
            ReplacementStep::CheckMode { source } => match event {
                ReplacementEvent::Metadata(temporary) => if temporary.mode != source.mode {
                    ReplacementStep::Failed(ConfigError::ModeNotPreserved)
                } else {
                    ReplacementStep::WriteContents
                },
                ReplacementEvent::Failed(error) => ReplacementStep::Failed(
                    ConfigError::Os(error.error),
                ),
                _ => ReplacementStep::CheckMode { source },
            },
            ReplacementStep::SetPermissions { source: _ } => match plain_outcome(event) {
                Ok(()) => ReplacementStep::WriteContents,
                Err(error) => ReplacementStep::Failed(ConfigError::Os(error.error)),
            },
            ReplacementStep::WriteContents => match plain_outcome(event) {
                Ok(()) => ReplacementStep::Sync,
                Err(error) => ReplacementStep::Failed(ConfigError::Os(error.error)),
            },
            ReplacementStep::Sync => match plain_outcome(event) {
                Ok(()) => ReplacementStep::Finished,
                Err(error) => ReplacementStep::Failed(ConfigError::Os(error.error)),
            },
            ReplacementStep::Finished => ReplacementStep::Finished,
            ReplacementStep::Failed(error) => ReplacementStep::Failed(error),
        }
    }
}

// ---------------------------------------------------------------------------
// Laws
// ---------------------------------------------------------------------------

/// How far the work has got. The mode is either compared or set.
pub open spec fn stage<E>(step: ReplacementView<E>) -> int {
    match step {
        ReplacementView::OpenTemporary { .. } => 0,
        ReplacementView::OpenSource => 1,
        ReplacementView::ReadSource => 2,
        ReplacementView::ReadTemporary { .. } => 3,
        ReplacementView::ChangeOwner { .. } => 4,
        ReplacementView::CopyAttributes { namespace, .. } => match namespace {
            Namespace::User => 5,
            Namespace::System => 6,
        },
        ReplacementView::ReadAcl { kind, .. } => match kind {
            AclKind::Access => 7,
            AclKind::Nfs4 => 9,
        },
        ReplacementView::SetAcl { kind, .. } => match kind {
            AclKind::Access => 8,
            AclKind::Nfs4 => 10,
        },
        ReplacementView::CheckMode { .. } | ReplacementView::SetPermissions { .. } => 11,
        ReplacementView::WriteContents => 12,
        ReplacementView::Sync => 13,
        ReplacementView::Finished => 14,
        ReplacementView::Failed(_) => 15,
    }
}

/// The stages that the replacement of an existing file cannot do without: all but the change of an
/// owner that is right already and the setting of rules of a kind that the file system lacks.
pub open spec fn is_due(stage: int) -> bool {
    0 <= stage <= 14 && stage != 4 && stage != 8 && stage != 10
}

/// Step `i + 1` follows step `i` on event `i`.
pub open spec fn replacement_moves<E>(
    superuser: bool,
    steps: Seq<ReplacementView<E>>,
    events: Seq<ReplacementEventView<E>>,
    i: int,
) -> bool {
    &&& replacement_outcome(steps[i], events[i])
    &&& steps[i + 1] == replacement_step(superuser, steps[i], events[i])
}

/// `steps` are the steps of a replacement, each but the first after the outcome of the one before.
pub open spec fn is_replacement<E>(
    superuser: bool,
    has_source: bool,
    steps: Seq<ReplacementView<E>>,
    events: Seq<ReplacementEventView<E>>,
) -> bool {
    &&& steps.len() == events.len() + 1
    &&& steps[0] == (ReplacementView::<E>::OpenTemporary { has_source })
    &&& forall|i: int|
        0 <= i < events.len() ==> #[trigger] replacement_moves(superuser, steps, events, i)
}

/// The work never goes back: a step is followed by a later stage, or by a further step of the
/// attribute copy of the same namespace.
pub proof fn replacement_goes_forward<E>(
    superuser: bool,
    step: ReplacementView<E>,
    event: ReplacementEventView<E>,
)
    requires
        replacement_outcome(step, event),
    ensures
        stage(replacement_step(superuser, step, event)) > stage(step) || (
        step is CopyAttributes && stage(replacement_step(superuser, step, event)) == stage(step)),
{
}

/// Later steps are at no earlier stage.
pub proof fn lemma_stages_grow<E>(
    superuser: bool,
    has_source: bool,
    steps: Seq<ReplacementView<E>>,
    events: Seq<ReplacementEventView<E>>,
    i: int,
    j: int,
)
    requires
        is_replacement(superuser, has_source, steps, events),
        0 <= i <= j < steps.len(),
    ensures
        stage(steps[i]) <= stage(steps[j]),
    decreases j - i,
{
    if i < j {
        lemma_stages_grow(superuser, has_source, steps, events, i, j - 1);
        assert(replacement_moves(superuser, steps, events, j - 1));
        replacement_goes_forward(superuser, steps[j - 1], events[j - 1]);
    }
}

/// Access rules are set before any mode bits are, so that no inherited grant is ever unmasked, and
/// the contents are written after both.
pub proof fn access_rules_precede_mode_and_contents<E>(
    superuser: bool,
    has_source: bool,
    steps: Seq<ReplacementView<E>>,
    events: Seq<ReplacementEventView<E>>,
    i: int,
    j: int,
)
    requires
        is_replacement(superuser, has_source, steps, events),
        0 <= i < steps.len(),
        0 <= j < steps.len(),
    ensures
        steps[i] is SetAcl && (steps[j] is SetPermissions || steps[j] is WriteContents) ==> i < j,
        steps[i] is SetPermissions && steps[j] is WriteContents ==> i < j,
        steps[i] is CheckMode && steps[j] is WriteContents ==> i < j,
        (steps[i] is ChangeOwner || steps[i] is CopyAttributes) && (steps[j] is SetAcl
            || steps[j] is SetPermissions || steps[j] is WriteContents) ==> i < j,
{
    if j <= i {
        lemma_stages_grow(superuser, has_source, steps, events, j, i);
    }
}

/// Once NFSv4 rules were set, no mode bits are: a change of mode could rewrite the rules.
pub proof fn nfs4_rules_are_never_rewritten<E>(
    superuser: bool,
    has_source: bool,
    steps: Seq<ReplacementView<E>>,
    events: Seq<ReplacementEventView<E>>,
    i: int,
    j: int,
)
    requires
        is_replacement(superuser, has_source, steps, events),
        0 <= i < steps.len(),
        0 <= j < steps.len(),
        steps[i] is SetAcl && steps[i]->SetAcl_kind is Nfs4,
    ensures
        !(steps[j] is SetPermissions),
{
    if j <= i {
        lemma_stages_grow(superuser, has_source, steps, events, j, i);
    } else {
        assert(replacement_moves(superuser, steps, events, i));
        lemma_stages_grow(superuser, has_source, steps, events, i + 1, j);
        if j > i + 1 {
            assert(replacement_moves(superuser, steps, events, i + 1));
            lemma_stages_grow(superuser, has_source, steps, events, i + 2, j);
        }
    }
}

/// `wanted` is the stage of a step up to step `i`.
pub open spec fn is_passed<E>(steps: Seq<ReplacementView<E>>, i: int, wanted: int) -> bool {
    exists|k: int| 0 <= k <= i && stage(#[trigger] steps[k]) == wanted
}

/// The replacement of an existing file leaves nothing out: unless it failed, every stage up to
/// where it stands that it cannot do without is behind it. The contents are then written only after
/// attributes of both namespaces, access rules of both kinds and the mode were taken over.
pub proof fn nothing_due_is_left_out<E>(
    superuser: bool,
    steps: Seq<ReplacementView<E>>,
    events: Seq<ReplacementEventView<E>>,
    i: int,
    wanted: int,
)
    requires
        is_replacement(superuser, true, steps, events),
        0 <= i < steps.len(),
        !(steps[i] is Failed),
        is_due(wanted),
        wanted <= stage(steps[i]),
    ensures
        is_passed(steps, i, wanted),
    decreases i,
{
    assert(stage(steps[0]) == 0);
    if stage(steps[i]) == wanted {
    } else if i > 0 {
        assert(replacement_moves(superuser, steps, events, i - 1));
        assert(!(steps[i - 1] is Failed));
        if i > 1 {
            lemma_source_is_kept(superuser, steps, events, i - 1);
        }
        assert(stage(steps[i - 1]) >= wanted);
        nothing_due_is_left_out(superuser, steps, events, i - 1, wanted);
        let k = choose|k: int| 0 <= k <= i - 1 && stage(#[trigger] steps[k]) == wanted;
        assert(stage(steps[k]) == wanted);
    }
}

/// Only the first step opens the temporary file.
proof fn lemma_source_is_kept<E>(
    superuser: bool,
    steps: Seq<ReplacementView<E>>,
    events: Seq<ReplacementEventView<E>>,
    i: int,
)
    requires
        is_replacement(superuser, true, steps, events),
        0 < i < steps.len(),
    ensures
        !(steps[i] is OpenTemporary),
{
    assert(replacement_moves(superuser, steps, events, 0));
    lemma_stages_grow(superuser, true, steps, events, 1, i);
}

/// A finished replacement of an existing file ran every step that was due, none of which failed.
pub proof fn finished_replacements_are_complete<E>(
    superuser: bool,
    steps: Seq<ReplacementView<E>>,
    events: Seq<ReplacementEventView<E>>,
    wanted: int,
)
    requires
        is_replacement(superuser, true, steps, events),
        steps.last() is Finished,
        is_due(wanted),
    ensures
        is_passed(steps, steps.len() - 1, wanted),
        forall|k: int| 0 <= k < steps.len() ==> !(#[trigger] steps[k] is Failed),
{
    nothing_due_is_left_out(superuser, steps, events, steps.len() - 1, wanted);
    assert forall|k: int| 0 <= k < steps.len() implies !(#[trigger] steps[k] is Failed) by {
        lemma_stages_grow(superuser, true, steps, events, k, steps.len() - 1);
    }
}

/// A step fails for these causes alone, and for each of them: a system call that fails, unless it
/// looks up access rules of a kind that the file system lacks; a mode that differs once NFSv4 rules
/// were set; a failure of the attribute copy. The failure of a system call is told by its own error.
/// In particular no mode of the source makes a step fail.
pub proof fn replacements_fail_for_a_cause<E>(
    superuser: bool,
    step: ReplacementView<E>,
    event: ReplacementEventView<E>,
)
    requires
        replacement_outcome(step, event),
    ensures
        ({
            let next = replacement_step(superuser, step, event);
            &&& event matches ReplacementEventView::Failed(error) ==> {
                if step is ReadAcl && (error.errno
                    == crate::freebsd::errors::Errno::InvalidArgument || error.errno
                    == crate::freebsd::errors::Errno::NotSupported) {
                    !(next is Failed)
                } else {
                    next == ReplacementView::Failed(
                        crate::freebsd::errors::ConfigErrorView::Os(error.error),
                    )
                }
            }
            &&& event is Succeeded ==> !(next is Failed)
            &&& event matches ReplacementEventView::Metadata(metadata) ==> (next is Failed
                <==> step is CheckMode && metadata.mode != step->CheckMode_source.mode)
            &&& event is Metadata && next is Failed ==> next == ReplacementView::<E>::Failed(
                crate::freebsd::errors::ConfigErrorView::ModeNotPreserved,
            )
            &&& event matches ReplacementEventView::Attribute(event) ==> {
                let copy = crate::freebsd::attributes::attribute_step(
                    step->CopyAttributes_namespace,
                    superuser,
                    step->step,
                    event,
                );
                &&& next is Failed <==> copy is Failed
                &&& copy matches crate::freebsd::attributes::AttributeView::Failed(error) ==> next
                    == ReplacementView::Failed(error)
            }
        }),
{
}

/// The owner is changed exactly where that of the temporary file is another user or group.
pub proof fn right_owners_are_not_changed<E>(
    superuser: bool,
    step: ReplacementView<E>,
    event: ReplacementEventView<E>,
)
    requires
        replacement_outcome(step, event),
    ensures
        replacement_step(superuser, step, event) is ChangeOwner <==> {
            &&& step is ReadTemporary
            &&& event is Metadata
            &&& event->Metadata_0.uid != step->ReadTemporary_source.uid || event->Metadata_0.gid
                != step->ReadTemporary_source.gid
        },
{
}

/// Without a file that is to be replaced, the temporary file is opened, written and brought to the
/// disk, and nothing else is done.
pub proof fn new_files_are_written_at_once<E>(
    superuser: bool,
    steps: Seq<ReplacementView<E>>,
    events: Seq<ReplacementEventView<E>>,
    i: int,
)
    requires
        is_replacement(superuser, false, steps, events),
        0 <= i < steps.len(),
    ensures
        i <= 3,
        steps[i] is Failed || {
            &&& i == 0 ==> steps[i] is OpenTemporary
            &&& i == 1 ==> steps[i] is WriteContents
            &&& i == 2 ==> steps[i] is Sync
            &&& i == 3 ==> steps[i] is Finished
        },
    decreases i,
{
    if i > 0 {
        new_files_are_written_at_once(superuser, steps, events, i - 1);
        assert(replacement_moves(superuser, steps, events, i - 1));
    }
}

/// Every outcome that the kernel can give is taken: any call may fail, metadata come where they were
/// asked for, and the other calls may succeed.
pub proof fn every_outcome_is_taken<E>(
    step: ReplacementView<E>,
    metadata: FileMetadata,
    error: OsError<E>,
)
    ensures
        !(step is Finished || step is Failed || step is CopyAttributes) ==> replacement_outcome(
            step,
            ReplacementEventView::Failed(error),
        ),
        step is ReadSource || step is ReadTemporary || step is CheckMode ==> replacement_outcome(
            step,
            ReplacementEventView::Metadata(metadata),
        ),
        !(step is Finished || step is Failed || step is CopyAttributes || step is ReadSource
            || step is ReadTemporary || step is CheckMode) ==> replacement_outcome(
            step,
            ReplacementEventView::Succeeded,
        ),
{
}

/// The work cannot go on after `event`: a system call failed, other than the look-up of access rules
/// of a kind that the file system lacks, the mode differs once NFSv4 rules were set, or the attribute
/// copy cannot go on.
pub open spec fn is_cause<E>(
    superuser: bool,
    step: ReplacementView<E>,
    event: ReplacementEventView<E>,
) -> bool {
    match (step, event) {
        (ReplacementView::ReadAcl { .. }, ReplacementEventView::Failed(error)) => !(error.errno
            == crate::freebsd::errors::Errno::InvalidArgument || error.errno
            == crate::freebsd::errors::Errno::NotSupported),
        (_, ReplacementEventView::Failed(_)) => true,
        (ReplacementView::CheckMode { source }, ReplacementEventView::Metadata(temporary)) => {
            temporary.mode != source.mode
        },
        (
            ReplacementView::CopyAttributes { namespace, step, .. },
            ReplacementEventView::Attribute(event),
        ) => crate::freebsd::attributes::is_copy_cause(namespace, superuser, step, event),
        _ => false,
    }
}

/// The place of the next attribute name is never negative.
proof fn lemma_places<E>(
    superuser: bool,
    has_source: bool,
    steps: Seq<ReplacementView<E>>,
    events: Seq<ReplacementEventView<E>>,
    i: int,
)
    requires
        is_replacement(superuser, has_source, steps, events),
        0 <= i < steps.len(),
    ensures
        steps[i] matches ReplacementView::CopyAttributes { step, .. }
            ==> crate::freebsd::attributes::has_place(step),
    decreases i,
{
    if i > 0 {
        lemma_places(superuser, has_source, steps, events, i - 1);
        assert(replacement_moves(superuser, steps, events, i - 1));
        match (steps[i - 1], events[i - 1]) {
            (
                ReplacementView::CopyAttributes { namespace, step, .. },
                ReplacementEventView::Attribute(event),
            ) => {
                crate::freebsd::attributes::lemma_copy_cause(namespace, superuser, step, event);
            },
            _ => {},
        }
    }
}

/// A replacement comes to a failure right after a cause, and only there: as long as no system call
/// fails, no list or value changes or is malformed, every value is set whole and the mode is right
/// once NFSv4 rules were set, it does not fail, whatever the source is like.
pub proof fn replacements_fail_only_after_a_cause<E>(
    superuser: bool,
    has_source: bool,
    steps: Seq<ReplacementView<E>>,
    events: Seq<ReplacementEventView<E>>,
    i: int,
)
    requires
        is_replacement(superuser, has_source, steps, events),
        0 <= i < events.len(),
    ensures
        steps[i + 1] is Failed <==> is_cause(superuser, steps[i], events[i]),
        (forall|k: int|
            0 <= k < events.len() ==> !is_cause(superuser, steps[k], #[trigger] events[k])) ==> !(
        steps[i + 1] is Failed),
{
    assert(replacement_moves(superuser, steps, events, i));
    lemma_places(superuser, has_source, steps, events, i);
    replacements_fail_for_a_cause(superuser, steps[i], events[i]);
    match (steps[i], events[i]) {
        (
            ReplacementView::CopyAttributes { namespace, step, .. },
            ReplacementEventView::Attribute(event),
        ) => {
            crate::freebsd::attributes::lemma_copy_cause(namespace, superuser, step, event);
        },
        _ => {},
    }
}

} // verus!
