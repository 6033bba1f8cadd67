//! What a replacement makes of the temporary file.
//!
//! The steps of a replacement are set against a model of the two files: the system calls read what
//! the source holds, and those that succeed do to the temporary file what they are for.
use crate::freebsd::attributes::Namespace;
use crate::freebsd::replacement::{AclKind, FileMetadata};
use vstd::prelude::*;

verus! {

/// The file that is to be replaced. `A` stands for access rules.
pub struct SourceFile<A> {
    pub metadata: FileMetadata,
    pub user: Seq<(Seq<u8>, Seq<u8>)>,
    pub system: Seq<(Seq<u8>, Seq<u8>)>,
    pub access: Option<A>,
    pub nfs4: Option<A>,
}

/// The temporary file.
pub struct StagedFile<A> {
    pub metadata: FileMetadata,
    pub user: Map<Seq<u8>, Seq<u8>>,
    pub system: Map<Seq<u8>, Seq<u8>>,
    pub access: Option<A>,
    pub nfs4: Option<A>,
    pub contents: Seq<u8>,
}

impl<A> SourceFile<A> {
    /// The attributes of a namespace.
    pub open spec fn attributes(self, namespace: Namespace) -> Seq<(Seq<u8>, Seq<u8>)> {
        match namespace {
            Namespace::User => self.user,
            Namespace::System => self.system,
        }
    }

    /// The access rules of a kind.
    pub open spec fn rules(self, kind: AclKind) -> Option<A> {
        match kind {
            AclKind::Access => self.access,
            AclKind::Nfs4 => self.nfs4,
        }
    }

    /// A file can have these attributes.
    pub open spec fn is_valid(self) -> bool {
        &&& crate::freebsd::attributes::is_attribute_table(self.user)
        &&& crate::freebsd::attributes::is_attribute_table(self.system)
    }
}

impl<A> StagedFile<A> {
    /// The attributes of a namespace.
    pub open spec fn attributes(self, namespace: Namespace) -> Map<Seq<u8>, Seq<u8>> {
        match namespace {
            Namespace::User => self.user,
            Namespace::System => self.system,
        }
    }

    /// The file with one more attribute.
    pub open spec fn with_attribute(
        self,
        namespace: Namespace,
        name: Seq<u8>,
        value: Seq<u8>,
    ) -> StagedFile<A> {
        match namespace {
            Namespace::User => StagedFile { user: self.user.insert(name, value), ..self },
            Namespace::System => StagedFile { system: self.system.insert(name, value), ..self },
        }
    }

    /// The file has the owner and group of `metadata`.
    pub open spec fn has_owner(self, metadata: FileMetadata) -> bool {
        self.metadata.uid == metadata.uid && self.metadata.gid == metadata.gid
    }

    /// The files differ in the mode alone.
    pub open spec fn same_but_mode(self, other: StagedFile<A>) -> bool {
        &&& self.has_owner(other.metadata)
        &&& self.user == other.user
        &&& self.system == other.system
        &&& self.access == other.access
        &&& self.nfs4 == other.nfs4
        &&& self.contents == other.contents
    }
}

// ---------------------------------------------------------------------------
// System calls on the files
// ---------------------------------------------------------------------------

/// What a call of the attribute copy makes of the temporary file, and what it can answer.
pub open spec fn attribute_call_is_honest<A, E>(
    source: SourceFile<A>,
    namespace: Namespace,
    step: crate::freebsd::attributes::AttributeView<E>,
    event: crate::freebsd::attributes::AttributeEventView<E>,
    before: StagedFile<A>,
    after: StagedFile<A>,
) -> bool {
    let attributes = source.attributes(namespace);
    match (step, event) {
        (
            crate::freebsd::attributes::AttributeView::ListSize,
            crate::freebsd::attributes::AttributeEventView::Failed(_),
        ) => after == before,
        (_, crate::freebsd::attributes::AttributeEventView::Failed(_)) => after.contents
            == before.contents,
        (
            crate::freebsd::attributes::AttributeView::SetValue { name, value, .. },
            crate::freebsd::attributes::AttributeEventView::Written(count),
        ) => if count == value.len() {
            after == before.with_attribute(namespace, name, value)
        } else {
            after.contents == before.contents
        },
        _ => after == before && event == crate::freebsd::attributes::steady_outcome(
            attributes,
            step,
        ),
    }
}

/// What a call makes of the temporary file, and what it can answer. A call that reads tells what is
/// there; one that succeeds does what it is for. A change of owner or of access rules may change
/// mode bits; a change to the mode of the source leaves the rules of the source alone. A call that
/// fails leaves the contents alone, but for the write, which may have written something, and does
/// nothing else.
pub open spec fn call_is_honest<A, E>(
    source: SourceFile<A>,
    contents: Seq<u8>,
    step: crate::freebsd::replacement::ReplacementView<E>,
    event: crate::freebsd::replacement::ReplacementEventView<E>,
    before: StagedFile<A>,
    after: StagedFile<A>,
) -> bool {
    match (step, event) {
        (
            crate::freebsd::replacement::ReplacementView::ReadAcl { kind, .. },
            crate::freebsd::replacement::ReplacementEventView::Failed(error),
        ) => {
            &&& after == before
            &&& crate::freebsd::config::acl_kind_is_absent(error.errno) ==> source.rules(
                kind,
            ) is None
        },
        (
            crate::freebsd::replacement::ReplacementView::WriteContents,
            crate::freebsd::replacement::ReplacementEventView::Failed(_),
        ) => after == (StagedFile { contents: after.contents, ..before }),
        (
            crate::freebsd::replacement::ReplacementView::Sync,
            crate::freebsd::replacement::ReplacementEventView::Failed(_),
        ) => after == before,
        (_, crate::freebsd::replacement::ReplacementEventView::Failed(_)) => after.contents
            == before.contents,
        (crate::freebsd::replacement::ReplacementView::OpenTemporary { .. }, _) => after == (
        StagedFile { contents: Seq::empty(), ..before }),
        (
            crate::freebsd::replacement::ReplacementView::ReadSource,
            crate::freebsd::replacement::ReplacementEventView::Metadata(metadata),
        ) => after == before && metadata == source.metadata,
        (
            crate::freebsd::replacement::ReplacementView::ReadTemporary { .. }
            | crate::freebsd::replacement::ReplacementView::CheckMode { .. },
            crate::freebsd::replacement::ReplacementEventView::Metadata(metadata),
        ) => after == before && metadata == before.metadata,
        (crate::freebsd::replacement::ReplacementView::ChangeOwner { source: wanted }, _) => {
            after.has_owner(wanted) && after.same_but_mode(
                StagedFile { metadata: wanted, ..before },
            )
        },
        (
            crate::freebsd::replacement::ReplacementView::CopyAttributes { namespace, step, .. },
            crate::freebsd::replacement::ReplacementEventView::Attribute(event),
        ) => attribute_call_is_honest(source, namespace, step, event, before, after),
        (crate::freebsd::replacement::ReplacementView::SetAcl { kind, .. }, _) => match kind {
            AclKind::Access => after.same_but_mode(StagedFile { access: source.access, ..before }),
            AclKind::Nfs4 => after.same_but_mode(StagedFile { nfs4: source.nfs4, ..before }),
        },
        (crate::freebsd::replacement::ReplacementView::SetPermissions { source: wanted }, _) => {
            &&& after.metadata.mode == wanted.mode
            &&& after.same_but_mode(before)
        },
        (crate::freebsd::replacement::ReplacementView::WriteContents, _) => after == (StagedFile {
            contents: before.contents + contents,
            ..before
        }),
        _ => after == before,
    }
}

/// `files` are the states of the temporary file between the steps of a replacement.
pub open spec fn is_honest_replacement<A, E>(
    superuser: bool,
    source: SourceFile<A>,
    contents: Seq<u8>,
    steps: Seq<crate::freebsd::replacement::ReplacementView<E>>,
    events: Seq<crate::freebsd::replacement::ReplacementEventView<E>>,
    files: Seq<StagedFile<A>>,
) -> bool {
    &&& crate::freebsd::replacement::is_replacement(superuser, true, steps, events)
    &&& files.len() == steps.len()
    &&& forall|i: int|
        0 <= i < events.len() ==> call_is_honest(
            source,
            contents,
            steps[i],
            #[trigger] events[i],
            files[i],
            files[i + 1],
        )
}

/// The listing of a namespace failed in a way that passes over it.
pub open spec fn is_passed_over<E>(
    superuser: bool,
    namespace: Namespace,
    step: crate::freebsd::replacement::ReplacementView<E>,
    event: crate::freebsd::replacement::ReplacementEventView<E>,
) -> bool {
    match (step, event) {
        (
            crate::freebsd::replacement::ReplacementView::CopyAttributes {
                namespace: listed,
                step: crate::freebsd::attributes::AttributeView::ListSize,
                ..
            },
            crate::freebsd::replacement::ReplacementEventView::Attribute(
                crate::freebsd::attributes::AttributeEventView::Failed(error),
            ),
        ) => listed == namespace && crate::freebsd::attributes::namespace_is_passed_over(
            namespace,
            superuser,
            error.errno,
        ),
        _ => false,
    }
}

/// One of the first `i` steps passed over the namespace.
pub open spec fn was_passed_over<E>(
    superuser: bool,
    namespace: Namespace,
    steps: Seq<crate::freebsd::replacement::ReplacementView<E>>,
    events: Seq<crate::freebsd::replacement::ReplacementEventView<E>>,
    i: int,
) -> bool {
    exists|k: int|
        0 <= k < i && is_passed_over(superuser, namespace, steps[k], #[trigger] events[k])
}

// ---------------------------------------------------------------------------
// What is taken over
// ---------------------------------------------------------------------------

/// The first `count` attributes are there with their values.
pub open spec fn holds_first(
    attributes: Seq<(Seq<u8>, Seq<u8>)>,
    held: Map<Seq<u8>, Seq<u8>>,
    count: int,
) -> bool {
    forall|j: int|
        0 <= j < count ==> held.dom().contains((#[trigger] attributes[j]).0)
            && held[attributes[j].0] == attributes[j].1
}

/// Every attribute is there with its value.
pub open spec fn holds_all(
    attributes: Seq<(Seq<u8>, Seq<u8>)>,
    held: Map<Seq<u8>, Seq<u8>>,
) -> bool {
    holds_first(attributes, held, attributes.len() as int)
}

/// The file has the access rules of a kind that the source has.
pub open spec fn holds_rules<A>(wanted: Option<A>, held: Option<A>) -> bool {
    wanted is Some ==> held == wanted
}

/// The copy of a namespace stands at attribute `k`.
spec fn is_at(
    attributes: Seq<(Seq<u8>, Seq<u8>)>,
    names: Seq<u8>,
    next: int,
    name: Seq<u8>,
    k: int,
) -> bool {
    &&& 0 <= k < attributes.len()
    &&& names == crate::freebsd::attributes::name_list(attributes)
    &&& next == crate::freebsd::attributes::name_list(attributes.take(k + 1)).len()
    &&& name == attributes[k].0
}

/// The copy of a namespace stands at an attribute, and holds all those before it.
spec fn is_under_way(
    attributes: Seq<(Seq<u8>, Seq<u8>)>,
    held: Map<Seq<u8>, Seq<u8>>,
    names: Seq<u8>,
    next: int,
    name: Seq<u8>,
) -> bool {
    exists|k: int| #[trigger]
        is_at(attributes, names, next, name, k) && holds_first(attributes, held, k)
}

/// What holds of the attributes at a step of the copy.
spec fn copy_invariant<E>(
    attributes: Seq<(Seq<u8>, Seq<u8>)>,
    held: Map<Seq<u8>, Seq<u8>>,
    step: crate::freebsd::attributes::AttributeView<E>,
) -> bool {
    match step {
        crate::freebsd::attributes::AttributeView::ListSize => true,
        crate::freebsd::attributes::AttributeView::ListNames { .. } => true,
        crate::freebsd::attributes::AttributeView::ValueSize { names, next, name } => is_under_way(
            attributes,
            held,
            names,
            next,
            name,
        ),
        crate::freebsd::attributes::AttributeView::ReadValue {
            names,
            next,
            name,
            ..
        } => is_under_way(attributes, held, names, next, name),
        crate::freebsd::attributes::AttributeView::SetValue { names, next, name, value } => {
            &&& is_under_way(attributes, held, names, next, name)
            &&& value == crate::freebsd::attributes::value_of(attributes, name)
        },
        crate::freebsd::attributes::AttributeView::Done => holds_all(attributes, held),
        crate::freebsd::attributes::AttributeView::Failed(_) => true,
    }
}

/// The step for the name behind the first `k` names.
proof fn lemma_name_step<E>(
    attributes: Seq<(Seq<u8>, Seq<u8>)>,
    held: Map<Seq<u8>, Seq<u8>>,
    k: int,
)
    requires
        crate::freebsd::attributes::is_attribute_table(attributes),
        0 <= k <= attributes.len(),
        holds_first(attributes, held, k),
    ensures
        copy_invariant(
            attributes,
            held,
            crate::freebsd::attributes::name_step::<E>(
                crate::freebsd::attributes::name_list(attributes),
                crate::freebsd::attributes::name_list(attributes.take(k)).len() as int,
            ),
        ),
{
    let names = crate::freebsd::attributes::name_list(attributes);
    let at = crate::freebsd::attributes::name_list(attributes.take(k)).len() as int;
    if k == attributes.len() {
        assert(attributes.take(k) =~= attributes);
    } else {
        crate::freebsd::attributes::lemma_name_at(attributes, k);
        let name = attributes[k].0;
        let next = at + 1 + name.len();
        assert(!attributes[k].0.contains(0u8));
        assert(crate::freebsd::attributes::name_step::<E>(names, at) == (
        crate::freebsd::attributes::AttributeView::<E>::ValueSize { names, next, name }));
        assert(is_at(attributes, names, next, name, k) && holds_first(attributes, held, k));
        assert(is_under_way(attributes, held, names, next, name));
    }
}

/// A call of the copy keeps what holds of the attributes.
proof fn lemma_copy_step<A, E>(
    superuser: bool,
    source: SourceFile<A>,
    namespace: Namespace,
    step: crate::freebsd::attributes::AttributeView<E>,
    event: crate::freebsd::attributes::AttributeEventView<E>,
    before: StagedFile<A>,
    after: StagedFile<A>,
)
    requires
        source.is_valid(),
        crate::freebsd::attributes::attribute_outcome(step, event),
        attribute_call_is_honest(source, namespace, step, event, before, after),
        copy_invariant(source.attributes(namespace), before.attributes(namespace), step),
    ensures
        ({
            let next = crate::freebsd::attributes::attribute_step(
                namespace,
                superuser,
                step,
                event,
            );
            ||| next is Failed
            ||| step is ListSize && event is Failed
            ||| copy_invariant(source.attributes(namespace), after.attributes(namespace), next)
        }),
{
    let attributes = source.attributes(namespace);
    let held = before.attributes(namespace);
    match (step, event) {
        (
            crate::freebsd::attributes::AttributeView::ListNames { size },
            crate::freebsd::attributes::AttributeEventView::Bytes(bytes),
        ) => {
            assert(attributes.take(0) =~= Seq::empty());
            assert(crate::freebsd::attributes::name_list(attributes.take(0)).len() == 0);
            assert(holds_first(attributes, after.attributes(namespace), 0));
            lemma_name_step::<E>(attributes, after.attributes(namespace), 0);
        },
        (
            crate::freebsd::attributes::AttributeView::SetValue { names, next, name, value },
            crate::freebsd::attributes::AttributeEventView::Written(count),
        ) => {
            if count == value.len() {
                let k = choose|k: int| #[trigger]
                    is_at(attributes, names, next, name, k) && holds_first(attributes, held, k);
                assert(is_at(attributes, names, next, name, k));
                crate::freebsd::attributes::lemma_value_of(attributes, k);
                let more = after.attributes(namespace);
                assert(more == held.insert(name, value));
                assert forall|j: int| 0 <= j < k + 1 implies more.dom().contains(
                    (#[trigger] attributes[j]).0,
                ) && more[attributes[j].0] == attributes[j].1 by {
                    if j < k {
                        assert(attributes[j].0 != attributes[k].0);
                    }
                }
                lemma_name_step::<E>(attributes, more, k + 1);
            }
        },
        _ => {},
    }
}

/// What holds of the temporary file at a step of the replacement.
spec fn replacement_invariant<A, E>(
    source: SourceFile<A>,
    contents: Seq<u8>,
    user_passed: bool,
    system_passed: bool,
    step: crate::freebsd::replacement::ReplacementView<E>,
    file: StagedFile<A>,
) -> bool {
    let owner = file.has_owner(source.metadata);
    let user = user_passed || holds_all(source.user, file.user);
    let system = system_passed || holds_all(source.system, file.system);
    let access = holds_rules(source.access, file.access);
    let nfs4 = holds_rules(source.nfs4, file.nfs4);
    let mode = file.metadata.mode == source.metadata.mode;
    match step {
        crate::freebsd::replacement::ReplacementView::OpenTemporary { has_source } => has_source,
        crate::freebsd::replacement::ReplacementView::OpenSource => file.contents.len() == 0,
        crate::freebsd::replacement::ReplacementView::ReadSource => file.contents.len() == 0,
        crate::freebsd::replacement::ReplacementView::ReadTemporary { source: wanted } => {
            wanted == source.metadata && file.contents.len() == 0
        },
        crate::freebsd::replacement::ReplacementView::ChangeOwner { source: wanted } => {
            wanted == source.metadata && file.contents.len() == 0
        },
        crate::freebsd::replacement::ReplacementView::CopyAttributes {
            source: wanted,
            namespace,
            step,
        } => {
            &&& wanted == source.metadata && owner && file.contents.len() == 0
            &&& namespace is System ==> user
            &&& copy_invariant(source.attributes(namespace), file.attributes(namespace), step)
        },
        crate::freebsd::replacement::ReplacementView::ReadAcl { source: wanted, kind } => {
            &&& wanted == source.metadata && owner && user && system && file.contents.len() == 0
            &&& kind is Nfs4 ==> access
        },
        crate::freebsd::replacement::ReplacementView::SetAcl { source: wanted, kind } => {
            &&& wanted == source.metadata && owner && user && system && file.contents.len() == 0
            &&& kind is Nfs4 ==> access
        },
        crate::freebsd::replacement::ReplacementView::CheckMode { source: wanted } => {
            wanted == source.metadata && owner && user && system && access && nfs4
                && file.contents.len() == 0
        },
        crate::freebsd::replacement::ReplacementView::SetPermissions { source: wanted } => {
            wanted == source.metadata && owner && user && system && access && nfs4
                && file.contents.len() == 0
        },
        crate::freebsd::replacement::ReplacementView::WriteContents => {
            owner && user && system && access && nfs4 && mode && file.contents.len() == 0
        },
        crate::freebsd::replacement::ReplacementView::Sync
        | crate::freebsd::replacement::ReplacementView::Finished => {
            owner && user && system && access && nfs4 && mode && file.contents == contents
        },
        crate::freebsd::replacement::ReplacementView::Failed(_) => true,
    }
}

/// A step of the replacement keeps what holds of the temporary file.
proof fn lemma_replacement_step<A, E>(
    superuser: bool,
    source: SourceFile<A>,
    contents: Seq<u8>,
    user_passed: bool,
    system_passed: bool,
    step: crate::freebsd::replacement::ReplacementView<E>,
    event: crate::freebsd::replacement::ReplacementEventView<E>,
    before: StagedFile<A>,
    after: StagedFile<A>,
)
    requires
        source.is_valid(),
        crate::freebsd::replacement::replacement_outcome(step, event),
        call_is_honest(source, contents, step, event, before, after),
        replacement_invariant(source, contents, user_passed, system_passed, step, before),
    ensures
        replacement_invariant(
            source,
            contents,
            user_passed || is_passed_over(superuser, Namespace::User, step, event),
            system_passed || is_passed_over(superuser, Namespace::System, step, event),
            crate::freebsd::replacement::replacement_step(superuser, step, event),
            after,
        ),
{
    match (step, event) {
        (
            crate::freebsd::replacement::ReplacementView::CopyAttributes {
                namespace,
                step: sub,
                ..
            },
            crate::freebsd::replacement::ReplacementEventView::Attribute(sub_event),
        ) => {
            lemma_copy_step(superuser, source, namespace, sub, sub_event, before, after);
        },
        (crate::freebsd::replacement::ReplacementView::WriteContents, _) => {
            assert(before.contents + contents =~= contents);
        },
        _ => {},
    }
}

/// What holds at every step.
proof fn lemma_replacement_run<A, E>(
    superuser: bool,
    source: SourceFile<A>,
    contents: Seq<u8>,
    steps: Seq<crate::freebsd::replacement::ReplacementView<E>>,
    events: Seq<crate::freebsd::replacement::ReplacementEventView<E>>,
    files: Seq<StagedFile<A>>,
    i: int,
)
    requires
        source.is_valid(),
        is_honest_replacement(superuser, source, contents, steps, events, files),
        0 <= i < steps.len(),
    ensures
        replacement_invariant(
            source,
            contents,
            was_passed_over(superuser, Namespace::User, steps, events, i),
            was_passed_over(superuser, Namespace::System, steps, events, i),
            steps[i],
            files[i],
        ),
    decreases i,
{
    if i > 0 {
        lemma_replacement_run(superuser, source, contents, steps, events, files, i - 1);
        assert(crate::freebsd::replacement::replacement_moves(superuser, steps, events, i - 1));
        let event = events[i - 1];
        let user = was_passed_over(superuser, Namespace::User, steps, events, i - 1);
        let system = was_passed_over(superuser, Namespace::System, steps, events, i - 1);
        lemma_replacement_step(
            superuser,
            source,
            contents,
            user,
            system,
            steps[i - 1],
            event,
            files[i - 1],
            files[i],
        );
        lemma_passed_over(superuser, Namespace::User, steps, events, i - 1);
        lemma_passed_over(superuser, Namespace::System, steps, events, i - 1);
    }
}

/// What was passed over before a step or by it was passed over after it.
proof fn lemma_passed_over<E>(
    superuser: bool,
    namespace: Namespace,
    steps: Seq<crate::freebsd::replacement::ReplacementView<E>>,
    events: Seq<crate::freebsd::replacement::ReplacementEventView<E>>,
    i: int,
)
    requires
        0 <= i,
    ensures
        was_passed_over(superuser, namespace, steps, events, i + 1) == (was_passed_over(
            superuser,
            namespace,
            steps,
            events,
            i,
        ) || is_passed_over(superuser, namespace, steps[i], events[i])),
{
    if was_passed_over(superuser, namespace, steps, events, i) {
        let k = choose|k: int|
            0 <= k < i && is_passed_over(superuser, namespace, steps[k], #[trigger] events[k]);
        assert(is_passed_over(superuser, namespace, steps[k], events[k]));
    }
}

/// A replacement that finishes preserves the file: the temporary file has the owner, group and mode
/// of the source, its access rules of each kind that it has, and every attribute of each namespace
/// that was not passed over, and it holds the new contents and nothing else. This is so whatever
/// was in the temporary file before, provided that the source does not change meanwhile.
pub proof fn finished_replacements_preserve_the_file<A, E>(
    superuser: bool,
    source: SourceFile<A>,
    contents: Seq<u8>,
    steps: Seq<crate::freebsd::replacement::ReplacementView<E>>,
    events: Seq<crate::freebsd::replacement::ReplacementEventView<E>>,
    files: Seq<StagedFile<A>>,
)
    requires
        source.is_valid(),
        is_honest_replacement(superuser, source, contents, steps, events, files),
        steps.last() is Finished,
    ensures
        ({
            let file = files.last();
            &&& file.metadata == source.metadata
            &&& holds_rules(source.access, file.access)
            &&& holds_rules(source.nfs4, file.nfs4)
            &&& holds_all(source.user, file.user) || was_passed_over(
                superuser,
                Namespace::User,
                steps,
                events,
                events.len() as int,
            )
            &&& holds_all(source.system, file.system) || was_passed_over(
                superuser,
                Namespace::System,
                steps,
                events,
                events.len() as int,
            )
            &&& file.contents == contents
        }),
{
    lemma_replacement_run(
        superuser,
        source,
        contents,
        steps,
        events,
        files,
        steps.len() - 1,
    );
}

// ---------------------------------------------------------------------------
// What a failure leaves behind
// ---------------------------------------------------------------------------

/// A call keeps the contents of the temporary file, but for the opening, which empties it, and the
/// write.
pub open spec fn contents_are_kept<A, E>(
    step: crate::freebsd::replacement::ReplacementView<E>,
    event: crate::freebsd::replacement::ReplacementEventView<E>,
    before: StagedFile<A>,
    after: StagedFile<A>,
) -> bool {
    ||| step is WriteContents
    ||| step is OpenTemporary && event is Succeeded && after.contents.len() == 0
    ||| !(step is OpenTemporary && event is Succeeded) && after.contents == before.contents
}

/// The temporary file was opened.
pub open spec fn is_opened<E>(
    events: Seq<crate::freebsd::replacement::ReplacementEventView<E>>,
) -> bool {
    events.len() > 0 && events[0] is Succeeded
}

/// Calls that do what they are for keep the contents where they should.
proof fn lemma_honest_calls_keep_contents<A, E>(
    source: SourceFile<A>,
    contents: Seq<u8>,
    step: crate::freebsd::replacement::ReplacementView<E>,
    event: crate::freebsd::replacement::ReplacementEventView<E>,
    before: StagedFile<A>,
    after: StagedFile<A>,
)
    requires
        crate::freebsd::replacement::replacement_outcome(step, event),
        call_is_honest(source, contents, step, event, before, after),
    ensures
        contents_are_kept(step, event, before, after),
{
}

/// From the opening on and up to the first write, the file is empty.
proof fn lemma_empty_until_written<A, E>(
    superuser: bool,
    has_source: bool,
    steps: Seq<crate::freebsd::replacement::ReplacementView<E>>,
    events: Seq<crate::freebsd::replacement::ReplacementEventView<E>>,
    files: Seq<StagedFile<A>>,
    i: int,
)
    requires
        crate::freebsd::replacement::is_replacement(superuser, has_source, steps, events),
        files.len() == steps.len(),
        forall|k: int|
            0 <= k < events.len() ==> contents_are_kept(
                steps[k],
                #[trigger] events[k],
                files[k],
                files[k + 1],
            ),
        is_opened(events),
        1 <= i < steps.len(),
        forall|k: int| 0 <= k < i ==> !(#[trigger] steps[k] is WriteContents),
    ensures
        files[i].contents.len() == 0,
    decreases i,
{
    let event = events[i - 1];
    assert(!(steps[i - 1] is WriteContents));
    if i > 1 {
        lemma_empty_until_written(superuser, has_source, steps, events, files, i - 1);
    }
}

/// A replacement that fails before the contents are written leaves an empty file, whatever made it
/// fail: a system call, a source that changed meanwhile or a mode that cannot be kept. No byte of
/// the new contents is in the temporary file, and none of what was in it before.
pub proof fn failures_before_the_write_leave_an_empty_file<A, E>(
    superuser: bool,
    has_source: bool,
    steps: Seq<crate::freebsd::replacement::ReplacementView<E>>,
    events: Seq<crate::freebsd::replacement::ReplacementEventView<E>>,
    files: Seq<StagedFile<A>>,
)
    requires
        crate::freebsd::replacement::is_replacement(superuser, has_source, steps, events),
        files.len() == steps.len(),
        forall|k: int|
            0 <= k < events.len() ==> contents_are_kept(
                steps[k],
                #[trigger] events[k],
                files[k],
                files[k + 1],
            ),
        is_opened(events),
        steps.last() is Failed,
        forall|k: int| 0 <= k < steps.len() ==> !(#[trigger] steps[k] is WriteContents),
    ensures
        files.last().contents.len() == 0,
{
    lemma_empty_until_written(
        superuser,
        has_source,
        steps,
        events,
        files,
        steps.len() - 1,
    );
}

/// A replacement that fails after the temporary file was opened and without a write leaves an empty
/// file.
pub proof fn failed_replacements_leave_an_empty_file<A, E>(
    superuser: bool,
    source: SourceFile<A>,
    contents: Seq<u8>,
    steps: Seq<crate::freebsd::replacement::ReplacementView<E>>,
    events: Seq<crate::freebsd::replacement::ReplacementEventView<E>>,
    files: Seq<StagedFile<A>>,
)
    requires
        is_honest_replacement(superuser, source, contents, steps, events, files),
        is_opened(events),
        steps.last() is Failed,
        forall|k: int| 0 <= k < steps.len() ==> !(#[trigger] steps[k] is WriteContents),
    ensures
        files.last().contents.len() == 0,
{
    assert forall|k: int| 0 <= k < events.len() implies contents_are_kept(
        steps[k],
        #[trigger] events[k],
        files[k],
        files[k + 1],
    ) by {
        assert(crate::freebsd::replacement::replacement_moves(superuser, steps, events, k));
        lemma_honest_calls_keep_contents(
            source,
            contents,
            steps[k],
            events[k],
            files[k],
            files[k + 1],
        );
    }
    failures_before_the_write_leave_an_empty_file(superuser, true, steps, events, files);
}

/// Contents stand in the temporary file only under the right access: at every moment after it was
/// opened, and however the replacement ends, the file is empty or has the owner, group, mode and
/// access rules of the source.
pub proof fn contents_are_never_exposed<A, E>(
    superuser: bool,
    source: SourceFile<A>,
    contents: Seq<u8>,
    steps: Seq<crate::freebsd::replacement::ReplacementView<E>>,
    events: Seq<crate::freebsd::replacement::ReplacementEventView<E>>,
    files: Seq<StagedFile<A>>,
    i: int,
)
    requires
        source.is_valid(),
        is_honest_replacement(superuser, source, contents, steps, events, files),
        is_opened(events),
        1 <= i < files.len(),
    ensures
        files[i].contents.len() == 0 || {
            &&& files[i].metadata == source.metadata
            &&& holds_rules(source.access, files[i].access)
            &&& holds_rules(source.nfs4, files[i].nfs4)
        },
{
    let event = events[i - 1];
    assert(crate::freebsd::replacement::replacement_moves(superuser, steps, events, i - 1));
    lemma_replacement_run(superuser, source, contents, steps, events, files, i - 1);
    lemma_honest_calls_keep_contents(
        source,
        contents,
        steps[i - 1],
        event,
        files[i - 1],
        files[i],
    );
    if i > 1 {
        assert(crate::freebsd::replacement::replacement_moves(superuser, steps, events, 0));
        crate::freebsd::replacement::lemma_stages_grow(
            superuser,
            true,
            steps,
            events,
            1,
            i - 1,
        );
    }
}

// ---------------------------------------------------------------------------
// Replacements that go through
// ---------------------------------------------------------------------------

/// What comes of `step` where no system call fails but for the look-up of rules that the source does
/// not have, which fails with `absent`, and the listing of the namespaces in `unlisted`. The
/// temporary file is created with the metadata `temporary` and gets the mode of the source with its
/// NFSv4 rules.
pub open spec fn steady_call<A, E>(
    source: SourceFile<A>,
    temporary: FileMetadata,
    absent: crate::freebsd::errors::OsError<E>,
    unlisted: Map<Namespace, crate::freebsd::errors::OsError<E>>,
    step: crate::freebsd::replacement::ReplacementView<E>,
) -> crate::freebsd::replacement::ReplacementEventView<E> {
    match step {
        crate::freebsd::replacement::ReplacementView::ReadSource => {
            crate::freebsd::replacement::ReplacementEventView::Metadata(source.metadata)
        },
        crate::freebsd::replacement::ReplacementView::ReadTemporary { .. } => {
            crate::freebsd::replacement::ReplacementEventView::Metadata(temporary)
        },
        crate::freebsd::replacement::ReplacementView::CheckMode { .. } => {
            crate::freebsd::replacement::ReplacementEventView::Metadata(
                FileMetadata {
                    uid: source.metadata.uid,
                    gid: source.metadata.gid,
                    mode: if source.nfs4 is Some {
                        source.metadata.mode
                    } else {
                        temporary.mode
                    },
                },
            )
        },
        crate::freebsd::replacement::ReplacementView::CopyAttributes { namespace, step, .. } => {
            crate::freebsd::replacement::ReplacementEventView::Attribute(
                if step is ListSize && unlisted.dom().contains(namespace) {
                    crate::freebsd::attributes::AttributeEventView::Failed(unlisted[namespace])
                } else {
                    crate::freebsd::attributes::steady_outcome(source.attributes(namespace), step)
                },
            )
        },
        crate::freebsd::replacement::ReplacementView::ReadAcl { kind, .. } => if source.rules(
            kind,
        ) is Some {
            crate::freebsd::replacement::ReplacementEventView::Succeeded
        } else {
            crate::freebsd::replacement::ReplacementEventView::Failed(absent)
        },
        _ => crate::freebsd::replacement::ReplacementEventView::Succeeded,
    }
}

/// A namespace can be passed over for these errors: the file system has no attributes, or it is the
/// system namespace and an ordinary user may not look into it.
pub open spec fn may_be_unlisted<E>(
    superuser: bool,
    unlisted: Map<Namespace, crate::freebsd::errors::OsError<E>>,
) -> bool {
    forall|namespace: Namespace| #[trigger]
        unlisted.dom().contains(namespace) ==> {
            let errno = unlisted[namespace].errno;
            ||| errno == crate::freebsd::errors::Errno::NotSupported
            ||| namespace == Namespace::System && !superuser && (errno
                == crate::freebsd::errors::Errno::NotPermitted || errno
                == crate::freebsd::errors::Errno::AccessDenied)
        }
}

/// The work then finishes after `rounds` more steps at most.
pub open spec fn finishes<A, E>(
    superuser: bool,
    source: SourceFile<A>,
    temporary: FileMetadata,
    absent: crate::freebsd::errors::OsError<E>,
    unlisted: Map<Namespace, crate::freebsd::errors::OsError<E>>,
    step: crate::freebsd::replacement::ReplacementView<E>,
    rounds: nat,
) -> bool
    decreases rounds,
{
    if step is Finished {
        true
    } else if rounds == 0 {
        false
    } else {
        let event = steady_call(source, temporary, absent, unlisted, step);
        &&& crate::freebsd::replacement::replacement_outcome(step, event)
        &&& finishes(
            superuser,
            source,
            temporary,
            absent,
            unlisted,
            crate::freebsd::replacement::replacement_step(superuser, step, event),
            (rounds - 1) as nat,
        )
    }
}

/// What finishes soon finishes later.
proof fn lemma_finishes_later<A, E>(
    superuser: bool,
    source: SourceFile<A>,
    temporary: FileMetadata,
    absent: crate::freebsd::errors::OsError<E>,
    unlisted: Map<Namespace, crate::freebsd::errors::OsError<E>>,
    step: crate::freebsd::replacement::ReplacementView<E>,
    rounds: nat,
    more: nat,
)
    requires
        finishes(superuser, source, temporary, absent, unlisted, step, rounds),
        rounds <= more,
    ensures
        finishes(superuser, source, temporary, absent, unlisted, step, more),
    decreases rounds,
{
    if !(step is Finished) {
        let event = steady_call(source, temporary, absent, unlisted, step);
        lemma_finishes_later(
            superuser,
            source,
            temporary,
            absent,
            unlisted,
            crate::freebsd::replacement::replacement_step(superuser, step, event),
            (rounds - 1) as nat,
            (more - 1) as nat,
        );
    }
}

/// From the access rules on, the work finishes.
proof fn lemma_rules_finish<A, E>(
    superuser: bool,
    source: SourceFile<A>,
    temporary: FileMetadata,
    absent: crate::freebsd::errors::OsError<E>,
    unlisted: Map<Namespace, crate::freebsd::errors::OsError<E>>,
)
    requires
        absent.errno is InvalidArgument || absent.errno is NotSupported,
    ensures
        finishes(
            superuser,
            source,
            temporary,
            absent,
            unlisted,
            crate::freebsd::replacement::ReplacementView::<E>::ReadAcl {
                source: source.metadata,
                kind: AclKind::Access,
            },
            7,
        ),
{
    reveal_with_fuel(finishes, 8);
    assert(finishes(
        superuser,
        source,
        temporary,
        absent,
        unlisted,
        crate::freebsd::replacement::ReplacementView::<E>::WriteContents,
        2,
    ));
}

/// From the `k`th name of a namespace on, the work finishes if it does from the end of the namespace
/// on.
proof fn lemma_names_finish<A, E>(
    superuser: bool,
    source: SourceFile<A>,
    temporary: FileMetadata,
    absent: crate::freebsd::errors::OsError<E>,
    unlisted: Map<Namespace, crate::freebsd::errors::OsError<E>>,
    namespace: Namespace,
    k: int,
    rounds: nat,
)
    requires
        source.is_valid(),
        0 <= k <= source.attributes(namespace).len(),
        finishes(
            superuser,
            source,
            temporary,
            absent,
            unlisted,
            crate::freebsd::replacement::after_attributes(
                source.metadata,
                namespace,
                crate::freebsd::attributes::AttributeView::<E>::Done,
            ),
            rounds,
        ),
    ensures
        finishes(
            superuser,
            source,
            temporary,
            absent,
            unlisted,
            crate::freebsd::replacement::after_attributes(
                source.metadata,
                namespace,
                crate::freebsd::attributes::name_step::<E>(
                    crate::freebsd::attributes::name_list(source.attributes(namespace)),
                    crate::freebsd::attributes::name_list(
                        source.attributes(namespace).take(k),
                    ).len() as int,
                ),
            ),
            (rounds + 3 * (source.attributes(namespace).len() - k)) as nat,
        ),
    decreases source.attributes(namespace).len() - k,
{
    let attributes = source.attributes(namespace);
    let names = crate::freebsd::attributes::name_list(attributes);
    let at = crate::freebsd::attributes::name_list(attributes.take(k)).len() as int;
    if k == attributes.len() {
        assert(attributes.take(k) =~= attributes);
    } else {
        crate::freebsd::attributes::lemma_name_at(attributes, k);
        crate::freebsd::attributes::lemma_value_of(attributes, k);
        let (name, value) = attributes[k];
        assert(!attributes[k].0.contains(0u8));
        let next = at + 1 + name.len();
        let metadata = source.metadata;
        let one: crate::freebsd::replacement::ReplacementView<E> =
            crate::freebsd::replacement::ReplacementView::CopyAttributes {
            source: metadata,
            namespace,
            step: crate::freebsd::attributes::AttributeView::ValueSize { names, next, name },
        };
        let two: crate::freebsd::replacement::ReplacementView<E> =
            crate::freebsd::replacement::ReplacementView::CopyAttributes {
            source: metadata,
            namespace,
            step: crate::freebsd::attributes::AttributeView::ReadValue {
                names,
                next,
                name,
                size: value.len() as int,
            },
        };
        let three: crate::freebsd::replacement::ReplacementView<E> =
            crate::freebsd::replacement::ReplacementView::CopyAttributes {
            source: metadata,
            namespace,
            step: crate::freebsd::attributes::AttributeView::SetValue { names, next, name, value },
        };
        let four: crate::freebsd::replacement::ReplacementView<E> =
            crate::freebsd::replacement::after_attributes(
            metadata,
            namespace,
            crate::freebsd::attributes::name_step::<E>(names, next),
        );
        lemma_names_finish::<A, E>(
            superuser,
            source,
            temporary,
            absent,
            unlisted,
            namespace,
            k + 1,
            rounds,
        );
        let left = (rounds + 3 * (attributes.len() - k - 1)) as nat;
        assert(finishes(superuser, source, temporary, absent, unlisted, four, left));
        assert(crate::freebsd::replacement::replacement_step(
            superuser,
            three,
            steady_call(source, temporary, absent, unlisted, three),
        ) == four);
        assert(finishes(superuser, source, temporary, absent, unlisted, three, left + 1));
        assert(crate::freebsd::replacement::replacement_step(
            superuser,
            two,
            steady_call(source, temporary, absent, unlisted, two),
        ) == three);
        assert(finishes(superuser, source, temporary, absent, unlisted, two, left + 2));
        assert(crate::freebsd::replacement::replacement_step(
            superuser,
            one,
            steady_call(source, temporary, absent, unlisted, one),
        ) == two);
        assert(finishes(superuser, source, temporary, absent, unlisted, one, left + 3));
    }
}

/// From the start of a namespace on, the work finishes if it does from the end of the namespace on.
proof fn lemma_namespace_finishes<A, E>(
    superuser: bool,
    source: SourceFile<A>,
    temporary: FileMetadata,
    absent: crate::freebsd::errors::OsError<E>,
    unlisted: Map<Namespace, crate::freebsd::errors::OsError<E>>,
    namespace: Namespace,
    rounds: nat,
)
    requires
        source.is_valid(),
        may_be_unlisted(superuser, unlisted),
        finishes(
            superuser,
            source,
            temporary,
            absent,
            unlisted,
            crate::freebsd::replacement::after_attributes(
                source.metadata,
                namespace,
                crate::freebsd::attributes::AttributeView::<E>::Done,
            ),
            rounds,
        ),
    ensures
        finishes(
            superuser,
            source,
            temporary,
            absent,
            unlisted,
            crate::freebsd::replacement::ReplacementView::<E>::CopyAttributes {
                source: source.metadata,
                namespace,
                step: crate::freebsd::attributes::AttributeView::ListSize,
            },
            (rounds + 3 * source.attributes(namespace).len() + 2) as nat,
        ),
{
    let attributes = source.attributes(namespace);
    let names = crate::freebsd::attributes::name_list(attributes);
    let metadata = source.metadata;
    let one: crate::freebsd::replacement::ReplacementView<E> =
        crate::freebsd::replacement::ReplacementView::CopyAttributes {
        source: metadata,
        namespace,
        step: crate::freebsd::attributes::AttributeView::ListSize,
    };
    let two: crate::freebsd::replacement::ReplacementView<E> =
        crate::freebsd::replacement::ReplacementView::CopyAttributes {
        source: metadata,
        namespace,
        step: crate::freebsd::attributes::AttributeView::ListNames { size: names.len() as int },
    };
    if unlisted.dom().contains(namespace) {
        let done = crate::freebsd::replacement::after_attributes(
            metadata,
            namespace,
            crate::freebsd::attributes::AttributeView::<E>::Done,
        );
        assert(crate::freebsd::replacement::replacement_step(
            superuser,
            one,
            steady_call(source, temporary, absent, unlisted, one),
        ) == done);
        lemma_finishes_later(
            superuser,
            source,
            temporary,
            absent,
            unlisted,
            done,
            rounds,
            (rounds + 3 * attributes.len() + 1) as nat,
        );
        assert(finishes(
            superuser,
            source,
            temporary,
            absent,
            unlisted,
            one,
            (rounds + 3 * attributes.len() + 2) as nat,
        ));
    }
    assert(attributes.take(0) =~= Seq::empty());
    lemma_names_finish::<A, E>(superuser, source, temporary, absent, unlisted, namespace, 0, rounds);
    let left = (rounds + 3 * attributes.len()) as nat;
    assert(finishes(superuser, source, temporary, absent, unlisted, two, left + 1));
    if !unlisted.dom().contains(namespace) {
        assert(crate::freebsd::replacement::replacement_step(
            superuser,
            one,
            steady_call(source, temporary, absent, unlisted, one),
        ) == two);
        assert(finishes(superuser, source, temporary, absent, unlisted, one, left + 2));
    }
}

/// Every replacement goes through: whatever owner, group, mode, attributes and access rules the
/// source has, and whatever metadata the temporary file was created with, the work finishes after a
/// bounded number of steps, if every system call succeeds and tells what is there, rules that the
/// source does not have are looked up in vain, a namespace fails to be listed only where it is to be
/// passed over, and NFSv4 rules bring the mode of the source with them.
pub proof fn replacements_go_through<A, E>(
    superuser: bool,
    has_source: bool,
    source: SourceFile<A>,
    temporary: FileMetadata,
    absent: crate::freebsd::errors::OsError<E>,
    unlisted: Map<Namespace, crate::freebsd::errors::OsError<E>>,
)
    requires
        source.is_valid(),
        may_be_unlisted(superuser, unlisted),
        absent.errno == crate::freebsd::errors::Errno::InvalidArgument || absent.errno
            == crate::freebsd::errors::Errno::NotSupported,
    ensures
        finishes(
            superuser,
            source,
            temporary,
            absent,
            unlisted,
            crate::freebsd::replacement::ReplacementView::<E>::OpenTemporary { has_source },
            (3 * (source.user.len() + source.system.len()) + 16) as nat,
        ),
{
    let metadata = source.metadata;
    let left: nat = (7 + 3 * source.system.len() + 2) as nat;
    let rest: nat = (left + 3 * source.user.len() + 2) as nat;
    lemma_rules_finish(superuser, source, temporary, absent, unlisted);
    lemma_namespace_finishes::<A, E>(superuser, source, temporary, absent, unlisted, Namespace::System, 7);
    lemma_namespace_finishes::<A, E>(superuser, source, temporary, absent, unlisted, Namespace::User, left);
    let copy = crate::freebsd::replacement::attributes_start::<E>(metadata);
    assert(finishes(superuser, source, temporary, absent, unlisted, copy, rest));
    lemma_finishes_later(superuser, source, temporary, absent, unlisted, copy, rest, rest + 1);
    let owner: crate::freebsd::replacement::ReplacementView<E> =
        crate::freebsd::replacement::ReplacementView::ChangeOwner { source: metadata };
    assert(finishes(superuser, source, temporary, absent, unlisted, owner, rest + 1));
    let read: crate::freebsd::replacement::ReplacementView<E> =
        crate::freebsd::replacement::ReplacementView::ReadTemporary { source: metadata };
    assert(finishes(superuser, source, temporary, absent, unlisted, read, rest + 2));
    assert(finishes(
        superuser,
        source,
        temporary,
        absent,
        unlisted,
        crate::freebsd::replacement::ReplacementView::<E>::ReadSource,
        rest + 3,
    ));
    assert(finishes(
        superuser,
        source,
        temporary,
        absent,
        unlisted,
        crate::freebsd::replacement::ReplacementView::<E>::OpenSource,
        rest + 4,
    ));
    if !has_source {
        reveal_with_fuel(finishes, 4);
    }
}

} // verus!
