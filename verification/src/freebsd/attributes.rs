//! Copying the extended attributes of one namespace from one file to another.
//!
//! The copy is a state machine. A step names the system call that comes next; its outcome leads to
//! the step after it.
use crate::freebsd::errors::{ConfigError, Errno, OsError};
use vstd::prelude::*;
use vstd::slice::slice_subrange;

verus! {

/// The namespaces of extended attributes.
#[derive(Debug, Clone, Copy, PartialEq, Eq, Structural)]
pub enum Namespace {
    User,
    System,
}

/// Where a copy stands: the system call to make next, or how it ended.
pub enum AttributeStep<E> {
    /// Ask for the size of the source's name list.
    ListSize,
    /// Read the name list into a buffer of `capacity` bytes, one more than the list should take.
    ListNames { capacity: usize },
    /// Ask for the size of the value of `name`. The names from `next` on are still to come.
    ValueSize { names: Vec<u8>, next: usize, name: Vec<u8> },
    /// Read the value of `name` into a buffer of `capacity` bytes, one more than it should take.
    ReadValue { names: Vec<u8>, next: usize, name: Vec<u8>, capacity: usize },
    /// Set `name` to `value` on the destination.
    SetValue { names: Vec<u8>, next: usize, name: Vec<u8>, value: Vec<u8> },
    /// Every attribute is copied, or the namespace is not for this user.
    Done,
    /// The copy cannot go on.
    Failed(ConfigError<E>),
}

/// What came of a step.
pub enum AttributeEvent<E> {
    /// The size that was asked for.
    Size(usize),
    /// The bytes that were read.
    Bytes(Vec<u8>),
    /// The number of bytes that were set.
    Written(usize),
    /// The system call failed.
    Failed(OsError<E>),
}

// ---------------------------------------------------------------------------
// Model
// ---------------------------------------------------------------------------

/// Where a copy stands, over mathematical values.
pub enum AttributeView<E> {
    ListSize,
    ListNames { size: int },
    ValueSize { names: Seq<u8>, next: int, name: Seq<u8> },
    ReadValue { names: Seq<u8>, next: int, name: Seq<u8>, size: int },
    SetValue { names: Seq<u8>, next: int, name: Seq<u8>, value: Seq<u8> },
    Done,
    Failed(crate::freebsd::errors::ConfigErrorView<E>),
}

/// What came of a step, over mathematical values.
pub enum AttributeEventView<E> {
    Size(int),
    Bytes(Seq<u8>),
    Written(int),
    Failed(OsError<E>),
}

impl<E> View for AttributeStep<E> {
    type V = AttributeView<E>;

    open spec fn view(&self) -> AttributeView<E> {
        match *self {
            AttributeStep::ListSize => AttributeView::ListSize,
            AttributeStep::ListNames { capacity } => AttributeView::ListNames {
                size: capacity - 1,
            },
            AttributeStep::ValueSize { names, next, name } => AttributeView::ValueSize {
                names: names@,
                next: next as int,
                name: name@,
            },
            AttributeStep::ReadValue { names, next, name, capacity } => AttributeView::ReadValue {
                names: names@,
                next: next as int,
                name: name@,
                size: capacity - 1,
            },
            AttributeStep::SetValue { names, next, name, value } => AttributeView::SetValue {
                names: names@,
                next: next as int,
                name: name@,
                value: value@,
            },
            AttributeStep::Done => AttributeView::Done,
            AttributeStep::Failed(error) => AttributeView::Failed(error@),
        }
    }
}

impl<E> View for AttributeEvent<E> {
    type V = AttributeEventView<E>;

    open spec fn view(&self) -> AttributeEventView<E> {
        match *self {
            AttributeEvent::Size(size) => AttributeEventView::Size(size as int),
            AttributeEvent::Bytes(bytes) => AttributeEventView::Bytes(bytes@),
            AttributeEvent::Written(count) => AttributeEventView::Written(count as int),
            AttributeEvent::Failed(error) => AttributeEventView::Failed(error),
        }
    }
}

/// `event` is an outcome of `step`. A size is one that the kernel can return.
pub open spec fn attribute_outcome<E>(
    step: AttributeView<E>,
    event: AttributeEventView<E>,
) -> bool {
    match step {
        AttributeView::ListSize | AttributeView::ValueSize { .. } => match event {
            AttributeEventView::Size(size) => 0 <= size <= isize::MAX,
            AttributeEventView::Failed(_) => true,
            _ => false,
        },
        AttributeView::ListNames { .. } | AttributeView::ReadValue { .. } => event is Bytes
            || event is Failed,
        AttributeView::SetValue { .. } => event is Written || event is Failed,
        AttributeView::Done | AttributeView::Failed(_) => false,
    }
}

/// A namespace is passed over where the file system has no attributes, and the system namespace
/// also where an ordinary user may not look into it.
pub open spec fn namespace_is_passed_over(
    namespace: Namespace,
    superuser: bool,
    errno: Errno,
) -> bool {
    ||| errno is NotSupported
    ||| namespace is System && !superuser && (errno is NotPermitted || errno is AccessDenied)
}

/// The step for the name at `next`: a name list holds each name behind one byte with its length.
pub open spec fn name_step<E>(names: Seq<u8>, next: int) -> AttributeView<E> {
    if next >= names.len() {
        AttributeView::Done
    } else {
        let end = next + 1 + names[next];
        if end > names.len() {
            AttributeView::Failed(
                crate::freebsd::errors::ConfigErrorView::InvalidAttributeList,
            )
        } else {
            let name = names.subrange(next + 1, end);
            if name.contains(0u8) {
                AttributeView::Failed(
                    crate::freebsd::errors::ConfigErrorView::NulInAttributeName(name),
                )
            } else {
                AttributeView::ValueSize { names, next: end, name }
            }
        }
    }
}

/// The step that follows `step` on `event`.
pub open spec fn attribute_step<E>(
    namespace: Namespace,
    superuser: bool,
    step: AttributeView<E>,
    event: AttributeEventView<E>,
) -> AttributeView<E> {
    match (step, event) {
        (AttributeView::ListSize, AttributeEventView::Failed(error)) => if namespace_is_passed_over(
            namespace,
            superuser,
            error.errno,
        ) {
            AttributeView::Done
        } else {
            AttributeView::Failed(crate::freebsd::errors::ConfigErrorView::Os(error.error))
        },
        (_, AttributeEventView::Failed(error)) => AttributeView::Failed(
            crate::freebsd::errors::ConfigErrorView::Os(error.error),
        ),
        (AttributeView::ListSize, AttributeEventView::Size(size)) => AttributeView::ListNames {
            size,
        },
        (AttributeView::ListNames { size }, AttributeEventView::Bytes(bytes)) => if bytes.len()
            != size {
            AttributeView::Failed(
                crate::freebsd::errors::ConfigErrorView::AttributeListChanged,
            )
        } else {
            name_step(bytes, 0)
        },
        (
            AttributeView::ValueSize { names, next, name },
            AttributeEventView::Size(size),
        ) => AttributeView::ReadValue { names, next, name, size },
        (
            AttributeView::ReadValue { names, next, name, size },
            AttributeEventView::Bytes(bytes),
        ) => if bytes.len() != size {
            AttributeView::Failed(crate::freebsd::errors::ConfigErrorView::AttributeChanged)
        } else {
            AttributeView::SetValue { names, next, name, value: bytes }
        },
        (
            AttributeView::SetValue { names, next, name: _, value },
            AttributeEventView::Written(count),
        ) => if count != value.len() {
            AttributeView::Failed(crate::freebsd::errors::ConfigErrorView::ShortAttributeWrite)
        } else {
            name_step(names, next)
        },
        _ => step,
    }
}

// ---------------------------------------------------------------------------
// Steps
// ---------------------------------------------------------------------------

/// Whether a failure to list a namespace means that there is nothing to copy for this user.
pub fn passes_over(namespace: Namespace, superuser: bool, errno: Errno) -> (passes: bool)
    ensures
        passes == namespace_is_passed_over(namespace, superuser, errno),
{
    errno == Errno::NotSupported || (namespace == Namespace::System && !superuser && (errno
        == Errno::NotPermitted || errno == Errno::AccessDenied))
}

/// Whether a name holds a NUL byte.
fn holds_nul(name: &[u8]) -> (holds: bool)
    ensures
        holds == name@.contains(0u8),
{
    let mut i: usize = 0;
    while i < name.len()
        invariant
            i <= name@.len(),
            forall|k: int| 0 <= k < i ==> name@[k] != 0,
        decreases name@.len() - i,
    {
        if name[i] == 0 {
            return true;
        }
        i = i + 1;
    }
    false
}

/// The bytes of a slice, owned.
fn owned(bytes: &[u8]) -> (copy: Vec<u8>)
    ensures
        copy@ == bytes@,
{
    let mut copy: Vec<u8> = Vec::new();
    copy.extend_from_slice(bytes);
    copy
}

/// The step for the name at `next` of a name list.
fn next_name<E>(names: Vec<u8>, next: usize) -> (step: AttributeStep<E>)
    ensures
        step@ == name_step::<E>(names@, next as int),
{
    if next >= names.len() {
        return AttributeStep::Done;
    }
    let length: usize = names[next] as usize;
    if length > names.len() - next - 1 {
        return AttributeStep::Failed(ConfigError::InvalidAttributeList);
    }
    let end: usize = next + 1 + length;
    let name: Vec<u8> = owned(slice_subrange(names.as_slice(), next + 1, end));
    if holds_nul(name.as_slice()) {
        return AttributeStep::Failed(ConfigError::NulInAttributeName(name));
    }
    AttributeStep::ValueSize { names, next: end, name }
}

impl<E> AttributeStep<E> {
    /// The step that follows this one, once it had this outcome.
    pub fn advance(
        self,
        namespace: Namespace,
        superuser: bool,
        event: AttributeEvent<E>,
    ) -> (next: AttributeStep<E>)
        requires
            attribute_outcome(self@, event@),
        ensures
            next@ == attribute_step(namespace, superuser, self@, event@),
    {
        match self {
            AttributeStep::ListSize => match event {
                AttributeEvent::Size(size) => AttributeStep::ListNames { capacity: size + 1 },
                AttributeEvent::Failed(error) => if passes_over(namespace, superuser, error.errno) {
                    AttributeStep::Done
                } else {
                    AttributeStep::Failed(ConfigError::Os(error.error))
                },
                _ => AttributeStep::ListSize,
            },
            AttributeStep::ListNames { capacity } => match event {
                AttributeEvent::Bytes(bytes) => if bytes.len() >= capacity || bytes.len()
                    != capacity - 1 {
                    AttributeStep::Failed(ConfigError::AttributeListChanged)
                } else {
                    next_name(bytes, 0)
                },
                AttributeEvent::Failed(error) => AttributeStep::Failed(ConfigError::Os(error.error)),
                _ => AttributeStep::ListNames { capacity },
            },
            AttributeStep::ValueSize { names, next, name } => match event {
                AttributeEvent::Size(size) => AttributeStep::ReadValue {
                    names,
                    next,
                    name,
                    capacity: size + 1,
                },
                AttributeEvent::Failed(error) => AttributeStep::Failed(ConfigError::Os(error.error)),
                _ => AttributeStep::ValueSize { names, next, name },
            },
            AttributeStep::ReadValue { names, next, name, capacity } => match event {
                AttributeEvent::Bytes(value) => if value.len() >= capacity || value.len()
                    != capacity - 1 {
                    AttributeStep::Failed(ConfigError::AttributeChanged)
                } else {
                    AttributeStep::SetValue { names, next, name, value }
                },
                AttributeEvent::Failed(error) => AttributeStep::Failed(ConfigError::Os(error.error)),
                _ => AttributeStep::ReadValue { names, next, name, capacity },
            },
            AttributeStep::SetValue { names, next, name, value } => match event {
                AttributeEvent::Written(count) => if count != value.len() {
                    AttributeStep::Failed(ConfigError::ShortAttributeWrite)
                } else {
                    next_name(names, next)
                },
                AttributeEvent::Failed(error) => AttributeStep::Failed(ConfigError::Os(error.error)),
                _ => AttributeStep::SetValue { names, next, name, value },
            },
            AttributeStep::Done => AttributeStep::Done,
            AttributeStep::Failed(error) => AttributeStep::Failed(error),
        }
    }
}

// ---------------------------------------------------------------------------
// Laws
// ---------------------------------------------------------------------------

/// The name list of a file with these attributes, as the kernel lays it out.
pub open spec fn name_list(attributes: Seq<(Seq<u8>, Seq<u8>)>) -> Seq<u8>
    decreases attributes.len(),
{
    if attributes.len() == 0 {
        Seq::empty()
    } else {
        let name = attributes.last().0;
        name_list(attributes.drop_last()).push(name.len() as u8) + name
    }
}

/// A file can have these attributes: the names are distinct, at most 255 bytes long and without
/// NUL bytes, and every size is one that the kernel can return.
pub open spec fn is_attribute_table(attributes: Seq<(Seq<u8>, Seq<u8>)>) -> bool {
    &&& name_list(attributes).len() <= isize::MAX
    &&& forall|i: int|
        0 <= i < attributes.len() ==> {
            &&& (#[trigger] attributes[i]).0.len() <= 255
            &&& !attributes[i].0.contains(0u8)
            &&& attributes[i].1.len() <= isize::MAX
        }
    &&& forall|i: int, j: int|
        0 <= i < j < attributes.len() ==> (#[trigger] attributes[i]).0 != (
        #[trigger] attributes[j]).0
}

/// The value of the attribute `name`.
pub open spec fn value_of(attributes: Seq<(Seq<u8>, Seq<u8>)>, name: Seq<u8>) -> Seq<u8> {
    let i = choose|i: int| 0 <= i < attributes.len() && (#[trigger] attributes[i]).0 == name;
    attributes[i].1
}

/// What comes of `step` where the source has these attributes throughout and the destination takes
/// whatever it is given.
pub open spec fn steady_outcome<E>(
    attributes: Seq<(Seq<u8>, Seq<u8>)>,
    step: AttributeView<E>,
) -> AttributeEventView<E> {
    match step {
        AttributeView::ListNames { .. } => AttributeEventView::Bytes(name_list(attributes)),
        AttributeView::ValueSize { name, .. } => AttributeEventView::Size(
            value_of(attributes, name).len() as int,
        ),
        AttributeView::ReadValue { name, .. } => AttributeEventView::Bytes(
            value_of(attributes, name),
        ),
        AttributeView::SetValue { value, .. } => AttributeEventView::Written(value.len() as int),
        _ => AttributeEventView::Size(name_list(attributes).len() as int),
    }
}

/// Where `rounds` steps from `step` on lead in that case, and the attributes that they set on the
/// destination.
pub open spec fn steady_copy<E>(
    namespace: Namespace,
    superuser: bool,
    attributes: Seq<(Seq<u8>, Seq<u8>)>,
    step: AttributeView<E>,
    rounds: nat,
) -> (AttributeView<E>, Seq<(Seq<u8>, Seq<u8>)>)
    decreases rounds,
{
    if rounds == 0 || step is Done || step is Failed {
        (step, Seq::empty())
    } else {
        let next = attribute_step(namespace, superuser, step, steady_outcome(attributes, step));
        let (end, set) = steady_copy(
            namespace,
            superuser,
            attributes,
            next,
            (rounds - 1) as nat,
        );
        match step {
            AttributeView::SetValue { name, value, .. } => (end, seq![(name, value)] + set),
            _ => (end, set),
        }
    }
}

/// The list of the first attributes starts the list of all.
proof fn lemma_name_list_prefix(attributes: Seq<(Seq<u8>, Seq<u8>)>, k: int)
    requires
        0 <= k <= attributes.len(),
    ensures
        name_list(attributes.take(k)).len() <= name_list(attributes).len(),
        name_list(attributes).take(name_list(attributes.take(k)).len() as int) == name_list(
            attributes.take(k),
        ),
    decreases attributes.len() - k,
{
    if k == attributes.len() {
        assert(attributes.take(k) =~= attributes);
        assert(name_list(attributes).take(name_list(attributes).len() as int) =~= name_list(
            attributes,
        ));
    } else {
        let short = attributes.drop_last();
        lemma_name_list_prefix(short, k);
        assert(short.take(k) =~= attributes.take(k));
        let part = name_list(attributes.take(k));
        assert(name_list(attributes).take(part.len() as int) =~= name_list(short).take(
            part.len() as int,
        ));
    }
}

/// At the place where the first `k` names end, the list holds name `k` behind its length.
pub proof fn lemma_name_at(attributes: Seq<(Seq<u8>, Seq<u8>)>, k: int)
    requires
        is_attribute_table(attributes),
        0 <= k < attributes.len(),
    ensures
        ({
            let all = name_list(attributes);
            let at = name_list(attributes.take(k)).len() as int;
            let name = attributes[k].0;
            &&& at < all.len()
            &&& all[at] == name.len()
            &&& at + 1 + name.len() <= all.len()
            &&& all.subrange(at + 1, at + 1 + name.len()) == name
            &&& name_list(attributes.take(k + 1)).len() == at + 1 + name.len()
        }),
{
    let all = name_list(attributes);
    let before = name_list(attributes.take(k));
    let name = attributes[k].0;
    let with = attributes.take(k + 1);
    assert(with.drop_last() =~= attributes.take(k));
    assert(with.last() == attributes[k]);
    let upto = name_list(with);
    assert(upto == before.push(name.len() as u8) + name);
    lemma_name_list_prefix(attributes, k + 1);
    assert(all.take(upto.len() as int) == upto);
    let at = before.len() as int;
    assert(all[at] == all.take(upto.len() as int)[at]);
    assert(all.subrange(at + 1, at + 1 + name.len()) =~= name) by {
        assert forall|i: int| 0 <= i < name.len() implies all[at + 1 + i] == name[i] by {
            assert(all[at + 1 + i] == all.take(upto.len() as int)[at + 1 + i]);
        }
    }
}

/// The value of an attribute is that of its only entry.
pub proof fn lemma_value_of(attributes: Seq<(Seq<u8>, Seq<u8>)>, k: int)
    requires
        is_attribute_table(attributes),
        0 <= k < attributes.len(),
    ensures
        value_of(attributes, attributes[k].0) == attributes[k].1,
{
    let name = attributes[k].0;
    let i = choose|i: int| 0 <= i < attributes.len() && (#[trigger] attributes[i]).0 == name;
    assert(0 <= i < attributes.len() && attributes[i].0 == name);
    assert(i == k);
}

/// From the `k`th name on, the rest of the attributes is set.
proof fn lemma_steady_rest<E>(
    namespace: Namespace,
    superuser: bool,
    attributes: Seq<(Seq<u8>, Seq<u8>)>,
    k: int,
    rounds: nat,
)
    requires
        is_attribute_table(attributes),
        0 <= k <= attributes.len(),
        rounds >= 3 * (attributes.len() - k),
    ensures
        steady_copy(
            namespace,
            superuser,
            attributes,
            name_step::<E>(
                name_list(attributes),
                name_list(attributes.take(k)).len() as int,
            ),
            rounds,
        ) == (AttributeView::<E>::Done, attributes.skip(k)),
    decreases attributes.len() - k,
{
    let names = name_list(attributes);
    let at = name_list(attributes.take(k)).len() as int;
    if k == attributes.len() {
        assert(attributes.take(k) =~= attributes);
        assert(attributes.skip(k) =~= Seq::empty());
    } else {
        lemma_name_at(attributes, k);
        let (name, value) = attributes[k];
        let next = at + 1 + name.len();
        let one: AttributeView<E> = AttributeView::ValueSize { names, next, name };
        assert(name_step::<E>(names, at) == one);
        lemma_value_of(attributes, k);
        let two: AttributeView<E> = AttributeView::ReadValue {
            names,
            next,
            name,
            size: value.len() as int,
        };
        let three: AttributeView<E> = AttributeView::SetValue { names, next, name, value };
        assert(attribute_step(namespace, superuser, one, steady_outcome(attributes, one)) == two);
        assert(attribute_step(namespace, superuser, two, steady_outcome(attributes, two))
            == three);
        let four = name_step::<E>(names, next);
        assert(attribute_step(namespace, superuser, three, steady_outcome(attributes, three))
            == four);
        lemma_steady_rest::<E>(
            namespace,
            superuser,
            attributes,
            k + 1,
            (rounds - 3) as nat,
        );
        reveal_with_fuel(steady_copy, 4);
        assert(attributes.skip(k) =~= seq![(name, value)] + attributes.skip(k + 1));
    }
}

/// Every attribute of the source is set on the destination, with its value and in the order of the
/// list, and the copy then ends well, provided that the source does not change meanwhile and the
/// destination takes what it is given.
pub proof fn every_attribute_is_copied<E>(
    namespace: Namespace,
    superuser: bool,
    attributes: Seq<(Seq<u8>, Seq<u8>)>,
    rounds: nat,
)
    requires
        is_attribute_table(attributes),
        rounds >= 3 * attributes.len() + 2,
    ensures
        steady_copy(namespace, superuser, attributes, AttributeView::<E>::ListSize, rounds) == (
            AttributeView::<E>::Done,
            attributes,
        ),
{
    let names = name_list(attributes);
    let start: AttributeView<E> = AttributeView::ListSize;
    let listing: AttributeView<E> = AttributeView::ListNames { size: names.len() as int };
    assert(attributes.take(0) =~= Seq::empty());
    assert(attributes.skip(0) =~= attributes);
    assert(attribute_step(namespace, superuser, start, steady_outcome(attributes, start))
        == listing);
    assert(attribute_step(namespace, superuser, listing, steady_outcome(attributes, listing))
        == name_step::<E>(names, 0));
    lemma_steady_rest::<E>(namespace, superuser, attributes, 0, (rounds - 2) as nat);
    reveal_with_fuel(steady_copy, 3);
}

/// The name list is malformed at `next`: it ends inside a name, or the name holds a NUL byte.
pub open spec fn is_malformed_at(names: Seq<u8>, next: int) -> bool {
    &&& next < names.len()
    &&& next + 1 + names[next] > names.len() || exists|i: int|
        next < i <= next + names[next] && #[trigger] names[i] == 0
}

/// The step for a name fails exactly where the list is malformed there, and is the last one exactly
/// at the end of the list.
proof fn lemma_name_step_failures<E>(names: Seq<u8>, next: int)
    requires
        0 <= next,
    ensures
        name_step::<E>(names, next) is Failed <==> is_malformed_at(names, next),
        name_step::<E>(names, next) is Done <==> next >= names.len(),
{
    if next < names.len() && next + 1 + names[next] <= names.len() {
        let end = next + 1 + names[next];
        let name = names.subrange(next + 1, end);
        if name.contains(0u8) {
            let j = choose|j: int| 0 <= j < name.len() && name[j] == 0u8;
            assert(names[next + 1 + j] == 0);
        }
        if exists|i: int| next < i <= next + names[next] && #[trigger] names[i] == 0 {
            let i = choose|i: int| next < i <= next + names[next] && #[trigger] names[i] == 0;
            assert(name[i - next - 1] == 0u8);
        }
    }
}

/// A copy fails for these causes alone, and for each of them: a system call that fails, unless it is
/// the listing of a namespace that the file system lacks or an ordinary user may not look into; a
/// list or a value whose size changed; a malformed list; a value that was set in part. The failure
/// of a system call is told by its own error.
pub proof fn copies_fail_for_a_cause<E>(
    namespace: Namespace,
    superuser: bool,
    step: AttributeView<E>,
    event: AttributeEventView<E>,
)
    requires
        attribute_outcome(step, event),
        step matches AttributeView::SetValue { next, .. } ==> next >= 0,
    ensures
        ({
            let next = attribute_step(namespace, superuser, step, event);
            &&& event matches AttributeEventView::Failed(error) ==> {
                if step is ListSize && (error.errno == Errno::NotSupported || (namespace
                    == Namespace::System && !superuser && (error.errno == Errno::NotPermitted
                    || error.errno == Errno::AccessDenied))) {
                    next is Done
                } else {
                    next == AttributeView::Failed(
                        crate::freebsd::errors::ConfigErrorView::Os(error.error),
                    )
                }
            }
            &&& event matches AttributeEventView::Size(_) ==> !(next is Failed)
            &&& event matches AttributeEventView::Bytes(bytes) ==> match step {
                AttributeView::ListNames { size } => {
                    next is Failed <==> bytes.len() != size || is_malformed_at(bytes, 0)
                },
                AttributeView::ReadValue { size, .. } => next is Failed <==> bytes.len() != size,
                _ => true,
            }
            &&& event matches AttributeEventView::Written(count) ==> match step {
                AttributeView::SetValue { names, next: at, value, .. } => {
                    next is Failed <==> count != value.len() || is_malformed_at(names, at)
                },
                _ => true,
            }
        }),
{
    match (step, event) {
        (AttributeView::ListNames { .. }, AttributeEventView::Bytes(bytes)) => {
            lemma_name_step_failures::<E>(bytes, 0);
        },
        (AttributeView::SetValue { names, next, .. }, AttributeEventView::Written(_)) => {
            lemma_name_step_failures::<E>(names, next);
        },
        _ => {},
    }
}

/// A buffer has room for one byte more than the size that was told, so that growth shows.
pub proof fn buffers_have_room_for_one_byte_more<E>(
    capacity: usize,
    names: Vec<u8>,
    next: usize,
    name: Vec<u8>,
)
    ensures
        (AttributeStep::<E>::ListNames { capacity })@ == (AttributeView::<E>::ListNames {
            size: capacity - 1,
        }),
        (AttributeStep::<E>::ReadValue { names, next, name, capacity })@ == (AttributeView::<
            E,
        >::ReadValue { names: names@, next: next as int, name: name@, size: capacity - 1 }),
{
}

/// Every outcome that the kernel can give is taken: any call may fail, and a size, some bytes or a
/// count come where they were asked for.
pub proof fn every_outcome_is_taken<E>(
    step: AttributeView<E>,
    size: int,
    bytes: Seq<u8>,
    error: OsError<E>,
)
    ensures
        !(step is Done || step is Failed) ==> attribute_outcome(
            step,
            AttributeEventView::Failed(error),
        ),
        (step is ListSize || step is ValueSize) && 0 <= size <= isize::MAX ==> attribute_outcome(
            step,
            AttributeEventView::Size(size),
        ),
        step is ListNames || step is ReadValue ==> attribute_outcome(
            step,
            AttributeEventView::Bytes(bytes),
        ),
        step is SetValue ==> attribute_outcome(step, AttributeEventView::Written(size)),
{
}

/// A failure of a copy says what it failed on: a list or a value that changed, a value that was set
/// in part, a list that ends inside a name, or a name with a NUL byte, which it holds.
pub proof fn copy_failures_are_told_apart<E>(
    namespace: Namespace,
    superuser: bool,
    names: Seq<u8>,
    next: int,
    name: Seq<u8>,
    value: Seq<u8>,
    size: int,
)
    requires
        0 <= next,
    ensures
        names.len() != size ==> attribute_step(
            namespace,
            superuser,
            AttributeView::<E>::ListNames { size },
            AttributeEventView::Bytes(names),
        ) == AttributeView::<E>::Failed(
            crate::freebsd::errors::ConfigErrorView::AttributeListChanged,
        ),
        value.len() != size ==> attribute_step(
            namespace,
            superuser,
            AttributeView::<E>::ReadValue { names, next, name, size },
            AttributeEventView::Bytes(value),
        ) == AttributeView::<E>::Failed(
            crate::freebsd::errors::ConfigErrorView::AttributeChanged,
        ),
        value.len() != size ==> attribute_step(
            namespace,
            superuser,
            AttributeView::<E>::SetValue { names, next, name, value },
            AttributeEventView::Written(size),
        ) == AttributeView::<E>::Failed(
            crate::freebsd::errors::ConfigErrorView::ShortAttributeWrite,
        ),
        is_malformed_at(names, next) ==> attribute_step(
            namespace,
            superuser,
            AttributeView::<E>::SetValue { names, next, name, value },
            AttributeEventView::Written(value.len() as int),
        ) == AttributeView::<E>::Failed(
            if next + 1 + names[next] > names.len() {
                crate::freebsd::errors::ConfigErrorView::InvalidAttributeList
            } else {
                crate::freebsd::errors::ConfigErrorView::NulInAttributeName(
                    names.subrange(next + 1, next + 1 + names[next]),
                )
            },
        ),
{
    lemma_name_step_failures::<E>(names, next);
}

/// A copy cannot go on after `event`: a system call failed, other than the listing of a namespace
/// that is passed over, a list or a value has another size than was told, a list is malformed at the
/// next name, or a value was set in part.
pub open spec fn is_copy_cause<E>(
    namespace: Namespace,
    superuser: bool,
    step: AttributeView<E>,
    event: AttributeEventView<E>,
) -> bool {
    match (step, event) {
        (AttributeView::ListSize, AttributeEventView::Failed(error)) => !(error.errno
            == Errno::NotSupported || (namespace == Namespace::System && !superuser && (error.errno
            == Errno::NotPermitted || error.errno == Errno::AccessDenied))),
        (_, AttributeEventView::Failed(_)) => true,
        (AttributeView::ListNames { size }, AttributeEventView::Bytes(bytes)) => bytes.len() != size
            || is_malformed_at(bytes, 0),
        (AttributeView::ReadValue { size, .. }, AttributeEventView::Bytes(bytes)) => bytes.len()
            != size,
        (AttributeView::SetValue { names, next, value, .. }, AttributeEventView::Written(count)) => {
            count != value.len() || is_malformed_at(names, next)
        },
        _ => false,
    }
}

/// The place of the next name is never negative.
pub open spec fn has_place<E>(step: AttributeView<E>) -> bool {
    match step {
        AttributeView::ValueSize { next, .. } => next >= 0,
        AttributeView::ReadValue { next, .. } => next >= 0,
        AttributeView::SetValue { next, .. } => next >= 0,
        _ => true,
    }
}

/// A step of a copy fails exactly where there is a cause, and keeps the place of the next name.
pub proof fn lemma_copy_cause<E>(
    namespace: Namespace,
    superuser: bool,
    step: AttributeView<E>,
    event: AttributeEventView<E>,
)
    requires
        attribute_outcome(step, event),
        has_place(step),
    ensures
        attribute_step(namespace, superuser, step, event) is Failed <==> is_copy_cause(
            namespace,
            superuser,
            step,
            event,
        ),
        has_place(attribute_step(namespace, superuser, step, event)),
{
    copies_fail_for_a_cause(namespace, superuser, step, event);
}

} // verus!
