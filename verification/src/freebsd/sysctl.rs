//! Kernel tables that may grow while they are read.
use crate::freebsd::errors::Errno;
use vstd::prelude::*;

verus! {

/// How often a table is asked for at most.
pub const SYSCTL_ROUNDS: usize = 3;

/// The tables, each with the id that it is asked for with.
#[derive(Debug, Clone, Copy, PartialEq, Eq, Structural)]
pub enum KernelTable {
    /// The processes of a process group.
    ProcessGroup,
    /// The processes of a session.
    Session,
    /// The arguments of a process.
    Arguments,
    /// The environment of a process.
    Environment,
    /// The working directory of a process.
    WorkingDirectory,
}

/// What one round came to.
pub enum Round {
    /// The table.
    Bytes(Vec<u8>),
    /// The table outgrew its buffer.
    Outgrown,
    /// There is no such table.
    Nothing,
}

/// What one round came to, over mathematical values.
pub enum RoundView {
    Bytes(Seq<u8>),
    Outgrown,
    Nothing,
}

impl View for Round {
    type V = RoundView;

    open spec fn view(&self) -> RoundView {
        match *self {
            Round::Bytes(bytes) => RoundView::Bytes(bytes@),
            Round::Outgrown => RoundView::Outgrown,
            Round::Nothing => RoundView::Nothing,
        }
    }
}

/// The filled part of a buffer.
pub open spec fn filled(buffer: Seq<u8>, length: int) -> Seq<u8> {
    if length < buffer.len() {
        buffer.take(length)
    } else {
        buffer
    }
}

/// What a read into a buffer of `size` bytes came to. Whatever is beyond the buffer is none of it.
pub open spec fn fetched_round(
    size: usize,
    fetched: Result<(Vec<u8>, usize), Errno>,
) -> RoundView {
    match fetched {
        Ok((buffer, length)) => RoundView::Bytes(
            filled(filled(buffer@, size as int), length as int),
        ),
        Err(errno) => if errno is NoMemory {
            RoundView::Outgrown
        } else {
            RoundView::Nothing
        },
    }
}

/// `round` is what a read of the table into a buffer of `size` bytes came to.
pub open spec fn is_fetched<F>(
    fetch: F,
    table: KernelTable,
    id: i32,
    size: usize,
    round: RoundView,
) -> bool where F: Fn(KernelTable, i32, usize) -> Result<(Vec<u8>, usize), Errno> {
    exists|fetched: Result<(Vec<u8>, usize), Errno>| #[trigger]
        call_ensures(fetch, (table, id, size), fetched) && round == fetched_round(size, fetched)
}

/// `round` is what a round came to: the size was asked for, and unless there was none or it was 0,
/// the table was read into a buffer of that size.
pub open spec fn is_round<S, F>(
    size: S,
    fetch: F,
    table: KernelTable,
    id: i32,
    round: RoundView,
) -> bool where
    S: Fn(KernelTable, i32) -> Option<usize>,
    F: Fn(KernelTable, i32, usize) -> Result<(Vec<u8>, usize), Errno>,
 {
    exists|length: Option<usize>| #[trigger]
        call_ensures(size, (table, id), length) && if length is None || length == Some(0usize) {
            round is Nothing
        } else {
            is_fetched(fetch, table, id, length->0, round)
        }
}

/// `count` bytes are no more than a size that the table was said to have.
pub open spec fn fits_a_size<S>(size: S, table: KernelTable, id: i32, count: nat) -> bool where
    S: Fn(KernelTable, i32) -> Option<usize>,
 {
    exists|length: usize| #[trigger]
        call_ensures(size, (table, id), Some(length)) && count <= length
}

/// `rounds` were made: another one only after the table outgrew its buffer, and no more than there
/// may be.
pub open spec fn are_rounds<S, F>(
    size: S,
    fetch: F,
    table: KernelTable,
    id: i32,
    rounds: Seq<RoundView>,
) -> bool where
    S: Fn(KernelTable, i32) -> Option<usize>,
    F: Fn(KernelTable, i32, usize) -> Result<(Vec<u8>, usize), Errno>,
 {
    &&& 0 < rounds.len() <= SYSCTL_ROUNDS
    &&& forall|i: int|
        0 <= i < rounds.len() ==> is_round(size, fetch, table, id, #[trigger] rounds[i])
    &&& forall|i: int| 0 <= i < rounds.len() - 1 ==> #[trigger] rounds[i] is Outgrown
    &&& rounds.last() is Outgrown ==> rounds.len() == SYSCTL_ROUNDS
}

/// `bytes` is the table that the last round gave.
pub open spec fn reads_table<S, F>(
    size: S,
    fetch: F,
    table: KernelTable,
    id: i32,
    bytes: Option<Seq<u8>>,
) -> bool where
    S: Fn(KernelTable, i32) -> Option<usize>,
    F: Fn(KernelTable, i32, usize) -> Result<(Vec<u8>, usize), Errno>,
 {
    exists|rounds: Seq<RoundView>| #[trigger]
        are_rounds(size, fetch, table, id, rounds) && bytes == match rounds.last() {
            RoundView::Bytes(bytes) => Some(bytes),
            _ => None,
        }
}

/// The contents of an optional byte vector.
pub open spec fn optional_bytes(bytes: Option<Vec<u8>>) -> Option<Seq<u8>> {
    match bytes {
        Some(bytes) => Some(bytes@),
        None => None,
    }
}

/// One round: asks for the size of a table, then reads it.
fn sysctl_round<S, F>(table: KernelTable, id: i32, size: &S, fetch: &F) -> (round: Round) where
    S: Fn(KernelTable, i32) -> Option<usize>,
    F: Fn(KernelTable, i32, usize) -> Result<(Vec<u8>, usize), Errno>,

    requires
        call_requires(*size, (table, id)),
        forall|length: usize| call_requires(*fetch, (table, id, length)),
    ensures
        is_round(*size, *fetch, table, id, round@),
{
    let length: usize = match size(table, id) {
        Some(length) => length,
        None => {
            return Round::Nothing;
        },
    };
    assert(call_ensures(*size, (table, id), Some(length)));
    if length == 0 {
        return Round::Nothing;
    }
    let fetched: Result<(Vec<u8>, usize), Errno> = fetch(table, id, length);
    let ghost outcome = fetched;
    assert(call_ensures(*fetch, (table, id, length), outcome));
    match fetched {
        Ok((buffer, used)) => {
            let mut bytes: Vec<u8> = buffer;
            bytes.truncate(length);
            bytes.truncate(used);
            assert(bytes@ == filled(filled(outcome->Ok_0.0@, length as int), used as int));
            Round::Bytes(bytes)
        },
        Err(errno) => if errno == Errno::NoMemory {
            Round::Outgrown
        } else {
            Round::Nothing
        },
    }
}

/// Reads a kernel table. `size` asks for its size, and `fetch` reads it into a buffer of a size
/// and says how much of it was filled. A table may grow between the two, so a buffer that is too
/// small is followed by another round, but by a bounded number of them only.
pub fn sysctl_bytes<S, F>(
    table: KernelTable,
    id: i32,
    size: &S,
    fetch: &F,
) -> (bytes: Option<Vec<u8>>) where
    S: Fn(KernelTable, i32) -> Option<usize>,
    F: Fn(KernelTable, i32, usize) -> Result<(Vec<u8>, usize), Errno>,

    requires
        call_requires(*size, (table, id)),
        forall|length: usize| call_requires(*fetch, (table, id, length)),
    ensures
        reads_table(*size, *fetch, table, id, optional_bytes(bytes)),
        bytes matches Some(bytes) ==> fits_a_size(*size, table, id, bytes@.len()),
{
    let ghost mut rounds: Seq<RoundView> = Seq::empty();
    let mut made: usize = 0;
    while made < SYSCTL_ROUNDS
        invariant
            call_requires(*size, (table, id)),
            forall|length: usize| call_requires(*fetch, (table, id, length)),
            made <= SYSCTL_ROUNDS,
            rounds.len() == made,
            forall|i: int|
                0 <= i < made ==> is_round(*size, *fetch, table, id, #[trigger] rounds[i])
                    && rounds[i] is Outgrown,
        decreases SYSCTL_ROUNDS - made,
    {
        let round: Round = sysctl_round(table, id, size, fetch);
        proof {
            rounds = rounds.push(round@);
        }
        made = made + 1;
        match round {
            Round::Bytes(bytes) => {
                assert(are_rounds(*size, *fetch, table, id, rounds));
                proof {
                    rounds_fit_their_size(*size, *fetch, table, id, bytes@);
                }
                return Some(bytes);
            },
            Round::Nothing => {
                assert(are_rounds(*size, *fetch, table, id, rounds));
                return None;
            },
            Round::Outgrown => {},
        }
    }
    assert(are_rounds(*size, *fetch, table, id, rounds));
    None
}

/// A table is no longer than the size that it was said to have in the round that gave it, whatever
/// the reader handed back.
pub proof fn rounds_fit_their_size<S, F>(
    size: S,
    fetch: F,
    table: KernelTable,
    id: i32,
    bytes: Seq<u8>,
) where
    S: Fn(KernelTable, i32) -> Option<usize>,
    F: Fn(KernelTable, i32, usize) -> Result<(Vec<u8>, usize), Errno>,

    requires
        is_round(size, fetch, table, id, RoundView::Bytes(bytes)),
    ensures
        fits_a_size(size, table, id, bytes.len()),
{
    let length = choose|length: Option<usize>| #[trigger]
        call_ensures(size, (table, id), length) && !(length is None || length == Some(0usize))
            && is_fetched(fetch, table, id, length->0, RoundView::Bytes(bytes));
    assert(call_ensures(size, (table, id), Some(length->0)));
}

/// A table that keeps its size is read whole, whatever it holds.
pub proof fn steady_tables_are_read_whole<S, F>(
    size: S,
    fetch: F,
    table: KernelTable,
    id: i32,
    room: usize,
    contents: Seq<u8>,
    bytes: Option<Seq<u8>>,
) where
    S: Fn(KernelTable, i32) -> Option<usize>,
    F: Fn(KernelTable, i32, usize) -> Result<(Vec<u8>, usize), Errno>,

    requires
        room > 0,
        contents.len() <= room,
        forall|length: Option<usize>| #[trigger]
            call_ensures(size, (table, id), length) ==> length == Some(room),
        forall|fetched: Result<(Vec<u8>, usize), Errno>| #[trigger]
            call_ensures(fetch, (table, id, room), fetched) ==> {
                &&& fetched is Ok
                &&& fetched->Ok_0.0@.len() == room
                &&& fetched->Ok_0.1 == contents.len()
                &&& fetched->Ok_0.0@.take(contents.len() as int) == contents
            },
        reads_table(size, fetch, table, id, bytes),
    ensures
        bytes == Some(contents),
{
    let rounds = choose|rounds: Seq<RoundView>| #[trigger]
        are_rounds(size, fetch, table, id, rounds) && bytes == match rounds.last() {
            RoundView::Bytes(bytes) => Some(bytes),
            _ => None,
        };
    let round = rounds[0];
    assert(is_round(size, fetch, table, id, round));
    let length = choose|length: Option<usize>| #[trigger]
        call_ensures(size, (table, id), length) && if length is None || length == Some(0usize) {
            round is Nothing
        } else {
            is_fetched(fetch, table, id, length->0, round)
        };
    assert(is_fetched(fetch, table, id, room, round));
    let fetched = choose|fetched: Result<(Vec<u8>, usize), Errno>| #[trigger]
        call_ensures(fetch, (table, id, room), fetched) && round == fetched_round(room, fetched);
    let buffer = fetched->Ok_0.0@;
    assert(buffer.take(contents.len() as int) =~= contents);
    if contents.len() == room {
        assert(buffer.take(contents.len() as int) =~= buffer);
    }
    assert(round == RoundView::Bytes(contents));
    assert(rounds.len() == 1);
}

/// A table that has no size, or an empty one, gives nothing, and neither does one that can never be
/// read.
pub proof fn missing_tables_give_nothing<S, F>(
    size: S,
    fetch: F,
    table: KernelTable,
    id: i32,
    bytes: Option<Seq<u8>>,
) where
    S: Fn(KernelTable, i32) -> Option<usize>,
    F: Fn(KernelTable, i32, usize) -> Result<(Vec<u8>, usize), Errno>,

    requires
        (forall|length: Option<usize>| #[trigger]
            call_ensures(size, (table, id), length) ==> length is None || length->0 == 0) || (
        forall|room: usize, fetched: Result<(Vec<u8>, usize), Errno>| #[trigger]
            call_ensures(fetch, (table, id, room), fetched) ==> fetched is Err),
        reads_table(size, fetch, table, id, bytes),
    ensures
        bytes is None,
{
    let rounds = choose|rounds: Seq<RoundView>| #[trigger]
        are_rounds(size, fetch, table, id, rounds) && bytes == match rounds.last() {
            RoundView::Bytes(bytes) => Some(bytes),
            _ => None,
        };
    let round = rounds[rounds.len() - 1];
    assert(is_round(size, fetch, table, id, round));
    let length = choose|length: Option<usize>| #[trigger]
        call_ensures(size, (table, id), length) && if length is None || length == Some(0usize) {
            round is Nothing
        } else {
            is_fetched(fetch, table, id, length->0, round)
        };
    if !(length is None || length == Some(0usize)) {
        assert(is_fetched(fetch, table, id, length->0, round));
        let fetched = choose|fetched: Result<(Vec<u8>, usize), Errno>| #[trigger]
            call_ensures(fetch, (table, id, length->0), fetched) && round == fetched_round(
                length->0,
                fetched,
            );
        assert(call_ensures(fetch, (table, id, length->0), fetched));
    }
}

/// A table that outgrew its buffer is asked for again, three times in all, and no other outcome is
/// followed by another round.
pub proof fn growing_tables_are_asked_for_again<S, F>(
    size: S,
    fetch: F,
    table: KernelTable,
    id: i32,
    rounds: Seq<RoundView>,
    room: usize,
    errno: Errno,
) where
    S: Fn(KernelTable, i32) -> Option<usize>,
    F: Fn(KernelTable, i32, usize) -> Result<(Vec<u8>, usize), Errno>,

    requires
        are_rounds(size, fetch, table, id, rounds),
    ensures
        1 <= rounds.len() <= 3,
        forall|i: int|
            0 <= i < rounds.len() ==> (#[trigger] rounds[i] is Outgrown && i < 2 <==> i + 1
                < rounds.len()),
        fetched_round(room, Err(errno)) is Outgrown <==> errno == Errno::NoMemory,
        fetched_round(room, Err(errno)) is Nothing <==> errno != Errno::NoMemory,
{
}

} // verus!
