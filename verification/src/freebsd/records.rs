//! What the bytes of kernel tables say.
use crate::text::from_utf8_lossy;
use vstd::prelude::*;
use vstd::slice::slice_subrange;

verus! {

/// What a process record says of a process.
pub struct KinfoProc {
    /// The size of the record, as the kernel knows it.
    pub structsize: i32,
    pub pid: i32,
    pub pgid: i32,
    pub tpgid: i32,
    pub sid: i32,
    /// The command name, up to a NUL byte.
    pub comm: Vec<u8>,
}

/// The place of the first NUL byte, if there is one.
pub open spec fn nul_index(bytes: Seq<u8>) -> Option<int>
    decreases bytes.len(),
{
    if bytes.len() == 0 {
        None
    } else {
        match nul_index(bytes.drop_last()) {
            Some(i) => Some(i),
            None => if bytes.last() == 0 {
                Some(bytes.len() - 1)
            } else {
                None
            },
        }
    }
}

/// The bytes before the first NUL byte, if there is one.
pub open spec fn nul_terminated(bytes: Seq<u8>) -> Option<Seq<u8>> {
    match nul_index(bytes) {
        Some(end) => Some(bytes.take(end)),
        None => None,
    }
}

/// The first NUL byte is a NUL byte, and none stands before it; without one, there is none at all.
proof fn lemma_nul_index(bytes: Seq<u8>)
    ensures
        match nul_index(bytes) {
            Some(i) => 0 <= i < bytes.len() && bytes[i] == 0 && (forall|j: int|
                0 <= j < i ==> bytes[j] != 0),
            None => forall|j: int| 0 <= j < bytes.len() ==> bytes[j] != 0,
        },
    decreases bytes.len(),
{
    if bytes.len() > 0 {
        lemma_nul_index(bytes.drop_last());
        assert forall|j: int| 0 <= j < bytes.len() - 1 implies bytes.drop_last()[j]
            == bytes[j] by {}
    }
}

/// The bytes before the first NUL byte.
pub fn until_nul(bytes: &[u8]) -> (found: Option<&[u8]>)
    ensures
        match found {
            Some(part) => nul_terminated(bytes@) == Some(part@),
            None => nul_terminated(bytes@) is None,
        },
{
    let mut i: usize = 0;
    while i < bytes.len()
        invariant
            i <= bytes@.len(),
            forall|j: int| 0 <= j < i ==> bytes@[j] != 0,
        decreases bytes@.len() - i,
    {
        if bytes[i] == 0 {
            proof {
                lemma_nul_index(bytes@);
            }
            let part: &[u8] = slice_subrange(bytes, 0, i);
            assert(part@ =~= bytes@.take(i as int));
            return Some(part);
        }
        i = i + 1;
    }
    proof {
        lemma_nul_index(bytes@);
    }
    None
}

/// The name that the command bytes of a record hold: what stands before the first NUL byte, unless
/// that is empty.
pub open spec fn command_name(comm: Seq<u8>) -> Option<Seq<char>> {
    match nul_terminated(comm) {
        Some(bytes) => if crate::text::utf8_lossy(bytes).len() > 0 {
            Some(crate::text::utf8_lossy(bytes))
        } else {
            None
        },
        None => None,
    }
}

/// The name of a process.
pub fn process_name(info: &KinfoProc) -> (name: Option<String>)
    ensures
        crate::process::optional_text(name) == command_name(info.comm@),
{
    match until_nul(info.comm.as_slice()) {
        Some(bytes) => {
            let name: String = from_utf8_lossy(bytes);
            if crate::text::to_chars(name.as_str()).len() == 0 {
                None
            } else {
                Some(name)
            }
        },
        None => None,
    }
}

/// The parts of `bytes` between NUL bytes, empty ones included: one more byte extends the last
/// part, and a NUL starts a new one.
pub open spec fn nul_parts(bytes: Seq<u8>) -> Seq<Seq<u8>>
    decreases bytes.len(),
{
    if bytes.len() == 0 {
        seq![Seq::empty()]
    } else {
        let before = nul_parts(bytes.drop_last());
        if bytes.last() == 0 {
            before.push(Seq::empty())
        } else {
            before.drop_last().push(before.last().push(bytes.last()))
        }
    }
}

/// The bytes without a NUL at the end.
pub open spec fn without_last_nul(bytes: Seq<u8>) -> Seq<u8> {
    if bytes.len() > 0 && bytes.last() == 0 {
        bytes.drop_last()
    } else {
        bytes
    }
}

/// The strings of a table in which each ends with a NUL.
pub open spec fn nul_strings(bytes: Seq<u8>) -> Seq<Seq<char>> {
    crate::text::lossy_texts(nul_parts(without_last_nul(bytes)))
}

/// The strings of a table in which each ends with a NUL.
pub fn split_nul_strings(bytes: &[u8]) -> (values: Vec<String>)
    ensures
        crate::text::texts(values@) == nul_strings(bytes@),
        values@.len() > 0,
{
    let end: usize = if bytes.len() > 0 && bytes[bytes.len() - 1] == 0 {
        bytes.len() - 1
    } else {
        bytes.len()
    };
    let ghost body = without_last_nul(bytes@);
    assert(body =~= bytes@.take(end as int));
    let mut values: Vec<String> = Vec::new();
    let ghost mut parts: Seq<Seq<u8>> = Seq::empty();
    let mut start: usize = 0;
    let mut i: usize = 0;
    proof {
        assert(body.take(0) =~= Seq::<u8>::empty());
        assert(body.subrange(0, 0) =~= Seq::<u8>::empty());
        assert(nul_parts(body.take(0)) =~= parts.push(body.subrange(0, 0)));
        assert(crate::text::texts(values@) =~= crate::text::lossy_texts(parts));
    }
    while i < end
        invariant
            start <= i <= end <= bytes@.len(),
            body == bytes@.take(end as int),
            crate::text::texts(values@) == crate::text::lossy_texts(parts),
            nul_parts(body.take(i as int)) == parts.push(body.subrange(start as int, i as int)),
        decreases end - i,
    {
        let ghost after = body.take(i + 1);
        let ghost part = body.subrange(start as int, i as int);
        assert(after.drop_last() =~= body.take(i as int));
        assert(after.last() == bytes@[i as int]);
        if bytes[i] == 0 {
            let value: String = from_utf8_lossy(slice_subrange(bytes, start, i));
            let ghost old_values = values@;
            values.push(value);
            proof {
                assert(bytes@.subrange(start as int, i as int) =~= part);
                assert(crate::text::texts(values@) =~= crate::text::texts(old_values).push(value@));
                assert(crate::text::lossy_texts(parts.push(part)) =~= crate::text::lossy_texts(
                    parts,
                ).push(crate::text::utf8_lossy(part)));
                parts = parts.push(part);
                assert(body.subrange(i + 1, i + 1) =~= Seq::<u8>::empty());
            }
            start = i + 1;
        } else {
            proof {
                assert(parts.push(part).drop_last() =~= parts);
                assert(part.push(bytes@[i as int]) =~= body.subrange(start as int, i + 1));
            }
        }
        i = i + 1;
    }
    let value: String = from_utf8_lossy(slice_subrange(bytes, start, end));
    let ghost old_values = values@;
    values.push(value);
    proof {
        let part = body.subrange(start as int, end as int);
        assert(bytes@.subrange(start as int, end as int) =~= part);
        assert(body.take(end as int) =~= body);
        assert(crate::text::texts(values@) =~= crate::text::texts(old_values).push(value@));
        assert(crate::text::lossy_texts(parts.push(part)) =~= crate::text::lossy_texts(
            parts,
        ).push(crate::text::utf8_lossy(part)));
    }
    values
}

/// Consecutive pieces of `size` bytes; a rest that is shorter is left out.
pub open spec fn whole_records(bytes: Seq<u8>, size: int) -> Seq<Seq<u8>>
    decreases bytes.len(),
{
    if size <= 0 || bytes.len() < size {
        Seq::empty()
    } else {
        seq![bytes.take(size)] + whole_records(bytes.skip(size), size)
    }
}

// ---------------------------------------------------------------------------
// Laws
// ---------------------------------------------------------------------------

/// The bytes of a list of arguments, each with a NUL behind it.
pub open spec fn nul_joined(parts: Seq<Seq<u8>>) -> Seq<u8> {
    crate::text::nul_joined(parts)
}

/// The parts of some bytes, then a NUL, then bytes without one.
proof fn lemma_nul_parts_append(bytes: Seq<u8>, part: Seq<u8>)
    requires
        !part.contains(0u8),
    ensures
        nul_parts(bytes + part).len() == nul_parts(bytes).len(),
        nul_parts(bytes).len() > 0,
        nul_parts(bytes + part) == nul_parts(bytes).drop_last().push(
            nul_parts(bytes).last() + part,
        ),
    decreases part.len(), bytes.len(),
{
    if part.len() == 0 {
        assert(bytes + part =~= bytes);
        if bytes.len() > 0 {
            lemma_nul_parts_append(bytes.drop_last(), Seq::empty());
        }
        let parts = nul_parts(bytes);
        assert(parts.last() + part =~= parts.last());
        assert(parts.drop_last().push(parts.last()) =~= parts);
    } else {
        let short = part.drop_last();
        assert forall|i: int| 0 <= i < short.len() implies short[i] != 0u8 by {
            assert(short[i] == part[i]);
            assert(part.contains(part[i]));
        }
        lemma_nul_parts_append(bytes, short);
        assert((bytes + part).drop_last() =~= bytes + short);
        assert((bytes + part).last() == part.last());
        assert(part.contains(part.last()));
        let parts = nul_parts(bytes);
        assert(nul_parts(bytes + short).last() == parts.last() + short);
        assert((parts.last() + short).push(part.last()) =~= parts.last() + part);
        assert(nul_parts(bytes + short).drop_last() =~= parts.drop_last());
    }
}

/// Nothing is lost of a list of arguments: empty ones and those with spaces come out as they went
/// in, whatever stands before or behind them.
pub proof fn arguments_are_kept(parts: Seq<Seq<u8>>)
    requires
        parts.len() > 0,
        forall|i: int| 0 <= i < parts.len() ==> !(#[trigger] parts[i]).contains(0u8),
    ensures
        nul_parts(without_last_nul(nul_joined(parts))) == parts,
    decreases parts.len(),
{
    let joined = crate::text::nul_joined(parts);
    let before = crate::text::nul_joined(parts.drop_last());
    let part = parts.last();
    assert(!parts[parts.len() - 1].contains(0u8));
    assert(joined.last() == 0);
    assert(joined.drop_last() =~= before + part);
    lemma_nul_parts_append(before, part);
    if parts.len() == 1 {
        assert(before =~= Seq::empty());
        assert(Seq::<u8>::empty() + part =~= part);
        assert(nul_parts(before + part) =~= parts);
    } else {
        let fewer = parts.drop_last();
        assert forall|i: int| 0 <= i < fewer.len() implies !(#[trigger] fewer[i]).contains(
            0u8,
        ) by {
            assert(fewer[i] == parts[i]);
        }
        arguments_are_kept(fewer);
        assert(before.last() == 0);
        assert(nul_parts(before) == fewer.push(Seq::empty()));
        assert(nul_parts(before).drop_last() =~= fewer);
        assert(Seq::<u8>::empty() + part =~= part);
        assert(fewer.push(part) =~= parts);
    }
}

/// A name ends at the first NUL byte, whatever stands behind it; without a NUL byte there is no end.
pub proof fn names_end_at_the_first_nul(name: Seq<u8>, rest: Seq<u8>)
    requires
        !name.contains(0u8),
    ensures
        nul_terminated(name.push(0u8) + rest) == Some(name),
        nul_terminated(name) is None,
        command_name(name.push(0u8) + rest) == (if crate::text::utf8_lossy(name).len() > 0 {
            Some(crate::text::utf8_lossy(name))
        } else {
            None
        }),
        command_name(name) is None,
{
    let field = name.push(0u8) + rest;
    lemma_nul_index(field);
    lemma_nul_index(name);
    assert(field[name.len() as int] == 0);
    match nul_index(field) {
        Some(end) => {
            if end < name.len() {
                assert(name.contains(name[end]));
            }
            assert(end == name.len());
            assert(field.take(end) =~= name);
        },
        None => {},
    }
    match nul_index(name) {
        Some(end) => {
            assert(name.contains(name[end]));
        },
        None => {},
    }
}

/// The strings of a table are read back, all of them and in order, each as its text: empty ones too,
/// and also where the last one lacks its NUL byte.
pub proof fn strings_are_read_back(parts: Seq<Seq<u8>>, open_end: Seq<u8>)
    requires
        parts.len() > 0,
        forall|i: int| 0 <= i < parts.len() ==> !(#[trigger] parts[i]).contains(0u8),
        !open_end.contains(0u8),
        open_end.len() > 0,
    ensures
        nul_strings(crate::text::nul_joined(parts)).len() == parts.len(),
        forall|i: int|
            0 <= i < parts.len() ==> #[trigger] nul_strings(crate::text::nul_joined(parts))[i]
                == crate::text::utf8_lossy(parts[i]),
        nul_strings(crate::text::nul_joined(parts) + open_end) == nul_strings(
            crate::text::nul_joined(parts),
        ).push(crate::text::utf8_lossy(open_end)),
{
    arguments_are_kept(parts);
    crate::text::every_part_has_its_text(parts);
    let joined = crate::text::nul_joined(parts);
    let all = joined + open_end;
    assert(all.last() == open_end.last());
    assert(open_end.contains(open_end.last()));
    lemma_nul_parts_append(joined, open_end);
    assert(joined.last() == 0);
    assert(nul_parts(joined) == parts.push(Seq::empty()));
    assert(parts.push(Seq::<u8>::empty()).drop_last() =~= parts);
    assert(Seq::<u8>::empty() + open_end =~= open_end);
    assert(nul_parts(all) == parts.push(open_end));
    assert(nul_strings(all) =~= nul_strings(joined).push(crate::text::utf8_lossy(open_end)));
}

/// Records that stand one behind the other are cut apart as they were, and a rest that is shorter
/// than a record is left out.
pub proof fn records_are_cut_apart(records: Seq<Seq<u8>>, rest: Seq<u8>, size: int)
    requires
        size > 0,
        forall|i: int| 0 <= i < records.len() ==> (#[trigger] records[i]).len() == size,
        rest.len() < size,
    ensures
        whole_records(records.flatten() + rest, size) == records,
    decreases records.len(),
{
    if records.len() == 0 {
        assert(records.flatten() + rest =~= rest);
        assert(whole_records(rest, size) =~= records);
    } else {
        let tail = records.drop_first();
        assert forall|i: int| 0 <= i < tail.len() implies (#[trigger] tail[i]).len() == size by {
            assert(tail[i] == records[i + 1]);
        }
        records_are_cut_apart(tail, rest, size);
        let first = records[0];
        let all = records.flatten() + rest;
        assert(all =~= first + (tail.flatten() + rest));
        assert(all.take(size) =~= first);
        assert(all.skip(size) =~= tail.flatten() + rest);
        assert(seq![first] + tail =~= records);
    }
}

} // verus!
