//! Readers for the text of `/proc` files: `stat`, task directories, `children` and `cmdline`.
use crate::text::{
    find, from_utf8_lossy, parse_i32, parse_u32, rfind, split_whitespace, string_of, to_chars,
};
use vstd::prelude::*;

verus! {

/// The fields behind the command name of a `stat` line. The name stands in parentheses and may
/// itself hold spaces and parentheses, so the fields start behind the last `)` and the ASCII
/// character that separates it from them.
pub open spec fn stat_fields(stat: Seq<char>) -> Option<Seq<Seq<char>>> {
    match crate::text::last_index(stat, ')') {
        Some(close) => if close + 1 < stat.len() && stat[close + 1] as u32 <= 0x7f {
            Some(crate::text::words(stat.skip(close + 2)))
        } else {
            None
        },
        None => None,
    }
}

/// The integer in field `k` behind the command name.
pub open spec fn stat_number(stat: Seq<char>, k: int) -> Option<i32> {
    match stat_fields(stat) {
        Some(fields) => if k < fields.len() {
            crate::text::i32_literal(fields[k])
        } else {
            None
        },
        None => None,
    }
}

/// The command name: what stands between the first `(` and the last `)`.
pub open spec fn stat_name(stat: Seq<char>) -> Option<Seq<char>> {
    match (crate::text::first_index(stat, '('), crate::text::last_index(stat, ')')) {
        (Some(open), Some(close)) => if open < close {
            Some(stat.subrange(open + 1, close))
        } else {
            None
        },
        _ => None,
    }
}

/// The process group and the command name of a `stat` line that has both.
pub open spec fn stat_group_and_name(stat: Seq<char>) -> Option<(i32, Seq<char>)> {
    match (stat_number(stat, 2), stat_name(stat)) {
        (Some(pgrp), Some(name)) => Some((pgrp, name)),
        _ => None,
    }
}

/// The terminal's foreground process group in a `stat` line, if it is positive.
pub open spec fn stat_foreground_group(stat: Seq<char>) -> Option<u32> {
    match stat_number(stat, 5) {
        Some(tpgid) => if tpgid > 0 {
            Some(tpgid as u32)
        } else {
            None
        },
        None => None,
    }
}

/// The integer in field `k` of the characters of a `stat` line.
fn field_number(chars: &[char], k: usize) -> (number: Option<i32>)
    ensures
        number == stat_number(chars@, k as int),
{
    let close: usize = match rfind(chars, ')') {
        Some(close) => close,
        None => {
            return None;
        },
    };
    proof {
        crate::text::lemma_last_index(chars@, ')');
    }
    if chars.len() - close < 2 {
        return None;
    }
    if chars[close + 1] as u32 > 0x7f {
        return None;
    }
    let fields: Vec<Vec<char>> = split_whitespace(chars, close + 2);
    let ghost fields_view = crate::text::char_lists(fields@);
    assert(stat_fields(chars@) == Some(fields_view));
    if k < fields.len() {
        assert(fields_view[k as int] == fields@[k as int]@);
        parse_i32(fields[k].as_slice())
    } else {
        None
    }
}

/// Reads process group and command name from `pid (comm) state ppid pgrp ...`.
pub fn process_pgrp_and_comm_from_stat(stat: &str) -> (found: Option<(i32, String)>)
    ensures
        match found {
            Some((pgrp, comm)) => stat_group_and_name(stat@) == Some((pgrp, comm@)),
            None => stat_group_and_name(stat@) is None,
        },
{
    let chars: Vec<char> = to_chars(stat);
    let close: usize = match rfind(chars.as_slice(), ')') {
        Some(close) => close,
        None => {
            return None;
        },
    };
    let open: usize = match find(chars.as_slice(), '(') {
        Some(open) => open,
        None => {
            return None;
        },
    };
    proof {
        crate::text::lemma_first_index(chars@, '(');
        crate::text::lemma_last_index(chars@, ')');
    }
    if open >= close {
        return None;
    }
    let comm: String = string_of(chars.as_slice(), open + 1, close);
    match field_number(chars.as_slice(), 2) {
        Some(pgrp) => Some((pgrp, comm)),
        None => None,
    }
}

/// Reads the terminal's foreground process group from a `stat` line.
pub fn foreground_group_from_stat(stat: &str) -> (group: Option<u32>)
    ensures
        group == stat_foreground_group(stat@),
{
    let chars: Vec<char> = to_chars(stat);
    // After (comm): state(0) ppid(1) pgrp(2) session(3) tty_nr(4) tpgid(5)
    match field_number(chars.as_slice(), 5) {
        Some(tpgid) => if tpgid > 0 {
            Some(tpgid as u32)
        } else {
            None
        },
        None => None,
    }
}

/// Reads the session id from a `stat` line.
pub fn session_from_stat(stat: &str) -> (session: Option<i32>)
    ensures
        session == stat_number(stat@, 3),
{
    let chars: Vec<char> = to_chars(stat);
    field_number(chars.as_slice(), 3)
}

// ---------------------------------------------------------------------------
// Id lists
// ---------------------------------------------------------------------------

/// The id that a directory entry names: digits only.
pub open spec fn file_name_id(name: Seq<char>) -> Option<u32> {
    if crate::text::all_digits(name) {
        crate::text::u32_literal(name)
    } else {
        None
    }
}

/// The id of an entry whose name may not be text.
pub open spec fn entry_id(name: Option<String>) -> Option<u32> {
    match name {
        Some(name) => file_name_id(name@),
        None => None,
    }
}

/// The ids among the entry names, in order.
pub open spec fn entry_ids(names: Seq<Option<String>>) -> Seq<u32>
    decreases names.len(),
{
    if names.len() == 0 {
        Seq::empty()
    } else {
        match entry_id(names.last()) {
            Some(id) => entry_ids(names.drop_last()).push(id),
            None => entry_ids(names.drop_last()),
        }
    }
}

/// The unsigned literals among the fields, in order.
pub open spec fn literal_ids(fields: Seq<Seq<char>>) -> Seq<u32>
    decreases fields.len(),
{
    if fields.len() == 0 {
        Seq::empty()
    } else {
        match crate::text::u32_literal(fields.last()) {
            Some(id) => literal_ids(fields.drop_last()).push(id),
            None => literal_ids(fields.drop_last()),
        }
    }
}

/// The children that a `children` file lists; none where there is no such file.
pub open spec fn children_ids(children: Option<String>) -> Seq<u32> {
    match children {
        Some(text) => literal_ids(crate::text::words(text@)),
        None => Seq::empty(),
    }
}

/// The id that a directory entry of `/proc` names. `None` stands for a name that is not text.
pub fn numeric_file_name(name: &Option<String>) -> (id: Option<u32>)
    ensures
        id == entry_id(*name),
{
    let chars: Vec<char> = match name {
        Some(name) => to_chars(name.as_str()),
        None => {
            return None;
        },
    };
    let mut i: usize = 0;
    while i < chars.len()
        invariant
            i <= chars@.len(),
            entry_id(*name) == file_name_id(chars@),
            forall|k: int| 0 <= k < i ==> crate::text::is_digit(#[trigger] chars@[k]),
        decreases chars@.len() - i,
    {
        let c: char = chars[i];
        if !('0' <= c && c <= '9') {
            assert(!crate::text::is_digit(chars@[i as int]));
            return None;
        }
        i = i + 1;
    }
    parse_u32(chars.as_slice())
}

/// The task ids among the entries of a task directory.
pub fn process_task_ids(names: &[Option<String>]) -> (ids: Vec<u32>)
    ensures
        ids@ == entry_ids(names@),
{
    let mut ids: Vec<u32> = Vec::new();
    let mut i: usize = 0;
    assert(names@.take(0) =~= Seq::<Option<String>>::empty());
    while i < names.len()
        invariant
            i <= names@.len(),
            ids@ == entry_ids(names@.take(i as int)),
        decreases names@.len() - i,
    {
        assert(names@.take(i + 1).drop_last() =~= names@.take(i as int));
        match numeric_file_name(&names[i]) {
            Some(id) => ids.push(id),
            None => {},
        }
        i = i + 1;
    }
    assert(names@.take(i as int) =~= names@);
    ids
}

/// The process ids that a `children` file lists.
pub fn process_task_children(children: &Option<String>) -> (ids: Vec<u32>)
    ensures
        ids@ == children_ids(*children),
{
    let chars: Vec<char> = match children {
        Some(text) => to_chars(text.as_str()),
        None => {
            return Vec::new();
        },
    };
    let fields: Vec<Vec<char>> = split_whitespace(chars.as_slice(), 0);
    let ghost all = crate::text::char_lists(fields@);
    let mut ids: Vec<u32> = Vec::new();
    let mut i: usize = 0;
    proof {
        assert(chars@.skip(0) =~= chars@);
        assert(all.take(0) =~= Seq::<Seq<char>>::empty());
    }
    while i < fields.len()
        invariant
            i <= fields@.len(),
            all == crate::text::char_lists(fields@),
            ids@ == literal_ids(all.take(i as int)),
        decreases fields@.len() - i,
    {
        assert(all.take(i + 1).drop_last() =~= all.take(i as int));
        match parse_u32(fields[i].as_slice()) {
            Some(id) => ids.push(id),
            None => {},
        }
        i = i + 1;
    }
    assert(all.take(i as int) =~= all);
    ids
}

// ---------------------------------------------------------------------------
// Argument vectors
// ---------------------------------------------------------------------------

/// The non-empty runs between NUL bytes, in order: one more byte either extends the last run or
/// starts a new one, and a NUL does neither.
pub open spec fn nul_runs(bytes: Seq<u8>) -> Seq<Seq<u8>>
    decreases bytes.len(),
{
    if bytes.len() == 0 {
        Seq::empty()
    } else {
        let before = nul_runs(bytes.drop_last());
        if bytes.last() == 0 {
            before
        } else if bytes.len() >= 2 && bytes[bytes.len() - 2] != 0 {
            before.drop_last().push(before.last().push(bytes.last()))
        } else {
            before.push(seq![bytes.last()])
        }
    }
}

/// The argument vector in a `cmdline` file: its non-empty NUL-separated parts, if there are any.
pub open spec fn cmdline_argv(cmdline: Option<Vec<u8>>) -> Option<Seq<Seq<char>>> {
    match cmdline {
        Some(bytes) => if nul_runs(bytes@).len() > 0 {
            Some(crate::text::lossy_texts(nul_runs(bytes@)))
        } else {
            None
        },
        None => None,
    }
}

/// The argument vector in a `cmdline` file.
pub fn process_argv(cmdline: &Option<Vec<u8>>) -> (argv: Option<Vec<String>>)
    ensures
        match argv {
            Some(argv) => cmdline_argv(*cmdline) == Some(crate::text::texts(argv@)),
            None => cmdline_argv(*cmdline) is None,
        },
{
    let bytes: &Vec<u8> = match cmdline {
        Some(bytes) => bytes,
        None => {
            return None;
        },
    };
    let mut argv: Vec<String> = Vec::new();
    let mut start: usize = 0;
    let mut i: usize = 0;
    let ghost mut runs: Seq<Seq<u8>> = Seq::empty();
    proof {
        assert(bytes@.take(0) =~= Seq::<u8>::empty());
        assert(crate::text::texts(argv@) =~= crate::text::lossy_texts(runs));
    }
    while i < bytes.len()
        invariant
            start <= i <= bytes@.len(),
            forall|k: int| start <= k < i ==> bytes@[k] != 0,
            start > 0 ==> bytes@[start - 1] == 0,
            crate::text::texts(argv@) == crate::text::lossy_texts(runs),
            nul_runs(bytes@.take(i as int)) == if start < i {
                runs.push(bytes@.subrange(start as int, i as int))
            } else {
                runs
            },
        decreases bytes@.len() - i,
    {
        let ghost after = bytes@.take(i + 1);
        assert(after.drop_last() =~= bytes@.take(i as int));
        assert(after.last() == bytes@[i as int]);
        if bytes[i] == 0 {
            if start < i {
                let part: String = from_utf8_lossy(vstd::slice::slice_subrange(
                    bytes.as_slice(),
                    start,
                    i,
                ));
                let ghost old_argv = argv@;
                argv.push(part);
                proof {
                    let run = bytes@.subrange(start as int, i as int);
                    assert(crate::text::texts(argv@) =~= crate::text::texts(old_argv).push(part@));
                    assert(crate::text::lossy_texts(runs.push(run)) =~= crate::text::lossy_texts(runs).push(
                        crate::text::utf8_lossy(run),
                    ));
                    runs = runs.push(run);
                }
            }
            start = i + 1;
        } else {
            proof {
                let run = bytes@.subrange(start as int, i as int);
                let longer = bytes@.subrange(start as int, i + 1);
                if start < i {
                    assert(after[after.len() - 2] == bytes@[i - 1]);
                    assert(runs.push(run).drop_last() =~= runs);
                    assert(run.push(bytes@[i as int]) =~= longer);
                } else {
                    if after.len() >= 2 {
                        assert(after[after.len() - 2] == bytes@[start - 1]);
                    }
                    assert(seq![bytes@[i as int]] =~= longer);
                }
            }
        }
        i = i + 1;
    }
    assert(bytes@.take(i as int) =~= bytes@);
    if start < i {
        let part: String = from_utf8_lossy(vstd::slice::slice_subrange(
            bytes.as_slice(),
            start,
            i,
        ));
        let ghost old_argv = argv@;
        argv.push(part);
        proof {
            let run = bytes@.subrange(start as int, i as int);
            assert(crate::text::texts(argv@) =~= crate::text::texts(old_argv).push(part@));
            assert(crate::text::lossy_texts(runs.push(run)) =~= crate::text::lossy_texts(runs).push(
                crate::text::utf8_lossy(run),
            ));
            runs = runs.push(run);
        }
    }
    assert(crate::text::texts(argv@).len() == crate::text::lossy_texts(runs).len());
    if argv.is_empty() {
        None
    } else {
        Some(argv)
    }
}

// ---------------------------------------------------------------------------
// Laws
// ---------------------------------------------------------------------------

/// Whatever a process calls itself, parentheses and spaces included, a `stat` line gives back its
/// name, and the fields behind it keep their places.
pub proof fn stat_name_may_hold_parentheses(
    pid: Seq<char>,
    name: Seq<char>,
    fields: Seq<char>,
)
    requires
        !pid.contains('('),
        !fields.contains(')'),
    ensures
        ({
            let line = pid + seq!['('] + name + seq![')', ' '] + fields;
            &&& stat_name(line) == Some(name)
            &&& stat_fields(line) == Some(crate::text::words(fields))
        }),
{
    let line = pid + seq!['('] + name + seq![')', ' '] + fields;
    let open = pid.len() as int;
    let close = open + 1 + name.len();
    assert(line[open] == '(');
    assert(line[close] == ')');
    assert(line[close + 1] == ' ');
    crate::text::lemma_first_index(line, '(');
    crate::text::lemma_last_index(line, ')');
    assert forall|j: int| 0 <= j < open implies line[j] != '(' by {
        assert(line[j] == pid[j]);
    }
    assert forall|j: int| close < j < line.len() implies line[j] != ')' by {
        if j > close + 1 {
            assert(line[j] == fields[j - close - 2]);
        }
    }
    assert(line.subrange(open + 1, close) =~= name);
    assert(line.skip(close + 2) =~= fields);
}

/// A `stat` line as the kernel writes it: the id, the name in parentheses, a state, then numbers.
pub open spec fn stat_line(
    pid: Seq<char>,
    name: Seq<char>,
    state: Seq<char>,
    ppid: int,
    pgrp: int,
    session: int,
    tty: int,
    tpgid: int,
    rest: Seq<char>,
) -> Seq<char> {
    pid + seq!['('] + name + seq![')', ' '] + (crate::text::spread(
        seq![
            state,
            crate::text::signed_decimal(ppid),
            crate::text::signed_decimal(pgrp),
            crate::text::signed_decimal(session),
            crate::text::signed_decimal(tty),
            crate::text::signed_decimal(tpgid),
        ],
    ) + rest)
}

/// What a `stat` line says is read back, for every process: its name, its group, its session and
/// the foreground group of its terminal. A number that is out of range is no number.
pub proof fn stat_lines_are_read_back(
    pid: Seq<char>,
    name: Seq<char>,
    state: Seq<char>,
    ppid: int,
    pgrp: int,
    session: int,
    tty: int,
    tpgid: int,
    rest: Seq<char>,
)
    requires
        !pid.contains('('),
        crate::text::is_field(state),
        !state.contains(')'),
        !rest.contains(')'),
    ensures
        ({
            let line = stat_line(pid, name, state, ppid, pgrp, session, tty, tpgid, rest);
            &&& i32::MIN <= pgrp <= i32::MAX ==> stat_group_and_name(line) == Some(
                (pgrp as i32, name),
            )
            &&& !(i32::MIN <= pgrp <= i32::MAX) ==> stat_group_and_name(line) is None
            &&& i32::MIN <= session <= i32::MAX ==> stat_number(line, 3) == Some(session as i32)
            &&& !(i32::MIN <= session <= i32::MAX) ==> stat_number(line, 3) is None
            &&& 0 < tpgid <= i32::MAX ==> stat_foreground_group(line) == Some(tpgid as u32)
            &&& !(0 < tpgid <= i32::MAX) ==> stat_foreground_group(line) is None
        }),
{
    let numbers = seq![
        state,
        crate::text::signed_decimal(ppid),
        crate::text::signed_decimal(pgrp),
        crate::text::signed_decimal(session),
        crate::text::signed_decimal(tty),
        crate::text::signed_decimal(tpgid),
    ];
    let fields = crate::text::spread(numbers) + rest;
    let line = stat_line(pid, name, state, ppid, pgrp, session, tty, tpgid, rest);
    crate::text::lemma_numbers_are_fields(ppid);
    crate::text::lemma_numbers_are_fields(pgrp);
    crate::text::lemma_numbers_are_fields(session);
    crate::text::lemma_numbers_are_fields(tty);
    crate::text::lemma_numbers_are_fields(tpgid);
    assert forall|i: int| 0 <= i < numbers.len() implies crate::text::is_field(
        #[trigger] numbers[i],
    ) && !numbers[i].contains(')') by {}
    lemma_spread_lacks(numbers, ')');
    assert(!fields.contains(')')) by {
        if fields.contains(')') {
            let i = choose|i: int| 0 <= i < fields.len() && fields[i] == ')';
            let spread = crate::text::spread(numbers);
            if i < spread.len() {
                assert(spread.contains(spread[i]));
            } else {
                assert(rest.contains(rest[i - spread.len()]));
            }
        }
    }
    stat_name_may_hold_parentheses(pid, name, fields);
    crate::text::fields_are_read_back(numbers, rest);
    let found = crate::text::words(fields);
    assert(found[2] == numbers[2] && found[3] == numbers[3] && found[5] == numbers[5]);
    crate::text::written_numbers_are_read_back(pgrp);
    crate::text::written_numbers_are_read_back(session);
    crate::text::written_numbers_are_read_back(tpgid);
}

/// A line of fields that lack a character lacks it, if it is no blank.
proof fn lemma_spread_lacks(fields: Seq<Seq<char>>, c: char)
    requires
        c != ' ',
        forall|i: int| 0 <= i < fields.len() ==> !(#[trigger] fields[i]).contains(c),
    ensures
        !crate::text::spread(fields).contains(c),
    decreases fields.len(),
{
    if fields.len() > 0 {
        let fewer = fields.drop_last();
        assert forall|i: int| 0 <= i < fewer.len() implies !(#[trigger] fewer[i]).contains(c) by {
            assert(fewer[i] == fields[i]);
        }
        lemma_spread_lacks(fewer, c);
        let head = crate::text::spread(fewer);
        let last = fields.last();
        assert(!fields[fields.len() - 1].contains(c));
        let line = crate::text::spread(fields);
        if line.contains(c) {
            let i = choose|i: int| 0 <= i < line.len() && line[i] == c;
            if i < head.len() {
                assert(head.contains(head[i]));
            } else if i < head.len() + last.len() {
                assert(last.contains(last[i - head.len()]));
            }
        }
    }
}

/// The children that a file lists are read back, all of them and in order.
pub proof fn listed_children_are_read_back(ids: Seq<u32>, text: String)
    requires
        text@ == crate::text::spread(
            Seq::new(ids.len(), |i: int| crate::text::decimal(ids[i] as nat)),
        ),
    ensures
        children_ids(Some(text)) == ids,
{
    let fields = Seq::new(ids.len(), |i: int| crate::text::decimal(ids[i] as nat));
    assert forall|i: int| 0 <= i < fields.len() implies crate::text::is_field(
        #[trigger] fields[i],
    ) by {
        crate::text::lemma_numbers_are_fields(ids[i] as int);
    }
    crate::text::fields_are_read_back(fields, Seq::empty());
    assert(crate::text::spread(fields) + Seq::empty() =~= text@);
    assert(fields + crate::text::words(Seq::empty()) =~= fields);
    lemma_literals(ids, fields);
}

/// Written ids are read as those ids.
proof fn lemma_literals(ids: Seq<u32>, fields: Seq<Seq<char>>)
    requires
        fields.len() == ids.len(),
        forall|i: int|
            0 <= i < ids.len() ==> #[trigger] fields[i] == crate::text::decimal(ids[i] as nat),
    ensures
        literal_ids(fields) == ids,
    decreases ids.len(),
{
    if ids.len() > 0 {
        let last = ids.len() - 1;
        lemma_literals(ids.drop_last(), fields.drop_last());
        crate::text::written_numbers_are_read_back(ids[last] as int);
        assert(fields[last] == crate::text::decimal(ids[last] as nat));
        assert(literal_ids(fields) =~= ids);
    } else {
        assert(literal_ids(fields) =~= ids);
    }
}

/// The entries of two listings give the ids of each, in order. An entry whose name is a number
/// gives that number, and one whose name is no text, is empty or holds anything but digits gives
/// nothing.
pub proof fn entries_are_read_back(
    one: Seq<Option<String>>,
    other: Seq<Option<String>>,
    name: String,
    id: u32,
)
    ensures
        entry_ids(one + other) == entry_ids(one) + entry_ids(other),
        name@ == crate::text::decimal(id as nat) ==> entry_ids(seq![Some(name)]) == seq![id],
        name@.len() == 0 ==> entry_ids(seq![Some(name)]).len() == 0,
        forall|i: int|
            0 <= i < name@.len() && !('0' <= #[trigger] name@[i] <= '9') ==> entry_ids(
                seq![Some(name)],
            ).len() == 0,
        entry_ids(seq![None::<String>]).len() == 0,
    decreases other.len(),
{
    reveal_with_fuel(entry_ids, 2);
    let single = seq![Some(name)];
    assert(single.drop_last() =~= Seq::empty());
    assert(seq![None::<String>].drop_last() =~= Seq::empty());
    crate::text::lemma_decimal(id as nat);
    crate::text::written_numbers_are_read_back(id as int);
    if name@ == crate::text::decimal(id as nat) {
        assert(entry_id(single.last()) == Some(id));
        assert(entry_ids(single) =~= seq![id]);
    }
    assert forall|i: int| 0 <= i < name@.len() && !('0' <= #[trigger] name@[i] <= '9') implies
        entry_ids(single).len() == 0 by {
        assert(!crate::text::is_digit(name@[i]));
    }
    if other.len() == 0 {
        assert(one + other =~= one);
        assert(entry_ids(one) + entry_ids(other) =~= entry_ids(one));
    } else {
        entries_are_read_back(one, other.drop_last(), name, id);
        assert((one + other).drop_last() =~= one + other.drop_last());
        assert((one + other).last() == other.last());
        assert(entry_ids(one + other) =~= entry_ids(one) + entry_ids(other));
    }
}

/// A run that ends in a byte other than NUL is there.
proof fn lemma_runs_nonempty(bytes: Seq<u8>)
    requires
        bytes.len() > 0,
        bytes.last() != 0,
    ensures
        nul_runs(bytes).len() > 0,
{
}

/// A NUL ends an argument and starts none: what stands before it and what stands behind it are
/// split each for itself, and nothing is lost of either.
pub proof fn nuls_part_arguments(before: Seq<u8>, behind: Seq<u8>)
    ensures
        nul_runs(before.push(0u8) + behind) == nul_runs(before) + nul_runs(behind),
    decreases behind.len(),
{
    let head = before.push(0u8);
    let all = head + behind;
    if behind.len() == 0 {
        assert(all =~= head);
        assert(head.drop_last() =~= before);
        assert(nul_runs(before) + nul_runs(behind) =~= nul_runs(before));
    } else {
        let fewer = behind.drop_last();
        nuls_part_arguments(before, fewer);
        assert(all.drop_last() =~= head + fewer);
        assert(all.last() == behind.last());
        if behind.last() == 0 {
        } else if behind.len() >= 2 && behind[behind.len() - 2] != 0 {
            assert(all[all.len() - 2] == behind[behind.len() - 2]);
            assert(fewer.last() == behind[behind.len() - 2]);
            lemma_runs_nonempty(fewer);
            let first = nul_runs(before);
            let rest = nul_runs(fewer);
            assert((first + rest).drop_last() =~= first + rest.drop_last());
            assert(nul_runs(all) =~= first + nul_runs(behind));
        } else {
            if behind.len() == 1 {
                assert(all[all.len() - 2] == 0);
            } else {
                assert(all[all.len() - 2] == behind[behind.len() - 2]);
            }
            assert(nul_runs(all) =~= nul_runs(before) + nul_runs(behind));
        }
    }
}

/// Bytes without a NUL are one argument.
proof fn lemma_single_run(part: Seq<u8>)
    requires
        part.len() > 0,
        !part.contains(0u8),
    ensures
        nul_runs(part) == seq![part],
    decreases part.len(),
{
    let fewer = part.drop_last();
    assert(part.contains(part[part.len() - 1]));
    if part.len() == 1 {
        assert(fewer =~= Seq::empty());
        assert(seq![part.last()] =~= part);
        assert(nul_runs(fewer).len() == 0);
        assert(nul_runs(part) =~= seq![part]);
    } else {
        assert forall|i: int| 0 <= i < fewer.len() implies fewer[i] != 0u8 by {
            assert(part.contains(part[i]));
        }
        lemma_single_run(fewer);
        assert(part.contains(part[part.len() - 2]));
        assert(fewer.push(part.last()) =~= part);
        assert(nul_runs(fewer).last() == fewer);
        assert(nul_runs(fewer).drop_last() =~= Seq::<Seq<u8>>::empty());
        assert(nul_runs(part) =~= seq![part]);
    }
}

/// The runs of arguments that each end in a NUL are the arguments.
proof fn lemma_joined_runs(parts: Seq<Seq<u8>>)
    requires
        forall|i: int|
            0 <= i < parts.len() ==> (#[trigger] parts[i]).len() > 0 && !parts[i].contains(0u8),
    ensures
        nul_runs(crate::text::nul_joined(parts)) == parts,
    decreases parts.len(),
{
    if parts.len() == 0 {
        assert(nul_runs(crate::text::nul_joined(parts)) =~= parts);
    } else {
        let fewer = parts.drop_last();
        let part = parts.last();
        let head = crate::text::nul_joined(fewer);
        assert forall|i: int| 0 <= i < fewer.len() implies (#[trigger] fewer[i]).len() > 0
            && !fewer[i].contains(0u8) by {
            assert(fewer[i] == parts[i]);
        }
        lemma_joined_runs(fewer);
        assert(parts[parts.len() - 1].len() > 0 && !parts[parts.len() - 1].contains(0u8));
        lemma_single_run(part);
        nuls_part_arguments(part, Seq::empty());
        assert(part.push(0u8) + Seq::empty() =~= part.push(0u8));
        assert(nul_runs(part) + nul_runs(Seq::empty()) =~= seq![part]);
        if fewer.len() == 0 {
            assert(head =~= Seq::empty());
            assert(crate::text::nul_joined(parts) =~= part.push(0u8));
            assert(seq![part] =~= parts);
        } else {
            let before = head.drop_last();
            assert(head =~= before.push(0u8)) by {
                assert(head.last() == 0);
            }
            nuls_part_arguments(before, Seq::empty());
            assert(before.push(0u8) + Seq::empty() =~= head);
            assert(nul_runs(before) + nul_runs(Seq::empty()) =~= nul_runs(before));
            nuls_part_arguments(before, part.push(0u8));
            assert(crate::text::nul_joined(parts) =~= before.push(0u8) + part.push(0u8));
            assert(fewer + seq![part] =~= parts);
        }
    }
}

/// The arguments of a process are read back from its `cmdline` file, all of them and in order, each
/// as its text.
pub proof fn arguments_are_read_back(parts: Seq<Seq<u8>>, cmdline: Vec<u8>)
    requires
        parts.len() > 0,
        forall|i: int|
            0 <= i < parts.len() ==> (#[trigger] parts[i]).len() > 0 && !parts[i].contains(0u8),
        cmdline@ == crate::text::nul_joined(parts),
    ensures
        cmdline_argv(Some(cmdline)) is Some,
        cmdline_argv(Some(cmdline))->0.len() == parts.len(),
        forall|i: int|
            0 <= i < parts.len() ==> #[trigger] cmdline_argv(Some(cmdline))->0[i]
                == crate::text::utf8_lossy(parts[i]),
{
    lemma_joined_runs(parts);
    crate::text::every_part_has_its_text(parts);
}

/// A `cmdline` file gives no arguments exactly where it holds NUL bytes alone, or nothing, or cannot
/// be read.
pub proof fn only_empty_command_lines_have_no_arguments(cmdline: Option<Vec<u8>>)
    ensures
        cmdline_argv(cmdline) is None <==> cmdline is None || (forall|i: int|
            0 <= i < cmdline->0@.len() ==> #[trigger] cmdline->0@[i] == 0),
{
    if cmdline is Some {
        lemma_runs_of_nuls(cmdline->0@);
    }
}

/// There is a run where there is a byte other than NUL.
proof fn lemma_runs_of_nuls(bytes: Seq<u8>)
    ensures
        nul_runs(bytes).len() == 0 <==> forall|i: int|
            0 <= i < bytes.len() ==> #[trigger] bytes[i] == 0,
    decreases bytes.len(),
{
    if bytes.len() > 0 {
        let fewer = bytes.drop_last();
        lemma_runs_of_nuls(fewer);
        assert forall|i: int| 0 <= i < fewer.len() implies fewer[i] == bytes[i] by {}
        if bytes.last() != 0 {
            lemma_runs_nonempty(bytes);
            assert(bytes[bytes.len() - 1] != 0);
        } else {
            if forall|i: int| 0 <= i < fewer.len() ==> #[trigger] fewer[i] == 0 {
                assert forall|i: int| 0 <= i < bytes.len() implies #[trigger] bytes[i] == 0 by {
                    if i < fewer.len() {
                        assert(fewer[i] == 0);
                    }
                }
            } else {
                let i = choose|i: int| 0 <= i < fewer.len() && fewer[i] != 0;
                assert(bytes[i] != 0);
            }
        }
    }
}

/// A line that lacks a parenthesis has no name, and one that lacks the closing one has no fields.
pub proof fn lines_without_a_name_say_nothing(line: Seq<char>, k: int)
    ensures
        !line.contains(')') ==> stat_number(line, k) is None && stat_foreground_group(line) is None,
        !line.contains(')') || !line.contains('(') ==> stat_group_and_name(line) is None,
{
    crate::text::lemma_last_index(line, ')');
    crate::text::lemma_first_index(line, '(');
    match crate::text::last_index(line, ')') {
        Some(i) => {
            assert(line.contains(line[i]));
        },
        None => {},
    }
    match crate::text::first_index(line, '(') {
        Some(i) => {
            assert(line.contains(line[i]));
        },
        None => {},
    }
}

/// Every field behind the name is read as the number that it is, and one that is missing or no
/// number gives none. One ASCII character parts the name from the fields, whichever it is; behind
/// any other character there are none.
pub proof fn fields_behind_the_name_are_numbers(
    head: Seq<char>,
    separator: char,
    fields: Seq<Seq<char>>,
    k: int,
)
    requires
        forall|i: int|
            0 <= i < fields.len() ==> crate::text::is_field(#[trigger] fields[i])
                && !fields[i].contains(')'),
        separator != ')',
        0 <= k,
    ensures
        ({
            let line = head.push(')').push(separator) + crate::text::spread(fields);
            &&& separator as u32 <= 0x7f && k < fields.len() ==> stat_number(line, k)
                == crate::text::i32_literal(fields[k])
            &&& separator as u32 <= 0x7f && k >= fields.len() ==> stat_number(line, k) is None
            &&& separator as u32 > 0x7f ==> stat_number(line, k) is None
        }),
{
    let tail = crate::text::spread(fields);
    let line = head.push(')').push(separator) + tail;
    let close = head.len() as int;
    crate::text::lemma_last_index(line, ')');
    lemma_spread_lacks(fields, ')');
    assert(line[close] == ')');
    assert(line[close + 1] == separator);
    match crate::text::last_index(line, ')') {
        Some(i) => {
            if i > close + 1 {
                assert(line[i] == tail[i - close - 2]);
                assert(tail.contains(tail[i - close - 2]));
            }
            assert(i == close);
        },
        None => {},
    }
    assert(line.skip(close + 2) =~= tail);
    crate::text::fields_are_read_back(fields, Seq::empty());
    assert(tail + Seq::empty() =~= tail);
    assert(fields + crate::text::words(Seq::empty()) =~= fields);
}

/// The ids that entries name are read back, all of them and in order.
pub proof fn listed_entries_are_read_back(ids: Seq<u32>, names: Seq<Option<String>>)
    requires
        names.len() == ids.len(),
        forall|i: int|
            0 <= i < names.len() ==> #[trigger] names[i] is Some && names[i]->0@
                == crate::text::decimal(ids[i] as nat),
    ensures
        entry_ids(names) == ids,
    decreases ids.len(),
{
    if ids.len() == 0 {
        assert(entry_ids(names) =~= ids);
    } else {
        let last = ids.len() - 1;
        assert(names[last] is Some);
        let name = names[last]->0;
        let fewer = names.drop_last();
        assert forall|i: int| 0 <= i < fewer.len() implies #[trigger] fewer[i] is Some
            && fewer[i]->0@ == crate::text::decimal(ids.drop_last()[i] as nat) by {
            assert(fewer[i] == names[i]);
        }
        listed_entries_are_read_back(ids.drop_last(), fewer);
        entries_are_read_back(fewer, seq![Some(name)], name, ids[last]);
        assert(fewer + seq![Some(name)] =~= names);
        assert(ids.drop_last() + seq![ids[last]] =~= ids);
    }
}

/// The ids in two lists of fields are those in each, in order; a field that is no number is passed
/// over, and those behind it are read none the less.
pub proof fn other_fields_are_passed_over(one: Seq<Seq<char>>, other: Seq<Seq<char>>)
    ensures
        literal_ids(one + other) == literal_ids(one) + literal_ids(other),
        one.len() == 1 ==> literal_ids(one) == match crate::text::u32_literal(one[0]) {
            Some(id) => seq![id],
            None => Seq::empty(),
        },
    decreases other.len(),
{
    reveal_with_fuel(literal_ids, 2);
    if one.len() == 1 {
        assert(one.drop_last() =~= Seq::empty());
        assert(literal_ids(one) =~= match crate::text::u32_literal(one[0]) {
            Some(id) => seq![id],
            None => Seq::empty(),
        });
    }
    if other.len() == 0 {
        assert(one + other =~= one);
        assert(literal_ids(one) + literal_ids(other) =~= literal_ids(one));
    } else {
        other_fields_are_passed_over(one, other.drop_last());
        assert((one + other).drop_last() =~= one + other.drop_last());
        assert((one + other).last() == other.last());
        assert(literal_ids(one + other) =~= literal_ids(one) + literal_ids(other));
    }
}

/// The children in a file are the ids among its fields, and a file that cannot be read has none.
pub proof fn children_are_the_ids_of_the_file(text: String)
    ensures
        children_ids(Some(text)) == literal_ids(crate::text::words(text@)),
        children_ids(None).len() == 0,
{
}

/// A name of digits alone is the id that it denotes, leading zeros or not, and a sign is no digit.
pub proof fn leading_zeros_change_no_id(digits: Seq<char>, zero: String, plain: String, sign: String)
    requires
        digits.len() > 0,
        forall|i: int| 0 <= i < digits.len() ==> '0' <= #[trigger] digits[i] <= '9',
        plain@ == digits,
        zero@ == seq!['0'] + digits,
        sign@ == seq!['+'] + digits,
    ensures
        entry_id(Some(zero)) == entry_id(Some(plain)),
        entry_id(Some(plain)) == crate::text::u32_literal(digits),
        entry_id(Some(sign)) is None,
{
    crate::text::signs_and_zeros_change_nothing(digits);
    assert forall|i: int| 0 <= i < digits.len() implies crate::text::is_digit(
        #[trigger] digits[i],
    ) by {}
    assert forall|i: int| 0 <= i < zero@.len() implies crate::text::is_digit(
        #[trigger] zero@[i],
    ) by {
        if i > 0 {
            assert(zero@[i] == digits[i - 1]);
        }
    }
    assert(!crate::text::is_digit(sign@[0]));
}

} // verus!
