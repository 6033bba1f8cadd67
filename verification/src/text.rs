//! Text primitives: whitespace fields, integer literals, searching and byte decoding.
use vstd::prelude::*;

verus! {

/// The contents of a list of strings.
pub open spec fn texts(list: Seq<String>) -> Seq<Seq<char>> {
    Seq::new(list.len(), |i: int| list[i]@)
}

/// The contents of a list of character vectors.
pub open spec fn char_lists(list: Seq<Vec<char>>) -> Seq<Seq<char>> {
    Seq::new(list.len(), |i: int| list[i]@)
}

/// `String::push` appends one character at the end.
pub assume_specification[ String::push ](s: &mut String, c: char)
    ensures
        final(s)@ == old(s)@.push(c),
;

/// The characters of `text`, in order.
pub fn to_chars(text: &str) -> (chars: Vec<char>)
    ensures
        chars@ == text@,
{
    let mut chars: Vec<char> = Vec::new();
    let mut rest = text.chars();
    assert(chars@ + vstd::std_specs::iter::IteratorSpec::remaining(&rest) == text@);
    loop
        invariant
            chars@ + vstd::std_specs::iter::IteratorSpec::remaining(&rest) == text@,
            vstd::std_specs::iter::IteratorSpec::decrease(&rest) is Some,
            vstd::std_specs::iter::IteratorSpec::obeys_prophetic_iter_laws(&rest),
        ensures
            chars@ == text@,
        decreases vstd::std_specs::iter::IteratorSpec::decrease(&rest)->0,
    {
        match rest.next() {
            Some(c) => {
                chars.push(c);
                assert(chars@ + vstd::std_specs::iter::IteratorSpec::remaining(&rest) == text@);
            },
            None => break,
        }
    }
    chars
}

/// The string made of the characters `chars[from..to]`.
pub fn string_of(chars: &[char], from: usize, to: usize) -> (s: String)
    requires
        from <= to <= chars@.len(),
    ensures
        s@ == chars@.subrange(from as int, to as int),
{
    let mut s: String = String::new();
    let mut i: usize = from;
    while i < to
        invariant
            from <= i <= to <= chars@.len(),
            s@ == chars@.subrange(from as int, i as int),
        decreases to - i,
    {
        s.push(chars[i]);
        i = i + 1;
    }
    s
}

/// Whether two strings hold the same characters.
pub fn same_text(a: &str, b: &str) -> (same: bool)
    ensures
        same == (a@ == b@),
{
    let left: Vec<char> = to_chars(a);
    let right: Vec<char> = to_chars(b);
    if left.len() != right.len() {
        return false;
    }
    let mut i: usize = 0;
    while i < left.len()
        invariant
            left@ == a@,
            right@ == b@,
            left@.len() == right@.len(),
            i <= left@.len(),
            forall|j: int| 0 <= j < i ==> left@[j] == right@[j],
        decreases left@.len() - i,
    {
        if left[i] != right[i] {
            assert(a@[i as int] != b@[i as int]);
            return false;
        }
        i = i + 1;
    }
    assert(a@ =~= b@);
    true
}

// ---------------------------------------------------------------------------
// Whitespace fields
// ---------------------------------------------------------------------------

/// The Unicode `White_Space` characters.
pub open spec fn is_space(c: char) -> bool {
    ||| 0x09 <= c as u32 <= 0x0d
    ||| c as u32 == 0x20
    ||| c as u32 == 0x85
    ||| c as u32 == 0xa0
    ||| c as u32 == 0x1680
    ||| 0x2000 <= c as u32 <= 0x200a
    ||| c as u32 == 0x2028
    ||| c as u32 == 0x2029
    ||| c as u32 == 0x202f
    ||| c as u32 == 0x205f
    ||| c as u32 == 0x3000
}

/// Whether `c` is a Unicode `White_Space` character.
pub fn is_whitespace(c: char) -> (space: bool)
    ensures
        space == is_space(c),
{
    let code: u32 = c as u32;
    (0x09 <= code && code <= 0x0d) || code == 0x20 || code == 0x85 || code == 0xa0
        || code == 0x1680 || (0x2000 <= code && code <= 0x200a) || code == 0x2028
        || code == 0x2029 || code == 0x202f || code == 0x205f || code == 0x3000
}

/// The maximal whitespace-free runs of `s`, in order: one more character either extends the last
/// run or starts a new one, and a space does neither.
pub open spec fn words(s: Seq<char>) -> Seq<Seq<char>>
    decreases s.len(),
{
    if s.len() == 0 {
        Seq::empty()
    } else {
        let before = words(s.drop_last());
        if is_space(s.last()) {
            before
        } else if s.len() >= 2 && !is_space(s[s.len() - 2]) {
            before.drop_last().push(before.last().push(s.last()))
        } else {
            before.push(seq![s.last()])
        }
    }
}

/// A text that does not end in a space ends in a word.
proof fn lemma_words_nonempty(s: Seq<char>)
    requires
        s.len() > 0,
        !is_space(s.last()),
    ensures
        words(s).len() > 0,
{
}

/// Splits `chars[from..]` around Unicode whitespace.
pub fn split_whitespace(chars: &[char], from: usize) -> (fields: Vec<Vec<char>>)
    requires
        from <= chars@.len(),
    ensures
        char_lists(fields@) == words(chars@.skip(from as int)),
{
    let ghost s = chars@.skip(from as int);
    let mut fields: Vec<Vec<char>> = Vec::new();
    let mut i: usize = from;
    let mut inside: bool = false;
    assert(s.take(0) =~= Seq::<char>::empty());
    assert(char_lists(fields@) =~= words(s.take(0)));
    while i < chars.len()
        invariant
            from <= i <= chars@.len(),
            s == chars@.skip(from as int),
            char_lists(fields@) == words(s.take(i - from)),
            inside == (i > from && !is_space(chars@[i - 1])),
        decreases chars@.len() - i,
    {
        let c: char = chars[i];
        let ghost before = s.take(i - from);
        let ghost after = s.take(i - from + 1);
        let ghost old_fields = fields@;
        assert(after.drop_last() =~= before);
        assert(after.last() == c);
        if is_whitespace(c) {
            inside = false;
        } else if inside {
            proof {
                assert(before.last() == chars@[i - 1]);
                lemma_words_nonempty(before);
                assert(after[after.len() - 2] == chars@[i - 1]);
                assert(char_lists(old_fields).len() > 0);
            }
            match fields.pop() {
                Some(word) => {
                    let mut word: Vec<char> = word;
                    word.push(c);
                    fields.push(word);
                    assert(char_lists(fields@) =~= char_lists(old_fields).drop_last().push(
                        char_lists(old_fields).last().push(c),
                    ));
                },
                None => {},
            }
        } else {
            let mut word: Vec<char> = Vec::new();
            word.push(c);
            fields.push(word);
            inside = true;
            proof {
                if after.len() >= 2 {
                    assert(after[after.len() - 2] == chars@[i - 1]);
                }
                assert(word@ =~= seq![c]);
                assert(char_lists(fields@) =~= char_lists(old_fields).push(seq![c]));
            }
        }
        i = i + 1;
        assert(s.take(i - from) == after);
    }
    assert(s.take(i - from) =~= s);
    fields
}

// ---------------------------------------------------------------------------
// Integer literals
// ---------------------------------------------------------------------------

/// The ASCII decimal digits.
pub open spec fn is_digit(c: char) -> bool {
    '0' <= c <= '9'
}

/// Every character is an ASCII decimal digit.
pub open spec fn all_digits(s: Seq<char>) -> bool {
    forall|i: int| 0 <= i < s.len() ==> is_digit(#[trigger] s[i])
}

/// The number that a string of decimal digits denotes.
pub open spec fn digits_value(s: Seq<char>) -> int
    decreases s.len(),
{
    if s.len() == 0 {
        0
    } else {
        10 * digits_value(s.drop_last()) + (s.last() as int - '0' as int)
    }
}

/// The number that an unsigned literal denotes: an optional `+`, then at least one digit.
pub open spec fn unsigned_literal(s: Seq<char>) -> Option<int> {
    let body = if s.len() > 0 && s[0] == '+' {
        s.skip(1)
    } else {
        s
    };
    if body.len() > 0 && all_digits(body) {
        Some(digits_value(body))
    } else {
        None
    }
}

/// The number that a signed literal denotes: an optional `+` or `-`, then at least one digit.
pub open spec fn signed_literal(s: Seq<char>) -> Option<int> {
    if s.len() > 0 && s[0] == '-' {
        let body = s.skip(1);
        if body.len() > 0 && all_digits(body) {
            Some(-digits_value(body))
        } else {
            None
        }
    } else {
        unsigned_literal(s)
    }
}

/// The `u32` that a literal denotes, if it denotes one.
pub open spec fn u32_literal(s: Seq<char>) -> Option<u32> {
    match unsigned_literal(s) {
        Some(value) => if value <= u32::MAX {
            Some(value as u32)
        } else {
            None
        },
        None => None,
    }
}

/// The `i32` that a literal denotes, if it denotes one.
pub open spec fn i32_literal(s: Seq<char>) -> Option<i32> {
    match signed_literal(s) {
        Some(value) => if i32::MIN <= value <= i32::MAX {
            Some(value as i32)
        } else {
            None
        },
        None => None,
    }
}

/// A longer string of digits denotes no smaller number.
proof fn lemma_digits_value_grows(s: Seq<char>, k: int)
    requires
        all_digits(s),
        0 <= k <= s.len(),
    ensures
        0 <= digits_value(s.take(k)) <= digits_value(s),
    decreases s.len(),
{
    if k == s.len() {
        assert(s.take(k) =~= s);
        if s.len() > 0 {
            let shorter = s.drop_last();
            assert forall|i: int| 0 <= i < shorter.len() implies is_digit(#[trigger] shorter[i]) by {
                assert(shorter[i] == s[i]);
            }
            lemma_digits_value_grows(shorter, shorter.len() as int);
            assert(shorter.take(shorter.len() as int) =~= shorter);
            assert(is_digit(s[s.len() - 1]));
        }
    } else {
        let shorter = s.drop_last();
        assert forall|i: int| 0 <= i < shorter.len() implies is_digit(#[trigger] shorter[i]) by {
            assert(shorter[i] == s[i]);
        }
        lemma_digits_value_grows(shorter, k);
        assert(shorter.take(k) =~= s.take(k));
        assert(is_digit(s[s.len() - 1]));
    }
}

/// The number that the digits `chars[from..]` denote, if there are any, all are digits and the
/// number is at most `limit`.
fn magnitude(chars: &[char], from: usize, limit: u64) -> (value: Option<u64>)
    requires
        from <= chars@.len(),
        limit <= 0x1_0000_0000,
    ensures
        ({
            let body = chars@.skip(from as int);
            match value {
                Some(v) => body.len() > 0 && all_digits(body) && digits_value(body) == v && v
                    <= limit,
                None => body.len() == 0 || !all_digits(body) || digits_value(body) > limit,
            }
        }),
{
    let ghost body = chars@.skip(from as int);
    if from == chars.len() {
        return None;
    }
    let mut value: u64 = 0;
    let mut i: usize = from;
    assert(body.take(0) =~= Seq::<char>::empty());
    while i < chars.len()
        invariant
            from <= i <= chars@.len(),
            body == chars@.skip(from as int),
            all_digits(body.take(i - from)),
            digits_value(body.take(i - from)) == value,
            value <= limit,
            limit <= 0x1_0000_0000,
        decreases chars@.len() - i,
    {
        let c: char = chars[i];
        let ghost before = body.take(i - from);
        let ghost after = body.take(i - from + 1);
        assert(after.drop_last() =~= before);
        assert(after.last() == c);
        assert(body[i - from] == c);
        if !('0' <= c && c <= '9') {
            return None;
        }
        value = value * 10 + (c as u64 - '0' as u64);
        assert forall|k: int| 0 <= k < after.len() implies is_digit(#[trigger] after[k]) by {
            if k < before.len() {
                assert(after[k] == before[k]);
            }
        }
        if value > limit {
            proof {
                if all_digits(body) {
                    lemma_digits_value_grows(body, i - from + 1);
                }
            }
            return None;
        }
        i = i + 1;
    }
    assert(body.take(i - from) =~= body);
    Some(value)
}

/// Reads a decimal `u32`: an optional `+` and at least one digit, nothing else.
pub fn parse_u32(chars: &[char]) -> (value: Option<u32>)
    ensures
        value == u32_literal(chars@),
{
    assert(chars@.skip(0) =~= chars@);
    if chars.len() > 0 && chars[0] == '+' {
        match magnitude(chars, 1, 0xffff_ffff) {
            Some(v) => Some(v as u32),
            None => None,
        }
    } else {
        match magnitude(chars, 0, 0xffff_ffff) {
            Some(v) => Some(v as u32),
            None => None,
        }
    }
}

/// Reads a decimal `i32`: an optional sign and at least one digit, nothing else.
pub fn parse_i32(chars: &[char]) -> (value: Option<i32>)
    ensures
        value == i32_literal(chars@),
{
    assert(chars@.skip(0) =~= chars@);
    if chars.len() > 0 && chars[0] == '-' {
        match magnitude(chars, 1, 0x8000_0000) {
            Some(v) => Some((0 - v as i64) as i32),
            None => None,
        }
    } else if chars.len() > 0 && chars[0] == '+' {
        match magnitude(chars, 1, 0x7fff_ffff) {
            Some(v) => Some(v as i32),
            None => None,
        }
    } else {
        match magnitude(chars, 0, 0x7fff_ffff) {
            Some(v) => Some(v as i32),
            None => None,
        }
    }
}

// ---------------------------------------------------------------------------
// Searching
// ---------------------------------------------------------------------------

/// The position of the first `c` in `s`, if there is one.
pub open spec fn first_index(s: Seq<char>, c: char) -> Option<int>
    decreases s.len(),
{
    if s.len() == 0 {
        None
    } else {
        match first_index(s.drop_last(), c) {
            Some(i) => Some(i),
            None => if s.last() == c {
                Some(s.len() - 1)
            } else {
                None
            },
        }
    }
}

/// The position of the last `c` in `s`, if there is one.
pub open spec fn last_index(s: Seq<char>, c: char) -> Option<int>
    decreases s.len(),
{
    if s.len() == 0 {
        None
    } else if s.last() == c {
        Some(s.len() - 1)
    } else {
        last_index(s.drop_last(), c)
    }
}

/// The first position holds the character and no earlier one does; without one, none does.
pub proof fn lemma_first_index(s: Seq<char>, c: char)
    ensures
        match first_index(s, c) {
            Some(i) => 0 <= i < s.len() && s[i] == c && (forall|j: int|
                0 <= j < i ==> s[j] != c),
            None => forall|j: int| 0 <= j < s.len() ==> s[j] != c,
        },
    decreases s.len(),
{
    if s.len() > 0 {
        lemma_first_index(s.drop_last(), c);
        assert forall|j: int| 0 <= j < s.len() - 1 implies s.drop_last()[j] == s[j] by {}
    }
}

/// The last position holds the character and no later one does; without one, none does.
pub proof fn lemma_last_index(s: Seq<char>, c: char)
    ensures
        match last_index(s, c) {
            Some(i) => 0 <= i < s.len() && s[i] == c && (forall|j: int|
                i < j < s.len() ==> s[j] != c),
            None => forall|j: int| 0 <= j < s.len() ==> s[j] != c,
        },
    decreases s.len(),
{
    if s.len() > 0 && s.last() != c {
        lemma_last_index(s.drop_last(), c);
        assert forall|j: int| 0 <= j < s.len() - 1 implies s.drop_last()[j] == s[j] by {}
    }
}

/// The position of the first `c`.
pub fn find(chars: &[char], c: char) -> (found: Option<usize>)
    ensures
        match found {
            Some(i) => first_index(chars@, c) == Some(i as int),
            None => first_index(chars@, c) is None,
        },
{
    proof {
        lemma_first_index(chars@, c);
    }
    let mut i: usize = 0;
    while i < chars.len()
        invariant
            i <= chars@.len(),
            forall|j: int| 0 <= j < i ==> chars@[j] != c,
        decreases chars@.len() - i,
    {
        if chars[i] == c {
            proof {
                lemma_first_index(chars@, c);
            }
            return Some(i);
        }
        i = i + 1;
    }
    None
}

/// The position of the last `c`.
pub fn rfind(chars: &[char], c: char) -> (found: Option<usize>)
    ensures
        match found {
            Some(i) => last_index(chars@, c) == Some(i as int),
            None => last_index(chars@, c) is None,
        },
{
    proof {
        lemma_last_index(chars@, c);
    }
    let mut i: usize = chars.len();
    while i > 0
        invariant
            i <= chars@.len(),
            forall|j: int| i <= j < chars@.len() ==> chars@[j] != c,
        decreases i,
    {
        if chars[i - 1] == c {
            proof {
                lemma_last_index(chars@, c);
            }
            return Some(i - 1);
        }
        i = i - 1;
    }
    None
}

/// `needle` occurs somewhere in `s`.
pub open spec fn contains_text(s: Seq<char>, needle: Seq<char>) -> bool {
    exists|i: int|
        0 <= i <= s.len() - needle.len() && #[trigger] s.subrange(i, i + needle.len()) == needle
}

/// Whether `needle` occurs somewhere in `chars`.
pub fn contains(chars: &[char], needle: &[char]) -> (found: bool)
    ensures
        found == contains_text(chars@, needle@),
{
    if needle.len() > chars.len() {
        return false;
    }
    let last: usize = chars.len() - needle.len();
    let mut i: usize = 0;
    while i <= last
        invariant
            i <= last + 1,
            last + needle@.len() == chars@.len(),
            forall|k: int|
                0 <= k < i ==> #[trigger] chars@.subrange(k, k + needle@.len()) != needle@,
        decreases last + 1 - i,
    {
        let mut j: usize = 0;
        while j < needle.len() && chars[i + j] == needle[j]
            invariant
                i <= last,
                last + needle@.len() == chars@.len(),
                chars@.len() == chars.len(),
                j <= needle@.len(),
                forall|k: int| 0 <= k < j ==> chars@[i + k] == needle@[k],
            decreases needle@.len() - j,
        {
            j = j + 1;
        }
        if j == needle.len() {
            assert(chars@.subrange(i as int, i + needle@.len()) =~= needle@);
            return true;
        }
        assert(chars@.subrange(i as int, i + needle@.len())[j as int] == chars@[i + j]);
        assert(chars@.subrange(i as int, i + needle@.len()) != needle@);
        if i == last {
            assert forall|k: int| 0 <= k <= chars@.len() - needle@.len() implies
                #[trigger] chars@.subrange(k, k + needle@.len()) != needle@ by {}
            return false;
        }
        i = i + 1;
    }
    false
}

/// The ASCII lower-case form of a character.
pub open spec fn ascii_lower(c: char) -> char {
    if 'A' <= c <= 'Z' {
        (c as u32 + 32) as char
    } else {
        c
    }
}

/// The characters of `text` with the ASCII letters in lower case.
pub fn to_ascii_lowercase(text: &str) -> (chars: Vec<char>)
    ensures
        chars@ == text@.map_values(|c: char| ascii_lower(c)),
{
    let source: Vec<char> = to_chars(text);
    let mut chars: Vec<char> = Vec::new();
    let mut i: usize = 0;
    while i < source.len()
        invariant
            source@ == text@,
            i <= source@.len(),
            chars@.len() == i,
            forall|k: int| 0 <= k < i ==> chars@[k] == ascii_lower(#[trigger] source@[k]),
        decreases source@.len() - i,
    {
        let c: char = source[i];
        if 'A' <= c && c <= 'Z' {
            chars.push((c as u8 + 32) as char);
        } else {
            chars.push(c);
        }
        i = i + 1;
    }
    assert(chars@ =~= text@.map_values(|c: char| ascii_lower(c)));
    chars
}

// ---------------------------------------------------------------------------
// Joining
// ---------------------------------------------------------------------------

/// The parts of `list` with one space between neighbours.
pub open spec fn spaced(list: Seq<Seq<char>>) -> Seq<char>
    decreases list.len(),
{
    if list.len() == 0 {
        Seq::empty()
    } else if list.len() == 1 {
        list[0]
    } else {
        spaced(list.drop_last()).push(' ') + list.last()
    }
}

/// Joins the strings with single spaces.
pub fn join_spaced(parts: &[String]) -> (joined: String)
    ensures
        joined@ == spaced(texts(parts@)),
{
    let mut joined: String = String::new();
    let mut i: usize = 0;
    assert(texts(parts@).take(0) =~= Seq::<Seq<char>>::empty());
    while i < parts.len()
        invariant
            i <= parts@.len(),
            joined@ == spaced(texts(parts@).take(i as int)),
        decreases parts@.len() - i,
    {
        let ghost after = texts(parts@).take(i + 1);
        assert(after.drop_last() =~= texts(parts@).take(i as int));
        if i > 0 {
            joined.push(' ');
        }
        joined.append(parts[i].as_str());
        proof {
            if i == 0 {
                assert(joined@ =~= parts@[0]@);
            }
        }
        i = i + 1;
    }
    assert(texts(parts@).take(i as int) =~= texts(parts@));
    joined
}

// ---------------------------------------------------------------------------
// Bytes
// ---------------------------------------------------------------------------

/// The text that `String::from_utf8_lossy` reads in a byte string.
pub uninterp spec fn utf8_lossy(bytes: Seq<u8>) -> Seq<char>;

/// The texts of byte strings, with invalid UTF-8 replaced.
pub open spec fn lossy_texts(parts: Seq<Seq<u8>>) -> Seq<Seq<char>> {
    parts.map_values(|part: Seq<u8>| utf8_lossy(part))
}

/// `String::from_utf8_lossy`, owned. Valid UTF-8 is decoded as it stands; what takes the place of
/// invalid sequences is left to the name.
#[verifier::external_body]
pub(crate) fn from_utf8_lossy(bytes: &[u8]) -> (text: String)
    ensures
        text@ == utf8_lossy(bytes@),
        vstd::utf8::valid_utf8(bytes@) ==> text@ == vstd::utf8::decode_utf8(bytes@),
{
    String::from_utf8_lossy(bytes).into_owned()
}

/// `String::from_utf8`: the decoded text of valid UTF-8, nothing otherwise.
#[verifier::external_body]
pub(crate) fn from_utf8(bytes: Vec<u8>) -> (text: Option<String>)
    ensures
        text is Some <==> vstd::utf8::valid_utf8(bytes@),
        text is Some ==> text->0@ == vstd::utf8::decode_utf8(bytes@),
{
    String::from_utf8(bytes).ok()
}

// ---------------------------------------------------------------------------
// Laws
// ---------------------------------------------------------------------------

/// A space ends a word and starts none: what stands before it and what stands behind it are split
/// each for itself, and nothing is lost of either.
pub proof fn spaces_part_words(before: Seq<char>, space: char, behind: Seq<char>)
    requires
        is_space(space),
    ensures
        words(before.push(space) + behind) == words(before) + words(behind),
    decreases behind.len(),
{
    let head = before.push(space);
    let all = head + behind;
    if behind.len() == 0 {
        assert(all =~= head);
        assert(head.drop_last() =~= before);
        assert(words(before) + words(behind) =~= words(before));
    } else {
        let fewer = behind.drop_last();
        spaces_part_words(before, space, fewer);
        assert(all.drop_last() =~= head + fewer);
        assert(all.last() == behind.last());
        if is_space(behind.last()) {
        } else if behind.len() >= 2 && !is_space(behind[behind.len() - 2]) {
            assert(all[all.len() - 2] == behind[behind.len() - 2]);
            assert(fewer.last() == behind[behind.len() - 2]);
            lemma_words_nonempty(fewer);
            let first = words(before);
            let rest = words(fewer);
            assert((first + rest).drop_last() =~= first + rest.drop_last());
            assert(words(all) =~= first + words(behind));
        } else {
            if behind.len() == 1 {
                assert(all[all.len() - 2] == space);
            } else {
                assert(all[all.len() - 2] == behind[behind.len() - 2]);
            }
            assert(words(all) =~= words(before) + words(behind));
        }
    }
}

/// A text without spaces is one word, which is the text itself.
pub proof fn a_text_without_spaces_is_a_word(text: Seq<char>)
    requires
        text.len() > 0,
        forall|i: int| 0 <= i < text.len() ==> !is_space(#[trigger] text[i]),
    ensures
        words(text) == seq![text],
    decreases text.len(),
{
    let fewer = text.drop_last();
    assert(!is_space(text[text.len() - 1]));
    if text.len() == 1 {
        assert(fewer =~= Seq::empty());
        assert(seq![text.last()] =~= text);
        assert(words(fewer).len() == 0);
        assert(words(text) =~= seq![text]);
    } else {
        assert forall|i: int| 0 <= i < fewer.len() implies !is_space(#[trigger] fewer[i]) by {
            assert(fewer[i] == text[i]);
        }
        a_text_without_spaces_is_a_word(fewer);
        assert(!is_space(text[text.len() - 2]));
        assert(fewer.push(text.last()) =~= text);
        assert(words(fewer).last() == fewer);
        assert(text[text.len() - 2] == fewer.last());
        assert(words(fewer).drop_last() =~= Seq::<Seq<char>>::empty());
        assert(words(text) =~= seq![text]);
    }
}

/// The fields of a line, each with a blank behind it.
pub open spec fn spread(fields: Seq<Seq<char>>) -> Seq<char>
    decreases fields.len(),
{
    if fields.len() == 0 {
        Seq::empty()
    } else {
        spread(fields.drop_last()) + fields.last().push(' ')
    }
}

/// A field can stand in a line: it is not empty and holds no space.
pub open spec fn is_field(field: Seq<char>) -> bool {
    field.len() > 0 && forall|i: int| 0 <= i < field.len() ==> !is_space(#[trigger] field[i])
}

/// The fields of a line are read back, whatever follows them.
pub proof fn fields_are_read_back(fields: Seq<Seq<char>>, rest: Seq<char>)
    requires
        forall|i: int| 0 <= i < fields.len() ==> is_field(#[trigger] fields[i]),
    ensures
        words(spread(fields) + rest) == fields + words(rest),
    decreases fields.len(),
{
    if fields.len() == 0 {
        assert(spread(fields) + rest =~= rest);
        assert(fields + words(rest) =~= words(rest));
    } else {
        let fewer = fields.drop_last();
        let last = fields.last();
        let tail = last.push(' ') + rest;
        assert forall|i: int| 0 <= i < fewer.len() implies is_field(#[trigger] fewer[i]) by {
            assert(fewer[i] == fields[i]);
        }
        fields_are_read_back(fewer, tail);
        assert(is_field(fields[fields.len() - 1]));
        spaces_part_words(last, ' ', rest);
        a_text_without_spaces_is_a_word(last);
        assert(spread(fields) + rest =~= spread(fewer) + tail);
        assert(fewer + (seq![last] + words(rest)) =~= fields + words(rest));
    }
}

/// The spaces are these twenty-five characters; no visible ASCII character is one.
pub proof fn visible_characters_are_no_spaces(c: char)
    ensures
        0x21 <= c as u32 <= 0x7e ==> !is_space(c),
        is_space(c) <==> {
            ||| c == '\t' || c == '\n' || c == '\u{b}' || c == '\u{c}' || c == '\r' || c == ' '
            ||| c == '\u{85}' || c == '\u{a0}' || c == '\u{1680}' || c == '\u{2000}'
            ||| c == '\u{2001}' || c == '\u{2002}' || c == '\u{2003}' || c == '\u{2004}'
            ||| c == '\u{2005}' || c == '\u{2006}' || c == '\u{2007}' || c == '\u{2008}'
            ||| c == '\u{2009}' || c == '\u{200a}' || c == '\u{2028}' || c == '\u{2029}'
            ||| c == '\u{202f}' || c == '\u{205f}' || c == '\u{3000}'
        },
{
}

/// The character of a digit.
pub open spec fn digit(value: nat) -> char {
    (48 + value) as char
}

/// A number as it is written in decimal.
pub open spec fn decimal(number: nat) -> Seq<char>
    decreases number,
{
    if number < 10 {
        seq![digit(number)]
    } else {
        decimal(number / 10).push(digit(number % 10))
    }
}

/// A number as it is written in decimal, with a minus where it is negative.
pub open spec fn signed_decimal(number: int) -> Seq<char> {
    if number < 0 {
        seq!['-'] + decimal((-number) as nat)
    } else {
        decimal(number as nat)
    }
}

/// A number that is written in decimal consists of digits, and denotes itself.
pub proof fn lemma_decimal(number: nat)
    ensures
        decimal(number).len() > 0,
        all_digits(decimal(number)),
        digits_value(decimal(number)) == number,
        forall|i: int|
            0 <= i < decimal(number).len() ==> '0' <= #[trigger] decimal(number)[i] <= '9',
    decreases number,
{
    let written = decimal(number);
    if number < 10 {
        assert(written.drop_last() =~= Seq::empty());
        assert(digits_value(written.drop_last()) == 0);
        assert(written.last() as int == 48 + number);
    } else {
        lemma_decimal(number / 10);
        let before = decimal(number / 10);
        assert(written.drop_last() =~= before);
        assert(written.last() as int == 48 + number % 10);
        assert forall|i: int| 0 <= i < written.len() implies is_digit(#[trigger] written[i]) by {
            if i < before.len() {
                assert(is_digit(before[i]));
            }
        }
    }
}

/// A written number is a field, and holds no parenthesis.
pub proof fn lemma_numbers_are_fields(number: int)
    ensures
        is_field(signed_decimal(number)),
        !signed_decimal(number).contains(')'),
{
    let size: nat = if number < 0 {
        (-number) as nat
    } else {
        number as nat
    };
    let written = signed_decimal(number);
    lemma_decimal(size);
    assert forall|i: int| 0 <= i < written.len() implies !is_space(#[trigger] written[i])
        && written[i] != ')' by {
        if number < 0 {
            if i > 0 {
                assert(written[i] == decimal(size)[i - 1]);
            }
        } else {
            assert(written[i] == decimal(size)[i]);
        }
    }
}

/// A written number is read back, and one that is out of range is refused.
pub proof fn written_numbers_are_read_back(number: int)
    ensures
        number >= 0 ==> u32_literal(decimal(number as nat)) == if number <= u32::MAX {
            Some(number as u32)
        } else {
            None
        },
        i32_literal(signed_decimal(number)) == if i32::MIN <= number <= i32::MAX {
            Some(number as i32)
        } else {
            None
        },
{
    if number >= 0 {
        lemma_decimal(number as nat);
        assert(is_digit(decimal(number as nat)[0]));
    } else {
        let written = decimal((-number) as nat);
        lemma_decimal((-number) as nat);
        assert(signed_decimal(number).skip(1) =~= written);
    }
}

/// A plus sign and leading zeros change nothing of a number.
pub proof fn signs_and_zeros_change_nothing(digits: Seq<char>)
    requires
        digits.len() > 0,
        forall|i: int| 0 <= i < digits.len() ==> '0' <= #[trigger] digits[i] <= '9',
    ensures
        u32_literal(seq!['+'] + digits) == u32_literal(digits),
        i32_literal(seq!['+'] + digits) == i32_literal(digits),
        u32_literal(seq!['0'] + digits) == u32_literal(digits),
        i32_literal(seq!['0'] + digits) == i32_literal(digits),
{
    assert(is_digit(digits[0]));
    assert((seq!['+'] + digits).skip(1) =~= digits);
    let padded = seq!['0'] + digits;
    assert forall|i: int| 0 <= i < padded.len() implies is_digit(#[trigger] padded[i]) by {
        if i > 0 {
            assert(padded[i] == digits[i - 1]);
        }
    }
    lemma_leading_zero(digits);
}

/// A leading zero adds nothing to the value.
proof fn lemma_leading_zero(digits: Seq<char>)
    ensures
        digits_value(seq!['0'] + digits) == digits_value(digits),
    decreases digits.len(),
{
    let padded = seq!['0'] + digits;
    if digits.len() == 0 {
        assert(padded =~= seq!['0']);
        assert(padded.drop_last() =~= Seq::empty());
        assert(digits_value(padded.drop_last()) == 0);
    } else {
        lemma_leading_zero(digits.drop_last());
        assert(padded.drop_last() =~= seq!['0'] + digits.drop_last());
        assert(padded.last() == digits.last());
    }
}

/// A text that holds anything but digits behind its first character, or that starts with something
/// else than a digit or a sign, or that has no digit, is no number.
pub proof fn other_characters_make_no_number(text: Seq<char>, i: int)
    requires
        text.len() == 0 || {
            &&& 0 <= i < text.len()
            &&& !('0' <= text[i] <= '9')
            &&& i > 0 || text.len() == 1 || (text[0] != '+' && text[0] != '-')
        },
    ensures
        u32_literal(text) is None,
        i32_literal(text) is None,
{
    if text.len() > 0 {
        assert(!is_digit(text[i]));
        if i > 0 {
            assert(text.skip(1)[i - 1] == text[i]);
        }
    }
}

/// A text holds another exactly where it is that text with something before it and behind it.
pub proof fn found_texts_are_there(text: Seq<char>, needle: Seq<char>)
    ensures
        contains_text(text, needle) <==> exists|before: Seq<char>, behind: Seq<char>|
            text == #[trigger] (before + needle + behind),
{
    if contains_text(text, needle) {
        let i = choose|i: int|
            0 <= i <= text.len() - needle.len() && #[trigger] text.subrange(i, i + needle.len())
                == needle;
        let before = text.take(i);
        let behind = text.skip(i + needle.len());
        assert(text =~= before + text.subrange(i, i + needle.len()) + behind);
        assert(text == before + needle + behind);
    }
    if exists|before: Seq<char>, behind: Seq<char>| text == #[trigger] (before + needle + behind) {
        let (before, behind) = choose|before: Seq<char>, behind: Seq<char>|
            text == #[trigger] (before + needle + behind);
        let i = before.len() as int;
        assert(text.subrange(i, i + needle.len()) =~= needle);
    }
}

/// Joined lists are joined with one space between them, and a single part is joined as it stands.
pub proof fn parts_are_joined_by_single_spaces(one: Seq<Seq<char>>, other: Seq<Seq<char>>)
    ensures
        one.len() == 1 ==> spaced(one) == one[0],
        one.len() > 0 && other.len() > 0 ==> spaced(one + other) == spaced(one) + seq![' ']
            + spaced(other),
    decreases other.len(),
{
    if one.len() > 0 && other.len() > 0 {
        let all = one + other;
        let fewer = other.drop_last();
        assert(all.drop_last() =~= one + fewer);
        assert(all.last() == other.last());
        if other.len() == 1 {
            assert(one + fewer =~= one);
            assert(spaced(all) =~= spaced(one) + seq![' '] + spaced(other));
        } else {
            parts_are_joined_by_single_spaces(one, fewer);
            assert(spaced(all) =~= spaced(one) + seq![' '] + spaced(other));
        }
    }
}

/// The bytes of a list of arguments, each with a NUL behind it.
pub open spec fn nul_joined(parts: Seq<Seq<u8>>) -> Seq<u8>
    decreases parts.len(),
{
    if parts.len() == 0 {
        Seq::empty()
    } else {
        nul_joined(parts.drop_last()) + parts.last().push(0u8)
    }
}

/// The texts of byte strings are the texts of each, none left out.
pub proof fn every_part_has_its_text(parts: Seq<Seq<u8>>)
    ensures
        lossy_texts(parts).len() == parts.len(),
        forall|i: int|
            0 <= i < parts.len() ==> #[trigger] lossy_texts(parts)[i] == utf8_lossy(parts[i]),
{
}

/// The texts of a list are those of its strings, none left out, and so are the characters.
pub proof fn every_string_has_its_text(list: Seq<String>, lists: Seq<Vec<char>>)
    ensures
        texts(list).len() == list.len(),
        forall|i: int| 0 <= i < list.len() ==> #[trigger] texts(list)[i] == list[i]@,
        char_lists(lists).len() == lists.len(),
        forall|i: int| 0 <= i < lists.len() ==> #[trigger] char_lists(lists)[i] == lists[i]@,
{
}

/// A minus makes an `i32` negative, whatever zeros follow it, and is no part of a `u32`.
pub proof fn minus_signs_negate(digits: Seq<char>)
    requires
        digits.len() > 0,
        forall|i: int| 0 <= i < digits.len() ==> '0' <= #[trigger] digits[i] <= '9',
    ensures
        u32_literal(seq!['-'] + digits) is None,
        i32_literal(seq!['-', '0'] + digits) == i32_literal(seq!['-'] + digits),
        i32_literal(digits) is Some ==> i32_literal(seq!['-'] + digits) is Some && i32_literal(
            seq!['-'] + digits,
        )->0 as int == -(i32_literal(digits)->0 as int),
{
    let negative = seq!['-'] + digits;
    let padded = seq!['0'] + digits;
    assert(is_digit(digits[0]));
    assert(negative[0] == '-' && !is_digit(negative[0]));
    assert(negative.skip(1) =~= digits);
    assert((seq!['-', '0'] + digits).skip(1) =~= padded);
    assert forall|i: int| 0 <= i < padded.len() implies is_digit(#[trigger] padded[i]) by {
        if i > 0 {
            assert(padded[i] == digits[i - 1]);
        }
    }
    assert(all_digits(digits));
    lemma_digits_value_grows(digits, 0);
    lemma_leading_zero(digits);
}

/// Each of the twenty-six letters has its lower-case form, and every other character is its own.
pub proof fn letters_are_lowered(c: char, i: int)
    ensures
        0 <= i < 26 && c == "ABCDEFGHIJKLMNOPQRSTUVWXYZ"@[i] ==> ascii_lower(c)
            == "abcdefghijklmnopqrstuvwxyz"@[i],
        !"ABCDEFGHIJKLMNOPQRSTUVWXYZ"@.contains(c) ==> ascii_lower(c) == c,
{
    let upper = "ABCDEFGHIJKLMNOPQRSTUVWXYZ"@;
    let lower = "abcdefghijklmnopqrstuvwxyz"@;
    reveal_strlit("ABCDEFGHIJKLMNOPQRSTUVWXYZ");
    reveal_strlit("abcdefghijklmnopqrstuvwxyz");
    assert(upper.len() == 26 && lower.len() == 26);
    if 0 <= i < 26 {
        assert(upper[i] as int == 65 + i && lower[i] as int == 97 + i) by {
            if i < 13 {
                assert(i == 0 || i == 1 || i == 2 || i == 3 || i == 4 || i == 5 || i == 6 || i == 7
                    || i == 8 || i == 9 || i == 10 || i == 11 || i == 12);
            } else {
                assert(i == 13 || i == 14 || i == 15 || i == 16 || i == 17 || i == 18 || i == 19
                    || i == 20 || i == 21 || i == 22 || i == 23 || i == 24 || i == 25);
            }
        }
    }
    if 'A' <= c <= 'Z' {
        assert(upper[c as int - 65] == c);
    }
}

} // verus!
