//! Text as sequences of characters: the operations on strings that the path
//! policy and the command executor are built from.
use vstd::prelude::*;
use vstd::utf8::{encode_scalar, encode_utf8};

verus! {

/// Appends one character to the end of a string (`String::push`): the text
/// afterwards is the text before with that character added at its end.
pub assume_specification[ String::push ](s: &mut String, c: char)
    ensures
        final(s)@ == old(s)@.push(c),
;

/// The characters of each string of a list.
pub open spec fn texts(list: Seq<String>) -> Seq<Seq<char>> {
    list.map_values(|s: String| s@)
}

/// The number of bytes that the UTF-8 form of a text takes.
pub open spec fn utf8_len(s: Seq<char>) -> nat {
    encode_utf8(s).len()
}

/// The pieces of `s` between the occurrences of `sep`, in order. There is
/// always one piece more than there are separators.
pub open spec fn split(s: Seq<char>, sep: char) -> Seq<Seq<char>>
    decreases s.len(),
{
    if s.len() == 0 {
        seq![Seq::empty()]
    } else {
        let before = split(s.drop_last(), sep);
        if s.last() == sep {
            before.push(Seq::empty())
        } else {
            before.drop_last().push(before.last().push(s.last()))
        }
    }
}

/// The texts of `parts` one after the other, with `sep` between neighbours.
pub open spec fn join(parts: Seq<Seq<char>>, sep: Seq<char>) -> Seq<char>
    decreases parts.len(),
{
    if parts.len() == 0 {
        Seq::empty()
    } else if parts.len() == 1 {
        parts[0]
    } else {
        join(parts.drop_last(), sep) + sep + parts.last()
    }
}

/// How many characters of `s` stand before the first `c` (all of them where
/// there is no `c`).
pub open spec fn span_until(s: Seq<char>, c: char) -> nat
    decreases s.len(),
{
    if s.len() == 0 || s[0] == c {
        0
    } else {
        1 + span_until(s.skip(1), c)
    }
}

/// What stands before and after the first `c`, where there is one.
pub open spec fn split_once(s: Seq<char>, c: char) -> Option<(Seq<char>, Seq<char>)> {
    let n = span_until(s, c);
    if n < s.len() {
        Some((s.take(n as int), s.skip(n as int + 1)))
    } else {
        None
    }
}

/// `s` without the run of `c` that it begins with.
pub open spec fn trim_start(s: Seq<char>, c: char) -> Seq<char>
    decreases s.len(),
{
    if s.len() > 0 && s[0] == c {
        trim_start(s.skip(1), c)
    } else {
        s
    }
}

/// Whether `s` begins with `prefix`.
pub open spec fn begins_with(s: Seq<char>, prefix: Seq<char>) -> bool {
    prefix.len() <= s.len() && s.take(prefix.len() as int) == prefix
}

/// Whether `part` occurs in `s` as a run of neighbouring characters.
pub open spec fn occurs_in(part: Seq<char>, s: Seq<char>) -> bool {
    exists|i: int| 0 <= i <= s.len() && #[trigger] begins_with(s.skip(i), part)
}

/// `s` with every occurrence of `from` replaced by `to`, found from left to
/// right and without overlap.
pub open spec fn replace_all(s: Seq<char>, from: Seq<char>, to: Seq<char>) -> Seq<char>
    decreases s.len(),
{
    if from.len() == 0 || s.len() == 0 {
        s
    } else if begins_with(s, from) {
        to + replace_all(s.skip(from.len() as int), from, to)
    } else {
        seq![s[0]] + replace_all(s.skip(1), from, to)
    }
}

/// The decimal digit of value `d`.
pub open spec fn digit_char(d: int) -> char {
    if d == 0 {
        '0'
    } else if d == 1 {
        '1'
    } else if d == 2 {
        '2'
    } else if d == 3 {
        '3'
    } else if d == 4 {
        '4'
    } else if d == 5 {
        '5'
    } else if d == 6 {
        '6'
    } else if d == 7 {
        '7'
    } else if d == 8 {
        '8'
    } else {
        '9'
    }
}

/// A natural number in decimal notation.
pub open spec fn decimal(n: nat) -> Seq<char>
    decreases n,
{
    if n < 10 {
        seq![digit_char(n as int)]
    } else {
        decimal(n / 10).push(digit_char((n % 10) as int))
    }
}

/// An integer in decimal notation, with a leading `-` where it is negative.
pub open spec fn signed_decimal(n: int) -> Seq<char> {
    if n < 0 {
        seq!['-'] + decimal((-n) as nat)
    } else {
        decimal(n as nat)
    }
}

/// The characters of a string.
pub fn chars_of(s: &str) -> (r: Vec<char>)
    ensures
        r@ == s@,
{
    let mut r: Vec<char> = Vec::new();
    for c in it: s.chars()
        invariant
            it.seq() == s@,
            r@ == it.seq().take(it.index() as int),
    {
        r.push(c);
    }
    r
}

/// The string that holds `chars[from..to]`.
pub fn text_between(chars: &Vec<char>, from: usize, to: usize) -> (r: String)
    requires
        from <= to <= chars@.len(),
    ensures
        r@ == chars@.subrange(from as int, to as int),
{
    let mut r = String::new();
    let mut i: usize = from;
    while i < to
        invariant
            from <= i <= to <= chars@.len(),
            r@ == chars@.subrange(from as int, i as int),
        decreases to - i,
    {
        r.push(chars[i]);
        i += 1;
    }
    r
}

/// Whether two strings hold the same text.
pub fn same_text(a: &str, b: &str) -> (r: bool)
    ensures
        r == (a@ == b@),
{
    a.to_owned() == b.to_owned()
}

/// The number of bytes of a string.
pub fn byte_len(s: &str) -> (r: usize)
    ensures
        r == utf8_len(s@),
{
    s.as_bytes().len()
}

/// Two strings one after the other.
pub fn concat2(a: &str, b: &str) -> (r: String)
    ensures
        r@ == a@ + b@,
{
    let mut r = a.to_owned();
    r.append(b);
    r
}

/// Three strings one after the other.
pub fn concat3(a: &str, b: &str, c: &str) -> (r: String)
    ensures
        r@ == a@ + b@ + c@,
{
    let mut r = a.to_owned();
    r.append(b);
    r.append(c);
    r
}

/// The pieces of a string between the occurrences of `sep`.
pub fn split_text(s: &str, sep: char) -> (r: Vec<String>)
    ensures
        texts(r@) == split(s@, sep),
{
    let chars = chars_of(s);
    let mut r: Vec<String> = Vec::new();
    let mut piece = String::new();
    let mut i: usize = 0;
    proof {
        assert(chars@.take(0) =~= Seq::<char>::empty());
        assert(texts(r@).push(piece@) =~= split(chars@.take(0), sep));
    }
    while i < chars.len()
        invariant
            0 <= i <= chars@.len(),
            chars@ == s@,
            texts(r@).push(piece@) == split(chars@.take(i as int), sep),
        decreases chars@.len() - i,
    {
        let c = chars[i];
        let ghost before = texts(r@).push(piece@);
        proof {
            assert(chars@.take(i + 1).drop_last() =~= chars@.take(i as int));
            assert(before.drop_last() =~= texts(r@));
        }
        if c == sep {
            r.push(piece);
            piece = String::new();
            assert(texts(r@) =~= before);
        } else {
            piece.push(c);
        }
        i += 1;
    }
    assert(chars@.take(i as int) =~= s@);
    let ghost done = texts(r@).push(piece@);
    r.push(piece);
    assert(texts(r@) =~= done);
    r
}

/// The strings of a list one after the other, with `sep` between neighbours.
pub fn join_texts(parts: &Vec<String>, sep: &str) -> (r: String)
    ensures
        r@ == join(texts(parts@), sep@),
{
    assert(texts(parts@).skip(0) =~= texts(parts@));
    join_from(parts, 0, sep)
}

/// The strings of a list from index `start` on, with `sep` between neighbours.
pub fn join_from(parts: &Vec<String>, start: usize, sep: &str) -> (r: String)
    requires
        start <= parts@.len(),
    ensures
        r@ == join(texts(parts@).skip(start as int), sep@),
{
    let mut r = String::new();
    let mut i: usize = start;
    let ghost all = texts(parts@).skip(start as int);
    assert(all.take(0) =~= Seq::<Seq<char>>::empty());
    while i < parts.len()
        invariant
            start <= i <= parts@.len(),
            all == texts(parts@).skip(start as int),
            r@ == join(all.take(i - start), sep@),
        decreases parts@.len() - i,
    {
        let ghost next = all.take(i - start + 1);
        proof {
            assert(next.drop_last() =~= all.take(i - start));
            assert(next.last() == parts@[i as int]@);
        }
        if i > start {
            r.append(sep);
        }
        r.append(parts[i].as_str());
        proof {
            if i == start {
                assert(next[0] == parts@[i as int]@);
                assert(r@ =~= parts@[i as int]@);
            }
        }
        i += 1;
    }
    assert(all.take(i - start) =~= all);
    r
}

/// Whether `chars[at..]` begins with `part`.
pub fn matches_at(chars: &Vec<char>, at: usize, part: &Vec<char>) -> (r: bool)
    requires
        at <= chars@.len(),
    ensures
        r == begins_with(chars@.skip(at as int), part@),
{
    let total: usize = chars.len();
    if part.len() > total - at {
        return false;
    }
    let mut i: usize = 0;
    while i < part.len()
        invariant
            0 <= i <= part@.len(),
            total == chars@.len(),
            at + part@.len() <= total,
            forall|j: int| 0 <= j < i ==> chars@[at + j] == part@[j],
        decreases part@.len() - i,
    {
        if chars[at + i] != part[i] {
            assert(chars@.skip(at as int).take(part@.len() as int)[i as int] != part@[i as int]);
            return false;
        }
        i += 1;
    }
    assert(chars@.skip(at as int).take(part@.len() as int) =~= part@);
    true
}

/// Whether a string begins with `prefix`.
pub fn starts_with_text(s: &str, prefix: &str) -> (r: bool)
    ensures
        r == begins_with(s@, prefix@),
{
    let chars = chars_of(s);
    let part = chars_of(prefix);
    assert(chars@.skip(0) =~= chars@);
    matches_at(&chars, 0, &part)
}

/// Whether `part` occurs in `s`.
pub fn contains_text(s: &str, part: &str) -> (r: bool)
    ensures
        r == occurs_in(part@, s@),
{
    let chars = chars_of(s);
    let wanted = chars_of(part);
    let mut i: usize = 0;
    loop
        invariant
            0 <= i <= chars@.len(),
            chars@ == s@,
            wanted@ == part@,
            forall|j: int| 0 <= j < i ==> !#[trigger] begins_with(s@.skip(j), part@),
        decreases chars@.len() - i,
    {
        if matches_at(&chars, i, &wanted) {
            return true;
        }
        if i == chars.len() {
            return false;
        }
        i += 1;
    }
}

/// Whether the character `c` occurs in `s`.
pub fn contains_char(s: &str, c: char) -> (r: bool)
    ensures
        r == s@.contains(c),
{
    let chars = chars_of(s);
    let mut i: usize = 0;
    while i < chars.len()
        invariant
            0 <= i <= chars@.len(),
            chars@ == s@,
            forall|j: int| 0 <= j < i ==> s@[j] != c,
        decreases chars@.len() - i,
    {
        if chars[i] == c {
            return true;
        }
        i += 1;
    }
    false
}

/// What follows `prefix` in `s`, where `s` begins with it.
pub fn strip_prefix_text(s: &str, prefix: &str) -> (r: Option<String>)
    ensures
        r is Some == begins_with(s@, prefix@),
        r matches Some(rest) ==> rest@ == s@.skip(prefix@.len() as int),
{
    if !starts_with_text(s, prefix) {
        return None;
    }
    let chars = chars_of(s);
    let n = chars_of(prefix).len();
    let rest = text_between(&chars, n, chars.len());
    assert(rest@ =~= s@.skip(prefix@.len() as int));
    Some(rest)
}

/// What stands before and after the first `c` of `s`.
pub fn split_once_text(s: &str, c: char) -> (r: Option<(String, String)>)
    ensures
        match (r, split_once(s@, c)) {
            (Some(parts), Some(expected)) => parts.0@ == expected.0 && parts.1@ == expected.1,
            (None, None) => true,
            _ => false,
        },
{
    let chars = chars_of(s);
    let mut i: usize = 0;
    assert(chars@.skip(0) =~= s@);
    while i < chars.len() && chars[i] != c
        invariant
            0 <= i <= chars@.len(),
            chars@ == s@,
            span_until(s@, c) == i + span_until(s@.skip(i as int), c),
        decreases chars@.len() - i,
    {
        assert(s@.skip(i as int).skip(1) =~= s@.skip(i + 1));
        i += 1;
    }
    if i == chars.len() {
        return None;
    }
    let head = text_between(&chars, 0, i);
    let tail = text_between(&chars, i + 1, chars.len());
    assert(head@ =~= s@.take(i as int));
    assert(tail@ =~= s@.skip(i + 1));
    Some((head, tail))
}

/// `s` without the run of `c` that it begins with.
pub fn trim_start_text(s: &str, c: char) -> (r: String)
    ensures
        r@ == trim_start(s@, c),
{
    let chars = chars_of(s);
    let mut i: usize = 0;
    assert(chars@.skip(0) =~= s@);
    while i < chars.len() && chars[i] == c
        invariant
            0 <= i <= chars@.len(),
            chars@ == s@,
            trim_start(s@, c) == trim_start(s@.skip(i as int), c),
        decreases chars@.len() - i,
    {
        assert(s@.skip(i as int).skip(1) =~= s@.skip(i + 1));
        i += 1;
    }
    let r = text_between(&chars, i, chars.len());
    assert(r@ =~= s@.skip(i as int));
    r
}

/// `s` with every occurrence of `from` replaced by `to`.
pub fn replace_text(s: &str, from: &str, to: &str) -> (r: String)
    ensures
        r@ == replace_all(s@, from@, to@),
{
    let chars = chars_of(s);
    let pattern = chars_of(from);
    if pattern.len() == 0 {
        return s.to_owned();
    }
    let mut r = String::new();
    let mut i: usize = 0;
    assert(chars@.skip(0) =~= s@);
    assert(r@ + replace_all(s@, from@, to@) =~= replace_all(s@, from@, to@));
    while i < chars.len()
        invariant
            0 <= i <= chars@.len(),
            chars@ == s@,
            pattern@ == from@,
            from@.len() > 0,
            replace_all(s@, from@, to@) == r@ + replace_all(s@.skip(i as int), from@, to@),
        decreases chars@.len() - i,
    {
        let ghost done = r@;
        let ghost rest = s@.skip(i as int);
        if matches_at(&chars, i, &pattern) {
            assert(rest.skip(from@.len() as int) =~= s@.skip(i + from@.len()));
            r.append(to);
            i += pattern.len();
            assert(r@ + replace_all(s@.skip(i as int), from@, to@) =~= done + (to@ + replace_all(
                s@.skip(i as int),
                from@,
                to@,
            )));
        } else {
            assert(rest.skip(1) =~= s@.skip(i + 1));
            r.push(chars[i]);
            i += 1;
            assert(r@ + replace_all(s@.skip(i as int), from@, to@) =~= done + (seq![rest[0]]
                + replace_all(s@.skip(i as int), from@, to@)));
        }
    }
    assert(r@ + replace_all(s@.skip(i as int), from@, to@) =~= r@);
    r
}

/// The decimal digit of value `d`.
fn digit_of(d: u64) -> (r: char)
    requires
        d < 10,
    ensures
        r == digit_char(d as int),
{
    if d == 0 {
        '0'
    } else if d == 1 {
        '1'
    } else if d == 2 {
        '2'
    } else if d == 3 {
        '3'
    } else if d == 4 {
        '4'
    } else if d == 5 {
        '5'
    } else if d == 6 {
        '6'
    } else if d == 7 {
        '7'
    } else if d == 8 {
        '8'
    } else {
        '9'
    }
}

/// A number in decimal notation.
pub fn decimal_text(n: u64) -> (r: String)
    ensures
        r@ == decimal(n as nat),
    decreases n,
{
    if n < 10 {
        let mut r = String::new();
        r.push(digit_of(n));
        assert(r@ =~= decimal(n as nat));
        r
    } else {
        let mut r = decimal_text(n / 10);
        r.push(digit_of(n % 10));
        r
    }
}

/// A signed number in decimal notation.
pub fn signed_decimal_text(n: i32) -> (r: String)
    ensures
        r@ == signed_decimal(n as int),
{
    if n < 0 {
        let magnitude: u64 = (-(n as i64)) as u64;
        let digits = decimal_text(magnitude);
        let mut r = String::new();
        r.push('-');
        r.append(digits.as_str());
        assert(r@ =~= seq!['-'] + digits@);
        r
    } else {
        decimal_text(n as u64)
    }
}

/// How many bytes the UTF-8 form of a character takes.
pub open spec fn char_width(c: char) -> nat {
    encode_scalar(c as u32).len()
}

/// The longest beginning of `s`, in whole characters, whose UTF-8 form takes
/// at most `room` bytes.
pub open spec fn fitting(s: Seq<char>, room: nat) -> Seq<char>
    decreases s.len(),
{
    if s.len() == 0 || char_width(s[0]) > room {
        Seq::empty()
    } else {
        seq![s[0]] + fitting(s.skip(1), (room - char_width(s[0])) as nat)
    }
}

/// How many bytes the UTF-8 form of a character takes.
pub fn width_of(c: char) -> (r: usize)
    ensures
        r == char_width(c),
        1 <= r <= 4,
{
    let scalar = c as u32;
    if scalar <= 0x7f {
        1
    } else if scalar <= 0x7ff {
        2
    } else if scalar <= 0xffff {
        3
    } else {
        4
    }
}

/// Adds as much of `value` to the end of a text as keeps it within `limit`
/// bytes.
pub fn append_within(target: &mut String, value: &str, limit: usize)
    ensures
        final(target)@ == if utf8_len(old(target)@) < limit {
            old(target)@ + fitting(value@, (limit - utf8_len(old(target)@)) as nat)
        } else {
            old(target)@
        },
{
    let used = byte_len(target.as_str());
    if used >= limit {
        return;
    }
    let ghost start = target@;
    let chars = chars_of(value);
    let mut room: usize = limit - used;
    let ghost all_room: nat = room as nat;
    let mut i: usize = 0;
    assert(value@.skip(0) =~= value@);
    assert(target@ + fitting(value@, room as nat) =~= start + fitting(value@, all_room));
    while i < chars.len() && width_of(chars[i]) <= room
        invariant
            0 <= i <= chars@.len(),
            chars@ == value@,
            target@ + fitting(value@.skip(i as int), room as nat) == start + fitting(
                value@,
                all_room,
            ),
        decreases chars@.len() - i,
    {
        let c = chars[i];
        let ghost rest = value@.skip(i as int);
        let ghost before = target@;
        let ghost room_before: nat = room as nat;
        target.push(c);
        room = room - width_of(c);
        proof {
            assert(rest.skip(1) =~= value@.skip(i + 1));
            assert(fitting(rest, room_before) == seq![c] + fitting(rest.skip(1), room as nat));
            assert(target@ + fitting(rest.skip(1), room as nat) =~= before + fitting(
                rest,
                room_before,
            ));
        }
        i += 1;
    }
    assert(target@ + Seq::<char>::empty() =~= target@);
}

/// What stands before the first `c`.
pub proof fn lemma_span_until(word: Seq<char>, c: char, rest: Seq<char>)
    requires
        !word.contains(c),
    ensures
        span_until(word + seq![c] + rest, c) == word.len(),
    decreases word.len(),
{
    let s = word + seq![c] + rest;
    if word.len() > 0 {
        assert(word[0] != c);
        let shorter = word.skip(1);
        assert(s.skip(1) =~= shorter + seq![c] + rest);
        if shorter.contains(c) {
            let i = choose|i: int| 0 <= i < shorter.len() && shorter[i] == c;
            assert(word[i + 1] == c);
        }
        lemma_span_until(shorter, c, rest);
    }
}

/// The UTF-8 form of two texts one after the other.
pub proof fn lemma_utf8_len_concat(a: Seq<char>, b: Seq<char>)
    ensures
        utf8_len(a + b) == utf8_len(a) + utf8_len(b),
    decreases a.len(),
{
    if a.len() == 0 {
        assert(a + b =~= b);
    } else {
        assert((a + b).drop_first() =~= a.drop_first() + b);
        lemma_utf8_len_concat(a.drop_first(), b);
    }
}

/// What fits, fits; and not one character more would.
pub proof fn lemma_fitting(s: Seq<char>, room: nat)
    ensures
        utf8_len(fitting(s, room)) <= room,
        fitting(s, room).len() <= s.len(),
        fitting(s, room) == s.take(fitting(s, room).len() as int),
        fitting(s, room).len() < s.len() ==> utf8_len(
            s.take(fitting(s, room).len() as int + 1),
        ) > room,
    decreases s.len(),
{
    if s.len() > 0 && char_width(s[0]) <= room {
        let left = (room - char_width(s[0])) as nat;
        let rest = s.skip(1);
        lemma_fitting(rest, left);
        let tail = fitting(rest, left);
        let one = seq![s[0]];
        assert(one.drop_first() =~= Seq::<char>::empty());
        assert(utf8_len(one) == char_width(s[0])) by {
            assert(encode_scalar(s[0] as u32) + encode_utf8(one.drop_first()) =~= encode_scalar(
                s[0] as u32,
            ));
        }
        lemma_utf8_len_concat(one, tail);
        assert(one + tail =~= s.take(tail.len() as int + 1));
        if tail.len() < rest.len() {
            let longer = rest.take(tail.len() as int + 1);
            lemma_utf8_len_concat(one, longer);
            assert(one + longer =~= s.take(tail.len() as int + 2));
        }
    } else if s.len() > 0 {
        let one = s.take(1);
        assert(one.drop_first() =~= Seq::<char>::empty());
        assert(encode_scalar(s[0] as u32) + encode_utf8(one.drop_first()) =~= encode_scalar(
            s[0] as u32,
        ));
        assert(s.take(0) =~= Seq::<char>::empty());
    }
}

/// A text begins with another exactly where it is that one and something after
/// it.
pub proof fn law_beginnings(s: Seq<char>, prefix: Seq<char>)
    ensures
        begins_with(s, prefix) <==> exists|rest: Seq<char>| s == prefix + rest,
{
    let n = prefix.len() as int;
    if begins_with(s, prefix) {
        assert(s =~= prefix + s.skip(n));
    }
    if exists|rest: Seq<char>| s == prefix + rest {
        assert(s.take(n) =~= prefix);
    }
}

/// A text occurs in another exactly where the other is something, the text, and
/// something more.
pub proof fn law_occurrences(part: Seq<char>, s: Seq<char>)
    ensures
        occurs_in(part, s) <==> exists|a: Seq<char>, b: Seq<char>| s == #[trigger] ((a + part) + b),
{
    if occurs_in(part, s) {
        let i = choose|i: int| 0 <= i <= s.len() && #[trigger] begins_with(s.skip(i), part);
        law_beginnings(s.skip(i), part);
        let rest = choose|rest: Seq<char>| s.skip(i) == part + rest;
        assert(s =~= s.take(i) + s.skip(i));
        assert(s =~= (s.take(i) + part) + rest) by {
            assert((s.take(i) + part) + rest =~= s.take(i) + (part + rest));
        }
    }
    if exists|a: Seq<char>, b: Seq<char>| s == #[trigger] ((a + part) + b) {
        let (a, b) = choose|a: Seq<char>, b: Seq<char>| s == #[trigger] ((a + part) + b);
        assert(s.skip(a.len() as int) =~= part + b);
        assert(s.skip(a.len() as int).take(part.len() as int) =~= part);
        assert(begins_with(s.skip(a.len() as int), part));
    }
}

/// A text is cut at the first separator: what stands before it holds none, and
/// the two parts with one separator between them are the text. Where there is no
/// separator nothing is cut.
pub proof fn law_cutting_once(s: Seq<char>, c: char)
    ensures
        match split_once(s, c) {
            Some((a, b)) => !a.contains(c) && s == a + seq![c] + b,
            None => !s.contains(c),
        },
        span_until(s, c) <= s.len(),
    decreases s.len(),
{
    if s.len() > 0 {
        if s[0] == c {
            assert(s.take(0) =~= Seq::<char>::empty());
            assert(s =~= s.take(0) + seq![c] + s.skip(1));
        } else {
            let rest = s.skip(1);
            law_cutting_once(rest, c);
            let n = span_until(s, c) as int;
            if n < s.len() {
                let (a, b) = split_once(rest, c)->0;
                assert(s.take(n) =~= seq![s[0]] + a);
                assert(s.skip(n + 1) =~= b);
                assert(s =~= seq![s[0]] + rest);
                assert(s =~= s.take(n) + seq![c] + b) by {
                    assert(seq![s[0]] + (a + seq![c] + b) =~= (seq![s[0]] + a) + seq![c] + b);
                }
                assert forall|i: int| 0 <= i < n implies s.take(n)[i] != c by {
                    if i > 0 {
                        assert(a[i - 1] == s.take(n)[i]);
                        assert(a.contains(a[i - 1]));
                    }
                }
            } else {
                assert forall|i: int| 0 <= i < s.len() implies s[i] != c by {
                    if i > 0 {
                        assert(rest[i - 1] == s[i]);
                        assert(rest.contains(rest[i - 1]));
                    }
                }
            }
        }
    }
}

/// Trimming takes away the run of one character at the beginning, all of it and
/// nothing else.
pub proof fn law_trimming(s: Seq<char>, c: char)
    ensures
        ({
            let t = trim_start(s, c);
            let n = s.len() - t.len();
            &&& t.len() <= s.len()
            &&& t == s.skip(n)
            &&& forall|i: int| 0 <= i < n ==> #[trigger] s[i] == c
            &&& t.len() > 0 ==> t[0] != c
        }),
    decreases s.len(),
{
    if s.len() > 0 && s[0] == c {
        let rest = s.skip(1);
        law_trimming(rest, c);
        let t = trim_start(s, c);
        let n = s.len() - t.len();
        assert(rest.skip(n - 1) =~= s.skip(n));
        assert forall|i: int| 0 <= i < n implies #[trigger] s[i] == c by {
            if i > 0 {
                assert(rest[i - 1] == s[i]);
            }
        }
    } else {
        assert(s.skip(0) =~= s);
    }
}

/// Replacing leaves a text alone in which nothing is to be replaced. Otherwise
/// the first occurrence is replaced, and then what follows it.
pub proof fn law_replacing(
    s: Seq<char>,
    before: Seq<char>,
    after: Seq<char>,
    from: Seq<char>,
    to: Seq<char>,
)
    requires
        from.len() > 0,
    ensures
        !occurs_in(from, s) ==> replace_all(s, from, to) == s,
        (forall|i: int|
            0 <= i < before.len() ==> !#[trigger] begins_with((before + from + after).skip(i), from))
            ==> replace_all(before + from + after, from, to) == before + to + replace_all(
            after,
            from,
            to,
        ),
    decreases s.len() + before.len(),
{
    if !occurs_in(from, s) && s.len() > 0 {
        assert(s.skip(0) =~= s);
        assert(!begins_with(s.skip(0), from));
        let rest = s.skip(1);
        assert forall|i: int| 0 <= i <= rest.len() implies !#[trigger] begins_with(
            rest.skip(i),
            from,
        ) by {
            assert(rest.skip(i) =~= s.skip(i + 1));
            assert(!begins_with(s.skip(i + 1), from));
        }
        law_replacing(rest, Seq::empty(), after, from, to);
        assert(seq![s[0]] + rest =~= s);
    }
    let whole = before + from + after;
    if forall|i: int| 0 <= i < before.len() ==> !#[trigger] begins_with(whole.skip(i), from) {
        if before.len() == 0 {
            assert(whole =~= from + after);
            assert(whole.take(from.len() as int) =~= from);
            assert(whole.skip(from.len() as int) =~= after);
            assert(before + to + replace_all(after, from, to) =~= to + replace_all(
                after,
                from,
                to,
            ));
        } else {
            assert(whole.skip(0) =~= whole);
            assert(!begins_with(whole.skip(0), from));
            let shorter = before.skip(1);
            let rest = shorter + from + after;
            assert(whole.skip(1) =~= rest);
            assert forall|i: int| 0 <= i < shorter.len() implies !#[trigger] begins_with(
                rest.skip(i),
                from,
            ) by {
                assert(rest.skip(i) =~= whole.skip(i + 1));
                assert(!begins_with(whole.skip(i + 1), from));
            }
            law_replacing(Seq::empty(), shorter, after, from, to);
            assert(seq![before[0]] + (shorter + to + replace_all(after, from, to)) =~= before + to
                + replace_all(after, from, to));
        }
    }
}

/// The number that a text of digits stands for.
pub open spec fn value_of(digits: Seq<char>) -> int
    decreases digits.len(),
{
    if digits.len() == 0 {
        0
    } else {
        10 * value_of(digits.drop_last()) + (digits.last() as int - '0' as int)
    }
}

/// A number in decimal notation is a text of digits that stands for it, without
/// a leading zero unless it is zero; a negative one has a minus before it.
pub proof fn law_decimal_notation(n: nat, negative: int)
    requires
        negative < 0,
    ensures
        value_of(decimal(n)) == n,
        decimal(n).len() > 0,
        forall|i: int| 0 <= i < decimal(n).len() ==> '0' <= #[trigger] decimal(n)[i] <= '9',
        n > 0 ==> decimal(n)[0] != '0',
        signed_decimal(n as int) == decimal(n),
        signed_decimal(negative) == seq!['-'] + decimal((-negative) as nat),
    decreases n,
{
    if n >= 10 {
        law_decimal_notation(n / 10, negative);
        let front = decimal(n / 10);
        assert(decimal(n).drop_last() =~= front);
        assert(decimal(n)[0] == front[0]);
    } else {
        let one = decimal(n);
        assert(one.drop_last() =~= Seq::<char>::empty());
        assert(value_of(one.drop_last()) == 0);
    }
}

/// What fits of a text is a beginning of it that takes no more than the room
/// there is, and not one character more would.
pub proof fn law_what_fits(s: Seq<char>, room: nat)
    ensures
        ({
            let part = fitting(s, room);
            &&& part.len() <= s.len()
            &&& part == s.take(part.len() as int)
            &&& encode_utf8(part).len() <= room
            &&& part.len() < s.len() ==> encode_utf8(s.take(part.len() as int + 1)).len() > room
        }),
{
    lemma_fitting(s, room);
}

/// The length of a text in bytes is that of its UTF-8 form.
pub proof fn law_lengths_in_bytes(s: Seq<char>, c: char)
    ensures
        utf8_len(s) == encode_utf8(s).len(),
        char_width(c) == encode_utf8(seq![c]).len(),
        1 <= char_width(c) <= 4,
{
    let one = seq![c];
    assert(one.drop_first() =~= Seq::<char>::empty());
    assert(encode_utf8(Seq::<char>::empty()) =~= Seq::<u8>::empty());
    assert(encode_utf8(one) =~= encode_scalar(c as u32));
}

/// A list of strings is seen in contracts as the texts that they hold.
pub proof fn law_lists_are_seen_as_their_texts(list: Seq<String>, i: int)
    ensures
        texts(list).len() == list.len(),
        0 <= i < list.len() ==> texts(list)[i] == list[i]@,
{
}

/// Texts are put together without losing or adding anything, and what is cut
/// off a text is the part that was asked for.
pub proof fn law_texts_are_put_together(
    a: &str,
    b: &str,
    c: &str,
    two: String,
    three: String,
    chars: Vec<char>,
    from: usize,
    to: usize,
    part: String,
    same: bool,
    sought: char,
    held: bool,
    stripped: Option<String>,
    i: int,
)
    requires
        call_ensures(concat2, (a, b), two),
        call_ensures(concat3, (a, b, c), three),
        call_ensures(chars_of, (a,), chars),
        from <= to <= chars@.len(),
        call_ensures(text_between, (&chars, from, to), part),
        call_ensures(same_text, (a, b), same),
        call_ensures(contains_char, (a, sought), held),
        call_ensures(strip_prefix_text, (a, b), stripped),
    ensures
        two@.len() == a@.len() + b@.len(),
        0 <= i < a@.len() ==> two@[i] == a@[i] && chars@[i] == a@[i] && three@[i] == a@[i],
        0 <= i < b@.len() ==> two@[a@.len() + i] == b@[i] && three@[a@.len() + i] == b@[i],
        0 <= i < c@.len() ==> three@[a@.len() + b@.len() + i] == c@[i],
        three@.len() == a@.len() + b@.len() + c@.len(),
        chars@.len() == a@.len(),
        part@.len() == to - from,
        0 <= i < to - from ==> part@[i] == a@[from + i],
        same ==> a@ == b@,
        !same ==> a@ != b@,
        held <==> exists|j: int| 0 <= j < a@.len() && #[trigger] a@[j] == sought,
        stripped matches Some(rest) ==> a@ == b@ + rest@,
        stripped is None ==> !begins_with(a@, b@),
{
    if let Some(rest) = stripped {
        assert(a@ =~= b@ + rest@);
    }
}

/// Adding to a text keeps all that it holds. As much is added as the limit has
/// room for, in whole characters; everything, where it has room for that; and
/// nothing, where the limit is reached.
pub proof fn law_texts_grow_within_the_limit(target: &mut String, value: &str, limit: usize)
    requires
        call_ensures(append_within, (target, value, limit), ()),
    ensures
        ({
            let before = old(target)@;
            let after = final(target)@;
            let n = before.len() as int;
            &&& n <= after.len() <= n + value@.len()
            &&& after.take(n) == before
            &&& after.skip(n) == value@.take(after.len() - n)
            &&& encode_utf8(before).len() <= limit ==> encode_utf8(after).len() <= limit
            &&& encode_utf8(before).len() + encode_utf8(value@).len() <= limit ==> after == before
                + value@
            &&& encode_utf8(before).len() >= limit ==> after == before
            &&& after.len() < n + value@.len() ==> encode_utf8(
                before + value@.take(after.len() - n + 1),
            ).len() > limit
        }),
{
    let before = old(target)@;
    let after = final(target)@;
    let n = before.len() as int;
    let used = utf8_len(before);
    if used < limit {
        let room = (limit - used) as nat;
        law_what_fits(value@, room);
        let part = fitting(value@, room);
        lemma_utf8_len_concat(before, part);
        if part.len() < value@.len() {
            let next = part.len() as int + 1;
            lemma_utf8_len_concat(before, value@.take(next));
            lemma_utf8_len_concat(value@.take(next), value@.skip(next));
            assert(value@ =~= value@.take(next) + value@.skip(next));
        } else {
            assert(part =~= value@);
        }
        assert(after.take(n) =~= before);
        assert(after.skip(n) =~= value@.take(after.len() - n));
    } else {
        assert(after.take(n) =~= before);
        assert(after.skip(n) =~= value@.take(0));
        if value@.len() > 0 {
            lemma_utf8_len_concat(before, value@.take(1));
            law_lengths_in_bytes(value@.take(1), value@[0]);
            assert(value@.take(1) =~= seq![value@[0]]);
            assert(value@ =~= value@.take(1) + value@.skip(1));
            lemma_utf8_len_concat(value@.take(1), value@.skip(1));
        } else {
            assert(before + value@ =~= before);
        }
    }
}

/// Texts are searched, cut, joined, replaced and written as numbers by the calls
/// as the laws above say.
pub proof fn law_texts_are_worked_on(
    s: &str,
    t: &str,
    u: &str,
    c: char,
    begins: bool,
    occurs: bool,
    cut: Option<(String, String)>,
    trimmed: String,
    replaced: String,
    pieces: Vec<String>,
    list: Vec<String>,
    joined: String,
    bytes: usize,
    n: u64,
    number: String,
    z: i32,
    signed: String,
)
    requires
        call_ensures(starts_with_text, (s, t), begins),
        call_ensures(contains_text, (s, t), occurs),
        call_ensures(split_once_text, (s, c), cut),
        call_ensures(trim_start_text, (s, c), trimmed),
        call_ensures(replace_text, (s, t, u), replaced),
        call_ensures(split_text, (s, c), pieces),
        call_ensures(join_texts, (&list, t), joined),
        call_ensures(byte_len, (s,), bytes),
        call_ensures(decimal_text, (n,), number),
        call_ensures(signed_decimal_text, (z,), signed),
    ensures
        begins <==> exists|rest: Seq<char>| s@ == t@ + rest,
        occurs <==> exists|a: Seq<char>, b: Seq<char>| s@ == #[trigger] ((a + t@) + b),
        match cut {
            Some((a, b)) => !a@.contains(c) && s@ == a@ + seq![c] + b@,
            None => !s@.contains(c),
        },
        trimmed@.len() <= s@.len(),
        trimmed@ == s@.skip(s@.len() - trimmed@.len()),
        trimmed@.len() > 0 ==> trimmed@[0] != c,
        forall|i: int| 0 <= i < s@.len() - trimmed@.len() ==> #[trigger] s@[i] == c,
        t@.len() == 0 ==> replaced@ == s@,
        !occurs ==> replaced@ == s@,
        list@.len() == 0 ==> joined@.len() == 0,
        list@.len() == 1 ==> joined@ == list@[0]@,
        list@.len() == 2 ==> joined@ == list@[0]@ + t@ + list@[1]@,
        bytes == encode_utf8(s@).len(),
        value_of(number@) == n,
        z >= 0 ==> value_of(signed@) == z,
        z < 0 ==> signed@.len() > 0 && signed@[0] == '-' && value_of(signed@.skip(1)) == -z,
{
    law_beginnings(s@, t@);
    law_occurrences(t@, s@);
    law_cutting_once(s@, c);
    law_trimming(s@, c);
    if t@.len() > 0 {
        law_replacing(s@, Seq::empty(), Seq::empty(), t@, u@);
    }
    let views = texts(list@);
    reveal_with_fuel(join, 3);
    law_decimal_notation(n as nat, -1);
    if z >= 0 {
        law_decimal_notation(z as nat, -1);
    } else {
        law_decimal_notation((-z) as nat, z as int);
        assert(signed@.skip(1) =~= decimal((-z) as nat));
    }
}

/// Lists are joined from where it was asked for, parts are found where they
/// stand, and characters take as many bytes as they are written with.
pub proof fn law_lists_and_parts(
    list: Vec<String>,
    start: usize,
    sep: &str,
    joined: String,
    chars: Vec<char>,
    at: usize,
    part: Vec<char>,
    there: bool,
    c: char,
    width: usize,
)
    requires
        start <= list@.len(),
        at <= chars@.len(),
        call_ensures(join_from, (&list, start, sep), joined),
        call_ensures(matches_at, (&chars, at, &part), there),
        call_ensures(width_of, (c,), width),
    ensures
        start == list@.len() ==> joined@.len() == 0,
        start + 1 == list@.len() ==> joined@ == list@[start as int]@,
        start + 2 == list@.len() ==> joined@ == list@[start as int]@ + sep@ + list@[start + 1]@,
        there <==> at + part@.len() <= chars@.len() && chars@.subrange(
            at as int,
            at + part@.len(),
        ) == part@,
        width == encode_utf8(seq![c]).len(),
{
    law_lengths_in_bytes(seq![c], c);
    reveal_with_fuel(join, 3);
    if at + part@.len() <= chars@.len() {
        assert(chars@.skip(at as int).take(part@.len() as int) =~= chars@.subrange(
            at as int,
            at + part@.len(),
        ));
    }
}

} // verus!
