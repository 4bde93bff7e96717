//! Text of attribute values: decimal numbers and backslash-separated lists.

use vstd::prelude::*;

verus! {

/// Whether `c` is one of the ten decimal digits.
pub open spec fn is_digit(c: char) -> bool {
    '0' <= c <= '9'
}

/// The value of a decimal digit.
pub open spec fn digit_value(c: char) -> nat {
    (c as int - '0' as int) as nat
}

/// Whether every character of `s` is a decimal digit.
pub open spec fn all_digits(s: Seq<char>) -> bool {
    forall|i: int| 0 <= i < s.len() ==> is_digit(#[trigger] s[i])
}

/// The number that a string of decimal digits writes, most significant digit
/// first; the empty string writes 0.
pub open spec fn decimal_value(s: Seq<char>) -> nat
    decreases s.len(),
{
    if s.len() == 0 {
        0
    } else {
        decimal_value(s.drop_last()) * 10 + digit_value(s.last())
    }
}

/// The digits of an unsigned number in text: the text itself, without one
/// leading `+` if it has one.
pub open spec fn unsigned_digits(s: Seq<char>) -> Seq<char> {
    if s.len() > 0 && s[0] == '+' {
        s.skip(1)
    } else {
        s
    }
}

/// What a text means as an unsigned number of at most `max`: an optional
/// `+`, then at least one decimal digit and nothing else, the value within
/// the limit. Anything else is no number.
pub open spec fn parse_unsigned(s: Seq<char>, max: nat) -> Option<nat> {
    let digits = unsigned_digits(s);
    if digits.len() > 0 && all_digits(digits) && decimal_value(digits) <= max {
        Some(decimal_value(digits))
    } else {
        None
    }
}

/// The number by which a record is ordered: what its text means as an
/// unsigned 32-bit number, and 0 where it means none.
pub open spec fn sort_number(s: Seq<char>) -> nat {
    match parse_unsigned(s, u32::MAX as nat) {
        Some(n) => n,
        None => 0,
    }
}

/// Adding digits to the right of a digit string never makes its value smaller.
pub proof fn lemma_decimal_value_grows(s: Seq<char>, k: int)
    requires
        0 <= k <= s.len(),
    ensures
        decimal_value(s.take(k)) <= decimal_value(s),
    decreases s.len() - k,
{
    if k < s.len() {
        lemma_decimal_value_grows(s, k + 1);
        assert(s.take(k + 1).drop_last() =~= s.take(k));
    } else {
        assert(s.take(k) =~= s);
    }
}

/// Reads an unsigned number of at most `max` from text.
fn parse_bounded(s: &str, max: u64) -> (parsed: Option<u64>)
    requires
        max <= u32::MAX,
    ensures
        parsed == match parse_unsigned(s@, max as nat) {
            Some(n) => Some(n as u64),
            None => None,
        },
{
    let n = s.unicode_len();
    let start: usize = if n > 0 && s.get_char(0) == '+' {
        1
    } else {
        0
    };
    let ghost digits = unsigned_digits(s@);
    assert(digits =~= s@.skip(start as int));
    if start == n {
        return None;
    }
    let mut value: u64 = 0;
    let mut i: usize = start;
    while i < n
        invariant
            start <= i <= n,
            n == s@.len(),
            max <= u32::MAX,
            digits == s@.skip(start as int),
            digits == unsigned_digits(s@),
            all_digits(digits.take(i - start)),
            value == decimal_value(digits.take(i - start)),
            value <= max,
        decreases n - i,
    {
        let c = s.get_char(i);
        assert(digits[i - start] == c);
        if !(c >= '0' && c <= '9') {
            assert(!is_digit(digits[i - start]));
            return None;
        }
        let d: u64 = (c as u32 - '0' as u32) as u64;
        proof {
            let next = digits.take(i - start + 1);
            assert(next.drop_last() =~= digits.take(i - start));
            assert(next.last() == c);
            assert(all_digits(next));
            assert(decimal_value(next) == value * 10 + d);
            lemma_decimal_value_grows(digits, i - start + 1);
        }
        if value * 10 + d > max {
            return None;
        }
        value = value * 10 + d;
        i = i + 1;
    }
    assert(digits.take(n - start) =~= digits);
    Some(value)
}

/// Reads an unsigned 32-bit number from text.
pub fn parse_u32(s: &str) -> (parsed: Option<u32>)
    ensures
        parsed == match parse_unsigned(s@, u32::MAX as nat) {
            Some(n) => Some(n as u32),
            None => None,
        },
{
    match parse_bounded(s, 0xFFFF_FFFF) {
        Some(n) => Some(n as u32),
        None => None,
    }
}

/// Reads an unsigned 16-bit number from text.
pub fn parse_u16(s: &str) -> (parsed: Option<u16>)
    ensures
        parsed == match parse_unsigned(s@, u16::MAX as nat) {
            Some(n) => Some(n as u16),
            None => None,
        },
{
    match parse_bounded(s, 0xFFFF) {
        Some(n) => Some(n as u16),
        None => None,
    }
}

/// The number by which a record with this text is ordered.
pub fn number_or_zero(s: &str) -> (number: u32)
    ensures
        number == sort_number(s@),
{
    match parse_u32(s) {
        Some(n) => n,
        None => 0,
    }
}

/// The character that separates the values of a multi-valued attribute.
pub const VALUE_DELIMITER: char = '\\';

/// The pieces of `s` between occurrences of `sep`. There is always at least
/// one piece: the empty text has the one empty piece, and a text that ends
/// in `sep` has an empty last piece.
pub open spec fn split_spec(s: Seq<char>, sep: char) -> Seq<Seq<char>>
    decreases s.len(),
{
    if s.len() == 0 {
        seq![Seq::<char>::empty()]
    } else {
        let before = split_spec(s.drop_last(), sep);
        if s.last() == sep {
            before.push(Seq::<char>::empty())
        } else {
            before.drop_last().push(before.last().push(s.last()))
        }
    }
}

/// The pieces written one after the other with `sep` between them.
pub open spec fn join_spec(parts: Seq<Seq<char>>, sep: char) -> Seq<char>
    decreases parts.len(),
{
    if parts.len() == 0 {
        Seq::<char>::empty()
    } else if parts.len() == 1 {
        parts[0]
    } else {
        join_spec(parts.drop_last(), sep).push(sep) + parts.last()
    }
}

/// Whether no piece holds the separator.
pub open spec fn free_of(parts: Seq<Seq<char>>, sep: char) -> bool {
    forall|i: int, j: int|
        0 <= i < parts.len() && 0 <= j < parts[i].len() ==> #[trigger] parts[i][j] != sep
}

/// Splitting gives at least one piece, and no piece holds the separator.
pub proof fn lemma_split_pieces(s: Seq<char>, sep: char)
    ensures
        split_spec(s, sep).len() >= 1,
        free_of(split_spec(s, sep), sep),
    decreases s.len(),
{
    if s.len() > 0 {
        lemma_split_pieces(s.drop_last(), sep);
    }
}

/// Joining the pieces of a text gives the text back.
pub proof fn lemma_join_split(s: Seq<char>, sep: char)
    ensures
        join_spec(split_spec(s, sep), sep) == s,
    decreases s.len(),
{
    if s.len() == 0 {
        assert(join_spec(split_spec(s, sep), sep) =~= s);
    } else {
        let before = split_spec(s.drop_last(), sep);
        lemma_split_pieces(s.drop_last(), sep);
        lemma_join_split(s.drop_last(), sep);
        if s.last() == sep {
            let all = before.push(Seq::<char>::empty());
            assert(all.drop_last() =~= before);
            assert(join_spec(all, sep) =~= s.drop_last().push(sep));
            assert(s.drop_last().push(sep) =~= s);
        } else {
            let piece = before.last().push(s.last());
            let all = before.drop_last().push(piece);
            if before.len() == 1 {
                assert(all[0] == piece);
                assert(before[0] == s.drop_last());
                assert(join_spec(all, sep) =~= s);
            } else {
                assert(all.drop_last() =~= before.drop_last());
                assert(join_spec(before, sep) == join_spec(before.drop_last(), sep).push(sep)
                    + before.last());
                assert(join_spec(all, sep) =~= join_spec(before, sep).push(s.last()));
                assert(s.drop_last().push(s.last()) =~= s);
            }
        }
    }
}

/// Splitting a text after appending a separator-free run to it changes the
/// last piece only.
pub proof fn lemma_split_append(s: Seq<char>, tail: Seq<char>, sep: char)
    requires
        forall|j: int| 0 <= j < tail.len() ==> tail[j] != sep,
    ensures
        split_spec(s + tail, sep) == split_spec(s, sep).drop_last().push(
            split_spec(s, sep).last() + tail,
        ),
    decreases tail.len(),
{
    lemma_split_pieces(s, sep);
    let pieces = split_spec(s, sep);
    if tail.len() == 0 {
        assert(s + tail =~= s);
        assert(pieces.last() + tail =~= pieces.last());
        assert(pieces.drop_last().push(pieces.last()) =~= pieces);
    } else {
        let shorter = tail.drop_last();
        lemma_split_append(s, shorter, sep);
        assert((s + tail).drop_last() =~= s + shorter);
        assert((s + tail).last() == tail.last());
        let mid = pieces.drop_last().push(pieces.last() + shorter);
        assert(mid.drop_last() =~= pieces.drop_last());
        assert((pieces.last() + shorter).push(tail.last()) =~= pieces.last() + tail);
    }
}

/// Splitting the join of separator-free pieces gives the pieces back.
pub proof fn lemma_split_join(parts: Seq<Seq<char>>, sep: char)
    requires
        parts.len() >= 1,
        free_of(parts, sep),
    ensures
        split_spec(join_spec(parts, sep), sep) == parts,
    decreases parts.len(),
{
    let empty = Seq::<char>::empty();
    if parts.len() == 1 {
        assert(split_spec(empty, sep) =~= seq![empty]);
        lemma_split_append(empty, parts[0], sep);
        assert(empty + parts[0] =~= parts[0]);
        assert(seq![empty].drop_last().push(empty + parts[0]) =~= parts);
    } else {
        let init = parts.drop_last();
        assert(free_of(init, sep)) by {
            assert forall|i: int, j: int|
                0 <= i < init.len() && 0 <= j < init[i].len() implies #[trigger] init[i][j]
                != sep by {
                assert(init[i][j] == parts[i][j]);
            }
        }
        lemma_split_join(init, sep);
        let head = join_spec(init, sep).push(sep);
        assert(head.drop_last() =~= join_spec(init, sep));
        assert(split_spec(head, sep) == init.push(empty));
        assert forall|j: int| 0 <= j < parts.last().len() implies parts.last()[j] != sep by {
            assert(parts[parts.len() - 1][j] != sep);
        }
        lemma_split_append(head, parts.last(), sep);
        assert(init.push(empty).drop_last() =~= init);
        assert(empty + parts.last() =~= parts.last());
        assert(init.push(parts.last()) =~= parts);
    }
}

/// The pieces of a text, joined and split again, are the same pieces.
pub proof fn lemma_resplit(s: Seq<char>, sep: char)
    ensures
        split_spec(join_spec(split_spec(s, sep), sep), sep) == split_spec(s, sep),
{
    lemma_join_split(s, sep);
}

/// Splits a text at every occurrence of the value delimiter.
pub fn split_multi(s: &str) -> (parts: Vec<String>)
    ensures
        parts.deep_view() == split_spec(s@, VALUE_DELIMITER),
{
    let n = s.unicode_len();
    let mut parts: Vec<String> = Vec::new();
    let mut start: usize = 0;
    let mut i: usize = 0;
    assert(s@.take(0) =~= Seq::<char>::empty());
    assert(parts.deep_view().push(s@.subrange(0, 0)) =~= seq![Seq::<char>::empty()]);
    while i < n
        invariant
            start <= i <= n,
            n == s@.len(),
            split_spec(s@.take(i as int), VALUE_DELIMITER) == parts.deep_view().push(
                s@.subrange(start as int, i as int),
            ),
        decreases n - i,
    {
        let c = s.get_char(i);
        let ghost before = parts.deep_view().push(s@.subrange(start as int, i as int));
        proof {
            assert(s@.take(i + 1).drop_last() =~= s@.take(i as int));
            assert(s@.take(i + 1).last() == c);
        }
        if c == VALUE_DELIMITER {
            let piece = s.substring_char(start, i);
            parts.push(piece.to_owned());
            start = i + 1;
            proof {
                assert(parts.deep_view() =~= before);
                assert(s@.subrange(start as int, i + 1) =~= Seq::<char>::empty());
            }
        } else {
            proof {
                assert(before.drop_last() =~= parts.deep_view());
                assert(before.last().push(c) =~= s@.subrange(start as int, i + 1));
            }
        }
        i = i + 1;
    }
    let ghost before = parts.deep_view().push(s@.subrange(start as int, n as int));
    let piece = s.substring_char(start, n);
    parts.push(piece.to_owned());
    proof {
        assert(s@.take(n as int) =~= s@);
        assert(parts.deep_view() =~= before);
    }
    parts
}

/// Writes the pieces one after the other with the value delimiter between
/// them.
pub fn join_multi(parts: &Vec<String>) -> (joined: String)
    ensures
        joined@ == join_spec(parts.deep_view(), VALUE_DELIMITER),
{
    let mut joined = String::new();
    let mut i: usize = 0;
    assert(parts.deep_view().take(0) =~= Seq::<Seq<char>>::empty());
    while i < parts.len()
        invariant
            i <= parts.len(),
            joined@ == join_spec(parts.deep_view().take(i as int), VALUE_DELIMITER),
        decreases parts.len() - i,
    {
        proof {
            reveal_strlit("\\");
            let next = parts.deep_view().take(i + 1);
            assert(next.drop_last() =~= parts.deep_view().take(i as int));
            assert(next.last() == parts[i as int]@);
        }
        if i > 0 {
            joined.append("\\");
            assert(joined@ =~= join_spec(parts.deep_view().take(i as int), VALUE_DELIMITER).push(
                VALUE_DELIMITER,
            ));
        }
        joined.append(parts[i].as_str());
        i = i + 1;
    }
    assert(parts.deep_view().take(parts.len() as int) =~= parts.deep_view());
    joined
}

/// The character of a decimal digit.
pub open spec fn digit_char(d: nat) -> char {
    if d == 0 {
        '0'
    } else if d == 1 {
        '1'
    } else if d == 2 {
        '2'
    } else if d == 3 {
        '3'
    } else if d == 4 {
        '4'
    } else if d == 5 {
        '5'
    } else if d == 6 {
        '6'
    } else if d == 7 {
        '7'
    } else if d == 8 {
        '8'
    } else {
        '9'
    }
}

/// A number in decimal, without sign or leading zeros.
pub open spec fn decimal_text(n: nat) -> Seq<char>
    decreases n,
{
    if n < 10 {
        seq![digit_char(n)]
    } else {
        decimal_text(n / 10).push(digit_char(n % 10))
    }
}

/// The decimal text of a number is made of digits and writes that number.
pub proof fn lemma_decimal_text_value(n: nat)
    ensures
        decimal_text(n).len() >= 1,
        all_digits(decimal_text(n)),
        decimal_value(decimal_text(n)) == n,
    decreases n,
{
    if n < 10 {
        let t = decimal_text(n);
        assert(t.drop_last() =~= Seq::<char>::empty());
        assert(decimal_value(t.drop_last()) == 0);
    } else {
        lemma_decimal_text_value(n / 10);
        let t = decimal_text(n);
        assert(t.drop_last() =~= decimal_text(n / 10));
    }
}

/// Reading the decimal text of a number gives the number back.
pub proof fn lemma_parse_decimal_text(n: nat, max: nat)
    requires
        n <= max,
    ensures
        parse_unsigned(decimal_text(n), max) == Some(n),
{
    lemma_decimal_text_value(n);
    let t = decimal_text(n);
    assert(is_digit(t[0]));
    assert(unsigned_digits(t) == t);
}

/// The character of a decimal digit, as a text.
fn digit_str(d: u64) -> (s: &'static str)
    requires
        d < 10,
    ensures
        s@ == seq![digit_char(d as nat)],
{
    proof {
        reveal_strlit("0");
        reveal_strlit("1");
        reveal_strlit("2");
        reveal_strlit("3");
        reveal_strlit("4");
        reveal_strlit("5");
        reveal_strlit("6");
        reveal_strlit("7");
        reveal_strlit("8");
        reveal_strlit("9");
    }
    let s = if d == 0 {
        "0"
    } else if d == 1 {
        "1"
    } else if d == 2 {
        "2"
    } else if d == 3 {
        "3"
    } else if d == 4 {
        "4"
    } else if d == 5 {
        "5"
    } else if d == 6 {
        "6"
    } else if d == 7 {
        "7"
    } else if d == 8 {
        "8"
    } else {
        "9"
    };
    assert(s@ =~= seq![digit_char(d as nat)]);
    s
}

/// Appends a number in decimal.
pub fn append_decimal(out: &mut String, n: u64)
    ensures
        final(out)@ == old(out)@ + decimal_text(n as nat),
    decreases n,
{
    if n >= 10 {
        append_decimal(out, n / 10);
    }
    out.append(digit_str(n % 10));
    assert(out@ =~= old(out)@ + decimal_text(n as nat));
}

} // verus!
