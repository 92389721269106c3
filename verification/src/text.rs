//! Reading text: characters, white space, words and decimal numbers.
//!
//! The output of the system tool is read as a sequence of characters. The
//! functions here read such a sequence and say, over the sequence itself, what
//! they found.

use vstd::prelude::*;
use vstd::slice::slice_subrange;
use vstd::string::axiom_spec_iter;

verus! {

/// Whether `c` is white space, as Unicode defines it.
pub open spec fn is_space(c: char) -> bool {
    let code = c as u32;
    ||| 0x09 <= code <= 0x0D
    ||| code == 0x20
    ||| code == 0x85
    ||| code == 0xA0
    ||| code == 0x1680
    ||| 0x2000 <= code <= 0x200A
    ||| code == 0x2028
    ||| code == 0x2029
    ||| code == 0x202F
    ||| code == 0x205F
    ||| code == 0x3000
}

/// Whether `c` is white space.
pub fn is_whitespace(c: char) -> (space: bool)
    ensures
        space == is_space(c),
{
    let code: u32 = c as u32;
    (0x09 <= code && code <= 0x0D) || code == 0x20 || code == 0x85 || code == 0xA0 || code
        == 0x1680 || (0x2000 <= code && code <= 0x200A) || code == 0x2028 || code == 0x2029
        || code == 0x202F || code == 0x205F || code == 0x3000
}

/// The characters of `text`, in order.
pub fn chars_of(text: &str) -> (chars: Vec<char>)
    ensures
        chars@ == text@,
{
    let mut chars: Vec<char> = Vec::new();
    proof {
        axiom_spec_iter(text);
    }
    for c in it: text.chars()
        invariant
            it.seq() == text@,
            chars@ == text@.take(it.index()),
    {
        chars.push(c);
    }
    assert(text@.take(text@.len() as int) =~= text@);
    chars
}

/// How many characters at the front of `s` satisfy `pred`, up to the first
/// that does not.
pub open spec fn leading(s: Seq<char>, pred: spec_fn(char) -> bool) -> nat
    decreases s.len(),
{
    if s.len() > 0 && pred(s[0]) {
        1 + leading(s.drop_first(), pred)
    } else {
        0
    }
}

/// `leading` by positions: it is the one `k` such that the `k` first
/// characters satisfy `pred` and the next one, if there is one, does not.
pub proof fn lemma_leading(s: Seq<char>, pred: spec_fn(char) -> bool, k: int)
    requires
        0 <= k <= s.len(),
        forall|i: int| 0 <= i < k ==> pred(s[i]),
        k == s.len() || !pred(s[k]),
    ensures
        leading(s, pred) == k,
    decreases s.len(),
{
    if k > 0 {
        let rest = s.drop_first();
        assert forall|i: int| 0 <= i < k - 1 implies pred(rest[i]) by {
            assert(rest[i] == s[i + 1]);
        }
        lemma_leading(rest, pred, k - 1);
    }
}

/// The test for white space, as a predicate.
pub open spec fn space() -> spec_fn(char) -> bool {
    |c: char| is_space(c)
}

/// The test for anything but white space, as a predicate.
pub open spec fn ink() -> spec_fn(char) -> bool {
    |c: char| !is_space(c)
}

/// The first word of `line`: what stands between the white space at its front
/// and the next white space. Empty when the line holds white space only.
pub open spec fn first_word(line: Seq<char>) -> Seq<char> {
    let rest = line.skip(leading(line, space()) as int);
    rest.take(leading(rest, ink()) as int)
}

/// The first position from `from` on whose character is not of the kind
/// wanted (white space, or anything else); the length of `chars` when there is
/// none.
fn scan_run(chars: &[char], from: usize, want_space: bool) -> (at: usize)
    requires
        from <= chars@.len(),
    ensures
        from <= at <= chars@.len(),
        at - from == leading(
            chars@.skip(from as int),
            if want_space {
                space()
            } else {
                ink()
            },
        ),
{
    let len = chars.len();
    let ghost rest = chars@.skip(from as int);
    let ghost pred = if want_space {
        space()
    } else {
        ink()
    };
    let mut at = from;
    while at < len && is_whitespace(chars[at]) == want_space
        invariant
            from <= at <= len,
            len == chars@.len(),
            rest == chars@.skip(from as int),
            pred == if want_space {
                space()
            } else {
                ink()
            },
            forall|i: int| 0 <= i < at - from ==> pred(rest[i]),
        decreases len - at,
    {
        at = at + 1;
    }
    proof {
        lemma_leading(rest, pred, at - from);
    }
    at
}

/// The first word of `line`: what stands between the white space at its front
/// and the next white space. Empty when the line holds white space only.
pub fn take_first_word(line: &[char]) -> (word: &[char])
    ensures
        word@ == first_word(line@),
{
    let begin = scan_run(line, 0, true);
    let end = scan_run(line, begin, false);
    proof {
        assert(line@.skip(0) =~= line@);
        assert(line@.skip(begin as int).take(end - begin) =~= line@.subrange(
            begin as int,
            end as int,
        ));
    }
    slice_subrange(line, begin, end)
}

/// Whether `c` is one of the ten decimal digits.
pub open spec fn is_digit(c: char) -> bool {
    0x30 <= c as u32 <= 0x39
}

/// The value of the digit `c`.
pub open spec fn digit_value(c: char) -> nat {
    if is_digit(c) {
        (c as u32 - 0x30) as nat
    } else {
        0
    }
}

/// Whether `s` holds decimal digits only.
pub open spec fn all_digits(s: Seq<char>) -> bool {
    forall|i: int| 0 <= i < s.len() ==> is_digit(#[trigger] s[i])
}

/// The number that the digits `digits` write in base ten.
pub open spec fn decimal_value(digits: Seq<char>) -> nat
    decreases digits.len(),
{
    if digits.len() == 0 {
        0
    } else {
        decimal_value(digits.drop_last()) * 10 + digit_value(digits.last())
    }
}

/// The digits of `word`, behind a plus sign if it begins with one.
pub open spec fn unsigned_part(word: Seq<char>) -> Seq<char> {
    if word.len() > 0 && word[0] == '+' {
        word.drop_first()
    } else {
        word
    }
}

/// The generation number that `word` writes, if it writes one: an optional
/// plus sign, then one or more decimal digits, with a value that fits 32 bits.
pub open spec fn number_of(word: Seq<char>) -> Option<u32> {
    let digits = unsigned_part(word);
    if digits.len() > 0 && all_digits(digits) && decimal_value(digits) <= u32::MAX {
        Some(decimal_value(digits) as u32)
    } else {
        None
    }
}

/// More digits never write a smaller number.
pub proof fn lemma_decimal_value_grows(digits: Seq<char>, k: int)
    requires
        0 <= k <= digits.len(),
    ensures
        decimal_value(digits.take(k)) <= decimal_value(digits),
    decreases digits.len() - k,
{
    if k < digits.len() {
        lemma_decimal_value_grows(digits, k + 1);
        assert(digits.take(k + 1).drop_last() =~= digits.take(k));
    } else {
        assert(digits.take(k) =~= digits);
    }
}

/// Reads `word` as a generation number: an optional plus sign, then one or
/// more decimal digits, with a value that fits 32 bits. Anything else is no
/// number.
pub fn parse_number(word: &[char]) -> (number: Option<u32>)
    ensures
        number == number_of(word@),
{
    let len = word.len();
    if len == 0 {
        return None;
    }
    let start: usize = if word[0] == '+' {
        1
    } else {
        0
    };
    let ghost digits = word@.skip(start as int);
    assert(digits =~= unsigned_part(word@));
    if start == len {
        return None;
    }
    let mut value: u32 = 0;
    let mut at = start;
    assert(digits.take(0) =~= Seq::<char>::empty());
    while at < len
        invariant
            start <= at <= len,
            len == word@.len(),
            digits == word@.skip(start as int),
            digits == unsigned_part(word@),
            all_digits(digits.take(at - start)),
            value == decimal_value(digits.take(at - start)),
        decreases len - at,
    {
        let code: u32 = word[at] as u32;
        let ghost seen = digits.take(at - start);
        let ghost next = digits.take(at - start + 1);
        proof {
            assert(next.drop_last() =~= seen);
            assert(next.last() == word@[at as int]);
            assert(digits[at - start] == word@[at as int]);
            lemma_decimal_value_grows(digits, at - start + 1);
        }
        if code < 0x30 || code > 0x39 {
            assert(!is_digit(digits[at - start]));
            return None;
        }
        let digit: u32 = code - 0x30;
        let tenfold = match value.checked_mul(10) {
            Some(tenfold) => tenfold,
            None => {
                return None;
            },
        };
        value = match tenfold.checked_add(digit) {
            Some(sum) => sum,
            None => {
                return None;
            },
        };
        proof {
            assert forall|i: int| 0 <= i < next.len() implies is_digit(#[trigger] next[i]) by {
                if i < seen.len() {
                    assert(seen[i] == next[i]);
                }
            }
        }
        at = at + 1;
    }
    assert(digits.take(len - start) =~= digits);
    Some(value)
}

/// Whether `needle` stands in `line` at position `at`.
pub open spec fn occurs_at(line: Seq<char>, at: int, needle: Seq<char>) -> bool {
    0 <= at && at + needle.len() <= line.len() && line.subrange(at, at + needle.len()) == needle
}

/// Whether `needle` stands somewhere in `line`.
pub open spec fn occurs_in(line: Seq<char>, needle: Seq<char>) -> bool {
    exists|at: int| occurs_at(line, at, needle)
}

/// Whether `needle` stands in `line` at position `at`.
fn stands_at(line: &[char], at: usize, needle: &[char]) -> (found: bool)
    requires
        at <= line@.len(),
    ensures
        found == occurs_at(line@, at as int, needle@),
{
    let len = needle.len();
    let total = line.len();
    if len > total - at {
        return false;
    }
    let mut i: usize = 0;
    while i < len
        invariant
            len == needle@.len(),
            total == line@.len(),
            at + len <= total,
            i <= len,
            forall|j: int| 0 <= j < i ==> line@[at + j] == needle@[j],
        decreases len - i,
    {
        if line[at + i] != needle[i] {
            assert(line@.subrange(at as int, at + len)[i as int] != needle@[i as int]);
            return false;
        }
        i = i + 1;
    }
    assert(line@.subrange(at as int, at + len) =~= needle@);
    true
}

/// Whether `needle` stands somewhere in `line`.
pub fn contains(line: &[char], needle: &[char]) -> (found: bool)
    ensures
        found == occurs_in(line@, needle@),
{
    let len = line.len();
    let mut at: usize = 0;
    while at < len
        invariant
            at <= len,
            len == line@.len(),
            forall|k: int| 0 <= k < at ==> !occurs_at(line@, k, needle@),
        decreases len - at,
    {
        if stands_at(line, at, needle) {
            return true;
        }
        at = at + 1;
    }
    stands_at(line, len, needle)
}

} // verus!
