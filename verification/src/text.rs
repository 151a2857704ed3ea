//! Text primitives.
//!
//! Strings are reasoned about as sequences of characters. The specification
//! functions say what each operation means on such a sequence; the executable
//! functions work on `&str` and hand back owned strings.

use vstd::prelude::*;
use vstd::slice::slice_subrange;
use vstd::utf8::{decode_utf8, encode_utf8, encode_utf8_decode_utf8, is_char_boundary};

verus! {

/// `String::push`: appends one character to the end of the string.
pub assume_specification[ String::push ](s: &mut String, c: char)
    ensures
        final(s)@ == old(s)@.push(c),
;

// ── Meaning ────────────────────────────────────────────────────────────────

/// The Unicode `White_Space` property.
pub open spec fn is_white_space(c: char) -> bool {
    ||| 0x9 <= c as u32 <= 0xd
    ||| c as u32 == 0x20
    ||| c as u32 == 0x85
    ||| c as u32 == 0xa0
    ||| c as u32 == 0x1680
    ||| 0x2000 <= c as u32 <= 0x200a
    ||| c as u32 == 0x2028
    ||| c as u32 == 0x2029
    ||| c as u32 == 0x202f
    ||| c as u32 == 0x205f
    ||| c as u32 == 0x3000
}

/// A decimal digit.
pub open spec fn is_digit(c: char) -> bool {
    '0' <= c && c <= '9'
}

/// A hexadecimal digit, in either case.
pub open spec fn is_hex_digit(c: char) -> bool {
    ||| is_digit(c)
    ||| ('a' <= c && c <= 'f')
    ||| ('A' <= c && c <= 'F')
}

/// How many bytes the UTF-8 encoding of `s` takes.
pub open spec fn byte_len(s: Seq<char>) -> nat {
    encode_utf8(s).len()
}

/// `p` stands in `s` at position `i`.
pub open spec fn occurs_at(s: Seq<char>, p: Seq<char>, i: int) -> bool {
    0 <= i && i + p.len() <= s.len() && s.subrange(i, i + p.len()) == p
}

/// `p` stands somewhere in `s`.
pub open spec fn has_text(s: Seq<char>, p: Seq<char>) -> bool {
    exists|i: int| occurs_at(s, p, i)
}

/// The last position at or before `i` where `p` stands in `s`; -1 if there is none.
pub open spec fn last_at(s: Seq<char>, p: Seq<char>, i: int) -> int
    decreases i + 1,
{
    if i < 0 {
        -1
    } else if occurs_at(s, p, i) {
        i
    } else {
        last_at(s, p, i - 1)
    }
}

/// The last position where `p` stands in `s`; -1 if there is none.
pub open spec fn last_position(s: Seq<char>, p: Seq<char>) -> int {
    last_at(s, p, s.len() - p.len())
}

/// The position of the first `c` in `s`; `s.len()` if there is none.
pub open spec fn first_position(s: Seq<char>, c: char) -> nat
    decreases s.len(),
{
    if s.len() == 0 || s[0] == c {
        0
    } else {
        1 + first_position(s.drop_first(), c)
    }
}

/// The pieces of `s` between the occurrences of `c`.
pub open spec fn pieces(s: Seq<char>, c: char) -> Seq<Seq<char>>
    decreases s.len(),
{
    let i = first_position(s, c) as int;
    if i >= s.len() {
        seq![s]
    } else {
        seq![s.take(i)] + pieces(s.skip(i + 1), c)
    }
}

/// `s` without one carriage return at its end.
pub open spec fn without_cr(s: Seq<char>) -> Seq<char> {
    if s.len() > 0 && s.last() == '\r' {
        s.drop_last()
    } else {
        s
    }
}

/// The lines of `s`: each ends in `\n` or `\r\n`, which the last line may lack.
pub open spec fn text_lines(s: Seq<char>) -> Seq<Seq<char>>
    decreases s.len(),
{
    let i = first_position(s, '\n') as int;
    if s.len() == 0 {
        Seq::empty()
    } else if i >= s.len() {
        seq![s]
    } else {
        seq![without_cr(s.take(i))] + text_lines(s.skip(i + 1))
    }
}

/// `s` without the white space at its start.
pub open spec fn trimmed_start(s: Seq<char>) -> Seq<char>
    decreases s.len(),
{
    if s.len() > 0 && is_white_space(s[0]) {
        trimmed_start(s.drop_first())
    } else {
        s
    }
}

/// `s` without the white space at its end.
pub open spec fn trimmed_end(s: Seq<char>) -> Seq<char>
    decreases s.len(),
{
    if s.len() > 0 && is_white_space(s.last()) {
        trimmed_end(s.drop_last())
    } else {
        s
    }
}

/// `s` without the white space at either end.
pub open spec fn trimmed(s: Seq<char>) -> Seq<char> {
    trimmed_end(trimmed_start(s))
}

/// How many characters stand before the first white space of `s`.
pub open spec fn word_len(s: Seq<char>) -> nat
    decreases s.len(),
{
    if s.len() == 0 || is_white_space(s[0]) {
        0
    } else {
        1 + word_len(s.drop_first())
    }
}

/// The maximal runs of `s` that hold no white space.
pub open spec fn text_words(s: Seq<char>) -> Seq<Seq<char>>
    decreases s.len(),
    via text_words_decreases
{
    let t = trimmed_start(s);
    if t.len() == 0 {
        Seq::empty()
    } else {
        seq![t.take(word_len(t) as int)] + text_words(t.skip(word_len(t) as int))
    }
}

#[via_fn]
proof fn text_words_decreases(s: Seq<char>) {
    lemma_trimmed_start_len(s);
    lemma_word_len_bound(trimmed_start(s));
}

/// The parts, in order, with `sep` between neighbours.
pub open spec fn joined(parts: Seq<Seq<char>>, sep: Seq<char>) -> Seq<char>
    decreases parts.len(),
{
    if parts.len() == 0 {
        Seq::empty()
    } else if parts.len() == 1 {
        parts[0]
    } else {
        joined(parts.drop_last(), sep) + sep + parts.last()
    }
}

/// The parts, in order.
pub open spec fn concatenated(parts: Seq<Seq<char>>) -> Seq<char>
    decreases parts.len(),
{
    if parts.len() == 0 {
        Seq::empty()
    } else {
        concatenated(parts.drop_last()) + parts.last()
    }
}

/// The characters of `s` that are not white space.
pub open spec fn without_white_space(s: Seq<char>) -> Seq<char> {
    s.filter(|c: char| !is_white_space(c))
}

/// `s` without as many copies of `p` at its end as there are.
pub open spec fn without_suffixes(s: Seq<char>, p: Seq<char>) -> Seq<char>
    decreases s.len(),
{
    if p.len() > 0 && p.is_suffix_of(s) {
        without_suffixes(s.take(s.len() - p.len()), p)
    } else {
        s
    }
}

/// `s` holds decimal digits only.
pub open spec fn all_digits(s: Seq<char>) -> bool {
    forall|i: int| 0 <= i < s.len() ==> is_digit(#[trigger] s[i])
}

/// The number that a decimal digit writes.
pub open spec fn digit_value(c: char) -> nat {
    (c as u32 - '0' as u32) as nat
}

/// The number that a run of decimal digits writes.
pub open spec fn digits_value(s: Seq<char>) -> nat
    decreases s.len(),
{
    if s.len() == 0 {
        0
    } else {
        digits_value(s.drop_last()) * 10 + digit_value(s.last())
    }
}

/// A number read from text: decimal digits, at least one, after an optional
/// `+`; `None` for any other text and for a number above `max`.
pub open spec fn number(s: Seq<char>, max: nat) -> Option<nat> {
    let digits = if s.len() > 0 && s[0] == '+' {
        s.drop_first()
    } else {
        s
    };
    if digits.len() > 0 && all_digits(digits) && digits_value(digits) <= max {
        Some(digits_value(digits))
    } else {
        None
    }
}

/// The decimal digit that writes a number below ten.
pub open spec fn digit_char(d: nat) -> char {
    ('0' as u32 + d) as char
}

/// The decimal digits of `n`, without leading zeros.
pub open spec fn decimal(n: nat) -> Seq<char>
    decreases n,
{
    if n < 10 {
        seq![digit_char(n)]
    } else {
        decimal(n / 10).push(digit_char(n % 10))
    }
}

// ── Facts ──────────────────────────────────────────────────────────────────

proof fn lemma_trimmed_start_len(s: Seq<char>)
    ensures
        trimmed_start(s).len() <= s.len(),
        trimmed_start(s).len() > 0 ==> !is_white_space(trimmed_start(s)[0]),
    decreases s.len(),
{
    if s.len() > 0 && is_white_space(s[0]) {
        lemma_trimmed_start_len(s.drop_first());
    }
}

proof fn lemma_word_len_bound(s: Seq<char>)
    ensures
        word_len(s) <= s.len(),
        s.len() > 0 && !is_white_space(s[0]) ==> word_len(s) > 0,
    decreases s.len(),
{
    if s.len() > 0 && !is_white_space(s[0]) {
        lemma_word_len_bound(s.drop_first());
    }
}

/// The first position is where the first `c` stands, or the length of `s`.
pub proof fn lemma_first_position(s: Seq<char>, c: char)
    ensures
        first_position(s, c) <= s.len(),
        first_position(s, c) < s.len() ==> s[first_position(s, c) as int] == c,
        forall|i: int| 0 <= i < first_position(s, c) ==> s[i] != c,
    decreases s.len(),
{
    if s.len() > 0 && s[0] != c {
        lemma_first_position(s.drop_first(), c);
        assert forall|i: int| 0 <= i < first_position(s, c) implies s[i] != c by {
            if i > 0 {
                assert(s[i] == s.drop_first()[i - 1]);
            }
        }
    }
}

/// A position that holds `c` and has no `c` before it is the first position.
pub proof fn lemma_first_position_is(s: Seq<char>, c: char, at: int)
    requires
        0 <= at <= s.len(),
        at < s.len() ==> s[at] == c,
        forall|i: int| 0 <= i < at ==> s[i] != c,
    ensures
        first_position(s, c) == at,
{
    lemma_first_position(s, c);
    let f = first_position(s, c) as int;
    if f < at {
        assert(s[f] == c);
    } else if at < f {
        assert(s[at] != c);
    }
}

proof fn lemma_last_at(s: Seq<char>, p: Seq<char>, i: int)
    ensures
        -1 <= last_at(s, p, i),
        last_at(s, p, i) >= 0 ==> last_at(s, p, i) <= i && occurs_at(s, p, last_at(s, p, i)),
        forall|j: int| last_at(s, p, i) < j <= i ==> !occurs_at(s, p, j),
    decreases i + 1,
{
    if i >= 0 && !occurs_at(s, p, i) {
        lemma_last_at(s, p, i - 1);
    }
}

/// The last position is one where `p` stands, with none after it.
pub proof fn lemma_last_position(s: Seq<char>, p: Seq<char>)
    ensures
        -1 <= last_position(s, p),
        last_position(s, p) >= 0 ==> occurs_at(s, p, last_position(s, p)),
        forall|j: int| last_position(s, p) < j ==> !occurs_at(s, p, j),
{
    lemma_last_at(s, p, s.len() - p.len());
}

/// The position where `p` stands with none after it is the last position.
pub proof fn lemma_last_position_is(s: Seq<char>, p: Seq<char>, at: int)
    requires
        occurs_at(s, p, at),
        forall|j: int| at < j ==> !occurs_at(s, p, j),
    ensures
        last_position(s, p) == at,
{
    lemma_last_position(s, p);
}

proof fn lemma_digits_bound(s: Seq<char>)
    requires
        all_digits(s),
    ensures
        s.len() > 0 ==> digits_value(s.drop_last()) <= digits_value(s),
    decreases s.len(),
{
}

proof fn lemma_digits_prefix(s: Seq<char>, i: int)
    requires
        all_digits(s),
        0 <= i <= s.len(),
    ensures
        digits_value(s.take(i)) <= digits_value(s),
    decreases s.len() - i,
{
    if i < s.len() {
        lemma_digits_prefix(s, i + 1);
        assert(s.take(i + 1).drop_last() == s.take(i));
        lemma_digits_bound(s.take(i + 1));
    } else {
        assert(s.take(i) == s);
    }
}

proof fn lemma_decimal(n: nat)
    ensures
        decimal(n).len() > 0,
        all_digits(decimal(n)),
        digits_value(decimal(n)) == n,
    decreases n,
{
    if n < 10 {
        assert(decimal(n).drop_last() == Seq::<char>::empty());
        assert(decimal(n).last() == digit_char(n));
        reveal_with_fuel(digits_value, 2);
    } else {
        lemma_decimal(n / 10);
        assert(decimal(n).drop_last() == decimal(n / 10));
        assert(decimal(n).last() == digit_char(n % 10));
    }
}

/// Reading back the decimal digits of a number gives the number.
pub proof fn number_reads_decimal(n: nat, max: nat)
    requires
        n <= max,
    ensures
        number(decimal(n), max) == Some(n),
{
    lemma_decimal(n);
    assert(is_digit(decimal(n)[0]));
}

/// The decimal digits of a number are digits, and there is at least one.
pub proof fn decimal_is_digits(n: nat)
    ensures
        decimal(n).len() > 0,
        all_digits(decimal(n)),
{
    lemma_decimal(n);
}

/// What stands in a text also stands in a longer one.
pub proof fn lemma_has_text_within(before: Seq<char>, s: Seq<char>, after: Seq<char>, p: Seq<char>)
    requires
        has_text(s, p),
    ensures
        has_text(before + s + after, p),
{
    let i = choose|i: int| occurs_at(s, p, i);
    let whole = before + s + after;
    let at = before.len() + i;
    assert(whole.subrange(at, at + p.len()) =~= s.subrange(i, i + p.len()));
    assert(occurs_at(whole, p, at));
}

/// A part of a text stands in it.
pub proof fn lemma_has_part(before: Seq<char>, p: Seq<char>, after: Seq<char>)
    ensures
        has_text(before + p + after, p),
{
    assert(p.subrange(0, p.len() as int) =~= p);
    assert(occurs_at(p, p, 0));
    lemma_has_text_within(before, p, after, p);
}

/// The end of a text stands in it.
pub proof fn lemma_has_tail(before: Seq<char>, p: Seq<char>)
    ensures
        has_text(before + p, p),
{
    lemma_has_part(before, p, Seq::empty());
    assert(before + p + Seq::<char>::empty() =~= before + p);
}

/// What stands between two texts is settled by the whole.
pub proof fn lemma_middle_is_determined(
    before: Seq<char>,
    a: Seq<char>,
    b: Seq<char>,
    after: Seq<char>,
)
    ensures
        before + a + after == before + b + after ==> a == b,
{
    let x = before + a + after;
    let y = before + b + after;
    if x == y {
        assert(x.len() == y.len());
        let n = before.len() as int;
        assert(x.subrange(n, n + a.len()) =~= a);
        assert(y.subrange(n, n + b.len()) =~= b);
    }
}

/// What stands in one of several parts stands in all of them together.
pub proof fn lemma_concatenated_has(parts: Seq<Seq<char>>, at: int, p: Seq<char>)
    requires
        0 <= at < parts.len(),
        has_text(parts[at], p),
    ensures
        has_text(concatenated(parts), p),
    decreases parts.len(),
{
    let before = concatenated(parts.drop_last());
    let none = Seq::<char>::empty();
    if at == parts.len() - 1 {
        lemma_has_text_within(before, parts.last(), none, p);
        assert(before + parts.last() + none =~= concatenated(parts));
    } else {
        lemma_concatenated_has(parts.drop_last(), at, p);
        lemma_has_text_within(none, before, parts.last(), p);
        assert(none + before + parts.last() =~= concatenated(parts));
    }
}

/// A part that is put behind others comes last.
pub proof fn lemma_concatenated_push(parts: Seq<Seq<char>>, last: Seq<char>)
    ensures
        concatenated(parts.push(last)) == concatenated(parts) + last,
{
    assert(parts.push(last).drop_last() =~= parts);
}

/// The parts of two lists, one after the other.
pub proof fn lemma_concatenated_both(a: Seq<Seq<char>>, b: Seq<Seq<char>>)
    ensures
        concatenated(a + b) == concatenated(a) + concatenated(b),
    decreases b.len(),
{
    if b.len() == 0 {
        assert(a + b =~= a);
        assert(concatenated(a) + concatenated(b) =~= concatenated(a));
    } else {
        lemma_concatenated_both(a, b.drop_last());
        assert((a + b).drop_last() =~= a + b.drop_last());
        assert(concatenated(a) + (concatenated(b.drop_last()) + b.last()) =~= concatenated(a)
            + concatenated(b.drop_last()) + b.last());
    }
}

/// Each part stands in all of them together.
pub proof fn lemma_concatenated_has_part(parts: Seq<Seq<char>>, at: int)
    requires
        0 <= at < parts.len(),
    ensures
        has_text(concatenated(parts), parts[at]),
{
    let none = Seq::<char>::empty();
    lemma_has_part(none, parts[at], none);
    assert(none + parts[at] + none =~= parts[at]);
    lemma_concatenated_has(parts, at, parts[at]);
}

/// Three parts in a row stand so in all of them together.
pub proof fn lemma_concatenated_has_three(parts: Seq<Seq<char>>, at: int)
    requires
        0 <= at,
        at + 3 <= parts.len(),
    ensures
        has_text(concatenated(parts), parts[at] + parts[at + 1] + parts[at + 2]),
{
    let before = parts.take(at);
    let after = parts.skip(at + 3);
    let (x, y, z) = (parts[at], parts[at + 1], parts[at + 2]);
    let three = before.push(x).push(y).push(z);
    lemma_concatenated_push(before, x);
    lemma_concatenated_push(before.push(x), y);
    lemma_concatenated_push(before.push(x).push(y), z);
    lemma_concatenated_both(three, after);
    assert(three + after =~= parts);
    let head = concatenated(before);
    let tail = concatenated(after);
    assert(head + x + y + z + tail =~= head + (x + y + z) + tail);
    lemma_has_part(head, x + y + z, tail);
}

// ── Characters and strings ─────────────────────────────────────────────────

/// The characters of a string.
pub fn chars_of(s: &str) -> (v: Vec<char>)
    ensures
        v@ == s@,
{
    let mut v: Vec<char> = Vec::new();
    for c in it: s.chars()
        invariant
            v@ == s@.take(it.index() as int),
            it.seq() == s@,
    {
        v.push(c);
    }
    assert(s@.take(s@.len() as int) == s@);
    v
}

/// The string that a run of characters spells.
pub fn string_of(cs: &[char]) -> (s: String)
    ensures
        s@ == cs@,
{
    let mut s = String::new();
    for i in 0..cs.len()
        invariant
            s@ == cs@.take(i as int),
    {
        s.push(cs[i]);
    }
    assert(cs@.take(cs@.len() as int) == cs@);
    s
}

/// The characters of `cs` from `from` up to, not including, `to`.
fn slice(cs: &[char], from: usize, to: usize) -> (s: String)
    requires
        from <= to <= cs@.len(),
    ensures
        s@ == cs@.subrange(from as int, to as int),
{
    string_of(slice_subrange(cs, from, to))
}

fn chars_match(cs: &[char], p: &[char], at: usize) -> (yes: bool)
    requires
        at + p@.len() <= cs@.len(),
    ensures
        yes == occurs_at(cs@, p@, at as int),
{
    let len = cs.len();
    for i in 0..p.len()
        invariant
            at + p@.len() <= len,
            len == cs@.len(),
            forall|j: int| 0 <= j < i ==> cs@[at + j] == p@[j],
    {
        if cs[at + i] != p[i] {
            assert(cs@.subrange(at as int, at + p@.len())[i as int] != p@[i as int]);
            return false;
        }
    }
    assert(cs@.subrange(at as int, at + p@.len()) =~= p@);
    true
}

/// Whether two strings hold the same characters.
pub fn same(a: &str, b: &str) -> (yes: bool)
    ensures
        yes == (a@ == b@),
{
    let x = chars_of(a);
    let y = chars_of(b);
    if x.len() != y.len() {
        return false;
    }
    let yes = chars_match(&x, &y, 0);
    assert(a@.subrange(0, a@.len() as int) == a@);
    yes
}

/// Whether `p` stands at the start of `s`.
pub fn starts_with(s: &str, p: &str) -> (yes: bool)
    ensures
        yes == p@.is_prefix_of(s@),
{
    let cs = chars_of(s);
    let pat = chars_of(p);
    if pat.len() > cs.len() {
        return false;
    }
    chars_match(&cs, &pat, 0)
}

/// Whether `p` stands at the end of `s`.
pub fn ends_with(s: &str, p: &str) -> (yes: bool)
    ensures
        yes == p@.is_suffix_of(s@),
{
    let cs = chars_of(s);
    let pat = chars_of(p);
    if pat.len() > cs.len() {
        return false;
    }
    let yes = chars_match(&cs, &pat, cs.len() - pat.len());
    assert(s@.subrange(s@.len() - p@.len(), s@.len() as int) == s@.subrange(
        s@.len() - p@.len(),
        s@.len() - p@.len() + p@.len(),
    ));
    yes
}

/// What follows `p` at the start of `s`; `None` if `s` does not start with `p`.
pub fn strip_prefix(s: &str, p: &str) -> (rest: Option<String>)
    ensures
        rest.deep_view() == (if p@.is_prefix_of(s@) {
            Some(s@.skip(p@.len() as int))
        } else {
            None::<Seq<char>>
        }),
{
    if !starts_with(s, p) {
        return None;
    }
    let cs = chars_of(s);
    let n = chars_of(p).len();
    let rest = slice(&cs, n, cs.len());
    Some(rest)
}

/// What stands before `p` at the end of `s`; `None` if `s` does not end with `p`.
pub fn strip_suffix(s: &str, p: &str) -> (rest: Option<String>)
    ensures
        rest.deep_view() == (if p@.is_suffix_of(s@) {
            Some(s@.take(s@.len() - p@.len()))
        } else {
            None::<Seq<char>>
        }),
{
    if !ends_with(s, p) {
        return None;
    }
    let cs = chars_of(s);
    let n = cs.len() - chars_of(p).len();
    let rest = slice(&cs, 0, n);
    Some(rest)
}

/// Whether `p` stands somewhere in `s`.
pub fn contains(s: &str, p: &str) -> (yes: bool)
    ensures
        yes == has_text(s@, p@),
{
    let cs = chars_of(s);
    let pat = chars_of(p);
    if pat.len() > cs.len() {
        return false;
    }
    let last: usize = cs.len() - pat.len();
    let mut i: usize = 0;
    while i <= last
        invariant
            cs@ == s@,
            pat@ == p@,
            last + pat@.len() == cs@.len(),
            i <= last + 1,
            forall|j: int| 0 <= j < i ==> !occurs_at(s@, p@, j),
        decreases last + 1 - i,
    {
        if chars_match(&cs, &pat, i) {
            return true;
        }
        if i == last {
            assert(forall|j: int| !occurs_at(s@, p@, j));
            return false;
        }
        i += 1;
    }
    false
}

/// What stands before and after the last `p` in `s`; `None` if there is none.
pub fn split_at_last(s: &str, p: &str) -> (parts: Option<(String, String)>)
    ensures
        parts.deep_view() == (if last_position(s@, p@) >= 0 {
            Some(
                (
                    s@.take(last_position(s@, p@)),
                    s@.skip(last_position(s@, p@) + p@.len()),
                ),
            )
        } else {
            None::<(Seq<char>, Seq<char>)>
        }),
{
    proof {
        lemma_last_position(s@, p@);
    }
    let cs = chars_of(s);
    let pat = chars_of(p);
    if pat.len() > cs.len() {
        return None;
    }
    let mut i: usize = cs.len() - pat.len();
    loop
        invariant
            cs@ == s@,
            pat@ == p@,
            i + pat@.len() <= cs@.len(),
            forall|j: int| i < j ==> !occurs_at(s@, p@, j),
            last_position(s@, p@) >= 0 ==> occurs_at(s@, p@, last_position(s@, p@)),
            forall|j: int| last_position(s@, p@) < j ==> !occurs_at(s@, p@, j),
        decreases i,
    {
        if chars_match(&cs, &pat, i) {
            proof {
                lemma_last_position_is(s@, p@, i as int);
            }
            let before = slice(&cs, 0, i);
            let len = cs.len();
            let after = slice(&cs, i + pat.len(), len);
            return Some((before, after));
        }
        if i == 0 {
            return None;
        }
        i -= 1;
    }
}

/// The position of the first `c` from `from` on, or the length.
fn find_char(cs: &[char], c: char, from: usize) -> (at: usize)
    requires
        from <= cs@.len(),
    ensures
        from <= at <= cs@.len(),
        at - from == first_position(cs@.skip(from as int), c),
{
    let mut i: usize = from;
    while i < cs.len() && cs[i] != c
        invariant
            from <= i <= cs@.len(),
            forall|j: int| from <= j < i ==> cs@[j] != c,
        decreases cs@.len() - i,
    {
        i += 1;
    }
    proof {
        let rest = cs@.skip(from as int);
        assert forall|j: int| 0 <= j < i - from implies rest[j] != c by {
            assert(rest[j] == cs@[from + j]);
        }
        lemma_first_position_is(rest, c, i - from);
    }
    i
}

/// What stands before and after the first `c` in `s`; `None` if there is none.
pub fn split_once(s: &str, c: char) -> (parts: Option<(String, String)>)
    ensures
        parts.deep_view() == (if first_position(s@, c) < s@.len() {
            Some(
                (
                    s@.take(first_position(s@, c) as int),
                    s@.skip(first_position(s@, c) as int + 1),
                ),
            )
        } else {
            None::<(Seq<char>, Seq<char>)>
        }),
{
    let cs = chars_of(s);
    assert(s@.skip(0) == s@);
    let at = find_char(&cs, c, 0);
    if at < cs.len() {
        let before = slice(&cs, 0, at);
        let after = slice(&cs, at + 1, cs.len());
        Some((before, after))
    } else {
        None
    }
}

/// The pieces of `s` between the occurrences of `c`.
pub fn split(s: &str, c: char) -> (parts: Vec<String>)
    ensures
        parts.deep_view() == pieces(s@, c),
        parts@.len() > 0,
{
    let cs = chars_of(s);
    let mut parts: Vec<String> = Vec::new();
    let mut from: usize = 0;
    assert(s@.skip(0) == s@);
    assert(parts.deep_view() + pieces(s@, c) =~= pieces(s@, c));
    loop
        invariant
            cs@ == s@,
            from <= cs@.len(),
            parts.deep_view() + pieces(s@.skip(from as int), c) == pieces(s@, c),
        decreases cs@.len() - from,
    {
        let ghost rest = s@.skip(from as int);
        let at = find_char(&cs, c, from);
        let ghost done = parts.deep_view();
        parts.push(slice(&cs, from, at));
        assert(rest.take(at - from) =~= s@.subrange(from as int, at as int));
        assert(parts.deep_view() =~= done.push(rest.take(at - from)));
        if at == cs.len() {
            assert(rest.take(at - from) =~= rest);
            assert(parts.deep_view() =~= done + seq![rest]);
            return parts;
        }
        proof {
            assert(rest.skip(at - from + 1) =~= s@.skip(at + 1));
            assert(parts.deep_view() + pieces(s@.skip(at + 1), c) =~= done + (seq![
                rest.take(at - from),
            ] + pieces(rest.skip(at - from + 1), c)));
        }
        from = at + 1;
    }
}

/// The lines of `s`, without their line endings.
pub fn lines(s: &str) -> (found: Vec<String>)
    ensures
        found.deep_view() == text_lines(s@),
{
    let cs = chars_of(s);
    let mut found: Vec<String> = Vec::new();
    let mut from: usize = 0;
    assert(s@.skip(0) == s@);
    assert(found.deep_view() + text_lines(s@) =~= text_lines(s@));
    while from < cs.len()
        invariant
            cs@ == s@,
            from <= cs@.len(),
            found.deep_view() + text_lines(s@.skip(from as int)) == text_lines(s@),
        decreases cs@.len() - from,
    {
        let ghost rest = s@.skip(from as int);
        let ghost done = found.deep_view();
        let at = find_char(&cs, '\n', from);
        if at == cs.len() {
            found.push(slice(&cs, from, at));
            assert(rest =~= s@.subrange(from as int, at as int));
            assert(found.deep_view() =~= done + seq![rest]);
            assert(found.deep_view() + text_lines(s@.skip(at as int)) =~= found.deep_view());
            from = at;
        } else {
            let to: usize = if at > from && cs[at - 1] == '\r' {
                at - 1
            } else {
                at
            };
            found.push(slice(&cs, from, to));
            proof {
                let line = rest.take(at - from);
                assert(line =~= s@.subrange(from as int, at as int));
                assert(without_cr(line) =~= s@.subrange(from as int, to as int));
                assert(found.deep_view() =~= done.push(without_cr(line)));
                assert(rest.skip(at - from + 1) =~= s@.skip(at + 1));
                assert(found.deep_view() + text_lines(s@.skip(at + 1)) =~= done + (seq![
                    without_cr(line),
                ] + text_lines(rest.skip(at - from + 1))));
            }
            from = at + 1;
        }
    }
    assert(s@.skip(from as int) =~= Seq::<char>::empty());
    assert(found.deep_view() + text_lines(s@.skip(from as int)) =~= found.deep_view());
    found
}

/// Whether `c` has the Unicode `White_Space` property.
pub fn white_space(c: char) -> (yes: bool)
    ensures
        yes == is_white_space(c),
{
    let u: u32 = c as u32;
    (0x9 <= u && u <= 0xd) || u == 0x20 || u == 0x85 || u == 0xa0 || u == 0x1680 || (0x2000 <= u && u
        <= 0x200a) || u == 0x2028 || u == 0x2029 || u == 0x202f || u == 0x205f || u == 0x3000
}

/// The first position from `from` on that holds no white space, or the length.
fn skip_white_space(cs: &[char], from: usize) -> (at: usize)
    requires
        from <= cs@.len(),
    ensures
        from <= at <= cs@.len(),
        cs@.skip(at as int) == trimmed_start(cs@.skip(from as int)),
{
    let mut i: usize = from;
    while i < cs.len() && white_space(cs[i])
        invariant
            from <= i <= cs@.len(),
            trimmed_start(cs@.skip(i as int)) == trimmed_start(cs@.skip(from as int)),
        decreases cs@.len() - i,
    {
        assert(cs@.skip(i as int).drop_first() =~= cs@.skip(i + 1));
        i += 1;
    }
    i
}

/// `s` without the white space at its end.
pub fn trim_end(s: &str) -> (t: String)
    ensures
        t@ == trimmed_end(s@),
{
    let cs = chars_of(s);
    let mut to: usize = cs.len();
    assert(s@.take(s@.len() as int) == s@);
    while to > 0 && white_space(cs[to - 1])
        invariant
            cs@ == s@,
            to <= cs@.len(),
            trimmed_end(s@.take(to as int)) == trimmed_end(s@),
        decreases to,
    {
        assert(s@.take(to as int).drop_last() =~= s@.take(to - 1));
        to -= 1;
    }
    slice(&cs, 0, to)
}

/// `s` without the white space at either end.
pub fn trim(s: &str) -> (t: String)
    ensures
        t@ == trimmed(s@),
{
    let cs = chars_of(s);
    assert(s@.skip(0) == s@);
    let from = skip_white_space(&cs, 0);
    let rest = slice(&cs, from, cs.len());
    trim_end(&rest)
}

/// The first position from `from` on that holds white space, or the length.
fn word_end(cs: &[char], from: usize) -> (at: usize)
    requires
        from <= cs@.len(),
    ensures
        from <= at <= cs@.len(),
        at - from == word_len(cs@.skip(from as int)),
{
    let mut i: usize = from;
    while i < cs.len() && !white_space(cs[i])
        invariant
            from <= i <= cs@.len(),
            i - from + word_len(cs@.skip(i as int)) == word_len(cs@.skip(from as int)),
        decreases cs@.len() - i,
    {
        assert(cs@.skip(i as int).drop_first() =~= cs@.skip(i + 1));
        i += 1;
    }
    i
}

/// The words of `s`: its maximal runs without white space.
pub fn words(s: &str) -> (found: Vec<String>)
    ensures
        found.deep_view() == text_words(s@),
{
    let cs = chars_of(s);
    let mut found: Vec<String> = Vec::new();
    let mut from: usize = 0;
    assert(s@.skip(0) == s@);
    assert(found.deep_view() + text_words(s@) =~= text_words(s@));
    loop
        invariant
            cs@ == s@,
            from <= cs@.len(),
            found.deep_view() + text_words(s@.skip(from as int)) == text_words(s@),
        decreases cs@.len() - from,
    {
        let ghost done = found.deep_view();
        let start = skip_white_space(&cs, from);
        let ghost t = s@.skip(start as int);
        if start == cs.len() {
            assert(found.deep_view() + text_words(s@.skip(from as int)) =~= found.deep_view());
            return found;
        }
        let end = word_end(&cs, start);
        proof {
            lemma_trimmed_start_len(s@.skip(from as int));
            lemma_word_len_bound(t);
        }
        found.push(slice(&cs, start, end));
        proof {
            assert(t.take(end - start) =~= s@.subrange(start as int, end as int));
            assert(found.deep_view() =~= done.push(t.take(end - start)));
            assert(t.skip(end - start) =~= s@.skip(end as int));
            assert(found.deep_view() + text_words(s@.skip(end as int)) =~= done + (seq![
                t.take(end - start),
            ] + text_words(t.skip(end - start))));
        }
        from = end;
    }
}

/// The parts, in order.
pub fn concat_all(parts: &Vec<String>) -> (s: String)
    ensures
        s@ == concatenated(parts.deep_view()),
{
    let mut s = String::new();
    let ghost all = parts.deep_view();
    for i in 0..parts.len()
        invariant
            all == parts.deep_view(),
            s@ == concatenated(all.take(i as int)),
    {
        proof {
            assert(all.take(i + 1).drop_last() =~= all.take(i as int));
            assert(all.take(i + 1).last() == all[i as int]);
        }
        s.append(parts[i].as_str());
    }
    assert(all.take(parts@.len() as int) =~= all);
    s
}

/// The parts, in order, with `sep` between neighbours.
pub fn join(parts: &Vec<String>, sep: &str) -> (s: String)
    ensures
        s@ == joined(parts.deep_view(), sep@),
{
    let mut s = String::new();
    let ghost all = parts.deep_view();
    for i in 0..parts.len()
        invariant
            all == parts.deep_view(),
            s@ == joined(all.take(i as int), sep@),
    {
        proof {
            assert(all.take(i + 1).drop_last() =~= all.take(i as int));
            assert(all.take(i + 1).last() == all[i as int]);
        }
        if i > 0 {
            s.append(sep);
        }
        s.append(parts[i].as_str());
        assert(s@ =~= joined(all.take(i + 1), sep@));
    }
    assert(all.take(parts@.len() as int) =~= all);
    s
}

/// The characters of `s` that are not white space.
pub fn drop_white_space(s: &str) -> (t: String)
    ensures
        t@ == without_white_space(s@),
{
    let cs = chars_of(s);
    let mut t = String::new();
    let ghost keep = |c: char| !is_white_space(c);
    reveal(Seq::filter);
    for i in 0..cs.len()
        invariant
            cs@ == s@,
            keep == (|c: char| !is_white_space(c)),
            t@ == s@.take(i as int).filter(keep),
    {
        reveal(Seq::filter);
        assert(s@.take(i + 1).drop_last() =~= s@.take(i as int));
        if !white_space(cs[i]) {
            t.push(cs[i]);
        }
    }
    assert(s@.take(s@.len() as int) =~= s@);
    t
}

/// `s` without as many copies of `p` at its end as there are.
pub fn trim_end_matches(s: &str, p: &str) -> (t: String)
    ensures
        t@ == without_suffixes(s@, p@),
{
    let cs = chars_of(s);
    let pat = chars_of(p);
    let mut to: usize = cs.len();
    assert(s@.take(s@.len() as int) == s@);
    while pat.len() > 0 && to >= pat.len() && chars_match(&cs, &pat, to - pat.len())
        invariant
            cs@ == s@,
            pat@ == p@,
            to <= cs@.len(),
            without_suffixes(s@.take(to as int), p@) == without_suffixes(s@, p@),
        decreases to,
    {
        proof {
            let cur = s@.take(to as int);
            assert(cur.subrange(to - p@.len(), to as int) =~= s@.subrange(
                to - p@.len(),
                to - p@.len() + p@.len(),
            ));
            assert(cur.take(to - p@.len()) =~= s@.take(to - p@.len()));
        }
        to -= pat.len();
    }
    proof {
        let cur = s@.take(to as int);
        if p@.len() > 0 && p@.is_suffix_of(cur) {
            assert(cur.subrange(to - p@.len(), to as int) =~= s@.subrange(
                to - p@.len(),
                to - p@.len() + p@.len(),
            ));
        }
    }
    slice(&cs, 0, to)
}

// ── Numbers ────────────────────────────────────────────────────────────────

/// Whether `c` is a decimal digit.
pub fn digit(c: char) -> (yes: bool)
    ensures
        yes == is_digit(c),
{
    '0' <= c && c <= '9'
}

/// Whether `c` is a hexadecimal digit.
pub fn hex_digit(c: char) -> (yes: bool)
    ensures
        yes == is_hex_digit(c),
{
    digit(c) || ('a' <= c && c <= 'f') || ('A' <= c && c <= 'F')
}

/// Whether `s` holds decimal digits only.
pub fn only_digits(s: &str) -> (yes: bool)
    ensures
        yes == all_digits(s@),
{
    let cs = chars_of(s);
    for i in 0..cs.len()
        invariant
            cs@ == s@,
            forall|j: int| 0 <= j < i ==> is_digit(#[trigger] s@[j]),
    {
        if !digit(cs[i]) {
            return false;
        }
    }
    true
}

/// Reads a number that fits in 64 bits.
pub fn parse_u64(s: &str) -> (n: Option<u64>)
    ensures
        n.deep_view() == match number(s@, u64::MAX as nat) {
            Some(v) => Some(v as u64),
            None => None,
        },
{
    let cs = chars_of(s);
    let from: usize = if cs.len() > 0 && cs[0] == '+' {
        1
    } else {
        0
    };
    let ghost digits = s@.skip(from as int);
    assert(s@.skip(0) =~= s@);
    assert(s@.len() > 0 ==> s@.skip(1) =~= s@.drop_first());
    if cs.len() == from {
        return None;
    }
    let mut value: u64 = 0;
    for i in from..cs.len()
        invariant
            cs@ == s@,
            from <= 1,
            from < cs@.len(),
            digits == s@.skip(from as int),
            digits == (if s@[0] == '+' {
                s@.drop_first()
            } else {
                s@
            }),
            all_digits(digits.take(i - from)),
            value == digits_value(digits.take(i - from)),
    {
        let ghost head = digits.take(i - from);
        let ghost next = digits.take(i - from + 1);
        proof {
            assert(next.drop_last() =~= head);
            assert(next.last() == digits[i - from]);
            assert(digits[i - from] == s@[i as int]);
        }
        let c = cs[i];
        if !digit(c) {
            assert(!all_digits(digits));
            return None;
        }
        assert(all_digits(next)) by {
            assert forall|j: int| 0 <= j < next.len() implies is_digit(#[trigger] next[j]) by {
                if j < head.len() {
                    assert(next[j] == head[j]);
                }
            }
        }
        let d: u64 = (c as u32 - '0' as u32) as u64;
        if value > (u64::MAX - d) / 10 {
            proof {
                if all_digits(digits) {
                    lemma_digits_prefix(digits, i - from + 1);
                    assert(digits_value(next) == value * 10 + d);
                    assert(value * 10 + d > u64::MAX);
                }
            }
            return None;
        }
        value = value * 10 + d;
    }
    assert(digits.take(digits.len() as int) =~= digits);
    Some(value)
}

/// Reads a number that fits in 32 bits.
pub fn parse_u32(s: &str) -> (n: Option<u32>)
    ensures
        n.deep_view() == match number(s@, u32::MAX as nat) {
            Some(v) => Some(v as u32),
            None => None,
        },
{
    match parse_u64(s) {
        Some(v) => if v <= u32::MAX as u64 {
            Some(v as u32)
        } else {
            None
        },
        None => None,
    }
}

/// What `u32::from_str` says of a text that is no number of 32 bits.
pub uninterp spec fn number_error_text(text: Seq<char>) -> Seq<char>;

/// `u32::from_str`: reads decimal digits, at least one, after an optional `+`, if
/// the number fits in 32 bits. The text of the error is determined by the input.
#[verifier::external_body]
pub(crate) fn read_u32(text: &str) -> (r: Result<u32, String>)
    ensures
        match r {
            Ok(n) => number(text@, u32::MAX as nat) == Some(n as nat),
            Err(m) => number(text@, u32::MAX as nat) is None && m@ == number_error_text(text@),
        },
{
    text.parse::<u32>().map_err(|e| e.to_string())
}

/// The decimal digits of `n`.
pub fn decimal_of(n: u64) -> (s: String)
    ensures
        s@ == decimal(n as nat),
    decreases n,
{
    let mut s = if n < 10 {
        String::new()
    } else {
        decimal_of(n / 10)
    };
    let digits: [char; 10] = ['0', '1', '2', '3', '4', '5', '6', '7', '8', '9'];
    let d: usize = (n % 10) as usize;
    assert(digits[d as int] == digit_char(d as nat));
    s.push(digits[d]);
    assert(s@ =~= decimal(n as nat));
    s
}

/// A trimmed text has white space at neither end.
pub proof fn lemma_trimmed_ends(s: Seq<char>)
    ensures
        trimmed(s).len() > 0 ==> !is_white_space(trimmed(s)[0]) && !is_white_space(
            trimmed(s).last(),
        ),
{
    lemma_trimmed_start_len(s);
    lemma_trimmed_end_end(trimmed_start(s));
}

proof fn lemma_trimmed_end_end(s: Seq<char>)
    ensures
        trimmed_end(s).len() <= s.len(),
        trimmed_end(s).len() > 0 ==> !is_white_space(trimmed_end(s).last()) && trimmed_end(s)[0]
            == s[0],
    decreases s.len(),
{
    if s.len() > 0 && is_white_space(s.last()) {
        lemma_trimmed_end_end(s.drop_last());
    }
}

/// `s` holds white space only.
pub open spec fn all_white_space(s: Seq<char>) -> bool {
    forall|i: int| 0 <= i < s.len() ==> is_white_space(#[trigger] s[i])
}

/// A text that starts and ends in something else is what is left of it after
/// white space was put around it and taken away again.
pub proof fn trimming_undoes_padding(before: Seq<char>, s: Seq<char>, after: Seq<char>)
    requires
        all_white_space(before),
        all_white_space(after),
        s.len() > 0,
        !is_white_space(s[0]),
        !is_white_space(s.last()),
    ensures
        trimmed(before + s + after) == s,
    decreases before.len() + after.len(),
{
    let whole = before + s + after;
    if before.len() > 0 {
        assert(whole[0] == before[0]);
        assert(whole.drop_first() =~= before.drop_first() + s + after);
        trimming_undoes_padding(before.drop_first(), s, after);
    } else {
        assert(whole[0] == s[0]);
        lemma_trimmed_end_padding(s, after);
        assert(whole =~= s + after);
    }
}

/// Nothing is left of white space.
pub proof fn trimmed_white_space(s: Seq<char>)
    requires
        all_white_space(s),
    ensures
        trimmed(s).len() == 0,
    decreases s.len(),
{
    if s.len() > 0 {
        assert(is_white_space(s[0]));
        assert forall|i: int| 0 <= i < s.drop_first().len() implies is_white_space(
            #[trigger] s.drop_first()[i],
        ) by {
            assert(s.drop_first()[i] == s[i + 1]);
        }
        trimmed_white_space(s.drop_first());
    }
}

proof fn lemma_trimmed_end_padding(s: Seq<char>, after: Seq<char>)
    requires
        all_white_space(after),
        s.len() > 0,
        !is_white_space(s.last()),
    ensures
        trimmed_end(s + after) == s,
    decreases after.len(),
{
    let whole = s + after;
    if after.len() > 0 {
        assert(whole.last() == after.last());
        assert(whole.drop_last() =~= s + after.drop_last());
        lemma_trimmed_end_padding(s, after.drop_last());
    } else {
        assert(whole =~= s);
    }
}

/// The lines of two texts one after the other are the lines of both, if the
/// first one ends in a line break.
pub proof fn lines_of_both(a: Seq<char>, b: Seq<char>)
    requires
        a.len() == 0 || a.last() == '\n',
    ensures
        text_lines(a + b) == text_lines(a) + text_lines(b),
    decreases a.len(),
{
    let whole = a + b;
    if a.len() == 0 {
        assert(whole =~= b);
        assert(text_lines(a) + text_lines(b) =~= text_lines(b));
    } else {
        let i = first_position(a, '\n') as int;
        lemma_first_position(a, '\n');
        if i >= a.len() {
            assert(a[a.len() - 1] != '\n');
        }
        assert(whole[i] == '\n');
        lemma_first_position_is(whole, '\n', i);
        assert(whole.take(i) =~= a.take(i));
        assert(whole.skip(i + 1) =~= a.skip(i + 1) + b);
        lines_of_both(a.skip(i + 1), b);
        let line = seq![without_cr(a.take(i))];
        assert(line + (text_lines(a.skip(i + 1)) + text_lines(b)) =~= line + text_lines(
            a.skip(i + 1),
        ) + text_lines(b));
    }
}

/// How many bytes the head of `s` takes: at most `max`.
pub open spec fn head_len(s: Seq<char>, max: usize) -> int {
    if byte_len(s) < max {
        byte_len(s) as int
    } else {
        max as int
    }
}

/// The head of `s` ends between two characters.
pub open spec fn can_cut(s: Seq<char>, max: usize) -> bool {
    is_char_boundary(encode_utf8(s), head_len(s, max))
}

/// The first bytes of `s`, at most `max` of them.
pub open spec fn head_text(s: Seq<char>, max: usize) -> Seq<char> {
    decode_utf8(encode_utf8(s).take(head_len(s, max)))
}

/// Whether the head of `s` ends between two characters.
pub fn has_head(s: &str, max: usize) -> (yes: bool)
    ensures
        yes == can_cut(s@, max),
{
    let len = s.as_bytes().len();
    let cut: usize = if len < max {
        len
    } else {
        max
    };
    s.is_char_boundary(cut)
}

/// The first bytes of `s`, at most `max` of them.
pub fn head(s: &str, max: usize) -> (start: String)
    requires
        can_cut(s@, max),
    ensures
        start@ == head_text(s@, max),
{
    let len = s.as_bytes().len();
    let cut: usize = if len < max {
        len
    } else {
        max
    };
    let (start, _) = s.split_at(cut);
    proof {
        encode_utf8_decode_utf8(start@);
        assert(encode_utf8(s@).take(cut as int) =~= encode_utf8(s@).subrange(0, cut as int));
    }
    start.to_string()
}

/// The decimal digits of `n`, after a minus sign if it is negative.
pub open spec fn signed_decimal(n: int) -> Seq<char> {
    if n < 0 {
        "-"@ + decimal((-n) as nat)
    } else {
        decimal(n as nat)
    }
}

/// The decimal digits of `n`, after a minus sign if it is negative.
pub fn signed_decimal_of(n: i32) -> (s: String)
    ensures
        s@ == signed_decimal(n as int),
{
    let wide = n as i64;
    if wide < 0 {
        "-".to_string().concat(&decimal_of((-wide) as u64))
    } else {
        decimal_of(wide as u64)
    }
}

// ── Laws ───────────────────────────────────────────────────────────────────

/// A text without white space is one word.
pub proof fn word_is_one(word: Seq<char>)
    requires
        word.len() > 0,
        forall|i: int| 0 <= i < word.len() ==> !is_white_space(#[trigger] word[i]),
    ensures
        text_words(word) == seq![word],
{
    lemma_word_len_is(word, word.len() as int);
    assert(!is_white_space(word[0]));
    assert(word.take(word.len() as int) =~= word);
    assert(word.skip(word.len() as int) =~= Seq::<char>::empty());
    assert(trimmed_start(Seq::<char>::empty()).len() == 0);
    assert(text_words(Seq::<char>::empty()) =~= Seq::<Seq<char>>::empty());
    assert(seq![word] + Seq::<Seq<char>>::empty() =~= seq![word]);
}

/// White space parts words: the words of two texts with white space between them are
/// the words of both.
pub proof fn words_of_both(a: Seq<char>, space: char, b: Seq<char>)
    requires
        is_white_space(space),
    ensures
        text_words(a + seq![space] + b) == text_words(a) + text_words(b),
    decreases a.len(),
{
    let whole = a + seq![space] + b;
    if a.len() == 0 {
        assert(whole[0] == space);
        assert(whole.drop_first() =~= b);
        assert(trimmed_start(whole) == trimmed_start(b));
        assert(trimmed_start(a).len() == 0);
        assert(text_words(a) =~= Seq::<Seq<char>>::empty());
        assert(text_words(a) + text_words(b) =~= text_words(b));
    } else if is_white_space(a[0]) {
        assert(whole[0] == a[0]);
        assert(whole.drop_first() =~= a.drop_first() + seq![space] + b);
        words_of_both(a.drop_first(), space, b);
        assert(trimmed_start(a) == trimmed_start(a.drop_first()));
        assert(trimmed_start(whole) == trimmed_start(whole.drop_first()));
    } else {
        let n = word_len(a) as int;
        lemma_word_len_bound(a);
        lemma_word_len_ends(a);
        assert forall|i: int| 0 <= i < n implies !is_white_space(#[trigger] whole[i]) by {
            assert(whole[i] == a[i]);
        }
        assert(is_white_space(whole[n])) by {
            if n < a.len() {
                assert(whole[n] == a[n]);
            } else {
                assert(whole[n] == space);
            }
        }
        lemma_word_len_is(whole, n);
        assert(whole[0] == a[0]);
        assert(whole.take(n) =~= a.take(n));
        assert(whole.skip(n) =~= a.skip(n) + seq![space] + b);
        words_of_both(a.skip(n), space, b);
        let first = seq![a.take(n)];
        assert(first + (text_words(a.skip(n)) + text_words(b)) =~= first + text_words(a.skip(n))
            + text_words(b));
    }
}

proof fn lemma_word_len_ends(s: Seq<char>)
    ensures
        forall|i: int| 0 <= i < word_len(s) ==> !is_white_space(#[trigger] s[i]),
        word_len(s) < s.len() ==> is_white_space(s[word_len(s) as int]),
    decreases s.len(),
{
    if s.len() > 0 && !is_white_space(s[0]) {
        lemma_word_len_ends(s.drop_first());
        lemma_word_len_bound(s.drop_first());
        assert forall|i: int| 0 <= i < word_len(s) implies !is_white_space(#[trigger] s[i]) by {
            if i > 0 {
                assert(s[i] == s.drop_first()[i - 1]);
            }
        }
    }
}

proof fn lemma_word_len_is(s: Seq<char>, n: int)
    requires
        0 <= n <= s.len(),
        forall|i: int| 0 <= i < n ==> !is_white_space(#[trigger] s[i]),
        n < s.len() ==> is_white_space(s[n]),
    ensures
        word_len(s) == n,
    decreases s.len(),
{
    if n > 0 {
        assert(!is_white_space(s[0]));
        let rest = s.drop_first();
        assert forall|i: int| 0 <= i < n - 1 implies !is_white_space(#[trigger] rest[i]) by {
            assert(rest[i] == s[i + 1]);
        }
        lemma_word_len_is(rest, n - 1);
    }
}

/// Trimming takes away white space at the ends and nothing else.
pub proof fn trimming_takes_only_white_space(s: Seq<char>) -> (ends: (Seq<char>, Seq<char>))
    ensures
        all_white_space(ends.0),
        all_white_space(ends.1),
        s == ends.0 + trimmed(s) + ends.1,
{
    let before = lemma_trimmed_start_parts(s);
    let after = lemma_trimmed_end_parts(trimmed_start(s));
    assert(s =~= before + trimmed(s) + after);
    (before, after)
}

proof fn lemma_trimmed_start_parts(s: Seq<char>) -> (before: Seq<char>)
    ensures
        all_white_space(before),
        s == before + trimmed_start(s),
    decreases s.len(),
{
    if s.len() > 0 && is_white_space(s[0]) {
        let rest = lemma_trimmed_start_parts(s.drop_first());
        let before = seq![s[0]] + rest;
        assert(s =~= seq![s[0]] + s.drop_first());
        assert(s =~= before + trimmed_start(s.drop_first()));
        before
    } else {
        assert(s =~= Seq::<char>::empty() + s);
        Seq::empty()
    }
}

proof fn lemma_trimmed_end_parts(s: Seq<char>) -> (after: Seq<char>)
    ensures
        all_white_space(after),
        s == trimmed_end(s) + after,
    decreases s.len(),
{
    if s.len() > 0 && is_white_space(s.last()) {
        let rest = lemma_trimmed_end_parts(s.drop_last());
        let after = rest.push(s.last());
        assert(s =~= s.drop_last().push(s.last()));
        assert(s =~= trimmed_end(s.drop_last()) + after);
        after
    } else {
        assert(s =~= s + Seq::<char>::empty());
        Seq::empty()
    }
}

/// A number may have a plus sign and zeros in front of it, and nothing else about it;
/// one above the limit is not read.
pub proof fn numbers_are_read_by_their_digits(s: Seq<char>, n: nat, max: nat)
    ensures
        n <= max ==> number(seq!['+'] + decimal(n), max) == Some(n),
        n > max ==> number(decimal(n), max) is None,
        all_digits(s) && s.len() > 0 ==> number(seq!['0'] + s, max) == number(s, max),
        number(s, max) is Some ==> s.len() > 0 && (forall|i: int|
            0 < i < s.len() ==> is_digit(#[trigger] s[i])) && (is_digit(s[0]) || (s[0] == '+'
            && s.len() > 1)),
{
    lemma_decimal(n);
    let plus = seq!['+'] + decimal(n);
    assert(plus.drop_first() =~= decimal(n));
    assert(is_digit(decimal(n)[0]));
    if all_digits(s) && s.len() > 0 {
        let padded = seq!['0'] + s;
        assert(is_digit(s[0]));
        assert forall|i: int| 0 <= i < padded.len() implies is_digit(#[trigger] padded[i]) by {
            if i > 0 {
                assert(padded[i] == s[i - 1]);
            }
        }
        lemma_digits_after_zero(s);
    }
    if number(s, max) is Some {
        if s[0] == '+' {
            assert forall|i: int| 0 < i < s.len() implies is_digit(#[trigger] s[i]) by {
                assert(s.drop_first()[i - 1] == s[i]);
            }
        }
    }
}

proof fn lemma_digits_after_zero(s: Seq<char>)
    ensures
        digits_value(seq!['0'] + s) == digits_value(s),
    decreases s.len(),
{
    let padded = seq!['0'] + s;
    if s.len() == 0 {
        assert(padded.drop_last() =~= Seq::<char>::empty());
        assert(padded.last() == '0');
        assert(digits_value(padded.drop_last()) == 0);
    } else {
        assert(padded.drop_last() =~= seq!['0'] + s.drop_last());
        assert(padded.last() == s.last());
        lemma_digits_after_zero(s.drop_last());
    }
}

/// A text in which no line ends is one line, as it stands; the break that ends a line
/// is not part of it, and neither is a carriage return before the break.
pub proof fn lines_end_at_breaks(line: Seq<char>, rest: Seq<char>)
    requires
        line.len() > 0,
        forall|i: int| 0 <= i < line.len() ==> #[trigger] line[i] != '\n',
    ensures
        text_lines(line) == seq![line],
        line.last() != '\r' ==> text_lines(line + seq!['\n'] + rest) == seq![line] + text_lines(
            rest,
        ),
        text_lines(line + seq!['\r', '\n'] + rest) == seq![line] + text_lines(rest),
{
    lemma_first_position_is(line, '\n', line.len() as int);
    let plain = line + seq!['\n'] + rest;
    let n = line.len() as int;
    assert forall|j: int| 0 <= j < n implies plain[j] != '\n' by {
        assert(plain[j] == line[j]);
    }
    lemma_first_position_is(plain, '\n', n);
    assert(plain.take(n) =~= line);
    assert(plain.skip(n + 1) =~= rest);
    let with_return = line + seq!['\r', '\n'] + rest;
    assert forall|j: int| 0 <= j < n + 1 implies with_return[j] != '\n' by {
        if j < n {
            assert(with_return[j] == line[j]);
        }
    }
    lemma_first_position_is(with_return, '\n', n + 1);
    assert(with_return.take(n + 1) =~= line.push('\r'));
    assert(line.push('\r').drop_last() =~= line);
    assert(with_return.skip(n + 2) =~= rest);
}

/// White space is dropped wherever it stands, and everything else is kept in order.
pub proof fn white_space_is_dropped(a: Seq<char>, c: char, b: Seq<char>)
    ensures
        is_white_space(c) ==> without_white_space(a + seq![c] + b) == without_white_space(a + b),
        !is_white_space(c) ==> without_white_space(a + seq![c] + b) == without_white_space(a)
            + seq![c] + without_white_space(b),
{
    let keep = |x: char| !is_white_space(x);
    Seq::filter_distributes_over_add(a + seq![c], b, keep);
    Seq::filter_distributes_over_add(a, seq![c], keep);
    Seq::filter_distributes_over_add(a, b, keep);
    reveal(Seq::filter);
    assert(seq![c].drop_last() =~= Seq::<char>::empty());
    assert(Seq::<char>::empty().filter(keep) =~= Seq::<char>::empty());
    if is_white_space(c) {
        assert(seq![c].filter(keep) =~= Seq::<char>::empty());
        assert(a.filter(keep) + Seq::<char>::empty() + b.filter(keep) =~= a.filter(keep)
            + b.filter(keep));
    } else {
        assert(seq![c].filter(keep) =~= seq![c]);
    }
}

} // verus!
