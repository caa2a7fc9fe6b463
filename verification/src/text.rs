//! Text as sequences of characters: the small vocabulary of splitting, joining
//! and number formatting that the rest of the crate states its contracts in.

use vstd::prelude::*;
use vstd::string::*;

verus! {

/// `String::push` appends one character.
pub assume_specification[ String::push ](s: &mut String, c: char)
    ensures
        final(s)@ == old(s)@.push(c),
;

/// The characters of `s`, in order.
pub fn to_chars(s: &str) -> (r: Vec<char>)
    ensures
        r@ == s@,
{
    let mut out: Vec<char> = Vec::new();
    for c in it: s.chars()
        invariant
            it.seq() == s@,
            out@ == s@.take(it.index() as int),
    {
        out.push(c);
    }
    out
}

/// The characters from `from` up to `to`, as a string.
pub fn text_between(chars: &Vec<char>, from: usize, to: usize) -> (r: String)
    requires
        from <= to <= chars@.len(),
    ensures
        r@ == chars@.subrange(from as int, to as int),
{
    let mut out: String = String::new();
    let mut i: usize = from;
    while i < to
        invariant
            from <= i <= to <= chars@.len(),
            out@ == chars@.subrange(from as int, i as int),
        decreases to - i,
    {
        out.push(chars[i]);
        i += 1;
        assert(out@ =~= chars@.subrange(from as int, i as int));
    }
    out
}

/// Whether two strings hold the same characters.
pub fn same_text(a: &str, b: &str) -> (r: bool)
    ensures
        r == (a@ == b@),
{
    a.to_owned() == b.to_owned()
}

/// The decimal digit of `d`.
pub open spec fn digit(d: nat) -> char {
    (48 + d) as char
}

/// `n` written in decimal, without leading zeros.
pub open spec fn decimal(n: nat) -> Seq<char>
    decreases n,
{
    if n < 10 {
        seq![digit(n)]
    } else {
        decimal(n / 10).push(digit(n % 10))
    }
}

/// `i` written in decimal, with a leading minus when negative.
pub open spec fn signed_decimal(i: int) -> Seq<char> {
    if i < 0 {
        seq!['-'] + decimal((-i) as nat)
    } else {
        decimal(i as nat)
    }
}

/// Write `n` in decimal.
pub fn number(n: u64) -> (r: String)
    ensures
        r@ == decimal(n as nat),
    decreases n,
{
    let mut out: String = if n < 10 {
        String::new()
    } else {
        number(n / 10)
    };
    let d: u8 = (n % 10) as u8;
    out.push((48u8 + d) as char);
    out
}

/// Write `i` in decimal, with a leading minus when negative.
pub fn signed_number(i: i64) -> (r: String)
    ensures
        r@ == signed_decimal(i as int),
{
    if i >= 0 {
        number(i as u64)
    } else {
        let magnitude: u64 = if i == i64::MIN {
            0x8000_0000_0000_0000
        } else {
            (-i) as u64
        };
        let mut out: String = String::new();
        out.push('-');
        let digits: String = number(magnitude);
        out.append(digits.as_str());
        assert(out@ =~= signed_decimal(i as int));
        out
    }
}

/// Whether some stretch of `text` is `part`.
pub open spec fn contains_text(text: Seq<char>, part: Seq<char>) -> bool {
    exists|i: int| #[trigger] occurs_at(text, part, i)
}

/// Whether `part` stands in `text` from position `i` on.
pub open spec fn occurs_at(text: Seq<char>, part: Seq<char>, i: int) -> bool {
    0 <= i && i + part.len() <= text.len() && text.subrange(i, i + part.len()) == part
}

/// Whether `part` stands in `text` from position `at` on.
fn stands_at(text: &Vec<char>, part: &Vec<char>, at: usize) -> (r: bool)
    requires
        at <= text@.len(),
    ensures
        r == occurs_at(text@, part@, at as int),
{
    if part.len() > text.len() - at {
        return false;
    }
    let mut i: usize = 0;
    while i < part.len()
        invariant
            i <= part@.len() <= text.len() - at,
            at <= text@.len(),
            text@.subrange(at as int, at + i) == part@.take(i as int),
        decreases part@.len() - i,
    {
        if text[at + i] != part[i] {
            assert(text@.subrange(at as int, at + part@.len())[i as int] != part@[i as int]);
            return false;
        }
        i += 1;
        assert(text@.subrange(at as int, at + i) =~= part@.take(i as int));
    }
    assert(part@.take(part@.len() as int) =~= part@);
    true
}

/// Whether `text` starts with `prefix`.
pub fn starts_with(text: &str, prefix: &str) -> (r: bool)
    ensures
        r == prefix@.is_prefix_of(text@),
{
    let t: Vec<char> = to_chars(text);
    let p: Vec<char> = to_chars(prefix);
    let found: bool = stands_at(&t, &p, 0);
    assert(prefix@.is_prefix_of(text@) ==> occurs_at(text@, prefix@, 0)) by {
        if prefix@.is_prefix_of(text@) {
            assert(text@.subrange(0, prefix@.len() as int) =~= prefix@);
        }
    }
    assert(occurs_at(text@, prefix@, 0) ==> prefix@.is_prefix_of(text@));
    found
}

/// Whether `part` occurs anywhere in `text`.
pub fn contains(text: &str, part: &str) -> (r: bool)
    ensures
        r == contains_text(text@, part@),
{
    let t: Vec<char> = to_chars(text);
    let p: Vec<char> = to_chars(part);
    let mut i: usize = 0;
    while i < t.len()
        invariant
            t@ == text@,
            p@ == part@,
            i <= t@.len(),
            forall|j: int| 0 <= j < i ==> !#[trigger] occurs_at(text@, part@, j),
        decreases t@.len() - i,
    {
        if stands_at(&t, &p, i) {
            return true;
        }
        i += 1;
    }
    stands_at(&t, &p, i)
}

/// `s` cut at the first `c`: what stands before it and what stands after it.
pub open spec fn cut_first(s: Seq<char>, c: char) -> Option<(Seq<char>, Seq<char>)> {
    match s.index_of_first(c) {
        Some(i) => Some((s.take(i), s.skip(i + 1))),
        None => None,
    }
}

/// `s` cut at the last `c`: what stands before it and what stands after it.
pub open spec fn cut_last(s: Seq<char>, c: char) -> Option<(Seq<char>, Seq<char>)> {
    match s.index_of_last(c) {
        Some(i) => Some((s.take(i), s.skip(i + 1))),
        None => None,
    }
}

/// The view of an optional pair of strings.
pub open spec fn pair_view(p: Option<(String, String)>) -> Option<(Seq<char>, Seq<char>)> {
    match p {
        Some((a, b)) => Some((a@, b@)),
        None => None,
    }
}

/// Cut `s` at the first `c`.
pub fn split_once(s: &str, c: char) -> (r: Option<(String, String)>)
    ensures
        pair_view(r) == cut_first(s@, c),
{
    let chars: Vec<char> = to_chars(s);
    proof {
        s@.index_of_first_ensures(c);
    }
    let mut i: usize = 0;
    while i < chars.len()
        invariant
            chars@ == s@,
            i <= chars@.len(),
            forall|j: int| 0 <= j < i ==> s@[j] != c,
        decreases chars@.len() - i,
    {
        if chars[i] == c {
            proof {
                s@.index_of_first_ensures(c);
            }
            let before: String = text_between(&chars, 0, i);
            let after: String = text_between(&chars, i + 1, chars.len());
            assert(before@ =~= s@.take(i as int));
            assert(after@ =~= s@.skip(i + 1));
            return Some((before, after));
        }
        i += 1;
    }
    None
}

/// Cut `s` at the last `c`.
pub fn rsplit_once(s: &str, c: char) -> (r: Option<(String, String)>)
    ensures
        pair_view(r) == cut_last(s@, c),
{
    let chars: Vec<char> = to_chars(s);
    proof {
        s@.index_of_last_ensures(c);
    }
    let mut i: usize = chars.len();
    while i > 0
        invariant
            chars@ == s@,
            i <= chars@.len(),
            forall|j: int| i <= j < s@.len() ==> s@[j] != c,
        decreases i,
    {
        i -= 1;
        if chars[i] == c {
            proof {
                s@.index_of_last_ensures(c);
            }
            let before: String = text_between(&chars, 0, i);
            let after: String = text_between(&chars, i + 1, chars.len());
            assert(before@ =~= s@.take(i as int));
            assert(after@ =~= s@.skip(i + 1));
            return Some((before, after));
        }
    }
    None
}

/// The characters with Unicode's `White_Space` property.
pub open spec fn white_space(c: char) -> bool {
    let u = c as u32;
    ||| 0x9 <= u <= 0xD
    ||| u == 0x20
    ||| u == 0x85
    ||| u == 0xA0
    ||| u == 0x1680
    ||| 0x2000 <= u <= 0x200A
    ||| u == 0x2028
    ||| u == 0x2029
    ||| u == 0x202F
    ||| u == 0x205F
    ||| u == 0x3000
}

/// `char::is_whitespace` tells the characters with Unicode's `White_Space`
/// property, listed in [`white_space`].
pub assume_specification[ char::is_whitespace ](c: char) -> (r: bool)
    ensures
        r == white_space(c),
;

/// `s` without its leading white space.
pub open spec fn trimmed_start(s: Seq<char>) -> Seq<char>
    decreases s.len(),
{
    if s.len() > 0 && white_space(s[0]) {
        trimmed_start(s.skip(1))
    } else {
        s
    }
}

/// Drop leading white space.
pub fn trim_start(s: &str) -> (r: String)
    ensures
        r@ == trimmed_start(s@),
{
    let chars: Vec<char> = to_chars(s);
    let mut i: usize = 0;
    assert(s@.skip(0) =~= s@);
    while i < chars.len() && chars[i].is_whitespace()
        invariant
            chars@ == s@,
            i <= chars@.len(),
            trimmed_start(s@) == trimmed_start(s@.skip(i as int)),
        decreases chars@.len() - i,
    {
        i += 1;
        assert(s@.skip(i - 1).skip(1) =~= s@.skip(i as int));
    }
    let r: String = text_between(&chars, i, chars.len());
    assert(r@ =~= s@.skip(i as int));
    r
}

/// The lines of `s`: what stands between its line feeds, a carriage return
/// before a line feed belonging to the break. The last break is optional.
pub open spec fn lines_of(s: Seq<char>) -> Seq<Seq<char>>
    decreases s.len(),
{
    if s.len() == 0 {
        Seq::empty()
    } else {
        match s.index_of_first('\n') {
            Some(i) => if 0 <= i < s.len() {
                seq![without_return(s.take(i))] + lines_of(s.skip(i + 1))
            } else {
                seq![s]
            },
            None => seq![s],
        }
    }
}

/// `s` without one trailing carriage return.
pub open spec fn without_return(s: Seq<char>) -> Seq<char> {
    if s.len() > 0 && s.last() == '\r' {
        s.drop_last()
    } else {
        s
    }
}

/// The views of a list of strings.
pub open spec fn texts(v: Seq<String>) -> Seq<Seq<char>> {
    v.map_values(|s: String| s@)
}

/// Split `s` into its lines.
pub fn lines(s: &str) -> (r: Vec<String>)
    ensures
        texts(r@) == lines_of(s@),
{
    let chars: Vec<char> = to_chars(s);
    let mut out: Vec<String> = Vec::new();
    let mut start: usize = 0;
    let mut i: usize = 0;
    assert(s@.skip(0) =~= s@);
    assert(texts(out@) + lines_of(s@) =~= lines_of(s@));
    while i < chars.len()
        invariant
            chars@ == s@,
            start <= i <= chars@.len(),
            forall|j: int| start <= j < i ==> s@[j] != '\n',
            texts(out@) + lines_of(s@.skip(start as int)) == lines_of(s@),
        decreases chars@.len() - i,
    {
        if chars[i] == '\n' {
            let ghost rest = s@.skip(start as int);
            let ghost k = i - start;
            proof {
                rest.index_of_first_ensures('\n');
                assert(rest[k] == '\n');
                assert(rest.contains('\n'));
                assert(forall|j: int| 0 <= j < k ==> rest[j] == s@[start + j]);
                assert(rest.index_of_first('\n') == Some(k));
            }
            let end: usize = if i > start && chars[i - 1] == '\r' {
                i - 1
            } else {
                i
            };
            let line: String = text_between(&chars, start, end);
            assert(line@ =~= without_return(rest.take(k)));
            let ghost before = out@;
            out.push(line);
            start = i + 1;
            proof {
                assert(rest.skip(k + 1) =~= s@.skip(start as int));
                assert(texts(out@) =~= texts(before).push(line@));
                assert(texts(out@) + lines_of(s@.skip(start as int)) =~= texts(before) + lines_of(
                    rest,
                ));
            }
        }
        i += 1;
    }
    let ghost rest = s@.skip(start as int);
    proof {
        rest.index_of_first_ensures('\n');
        assert(forall|j: int| 0 <= j < rest.len() ==> rest[j] == s@[start + j]);
        assert(!rest.contains('\n'));
    }
    if start < chars.len() {
        let line: String = text_between(&chars, start, chars.len());
        let ghost before = out@;
        out.push(line);
        proof {
            assert(line@ =~= rest);
            assert(texts(out@) =~= texts(before).push(line@));
            assert(texts(out@) =~= texts(before) + lines_of(rest));
        }
    } else {
        assert(texts(out@) + lines_of(rest) =~= texts(out@));
    }
    out
}

/// Whether `c` is a decimal digit.
pub open spec fn is_digit(c: char) -> bool {
    '0' <= c <= '9'
}

/// The number that a row of digits writes.
pub open spec fn digits_value(s: Seq<char>) -> nat
    decreases s.len(),
{
    if s.len() == 0 {
        0
    } else {
        10 * digits_value(s.drop_last()) + (s.last() as nat - '0' as nat) as nat
    }
}

/// The digits of a number written with or without a leading plus.
pub open spec fn without_plus(s: Seq<char>) -> Seq<char> {
    if s.len() > 0 && s[0] == '+' {
        s.skip(1)
    } else {
        s
    }
}

/// The 64-bit number that `s` writes in decimal: one or more digits, perhaps
/// behind a plus.
pub open spec fn number_in(s: Seq<char>) -> Option<u64> {
    let digits = without_plus(s);
    if digits.len() > 0 && (forall|i: int| 0 <= i < digits.len() ==> is_digit(#[trigger] digits[i]))
        && digits_value(digits) <= u64::MAX {
        Some(digits_value(digits) as u64)
    } else {
        None
    }
}

/// More digits write no smaller number.
proof fn lemma_digits_grow(s: Seq<char>, i: int)
    requires
        0 <= i <= s.len(),
    ensures
        digits_value(s.take(i)) <= digits_value(s),
    decreases s.len() - i,
{
    if i < s.len() {
        assert(s.take(i + 1).drop_last() =~= s.take(i));
        lemma_digits_grow(s, i + 1);
    } else {
        assert(s.take(i) =~= s);
    }
}

/// Read a 64-bit number written in decimal.
pub fn parse_number(s: &str) -> (r: Option<u64>)
    ensures
        r == number_in(s@),
{
    let chars: Vec<char> = to_chars(s);
    let start: usize = if chars.len() > 0 && chars[0] == '+' {
        1
    } else {
        0
    };
    let ghost digits = without_plus(s@);
    if start == chars.len() {
        return None;
    }
    let mut value: u64 = 0;
    let mut i: usize = start;
    assert(s@.skip(0) =~= s@);
    while i < chars.len()
        invariant
            chars@ == s@,
            start <= i <= chars@.len(),
            digits == s@.skip(start as int),
            digits == without_plus(s@),
            value == digits_value(digits.take(i - start)),
            forall|j: int| 0 <= j < i - start ==> is_digit(#[trigger] digits[j]),
        decreases chars@.len() - i,
    {
        let c: char = chars[i];
        assert(digits[i - start] == c);
        if c < '0' || c > '9' {
            return None;
        }
        let d: u64 = (c as u8 - 48) as u64;
        proof {
            assert(digits.take(i + 1 - start).drop_last() =~= digits.take(i - start));
            lemma_digits_grow(digits, i + 1 - start);
        }
        if value > (u64::MAX - d) / 10 {
            return None;
        }
        value = 10 * value + d;
        i += 1;
    }
    assert(digits.take(i - start) =~= digits);
    Some(value)
}

/// A number in decimal is all digits, and they write the number.
proof fn lemma_decimal_digits(n: nat)
    ensures
        decimal(n).len() > 0,
        forall|i: int| 0 <= i < decimal(n).len() ==> is_digit(#[trigger] decimal(n)[i]),
        digits_value(decimal(n)) == n,
    decreases n,
{
    let d = n % 10;
    assert(digit(d) as nat == 48 + d);
    if n < 10 {
        assert(decimal(n).drop_last() =~= Seq::empty());
        assert(digits_value(decimal(n).drop_last()) == 0);
    } else {
        lemma_decimal_digits(n / 10);
        assert(decimal(n).drop_last() =~= decimal(n / 10));
        assert(decimal(n).last() == digit(d));
    }
}

/// A number comes back from its decimal form.
pub proof fn law_number_round_trip(n: u64)
    ensures
        number_in(decimal(n as nat)) == Some(n),
{
    lemma_decimal_digits(n as nat);
    assert(is_digit(decimal(n as nat)[0]));
}

/// The text that `str::to_lowercase` gives.
pub uninterp spec fn lower_case(s: Seq<char>) -> Seq<char>;

/// `str::to_lowercase`: the lower-case equivalent of a text, by Unicode. It is
/// a function of the text, named by [`lower_case`].
#[verifier::external_body]
pub(crate) fn lowered(s: &str) -> (r: String)
    ensures
        r@ == lower_case(s@),
{
    s.to_lowercase()
}

/// Filtering a list whose members all pass leaves it as it is.
pub proof fn lemma_filter_keeps_all<A>(s: Seq<A>, pass: spec_fn(A) -> bool)
    requires
        forall|i: int| 0 <= i < s.len() ==> pass(#[trigger] s[i]),
    ensures
        s.filter(pass) == s,
    decreases s.len(),
{
    reveal(Seq::filter);
    if s.len() > 0 {
        let init = s.drop_last();
        assert forall|i: int| 0 <= i < init.len() implies pass(#[trigger] init[i]) by {
            assert(init[i] == s[i]);
        }
        lemma_filter_keeps_all(init, pass);
        assert(pass(s[s.len() - 1]));
        assert(s =~= init.push(s.last()));
    }
}

/// A text is cut at its first separator: what stands before it has none, and
/// what follows is kept whole. Without a separator there is no cut.
pub proof fn law_cut_at_the_first(a: Seq<char>, b: Seq<char>, c: char)
    requires
        !a.contains(c),
    ensures
        cut_first(a.push(c) + b, c) == Some((a, b)),
        cut_first(a, c) is None,
{
    let s = a.push(c) + b;
    s.index_of_first_ensures(c);
    a.index_of_first_ensures(c);
    assert(s[a.len() as int] == c);
    let i = s.index_of_first(c).unwrap();
    if i < a.len() {
        assert(a[i] == s[i]);
        assert(a.contains(c));
    }
    assert(s.take(i) =~= a);
    assert(s.skip(i + 1) =~= b);
}

/// A text is cut at its last separator: what stands after it has none, and
/// what comes before is kept whole. Without a separator there is no cut.
pub proof fn law_cut_at_the_last(a: Seq<char>, b: Seq<char>, c: char)
    requires
        !b.contains(c),
    ensures
        cut_last(a.push(c) + b, c) == Some((a, b)),
        cut_last(b, c) is None,
{
    let s = a.push(c) + b;
    s.index_of_last_ensures(c);
    b.index_of_last_ensures(c);
    assert(s[a.len() as int] == c);
    let i = s.index_of_last(c).unwrap();
    if i > a.len() {
        assert(b[i - a.len() - 1] == s[i]);
        assert(b.contains(c));
    }
    assert(s.take(i) =~= a);
    assert(s.skip(i + 1) =~= b);
}

/// What a cut at the last separator gives, put together again, is the text,
/// and the part after it has no separator.
pub proof fn law_cut_last_joins(s: Seq<char>, c: char)
    requires
        cut_last(s, c) is Some,
    ensures
        s == cut_last(s, c).unwrap().0.push(c) + cut_last(s, c).unwrap().1,
        !cut_last(s, c).unwrap().1.contains(c),
{
    s.index_of_last_ensures(c);
    let i = s.index_of_last(c).unwrap();
    assert(s =~= s.take(i).push(c) + s.skip(i + 1));
    let b = s.skip(i + 1);
    if b.contains(c) {
        let k = choose|k: int| 0 <= k < b.len() && b[k] == c;
        assert(s[i + 1 + k] == c);
    }
}

/// What a cut at the first separator gives, put together again, is the text,
/// and the part before it has no separator.
pub proof fn law_cut_first_joins(s: Seq<char>, c: char)
    requires
        cut_first(s, c) is Some,
    ensures
        s == cut_first(s, c).unwrap().0.push(c) + cut_first(s, c).unwrap().1,
        !cut_first(s, c).unwrap().0.contains(c),
{
    s.index_of_first_ensures(c);
    let i = s.index_of_first(c).unwrap();
    assert(s =~= s.take(i).push(c) + s.skip(i + 1));
    let a = s.take(i);
    if a.contains(c) {
        let k = choose|k: int| 0 <= k < a.len() && a[k] == c;
        assert(s[k] == c);
    }
}

/// A text with something before it and something after it is found in the
/// whole.
pub proof fn law_part_is_found(a: Seq<char>, part: Seq<char>, b: Seq<char>)
    ensures
        contains_text(a + part + b, part),
{
    let whole = a + part + b;
    let i = a.len() as int;
    assert(whole.subrange(i, i + part.len()) =~= part);
    assert(occurs_at(whole, part, i));
}

/// What is found in a text is part of it. Gives what stands before and after.
pub proof fn law_found_is_part(whole: Seq<char>, part: Seq<char>) -> (r: (Seq<char>, Seq<char>))
    requires
        contains_text(whole, part),
    ensures
        whole == r.0 + part + r.1,
{
    let i = choose|i: int| #[trigger] occurs_at(whole, part, i);
    let a = whole.take(i);
    let b = whole.skip(i + part.len());
    assert(whole =~= a + part + b) by {
        let mid = whole.subrange(i, i + part.len());
        assert forall|k: int| 0 <= k < whole.len() implies whole[k] == (a + part + b)[k] by {
            if i <= k < i + part.len() {
                assert(mid[k - i] == whole[k]);
            }
        }
    }
    (a, b)
}

/// Leading white space goes, and nothing else.
pub proof fn law_only_leading_space_goes(space: Seq<char>, t: Seq<char>)
    requires
        forall|i: int| 0 <= i < space.len() ==> white_space(#[trigger] space[i]),
        t.len() == 0 || !white_space(t[0]),
    ensures
        trimmed_start(space + t) == t,
    decreases space.len(),
{
    let s = space + t;
    if space.len() == 0 {
        assert(s =~= t);
    } else {
        assert(s[0] == space[0]);
        assert(s.skip(1) =~= space.skip(1) + t);
        assert forall|i: int| 0 <= i < space.skip(1).len() implies white_space(
            #[trigger] space.skip(1)[i],
        ) by {
            assert(space.skip(1)[i] == space[i + 1]);
        }
        law_only_leading_space_goes(space.skip(1), t);
    }
}

/// A text is read line by line: what stands before the first line feed is the
/// first line, and the rest is read on its own. A carriage return before the
/// line feed belongs to neither.
pub proof fn law_first_line_first(line: Seq<char>, rest: Seq<char>)
    requires
        !line.contains('\n'),
    ensures
        line.len() == 0 || line.last() != '\r' ==> lines_of(line.push('\n') + rest) == seq![line]
            + lines_of(rest),
        lines_of(line.push('\r').push('\n') + rest) == seq![line] + lines_of(rest),
        line.len() > 0 ==> lines_of(line) == seq![line],
{
    let s = line.push('\n') + rest;
    law_cut_at_the_first(line, rest, '\n');
    s.index_of_first_ensures('\n');
    let i = s.index_of_first('\n').unwrap();
    assert(s.take(i) == line && s.skip(i + 1) == rest);
    let returned = line.push('\r');
    assert(!returned.contains('\n')) by {
        if returned.contains('\n') {
            let k = choose|k: int| 0 <= k < returned.len() && returned[k] == '\n';
            assert(line[k] == '\n');
        }
    }
    let t = returned.push('\n') + rest;
    law_cut_at_the_first(returned, rest, '\n');
    t.index_of_first_ensures('\n');
    let j = t.index_of_first('\n').unwrap();
    assert(t.take(j) == returned && t.skip(j + 1) == rest);
    assert(returned.drop_last() =~= line);
    line.index_of_first_ensures('\n');
}

/// A decimal grows by one digit at its end.
pub proof fn law_decimal_grows(n: nat, d: nat)
    requires
        n > 0,
        d < 10,
    ensures
        decimal(10 * n + d) == decimal(n).push((48 + d) as char),
        decimal(d) == seq![(48 + d) as char],
{
    assert((10 * n + d) / 10 == n && (10 * n + d) % 10 == d);
}

/// What is no row of digits is no number; a leading plus is no digit but
/// allowed.
pub proof fn law_only_digits_are_a_number(s: Seq<char>, i: int)
    requires
        0 <= i < s.len(),
        !('0' <= s[i] <= '9'),
        i > 0 || s[0] != '+',
    ensures
        number_in(s) is None,
        number_in(Seq::empty()) is None,
{
    let digits = without_plus(s);
    if s[0] == '+' {
        assert(digits[i - 1] == s[i]);
        assert(!is_digit(digits[i - 1]));
    } else {
        assert(!is_digit(digits[i]));
    }
}

/// A plus in front and zeros in front change no number, and one past the
/// largest of 64 bits is none.
pub proof fn law_number_with_a_prefix(n: nat)
    ensures
        n <= u64::MAX ==> number_in(seq!['+'] + decimal(n)) == Some(n as u64),
        n <= u64::MAX ==> number_in(seq!['0'] + decimal(n)) == Some(n as u64),
        n > u64::MAX ==> number_in(decimal(n)) is None,
{
    let digits = decimal(n);
    lemma_decimal_digits(n);
    assert((seq!['+'] + digits).skip(1) =~= digits);
    let zero = seq!['0'] + digits;
    lemma_leading_zero(digits);
    assert forall|i: int| 0 <= i < zero.len() implies is_digit(#[trigger] zero[i]) by {
        if i > 0 {
            assert(zero[i] == digits[i - 1]);
        }
    }
    assert(is_digit(digits[0]));
}

/// A zero in front adds nothing.
proof fn lemma_leading_zero(s: Seq<char>)
    ensures
        digits_value(seq!['0'] + s) == digits_value(s),
    decreases s.len(),
{
    let zero = seq!['0'] + s;
    if s.len() > 0 {
        assert(zero.drop_last() =~= seq!['0'] + s.drop_last());
        lemma_leading_zero(s.drop_last());
    } else {
        assert(zero.drop_last() =~= s);
    }
}

/// A decimal is made of digits alone.
pub proof fn law_decimal_is_digits(n: nat)
    ensures
        decimal(n).len() > 0,
        forall|i: int| 0 <= i < decimal(n).len() ==> '0' <= #[trigger] decimal(n)[i] <= '9',
{
    lemma_decimal_digits(n);
}

/// A negative number has a minus in front of its digits, any other its digits
/// alone.
pub proof fn law_minus_stands_in_front(n: nat)
    ensures
        signed_decimal(n as int) == decimal(n),
        n > 0 ==> signed_decimal(-n) == seq!['-'] + decimal(n),
{
}

} // verus!
