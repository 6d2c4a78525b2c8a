//! Text as sequences of characters: searching, splitting, trimming and
//! decimal numbers.

use vstd::prelude::*;

verus! {

/// `String::push` appends the given character to the end of the string.
pub assume_specification[ String::push ](s: &mut String, c: char)
    ensures
        final(s)@ == old(s)@.push(c),
;

/// The text behind an optional string slice.
pub open spec fn slice_text(s: Option<&str>) -> Option<Seq<char>> {
    match s {
        Some(t) => Some(t@),
        None => None,
    }
}

/// The text behind an optional string.
pub open spec fn string_text(s: Option<String>) -> Option<Seq<char>> {
    match s {
        Some(t) => Some(t@),
        None => None,
    }
}

/// The texts of a sequence of strings.
pub open spec fn texts(s: Seq<String>) -> Seq<Seq<char>> {
    s.map_values(|t: String| t@)
}

/// `s` holds `part` as a contiguous run of characters.
pub open spec fn occurs(part: Seq<char>, s: Seq<char>) -> bool {
    exists|i: int| occurs_at(part, s, i)
}

/// `part` stands in `s` at position `i`.
pub open spec fn occurs_at(part: Seq<char>, s: Seq<char>, i: int) -> bool {
    0 <= i && i + part.len() <= s.len() && s.subrange(i, i + part.len()) == part
}

/// The pieces between the separators, read from left to right; a text without
/// a separator is one piece.
pub open spec fn split(s: Seq<char>, separator: char) -> Seq<Seq<char>>
    decreases s.len(),
{
    if s.len() == 0 {
        seq![Seq::<char>::empty()]
    } else {
        let before = split(s.drop_last(), separator);
        if s.last() == separator {
            before.push(Seq::<char>::empty())
        } else {
            before.drop_last().push(before.last().push(s.last()))
        }
    }
}

/// What is left of `s` once every leading `c` is gone.
pub open spec fn without_leading(s: Seq<char>, c: char) -> Seq<char>
    decreases s.len(),
{
    if s.len() > 0 && s[0] == c {
        without_leading(s.drop_first(), c)
    } else {
        s
    }
}

/// The position of the first `c` in `s` at or behind `i`, or the end.
pub open spec fn first_from(s: Seq<char>, c: char, i: int) -> int
    decreases s.len() - i,
{
    if i >= s.len() {
        s.len() as int
    } else if s[i] == c {
        i
    } else {
        first_from(s, c, i + 1)
    }
}

/// What stands in `s` before the first `c`; all of it where there is none.
pub open spec fn before_first(s: Seq<char>, c: char) -> Seq<char> {
    s.take(first_from(s, c, 0))
}

/// The characters with Unicode's `White_Space` property.
pub open spec fn white_space(c: char) -> bool {
    ||| 0x09 <= c as u32 <= 0x0d
    ||| c as u32 == 0x20
    ||| c as u32 == 0x85
    ||| c as u32 == 0xa0
    ||| c as u32 == 0x1680
    ||| 0x2000 <= c as u32 <= 0x200a
    ||| c as u32 == 0x2028
    ||| c as u32 == 0x2029
    ||| c as u32 == 0x202f
    ||| c as u32 == 0x205f
    ||| c as u32 == 0x3000
}

/// `s` without the white space at its start.
pub open spec fn trimmed_start(s: Seq<char>) -> Seq<char>
    decreases s.len(),
{
    if s.len() > 0 && white_space(s[0]) {
        trimmed_start(s.drop_first())
    } else {
        s
    }
}

/// `s` without the white space at its end.
pub open spec fn trimmed_end(s: Seq<char>) -> Seq<char>
    decreases s.len(),
{
    if s.len() > 0 && white_space(s.last()) {
        trimmed_end(s.drop_last())
    } else {
        s
    }
}

/// `s` without the white space around it.
pub open spec fn trimmed(s: Seq<char>) -> Seq<char> {
    trimmed_end(trimmed_start(s))
}

pub open spec fn ascii_digit(c: char) -> bool {
    '0' <= c <= '9'
}

pub open spec fn ascii_letter(c: char) -> bool {
    ('a' <= c <= 'z') || ('A' <= c <= 'Z')
}

pub open spec fn ascii_hex_digit(c: char) -> bool {
    ascii_digit(c) || ('a' <= c <= 'f') || ('A' <= c <= 'F')
}

/// The lower-case form of an ASCII capital; every other character unchanged.
pub open spec fn ascii_lower(c: char) -> char {
    if 'A' <= c <= 'Z' {
        (c as u32 + 32) as char
    } else {
        c
    }
}

pub open spec fn ascii_lowercase(s: Seq<char>) -> Seq<char> {
    s.map_values(|c: char| ascii_lower(c))
}

/// `s` with every `from` turned into `to`.
pub open spec fn replaced(s: Seq<char>, from: char, to: char) -> Seq<char> {
    s.map_values(|c: char| if c == from { to } else { c })
}

/// The digits of `n` in base ten, without leading zeros.
pub open spec fn decimal(n: nat) -> Seq<char>
    decreases n,
{
    if n < 10 {
        seq![digit_char(n)]
    } else {
        decimal(n / 10).push(digit_char(n % 10))
    }
}

pub open spec fn digit_char(n: nat) -> char {
    (n + 48) as char
}

/// The number that a run of decimal digits denotes.
pub open spec fn decimal_value(s: Seq<char>) -> nat
    decreases s.len(),
{
    if s.len() == 0 {
        0
    } else {
        decimal_value(s.drop_last()) * 10 + (s.last() as u32 - '0' as u32) as nat
    }
}

/// The characters of `s`.
pub fn chars_of(s: &str) -> (r: Vec<char>)
    ensures
        r@ == s@,
{
    let mut out: Vec<char> = Vec::new();
    for c in iter: s.chars()
        invariant
            iter.seq() == s@,
            out@ == s@.take(iter.index()),
    {
        out.push(c);
    }
    out
}

/// The text made of the given characters.
pub fn string_of(chars: &Vec<char>) -> (r: String)
    ensures
        r@ == chars@,
{
    let mut out = String::new();
    let mut i: usize = 0;
    while i < chars.len()
        invariant
            i <= chars.len(),
            out@ == chars@.take(i as int),
        decreases chars.len() - i,
    {
        out.push(chars[i]);
        i += 1;
    }
    out
}

/// Whether two texts hold the same characters.
pub fn same_text(a: &str, b: &str) -> (r: bool)
    ensures
        r == (a@ == b@),
{
    let x = chars_of(a);
    let y = chars_of(b);
    same_chars(&x, &y)
}

/// Whether two runs of characters are the same.
pub fn same_chars(x: &Vec<char>, y: &Vec<char>) -> (r: bool)
    ensures
        r == (x@ == y@),
{
    if x.len() != y.len() {
        return false;
    }
    let mut i: usize = 0;
    while i < x.len()
        invariant
            i <= x.len() == y.len(),
            forall|j: int| 0 <= j < i ==> x[j] == y[j],
        decreases x.len() - i,
    {
        if x[i] != y[i] {
            return false;
        }
        i += 1;
    }
    assert(x@ =~= y@);
    true
}

/// Whether `part` stands in `s` at position `at`.
fn matches_at(s: &Vec<char>, part: &Vec<char>, at: usize) -> (r: bool)
    requires
        at + part.len() <= s.len(),
    ensures
        r == occurs_at(part@, s@, at as int),
{
    let mut i: usize = 0;
    while i < part.len()
        invariant
            i <= part.len(),
            at + part.len() <= s.len(),
            forall|j: int| 0 <= j < i ==> s[at + j] == part[j],
        decreases part.len() - i,
    {
        if s[at + i] != part[i] {
            assert(s@.subrange(at as int, at + part.len())[i as int] != part[i as int]);
            return false;
        }
        i += 1;
    }
    assert(s@.subrange(at as int, at + part.len()) =~= part@);
    true
}

/// Whether `s` begins with `prefix`.
pub fn starts_with(s: &str, prefix: &str) -> (r: bool)
    ensures
        r == prefix@.is_prefix_of(s@),
{
    let x = chars_of(s);
    let p = chars_of(prefix);
    p.len() <= x.len() && matches_at(&x, &p, 0)
}

/// Whether `s` ends with `suffix`.
pub fn ends_with(s: &str, suffix: &str) -> (r: bool)
    ensures
        r == suffix@.is_suffix_of(s@),
{
    let x = chars_of(s);
    let p = chars_of(suffix);
    p.len() <= x.len() && matches_at(&x, &p, x.len() - p.len())
}

/// Whether the character `c` occurs in `s`.
pub fn contains_char(s: &str, c: char) -> (r: bool)
    ensures
        r == s@.contains(c),
{
    let x = chars_of(s);
    let mut i: usize = 0;
    while i < x.len()
        invariant
            i <= x.len(),
            x@ == s@,
            forall|j: int| 0 <= j < i ==> x[j] != c,
        decreases x.len() - i,
    {
        if x[i] == c {
            assert(s@[i as int] == c);
            return true;
        }
        i += 1;
    }
    false
}

/// Whether `part` occurs in `s`.
pub fn contains_text(s: &str, part: &str) -> (r: bool)
    ensures
        r == occurs(part@, s@),
{
    let x = chars_of(s);
    let p = chars_of(part);
    let mut i: usize = 0;
    while p.len() <= x.len() && i <= x.len() - p.len()
        invariant
            i <= x.len() + 1,
            x@ == s@,
            p@ == part@,
            forall|j: int| 0 <= j < i ==> !occurs_at(part@, s@, j),
        decreases x.len() + 1 - i,
    {
        if matches_at(&x, &p, i) {
            return true;
        }
        if i == x.len() {
            assert(p.len() == 0);
            assert(forall|j: int| j > i ==> !occurs_at(part@, s@, j));
            return false;
        }
        i += 1;
    }
    false
}

/// The rest of `s` behind `prefix`, where `s` begins with it.
pub open spec fn stripped(s: Seq<char>, prefix: Seq<char>) -> Option<Seq<char>> {
    if prefix.is_prefix_of(s) {
        Some(s.skip(prefix.len() as int))
    } else {
        None
    }
}

/// The rest of `s` behind `prefix`, where `s` begins with it.
pub fn strip_prefix<'a>(s: &'a str, prefix: &str) -> (r: Option<&'a str>)
    ensures
        slice_text(r) == stripped(s@, prefix@),
{
    if starts_with(s, prefix) {
        let rest = s.substring_char(prefix.unicode_len(), s.unicode_len());
        assert(rest@ =~= s@.skip(prefix@.len() as int));
        Some(rest)
    } else {
        None
    }
}

/// `s` without the leading occurrences of `c`.
pub fn trim_leading(s: &str, c: char) -> (r: &str)
    ensures
        r@ == without_leading(s@, c),
{
    let x = chars_of(s);
    let mut i: usize = 0;
    proof {
        assert(s@.skip(0) =~= s@);
    }
    while i < x.len() && x[i] == c
        invariant
            i <= x.len(),
            x@ == s@,
            without_leading(s@, c) == without_leading(s@.skip(i as int), c),
        decreases x.len() - i,
    {
        assert(s@.skip(i as int).drop_first() =~= s@.skip(i + 1));
        i += 1;
    }
    let rest = s.substring_char(i, x.len());
    assert(rest@ =~= s@.skip(i as int));
    rest
}

/// What stands in `s` before the first `c`.
pub fn cut_before(s: &str, c: char) -> (r: &str)
    ensures
        r@ == before_first(s@, c),
{
    let x = chars_of(s);
    let mut i: usize = 0;
    while i < x.len() && x[i] != c
        invariant
            i <= x.len(),
            x@ == s@,
            first_from(s@, c, 0) == first_from(s@, c, i as int),
        decreases x.len() - i,
    {
        i += 1;
    }
    let head = s.substring_char(0, i);
    assert(head@ =~= s@.take(i as int));
    head
}

/// Whether `c` is white space.
pub fn is_white_space(c: char) -> (r: bool)
    ensures
        r == white_space(c),
{
    let n = c as u32;
    (0x09 <= n && n <= 0x0d) || n == 0x20 || n == 0x85 || n == 0xa0 || n == 0x1680 || (0x2000 <= n
        && n <= 0x200a) || n == 0x2028 || n == 0x2029 || n == 0x202f || n == 0x205f || n == 0x3000
}

/// `s` without the white space around it.
pub fn trim(s: &str) -> (r: &str)
    ensures
        r@ == trimmed(s@),
{
    let x = chars_of(s);
    let mut from: usize = 0;
    proof {
        assert(s@.skip(0) =~= s@);
    }
    while from < x.len() && is_white_space(x[from])
        invariant
            from <= x.len(),
            x@ == s@,
            trimmed_start(s@) == trimmed_start(s@.skip(from as int)),
        decreases x.len() - from,
    {
        assert(s@.skip(from as int).drop_first() =~= s@.skip(from + 1));
        from += 1;
    }
    let ghost start = s@.skip(from as int);
    let mut to: usize = x.len();
    proof {
        assert(start == trimmed_start(s@));
        assert(start =~= s@.subrange(from as int, to as int));
    }
    while from < to && is_white_space(x[to - 1])
        invariant
            from <= to <= x.len(),
            x@ == s@,
            trimmed(s@) == trimmed_end(s@.subrange(from as int, to as int)),
        decreases to,
    {
        assert(s@.subrange(from as int, to as int).drop_last() =~= s@.subrange(
            from as int,
            to - 1,
        ));
        to -= 1;
    }
    s.substring_char(from, to)
}

/// `s` with its ASCII capitals in lower case.
pub fn to_ascii_lowercase(s: &str) -> (r: String)
    ensures
        r@ == ascii_lowercase(s@),
{
    let mut out = String::new();
    for c in iter: s.chars()
        invariant
            iter.seq() == s@,
            out@ == ascii_lowercase(s@).take(iter.index()),
    {
        out.push(lower_char(c));
    }
    assert(out@ =~= ascii_lowercase(s@));
    out
}

fn lower_char(c: char) -> (r: char)
    ensures
        r == ascii_lower(c),
{
    if 'A' <= c && c <= 'Z' {
        ((c as u8) + 32) as char
    } else {
        c
    }
}

/// `s` with every `from` turned into `to`.
pub fn replace_char(s: &str, from: char, to: char) -> (r: String)
    ensures
        r@ == replaced(s@, from, to),
{
    let mut out = String::new();
    for c in iter: s.chars()
        invariant
            iter.seq() == s@,
            out@ == replaced(s@, from, to).take(iter.index()),
    {
        out.push(if c == from { to } else { c });
    }
    assert(out@ =~= replaced(s@, from, to));
    out
}

/// The pieces of `s` between the separators.
pub fn split_text(s: &str, separator: char) -> (r: Vec<Vec<char>>)
    ensures
        r@.map_values(|p: Vec<char>| p@) == split(s@, separator),
        r.len() > 0,
{
    let mut out: Vec<Vec<char>> = Vec::new();
    let mut piece: Vec<char> = Vec::new();
    for c in iter: s.chars()
        invariant
            iter.seq() == s@,
            out@.map_values(|p: Vec<char>| p@).push(piece@) == split(
                s@.take(iter.index()),
                separator,
            ),
    {
        proof {
            assert(s@.take(iter.index() + 1).drop_last() =~= s@.take(iter.index()));
        }
        let ghost before = out@.map_values(|p: Vec<char>| p@).push(piece@);
        assert(before.drop_last() =~= out@.map_values(|p: Vec<char>| p@));
        if c == separator {
            let ghost done = out@;
            out.push(piece);
            proof {
                assert(out@.map_values(|p: Vec<char>| p@) =~= done.map_values(
                    |p: Vec<char>| p@,
                ).push(piece@));
            }
            piece = Vec::new();
        } else {
            piece.push(c);
        }
    }
    let ghost done = out@;
    out.push(piece);
    proof {
        assert(s@.take(s@.len() as int) =~= s@);
        assert(out@.map_values(|p: Vec<char>| p@) =~= done.map_values(|p: Vec<char>| p@).push(
            piece@,
        ));
    }
    out
}

/// Whether one of the pieces of `s` between the separators is `wanted`.
pub fn has_piece(s: &str, separator: char, wanted: &str) -> (r: bool)
    ensures
        r == split(s@, separator).contains(wanted@),
{
    let pieces = split_text(s, separator);
    let target = chars_of(wanted);
    let ghost view = pieces@.map_values(|p: Vec<char>| p@);
    let mut i: usize = 0;
    while i < pieces.len()
        invariant
            i <= pieces.len(),
            target@ == wanted@,
            view == pieces@.map_values(|p: Vec<char>| p@),
            view == split(s@, separator),
            forall|j: int| 0 <= j < i ==> view[j] != wanted@,
        decreases pieces.len() - i,
    {
        assert(view[i as int] == pieces[i as int]@);
        if same_chars(&pieces[i], &target) {
            return true;
        }
        i += 1;
    }
    false
}

/// `n` in base ten.
pub fn decimal_text(n: u64) -> (r: String)
    ensures
        r@ == decimal(n as nat),
    decreases n,
{
    let digit = digit_of((n % 10) as u8);
    if n < 10 {
        let mut out = String::new();
        out.push(digit);
        assert(out@ =~= seq![digit_char(n as nat)]);
        out
    } else {
        let mut out = decimal_text(n / 10);
        out.push(digit);
        out
    }
}

fn digit_of(n: u8) -> (r: char)
    requires
        n < 10,
    ensures
        r == digit_char(n as nat),
{
    (n + 48) as char
}

/// The texts of `a` and `b` one after the other.
pub fn joined(a: &str, b: &str) -> (r: String)
    ensures
        r@ == a@ + b@,
{
    let mut out = a.to_owned();
    out.append(b);
    out
}

/// Numbers are written in digits alone.
pub proof fn lemma_decimal_digits(n: nat)
    ensures
        decimal(n).len() > 0,
        forall|i: int| 0 <= i < decimal(n).len() ==> ascii_digit(#[trigger] decimal(n)[i]),
    decreases n,
{
    if n >= 10 {
        lemma_decimal_digits(n / 10);
    }
}

/// Different numbers are written differently.
pub proof fn lemma_decimal_injective(a: nat, b: nat)
    requires
        decimal(a) == decimal(b),
    ensures
        a == b,
    decreases a,
{
    lemma_decimal_digits(a / 10);
    lemma_decimal_digits(b / 10);
    assert(decimal(a).last() == digit_char(a % 10));
    assert(decimal(b).last() == digit_char(b % 10));
    if a >= 10 {
        assert(decimal(a).drop_last() =~= decimal(a / 10));
        assert(decimal(b).len() > 1);
        assert(decimal(b).drop_last() =~= decimal(b / 10));
        lemma_decimal_injective(a / 10, b / 10);
    } else if b >= 10 {
        assert(decimal(b).len() > 1);
    }
}

/// A position before which `c` does not occur, and which holds it or is the
/// end, is the first.
pub proof fn lemma_first_from(s: Seq<char>, c: char, i: int, k: int)
    requires
        0 <= i <= k <= s.len(),
        forall|j: int| i <= j < k ==> #[trigger] s[j] != c,
        k < s.len() ==> s[k] == c,
    ensures
        first_from(s, c, i) == k,
    decreases k - i,
{
    if i < k {
        lemma_first_from(s, c, i + 1, k);
    }
}

/// The first position of `c` is one that holds it, or the end.
pub proof fn lemma_first_is(s: Seq<char>, c: char, i: int)
    requires
        0 <= i <= s.len(),
    ensures
        i <= first_from(s, c, i) <= s.len(),
        first_from(s, c, i) < s.len() ==> s[first_from(s, c, i)] == c,
        forall|j: int| i <= j < first_from(s, c, i) ==> #[trigger] s[j] != c,
    decreases s.len() - i,
{
    if i < s.len() && s[i] != c {
        lemma_first_is(s, c, i + 1);
    }
}

/// Two numbers with a hyphen between them can be told apart again.
pub proof fn lemma_decimal_pair(a: nat, b: nat, c: nat, d: nat)
    requires
        decimal(a) + "-"@ + decimal(b) == decimal(c) + "-"@ + decimal(d),
    ensures
        a == c,
        b == d,
{
    reveal_strlit("-");
    lemma_decimal_digits(a);
    lemma_decimal_digits(c);
    let x = decimal(a);
    let y = decimal(c);
    let left = x + "-"@ + decimal(b);
    let right = y + "-"@ + decimal(d);
    assert(left[x.len() as int] == '-');
    assert(right[y.len() as int] == '-');
    if x.len() < y.len() {
        assert(right[x.len() as int] == y[x.len() as int]);
    } else if y.len() < x.len() {
        assert(left[y.len() as int] == x[y.len() as int]);
    }
    assert(x =~= left.take(x.len() as int));
    assert(y =~= right.take(y.len() as int));
    assert(decimal(b) =~= left.skip(x.len() as int + 1));
    assert(decimal(d) =~= right.skip(y.len() as int + 1));
    lemma_decimal_injective(a, c);
    lemma_decimal_injective(b, d);
}

pub proof fn lemma_space_before(pad: Seq<char>, s: Seq<char>)
    requires
        forall|i: int| 0 <= i < pad.len() ==> white_space(#[trigger] pad[i]),
    ensures
        trimmed_start(pad + s) == trimmed_start(s),
    decreases pad.len(),
{
    if pad.len() == 0 {
        assert(pad + s =~= s);
    } else {
        assert((pad + s).drop_first() =~= pad.drop_first() + s);
        assert forall|i: int| 0 <= i < pad.drop_first().len() implies white_space(
            #[trigger] pad.drop_first()[i],
        ) by {
            assert(pad.drop_first()[i] == pad[i + 1]);
        }
        lemma_space_before(pad.drop_first(), s);
    }
}

proof fn lemma_space_after(s: Seq<char>, pad: Seq<char>)
    requires
        forall|i: int| 0 <= i < pad.len() ==> white_space(#[trigger] pad[i]),
    ensures
        trimmed_end(s + pad) == trimmed_end(s),
    decreases pad.len(),
{
    if pad.len() == 0 {
        assert(s + pad =~= s);
    } else {
        assert((s + pad).drop_last() =~= s + pad.drop_last());
        assert((s + pad).last() == pad[pad.len() - 1]);
        lemma_space_after(s, pad.drop_last());
    }
}

/// Trimming a text gives what stands between the white space around it, and
/// nothing where there is only white space.
pub proof fn law_trimmed_is_what_stands_between(
    before: Seq<char>,
    inner: Seq<char>,
    after: Seq<char>,
)
    requires
        forall|i: int| 0 <= i < before.len() ==> white_space(#[trigger] before[i]),
        forall|i: int| 0 <= i < after.len() ==> white_space(#[trigger] after[i]),
        inner.len() > 0 ==> !white_space(inner[0]) && !white_space(inner.last()),
    ensures
        trimmed(before + inner + after) == inner,
{
    let rest = inner + after;
    assert(before + inner + after =~= before + rest);
    lemma_space_before(before, rest);
    if inner.len() > 0 {
        assert(rest[0] == inner[0]);
        assert(trimmed_start(rest) == rest);
        lemma_space_after(inner, after);
    } else {
        let none = Seq::<char>::empty();
        assert(rest =~= after + none);
        lemma_space_before(after, none);
        assert(trimmed(before + inner + after) =~= none);
    }
}

pub proof fn lemma_split_is_not_empty(s: Seq<char>, c: char)
    ensures
        split(s, c).len() > 0,
    decreases s.len(),
{
    if s.len() > 0 {
        lemma_split_is_not_empty(s.drop_last(), c);
    }
}

/// What holds no separator lengthens the last piece.
pub proof fn lemma_last_piece(s: Seq<char>, tail: Seq<char>, c: char)
    requires
        !tail.contains(c),
    ensures
        split(s + tail, c) == split(s, c).drop_last().push(split(s, c).last() + tail),
    decreases tail.len(),
{
    lemma_split_is_not_empty(s, c);
    let pieces = split(s, c);
    if tail.len() == 0 {
        assert(s + tail =~= s);
        assert(pieces.last() + tail =~= pieces.last());
        assert(pieces.drop_last().push(pieces.last()) =~= pieces);
    } else {
        let less = tail.drop_last();
        assert forall|i: int| 0 <= i < less.len() implies less[i] != c by {
            assert(tail[i] == less[i]);
            assert(tail.contains(tail[i]));
        }
        lemma_last_piece(s, less, c);
        assert((s + tail).drop_last() =~= s + less);
        assert(tail.contains(tail.last()));
        let before = split(s + less, c);
        assert(before.drop_last() =~= pieces.drop_last());
        assert((pieces.last() + less).push(tail.last()) =~= pieces.last() + tail);
    }
}

/// A text begins and ends with what it was put together from.
pub proof fn lemma_framed(head: Seq<char>, name: Seq<char>, tail: Seq<char>)
    ensures
        head.is_prefix_of(head + name + tail),
        tail.is_suffix_of(head + name + tail),
{
    let whole = head + name + tail;
    assert(head =~= whole.subrange(0, head.len() as int));
    assert(tail =~= whole.subrange(whole.len() - tail.len(), whole.len() as int));
}

/// A text does not end with another one where the two differ in a character at
/// the same distance from the end.
pub proof fn lemma_not_suffix(suffix: Seq<char>, tail: Seq<char>, whole: Seq<char>, back: int)
    requires
        tail.is_suffix_of(whole),
        1 <= back <= suffix.len(),
        back <= tail.len(),
        suffix[suffix.len() - back] != tail[tail.len() - back],
    ensures
        !suffix.is_suffix_of(whole),
{
    assert(tail[tail.len() - back] == whole.subrange(
        whole.len() - tail.len(),
        whole.len() as int,
    )[tail.len() - back]);
    if suffix.is_suffix_of(whole) {
        assert(suffix[suffix.len() - back] == whole.subrange(
            whole.len() - suffix.len(),
            whole.len() as int,
        )[suffix.len() - back]);
    }
}

/// A text without the separator is one piece.
pub proof fn law_text_without_separator_is_one_piece(s: Seq<char>, c: char)
    requires
        !s.contains(c),
    ensures
        split(s, c) == seq![s],
{
    let none = Seq::<char>::empty();
    assert(split(none, c) =~= seq![none]);
    lemma_last_piece(none, s, c);
    assert(none + s =~= s);
    assert(split(s, c) =~= seq![s]);
}

/// The pieces on the two sides of a separator are the pieces of the whole.
pub proof fn law_separator_parts_the_pieces(a: Seq<char>, c: char, b: Seq<char>)
    ensures
        split(a + seq![c] + b, c) == split(a, c) + split(b, c),
    decreases b.len(),
{
    let none = Seq::<char>::empty();
    lemma_split_is_not_empty(b, c);
    if b.len() == 0 {
        assert(a + seq![c] + b =~= a.push(c));
        assert(a.push(c).drop_last() =~= a);
        assert(split(b, c) =~= seq![none]);
        assert(split(a.push(c), c) =~= split(a, c) + split(b, c));
    } else {
        let less = b.drop_last();
        lemma_split_is_not_empty(less, c);
        law_separator_parts_the_pieces(a, c, less);
        let whole = a + seq![c] + b;
        assert(whole.drop_last() =~= a + seq![c] + less);
        assert(whole.last() == b.last());
        let before = split(a, c) + split(less, c);
        assert(before.last() == split(less, c).last());
        assert(split(whole, c) =~= split(a, c) + split(b, c));
    }
}

/// Every piece stands in the text as it is, the last one at its end.
pub proof fn lemma_piece_is_part(s: Seq<char>, c: char, k: int)
    requires
        0 <= k < split(s, c).len(),
    ensures
        occurs(split(s, c)[k], s),
        k == split(s, c).len() - 1 ==> split(s, c)[k].is_suffix_of(s),
    decreases s.len(),
{
    let piece = split(s, c)[k];
    if s.len() == 0 {
        assert(s.subrange(0, 0) =~= piece);
        assert(occurs_at(piece, s, 0));
    } else {
        let less = s.drop_last();
        let before = split(less, c);
        lemma_split_is_not_empty(less, c);
        if k < before.len() - 1 || s.last() == c && k < before.len() {
            lemma_piece_is_part(less, c, k);
            let i = choose|i: int| occurs_at(before[k], less, i);
            assert(s.subrange(i, i + piece.len()) =~= less.subrange(i, i + piece.len()));
            assert(occurs_at(piece, s, i));
        } else if s.last() == c {
            assert(s.subrange(s.len() as int, s.len() as int) =~= piece);
            assert(occurs_at(piece, s, s.len() as int));
        } else {
            lemma_piece_is_part(less, c, k);
            let i = s.len() - piece.len();
            assert(piece == before[k].push(s.last()));
            assert(less.subrange(less.len() - before[k].len(), less.len() as int) == before[k]);
            assert(s.subrange(i, s.len() as int) =~= piece);
            assert(occurs_at(piece, s, i));
        }
    }
}

/// Lowering the case changes the letters from `A` to `Z` and nothing else.
pub proof fn law_only_capitals_are_lowered(s: Seq<char>, i: int)
    requires
        0 <= i < s.len(),
    ensures
        ascii_lowercase(s).len() == s.len(),
        'A' <= s[i] <= 'Z' ==> ascii_lowercase(s)[i] as u32 == s[i] as u32 + 32,
        !('A' <= s[i] <= 'Z') ==> ascii_lowercase(s)[i] == s[i],
{
}

/// What stands behind a prefix is all that is left when it is taken off, and nothing
/// is taken off a text that does not begin with it.
pub proof fn law_prefix_is_taken_off_whole<'a>(
    s: &'a str,
    prefix: &str,
    rest: Seq<char>,
    r: Option<&'a str>,
)
    requires
        call_ensures(strip_prefix, (s, prefix), r),
    ensures
        s@ == prefix@ + rest ==> (r matches Some(left) && left@ == rest),
        r matches Some(left) ==> s@ == prefix@ + left@,
{
    if s@ == prefix@ + rest {
        assert(s@.subrange(0, prefix@.len() as int) =~= prefix@);
        assert(s@.skip(prefix@.len() as int) =~= rest);
    }
    if let Some(left) = r {
        assert(s@ =~= prefix@ + left@);
    }
}

/// Every one of the characters at the start is taken off, and no more.
pub proof fn law_leading_characters_are_all_dropped(
    s: &str,
    c: char,
    count: nat,
    rest: Seq<char>,
    r: &str,
)
    requires
        s@ == Seq::new(count, |i: int| c) + rest,
        rest.len() > 0 ==> rest[0] != c,
        call_ensures(trim_leading, (s, c), r),
    ensures
        r@ == rest,
{
    lemma_leading_dropped(c, count, rest);
}

proof fn lemma_leading_dropped(c: char, count: nat, rest: Seq<char>)
    requires
        rest.len() > 0 ==> rest[0] != c,
    ensures
        without_leading(Seq::new(count, |i: int| c) + rest, c) == rest,
    decreases count,
{
    let whole = Seq::new(count, |i: int| c) + rest;
    if count == 0 {
        assert(whole =~= rest);
    } else {
        let less = (count - 1) as nat;
        lemma_leading_dropped(c, less, rest);
        assert(whole.drop_first() =~= Seq::new(less, |i: int| c) + rest);
    }
}

/// A text is cut at the first of the characters, and is whole where there is none.
pub proof fn law_text_is_cut_at_the_first(
    s: &str,
    c: char,
    head: Seq<char>,
    rest: Seq<char>,
    r: &str,
)
    requires
        !head.contains(c),
        s@ == head || s@ == head + seq![c] + rest,
        call_ensures(cut_before, (s, c), r),
    ensures
        r@ == head,
{
    let n = head.len() as int;
    assert forall|j: int| 0 <= j < n implies #[trigger] s@[j] != c by {
        assert(s@[j] == head[j]);
        assert(head.contains(head[j]));
    }
    lemma_first_from(s@, c, 0, n);
    assert(s@.take(n) =~= head);
}

/// Trimming leaves what stands between the white space around a text.
pub proof fn law_trimmed_text_stands_between(
    s: &str,
    before: Seq<char>,
    inner: Seq<char>,
    after: Seq<char>,
    r: &str,
)
    requires
        forall|i: int| 0 <= i < before.len() ==> white_space(#[trigger] before[i]),
        forall|i: int| 0 <= i < after.len() ==> white_space(#[trigger] after[i]),
        inner.len() > 0 ==> !white_space(inner[0]) && !white_space(inner.last()),
        s@ == before + inner + after,
        call_ensures(trim, (s,), r),
    ensures
        r@ == inner,
{
    law_trimmed_is_what_stands_between(before, inner, after);
}

/// Within ASCII the white space is the space and the characters from the tabulator to
/// the carriage return.
pub proof fn law_ascii_white_space(c: char)
    requires
        c as u32 <= 127,
    ensures
        white_space(c) <==> c as u32 == 32 || 9 <= c as u32 <= 13,
{
}

/// A number is written with its decimal digits: read again they denote it, and no
/// zero stands in front.
pub proof fn law_decimal_text_denotes_its_number(n: u64, r: String)
    requires
        call_ensures(decimal_text, (n,), r),
    ensures
        decimal_value(r@) == n,
        forall|i: int| 0 <= i < r@.len() ==> '0' <= #[trigger] r@[i] <= '9',
        r@.len() > 1 ==> r@[0] != '0',
{
    lemma_decimal_digits(n as nat);
    lemma_decimal_denotes(n as nat);
}

/// The digits of a number denote it.
pub proof fn lemma_decimal_denotes(n: nat)
    ensures
        decimal_value(decimal(n)) == n,
        decimal(n).len() > 1 ==> decimal(n)[0] != '0',
        n > 0 ==> decimal(n)[0] != '0',
    decreases n,
{
    lemma_decimal_digits(n);
    if n < 10 {
        assert(decimal(n).drop_last() =~= Seq::<char>::empty());
        assert(decimal_value(decimal(n).drop_last()) == 0);
    } else {
        lemma_decimal_denotes(n / 10);
        lemma_decimal_digits(n / 10);
        assert(decimal(n).drop_last() =~= decimal(n / 10));
        assert(decimal(n)[0] == decimal(n / 10)[0]);
    }
}

/// A part is found wherever it stands in a text, and is found only where it stands.
pub proof fn law_part_is_found_anywhere(
    s: &str,
    part: &str,
    before: Seq<char>,
    after: Seq<char>,
    r: bool,
)
    requires
        call_ensures(contains_text, (s, part), r),
    ensures
        s@ == before + part@ + after ==> r,
        r ==> exists|i: int| s@ == #[trigger] s@.take(i) + part@ + s@.skip(i + part@.len()),
{
    if s@ == before + part@ + after {
        let i = before.len() as int;
        assert(s@.subrange(i, i + part@.len()) =~= part@);
        assert(occurs_at(part@, s@, i));
    }
    if r {
        let i = choose|i: int| occurs_at(part@, s@, i);
        assert(s@ =~= s@.take(i) + part@ + s@.skip(i + part@.len()));
    }
}

} // verus!
