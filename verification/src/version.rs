//! Version numbers and their order.

use crate::outside::{
    capture_first_group, decimal_digit, digit_run, dotted_number, first_group, first_version,
    version_at, VERSION_PATTERN,
};
use crate::text::{
    ascii_digit, decimal, decimal_value, lemma_decimal_denotes, lemma_decimal_digits,
    lemma_last_piece, lemma_space_before, lemma_split_is_not_empty, split, split_text, string_text, trim, trim_leading, trimmed,
    trimmed_end, trimmed_start, white_space, without_leading,
};
use vstd::prelude::*;

verus! {

/// The digits that `s` begins with.
pub open spec fn leading_digits(s: Seq<char>) -> Seq<char>
    decreases s.len(),
{
    if s.len() > 0 && ascii_digit(s[0]) {
        seq![s[0]] + leading_digits(s.drop_first())
    } else {
        Seq::empty()
    }
}

/// The number that a part of a version begins with, where there is one and it
/// fits in 32 bits.
pub open spec fn part_number(part: Seq<char>) -> Option<u32> {
    let digits = leading_digits(part);
    if digits.len() > 0 && decimal_value(digits) <= u32::MAX {
        Some(decimal_value(digits) as u32)
    } else {
        None
    }
}

/// The numbers of a version: its parts between dots, without white space
/// around the whole and without a leading `v`; a part without number is left
/// out.
pub open spec fn version_numbers(s: Seq<char>) -> Seq<u32> {
    split(without_leading(trimmed(s), 'v'), '.').filter_map(|part: Seq<char>| part_number(part))
}

/// The number at position `i`, zero behind the end.
pub open spec fn number_at(v: Seq<u32>, i: int) -> u32 {
    if 0 <= i < v.len() {
        v[i]
    } else {
        0
    }
}

/// The first position at which `a` and `b` differ is `i`, and `a` is greater
/// there.
pub open spec fn exceeds_at(a: Seq<u32>, b: Seq<u32>, i: int) -> bool {
    &&& 0 <= i
    &&& number_at(a, i) > number_at(b, i)
    &&& forall|j: int| 0 <= j < i ==> #[trigger] number_at(a, j) == number_at(b, j)
}

/// `a` is a later version than `b`, number by number; versions without any
/// number are not compared.
pub open spec fn later(a: Seq<u32>, b: Seq<u32>) -> bool {
    a.len() > 0 && b.len() > 0 && exists|i: int| exceeds_at(a, b, i)
}

/// The version that a tag or a file name holds, such as `3.1.1` in `v3.1.1`.
pub fn extract_version(value: &str) -> (r: Option<String>)
    ensures
        string_text(r) == first_group(VERSION_PATTERN@, value@),
        first_version(value@, string_text(r)),
{
    capture_first_group(VERSION_PATTERN, value)
}

/// A character of a text is the separator or stands in one of the pieces.
proof fn lemma_character_in_piece(s: Seq<char>, c: char, i: int)
    requires
        0 <= i < s.len(),
        s[i] != c,
    ensures
        exists|p: int, k: int|
            0 <= p < split(s, c).len() && 0 <= k < split(s, c)[p].len() && #[trigger] split(
                s,
                c,
            )[p][k] == s[i],
    decreases s.len(),
{
    let less = s.drop_last();
    let before = split(less, c);
    let after = split(s, c);
    lemma_split_is_not_empty(less, c);
    if i == s.len() - 1 {
        assert(after[after.len() - 1][before.last().len() as int] == s[i]);
    } else {
        lemma_character_in_piece(less, c, i);
        let (p, k) = choose|p: int, k: int|
            0 <= p < before.len() && 0 <= k < before[p].len() && #[trigger] before[p][k]
                == less[i];
        assert(after[p][k] == s[i]);
    }
}

/// A version that is found consists of digits and dots, and ends where its
/// digits end: no digit of any script stands behind it, nor a dot and a digit.
pub proof fn law_found_version_is_whole(value: Seq<char>, version: Seq<char>)
    requires
        first_version(value, Some(version)),
    ensures
        forall|i: int|
            0 <= i < version.len() ==> (#[trigger] version[i]) == '.' || decimal_digit(version[i]),
        exists|at: int|
            {
                let end = at + 1 + version.len();
                &&& #[trigger] version_at(value, at, version)
                &&& end < value.len() ==> !decimal_digit(value[end])
                &&& end + 1 < value.len() && value[end] == '.' ==> !decimal_digit(value[end + 1])
            },
{
    let at = choose|at: int|
        {
            &&& #[trigger] version_at(value, at, version)
            &&& forall|i: int, t: Seq<char>| #[trigger] version_at(value, i, t) ==> at <= i
            &&& forall|t: Seq<char>| #[trigger] version_at(value, at, t) ==> t.len() <= version.len()
        };
    assert forall|i: int| 0 <= i < version.len() implies (#[trigger] version[i]) == '.'
        || decimal_digit(version[i]) by {
        if version[i] != '.' {
            lemma_character_in_piece(version, '.', i);
            let (p, k) = choose|p: int, k: int|
                0 <= p < split(version, '.').len() && 0 <= k < split(version, '.')[p].len()
                    && #[trigger] split(version, '.')[p][k] == version[i];
            assert(digit_run(split(version, '.')[p]));
        }
    }
    let end = at + 1 + version.len();
    if end < value.len() && decimal_digit(value[end]) {
        let longer = version.push(value[end]);
        lemma_digit_continues(version, value[end]);
        assert(value.subrange(at + 1, at + 1 + longer.len()) =~= longer);
        assert(version_at(value, at, longer));
    }
    if end + 1 < value.len() && value[end] == '.' && decimal_digit(value[end + 1]) {
        let longer = version.push('.').push(value[end + 1]);
        lemma_part_continues(version, value[end + 1]);
        assert(value.subrange(at + 1, at + 1 + longer.len()) =~= longer);
        assert(version_at(value, at, longer));
    }
}

/// A version with a further digit is a version.
proof fn lemma_digit_continues(version: Seq<char>, digit: char)
    requires
        dotted_number(version),
        decimal_digit(digit),
    ensures
        dotted_number(version.push(digit)),
{
    let before = split(version, '.');
    let after = split(version.push(digit), '.');
    assert(version.push(digit).drop_last() =~= version);
    assert(after =~= before.drop_last().push(before.last().push(digit)));
    assert forall|i: int| 0 <= i < after.len() implies digit_run(#[trigger] after[i]) by {
        assert(digit_run(before[i]));
    }
}

/// A version with a further part of one digit is a version.
proof fn lemma_part_continues(version: Seq<char>, digit: char)
    requires
        dotted_number(version),
        decimal_digit(digit),
    ensures
        dotted_number(version.push('.').push(digit)),
{
    let before = split(version, '.');
    let dotted = version.push('.');
    let after = split(dotted.push(digit), '.');
    assert(dotted.drop_last() =~= version);
    assert(dotted.push(digit).drop_last() =~= dotted);
    assert(split(dotted, '.') =~= before.push(Seq::<char>::empty()));
    assert(after =~= before.push(seq![digit])) by {
        assert(Seq::<char>::empty().push(digit) =~= seq![digit]);
    }
    assert forall|i: int| 0 <= i < after.len() implies digit_run(#[trigger] after[i]) by {
        if i < before.len() {
            assert(digit_run(before[i]));
        }
    }
}

/// The number that a part begins with.
fn parse_part(part: &Vec<char>) -> (r: Option<u32>)
    ensures
        r == part_number(part@),
{
    let mut i: usize = 0;
    let mut value: u64 = 0;
    proof {
        assert(part@.skip(0) =~= part@);
        assert(part@.take(0) + leading_digits(part@.skip(0)) =~= leading_digits(part@));
    }
    while i < part.len() && '0' <= part[i] && part[i] <= '9'
        invariant
            i <= part.len(),
            leading_digits(part@) == part@.take(i as int) + leading_digits(part@.skip(i as int)),
            value <= u32::MAX ==> value == decimal_value(part@.take(i as int)),
            value > u32::MAX ==> decimal_value(part@.take(i as int)) > u32::MAX,
            value <= u32::MAX as u64 * 10 + 9,
        decreases part.len() - i,
    {
        proof {
            assert(part@.skip(i as int).drop_first() =~= part@.skip(i + 1));
            assert(part@.take(i + 1) =~= part@.take(i as int).push(part@[i as int]));
            assert(part@.take(i + 1).drop_last() =~= part@.take(i as int));
            assert(part@.take(i as int) + (seq![part@[i as int]] + leading_digits(
                part@.skip(i + 1),
            )) =~= part@.take(i + 1) + leading_digits(part@.skip(i + 1)));
        }
        if value <= u32::MAX as u64 {
            value = value * 10 + (part[i] as u64 - '0' as u64);
        }
        i += 1;
    }
    assert(leading_digits(part@) =~= part@.take(i as int));
    if i > 0 && value <= u32::MAX as u64 {
        Some(value as u32)
    } else {
        None
    }
}

/// The numbers of a version.
pub fn parse_version(value: &str) -> (r: Vec<u32>)
    ensures
        r@ == version_numbers(value@),
{
    let parts = split_text(trim_leading(trim(value), 'v'), '.');
    let ghost view = parts@.map_values(|p: Vec<char>| p@);
    let ghost f = |part: Seq<char>| part_number(part);
    let mut numbers: Vec<u32> = Vec::new();
    let mut i: usize = 0;
    assert(view.take(0).filter_map(f) =~= Seq::empty());
    while i < parts.len()
        invariant
            i <= parts.len(),
            view == parts@.map_values(|p: Vec<char>| p@),
            f == (|part: Seq<char>| part_number(part)),
            numbers@ == view.take(i as int).filter_map(f),
        decreases parts.len() - i,
    {
        assert(view.take(i + 1).drop_last() =~= view.take(i as int));
        assert(view.take(i + 1).last() == parts[i as int]@);
        match parse_part(&parts[i]) {
            Some(n) => {
                numbers.push(n);
                assert(numbers@ =~= view.take(i as int).filter_map(f) + seq![n]);
            },
            None => {},
        }
        i += 1;
    }
    assert(view.take(i as int) =~= view);
    numbers
}

/// Whether `remote` is a later version than `current`.
pub fn is_newer(remote: &str, current: &str) -> (r: bool)
    ensures
        r == later(version_numbers(remote@), version_numbers(current@)),
{
    let a = parse_version(remote);
    let b = parse_version(current);
    if a.len() == 0 || b.len() == 0 {
        return false;
    }
    let mut i: usize = 0;
    while i < a.len() || i < b.len()
        invariant
            i <= a.len() || i <= b.len(),
            a@ == version_numbers(remote@),
            b@ == version_numbers(current@),
            a.len() > 0 && b.len() > 0,
            forall|j: int| 0 <= j < i ==> #[trigger] number_at(a@, j) == number_at(b@, j),
        decreases (if a.len() > b.len() { a.len() - i } else { b.len() - i }),
    {
        let x: u32 = if i < a.len() { a[i] } else { 0 };
        let y: u32 = if i < b.len() { b[i] } else { 0 };
        assert(x == number_at(a@, i as int) && y == number_at(b@, i as int));
        if x != y {
            if x > y {
                assert(exceeds_at(a@, b@, i as int));
            } else {
                assert forall|k: int| !exceeds_at(a@, b@, k) by {
                    if 0 <= k && number_at(a@, k) > number_at(b@, k) {
                        assert(k > i);
                        assert(number_at(a@, i as int) != number_at(b@, i as int));
                    }
                }
            }
            return x > y;
        }
        i += 1;
    }
    assert forall|k: int| !exceeds_at(a@, b@, k) by {
        if 0 <= k && k < i {
            assert(number_at(a@, k) == number_at(b@, k));
        }
    }
    false
}

/// No version is later than itself.
pub proof fn law_later_irreflexive(a: Seq<u32>)
    ensures
        !later(a, a),
{
}

/// Of two versions at most one is later than the other.
pub proof fn law_later_asymmetric(a: Seq<u32>, b: Seq<u32>)
    requires
        later(a, b),
    ensures
        !later(b, a),
{
    let i = choose|i: int| exceeds_at(a, b, i);
    assert forall|k: int| !exceeds_at(b, a, k) by {
        if exceeds_at(b, a, k) {
            if k < i {
                assert(number_at(a, k) == number_at(b, k));
            } else if i < k {
                assert(number_at(b, i) == number_at(a, i));
            }
        }
    }
}

/// A version that is later than a later one is later.
pub proof fn law_later_transitive(a: Seq<u32>, b: Seq<u32>, c: Seq<u32>)
    requires
        later(a, b),
        later(b, c),
    ensures
        later(a, c),
{
    let i = choose|i: int| exceeds_at(a, b, i);
    let k = choose|k: int| exceeds_at(b, c, k);
    let m = if i < k { i } else { k };
    assert forall|j: int| 0 <= j < m implies #[trigger] number_at(a, j) == number_at(c, j) by {
        assert(number_at(a, j) == number_at(b, j));
        assert(number_at(b, j) == number_at(c, j));
    }
    if i < k {
        assert(number_at(b, i) == number_at(c, i));
    } else if k < i {
        assert(number_at(a, k) == number_at(b, k));
    }
    assert(exceeds_at(a, c, m));
}

/// Two versions of which neither is later agree at every position.
pub proof fn law_later_total(a: Seq<u32>, b: Seq<u32>)
    requires
        a.len() > 0,
        b.len() > 0,
        !later(a, b),
        !later(b, a),
    ensures
        forall|i: int| number_at(a, i) == number_at(b, i),
{
    assert forall|i: int| number_at(a, i) == number_at(b, i) by {
        if 0 <= i {
            lemma_agree_up_to(a, b, i);
        }
    }
}

proof fn lemma_agree_up_to(a: Seq<u32>, b: Seq<u32>, i: int)
    requires
        0 <= i,
        a.len() > 0,
        b.len() > 0,
        !later(a, b),
        !later(b, a),
    ensures
        forall|j: int| 0 <= j <= i ==> number_at(a, j) == number_at(b, j),
    decreases i,
{
    if i > 0 {
        lemma_agree_up_to(a, b, i - 1);
    }
    if number_at(a, i) > number_at(b, i) {
        assert(exceeds_at(a, b, i));
    } else if number_at(a, i) < number_at(b, i) {
        assert(exceeds_at(b, a, i));
    }
}

/// What stands behind the digits of a part does not change its number.
proof fn lemma_leading_digits_end(part: Seq<char>, c: char)
    requires
        !ascii_digit(c),
    ensures
        leading_digits(part.push(c)) == leading_digits(part),
    decreases part.len(),
{
    if part.len() > 0 {
        assert(part.push(c).drop_first() =~= part.drop_first().push(c));
        lemma_leading_digits_end(part.drop_first(), c);
    } else {
        assert(part.push(c)[0] == c);
    }
}

proof fn lemma_without_leading_push(s: Seq<char>, c: char, last: char)
    requires
        last != c,
    ensures
        without_leading(s.push(last), c) == without_leading(s, c).push(last),
    decreases s.len(),
{
    if s.len() > 0 && s[0] == c {
        assert(s.push(last).drop_first() =~= s.drop_first().push(last));
        lemma_without_leading_push(s.drop_first(), c, last);
    }
}

proof fn lemma_trimmed_start_push(s: Seq<char>, last: char)
    requires
        !white_space(last),
    ensures
        trimmed_start(s.push(last)) == trimmed_start(s).push(last),
    decreases s.len(),
{
    if s.len() > 0 && white_space(s[0]) {
        assert(s.push(last).drop_first() =~= s.drop_first().push(last));
        lemma_trimmed_start_push(s.drop_first(), last);
    }
}

/// The numbers of a version that nothing was taken off.
spec fn numbers_in(s: Seq<char>) -> Seq<u32> {
    split(s, '.').filter_map(|part: Seq<char>| part_number(part))
}

/// White space at the end of a version does not change its numbers.
proof fn lemma_space_behind(s: Seq<char>)
    ensures
        numbers_in(without_leading(s, 'v')) == numbers_in(without_leading(trimmed_end(s), 'v')),
    decreases s.len(),
{
    if s.len() > 0 && white_space(s.last()) {
        let less = s.drop_last();
        let c = s.last();
        lemma_space_behind(less);
        assert(less.push(c) =~= s);
        lemma_without_leading_push(less, 'v', c);
        let short = without_leading(less, 'v');
        let parts = split(short, '.');
        let more = split(short.push(c), '.');
        lemma_split_is_not_empty(short, '.');
        assert(short.push(c).drop_last() =~= short);
        assert(more =~= parts.drop_last().push(parts.last().push(c)));
        lemma_leading_digits_end(parts.last(), c);
        assert(more.drop_last() =~= parts.drop_last());
        assert(more.last() == parts.last().push(c));
    }
}

/// A part `.0` behind a version, whatever else it holds, is a further zero among
/// its numbers.
pub proof fn law_zero_part_is_a_zero(version: Seq<char>)
    ensures
        version_numbers(version + ".0"@) == version_numbers(version).push(0),
{
    reveal_strlit(".0");
    let whole = version + ".0"@;
    assert(whole =~= version.push('.').push('0'));
    lemma_trimmed_start_push(version, '.');
    lemma_trimmed_start_push(version.push('.'), '0');
    let start = trimmed_start(version);
    let kept = start.push('.').push('0');
    assert(trimmed(whole) == kept);
    lemma_without_leading_push(start, 'v', '.');
    lemma_without_leading_push(start.push('.'), 'v', '0');
    let bare = without_leading(start, 'v');
    let dotted = bare.push('.');
    let parts = split(bare, '.');
    assert(dotted.drop_last() =~= bare);
    assert(dotted.push('0').drop_last() =~= dotted);
    let more = split(dotted.push('0'), '.');
    assert(split(dotted, '.') =~= parts.push(Seq::<char>::empty()));
    assert(Seq::<char>::empty().push('0') =~= seq!['0']);
    assert(more =~= parts.push(seq!['0']));
    assert(more.drop_last() =~= parts);
    assert(part_number(seq!['0']) == Some(0u32)) by {
        assert(seq!['0'].drop_first() =~= Seq::<char>::empty());
        assert(leading_digits(Seq::<char>::empty()) =~= Seq::<char>::empty());
        assert(leading_digits(seq!['0']) =~= seq!['0']);
        assert(seq!['0'].drop_last() =~= Seq::<char>::empty());
        assert(decimal_value(Seq::<char>::empty()) == 0);
    }
    lemma_space_behind(start);
    assert(version_numbers(whole) =~= numbers_in(bare).push(0));
}

/// A part `.0` behind a version does not make it later or earlier: `3.1.0` and
/// `3.1` compare alike to every version.
pub proof fn law_zero_part_is_neutral(version: Seq<char>, other: Seq<char>)
    requires
        version_numbers(version).len() > 0,
    ensures
        later(version_numbers(version + ".0"@), version_numbers(other)) == later(
            version_numbers(version),
            version_numbers(other),
        ),
        later(version_numbers(other), version_numbers(version + ".0"@)) == later(
            version_numbers(other),
            version_numbers(version),
        ),
{
    law_zero_part_is_a_zero(version);
    law_trailing_zero_is_neutral(version_numbers(version), version_numbers(other));
}

/// A further zero behind the numbers of a version does not make it later or
/// earlier than any other.
pub proof fn law_trailing_zero_is_neutral(a: Seq<u32>, b: Seq<u32>)
    requires
        a.len() > 0,
    ensures
        later(a.push(0), b) == later(a, b),
        later(b, a.push(0)) == later(b, a),
{
    let z = a.push(0);
    assert forall|i: int| number_at(z, i) == number_at(a, i) by {}
    assert forall|i: int| exceeds_at(z, b, i) == exceeds_at(a, b, i) by {
        assert(forall|j: int| number_at(z, j) == number_at(a, j));
    }
    assert forall|i: int| exceeds_at(b, z, i) == exceeds_at(b, a, i) by {
        assert(forall|j: int| number_at(z, j) == number_at(a, j));
    }
}

/// A version written out: its numbers in decimal, with dots between.
pub open spec fn written_version(numbers: Seq<u32>) -> Seq<char>
    decreases numbers.len(),
{
    if numbers.len() == 0 {
        Seq::empty()
    } else if numbers.len() == 1 {
        decimal(numbers[0] as nat)
    } else {
        written_version(numbers.drop_last()).push('.') + decimal(numbers.last() as nat)
    }
}

/// The digits at the start of a text are all of them up to the first character
/// that is none.
proof fn lemma_leading_digits(digits: Seq<char>, tail: Seq<char>)
    requires
        forall|i: int| 0 <= i < digits.len() ==> ascii_digit(#[trigger] digits[i]),
        tail.len() > 0 ==> !ascii_digit(tail[0]),
    ensures
        leading_digits(digits + tail) == digits,
    decreases digits.len(),
{
    let whole = digits + tail;
    if digits.len() == 0 {
        assert(whole =~= tail);
    } else {
        assert(whole.drop_first() =~= digits.drop_first() + tail);
        assert forall|i: int| 0 <= i < digits.drop_first().len() implies ascii_digit(
            #[trigger] digits.drop_first()[i],
        ) by {
            assert(digits.drop_first()[i] == digits[i + 1]);
        }
        lemma_leading_digits(digits.drop_first(), tail);
        assert(seq![digits[0]] + digits.drop_first() =~= digits);
    }
}

proof fn lemma_written_pieces(numbers: Seq<u32>)
    requires
        numbers.len() > 0,
    ensures
        split(written_version(numbers), '.') == numbers.map_values(|n: u32| decimal(n as nat)),
    decreases numbers.len(),
{
    let last = decimal(numbers.last() as nat);
    lemma_decimal_digits(numbers.last() as nat);
    assert(!last.contains('.')) by {
        assert forall|i: int| 0 <= i < last.len() implies last[i] != '.' by {
            assert(ascii_digit(last[i]));
        }
    }
    let whole = numbers.map_values(|n: u32| decimal(n as nat));
    if numbers.len() == 1 {
        let none = Seq::<char>::empty();
        lemma_last_piece(none, last, '.');
        assert(none + last =~= last);
        assert(split(none, '.') =~= seq![none]);
        assert(split(last, '.') =~= whole);
    } else {
        let less = numbers.drop_last();
        lemma_written_pieces(less);
        let head = written_version(less);
        lemma_last_piece(head.push('.'), last, '.');
        assert(head.push('.').drop_last() =~= head);
        let none = Seq::<char>::empty();
        assert(split(head.push('.'), '.') =~= split(head, '.').push(none));
        assert(none + last =~= last);
        assert(split(head.push('.'), '.').drop_last() =~= split(head, '.'));
        assert(whole =~= less.map_values(|n: u32| decimal(n as nat)).push(last));
    }
}

proof fn lemma_decimal_part(n: u32, tail: Seq<char>)
    requires
        tail.len() > 0 ==> !ascii_digit(tail[0]),
    ensures
        part_number(decimal(n as nat) + tail) == Some(n),
{
    lemma_decimal_digits(n as nat);
    lemma_leading_digits(decimal(n as nat), tail);
    lemma_decimal_denotes(n as nat);
}

proof fn lemma_decimal_parts(numbers: Seq<u32>)
    ensures
        numbers.map_values(|n: u32| decimal(n as nat)).filter_map(
            |part: Seq<char>| part_number(part),
        ) == numbers,
    decreases numbers.len(),
{
    let parts = numbers.map_values(|n: u32| decimal(n as nat));
    if numbers.len() > 0 {
        let less = numbers.drop_last();
        lemma_decimal_parts(less);
        assert(parts.drop_last() =~= less.map_values(|n: u32| decimal(n as nat)));
        lemma_decimal_part(numbers.last(), Seq::empty());
        assert(decimal(numbers.last() as nat) + Seq::<char>::empty() =~= parts.last());
        assert(less.push(numbers.last()) =~= numbers);
    }
}

proof fn lemma_numbers_written(numbers: Seq<u32>, tail: Seq<char>)
    requires
        numbers.len() > 0,
        tail.len() > 0 ==> !ascii_digit(tail[0]),
        !tail.contains('.'),
    ensures
        numbers_in(written_version(numbers) + tail) == numbers,
{
    let less = numbers.drop_last();
    lemma_written_pieces(numbers);
    lemma_last_piece(written_version(numbers), tail, '.');
    let parts = split(written_version(numbers) + tail, '.');
    let plain = numbers.map_values(|n: u32| decimal(n as nat));
    assert(parts.drop_last() =~= less.map_values(|n: u32| decimal(n as nat)));
    assert(parts.last() == decimal(numbers.last() as nat) + tail);
    lemma_decimal_parts(less);
    lemma_decimal_part(numbers.last(), tail);
    assert(less.push(numbers.last()) =~= numbers);
}

proof fn lemma_written_starts_with_digit(numbers: Seq<u32>)
    requires
        numbers.len() > 0,
    ensures
        written_version(numbers).len() > 0,
        ascii_digit(written_version(numbers)[0]),
    decreases numbers.len(),
{
    lemma_decimal_digits(numbers[0] as nat);
    if numbers.len() > 1 {
        lemma_written_starts_with_digit(numbers.drop_last());
        assert(written_version(numbers)[0] == written_version(numbers.drop_last())[0]);
    }
}

/// A version that is written out has exactly the numbers it was written with,
/// whatever they are and however many: bare, behind a `v`, behind white space, and
/// with a remark such as `-beta` behind it.
pub proof fn law_written_version_has_its_numbers(
    numbers: Seq<u32>,
    pad: Seq<char>,
    tail: Seq<char>,
)
    requires
        numbers.len() > 0,
        forall|i: int| 0 <= i < pad.len() ==> white_space(#[trigger] pad[i]),
        tail.len() > 0 ==> !('0' <= tail[0] <= '9'),
        !tail.contains('.'),
    ensures
        version_numbers(written_version(numbers)) == numbers,
        version_numbers("v"@ + written_version(numbers)) == numbers,
        version_numbers(pad + written_version(numbers) + tail) == numbers,
        version_numbers(pad + "v"@ + written_version(numbers) + tail) == numbers,
{
    let none = Seq::<char>::empty();
    let plain = written_version(numbers);
    lemma_written_has_numbers(numbers, none, none);
    lemma_written_has_numbers(numbers, pad, tail);
    assert(none + plain + none =~= plain);
    assert(none + "v"@ + plain + none =~= "v"@ + plain);
}

proof fn lemma_written_has_numbers(numbers: Seq<u32>, pad: Seq<char>, tail: Seq<char>)
    requires
        numbers.len() > 0,
        forall|i: int| 0 <= i < pad.len() ==> white_space(#[trigger] pad[i]),
        tail.len() > 0 ==> !ascii_digit(tail[0]),
        !tail.contains('.'),
    ensures
        version_numbers(pad + written_version(numbers) + tail) == numbers,
        version_numbers(pad + "v"@ + written_version(numbers) + tail) == numbers,
{
    reveal_strlit("v");
    let bare = written_version(numbers) + tail;
    lemma_written_starts_with_digit(numbers);
    lemma_numbers_written(numbers, tail);
    assert(bare[0] == written_version(numbers)[0]);
    assert(without_leading(bare, 'v') == bare);
    assert(trimmed_start(bare) == bare);
    lemma_space_before(pad, bare);
    assert(pad + written_version(numbers) + tail =~= pad + bare);
    lemma_space_behind(bare);
    let tagged = "v"@ + bare;
    assert(tagged.drop_first() =~= bare);
    assert(without_leading(tagged, 'v') == bare);
    assert(trimmed_start(tagged) == tagged);
    lemma_space_before(pad, tagged);
    assert(pad + "v"@ + written_version(numbers) + tail =~= pad + tagged);
    lemma_space_behind(tagged);
}

/// Versions of three numbers are ordered by the first number, then the second,
/// then the third.
pub proof fn law_written_versions_are_ordered(a: Seq<u32>, b: Seq<u32>)
    requires
        a.len() == 3,
        b.len() == 3,
    ensures
        later(version_numbers(written_version(a)), version_numbers(written_version(b))) <==> (a[0]
            > b[0] || (a[0] == b[0] && (a[1] > b[1] || (a[1] == b[1] && a[2] > b[2])))),
        later(version_numbers("v"@ + written_version(a)), version_numbers("v"@ + written_version(b)))
            <==> (a[0] > b[0] || (a[0] == b[0] && (a[1] > b[1] || (a[1] == b[1] && a[2] > b[2])))),
{
    law_written_version_has_its_numbers(a, Seq::empty(), Seq::empty());
    law_written_version_has_its_numbers(b, Seq::empty(), Seq::empty());
    if a[0] > b[0] {
        assert(exceeds_at(a, b, 0));
    } else if a[0] == b[0] && a[1] > b[1] {
        assert(exceeds_at(a, b, 1));
    } else if a[0] == b[0] && a[1] == b[1] && a[2] > b[2] {
        assert(exceeds_at(a, b, 2));
    } else if later(a, b) {
        let i = choose|i: int| exceeds_at(a, b, i);
        assert(number_at(a, 0) == a[0] && number_at(b, 0) == b[0]);
        assert(number_at(a, 1) == a[1] && number_at(b, 1) == b[1]);
        assert(number_at(a, 2) == a[2] && number_at(b, 2) == b[2]);
    }
}

/// The first number in which two versions differ decides, however many numbers
/// they have.
pub proof fn law_first_difference_decides(a: Seq<u32>, b: Seq<u32>, i: int)
    requires
        0 <= i < a.len(),
        i < b.len(),
        a.take(i) == b.take(i),
        a[i] > b[i],
    ensures
        later(a, b),
        !later(b, a),
{
    assert forall|j: int| 0 <= j < i implies #[trigger] number_at(a, j) == number_at(b, j) by {
        assert(a.take(i)[j] == a[j]);
        assert(b.take(i)[j] == b[j]);
    }
    assert(exceeds_at(a, b, i));
    law_later_asymmetric(a, b);
}

/// A version that goes on where another ends is later exactly where a number
/// other than zero is among those that follow.
pub proof fn law_further_numbers_count(a: Seq<u32>, more: Seq<u32>)
    requires
        a.len() > 0,
    ensures
        later(a + more, a) <==> exists|i: int| 0 <= i < more.len() && #[trigger] more[i] > 0,
        !later(a, a + more),
    decreases more.len(),
{
    let longer = a + more;
    assert forall|i: int| !#[trigger] exceeds_at(a, longer, i) by {
        assert(number_at(a, i) <= number_at(longer, i));
    }
    if later(longer, a) {
        let i = choose|i: int| exceeds_at(longer, a, i);
        assert(number_at(longer, i) > number_at(a, i));
        assert(i >= a.len());
        assert(more[i - a.len()] > 0);
    }
    if exists|i: int| 0 <= i < more.len() && #[trigger] more[i] > 0 {
        let k = choose|i: int| 0 <= i < more.len() && #[trigger] more[i] > 0;
        let less = more.take(k);
        if exists|i: int| 0 <= i < less.len() && #[trigger] less[i] > 0 {
            law_further_numbers_count(a, less);
            let i = choose|i: int| exceeds_at(a + less, a, i);
            assert forall|j: int| 0 <= j < (a + less).len() implies #[trigger] number_at(longer, j)
                == number_at(a + less, j) by {}
            assert(number_at(a + less, i) > number_at(a, i));
            assert forall|j: int| 0 <= j < i implies #[trigger] number_at(longer, j) == number_at(
                a,
                j,
            ) by {
                assert(number_at(a + less, j) == number_at(a, j));
            }
            assert(exceeds_at(longer, a, i));
        } else {
            let i = a.len() + k;
            assert forall|j: int| 0 <= j < i implies #[trigger] number_at(longer, j) == number_at(
                a,
                j,
            ) by {
                if j >= a.len() {
                    assert(less[j - a.len()] == more[j - a.len()]);
                }
            }
            assert(exceeds_at(longer, a, i));
        }
    }
}

/// A version is newer than another exactly where it is written with greater numbers,
/// the first deciding before the second and the second before the third.
pub proof fn law_newer_version_has_greater_numbers(
    remote: &str,
    current: &str,
    a: Seq<u32>,
    b: Seq<u32>,
    r: bool,
)
    requires
        a.len() == 3,
        b.len() == 3,
        remote@ == written_version(a) || remote@ == "v"@ + written_version(a),
        current@ == written_version(b) || current@ == "v"@ + written_version(b),
        call_ensures(is_newer, (remote, current), r),
    ensures
        r <==> (a[0] > b[0] || (a[0] == b[0] && (a[1] > b[1] || (a[1] == b[1] && a[2] > b[2])))),
{
    law_written_versions_are_ordered(a, b);
    law_written_version_has_its_numbers(a, Seq::empty(), Seq::empty());
    law_written_version_has_its_numbers(b, Seq::empty(), Seq::empty());
}

/// A version that is written out is read with exactly the numbers it was written
/// with.
pub proof fn law_parsed_version_has_its_numbers(value: &str, numbers: Seq<u32>, r: Vec<u32>)
    requires
        numbers.len() > 0,
        value@ == written_version(numbers) || value@ == "v"@ + written_version(numbers),
        call_ensures(parse_version, (value,), r),
    ensures
        r@ == numbers,
{
    law_written_version_has_its_numbers(numbers, Seq::empty(), Seq::empty());
}

} // verus!
