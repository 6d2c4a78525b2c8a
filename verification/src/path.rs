//! File names and relative paths, read by the rules of the platform that the
//! program runs on.

use crate::text::{
    ascii_letter, ascii_lowercase, chars_of, has_piece, law_separator_parts_the_pieces,
    law_text_without_separator_is_one_piece, lemma_piece_is_part, lemma_split_is_not_empty,
    occurs_at, replace_char, replaced, same_chars, split, split_text, to_ascii_lowercase,
};
use vstd::prelude::*;

verus! {

/// The operating system that the program runs on.
#[derive(Clone, Copy, Debug, PartialEq, Eq, Structural)]
pub enum Platform {
    Windows,
    MacOs,
    Linux,
    Other,
}

/// `s` begins with a Windows drive such as `C:`.
pub open spec fn has_drive(platform: Platform, s: Seq<char>) -> bool {
    platform == Platform::Windows && s.len() >= 2 && ascii_letter(s[0]) && s[1] == ':'
}

/// `s` with every path separator of the platform written as `/`.
pub open spec fn slashed(platform: Platform, s: Seq<char>) -> Seq<char> {
    if platform == Platform::Windows {
        replaced(s, '\\', '/')
    } else {
        s
    }
}

/// The pieces of a path between its separators.
pub open spec fn pieces(platform: Platform, s: Seq<char>) -> Seq<Seq<char>> {
    split(slashed(platform, s), '/')
}

/// A piece that stands for neither nothing, nor the directory itself, nor its
/// parent.
pub open spec fn names_something(piece: Seq<char>) -> bool {
    piece.len() > 0 && piece != seq!['.'] && piece != seq!['.', '.']
}

/// A piece that a path reads as if it were not there.
pub open spec fn names_nothing(piece: Seq<char>) -> bool {
    piece.len() == 0 || piece == seq!['.']
}

/// `s` as a whole is the name of a file: one name, without separator or drive.
pub open spec fn is_file_name(platform: Platform, s: Seq<char>) -> bool {
    !has_drive(platform, s) && pieces(platform, s).len() == 1 && names_something(s)
}

/// The one name that the relative path `s` consists of, apart from separators
/// and `.` behind it; none where `s` is rooted, has a drive or another name.
pub open spec fn only_name(platform: Platform, s: Seq<char>) -> Option<Seq<char>> {
    let parts = pieces(platform, s);
    if !has_drive(platform, s) && names_something(parts[0]) && forall|i: int|
        1 <= i < parts.len() ==> names_nothing(#[trigger] parts[i]) {
        Some(parts[0])
    } else {
        None
    }
}

/// The position of the last `c` in `s`, or -1.
pub open spec fn last_position(s: Seq<char>, c: char) -> int
    decreases s.len(),
{
    if s.len() == 0 {
        -1
    } else if s.last() == c {
        s.len() - 1
    } else {
        last_position(s.drop_last(), c)
    }
}

/// What stands behind the last dot of a file name; none where there is no dot
/// or only one that opens the name.
pub open spec fn extension(name: Seq<char>) -> Option<Seq<char>> {
    let dot = last_position(name, '.');
    if dot <= 0 {
        None
    } else {
        Some(name.skip(dot + 1))
    }
}

/// What stands behind the drive of a path; all of it where there is none.
pub open spec fn behind_drive(platform: Platform, s: Seq<char>) -> Seq<char> {
    if has_drive(platform, s) {
        s.skip(2)
    } else {
        s
    }
}

/// A path, written with `/`, that begins at the root of a drive.
pub open spec fn rooted_on_drive(platform: Platform, s: Seq<char>) -> bool {
    has_drive(platform, s) && s.len() > 2 && s[2] == '/'
}

/// A path, written with `/`, that names a parent directory on its way.
pub open spec fn climbs(platform: Platform, s: Seq<char>) -> bool {
    split(behind_drive(platform, s), '/').contains(seq!['.', '.'])
}

fn drive_prefixed(platform: Platform, x: &Vec<char>) -> (r: bool)
    ensures
        r == has_drive(platform, x@),
{
    platform == Platform::Windows && x.len() >= 2 && (('a' <= x[0] && x[0] <= 'z') || ('A' <= x[0]
        && x[0] <= 'Z')) && x[1] == ':'
}

/// Whether a path, written with `/`, begins at the root of a drive or names a
/// parent directory on its way.
pub fn leaves_directory(platform: Platform, s: &str) -> (r: bool)
    ensures
        r == (rooted_on_drive(platform, s@) || climbs(platform, s@)),
{
    let x = chars_of(s);
    proof {
        reveal_strlit("..");
        assert(".."@ =~= seq!['.', '.']);
    }
    if drive_prefixed(platform, &x) {
        if x.len() > 2 && x[2] == '/' {
            return true;
        }
        let rest = s.substring_char(2, x.len());
        assert(rest@ =~= s@.skip(2));
        has_piece(rest, '/', "..")
    } else {
        has_piece(s, '/', "..")
    }
}

fn pieces_of(platform: Platform, s: &str) -> (r: Vec<Vec<char>>)
    ensures
        r@.map_values(|p: Vec<char>| p@) == pieces(platform, s@),
        r.len() > 0,
{
    if platform == Platform::Windows {
        split_text(&replace_char(s, '\\', '/'), '/')
    } else {
        split_text(s, '/')
    }
}

fn is_dot(p: &Vec<char>) -> (r: bool)
    ensures
        r == (p@ == seq!['.']),
{
    let r = p.len() == 1 && p[0] == '.';
    assert(r ==> p@ =~= seq!['.']);
    r
}

fn is_dot_dot(p: &Vec<char>) -> (r: bool)
    ensures
        r == (p@ == seq!['.', '.']),
{
    let r = p.len() == 2 && p[0] == '.' && p[1] == '.';
    assert(r ==> p@ =~= seq!['.', '.']);
    r
}

/// A text of one piece is that piece.
proof fn lemma_sole_piece(s: Seq<char>, c: char)
    ensures
        split(s, c).len() > 0,
        split(s, c).len() == 1 ==> split(s, c)[0] == s,
    decreases s.len(),
{
    if s.len() > 0 {
        lemma_sole_piece(s.drop_last(), c);
        if s.last() != c {
            assert(s.drop_last().push(s.last()) =~= s);
        }
    }
}

/// Whether `s` as a whole is the name of a file.
pub fn is_whole_file_name(platform: Platform, s: &str) -> (r: bool)
    ensures
        r == is_file_name(platform, s@),
{
    let x = chars_of(s);
    let parts = pieces_of(platform, s);
    !drive_prefixed(platform, &x) && parts.len() == 1 && x.len() > 0 && !is_dot(&x) && !is_dot_dot(
        &x,
    )
}

/// The one name that the relative path `s` consists of.
pub fn sole_name(platform: Platform, s: &str) -> (r: Option<Vec<char>>)
    ensures
        match r {
            Some(name) => only_name(platform, s@) == Some(name@),
            None => only_name(platform, s@) is None,
        },
{
    let x = chars_of(s);
    let mut parts = pieces_of(platform, s);
    let ghost view = parts@.map_values(|p: Vec<char>| p@);
    assert(view[0] == parts[0]@);
    if drive_prefixed(platform, &x) || parts[0].len() == 0 || is_dot(&parts[0]) || is_dot_dot(
        &parts[0],
    ) {
        return None;
    }
    let mut i: usize = 1;
    while i < parts.len()
        invariant
            1 <= i <= parts.len(),
            view == parts@.map_values(|p: Vec<char>| p@),
            view == pieces(platform, s@),
            forall|j: int| 1 <= j < i ==> names_nothing(#[trigger] view[j]),
        decreases parts.len() - i,
    {
        assert(view[i as int] == parts[i as int]@);
        if parts[i].len() != 0 && !is_dot(&parts[i]) {
            return None;
        }
        i += 1;
    }
    Some(parts.remove(0))
}

/// What stands behind the last dot of a file name.
pub fn extension_of(name: &Vec<char>) -> (r: Option<Vec<char>>)
    ensures
        match r {
            Some(e) => extension(name@) == Some(e@),
            None => extension(name@) is None,
        },
{
    let mut end: usize = name.len();
    assert(name@.take(end as int) =~= name@);
    while end > 0 && name[end - 1] != '.'
        invariant
            end <= name.len(),
            last_position(name@, '.') == last_position(name@.take(end as int), '.'),
        decreases end,
    {
        assert(name@.take(end as int).drop_last() =~= name@.take(end - 1));
        end -= 1;
    }
    if end <= 1 {
        return None;
    }
    let mut out: Vec<char> = Vec::new();
    let mut i: usize = end;
    while i < name.len()
        invariant
            end <= i <= name.len(),
            out@ == name@.subrange(end as int, i as int),
        decreases name.len() - i,
    {
        out.push(name[i]);
        i += 1;
    }
    assert(out@ =~= name@.skip(end as int));
    Some(out)
}

/// A separator of paths.
pub open spec fn separator(platform: Platform, c: char) -> bool {
    c == '/' || platform == Platform::Windows && c == '\\'
}

/// The length of the prefix that a Windows path begins with: a drive, or two
/// separators and two names behind them, as a network share has.
pub open spec fn prefix_len(platform: Platform, s: Seq<char>) -> int {
    if has_drive(platform, s) {
        2
    } else if platform == Platform::Windows && s.len() >= 2 && separator(platform, s[0])
        && separator(platform, s[1]) {
        let parts = pieces(platform, s.skip(2));
        if parts.len() >= 2 && parts[0].len() > 0 && parts[1].len() > 0 {
            3 + parts[0].len() as int + parts[1].len()
        } else {
            0
        }
    } else {
        0
    }
}

/// The path begins with a literal prefix, in which only backslashes separate.
pub open spec fn literal(s: Seq<char>) -> bool {
    s.len() >= 4 && s[0] == '\\' && s[1] == '\\' && s[2] == '?' && s[3] == '\\'
}

/// The prefix as it is compared: the letter of a drive in either case, and
/// slashes and backslashes alike but in a literal prefix.
pub open spec fn prefix_key(platform: Platform, s: Seq<char>) -> Seq<char> {
    let prefix = s.take(prefix_len(platform, s));
    if literal(s) {
        prefix
    } else if has_drive(platform, s) {
        ascii_lowercase(prefix)
    } else {
        slashed(platform, prefix)
    }
}

/// The path begins at a root, with or without a prefix; a prefix of two names
/// stands for the root of what it names.
pub open spec fn rooted(platform: Platform, s: Seq<char>) -> bool {
    let n = prefix_len(platform, s);
    n > 2 || n < s.len() && separator(platform, s[n])
}

/// The names of a path: its pieces but for empty ones and `.`.
pub open spec fn names(parts: Seq<Seq<char>>) -> Seq<Seq<char>> {
    parts.filter_map(
        |piece: Seq<char>|
            if names_nothing(piece) {
                None
            } else {
                Some(piece)
            },
    )
}

/// What a path is compared by: its prefix, its root, a `.` that opens it, and
/// its names.
pub open spec fn components(platform: Platform, s: Seq<char>) -> Seq<Seq<char>> {
    let n = prefix_len(platform, s);
    let parts = pieces(platform, s.skip(n));
    let prefix = if n > 0 {
        seq![prefix_key(platform, s)]
    } else {
        Seq::empty()
    };
    let start = if rooted(platform, s) {
        seq![seq!['/']]
    } else if parts[0] == seq!['.'] {
        seq![seq!['.']]
    } else {
        Seq::empty()
    };
    prefix + start + names(parts)
}

/// The components of a path that takes the place of the directory which it is
/// joined to: one with a prefix takes it as a whole, and one that only begins at
/// a root leaves the directory's prefix.
pub open spec fn replacing_components(
    platform: Platform,
    root: Seq<char>,
    relative: Seq<char>,
) -> Seq<Seq<char>> {
    if prefix_len(platform, relative) > 0 || prefix_len(platform, root) == 0 {
        components(platform, relative)
    } else {
        seq![prefix_key(platform, root)] + components(platform, relative)
    }
}

/// A path that is joined to the directory `root` names something at or below it:
/// it is appended, or, where it takes the directory's place, begins with the
/// directory's own components.
pub open spec fn lies_below(platform: Platform, root: Seq<char>, relative: Seq<char>) -> bool {
    if prefix_len(platform, relative) > 0 || rooted(platform, relative) {
        components(platform, root).is_prefix_of(replacing_components(platform, root, relative))
    } else {
        true
    }
}

fn copy_range(x: &Vec<char>, start: usize, end: usize) -> (r: Vec<char>)
    requires
        start <= end <= x.len(),
    ensures
        r@ == x@.subrange(start as int, end as int),
{
    let mut out: Vec<char> = Vec::new();
    let mut i: usize = start;
    while i < end
        invariant
            start <= i <= end <= x.len(),
            out@ == x@.subrange(start as int, i as int),
        decreases end - i,
    {
        out.push(x[i]);
        i += 1;
    }
    out
}

fn is_separator(platform: Platform, c: char) -> (r: bool)
    ensures
        r == separator(platform, c),
{
    c == '/' || (platform == Platform::Windows && c == '\\')
}

fn prefix_length(platform: Platform, s: &str, x: &Vec<char>) -> (r: usize)
    requires
        x@ == s@,
    ensures
        r == prefix_len(platform, s@),
        r <= s@.len(),
{
    if drive_prefixed(platform, x) {
        return 2;
    }
    if platform == Platform::Windows && x.len() >= 2 && is_separator(platform, x[0])
        && is_separator(platform, x[1]) {
        let rest = s.substring_char(2, x.len());
        assert(rest@ =~= s@.skip(2));
        let parts = pieces_of(platform, rest);
        let ghost view = parts@.map_values(|p: Vec<char>| p@);
        if parts.len() >= 2 {
            assert(view[0] == parts[0]@ && view[1] == parts[1]@);
            proof {
                lemma_two_pieces_fit(slashed(platform, rest@), '/');
            }
            if parts[0].len() > 0 && parts[1].len() > 0 {
                return 3 + parts[0].len() + parts[1].len();
            }
        }
    }
    0
}

/// The first two pieces of a text, with the separator between them, are no
/// longer than the text.
proof fn lemma_two_pieces_fit(s: Seq<char>, c: char)
    ensures
        split(s, c).len() > 0,
        split(s, c)[0].len() <= s.len(),
        split(s, c).len() >= 2 ==> split(s, c)[0].len() + 1 + split(s, c)[1].len() <= s.len(),
    decreases s.len(),
{
    if s.len() > 0 {
        lemma_two_pieces_fit(s.drop_last(), c);
    }
}

fn prefix_key_of(platform: Platform, s: &str, x: &Vec<char>, n: usize) -> (r: Vec<char>)
    requires
        x@ == s@,
        n == prefix_len(platform, s@),
        n <= s@.len(),
    ensures
        r@ == prefix_key(platform, s@),
{
    let prefix = s.substring_char(0, n);
    assert(prefix@ =~= s@.take(n as int));
    if x.len() >= 4 && x[0] == '\\' && x[1] == '\\' && x[2] == '?' && x[3] == '\\' {
        chars_of(prefix)
    } else if drive_prefixed(platform, x) {
        chars_of(&to_ascii_lowercase(prefix))
    } else if platform == Platform::Windows {
        chars_of(&replace_char(prefix, '\\', '/'))
    } else {
        chars_of(prefix)
    }
}

fn components_of(platform: Platform, s: &str) -> (r: Vec<Vec<char>>)
    ensures
        r@.map_values(|p: Vec<char>| p@) == components(platform, s@),
{
    let x = chars_of(s);
    let n = prefix_length(platform, s, &x);
    let rest = s.substring_char(n, x.len());
    assert(rest@ =~= s@.skip(n as int));
    let parts = pieces_of(platform, rest);
    let ghost view = parts@.map_values(|p: Vec<char>| p@);
    let ghost f = |piece: Seq<char>|
        if names_nothing(piece) {
            None::<Seq<char>>
        } else {
            Some(piece)
        };
    let mut out: Vec<Vec<char>> = Vec::new();
    if n > 0 {
        out.push(prefix_key_of(platform, s, &x, n));
    }
    assert(view[0] == parts[0]@);
    if n > 2 || (n < x.len() && is_separator(platform, x[n])) {
        let root = vec!['/'];
        assert(root@ =~= seq!['/']);
        out.push(root);
    } else if is_dot(&parts[0]) {
        let here = vec!['.'];
        assert(here@ =~= seq!['.']);
        out.push(here);
    }
    let ghost opening = out@.map_values(|p: Vec<char>| p@);
    assert(opening =~= (if n > 0 {
        seq![prefix_key(platform, s@)]
    } else {
        Seq::empty()
    }) + (if rooted(platform, s@) {
        seq![seq!['/']]
    } else if view[0] == seq!['.'] {
        seq![seq!['.']]
    } else {
        Seq::empty()
    }));
    let mut i: usize = 0;
    assert(view.take(0).filter_map(f) =~= Seq::empty());
    while i < parts.len()
        invariant
            i <= parts.len(),
            view == parts@.map_values(|p: Vec<char>| p@),
            f == (|piece: Seq<char>|
                if names_nothing(piece) {
                    None::<Seq<char>>
                } else {
                    Some(piece)
                }),
            out@.map_values(|p: Vec<char>| p@) == opening + view.take(i as int).filter_map(f),
        decreases parts.len() - i,
    {
        assert(view.take(i + 1).drop_last() =~= view.take(i as int));
        assert(view.take(i + 1).last() == parts[i as int]@);
        if parts[i].len() != 0 && !is_dot(&parts[i]) {
            let ghost before = out@;
            let name = copy_range(&parts[i], 0, parts[i].len());
            assert(name@ =~= parts[i as int]@);
            out.push(name);
            assert(out@.map_values(|p: Vec<char>| p@) =~= before.map_values(
                |p: Vec<char>| p@,
            ).push(name@));
            assert(view.take(i + 1).filter_map(f) =~= view.take(i as int).filter_map(f) + seq![
                name@,
            ]);
        }
        i += 1;
    }
    assert(view.take(i as int) =~= view);
    out
}

/// Whether a path that is joined to the directory `root` names something at or
/// below it.
pub fn is_below(platform: Platform, root: &str, relative: &str) -> (r: bool)
    ensures
        r == lies_below(platform, root@, relative@),
{
    let x = chars_of(relative);
    let n = prefix_length(platform, relative, &x);
    if n == 0 && !(x.len() > 0 && is_separator(platform, x[0])) {
        return true;
    }
    let y = chars_of(root);
    let root_prefix = prefix_length(platform, root, &y);
    let wanted = components_of(platform, root);
    let mut found = components_of(platform, relative);
    let ghost plain = found@;
    if n == 0 && root_prefix > 0 {
        found.insert(0, prefix_key_of(platform, root, &y, root_prefix));
    }
    let ghost a = wanted@.map_values(|p: Vec<char>| p@);
    let ghost b = found@.map_values(|p: Vec<char>| p@);
    assert(b =~= replacing_components(platform, root@, relative@)) by {
        if n == 0 && root_prefix > 0 {
            assert(b =~= seq![prefix_key(platform, root@)] + plain.map_values(|p: Vec<char>| p@));
        }
    }
    if wanted.len() > found.len() {
        return false;
    }
    let mut i: usize = 0;
    while i < wanted.len()
        invariant
            i <= wanted.len() <= found.len(),
            a == wanted@.map_values(|p: Vec<char>| p@),
            b == found@.map_values(|p: Vec<char>| p@),
            lies_below(platform, root@, relative@) == a.is_prefix_of(b),
            forall|j: int| 0 <= j < i ==> #[trigger] a[j] == b[j],
        decreases wanted.len() - i,
    {
        assert(a[i as int] == wanted[i as int]@ && b[i as int] == found[i as int]@);
        if !same_chars(&wanted[i], &found[i]) {
            proof {
                if a.is_prefix_of(b) {
                    assert(a[i as int] == b.subrange(0, a.len() as int)[i as int]);
                }
            }
            return false;
        }
        i += 1;
    }
    assert(a =~= b.subrange(0, a.len() as int));
    true
}

/// A path without a root or a prefix is appended to whatever directory it is
/// joined to, and so lies below it.
pub proof fn law_plain_paths_lie_below(platform: Platform, root: Seq<char>, relative: Seq<char>)
    requires
        !has_drive(platform, relative),
        relative.len() > 0 ==> !separator(platform, relative[0]),
    ensures
        lies_below(platform, root, relative),
{
}

/// A path that is accepted as the name of a file stays one piece, so that
/// joining it to a directory names an entry of that directory.
pub proof fn law_file_name_stays_in_directory(platform: Platform, s: Seq<char>)
    requires
        is_file_name(platform, s),
    ensures
        !s.contains('/'),
        platform == Platform::Windows ==> !s.contains('\\'),
        pieces(platform, s) == seq![slashed(platform, s)],
{
    let t = slashed(platform, s);
    lemma_sole_piece(t, '/');
    lemma_separator_splits(t, '/');
    assert(pieces(platform, s) =~= seq![t]);
    if s.contains('/') {
        let i = choose|i: int| 0 <= i < s.len() && s[i] == '/';
        assert(t[i] == '/');
    }
    if platform == Platform::Windows && s.contains('\\') {
        let i = choose|i: int| 0 <= i < s.len() && s[i] == '\\';
        assert(t[i] == '/');
    }
}

/// A text that holds the separator has more than one piece.
proof fn lemma_separator_splits(s: Seq<char>, c: char)
    ensures
        s.contains(c) ==> split(s, c).len() > 1,
        split(s, c).len() >= 1,
    decreases s.len(),
{
    if s.len() > 0 {
        lemma_separator_splits(s.drop_last(), c);
        if s.contains(c) && s.last() != c {
            let i = choose|i: int| 0 <= i < s.len() && s[i] == c;
            assert(s.drop_last()[i] == c);
        }
    }
}

proof fn lemma_slashed_keeps(platform: Platform, s: Seq<char>)
    requires
        !s.contains('/'),
        platform == Platform::Windows ==> !s.contains('\\'),
    ensures
        slashed(platform, s) == s,
{
    assert forall|i: int| 0 <= i < s.len() && platform == Platform::Windows implies s[i]
        != '\\' by {
        assert(s.contains(s[i]));
    }
    assert(slashed(platform, s) =~= s);
}

/// Every text without a separator of the platform and without a drive is the name
/// of a file, but for the empty one and those of the directory and its parent; one
/// with a separator is none.
pub proof fn law_plain_text_is_a_file_name(platform: Platform, s: Seq<char>)
    requires
        platform == Platform::Windows ==> !s.contains(':'),
    ensures
        !s.contains('/') && (platform == Platform::Windows ==> !s.contains('\\')) ==> is_file_name(
            platform,
            s,
        ) == (s != ""@ && s != "."@ && s != ".."@),
        s.contains('/') ==> !is_file_name(platform, s),
        platform == Platform::Windows && s.contains('\\') ==> !is_file_name(platform, s),
{
    reveal_strlit("");
    reveal_strlit(".");
    reveal_strlit("..");
    assert("."@ =~= seq!['.']);
    assert(".."@ =~= seq!['.', '.']);
    assert(s.len() == 0 ==> s =~= ""@);
    if has_drive(platform, s) {
        assert(s.contains(s[1]));
    }
    let plain = slashed(platform, s);
    if !s.contains('/') && (platform == Platform::Windows ==> !s.contains('\\')) {
        lemma_slashed_keeps(platform, s);
        law_text_without_separator_is_one_piece(s, '/');
    }
    if plain.contains('/') {
        let k = choose|k: int| 0 <= k < plain.len() && plain[k] == '/';
        let a = plain.take(k);
        let b = plain.skip(k + 1);
        assert(plain =~= a + seq!['/'] + b);
        law_separator_parts_the_pieces(a, '/', b);
        lemma_split_is_not_empty(a, '/');
        lemma_split_is_not_empty(b, '/');
    }
    if s.contains('/') {
        let k = choose|k: int| 0 <= k < s.len() && s[k] == '/';
        assert(plain[k] == '/');
    }
    if platform == Platform::Windows && s.contains('\\') {
        let k = choose|k: int| 0 <= k < s.len() && s[k] == '\\';
        assert(plain[k] == '/');
    }
}

proof fn lemma_last_dot(s: Seq<char>, c: char, tail: Seq<char>)
    requires
        !tail.contains(c),
    ensures
        last_position(s.push(c) + tail, c) == s.len(),
        last_position(tail, c) == -1,
    decreases tail.len(),
{
    let whole = s.push(c) + tail;
    if tail.len() == 0 {
        assert(whole =~= s.push(c));
    } else {
        let less = tail.drop_last();
        assert(tail.contains(tail.last()));
        assert forall|i: int| 0 <= i < less.len() implies less[i] != c by {
            assert(tail.contains(tail[i]));
        }
        lemma_last_dot(s, c, less);
        assert(whole.drop_last() =~= s.push(c) + less);
        assert(whole.last() == tail.last());
    }
}

/// The extension of a name is what stands behind its last dot; a name without a
/// dot has none, nor has one that only begins with a dot.
pub proof fn law_extension_stands_behind_the_last_dot(stem: Seq<char>, ending: Seq<char>)
    requires
        !ending.contains('.'),
    ensures
        stem.len() > 0 ==> extension(stem + "."@ + ending) == Some(ending),
        extension("."@ + ending) is None,
        extension(ending) is None,
{
    reveal_strlit(".");
    lemma_last_dot(stem, '.', ending);
    assert(stem + "."@ + ending =~= stem.push('.') + ending);
    assert((stem.push('.') + ending).skip(stem.len() as int + 1) =~= ending);
    let none = Seq::<char>::empty();
    lemma_last_dot(none, '.', ending);
    assert("."@ + ending =~= none.push('.') + ending);
}

/// A plain name is the only name of its path, with a slash behind it too; a path
/// of two names has none.
pub proof fn law_only_name_is_the_name(platform: Platform, a: Seq<char>, b: Seq<char>)
    requires
        is_file_name(platform, a),
        is_file_name(platform, b),
        !a.contains('/'),
        !b.contains('/'),
        platform == Platform::Windows ==> !a.contains('\\') && !b.contains('\\') && !a.contains(':'),
    ensures
        only_name(platform, a) == Some(a),
        only_name(platform, a + "/"@) == Some(a),
        only_name(platform, a + "/"@ + b) is None,
        only_name(platform, "/"@ + a) is None,
{
    reveal_strlit("/");
    assert("/"@ =~= seq!['/']);
    let none = Seq::<char>::empty();
    lemma_slashed_keeps(platform, a);
    lemma_slashed_keeps(platform, b);
    law_text_without_separator_is_one_piece(a, '/');
    law_text_without_separator_is_one_piece(b, '/');
    law_text_without_separator_is_one_piece(none, '/');
    law_separator_parts_the_pieces(a, '/', none);
    law_separator_parts_the_pieces(a, '/', b);
    law_separator_parts_the_pieces(none, '/', a);
    assert(slashed(platform, a + "/"@) =~= slashed(platform, a) + seq!['/'] + none);
    assert(slashed(platform, a + "/"@ + b) =~= slashed(platform, a) + seq!['/'] + slashed(
        platform,
        b,
    ));
    assert(slashed(platform, "/"@ + a) =~= none + seq!['/'] + slashed(platform, a));
    let closed = pieces(platform, a + "/"@);
    assert(closed[0] == a && closed[1] == none && closed.len() == 2);
    let two = pieces(platform, a + "/"@ + b);
    assert(two[0] == a && two[1] == b && two.len() == 2);
    assert(!names_nothing(two[1]));
    let below = pieces(platform, "/"@ + a);
    assert(below[0] == none);
    if platform == Platform::Windows {
        assert(a.len() >= 2 ==> a.contains(a[1]));
        assert(a.len() >= 2 ==> (a + "/"@)[1] == a[1]);
        assert(a.len() >= 2 ==> (a + "/"@ + b)[1] == a[1]);
        assert(a.len() == 1 ==> (a + "/"@)[1] == '/');
        assert(a.len() == 1 ==> (a + "/"@ + b)[1] == '/');
        assert(("/"@ + a)[0] == '/');
    }
    assert(!has_drive(platform, a + "/"@));
    assert(!has_drive(platform, a + "/"@ + b));
}

/// A path with a piece that leads to the parent directory climbs, wherever that
/// piece stands.
pub proof fn law_parent_directory_climbs(platform: Platform, before: Seq<char>, after: Seq<char>)
    ensures
        climbs(platform, before + "/../"@ + after),
        climbs(platform, before + "/.."@),
        climbs(platform, "../"@ + after),
        climbs(platform, ".."@),
{
    reveal_strlit("/../");
    reveal_strlit("/..");
    reveal_strlit("../");
    reveal_strlit("..");
    let up = seq!['.', '.'];
    law_text_without_separator_is_one_piece(up, '/');
    let behind = up + seq!['/'] + after;
    law_separator_parts_the_pieces(up, '/', after);
    assert(split(behind, '/')[0] == up);
    assert("../"@ + after =~= behind);
    assert(".."@ =~= up);
    assert(split(up, '/')[0] == up);
    let head = if has_drive(platform, before) {
        before.skip(2)
    } else {
        before
    };
    law_separator_parts_the_pieces(head, '/', behind);
    law_separator_parts_the_pieces(head, '/', up);
    let n = split(head, '/').len() as int;
    assert(split(head + seq!['/'] + behind, '/')[n] == up);
    assert(split(head + seq!['/'] + up, '/')[n] == up);
    let middle = before + "/../"@ + after;
    let end = before + "/.."@;
    assert(before.len() >= 2 ==> middle[0] == before[0] && middle[1] == before[1]);
    assert(before.len() >= 2 ==> end[0] == before[0] && end[1] == before[1]);
    assert(before.len() == 1 ==> middle[1] == '/' && end[1] == '/');
    assert(before.len() == 0 ==> middle[0] == '/' && end[0] == '/');
    assert(behind_drive(platform, middle) =~= head + seq!['/'] + behind);
    assert(behind_drive(platform, end) =~= head + seq!['/'] + up);
    assert(behind_drive(platform, behind) =~= behind);
    assert(behind_drive(platform, up) =~= up);
}

/// A path in which no two dots stand together does not climb.
pub proof fn law_path_without_two_dots_does_not_climb(platform: Platform, s: Seq<char>)
    requires
        forall|i: int| 0 <= i < s.len() - 1 ==> #[trigger] s[i] != '.' || s[i + 1] != '.',
    ensures
        !climbs(platform, s),
{
    let rest = behind_drive(platform, s);
    let up = seq!['.', '.'];
    if split(rest, '/').contains(up) {
        let k = choose|k: int| 0 <= k < split(rest, '/').len() && split(rest, '/')[k] == up;
        lemma_piece_is_part(rest, '/', k);
        let i = choose|i: int| occurs_at(up, rest, i);
        let n = s.len() - rest.len();
        assert(rest.subrange(i, i + 2)[0] == s[n + i]);
        assert(rest.subrange(i, i + 2)[1] == s[n + i + 1]);
    }
}

proof fn lemma_names_join(a: Seq<Seq<char>>, b: Seq<Seq<char>>)
    ensures
        names(a + b) == names(a) + names(b),
    decreases b.len(),
{
    if b.len() == 0 {
        assert(a + b =~= a);
        assert(names(b) =~= Seq::empty());
    } else {
        let less = b.drop_last();
        lemma_names_join(a, less);
        assert((a + b).drop_last() =~= a + less);
        assert((a + b).last() == b.last());
        assert(names(a + b) =~= names(a) + names(b));
    }
}

proof fn lemma_one_name(piece: Seq<char>)
    ensures
        names(seq![piece]) == if names_nothing(piece) {
            Seq::empty()
        } else {
            seq![piece]
        },
{
    let one = seq![piece];
    assert(one.drop_last() =~= Seq::empty());
    assert(names(one.drop_last()) =~= Seq::empty());
    assert(names(one) =~= if names_nothing(piece) {
        Seq::empty()
    } else {
        seq![piece]
    });
}

/// Away from Windows, a path that begins with a directory's own path and a slash
/// lies below that directory.
pub proof fn law_path_behind_its_directory_lies_below(
    platform: Platform,
    root: Seq<char>,
    rest: Seq<char>,
)
    requires
        platform != Platform::Windows,
        root.len() > 0,
        root[0] == '/',
    ensures
        lies_below(platform, root, root + "/"@ + rest),
        lies_below(platform, root, root),
        lies_below(platform, "/"@, root),
{
    reveal_strlit("/");
    let none = Seq::<char>::empty();
    let whole = root + "/"@ + rest;
    assert(whole =~= root + seq!['/'] + rest);
    assert(whole[0] == '/');
    law_separator_parts_the_pieces(root, '/', rest);
    lemma_names_join(split(root, '/'), split(rest, '/'));
    assert(root.skip(0) =~= root);
    assert(whole.skip(0) =~= whole);
    let near = components(platform, root);
    let far = components(platform, whole);
    assert(far =~= near + names(split(rest, '/')));
    assert(far.subrange(0, near.len() as int) =~= near);
    assert(near.subrange(0, near.len() as int) =~= near);
    law_text_without_separator_is_one_piece(none, '/');
    law_separator_parts_the_pieces(none, '/', none);
    assert("/"@ =~= none + seq!['/'] + none);
    assert("/"@.skip(0) =~= "/"@);
    lemma_names_join(seq![none], seq![none]);
    lemma_one_name(none);
    assert(components(platform, "/"@) =~= seq![seq!['/']]);
    assert(near.subrange(0, 1) =~= seq![seq!['/']]);
}

proof fn lemma_first_component(platform: Platform, name: Seq<char>, rest: Seq<char>)
    requires
        platform != Platform::Windows,
        !name.contains('/'),
        !names_nothing(name),
    ensures
        components(platform, seq!['/'] + name + seq!['/'] + rest).len() >= 2,
        components(platform, seq!['/'] + name + seq!['/'] + rest)[1] == name,
{
    let none = Seq::<char>::empty();
    let whole = seq!['/'] + name + seq!['/'] + rest;
    let behind = name + seq!['/'] + rest;
    assert(whole =~= none + seq!['/'] + behind);
    law_separator_parts_the_pieces(none, '/', behind);
    law_separator_parts_the_pieces(name, '/', rest);
    law_text_without_separator_is_one_piece(none, '/');
    law_text_without_separator_is_one_piece(name, '/');
    lemma_one_name(none);
    lemma_one_name(name);
    lemma_names_join(seq![none], seq![name] + split(rest, '/'));
    lemma_names_join(seq![name], split(rest, '/'));
    assert(whole.skip(0) =~= whole);
    assert(components(platform, whole) =~= seq![seq!['/']] + (seq![name] + names(
        split(rest, '/'),
    )));
}

/// Away from Windows, a path from the root that goes into another directory does not
/// lie below.
pub proof fn law_path_into_another_directory_lies_elsewhere(
    platform: Platform,
    a: Seq<char>,
    x: Seq<char>,
    b: Seq<char>,
    y: Seq<char>,
)
    requires
        platform != Platform::Windows,
        is_file_name(platform, a),
        is_file_name(platform, b),
        !a.contains('/'),
        !b.contains('/'),
        a != b,
    ensures
        !lies_below(platform, "/"@ + a + "/"@ + x, "/"@ + b + "/"@ + y),
{
    reveal_strlit("/");
    assert("/"@ =~= seq!['/']);
    lemma_first_component(platform, a, x);
    lemma_first_component(platform, b, y);
    let near = components(platform, "/"@ + a + "/"@ + x);
    let far = components(platform, "/"@ + b + "/"@ + y);
    if near.is_prefix_of(far) {
        assert(near[1] == far.subrange(0, near.len() as int)[1]);
    }
}

/// On Windows a path on another drive does not lie below, and the case of a drive's
/// letter makes no other drive of it.
pub proof fn law_path_on_another_drive_lies_elsewhere(root: Seq<char>, relative: Seq<char>)
    requires
        has_drive(Platform::Windows, root),
        has_drive(Platform::Windows, relative),
    ensures
        ascii_lowercase(root)[0] != ascii_lowercase(relative)[0] ==> !lies_below(
            Platform::Windows,
            root,
            relative,
        ),
        ascii_lowercase(root) == ascii_lowercase(relative) ==> components(
            Platform::Windows,
            root,
        )[0] == components(Platform::Windows, relative)[0],
{
    let near = components(Platform::Windows, root);
    let far = components(Platform::Windows, relative);
    assert(near[0] == ascii_lowercase(root.take(2)));
    assert(far[0] == ascii_lowercase(relative.take(2)));
    assert(near[0][0] == ascii_lowercase(root)[0]);
    assert(far[0][0] == ascii_lowercase(relative)[0]);
    if near.is_prefix_of(far) {
        assert(near[0] == far.subrange(0, near.len() as int)[0]);
    }
    if ascii_lowercase(root) == ascii_lowercase(relative) {
        assert(near[0][1] == ascii_lowercase(root)[1]);
        assert(far[0][1] == ascii_lowercase(relative)[1]);
        assert(near[0] =~= far[0]);
    }
}

/// A path that climbs is refused wherever it climbs, and one in which no two dots
/// stand together and no drive is named is not.
pub proof fn law_climbing_paths_leave_the_directory(
    platform: Platform,
    s: &str,
    before: Seq<char>,
    after: Seq<char>,
    r: bool,
)
    requires
        call_ensures(leaves_directory, (platform, s), r),
    ensures
        s@ == before + "/../"@ + after || s@ == before + "/.."@ || s@ == "../"@ + after || s@
            == ".."@ ==> r,
        (forall|i: int| 0 <= i < s@.len() - 1 ==> #[trigger] s@[i] != '.' || s@[i + 1] != '.') && (
        platform == Platform::Windows ==> !s@.contains(':')) ==> !r,
{
    law_parent_directory_climbs(platform, before, after);
    if forall|i: int| 0 <= i < s@.len() - 1 ==> #[trigger] s@[i] != '.' || s@[i + 1] != '.' {
        law_path_without_two_dots_does_not_climb(platform, s@);
    }
    if rooted_on_drive(platform, s@) {
        assert(s@.contains(s@[1]));
    }
}

/// A plain text is the name of a file, is its path's only name, and has what stands
/// behind its last dot as its extension.
pub proof fn law_plain_names_are_recognized(
    platform: Platform,
    s: &str,
    stem: Seq<char>,
    ending: Seq<char>,
    whole: bool,
    sole: Option<Vec<char>>,
    chars: &Vec<char>,
    found: Option<Vec<char>>,
)
    requires
        s@ == stem + "."@ + ending,
        stem.len() > 0,
        !ending.contains('.'),
        !s@.contains('/') && !s@.contains('\\') && !s@.contains(':'),
        s@ != ".."@,
        chars@ == s@,
        call_ensures(is_whole_file_name, (platform, s), whole),
        call_ensures(sole_name, (platform, s), sole),
        call_ensures(extension_of, (chars,), found),
    ensures
        whole,
        sole matches Some(name) && name@ == s@,
        found matches Some(e) && e@ == ending,
{
    reveal_strlit(".");
    reveal_strlit("");
    assert(s@.len() >= 2);
    law_plain_text_is_a_file_name(platform, s@);
    law_only_name_is_the_name(platform, s@, s@);
    law_extension_stands_behind_the_last_dot(stem, ending);
}

/// Away from Windows a file is below its directory by its relative path and by its
/// whole path alike.
pub proof fn law_files_are_below_their_directory(
    platform: Platform,
    root: &str,
    relative: &str,
    rest: Seq<char>,
    r: bool,
)
    requires
        platform != Platform::Windows,
        root@.len() > 0,
        root@[0] == '/',
        call_ensures(is_below, (platform, root, relative), r),
    ensures
        relative@ == root@ + "/"@ + rest ==> r,
        relative@.len() > 0 && relative@[0] != '/' ==> r,
{
    law_path_behind_its_directory_lies_below(platform, root@, rest);
    if relative@.len() > 0 && relative@[0] != '/' {
        law_plain_paths_lie_below(platform, root@, relative@);
    }
}

proof fn lemma_share(a: Seq<char>, b: Seq<char>, rest: Seq<char>)
    requires
        a.len() > 0,
        b.len() > 0,
        !a.contains('/') && !a.contains('\\'),
        !b.contains('/') && !b.contains('\\'),
    ensures
        prefix_len(Platform::Windows, seq!['\\', '\\'] + a + seq!['\\'] + b + seq!['\\'] + rest)
            == 3 + a.len() + b.len(),
        slashed(
            Platform::Windows,
            (seq!['\\', '\\'] + a + seq!['\\'] + b + seq!['\\'] + rest).take(
                3 + a.len() as int + b.len(),
            ),
        ) == seq!['/', '/'] + a + seq!['/'] + b,
{
    let w = Platform::Windows;
    let s = seq!['\\', '\\'] + a + seq!['\\'] + b + seq!['\\'] + rest;
    lemma_slashed_keeps(w, a);
    lemma_slashed_keeps(w, b);
    let tail = slashed(w, rest);
    let two = b + seq!['/'] + tail;
    assert(slashed(w, s.skip(2)) =~= slashed(w, a) + seq!['/'] + (slashed(w, b) + seq!['/'] + tail));
    law_separator_parts_the_pieces(a, '/', two);
    law_separator_parts_the_pieces(b, '/', tail);
    law_text_without_separator_is_one_piece(a, '/');
    law_text_without_separator_is_one_piece(b, '/');
    let parts = pieces(w, s.skip(2));
    assert(parts =~= seq![a] + (seq![b] + split(tail, '/')));
    assert(parts[0] == a && parts[1] == b);
    let head = s.take(3 + a.len() as int + b.len());
    assert(head =~= seq!['\\', '\\'] + a + seq!['\\'] + b);
    assert(slashed(w, head) =~= seq!['/', '/'] + slashed(w, a) + seq!['/'] + slashed(w, b));
}

/// On Windows a path on another share does not lie below.
pub proof fn law_path_on_another_share_lies_elsewhere(
    root: Seq<char>,
    relative: Seq<char>,
    a: Seq<char>,
    b: Seq<char>,
    x: Seq<char>,
    c: Seq<char>,
    d: Seq<char>,
    y: Seq<char>,
)
    requires
        a.len() > 0 && b.len() > 0 && c.len() > 0 && d.len() > 0,
        !a.contains('/') && !a.contains('\\') && !a.contains('?'),
        !b.contains('/') && !b.contains('\\'),
        !c.contains('/') && !c.contains('\\') && !c.contains('?'),
        !d.contains('/') && !d.contains('\\'),
        root == seq!['\\', '\\'] + a + seq!['\\'] + b + seq!['\\'] + x,
        relative == seq!['\\', '\\'] + c + seq!['\\'] + d + seq!['\\'] + y,
        a != c || b != d,
    ensures
        !lies_below(Platform::Windows, root, relative),
{
    let w = Platform::Windows;
    lemma_share(a, b, x);
    lemma_share(c, d, y);
    assert(root[2] == a[0] && relative[2] == c[0]);
    assert(a.contains(a[0]) && c.contains(c[0]));
    let near = components(w, root);
    let far = components(w, relative);
    let p = seq!['/', '/'] + a + seq!['/'] + b;
    let q = seq!['/', '/'] + c + seq!['/'] + d;
    assert(near[0] == p);
    assert(far[0] == q);
    if p == q {
        if a.len() < c.len() {
            assert(p[2 + a.len() as int] == '/');
            assert(q[2 + a.len() as int] == c[a.len() as int]);
            assert(c.contains(c[a.len() as int]));
        } else if a.len() > c.len() {
            assert(q[2 + c.len() as int] == '/');
            assert(p[2 + c.len() as int] == a[c.len() as int]);
            assert(a.contains(a[c.len() as int]));
        } else {
            let n = a.len() as int;
            assert(p.subrange(2, 2 + n) =~= a);
            assert(q.subrange(2, 2 + n) =~= c);
            assert(p.skip(3 + n) =~= b);
            assert(q.skip(3 + n) =~= d);
        }
    }
    if near.is_prefix_of(far) {
        assert(near[0] == far.subrange(0, near.len() as int)[0]);
    }
}

} // verus!
