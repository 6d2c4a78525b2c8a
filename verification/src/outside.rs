//! Calls into other crates and into parts of the standard library that carry
//! no specification of their own. What their contracts claim is not proved
//! here.

use crate::text::{ascii_hex_digit, split, string_text};
use vstd::prelude::*;
use vstd::utf8::{encode_utf8, valid_utf8};

verus! {

/// The pattern of a version: `v`, then numbers with dots between them, which
/// are captured.
pub const VERSION_PATTERN: &'static str = "v(\\d+(?:\\.\\d+)+)";

/// What the first group of the regular expression `pattern` captures in `text`
/// at its leftmost match.
pub uninterp spec fn first_group(pattern: Seq<char>, text: Seq<char>) -> Option<Seq<char>>;

/// The decimal digits of every script: Unicode's general category
/// `Decimal_Number`, in version 16.0.
pub open spec fn decimal_digit(c: char) -> bool {
    let n = c as u32;
    ||| 0x30 <= n <= 0x39
    ||| 0x660 <= n <= 0x669
    ||| 0x6f0 <= n <= 0x6f9
    ||| 0x7c0 <= n <= 0x7c9
    ||| 0x966 <= n <= 0x96f
    ||| 0x9e6 <= n <= 0x9ef
    ||| 0xa66 <= n <= 0xa6f
    ||| 0xae6 <= n <= 0xaef
    ||| 0xb66 <= n <= 0xb6f
    ||| 0xbe6 <= n <= 0xbef
    ||| 0xc66 <= n <= 0xc6f
    ||| 0xce6 <= n <= 0xcef
    ||| 0xd66 <= n <= 0xd6f
    ||| 0xde6 <= n <= 0xdef
    ||| 0xe50 <= n <= 0xe59
    ||| 0xed0 <= n <= 0xed9
    ||| 0xf20 <= n <= 0xf29
    ||| 0x1040 <= n <= 0x1049
    ||| 0x1090 <= n <= 0x1099
    ||| 0x17e0 <= n <= 0x17e9
    ||| 0x1810 <= n <= 0x1819
    ||| 0x1946 <= n <= 0x194f
    ||| 0x19d0 <= n <= 0x19d9
    ||| 0x1a80 <= n <= 0x1a89
    ||| 0x1a90 <= n <= 0x1a99
    ||| 0x1b50 <= n <= 0x1b59
    ||| 0x1bb0 <= n <= 0x1bb9
    ||| 0x1c40 <= n <= 0x1c49
    ||| 0x1c50 <= n <= 0x1c59
    ||| 0xa620 <= n <= 0xa629
    ||| 0xa8d0 <= n <= 0xa8d9
    ||| 0xa900 <= n <= 0xa909
    ||| 0xa9d0 <= n <= 0xa9d9
    ||| 0xa9f0 <= n <= 0xa9f9
    ||| 0xaa50 <= n <= 0xaa59
    ||| 0xabf0 <= n <= 0xabf9
    ||| 0xff10 <= n <= 0xff19
    ||| 0x104a0 <= n <= 0x104a9
    ||| 0x10d30 <= n <= 0x10d39
    ||| 0x10d40 <= n <= 0x10d49
    ||| 0x11066 <= n <= 0x1106f
    ||| 0x110f0 <= n <= 0x110f9
    ||| 0x11136 <= n <= 0x1113f
    ||| 0x111d0 <= n <= 0x111d9
    ||| 0x112f0 <= n <= 0x112f9
    ||| 0x11450 <= n <= 0x11459
    ||| 0x114d0 <= n <= 0x114d9
    ||| 0x11650 <= n <= 0x11659
    ||| 0x116c0 <= n <= 0x116c9
    ||| 0x116d0 <= n <= 0x116e3
    ||| 0x11730 <= n <= 0x11739
    ||| 0x118e0 <= n <= 0x118e9
    ||| 0x11950 <= n <= 0x11959
    ||| 0x11bf0 <= n <= 0x11bf9
    ||| 0x11c50 <= n <= 0x11c59
    ||| 0x11d50 <= n <= 0x11d59
    ||| 0x11da0 <= n <= 0x11da9
    ||| 0x11f50 <= n <= 0x11f59
    ||| 0x16130 <= n <= 0x16139
    ||| 0x16a60 <= n <= 0x16a69
    ||| 0x16ac0 <= n <= 0x16ac9
    ||| 0x16b50 <= n <= 0x16b59
    ||| 0x16d70 <= n <= 0x16d79
    ||| 0x1ccf0 <= n <= 0x1ccf9
    ||| 0x1d7ce <= n <= 0x1d7ff
    ||| 0x1e140 <= n <= 0x1e149
    ||| 0x1e2f0 <= n <= 0x1e2f9
    ||| 0x1e4f0 <= n <= 0x1e4f9
    ||| 0x1e5f1 <= n <= 0x1e5fa
    ||| 0x1e950 <= n <= 0x1e959
    ||| 0x1fbf0 <= n <= 0x1fbf9
}

/// Two or more runs of digits with single dots between them.
pub open spec fn dotted_number(t: Seq<char>) -> bool {
    &&& split(t, '.').len() >= 2
    &&& forall|i: int|
        0 <= i < split(t, '.').len() ==> digit_run(#[trigger] split(t, '.')[i])
}

/// One or more decimal digits.
pub open spec fn digit_run(t: Seq<char>) -> bool {
    t.len() > 0 && forall|i: int| 0 <= i < t.len() ==> decimal_digit(#[trigger] t[i])
}

/// At position `i` of `s` stands a `v` and behind it the version `t`.
pub open spec fn version_at(s: Seq<char>, i: int, t: Seq<char>) -> bool {
    &&& 0 <= i && i + 1 + t.len() <= s.len()
    &&& s[i] == 'v'
    &&& s.subrange(i + 1, i + 1 + t.len()) == t
    &&& dotted_number(t)
}

/// `found` is the longest version behind the first `v` that has a version
/// behind it.
pub open spec fn first_version(s: Seq<char>, found: Option<Seq<char>>) -> bool {
    match found {
        None => forall|i: int, t: Seq<char>| !version_at(s, i, t),
        Some(v) => exists|at: int|
            {
                &&& #[trigger] version_at(s, at, v)
                &&& forall|i: int, t: Seq<char>| #[trigger] version_at(s, i, t) ==> at <= i
                &&& forall|t: Seq<char>| #[trigger] version_at(s, at, t) ==> t.len() <= v.len()
            },
    }
}

/// `regex::Regex::captures` on the expression that `regex::Regex::new` makes of
/// `pattern`, and its first group. The result is a function of both texts, and
/// none where `pattern` is no expression. For the version pattern it is the
/// longest version behind the first `v` that has one behind it: a search takes
/// the leftmost match, the repetitions are greedy, and `\d` is a decimal digit of
/// any script. What other patterns capture is left unsaid.
#[verifier::external_body]
pub(crate) fn capture_first_group(pattern: &str, text: &str) -> (r: Option<String>)
    ensures
        string_text(r) == first_group(pattern@, text@),
        pattern@ == VERSION_PATTERN@ ==> first_version(text@, string_text(r)),
{
    let expression = regex::Regex::new(pattern).ok()?;
    let captures = expression.captures(text)?;
    captures.get(1).map(|m| m.as_str().to_string())
}

/// The value of a hexadecimal digit.
pub open spec fn hex_value(b: u8) -> u8 {
    if b <= 57 {
        (b - 48) as u8
    } else if b <= 70 {
        (b - 55) as u8
    } else {
        (b - 87) as u8
    }
}

/// `b` with every `%` and the two hexadecimal digits behind it turned into the
/// byte that they write; a `%` without two such digits stands for itself.
pub open spec fn percent_decoded(b: Seq<u8>) -> Seq<u8>
    decreases b.len(),
{
    if b.len() == 0 {
        b
    } else if b[0] == 37 && b.len() >= 3 && ascii_hex_digit(b[1] as char) && ascii_hex_digit(
        b[2] as char,
    ) {
        seq![(hex_value(b[1]) * 16 + hex_value(b[2])) as u8] + percent_decoded(b.skip(3))
    } else {
        seq![b[0]] + percent_decoded(b.skip(1))
    }
}

/// `urlencoding::decode` reads percent escapes in the UTF-8 bytes of `text`.
/// It fails exactly where the decoded bytes are no UTF-8.
#[verifier::external_body]
pub(crate) fn percent_decode(text: &str) -> (r: Option<String>)
    ensures
        r is Some <==> valid_utf8(percent_decoded(encode_utf8(text@))),
        r matches Some(s) ==> encode_utf8(s@) == percent_decoded(encode_utf8(text@)),
{
    urlencoding::decode(text).ok().map(|decoded| decoded.into_owned())
}

/// The scheme and the serialization of the absolute URL that a text writes.
pub uninterp spec fn parsed_url(text: Seq<char>) -> Option<(Seq<char>, Seq<char>)>;

/// `reqwest::Url::parse`, with the `scheme` and the `as_str` of what it
/// returns. The result is a function of the text. The serialization begins
/// with the scheme and a colon.
#[verifier::external_body]
pub(crate) fn parse_url(text: &str) -> (r: Option<(String, String)>)
    ensures
        match r {
            Some(url) => parsed_url(text@) == Some((url.0@, url.1@)),
            None => parsed_url(text@) is None,
        },
        r matches Some(url) ==> url.0@.push(':').is_prefix_of(url.1@),
{
    let url = reqwest::Url::parse(text).ok()?;
    Some((url.scheme().to_string(), url.as_str().to_string()))
}

/// `num_cpus::get` tells how many CPUs are available. It depends on the machine
/// and is at least one.
#[verifier::external_body]
pub(crate) fn cpu_count() -> (r: usize)
    ensures
        r >= 1,
{
    num_cpus::get()
}

/// The lower-case form of a text by Unicode's rules.
pub uninterp spec fn unicode_lowercase(text: Seq<char>) -> Seq<char>;

/// `str::to_lowercase` gives the lower-case form by Unicode's rules, which is a
/// function of the text.
#[verifier::external_body]
pub(crate) fn to_lowercase(text: &str) -> (r: String)
    ensures
        r@ == unicode_lowercase(text@),
{
    text.to_lowercase()
}

/// `std::io::Cursor`, the reader over bytes in memory.
#[verifier::external_type_specification]
#[verifier::external_body]
#[verifier::reject_recursive_types(T)]
pub struct ExCursor<T>(std::io::Cursor<T>);

/// `zip::ZipArchive`, an opened ZIP file.
#[verifier::external_type_specification]
#[verifier::external_body]
#[verifier::reject_recursive_types(R)]
pub struct ExZipArchive<R>(zip::ZipArchive<R>);

/// What an opened archive holds, in the order of its directory: for each entry
/// its name and its size, or the reason why it cannot be opened; and with it
/// the bytes that it unpacks to, or the reason why it cannot be unpacked.
pub uninterp spec fn archive_entries(
    archive: zip::ZipArchive<std::io::Cursor<Vec<u8>>>,
) -> Seq<(Result<(Seq<char>, u64), Seq<char>>, Result<Seq<u8>, Seq<char>>)>;

/// What the ZIP file with the given bytes holds, or the reason why it is none.
pub uninterp spec fn zip_entries(
    bytes: Seq<u8>,
) -> Result<
    Seq<(Result<(Seq<char>, u64), Seq<char>>, Result<Seq<u8>, Seq<char>>)>,
    Seq<char>,
>;

/// `zip::ZipArchive::new` reads the directory of the ZIP file with the given
/// bytes; what it holds, or the error's text, is a function of the bytes.
#[verifier::external_body]
pub(crate) fn open_archive(bytes: Vec<u8>) -> (r: Result<
    zip::ZipArchive<std::io::Cursor<Vec<u8>>>,
    String,
>)
    ensures
        match r {
            Ok(archive) => zip_entries(bytes@) == Ok::<_, Seq<char>>(archive_entries(archive)),
            Err(e) => zip_entries(bytes@) == Err::<
                Seq<(Result<(Seq<char>, u64), Seq<char>>, Result<Seq<u8>, Seq<char>>)>,
                _,
            >(e@),
        },
{
    zip::ZipArchive::new(std::io::Cursor::new(bytes)).map_err(|e| e.to_string())
}

/// `zip::ZipArchive::len` is the number of entries.
#[verifier::external_body]
pub(crate) fn archive_len(archive: &zip::ZipArchive<std::io::Cursor<Vec<u8>>>) -> (r: usize)
    ensures
        r == archive_entries(*archive).len(),
{
    archive.len()
}

/// `zip::ZipArchive::by_index` opens an entry; `name`, `size` and `is_dir`
/// describe it. A directory is an entry whose name ends with `/` or `\\`.
/// The archive holds the same afterwards.
#[verifier::external_body]
pub(crate) fn archive_entry(
    archive: &mut zip::ZipArchive<std::io::Cursor<Vec<u8>>>,
    index: usize,
) -> (r: Result<(String, u64, bool), String>)
    requires
        index < archive_entries(*old(archive)).len(),
    ensures
        archive_entries(*final(archive)) == archive_entries(*old(archive)),
        match r {
            Ok(entry) => archive_entries(*old(archive))[index as int].0 == Ok::<_, Seq<char>>(
                (entry.0@, entry.1),
            ),
            Err(e) => archive_entries(*old(archive))[index as int].0 == Err::<(Seq<char>, u64), _>(
                e@,
            ),
        },
        r matches Ok(entry) ==> entry.2 == (entry.0@.len() > 0 && (entry.0@.last() == '/'
            || entry.0@.last() == '\\')),
{
    let entry = archive.by_index(index).map_err(|e| e.to_string())?;
    Ok((entry.name().to_string(), entry.size(), entry.is_dir()))
}

/// `zip::ZipArchive::by_index` opens an entry and `std::io::copy` unpacks it
/// into memory. The archive holds the same afterwards.
#[verifier::external_body]
pub(crate) fn archive_data(
    archive: &mut zip::ZipArchive<std::io::Cursor<Vec<u8>>>,
    index: usize,
) -> (r: Result<Vec<u8>, String>)
    requires
        index < archive_entries(*old(archive)).len(),
    ensures
        archive_entries(*final(archive)) == archive_entries(*old(archive)),
        match r {
            Ok(data) => archive_entries(*old(archive))[index as int].1 == Ok::<_, Seq<char>>(data@),
            Err(e) => archive_entries(*old(archive))[index as int].1 == Err::<Seq<u8>, _>(e@),
        },
{
    let mut entry = archive.by_index(index).map_err(|e| e.to_string())?;
    let mut data = Vec::new();
    std::io::copy(&mut entry, &mut data).map_err(|e| e.to_string())?;
    Ok(data)
}

} // verus!
