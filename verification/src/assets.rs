//! Image assets: file names, media types and data URLs.

use vstd::prelude::*;
use vstd::string::StringExecFns;
use crate::text::{chars_of, decimal, lowercase, lowercased, push_decimal, same_text, slice_of, string_of};

verus! {

/// The character of a value of six bits in the Base64 alphabet.
pub open spec fn base64_digit(v: int) -> char {
    if v < 26 {
        ((65 + v) as u8) as char
    } else if v < 52 {
        ((71 + v) as u8) as char
    } else if v < 62 {
        ((v - 4) as u8) as char
    } else if v == 62 {
        '+'
    } else {
        '/'
    }
}

/// The four characters that stand for a group of one to three bytes; `=`
/// fills the places for which the group has no byte.
pub open spec fn base64_group(group: Seq<u8>) -> Seq<char> {
    let b0 = group[0] as int;
    let b1 = if group.len() > 1 {
        group[1] as int
    } else {
        0
    };
    let b2 = if group.len() > 2 {
        group[2] as int
    } else {
        0
    };
    seq![
        base64_digit(b0 / 4),
        base64_digit((b0 % 4) * 16 + b1 / 16),
        if group.len() > 1 {
            base64_digit((b1 % 16) * 4 + b2 / 64)
        } else {
            '='
        },
        if group.len() > 2 {
            base64_digit(b2 % 64)
        } else {
            '='
        },
    ]
}

/// The Base64 text of `data`, with padding.
pub open spec fn base64(data: Seq<u8>) -> Seq<char>
    decreases data.len(),
{
    if data.len() == 0 {
        Seq::empty()
    } else if data.len() <= 3 {
        base64_group(data)
    } else {
        base64_group(data.take(3)) + base64(data.skip(3))
    }
}

/// The Base64 text of `data` has four characters for every three bytes,
/// the last group filled up.
pub proof fn lemma_base64_len(data: Seq<u8>)
    ensures
        base64(data).len() == (data.len() + 2) / 3 * 4,
    decreases data.len(),
{
    if data.len() > 3 {
        lemma_base64_len(data.skip(3));
    }
}

/// The character of the six-bit value `v`.
fn digit_of(v: u8) -> (c: char)
    requires
        v < 64,
    ensures
        c == base64_digit(v as int),
{
    if v < 26 {
        (65 + v) as char
    } else if v < 52 {
        (71 + v) as char
    } else if v < 62 {
        (v - 4) as char
    } else if v == 62 {
        '+'
    } else {
        '/'
    }
}

/// Encodes `data` as Base64 with padding.
pub fn base64_encode(data: &[u8]) -> (out: String)
    ensures
        out@ == base64(data@),
{
    let n = data.len();
    let mut out = String::new();
    let mut i: usize = 0;
    proof {
        assert(data@.skip(0) =~= data@);
    }
    while i < n
        invariant
            i <= n == data.len(),
            out@ + base64(data@.skip(i as int)) == base64(data@),
        decreases n - i,
    {
        let ghost rest = data@.skip(i as int);
        let left = n - i;
        let b0 = data[i];
        let b1 = if left > 1 {
            data[i + 1]
        } else {
            0
        };
        let b2 = if left > 2 {
            data[i + 2]
        } else {
            0
        };
        out.push(digit_of(b0 / 4));
        out.push(digit_of((b0 % 4) * 16 + b1 / 16));
        if left > 1 {
            out.push(digit_of((b1 % 16) * 4 + b2 / 64));
        } else {
            out.push('=');
        }
        if left > 2 {
            out.push(digit_of(b2 % 64));
        } else {
            out.push('=');
        }
        proof {
            if left > 3 {
                assert(rest.skip(3) =~= data@.skip(i + 3));
            }
        }
        i = if left > 3 {
            i + 3
        } else {
            n
        };
    }
    out
}

/// The media type of an image whose extension, in lowercase, is `lower`.
pub open spec fn mime_of(lower: Seq<char>) -> Seq<char> {
    if lower == "jpg"@ || lower == "jpeg"@ {
        "image/jpeg"@
    } else if lower == "png"@ {
        "image/png"@
    } else if lower == "gif"@ {
        "image/gif"@
    } else if lower == "webp"@ {
        "image/webp"@
    } else if lower == "svg"@ {
        "image/svg+xml"@
    } else {
        "image/jpeg"@
    }
}

/// The media type of an image by its extension in lowercase.
pub fn mime_for_lowercase(lower: &str) -> (mime: &'static str)
    ensures
        mime@ == mime_of(lower@),
{
    if same_text(lower, "jpg") || same_text(lower, "jpeg") {
        "image/jpeg"
    } else if same_text(lower, "png") {
        "image/png"
    } else if same_text(lower, "gif") {
        "image/gif"
    } else if same_text(lower, "webp") {
        "image/webp"
    } else if same_text(lower, "svg") {
        "image/svg+xml"
    } else {
        "image/jpeg"
    }
}

/// The media type of an image by its extension, whatever its case.
pub fn image_mime_for_ext(ext: &str) -> (mime: &'static str)
    ensures
        mime@ == mime_of(lowercase(ext@)),
{
    let lower = lowercased(ext);
    mime_for_lowercase(lower.as_str())
}

/// Whether `c` is an ASCII letter or digit.
pub open spec fn is_ascii_alphanumeric(c: char) -> bool {
    let n = c as u32;
    (0x30 <= n <= 0x39) || (0x41 <= n <= 0x5a) || (0x61 <= n <= 0x7a)
}

/// Tells whether `c` is an ASCII letter or digit.
pub fn ascii_alphanumeric(c: char) -> (b: bool)
    ensures
        b == is_ascii_alphanumeric(c),
{
    let n: u32 = c as u32;
    (0x30 <= n && n <= 0x39) || (0x41 <= n && n <= 0x5a) || (0x61 <= n && n <= 0x7a)
}

/// What a character of a file name becomes: itself where it is an ASCII
/// letter or digit, `.`, `-` or `_`; else `_`.
pub open spec fn file_name_char(c: char) -> char {
    if is_ascii_alphanumeric(c) || c == '.' || c == '-' || c == '_' {
        c
    } else {
        '_'
    }
}

/// A file name with every character that is not safe replaced by `_`.
pub open spec fn sanitized_file_name(name: Seq<char>) -> Seq<char> {
    Seq::new(name.len(), |i: int| file_name_char(name[i]))
}

/// Replaces every character of `name` that is not safe in a file name.
pub fn sanitize_file_name(name: &str) -> (out: String)
    ensures
        out@ == sanitized_file_name(name@),
{
    let mut out = String::new();
    for c in it: name.chars()
        invariant
            it.seq() == name@,
            out@ == sanitized_file_name(name@.take(it.index() as int)),
    {
        let safe = if ascii_alphanumeric(c) || c == '.' || c == '-' || c == '_' {
            c
        } else {
            '_'
        };
        out.push(safe);
    }
    out
}

/// Where the file name of a path ends among its first `n` characters: a
/// `/` at the end does not count, and neither does a component `.`.
pub open spec fn file_end(path: Seq<char>, n: int) -> int
    decreases n,
{
    if n <= 0 {
        0
    } else if path[n - 1] == '/' {
        file_end(path, n - 1)
    } else if path[n - 1] == '.' && (n == 1 || path[n - 2] == '/') {
        file_end(path, n - 1)
    } else {
        n
    }
}

/// Where the component of a path that ends at `end` starts: behind the last
/// `/` before `end`, or at the start of the path.
pub open spec fn file_start(path: Seq<char>, end: int) -> int
    decreases end,
{
    if end <= 0 {
        0
    } else if path[end - 1] == '/' {
        end
    } else {
        file_start(path, end - 1)
    }
}

/// The file name of a path: its last component, with `/` between the
/// components; empty where the path has none.
pub open spec fn file_name(path: Seq<char>) -> Seq<char> {
    let end = file_end(path, path.len() as int);
    path.subrange(file_start(path, end), end)
}

/// The position of the last `.` among the first `n` characters of `name`,
/// or -1 where there is none.
pub open spec fn last_dot(name: Seq<char>, n: int) -> int
    decreases n,
{
    if n <= 0 {
        -1
    } else if name[n - 1] == '.' {
        n - 1
    } else {
        last_dot(name, n - 1)
    }
}

/// The extension of the file name of a path: what stands behind the last
/// `.` of the file name. There is none where the file name holds no `.`,
/// where its only `.` is its first character, and where it is `..`.
pub open spec fn file_extension(path: Seq<char>) -> Option<Seq<char>> {
    let file = file_name(path);
    let dot = last_dot(file, file.len() as int);
    if dot <= 0 || file == ".."@ {
        None
    } else {
        Some(file.skip(dot + 1))
    }
}

/// The extension of a path without its `.`; empty where it has none.
pub open spec fn extension(path: Seq<char>) -> Seq<char> {
    match file_extension(path) {
        Some(ext) => ext,
        None => Seq::empty(),
    }
}

/// The extension of a path with its `.`; empty where it has none.
pub open spec fn dot_extension(path: Seq<char>) -> Seq<char> {
    match file_extension(path) {
        Some(ext) => seq!['.'] + ext,
        None => Seq::empty(),
    }
}

/// The place of the extension of the path `path`: the position of its `.`
/// and the end of the file name.
fn find_extension(path: &Vec<char>) -> (place: Option<(usize, usize)>)
    ensures
        match place {
            Some((dot, end)) => dot < end <= path.len() && file_extension(path@) == Some(
                path@.subrange(dot + 1, end as int),
            ),
            None => file_extension(path@) is None,
        },
{
    let n = path.len();
    let mut end: usize = n;
    while end > 0 && (path[end - 1] == '/' || (path[end - 1] == '.' && (end == 1 || path[end - 2]
        == '/')))
        invariant
            end <= n == path.len(),
            file_end(path@, n as int) == file_end(path@, end as int),
        decreases end,
    {
        end -= 1;
    }
    let mut start: usize = end;
    while start > 0 && path[start - 1] != '/'
        invariant
            start <= end <= n == path.len(),
            file_start(path@, end as int) == file_start(path@, start as int),
        decreases start,
    {
        start -= 1;
    }
    let ghost file = path@.subrange(start as int, end as int);
    proof {
        assert(file == file_name(path@));
    }
    let mut k: usize = end;
    while k > start && path[k - 1] != '.'
        invariant
            start <= k <= end <= n == path.len(),
            file == path@.subrange(start as int, end as int),
            last_dot(file, file.len() as int) == last_dot(file, k - start),
        decreases k,
    {
        proof {
            assert(file[k - start - 1] == path@[k - 1]);
        }
        k -= 1;
    }
    proof {
        reveal_strlit("..");
        if k > start {
            assert(file[k - start - 1] == path@[k - 1]);
        }
        if end - start == 2 && path[start as int] == '.' && path[start + 1] == '.' {
            assert(file =~= ".."@);
        }
        if file == ".."@ {
            assert(file[0] == path@[start as int]);
            assert(file[1] == path@[start + 1]);
        }
    }
    if k <= start + 1 || (end - start == 2 && path[start] == '.' && path[start + 1] == '.') {
        None
    } else {
        proof {
            assert(file.skip(k - start) =~= path@.subrange(k as int, end as int));
        }
        Some((k - 1, end))
    }
}

/// The `n`-th name to try for a file that is to be stored as `name`: `name`
/// itself for 0, else `name` with `_n` in front of as many characters at
/// its end as its extension has with its `.`, and the extension behind.
pub open spec fn candidate_name(name: Seq<char>, n: nat) -> Seq<char> {
    if n == 0 {
        name
    } else {
        let tail = dot_extension(name);
        name.take(name.len() - tail.len()) + "_"@ + decimal(n) + tail
    }
}

/// The `n`-th name to try for a file that is to be stored as `name`.
pub fn asset_candidate(name: &str, n: u64) -> (out: String)
    ensures
        out@ == candidate_name(name@, n as nat),
{
    if n == 0 {
        return name.to_owned();
    }
    let chars = chars_of(name);
    match find_extension(&chars) {
        Some((dot, end)) => {
            let cut = chars.len() - (end - dot);
            let mut out = string_of(&slice_of(&chars, 0, cut));
            out.append("_");
            push_decimal(&mut out, n);
            let mut tail = String::new();
            tail.push('.');
            tail.append(string_of(&slice_of(&chars, dot + 1, end)).as_str());
            proof {
                assert(tail@ =~= dot_extension(name@));
                assert(chars@.subrange(0, cut as int) =~= name@.take(name@.len() - tail@.len()));
            }
            out.append(tail.as_str());
            out
        },
        None => {
            let mut out = name.to_owned();
            out.append("_");
            push_decimal(&mut out, n);
            proof {
                assert(name@.take(name@.len() - 0) =~= name@);
                assert(out@ =~= candidate_name(name@, n as nat));
            }
            out
        },
    }
}

/// The extension of the path `name`, without its `.`.
pub fn extension_of(name: &str) -> (out: String)
    ensures
        out@ == extension(name@),
{
    let chars = chars_of(name);
    match find_extension(&chars) {
        Some((dot, end)) => string_of(&slice_of(&chars, dot + 1, end)),
        None => String::new(),
    }
}

/// The data URL of an image with the bytes `data`, stored under `name`.
pub open spec fn data_url_of(name: Seq<char>, data: Seq<u8>) -> Seq<char> {
    "data:"@ + mime_of(lowercase(extension(name))) + ";base64,"@ + base64(data)
}

/// The data URL of an image with the bytes `data`, stored under `name`.
pub fn data_url(name: &str, data: &[u8]) -> (out: String)
    ensures
        out@ == data_url_of(name@, data@),
{
    let mut out = "data:".to_owned();
    out.append(image_mime_for_ext(extension_of(name).as_str()));
    out.append(";base64,");
    out.append(base64_encode(data).as_str());
    out
}

} // verus!
