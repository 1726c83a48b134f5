//! Character-level text primitives shared by the converters and renderers.

use vstd::prelude::*;
use vstd::string::StringSliceAdditionalSpecFns;

verus! {

/// `String::push` appends one character at the end of the string.
pub assume_specification[ String::push ](s: &mut String, c: char)
    ensures
        final(s)@ == old(s)@.push(c),
;

/// The characters of `s`, in order.
pub fn chars_of(s: &str) -> (out: Vec<char>)
    ensures
        out@ == s@,
{
    let mut out: Vec<char> = Vec::new();
    for c in it: s.chars()
        invariant
            it.seq() == s@,
            out@ == it.seq().take(it.index() as int),
    {
        out.push(c);
    }
    out
}

/// The string made of the characters of `chars`, in order.
pub fn string_of(chars: &Vec<char>) -> (out: String)
    ensures
        out@ == chars@,
{
    let mut out = String::new();
    let mut i: usize = 0;
    while i < chars.len()
        invariant
            i <= chars.len(),
            out@ == chars@.take(i as int),
        decreases chars.len() - i,
    {
        out.push(chars[i]);
        i += 1;
    }
    out
}

/// Whether two strings hold the same characters.
pub fn same_text(a: &str, b: &str) -> (same: bool)
    ensures
        same == (a@ == b@),
{
    let x = a.as_bytes();
    let y = b.as_bytes();
    proof {
        vstd::utf8::encode_utf8_decode_utf8(a@);
        vstd::utf8::encode_utf8_decode_utf8(b@);
    }
    if x.len() != y.len() {
        return false;
    }
    let mut i: usize = 0;
    while i < x.len()
        invariant
            i <= x.len() == y.len(),
            x@ == a.spec_bytes(),
            y@ == b.spec_bytes(),
            x@.take(i as int) == y@.take(i as int),
        decreases x.len() - i,
    {
        if x[i] != y[i] {
            return false;
        }
        proof {
            assert(x@.take(i + 1) =~= x@.take(i as int).push(x@[i as int]));
            assert(y@.take(i + 1) =~= y@.take(i as int).push(y@[i as int]));
        }
        i += 1;
    }
    proof {
        assert(x@.take(i as int) =~= x@);
        assert(y@.take(i as int) =~= y@);
    }
    true
}

/// The characters that count as whitespace: those with the Unicode property
/// `White_Space`.
pub open spec fn is_whitespace(c: char) -> bool {
    let n = c as u32;
    ||| 0x09 <= n <= 0x0d
    ||| n == 0x20
    ||| n == 0x85
    ||| n == 0xa0
    ||| n == 0x1680
    ||| 0x2000 <= n <= 0x200a
    ||| n == 0x2028
    ||| n == 0x2029
    ||| n == 0x202f
    ||| n == 0x205f
    ||| n == 0x3000
}

/// Tells whether `c` is whitespace.
pub fn is_whitespace_char(c: char) -> (b: bool)
    ensures
        b == is_whitespace(c),
{
    let n: u32 = c as u32;
    (0x09 <= n && n <= 0x0d) || n == 0x20 || n == 0x85 || n == 0xa0 || n == 0x1680 || (0x2000 <= n
        && n <= 0x200a) || n == 0x2028 || n == 0x2029 || n == 0x202f || n == 0x205f || n == 0x3000
}

/// `s` without the whitespace at its start.
pub open spec fn trim_start(s: Seq<char>) -> Seq<char>
    decreases s.len(),
{
    if s.len() > 0 && is_whitespace(s[0]) {
        trim_start(s.skip(1))
    } else {
        s
    }
}

/// `s` without the whitespace at its end.
pub open spec fn trim_end(s: Seq<char>) -> Seq<char>
    decreases s.len(),
{
    if s.len() > 0 && is_whitespace(s.last()) {
        trim_end(s.drop_last())
    } else {
        s
    }
}

/// `s` without the whitespace at its start and at its end.
pub open spec fn trim(s: Seq<char>) -> Seq<char> {
    trim_end(trim_start(s))
}

/// The part of `chars` from `from` up to `to`, without the whitespace at its
/// start and at its end.
pub(crate) fn trimmed(chars: &Vec<char>, from: usize, to: usize) -> (out: Vec<char>)
    requires
        from <= to <= chars.len(),
    ensures
        out@ == trim(chars@.subrange(from as int, to as int)),
{
    let ghost s = chars@.subrange(from as int, to as int);
    let mut start: usize = from;
    while start < to && is_whitespace_char(chars[start])
        invariant
            from <= start <= to <= chars.len(),
            trim_start(s) == trim_start(chars@.subrange(start as int, to as int)),
        decreases to - start,
    {
        proof {
            assert(chars@.subrange(start as int, to as int).skip(1) =~= chars@.subrange(
                start + 1,
                to as int,
            ));
        }
        start += 1;
    }
    let mut end: usize = to;
    while start < end && is_whitespace_char(chars[end - 1])
        invariant
            start <= end <= to <= chars.len(),
            trim(s) == trim_end(chars@.subrange(start as int, end as int)),
        decreases end - start,
    {
        proof {
            assert(chars@.subrange(start as int, end as int).drop_last() =~= chars@.subrange(
                start as int,
                end - 1,
            ));
        }
        end -= 1;
    }
    let mut out: Vec<char> = Vec::new();
    let mut i: usize = start;
    while i < end
        invariant
            start <= i <= end <= chars.len(),
            out@ == chars@.subrange(start as int, i as int),
        decreases end - i,
    {
        out.push(chars[i]);
        i += 1;
    }
    out
}

/// `s` without the whitespace at its start and at its end.
pub fn trim_string(s: &str) -> (out: String)
    ensures
        out@ == trim(s@),
{
    let chars = chars_of(s);
    let out = string_of(&trimmed(&chars, 0, chars.len()));
    proof {
        assert(chars@.subrange(0, chars.len() as int) =~= s@);
    }
    out
}

/// The part of `chars` from `from` up to `to`.
pub(crate) fn slice_of(chars: &Vec<char>, from: usize, to: usize) -> (out: Vec<char>)
    requires
        from <= to <= chars.len(),
    ensures
        out@ == chars@.subrange(from as int, to as int),
{
    let mut out: Vec<char> = Vec::new();
    let mut i: usize = from;
    while i < to
        invariant
            from <= i <= to <= chars.len(),
            out@ == chars@.subrange(from as int, i as int),
        decreases to - i,
    {
        out.push(chars[i]);
        i += 1;
    }
    out
}

/// The position of the first line feed in `s`, or the length of `s` where
/// it holds none.
pub open spec fn first_newline(s: Seq<char>) -> int
    decreases s.len(),
{
    if s.len() == 0 || s[0] == '\n' {
        0
    } else {
        1 + first_newline(s.skip(1))
    }
}

/// The position `i` is the first line feed of `s` where it holds one and
/// none stands before it; the length of `s` where `s` holds none.
pub proof fn lemma_first_newline_is(s: Seq<char>, i: int)
    requires
        0 <= i <= s.len(),
        i < s.len() ==> s[i] == '\n',
        forall|k: int| 0 <= k < i ==> s[k] != '\n',
    ensures
        first_newline(s) == i,
    decreases s.len(),
{
    if s.len() > 0 && s[0] != '\n' {
        assert forall|k: int| 0 <= k < i - 1 implies s.skip(1)[k] != '\n' by {}
        lemma_first_newline_is(s.skip(1), i - 1);
    }
}

/// A line without the carriage return that stood before its line feed.
pub open spec fn strip_cr(line: Seq<char>) -> Seq<char> {
    if line.len() > 0 && line.last() == '\r' {
        line.drop_last()
    } else {
        line
    }
}

/// The lines of `s`. A line ends at a line feed, or at a carriage return
/// followed by one; neither belongs to the line. What follows the last
/// line feed is a line if it is not empty, carriage return included.
pub open spec fn lines(s: Seq<char>) -> Seq<Seq<char>>
    decreases s.len(),
{
    if s.len() == 0 {
        Seq::empty()
    } else {
        let i = first_newline(s);
        if 0 <= i < s.len() {
            seq![strip_cr(s.take(i))] + lines(s.skip(i + 1))
        } else {
            seq![s]
        }
    }
}

/// The lines of `chars`.
pub fn split_lines(chars: &Vec<char>) -> (out: Vec<Vec<char>>)
    ensures
        out@.len() == lines(chars@).len(),
        forall|k: int| 0 <= k < out@.len() ==> (#[trigger] out@[k])@ == lines(chars@)[k],
{
    let mut out: Vec<Vec<char>> = Vec::new();
    let mut start: usize = 0;
    let n = chars.len();
    proof {
        assert(chars@.skip(0) =~= chars@);
    }
    while start < n
        invariant
            start <= n == chars.len(),
            lines(chars@).len() == out@.len() + lines(chars@.skip(start as int)).len(),
            forall|k: int| 0 <= k < out@.len() ==> (#[trigger] out@[k])@ == lines(chars@)[k],
            forall|k: int|
                0 <= k < lines(chars@.skip(start as int)).len() ==> lines(chars@)[out@.len() + k]
                    == #[trigger] lines(chars@.skip(start as int))[k],
        decreases n - start,
    {
        let ghost rest = chars@.skip(start as int);
        let mut end: usize = start;
        while end < n && chars[end] != '\n'
            invariant
                start <= end <= n == chars.len(),
                forall|k: int| start <= k < end ==> chars@[k] != '\n',
            decreases n - end,
        {
            end += 1;
        }
        proof {
            assert forall|k: int| 0 <= k < end - start implies rest[k] != '\n' by {}
            lemma_first_newline_is(rest, end - start);
        }
        if end < n {
            let line = if end > start && chars[end - 1] == '\r' {
                slice_of(chars, start, end - 1)
            } else {
                slice_of(chars, start, end)
            };
            proof {
                let next = chars@.skip(end + 1);
                assert(line@ == strip_cr(rest.take(end - start)));
                assert(rest.skip(end - start + 1) =~= next);
                assert(lines(rest)[0] == line@);
                assert forall|k: int| 0 <= k < lines(next).len() implies lines(chars@)[out@.len() + 1
                    + k] == #[trigger] lines(next)[k] by {
                    assert(lines(rest)[k + 1] == lines(next)[k]);
                }
            }
            out.push(line);
            start = end + 1;
        } else {
            let line = slice_of(chars, start, end);
            proof {
                assert(lines(rest)[0] == line@);
            }
            out.push(line);
            start = n;
        }
    }
    out
}

/// Whether `s` starts with `prefix`.
pub open spec fn starts_with(s: Seq<char>, prefix: Seq<char>) -> bool {
    prefix.len() <= s.len() && s.take(prefix.len() as int) == prefix
}

/// Tells whether `chars` starts with `prefix`.
pub fn has_prefix(chars: &Vec<char>, prefix: &Vec<char>) -> (b: bool)
    ensures
        b == starts_with(chars@, prefix@),
{
    if prefix.len() > chars.len() {
        return false;
    }
    let mut i: usize = 0;
    while i < prefix.len()
        invariant
            i <= prefix.len() <= chars.len(),
            chars@.take(i as int) == prefix@.take(i as int),
        decreases prefix.len() - i,
    {
        if chars[i] != prefix[i] {
            return false;
        }
        i += 1;
    }
    proof {
        assert(prefix@.take(prefix.len() as int) =~= prefix@);
    }
    true
}

/// The lines of `parts` joined by line feeds.
pub open spec fn join_lines(parts: Seq<Seq<char>>) -> Seq<char>
    decreases parts.len(),
{
    if parts.len() == 0 {
        Seq::empty()
    } else if parts.len() == 1 {
        parts[0]
    } else {
        join_lines(parts.drop_last()) + seq!['\n'] + parts.last()
    }
}

/// The views of a sequence of character vectors.
pub open spec fn rows_view(rows: Seq<Vec<char>>) -> Seq<Seq<char>> {
    Seq::new(rows.len(), |i: int| rows[i]@)
}

/// Joins the rows from `from` up to `to` by line feeds.
pub(crate) fn joined_range(parts: &Vec<Vec<char>>, from: usize, to: usize) -> (out: Vec<char>)
    requires
        from <= to <= parts.len(),
    ensures
        out@ == join_lines(rows_view(parts@).subrange(from as int, to as int)),
{
    let ghost rows = rows_view(parts@).subrange(from as int, to as int);
    let mut out: Vec<char> = Vec::new();
    let mut i: usize = from;
    while i < to
        invariant
            from <= i <= to <= parts.len(),
            rows == rows_view(parts@).subrange(from as int, to as int),
            out@ == join_lines(rows.take(i - from)),
        decreases to - i,
    {
        let ghost before = out@;
        if i > from {
            out.push('\n');
        }
        let part = &parts[i];
        let mut k: usize = 0;
        while k < part.len()
            invariant
                k <= part.len(),
                out@ == (if i > from {
                    before + seq!['\n']
                } else {
                    before
                }) + part@.take(k as int),
            decreases part.len() - k,
        {
            out.push(part[k]);
            k += 1;
        }
        proof {
            assert(rows.take(i + 1 - from).drop_last() =~= rows.take(i - from));
        }
        i += 1;
    }
    proof {
        assert(rows.take(to - from) =~= rows);
    }
    out
}

/// The character of a decimal digit.
pub open spec fn digit(d: int) -> char {
    if d == 0 {
        '0'
    } else if d == 1 {
        '1'
    } else if d == 2 {
        '2'
    } else if d == 3 {
        '3'
    } else if d == 4 {
        '4'
    } else if d == 5 {
        '5'
    } else if d == 6 {
        '6'
    } else if d == 7 {
        '7'
    } else if d == 8 {
        '8'
    } else {
        '9'
    }
}

/// The decimal digits of `n`, without leading zeros.
pub open spec fn decimal(n: nat) -> Seq<char>
    decreases n,
{
    if n < 10 {
        seq![digit(n as int)]
    } else {
        decimal(n / 10).push(digit((n % 10) as int))
    }
}

/// The character of the decimal digit `d`.
pub(crate) fn digit_char(d: u64) -> (c: char)
    requires
        d < 10,
    ensures
        c == digit(d as int),
{
    if d == 0 {
        '0'
    } else if d == 1 {
        '1'
    } else if d == 2 {
        '2'
    } else if d == 3 {
        '3'
    } else if d == 4 {
        '4'
    } else if d == 5 {
        '5'
    } else if d == 6 {
        '6'
    } else if d == 7 {
        '7'
    } else if d == 8 {
        '8'
    } else {
        '9'
    }
}

/// Appends the decimal digits of `n` to `out`.
pub fn push_decimal(out: &mut String, n: u64)
    ensures
        final(out)@ == old(out)@ + decimal(n as nat),
    decreases n,
{
    if n >= 10 {
        push_decimal(out, n / 10);
    }
    out.push(digit_char(n % 10));
}

/// The decimal digits of `n` as a string.
pub fn decimal_string(n: u64) -> (out: String)
    ensures
        out@ == decimal(n as nat),
{
    let mut out = String::new();
    push_decimal(&mut out, n);
    out
}

/// The lowercase form of a text as `str::to_lowercase` gives it.
pub uninterp spec fn lowercase(s: Seq<char>) -> Seq<char>;

/// `str::to_lowercase`: the lowercase equivalent of `s` as a new string.
#[verifier::external_body]
fn to_lowercase(s: &str) -> (out: String)
    ensures
        out@ == lowercase(s@),
{
    s.to_lowercase()
}

/// The lowercase form of `s`.
pub fn lowercased(s: &str) -> (out: String)
    ensures
        out@ == lowercase(s@),
{
    to_lowercase(s)
}

/// Whether a character is a letter or a digit as `char::is_alphanumeric`
/// tells it.
pub uninterp spec fn is_alphanumeric(c: char) -> bool;

/// `char::is_alphanumeric`: whether `c` is alphabetic or numeric.
#[verifier::external_body]
pub(crate) fn is_alphanumeric_char(c: char) -> (b: bool)
    ensures
        b == is_alphanumeric(c),
{
    c.is_alphanumeric()
}

/// The views of a sequence of strings.
pub open spec fn strings_view(strings: Seq<String>) -> Seq<Seq<char>> {
    Seq::new(strings.len(), |i: int| strings[i]@)
}

} // verus!
