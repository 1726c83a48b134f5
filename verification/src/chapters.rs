//! Splitting an imported text into chapters, and keeping chapter titles
//! distinct.

use vstd::prelude::*;
use vstd::string::StringExecFns;
use crate::text::{
    chars_of, decimal, has_prefix, join_lines, joined_range, lines, lowercase, lowercased,
    push_decimal, rows_view, same_text, split_lines, starts_with, string_of, trim, trimmed,
};

verus! {

/// A section of a text: its title and its content.
pub type SectionView = (Seq<char>, Seq<char>);

/// The models of a sequence of sections.
pub open spec fn sections_view(sections: Seq<(String, String)>) -> Seq<SectionView> {
    Seq::new(sections.len(), |i: int| (sections[i].0@, sections[i].1@))
}

/// The title of a section that has none of its own: `Chapter` and its
/// number.
pub open spec fn chapter_title(n: nat) -> Seq<char> {
    "Chapter "@ + decimal(n)
}

/// The title `Chapter N`.
pub fn chapter_title_string(n: u64) -> (out: String)
    ensures
        out@ == chapter_title(n as nat),
{
    let mut out = "Chapter ".to_owned();
    push_decimal(&mut out, n);
    out
}

/// What the splitter holds between two lines: the sections accepted so far,
/// and the title and the lines of the section that is open, if one is.
pub struct SplitState {
    pub sections: Seq<SectionView>,
    pub title: Option<Seq<char>>,
    pub body: Seq<Seq<char>>,
}

/// The sections once the open section is closed. Its content is its lines
/// joined and trimmed; with title extraction on, a section without content
/// is dropped.
pub open spec fn close_section(st: SplitState, extract_titles: bool) -> Seq<SectionView> {
    match st.title {
        Some(title) => {
            let content = trim(join_lines(st.body));
            if content.len() > 0 || !extract_titles {
                st.sections.push((title, content))
            } else {
                st.sections
            }
        },
        None => st.sections,
    }
}

/// The title that a delimiter line gives to the section it opens, `n` being
/// the number of that section: the trimmed text after the delimiter where
/// titles are extracted and that text is not empty, else `Chapter n`.
pub open spec fn delimiter_title(
    line: Seq<char>,
    delimiter: Seq<char>,
    extract_titles: bool,
    n: nat,
) -> Seq<char> {
    let rest = trim(line.skip(delimiter.len() as int));
    if extract_titles && rest.len() > 0 {
        rest
    } else {
        chapter_title(n)
    }
}

/// The state after one more line. A line that starts with the delimiter
/// closes the open section and opens the next; any other line belongs to the
/// open section, and is dropped where none is open.
pub open spec fn scan_line(
    st: SplitState,
    line: Seq<char>,
    delimiter: Seq<char>,
    extract_titles: bool,
) -> SplitState {
    if starts_with(line, delimiter) {
        let sections = close_section(st, extract_titles);
        SplitState {
            sections,
            title: Some(delimiter_title(line, delimiter, extract_titles, sections.len() + 1)),
            body: Seq::empty(),
        }
    } else if st.title is Some {
        SplitState { body: st.body.push(line), ..st }
    } else {
        st
    }
}

/// The state after all of `rows`, taken in order.
pub open spec fn scan(rows: Seq<Seq<char>>, delimiter: Seq<char>, extract_titles: bool) -> SplitState
    decreases rows.len(),
{
    if rows.len() == 0 {
        SplitState { sections: Seq::empty(), title: None, body: Seq::empty() }
    } else {
        scan_line(scan(rows.drop_last(), delimiter, extract_titles), rows.last(), delimiter, extract_titles)
    }
}

/// The sections of `content`. Where no section comes out, the whole of
/// `content` is the one section, titled `Chapter 1`.
pub open spec fn split_sections(
    content: Seq<char>,
    delimiter: Seq<char>,
    extract_titles: bool,
) -> Seq<SectionView> {
    let sections = close_section(scan(lines(content), delimiter, extract_titles), extract_titles);
    if sections.len() == 0 {
        seq![(chapter_title(1), content)]
    } else {
        sections
    }
}

/// Splits `content` into sections at the lines that start with `delimiter`.
pub fn split_by_delimiter(content: &str, delimiter: &str, extract_titles: bool) -> (sections: Vec<
    (String, String),
>)
    ensures
        sections_view(sections@) == split_sections(content@, delimiter@, extract_titles),
{
    let chars = chars_of(content);
    let rows = split_lines(&chars);
    let prefix = chars_of(delimiter);
    let ghost all = lines(content@);
    let mut sections: Vec<(String, String)> = Vec::new();
    let mut title: Option<String> = None;
    let mut body_start: usize = 0;
    let mut i: usize = 0;
    proof {
        assert(sections_view(sections@) =~= Seq::empty());
    }
    while i < rows.len()
        invariant
            i <= rows.len(),
            rows_view(rows@) == all,
            prefix@ == delimiter@,
            body_start <= i,
            title is Some ==> sections@.len() < i,
            title is None ==> sections@.len() == 0,
            scan(all.take(i as int), delimiter@, extract_titles) == (SplitState {
                sections: sections_view(sections@),
                title: crate::document::opt_view(title),
                body: if title is Some {
                    all.subrange(body_start as int, i as int)
                } else {
                    Seq::empty()
                },
            }),
        decreases rows.len() - i,
    {
        proof {
            assert(all.take(i + 1).drop_last() =~= all.take(i as int));
        }
        let row = &rows[i];
        if has_prefix(row, &prefix) {
            if let Some(open) = title {
                let body = trimmed_range(&rows, body_start, i);
                if body.len() > 0 || !extract_titles {
                    let content = string_of(&body);
                    proof {
                        assert(sections_view(sections@.push((open, content))) =~= sections_view(
                            sections@,
                        ).push((open@, content@)));
                    }
                    sections.push((open, content));
                }
            }
            let rest = trimmed(row, prefix.len(), row.len());
            let next = if extract_titles && rest.len() > 0 {
                string_of(&rest)
            } else {
                chapter_title_string((sections.len() + 1) as u64)
            };
            title = Some(next);
            body_start = i + 1;
            proof {
                assert(all.subrange(i + 1, i + 1) =~= Seq::empty());
            }
        } else {
            proof {
                if title is Some {
                    assert(all.subrange(body_start as int, i + 1) =~= all.subrange(
                        body_start as int,
                        i as int,
                    ).push(rows@[i as int]@));
                }
            }
        }
        i += 1;
    }
    proof {
        assert(all.take(i as int) =~= all);
    }
    if let Some(open) = title {
        let body = trimmed_range(&rows, body_start, i);
        if body.len() > 0 || !extract_titles {
            let content = string_of(&body);
            sections.push((open, content));
        }
    }
    if sections.len() == 0 {
        let whole = (chapter_title_string(1), content.to_owned());
        sections.push(whole);
    }
    sections
}

/// The rows from `from` up to `to`, joined by line feeds and trimmed.
fn trimmed_range(rows: &Vec<Vec<char>>, from: usize, to: usize) -> (out: Vec<char>)
    requires
        from <= to <= rows.len(),
    ensures
        out@ == trim(join_lines(rows_view(rows@).subrange(from as int, to as int))),
{
    let whole = joined_range(rows, from, to);
    let out = trimmed(&whole, 0, whole.len());
    proof {
        assert(whole@.subrange(0, whole.len() as int) =~= whole@);
    }
    out
}

/// The titles that a list of used titles holds.
pub open spec fn used_set(used: Seq<String>) -> Set<Seq<char>> {
    Set::new(|title: Seq<char>| exists|i: int| 0 <= i < used.len() && (#[trigger] used[i])@ == title)
}

/// Whether the lowercase form of `title` is among `used`.
pub open spec fn taken(used: Set<Seq<char>>, title: Seq<char>) -> bool {
    used.contains(lowercase(title))
}

/// `title` followed by a number in round brackets.
pub open spec fn numbered(title: Seq<char>, n: nat) -> Seq<char> {
    title + " ("@ + decimal(n) + ")"@
}

/// Whether `title` with each number from 1 up to, but not including, `n`
/// is taken.
pub open spec fn taken_below(used: Set<Seq<char>>, title: Seq<char>, n: nat) -> bool {
    forall|m: nat| 1 <= m < n ==> taken(used, #[trigger] numbered(title, m))
}

/// Whether `n` is the smallest number from 1 on with which `title` is not
/// taken.
pub open spec fn is_first_free(used: Set<Seq<char>>, title: Seq<char>, n: nat) -> bool {
    1 <= n && !taken(used, numbered(title, n)) && taken_below(used, title, n)
}

/// Whether `title` is taken, with every number that a `u64` holds as well.
pub open spec fn exhausted(used: Set<Seq<char>>, title: Seq<char>) -> bool {
    taken(used, title) && taken_below(used, title, (u64::MAX + 1) as nat)
}

/// What `title` becomes beside the used titles: `title` itself where it is
/// not taken, else `title` with the smallest number from 1 on with which it
/// is not taken. Where every number that a `u64` holds is taken, `title`
/// stays as it is.
pub open spec fn unique_title(used: Set<Seq<char>>, title: Seq<char>) -> Seq<char> {
    if !taken(used, title) || exhausted(used, title) {
        title
    } else {
        numbered(title, choose|n: nat| is_first_free(used, title, n))
    }
}

/// There is at most one smallest free number.
pub proof fn lemma_first_free_unique(used: Set<Seq<char>>, title: Seq<char>, n: nat, m: nat)
    requires
        is_first_free(used, title, n),
        is_first_free(used, title, m),
    ensures
        n == m,
{
}

/// Tells whether `lower` is among `used`.
pub fn holds_title(used: &Vec<String>, lower: &str) -> (b: bool)
    ensures
        b == used_set(used@).contains(lower@),
{
    let mut i: usize = 0;
    while i < used.len()
        invariant
            i <= used.len(),
            forall|k: int| 0 <= k < i ==> (#[trigger] used@[k])@ != lower@,
        decreases used.len() - i,
    {
        if same_text(used[i].as_str(), lower) {
            return true;
        }
        i += 1;
    }
    false
}

/// Tells whether the lowercase form of `title` is among `used`.
pub fn is_taken(used: &Vec<String>, title: &str) -> (b: bool)
    ensures
        b == taken(used_set(used@), title@),
{
    let lower = lowercased(title);
    holds_title(used, lower.as_str())
}

/// `title` followed by ` (n)`.
pub fn numbered_title(title: &str, n: u64) -> (out: String)
    ensures
        out@ == numbered(title@, n as nat),
{
    let mut out = title.to_owned();
    out.append(" (");
    push_decimal(&mut out, n);
    out.append(")");
    out
}

/// A title that is not among `used_titles`, which holds titles in lowercase:
/// `title`, or `title` with ` (1)`, ` (2)` and so on behind it, the first
/// that is free.
pub fn make_unique_title(title: &str, used_titles: &Vec<String>) -> (unique: String)
    ensures
        unique@ == unique_title(used_set(used_titles@), title@),
{
    let ghost used = used_set(used_titles@);
    if !is_taken(used_titles, title) {
        return title.to_owned();
    }
    let mut n: u64 = 1;
    loop
        invariant
            1 <= n <= u64::MAX,
            used == used_set(used_titles@),
            taken(used, title@),
            taken_below(used, title@, n as nat),
        decreases u64::MAX - n,
    {
        let candidate = numbered_title(title, n);
        if !is_taken(used_titles, candidate.as_str()) {
            proof {
                let chosen = choose|k: nat| is_first_free(used, title@, k);
                lemma_first_free_unique(used, title@, n as nat, chosen);
            }
            return candidate;
        }
        if n == u64::MAX {
            return title.to_owned();
        }
        n += 1;
    }
}

/// A title that `make_unique_title` returns is free, unless every number
/// was taken.
pub proof fn lemma_unique_title_is_free(used: Set<Seq<char>>, title: Seq<char>)
    ensures
        !taken(used, unique_title(used, title)) || exhausted(used, title),
{
    if taken(used, title) && !exhausted(used, title) {
        let m = choose|m: nat| 1 <= m < (u64::MAX + 1) as nat && !taken(used, #[trigger] numbered(title, m));
        lemma_some_first_free(used, title, m);
    }
}

/// Where `title` is free with the number `m`, some number up to `m` is the
/// smallest with which it is free.
pub proof fn lemma_some_first_free(used: Set<Seq<char>>, title: Seq<char>, m: nat)
    requires
        1 <= m,
        !taken(used, numbered(title, m)),
    ensures
        exists|n: nat| n <= m && is_first_free(used, title, n),
    decreases m,
{
    if taken_below(used, title, m) {
        assert(is_first_free(used, title, m));
    } else {
        let k = choose|k: nat| 1 <= k < m && !taken(used, #[trigger] numbered(title, k));
        lemma_some_first_free(used, title, k);
    }
}

} // verus!
