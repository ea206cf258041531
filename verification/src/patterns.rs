use vstd::prelude::*;
use vstd::string::*;
use vstd::utf8::*;

use crate::text::{
    is_white_space, leading_white_space, lemma_boundary_in_prefix, lemma_leading_white_space,
    lemma_trailing_white_space, lemma_trim, trailing_white_space, trim, trim_white_space,
};

verus! {

broadcast use vstd::string::group_string_axioms;

/// A comment that opens a section: `#`s, a title, then a rule of at least four
/// `#`, `=` or `-`.
pub const COMMENT_SECTION_PATTERN: &'static str = "^\\s*(#+)\\s*(.*?)\\s*[#=-]{4,}\\s*$";

/// A comment that opens a region: `# region`.
pub const REGION_START_PATTERN: &'static str = "^\\s*#\\s*region\\b";

/// A comment that closes a region: `# endregion`.
pub const REGION_END_PATTERN: &'static str = "^\\s*#\\s*endregion\\b";

/// A comment that starts a code cell: `# %%` or `# +`.
pub const CELL_PATTERN: &'static str = "^#\\s*(%%|\\+)(.*)";

/// What `regex::Regex::new(pattern)` and then `Regex::captures(haystack)` give:
/// `None` when the pattern does not compile, `Some(None)` when it does not
/// match, and otherwise the byte span of each capture group (`None` for a group
/// that took no part in the match).
pub uninterp spec fn regex_captures_result(pattern: Seq<char>, haystack: Seq<char>) -> Option<
    Option<Seq<Option<(usize, usize)>>>,
>;

/// Byte spans that lie in `haystack`, each starting no later than it ends and
/// both ends on character boundaries.
pub open spec fn spans_in(haystack: Seq<char>, groups: Seq<Option<(usize, usize)>>) -> bool {
    forall|i: int|
        0 <= i < groups.len() ==> match #[trigger] groups[i] {
            Some((s, e)) => {
                &&& s <= e <= encode_utf8(haystack).len()
                &&& is_char_boundary(encode_utf8(haystack), s as int)
                &&& is_char_boundary(encode_utf8(haystack), e as int)
            },
            None => true,
        }
}

pub open spec fn captures_view(r: Option<Option<Vec<Option<(usize, usize)>>>>) -> Option<
    Option<Seq<Option<(usize, usize)>>>,
> {
    match r {
        Some(Some(g)) => Some(Some(g@)),
        Some(None) => Some(None),
        None => None,
    }
}

// ---------------------------------------------------------------------------
// What the regex syntax fixes of the four patterns
// ---------------------------------------------------------------------------

/// A character that may draw the rule of a section header.
pub open spec fn is_rule_char(c: char) -> bool {
    c == '#' || c == '=' || c == '-'
}

/// The outline of every section header: after the leading white space a `#`,
/// and, after that `#` and before the trailing white space, four rule
/// characters.
pub open spec fn has_section_outline(h: Seq<char>) -> bool {
    let a = leading_white_space(h) as int;
    let t = h.len() - trailing_white_space(h);
    &&& a < h.len()
    &&& h[a] == '#'
    &&& a + 5 <= t
    &&& forall|i: int| t - 4 <= i < t ==> is_rule_char(#[trigger] h[i])
}

/// The number of UTF-8 bytes that the first `k` characters of `h` take.
pub open spec fn byte_offset(h: Seq<char>, k: int) -> int {
    encode_utf8(h.take(k)).len() as int
}

/// The length of the run of `c`s that starts at position `i` of `h`.
pub open spec fn run_of(h: Seq<char>, i: int, c: char) -> nat
    decreases h.len() - i,
{
    if 0 <= i < h.len() && h[i] == c {
        1 + run_of(h, i + 1, c)
    } else {
        0
    }
}

/// The length of the run of rule characters that ends just before position
/// `t` of `h`.
pub open spec fn rule_run_before(h: Seq<char>, t: int) -> nat
    decreases t,
{
    if 0 < t <= h.len() && is_rule_char(h[t - 1]) {
        1 + rule_run_before(h, t - 1)
    } else {
        0
    }
}

/// The number of `#`s that open a header: the run right after the leading
/// white space.
pub open spec fn header_hashes(h: Seq<char>) -> nat {
    run_of(h, leading_white_space(h) as int, '#')
}

/// Where the title of a header starts: after the `#`s and the white space
/// that follows them.
pub open spec fn header_title_start(h: Seq<char>) -> int {
    let b = (leading_white_space(h) + header_hashes(h)) as int;
    b + leading_white_space(h.skip(b))
}

/// Where the rule of a header starts: the run of rule characters before the
/// trailing white space.
pub open spec fn header_rule_start(h: Seq<char>) -> int {
    let t = h.len() - trailing_white_space(h);
    t - rule_run_before(h, t)
}

/// Where the title of a header ends: before the white space that precedes
/// the rule.
pub open spec fn header_title_end(h: Seq<char>) -> int {
    let d = header_rule_start(h);
    d - trailing_white_space(h.take(d))
}

/// A header in its plain form: white space, one or more `#`s, white space, a
/// title without a line feed, white space, a rule of at least four `#`, `=`
/// or `-`, and white space.
pub open spec fn is_plain_header(h: Seq<char>) -> bool {
    let b = leading_white_space(h) + header_hashes(h);
    let c = header_title_start(h);
    let e = header_title_end(h);
    let d = header_rule_start(h);
    let t = h.len() - trailing_white_space(h);
    &&& header_hashes(h) >= 1
    &&& b < c
    &&& c < e
    &&& e < d
    &&& t - d >= 4
    &&& !h.subrange(c, e).contains('\n')
}

/// The section that a plain header opens: its number of `#`s and its title.
pub open spec fn plain_header_section(h: Seq<char>) -> (usize, Seq<char>) {
    (header_hashes(h) as usize, h.subrange(header_title_start(h), header_title_end(h)))
}

/// A line that is nothing but a rule that starts with `#`, between white
/// space: at least five rule characters.
pub open spec fn is_bare_rule(h: Seq<char>) -> bool {
    let a = leading_white_space(h) as int;
    let t = h.len() - trailing_white_space(h);
    &&& a + 5 <= t
    &&& h[a] == '#'
    &&& forall|i: int| a <= i < t ==> is_rule_char(#[trigger] h[i])
}

/// What `^\s*(#+)\s*(.*?)\s*[#=-]{4,}\s*$` gives on `h`, as far as its syntax
/// fixes it: a match spans the whole line, has three groups, and its first
/// group is a non-empty run of `#` bytes right after the leading white space;
/// on a plain header the first group is all its `#`s and the second its
/// title, and on a bare rule the second group is empty; a plain header, a
/// bare rule, and a line without a line feed that has the outline of a header
/// all match.
pub open spec fn section_match_agrees(h: Seq<char>, caps: Option<Seq<Option<(usize, usize)>>>) -> bool {
    match caps {
        Some(g) => {
            &&& has_section_outline(h)
            &&& g.len() == 3
            &&& match g[0] {
                Some((s, e)) => s == 0 && e == encode_utf8(h).len(),
                None => false,
            }
            &&& g[2] is Some
            &&& match g[1] {
                Some((s, e)) => {
                    &&& s < e
                    &&& s == byte_offset(h, leading_white_space(h) as int)
                    &&& forall|i: int| s <= i < e ==> #[trigger] encode_utf8(h)[i] == 35u8
                    &&& is_plain_header(h) ==> e - s == header_hashes(h)
                },
                None => false,
            }
            &&& is_plain_header(h) ==> match g[2] {
                Some((s, e)) => s == byte_offset(h, header_title_start(h)) && e == byte_offset(
                    h,
                    header_title_end(h),
                ),
                None => false,
            }
            &&& is_bare_rule(h) ==> (g[2] matches Some((s, e)) && s == e)
        },
        None => {
            &&& !(has_section_outline(h) && !h.contains('\n'))
            &&& !is_plain_header(h)
            &&& !is_bare_rule(h)
        },
    }
}

/// The word of a comment that opens a region.
pub open spec fn region_word() -> Seq<char> {
    seq!['r', 'e', 'g', 'i', 'o', 'n']
}

/// The word of a comment that closes a region.
pub open spec fn endregion_word() -> Seq<char> {
    seq!['e', 'n', 'd', 'r', 'e', 'g', 'i', 'o', 'n']
}

/// Where `word` ends in a line that reads white space, `#`, white space, then
/// `word`; `None` for a line of another shape.
pub open spec fn marker_word_end(h: Seq<char>, word: Seq<char>) -> Option<int> {
    let a = leading_white_space(h) as int;
    if a < h.len() && h[a] == '#' {
        let b = a + 1 + leading_white_space(h.skip(a + 1));
        if b + word.len() <= h.len() && h.subrange(b, b + word.len()) == word {
            Some(b + word.len())
        } else {
            None
        }
    } else {
        None
    }
}

/// An ASCII character of a word: a letter, a digit or `_`.
pub open spec fn is_ascii_word_char(c: char) -> bool {
    ('a' <= c <= 'z') || ('A' <= c <= 'Z') || ('0' <= c <= '9') || c == '_'
}

/// Whether `matched` agrees with what `^\s*#\s*WORD\b` gives on `h`, as far as
/// the syntax fixes it: no match unless the line has the marker's shape; with
/// that shape, a match when the word ends the line or is followed by an ASCII
/// character that is not a word character, and none when it is followed by an
/// ASCII word character. After a non-ASCII character nothing is said.
pub open spec fn marker_match_agrees(h: Seq<char>, word: Seq<char>, matched: bool) -> bool {
    match marker_word_end(h, word) {
        None => !matched,
        Some(e) => if e == h.len() {
            matched
        } else if (h[e] as u32) < 128 {
            matched == !is_ascii_word_char(h[e])
        } else {
            true
        },
    }
}

/// Whether a comment line starts a code cell: `#`, white space, then `%%` or
/// `+`.
pub open spec fn is_cell_line(h: Seq<char>) -> bool {
    &&& h.len() > 0
    &&& h[0] == '#'
    &&& {
        let k = 1 + leading_white_space(h.drop_first()) as int;
        ||| (k + 2 <= h.len() && h[k] == '%' && h[k + 1] == '%')
        ||| (k < h.len() && h[k] == '+')
    }
}

/// Compiles `pattern` with `regex::Regex::new` and searches `haystack` with
/// `Regex::captures`, giving each group's `Match::start()` and `Match::end()`.
/// Trusted: the result is `regex_captures_result(pattern, haystack)`, and (as
/// the regex crate documents for `Match::start` and `Match::end`) each span has
/// start <= end, lies in the haystack, and falls on UTF-8 character boundaries.
/// Of the four patterns of this module it claims what the crate's documented
/// syntax gives (`^` and `$` anchor at the ends of the haystack, `\s` is
/// Unicode white space, `.` is any character but a line feed, `\b` a Unicode
/// word boundary, and the groups are listed whole match first): each compiles,
/// and whether it matches, and where the section groups lie on a plain header
/// or a bare rule, is as the `*_agrees` functions and `is_cell_line` say
/// (greedy `(#+)` takes the whole run of `#`s, lazy `(.*?)` the shortest text
/// before a rule). Left unsaid: the section title's span on other lines, and a
/// region marker followed by a non-ASCII character.
#[verifier::external_body]
fn regex_captures(pattern: &str, haystack: &str) -> (r: Option<Option<Vec<Option<(usize, usize)>>>>)
    ensures
        captures_view(r) == regex_captures_result(pattern@, haystack@),
        r matches Some(Some(g)) ==> spans_in(haystack@, g@),
        pattern@ == COMMENT_SECTION_PATTERN@ ==> (captures_view(r) is Some && section_match_agrees(
            haystack@,
            captures_view(r)->0,
        )),
        pattern@ == REGION_START_PATTERN@ ==> (r is Some && marker_match_agrees(
            haystack@,
            region_word(),
            r matches Some(Some(_)),
        )),
        pattern@ == REGION_END_PATTERN@ ==> (r is Some && marker_match_agrees(
            haystack@,
            endregion_word(),
            r matches Some(Some(_)),
        )),
        pattern@ == CELL_PATTERN@ ==> (r is Some && (r matches Some(Some(_))) == is_cell_line(
            haystack@,
        )),
{
    let re = regex::Regex::new(pattern).ok()?;
    Some(re.captures(haystack).map(|caps| caps.iter().map(|m| m.map(|m| (m.start(), m.end()))).collect()))
}

/// Whether `pattern` matches somewhere in `haystack` (a pattern that does not
/// compile matches nothing).
pub open spec fn regex_matches(pattern: Seq<char>, haystack: Seq<char>) -> bool {
    regex_captures_result(pattern, haystack) matches Some(Some(_))
}

fn is_match(pattern: &str, haystack: &str) -> (r: bool)
    ensures
        r == regex_matches(pattern@, haystack@),
        pattern@ == REGION_START_PATTERN@ ==> marker_match_agrees(haystack@, region_word(), r),
        pattern@ == REGION_END_PATTERN@ ==> marker_match_agrees(haystack@, endregion_word(), r),
        pattern@ == CELL_PATTERN@ ==> r == is_cell_line(haystack@),
{
    match regex_captures(pattern, haystack) {
        Some(Some(_)) => true,
        _ => false,
    }
}

// ---------------------------------------------------------------------------
// Comment sections
// ---------------------------------------------------------------------------

/// The characters that the UTF-8 bytes `s..e` of `text` encode.
pub open spec fn byte_range_text(text: Seq<char>, s: int, e: int) -> Seq<char> {
    decode_utf8(encode_utf8(text).subrange(s, e))
}

/// The section (level, title) that the capture groups `caps` of the section
/// pattern on `comment` describe: the level is the byte length of the first
/// group (the `#`s), the title the second group without surrounding white
/// space; no section when there was no match or the title is empty.
pub open spec fn section_of_captures(
    comment: Seq<char>,
    caps: Option<Option<Seq<Option<(usize, usize)>>>>,
) -> Option<(usize, Seq<char>)> {
    match caps {
        Some(Some(g)) => if g.len() > 2 {
            match (g[1], g[2]) {
                (Some((s1, e1)), Some((s2, e2))) => {
                    let title = trim(byte_range_text(comment, s2 as int, e2 as int));
                    if title.len() == 0 {
                        None
                    } else {
                        Some(((e1 - s1) as usize, title))
                    }
                },
                _ => None,
            }
        } else {
            None
        },
        _ => None,
    }
}

/// The section that a comment line opens, if any.
pub open spec fn comment_section(comment: Seq<char>) -> Option<(usize, Seq<char>)> {
    section_of_captures(comment, regex_captures_result(COMMENT_SECTION_PATTERN@, comment))
}

pub open spec fn section_view(r: Option<(usize, String)>) -> Option<(usize, Seq<char>)> {
    match r {
        Some((level, title)) => Some((level, title@)),
        None => None,
    }
}

/// The UTF-8 bytes `s..e` of `text`, as a string.
fn byte_slice(text: &str, s: usize, e: usize) -> (r: &str)
    requires
        s <= e <= encode_utf8(text@).len(),
        is_char_boundary(encode_utf8(text@), s as int),
        is_char_boundary(encode_utf8(text@), e as int),
    ensures
        r@ == byte_range_text(text@, s as int, e as int),
        encode_utf8(r@) == encode_utf8(text@).subrange(s as int, e as int),
{
    proof {
        encode_utf8_valid_utf8(text@);
        lemma_boundary_in_prefix(encode_utf8(text@), s as int, e as int);
    }
    let (head, _) = text.split_at(e);
    let (_, mid) = head.split_at(s);
    assert(mid.spec_bytes() =~= encode_utf8(text@).subrange(s as int, e as int));
    proof {
        encode_utf8_decode_utf8(mid@);
    }
    mid
}

/// The section that the capture groups `caps` of the section pattern on
/// `comment` describe (see `section_of_captures`).
pub fn section_from_captures(
    comment: &str,
    caps: Option<Option<Vec<Option<(usize, usize)>>>>,
) -> (r: Option<(usize, String)>)
    requires
        caps matches Some(Some(g)) ==> spans_in(comment@, g@),
    ensures
        section_view(r) == section_of_captures(comment@, captures_view(caps)),
{
    match caps {
        Some(Some(g)) => {
            if g.len() <= 2 {
                return None;
            }
            match (g[1], g[2]) {
                (Some((s1, e1)), Some((s2, e2))) => {
                    assert(spans_in(comment@, g@));
                    assert(g@[1] == Some((s1, e1)));
                    assert(g@[2] == Some((s2, e2)));
                    let hashes = e1 - s1;
                    let raw_title = byte_slice(comment, s2, e2);
                    let title = trim_white_space(raw_title);
                    if title.as_str().is_empty() {
                        None
                    } else {
                        Some((hashes, title))
                    }
                },
                _ => None,
            }
        },
        _ => None,
    }
}

/// The UTF-8 encoding of two texts one after the other is their encodings one
/// after the other.
pub proof fn lemma_encode_concat(s: Seq<char>, t: Seq<char>)
    ensures
        encode_utf8(s + t) == encode_utf8(s) + encode_utf8(t),
    decreases s.len(),
{
    if s.len() == 0 {
        assert(s + t =~= t);
        assert(encode_utf8(s) + encode_utf8(t) =~= encode_utf8(t));
    } else {
        assert((s + t).drop_first() =~= s.drop_first() + t);
        assert((s + t)[0] == s[0]);
        lemma_encode_concat(s.drop_first(), t);
        assert(encode_utf8(s + t) =~= encode_utf8(s) + encode_utf8(t));
    }
}

/// The bytes between the byte offsets of characters `c` and `e` encode the
/// characters from `c` to `e`.
pub proof fn lemma_byte_range_of_chars(h: Seq<char>, c: int, e: int)
    requires
        0 <= c <= e <= h.len(),
    ensures
        byte_range_text(h, byte_offset(h, c), byte_offset(h, e)) == h.subrange(c, e),
{
    let a = h.take(c);
    let b = h.subrange(c, e);
    let rest = h.skip(e);
    assert(h.take(e) =~= a + b);
    assert(h =~= (a + b) + rest);
    lemma_encode_concat(a, b);
    lemma_encode_concat(a + b, rest);
    let ea = encode_utf8(a);
    let eb = encode_utf8(b);
    assert(encode_utf8(h).subrange(ea.len() as int, ea.len() + eb.len() as int) =~= eb);
    encode_utf8_decode_utf8(b);
}

/// A text with no white space at either end is its own trim.
proof fn lemma_trim_of_trimmed(t: Seq<char>)
    requires
        t.len() > 0,
        !is_white_space(t[0]),
        !is_white_space(t.last()),
    ensures
        trim(t) == t,
{
    assert(leading_white_space(t) == 0);
    assert(t.skip(0) =~= t);
    assert(trailing_white_space(t) == 0);
    assert(t.take(t.len() as int) =~= t);
}

/// The title of a plain header has no white space at either end.
proof fn lemma_plain_header_title(h: Seq<char>)
    requires
        is_plain_header(h),
    ensures
        trim(h.subrange(header_title_start(h), header_title_end(h))) == h.subrange(
            header_title_start(h),
            header_title_end(h),
        ),
{
    let b = (leading_white_space(h) + header_hashes(h)) as int;
    let c = header_title_start(h);
    let e = header_title_end(h);
    let d = header_rule_start(h);
    lemma_trailing_white_space(h);
    lemma_leading_white_space(h.skip(b));
    lemma_trailing_white_space(h.take(d));
    let t = h.subrange(c, e);
    assert(t[0] == h.skip(b)[leading_white_space(h.skip(b)) as int]);
    assert(t.last() == h.take(d)[d - trailing_white_space(h.take(d)) - 1]);
    lemma_trim_of_trimmed(t);
}

/// Reads a comment line as a section header: `Some((level, title))` where the
/// level is the length of the run of `#`s that the pattern's first group takes
/// right after the leading white space (at least one), and the title is
/// non-empty and has no surrounding white space. A plain header gives its
/// number of `#`s and its title, a bare rule is no header, and neither is a
/// line that lacks the outline of a header (`has_section_outline`).
pub fn parse_comment_as_section(comment: &str) -> (r: Option<(usize, String)>)
    ensures
        section_view(r) == comment_section(comment@),
        r matches Some((level, title)) ==> {
            &&& level >= 1
            &&& title@.len() > 0
            &&& title@ == trim(title@)
            &&& has_section_outline(comment@)
        },
        is_plain_header(comment@) ==> section_view(r) == Some(plain_header_section(comment@)),
        is_bare_rule(comment@) ==> r is None,
{
    let caps = regex_captures(COMMENT_SECTION_PATTERN, comment);
    let r = section_from_captures(comment, caps);
    proof {
        let h = comment@;
        if r is Some {
            let g = captures_view(caps)->0->0;
            let (s2, e2) = g[2]->0;
            lemma_trim(byte_range_text(h, s2 as int, e2 as int));
        }
        if is_plain_header(h) {
            let c = header_title_start(h);
            let e = header_title_end(h);
            lemma_leading_white_space(h);
            lemma_trailing_white_space(h);
            lemma_byte_range_of_chars(h, c, e);
            lemma_plain_header_title(h);
        }
        if is_bare_rule(h) {
            let g = captures_view(caps)->0->0;
            let (s2, e2) = g[2]->0;
            assert(encode_utf8(h).subrange(s2 as int, e2 as int) =~= Seq::<u8>::empty());
            assert(byte_range_text(h, s2 as int, e2 as int) =~= Seq::<char>::empty());
        }
    }
    r
}

// ---------------------------------------------------------------------------
// Regions and cells
// ---------------------------------------------------------------------------

/// Which end of a region a comment marks.
#[derive(PartialEq, Eq, Structural, Clone, Copy, Debug)]
pub enum RegionType {
    Start,
    End,
}

/// The region marker that the two region patterns' results give: a start
/// when the start pattern matched, else an end when the end pattern matched.
pub open spec fn region_choice(starts: bool, ends: bool) -> Option<RegionType> {
    if starts {
        Some(RegionType::Start)
    } else if ends {
        Some(RegionType::End)
    } else {
        None
    }
}

/// The region marker that a comment line holds: a start when it reads
/// `# region`, else an end when it reads `# endregion`.
pub open spec fn region_type_of(line_text: Seq<char>) -> Option<RegionType> {
    region_choice(
        regex_matches(REGION_START_PATTERN@, line_text),
        regex_matches(REGION_END_PATTERN@, line_text),
    )
}

/// The region marker that the results of the start and end patterns give; the
/// start pattern wins when both matched.
pub fn region_type_from_matches(starts: bool, ends: bool) -> (r: Option<RegionType>)
    ensures
        r == region_choice(starts, ends),
{
    if starts {
        Some(RegionType::Start)
    } else if ends {
        Some(RegionType::End)
    } else {
        None
    }
}

/// The region marker that a comment line holds, if any: a start exactly when
/// the line reads white space, `#`, white space, `region` and then no word
/// character; otherwise an end exactly when it reads so with `endregion`.
pub fn parse_region_type(line_text: &str) -> (r: Option<RegionType>)
    ensures
        r == region_type_of(line_text@),
        marker_match_agrees(line_text@, region_word(), r == Some(RegionType::Start)),
        r != Some(RegionType::Start) ==> marker_match_agrees(
            line_text@,
            endregion_word(),
            r == Some(RegionType::End),
        ),
{
    let starts = is_match(REGION_START_PATTERN, line_text);
    let ends = is_match(REGION_END_PATTERN, line_text);
    region_type_from_matches(starts, ends)
}

/// Whether a comment line starts a code cell (`#`, white space, then `%%` or
/// `+`).
pub fn is_cell_marker(line_text: &str) -> (r: bool)
    ensures
        r == is_cell_line(line_text@),
{
    is_match(CELL_PATTERN, line_text)
}

} // verus!
