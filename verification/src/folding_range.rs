use vstd::prelude::*;

use crate::prefix::{extends, group_extends, lemma_extends_trans};
use crate::patterns::{
    comment_section, is_cell_line, is_cell_marker, parse_comment_as_section, parse_region_type,
    region_type_of, RegionType,
};
use crate::syntax_tree::{parse_r, parsed_r_nodes, parsed_r_tree, SyntaxNode, SyntaxTree};
use crate::text::{
    count_leading_whitespaces, get_line_text, leading_white_space, lemma_whole_line_ok, line_of,
    Document,
};

verus! {

broadcast use vstd::string::group_string_axioms, group_extends;

// ---------------------------------------------------------------------------
// Folding ranges
// ---------------------------------------------------------------------------

/// The kinds of folding range that the protocol knows.
#[derive(PartialEq, Eq, Structural, Clone, Copy, Debug)]
pub enum FoldingRangeKind {
    Comment,
    Imports,
    Region,
}

/// A range of lines that the editor may fold: it starts at `start_line`
/// (optionally at `start_character`) and ends at `end_line` (optionally at
/// `end_character`); lines and characters count from zero.
pub struct FoldingRange {
    pub start_line: u32,
    pub start_character: Option<u32>,
    pub end_line: u32,
    pub end_character: Option<u32>,
    pub kind: Option<FoldingRangeKind>,
    pub collapsed_text: Option<String>,
}

/// A folding range as the folding rules compute it, in unbounded integers,
/// with whether it can be reported: `valid` is false where the positions do not
/// fit the protocol's `u32` fields (or a bracket's end is at column 0).
pub struct RangeModel {
    pub start_line: int,
    pub start_character: Option<int>,
    pub end_line: int,
    pub end_character: Option<int>,
    pub valid: bool,
}

pub open spec fn fits_u32(x: int) -> bool {
    0 <= x <= u32::MAX
}

/// A range of whole lines, `start..=end`.
pub open spec fn comment_model(start: int, end: int) -> RangeModel {
    RangeModel {
        start_line: start,
        start_character: None,
        end_line: end,
        end_character: None,
        valid: fits_u32(start) && fits_u32(end),
    }
}

/// The range of a bracketed construct that starts at (`start_line`,
/// `start_char`) and whose closing bracket is at (`end_line`, `end_char`), on a
/// line indented by `white_space` characters. When the closing bracket is the
/// first thing on its line, the range stops at the end of the line before;
/// otherwise it stops one character before the closing bracket. (When the
/// bracket lies inside the indentation, the end is left at the bracket.)
pub open spec fn bracket_model(
    start_line: int,
    start_char: int,
    end_line: int,
    end_char: int,
    white_space: int,
) -> RangeModel {
    let converted = fits_u32(start_line) && fits_u32(end_line) && fits_u32(end_char);
    let adjusted = end_char - white_space;
    if adjusted == 0 {
        RangeModel {
            start_line,
            start_character: Some((start_char as u32) as int),
            end_line: end_line - 1,
            end_character: None,
            valid: converted && end_line >= 1,
        }
    } else if adjusted > 0 {
        RangeModel {
            start_line,
            start_character: Some((start_char as u32) as int),
            end_line,
            end_character: Some(end_char - 1),
            valid: converted,
        }
    } else {
        RangeModel {
            start_line,
            start_character: Some((start_char as u32) as int),
            end_line,
            end_character: Some(end_char),
            valid: converted,
        }
    }
}

pub open spec fn opt_u32(x: Option<int>) -> Option<u32> {
    match x {
        Some(v) => Some(v as u32),
        None => None,
    }
}

/// The protocol value of a range.
pub open spec fn range_of(m: RangeModel) -> FoldingRange {
    FoldingRange {
        start_line: m.start_line as u32,
        start_character: opt_u32(m.start_character),
        end_line: m.end_line as u32,
        end_character: opt_u32(m.end_character),
        kind: Some(FoldingRangeKind::Region),
        collapsed_text: None,
    }
}

pub open spec fn ranges_of(ms: Seq<RangeModel>) -> Seq<FoldingRange> {
    Seq::new(ms.len(), |i: int| range_of(ms[i]))
}

pub open spec fn all_valid(ms: Seq<RangeModel>) -> bool {
    forall|i: int| 0 <= i < ms.len() ==> (#[trigger] ms[i]).valid
}

/// One range: valid as the range is, and reported as it is.
pub proof fn lemma_single(m: RangeModel)
    ensures
        all_valid(seq![m]) == m.valid,
        ranges_of(seq![m]) == seq![range_of(m)],
{
    assert(seq![m][0] == m);
    assert(ranges_of(seq![m]) =~= seq![range_of(m)]);
}

/// No ranges: nothing invalid, nothing reported.
pub proof fn lemma_none()
    ensures
        all_valid(Seq::empty()),
        ranges_of(Seq::empty()) == Seq::<FoldingRange>::empty(),
{
    assert(ranges_of(Seq::empty()) =~= Seq::<FoldingRange>::empty());
}

pub proof fn lemma_all_valid_add(a: Seq<RangeModel>, b: Seq<RangeModel>)
    ensures
        all_valid(a + b) <==> all_valid(a) && all_valid(b),
        ranges_of(a + b) == ranges_of(a) + ranges_of(b),
{
    if all_valid(a + b) {
        assert forall|i: int| 0 <= i < a.len() implies (#[trigger] a[i]).valid by {
            assert((a + b)[i] == a[i]);
        }
        assert forall|i: int| 0 <= i < b.len() implies (#[trigger] b[i]).valid by {
            assert((a + b)[a.len() + i] == b[i]);
        }
    }
    assert(ranges_of(a + b) =~= ranges_of(a) + ranges_of(b));
}

/// Whole-line range `start_line..=end_line`.
pub fn comment_range(start_line: usize, end_line: usize) -> (r: FoldingRange)
    requires
        fits_u32(start_line as int),
        fits_u32(end_line as int),
    ensures
        r == range_of(comment_model(start_line as int, end_line as int)),
{
    FoldingRange {
        start_line: start_line as u32,
        start_character: None,
        end_line: end_line as u32,
        end_character: None,
        kind: Some(FoldingRangeKind::Region),
        collapsed_text: None,
    }
}

/// The range of a bracketed construct (see `bracket_model`).
pub fn bracket_range(
    start_line: usize,
    start_char: usize,
    end_line: usize,
    end_char: usize,
    white_space_count: usize,
) -> (r: FoldingRange)
    requires
        bracket_model(
            start_line as int,
            start_char as int,
            end_line as int,
            end_char as int,
            white_space_count as int,
        ).valid,
    ensures
        r == range_of(
            bracket_model(
                start_line as int,
                start_char as int,
                end_line as int,
                end_char as int,
                white_space_count as int,
            ),
        ),
{
    let mut end_line: u32 = end_line as u32;
    let mut end_char: Option<u32> = Some(end_char as u32);
    let e = end_char.unwrap();
    if white_space_count <= e as usize {
        if e as usize == white_space_count {
            end_line = end_line - 1;
            end_char = None;
        } else {
            end_char = Some(e - 1);
        }
    }
    FoldingRange {
        start_line: start_line as u32,
        start_character: Some(start_char as u32),
        end_line,
        end_character: end_char,
        kind: Some(FoldingRangeKind::Region),
        collapsed_text: None,
    }
}

// ---------------------------------------------------------------------------
// The state kept while walking one list of siblings
// ---------------------------------------------------------------------------

/// The open comment sections (level, line) from outermost to innermost, the
/// line of an open `# region`, and the line of the current code cell.
pub struct FoldState {
    pub sections: Seq<(usize, usize)>,
    pub region: Option<usize>,
    pub cell: Option<usize>,
}

pub open spec fn empty_state() -> FoldState {
    FoldState { sections: Seq::empty(), region: None, cell: None }
}

/// A section of `level` opens at `line`: every open section at the same or a
/// deeper level closes on the line before (innermost first), and the new one is
/// pushed.
pub open spec fn nest_sections(sections: Seq<(usize, usize)>, level: usize, line: usize) -> (
    Seq<RangeModel>,
    Seq<(usize, usize)>,
)
    decreases sections.len(),
{
    if sections.len() == 0 {
        (Seq::empty(), seq![(level, line)])
    } else {
        let (last_level, last_line) = sections.last();
        if last_level < level {
            (Seq::empty(), sections.push((level, line)))
        } else if last_level == level {
            (
                seq![comment_model(last_line as int, line - 1)],
                sections.drop_last().push((level, line)),
            )
        } else {
            let (rest, s) = nest_sections(sections.drop_last(), level, line);
            (seq![comment_model(last_line as int, line - 1)] + rest, s)
        }
    }
}

/// A region marker on `line`: `# region` opens a region (forgetting an open
/// one), `# endregion` closes the open region on its own line.
pub open spec fn region_step(region: Option<usize>, line: usize, text: Seq<char>) -> (
    Seq<RangeModel>,
    Option<usize>,
) {
    match region_type_of(text) {
        Some(RegionType::Start) => (Seq::empty(), Some(line)),
        Some(RegionType::End) => match region {
            Some(start) => (seq![comment_model(start as int, line as int)], None),
            None => (Seq::empty(), None),
        },
        None => (Seq::empty(), region),
    }
}

/// A cell marker on `line` closes the current cell on the line before and
/// starts a new one.
pub open spec fn cell_step(cell: Option<usize>, line: usize, text: Seq<char>) -> (
    Seq<RangeModel>,
    Option<usize>,
) {
    if !is_cell_line(text) {
        (Seq::empty(), cell)
    } else {
        match cell {
            None => (Seq::empty(), Some(line)),
            Some(start) => (seq![comment_model(start as int, line - 1)], Some(line)),
        }
    }
}

/// The sections after a comment on `line` that reads `text`.
pub open spec fn section_step(sections: Seq<(usize, usize)>, line: usize, text: Seq<char>) -> (
    Seq<RangeModel>,
    Seq<(usize, usize)>,
) {
    match comment_section(text) {
        Some((level, _)) => nest_sections(sections, level, line),
        None => (Seq::empty(), sections),
    }
}

/// A stand-alone comment on `line` whose line reads `text`.
pub open spec fn comment_step(st: FoldState, line: usize, text: Seq<char>) -> (
    Seq<RangeModel>,
    FoldState,
) {
    let (r1, sections) = section_step(st.sections, line, text);
    let (r2, region) = region_step(st.region, line, text);
    let (r3, cell) = cell_step(st.cell, line, text);
    (r1 + r2 + r3, FoldState { sections, region, cell })
}

/// The ranges that close every open section at the end of the enclosing node,
/// which ends on `line`.
pub open spec fn close_sections(sections: Seq<(usize, usize)>, line: usize) -> Seq<RangeModel> {
    Seq::new(sections.len(), |i: int| comment_model(sections[i].1 as int, line - 1))
}

/// What is still open when the enclosing node ends on `line`: sections (in the
/// order they opened), then the region, then the cell, each closed on the line
/// before.
pub open spec fn end_step(st: FoldState, line: usize) -> Seq<RangeModel> {
    close_sections(st.sections, line) + match st.region {
        Some(start) => seq![comment_model(start as int, line - 1)],
        None => Seq::empty(),
    } + match st.cell {
        Some(start) => seq![comment_model(start as int, line - 1)],
        None => Seq::empty(),
    }
}

// ---------------------------------------------------------------------------
// Walking the tree
// ---------------------------------------------------------------------------

/// Node kinds whose brackets fold.
pub open spec fn is_bracket_kind(kind: Seq<char>) -> bool {
    kind == "parameters"@ || kind == "arguments"@ || kind == "braced_expression"@
}

pub open spec fn is_comment_kind(kind: Seq<char>) -> bool {
    kind == "comment"@
}

/// A node that the walk skips with all it holds: a bracketed construct on a
/// single line, or a comment with code before it on its line.
pub open spec fn skipped(text: Seq<char>, t: SyntaxTree) -> bool {
    ||| is_bracket_kind(t.kind) && t.start_row == t.end_row
    ||| !is_bracket_kind(t.kind) && is_comment_kind(t.kind) && leading_white_space(
        line_of(text, t.start_row as int),
    ) != t.start_column
}

/// The ranges that node `t` itself gives, and the state its siblings see after
/// it.
pub open spec fn own_step(text: Seq<char>, t: SyntaxTree, st: FoldState) -> (
    Seq<RangeModel>,
    FoldState,
) {
    if is_bracket_kind(t.kind) {
        (
            seq![
                bracket_model(
                    t.start_row as int,
                    t.start_column as int,
                    t.end_row as int,
                    t.end_column - 1,
                    leading_white_space(line_of(text, t.end_row as int)) as int,
                ),
            ],
            st,
        )
    } else if is_comment_kind(t.kind) {
        comment_step(st, t.start_row as usize, line_of(text, t.start_row as int))
    } else {
        (Seq::empty(), st)
    }
}

/// The ranges of the walk over `t` (in the order they are found) and the state
/// that `t`'s next sibling sees, when `t`'s earlier siblings left `st`.
pub open spec fn visit(text: Seq<char>, t: SyntaxTree, st: FoldState) -> (
    Seq<RangeModel>,
    FoldState,
)
    decreases t, 1nat,
{
    if skipped(text, t) {
        (Seq::empty(), st)
    } else {
        let (own, st1) = own_step(text, t, st);
        if t.children.len() > 0 {
            let (inner, last) = visit_children(text, t, t.children.len());
            (own + inner + end_step(last, t.end_row as usize), st1)
        } else {
            (own, st1)
        }
    }
}

/// The ranges of the walk over the first `k` children of `t`, and the state
/// they leave.
pub open spec fn visit_children(text: Seq<char>, t: SyntaxTree, k: nat) -> (
    Seq<RangeModel>,
    FoldState,
)
    decreases t, 0nat, k,
{
    if k == 0 || k > t.children.len() {
        (Seq::empty(), empty_state())
    } else {
        let (before, st) = visit_children(text, t, (k - 1) as nat);
        let (r, st2) = visit(text, t.children[k - 1], st);
        (before + r, st2)
    }
}

/// Why no folding ranges could be computed.
#[derive(PartialEq, Eq, Structural, Clone, Copy, Debug)]
pub enum FoldingRangeError {
    /// The parser gave no tree.
    ParserUnavailable,
    /// The syntax tree holds a syntax error.
    ParseError,
    /// A range does not fit the protocol's line and character numbers.
    PositionOutOfRange,
}

/// The folding ranges of document text `text` whose syntax tree is `t`.
pub open spec fn folding_ranges_of(text: Seq<char>, t: SyntaxTree) -> Result<
    Seq<FoldingRange>,
    FoldingRangeError,
> {
    let ms = visit(text, t, empty_state()).0;
    if t.has_error {
        Err(FoldingRangeError::ParseError)
    } else if !all_valid(ms) {
        Err(FoldingRangeError::PositionOutOfRange)
    } else {
        Ok(ranges_of(ms))
    }
}

// ---------------------------------------------------------------------------
// Processing comments
// ---------------------------------------------------------------------------

/// The level of a section header, if the line is one.
pub open spec fn section_level(section: Option<(usize, Seq<char>)>) -> Option<usize> {
    match section {
        Some((level, _)) => Some(level),
        None => None,
    }
}

/// Whether the whole-line range `start..=end` can be reported.
fn comment_range_ok(start: usize, end: usize) -> (r: bool)
    ensures
        r == comment_model(start as int, end as int).valid,
{
    start <= u32::MAX as usize && end <= u32::MAX as usize
}

/// Whether the range from line `start` to the line before `next` can be
/// reported.
fn closing_range_ok(start: usize, next: usize) -> (r: bool)
    ensures
        r == comment_model(start as int, next - 1).valid,
{
    next >= 1 && start <= u32::MAX as usize && next - 1 <= u32::MAX as usize
}

/// Sections: a comment line that reads as a section header of some level
/// closes the open sections of the same or a deeper level (on the line before)
/// and opens its own. Gives false, and stops, where a range would not fit.
pub fn nested_processor(
    comment_stack: &mut Vec<(usize, usize)>,
    folding_ranges: &mut Vec<FoldingRange>,
    line_num: usize,
    comment_line: &str,
) -> (ok: bool)
    ensures
        ok == all_valid(section_step(old(comment_stack)@, line_num, comment_line@).0),
        ok ==> final(folding_ranges)@ == old(folding_ranges)@ + ranges_of(
            section_step(old(comment_stack)@, line_num, comment_line@).0,
        ),
        ok ==> final(comment_stack)@ == section_step(old(comment_stack)@, line_num, comment_line@).1,
        extends(old(folding_ranges)@, final(folding_ranges)@),
{
    let section = parse_comment_as_section(comment_line);
    let level = match section {
        Some((level, _title)) => level,
        None => {
            assert(comment_section(comment_line@) is None);
            assert(section_step(old(comment_stack)@, line_num, comment_line@).0
                == Seq::<RangeModel>::empty());
            proof { lemma_none(); }
            assert(old(folding_ranges)@ + Seq::<FoldingRange>::empty() =~= old(folding_ranges)@);
            return true;
        },
    };
    assert(section_level(comment_section(comment_line@)) == Some(level));
    let ghost initial = old(comment_stack)@;
    let ghost base = old(folding_ranges)@;
    let ghost mut emitted: Seq<RangeModel> = Seq::empty();
    assert(emitted + nest_sections(initial, level, line_num).0 =~= nest_sections(
        initial,
        level,
        line_num,
    ).0);
    loop
        invariant
            section_level(comment_section(comment_line@)) == Some(level),
            initial == old(comment_stack)@,
            base == old(folding_ranges)@,
            nest_sections(initial, level, line_num).0 == emitted + nest_sections(
                comment_stack@,
                level,
                line_num,
            ).0,
            nest_sections(initial, level, line_num).1 == nest_sections(
                comment_stack@,
                level,
                line_num,
            ).1,
            all_valid(emitted),
            folding_ranges@ == base + ranges_of(emitted),
        decreases comment_stack.len(),
    {
        let ghost stack = comment_stack@;
        if comment_stack.len() == 0 {
            comment_stack.push((level, line_num));
            assert(comment_stack@ =~= seq![(level, line_num)]);
            assert(emitted + Seq::<RangeModel>::empty() =~= emitted);
            assert(nest_sections(initial, level, line_num) == (emitted, comment_stack@));
            return true;
        }
        let (last_level, last_line) = comment_stack[comment_stack.len() - 1];
        assert(stack.last() == (last_level, last_line));
        if last_level < level {
            comment_stack.push((level, line_num));
            assert(emitted + Seq::<RangeModel>::empty() =~= emitted);
            assert(nest_sections(initial, level, line_num) == (emitted, comment_stack@));
            return true;
        }
        let ghost end: int = line_num as int - 1;
        let range_ok = closing_range_ok(last_line, line_num);
        proof {
            lemma_all_valid_add(emitted, nest_sections(stack, level, line_num).0);
            lemma_all_valid_add(
                seq![comment_model(last_line as int, end)],
                nest_sections(stack.drop_last(), level, line_num).0,
            );
        }
        if !range_ok {
            assert(!comment_model(last_line as int, end).valid);
            proof {
                lemma_single(comment_model(last_line as int, end));
            }
            return false;
        }
        let range = comment_range(last_line, line_num - 1);
        folding_ranges.push(range);
        comment_stack.pop();
        assert(comment_stack@ =~= stack.drop_last());
        proof {
            let m = comment_model(last_line as int, end);
            lemma_all_valid_add(emitted, seq![m]);
            assert(ranges_of(seq![m]) =~= seq![range]);
            assert(folding_ranges@ =~= base + ranges_of(emitted) + ranges_of(seq![m]));
            emitted = emitted + seq![m];
            assert(emitted + nest_sections(stack.drop_last(), level, line_num).0 =~= (emitted.drop_last()
                + (seq![m] + nest_sections(stack.drop_last(), level, line_num).0)));
        }
        if last_level == level {
            comment_stack.push((level, line_num));
            assert(emitted.drop_last() + seq![emitted.last()] =~= emitted);
            assert(nest_sections(initial, level, line_num) == (emitted, comment_stack@));
            return true;
        }
    }
}

/// Regions: `# region` opens one, `# endregion` closes the open one on its own
/// line.
pub fn region_processor(
    folding_ranges: &mut Vec<FoldingRange>,
    region_marker: &mut Option<usize>,
    line_idx: usize,
    line_text: &str,
) -> (ok: bool)
    ensures
        ({
            let (rs, region) = region_step(*old(region_marker), line_idx, line_text@);
            &&& ok == all_valid(rs)
            &&& ok ==> final(folding_ranges)@ == old(folding_ranges)@ + ranges_of(rs)
            &&& ok ==> *final(region_marker) == region
        }),
        extends(old(folding_ranges)@, final(folding_ranges)@),
{
    assert(ranges_of(Seq::empty()) =~= Seq::<FoldingRange>::empty());
    assert(old(folding_ranges)@ + Seq::<FoldingRange>::empty() =~= old(folding_ranges)@);
    match parse_region_type(line_text) {
        Some(RegionType::Start) => {
            *region_marker = Some(line_idx);
            true
        },
        Some(RegionType::End) => {
            if let Some(region_start) = *region_marker {
                if !comment_range_ok(region_start, line_idx) {
                    proof {
                        lemma_single(comment_model(region_start as int, line_idx as int));
                    }
                    return false;
                }
                let range = comment_range(region_start, line_idx);
                folding_ranges.push(range);
                *region_marker = None;
                assert(ranges_of(seq![comment_model(region_start as int, line_idx as int)])
                    =~= seq![range]);
                assert(folding_ranges@ =~= old(folding_ranges)@ + seq![range]);
            }
            true
        },
        None => true,
    }
}

/// Code cells: a cell marker closes the current cell on the line before and
/// starts a new one.
pub fn cell_processor(
    folding_ranges: &mut Vec<FoldingRange>,
    cell_marker: &mut Option<usize>,
    line_idx: usize,
    line_text: &str,
) -> (ok: bool)
    ensures
        ({
            let (rs, cell) = cell_step(*old(cell_marker), line_idx, line_text@);
            &&& ok == all_valid(rs)
            &&& ok ==> final(folding_ranges)@ == old(folding_ranges)@ + ranges_of(rs)
            &&& ok ==> *final(cell_marker) == cell
        }),
        extends(old(folding_ranges)@, final(folding_ranges)@),
{
    assert(ranges_of(Seq::empty()) =~= Seq::<FoldingRange>::empty());
    assert(old(folding_ranges)@ + Seq::<FoldingRange>::empty() =~= old(folding_ranges)@);
    if !is_cell_marker(line_text) {
        return true;
    }
    match *cell_marker {
        None => {
            *cell_marker = Some(line_idx);
            true
        },
        Some(start_line) => {
            if !(closing_range_ok(start_line, line_idx)) {
                proof {
                    lemma_single(comment_model(start_line as int, line_idx - 1));
                }
                return false;
            }
            let range = comment_range(start_line, line_idx - 1);
            folding_ranges.push(range);
            *cell_marker = Some(line_idx);
            assert(ranges_of(seq![comment_model(start_line as int, line_idx - 1)]) =~= seq![range]);
            assert(folding_ranges@ =~= old(folding_ranges)@ + seq![range]);
            true
        },
    }
}

/// The end of a node that ends on `line_idx`: closes the open sections (in
/// the order they opened), the open region and the current cell, each on the
/// line before, and leaves nothing open.
pub fn end_node_handler(
    folding_ranges: &mut Vec<FoldingRange>,
    line_idx: usize,
    comment_stack: &mut Vec<(usize, usize)>,
    region_marker: &mut Option<usize>,
    cell_marker: &mut Option<usize>,
) -> (ok: bool)
    ensures
        ({
            let st = FoldState {
                sections: old(comment_stack)@,
                region: *old(region_marker),
                cell: *old(cell_marker),
            };
            let rs = end_step(st, line_idx);
            &&& ok == all_valid(rs)
            &&& ok ==> final(folding_ranges)@ == old(folding_ranges)@ + ranges_of(rs)
            &&& ok ==> final(comment_stack)@.len() == 0
            &&& ok ==> *final(region_marker) is None
            &&& ok ==> *final(cell_marker) is None
        }),
        extends(old(folding_ranges)@, final(folding_ranges)@),
{
    let ghost st = FoldState {
        sections: comment_stack@,
        region: *region_marker,
        cell: *cell_marker,
    };
    let ghost base = folding_ranges@;
    let ghost closing = close_sections(comment_stack@, line_idx);
    let ghost tail = match st.region {
        Some(start) => seq![comment_model(start as int, line_idx - 1)],
        None => Seq::<RangeModel>::empty(),
    } + match st.cell {
        Some(start) => seq![comment_model(start as int, line_idx - 1)],
        None => Seq::<RangeModel>::empty(),
    };
    assert(end_step(st, line_idx) =~= closing + tail);
    proof {
        lemma_all_valid_add(closing, tail);
    }
    let mut i: usize = 0;
    while i < comment_stack.len()
        invariant
            closing == close_sections(comment_stack@, line_idx),
            st == (FoldState {
                sections: old(comment_stack)@,
                region: *old(region_marker),
                cell: *old(cell_marker),
            }),
            comment_stack@ == old(comment_stack)@,
            *region_marker == st.region,
            *cell_marker == st.cell,
            base == old(folding_ranges)@,
            end_step(st, line_idx) == closing + tail,
            all_valid(closing + tail) == (all_valid(closing) && all_valid(tail)),
            i <= comment_stack.len(),
            all_valid(closing.take(i as int)),
            folding_ranges@ == base + ranges_of(closing.take(i as int)),
        decreases comment_stack.len() - i,
    {
        let (_level, start_line) = comment_stack[i];
        assert(closing[i as int] == comment_model(start_line as int, line_idx - 1));
        if !(closing_range_ok(start_line, line_idx)) {
            assert(!closing[i as int].valid);
            return false;
        }
        let range = comment_range(start_line, line_idx - 1);
        folding_ranges.push(range);
        proof {
            assert(closing.take(i + 1) =~= closing.take(i as int) + seq![closing[i as int]]);
            lemma_all_valid_add(closing.take(i as int), seq![closing[i as int]]);
            assert(ranges_of(seq![closing[i as int]]) =~= seq![range]);
        }
        i = i + 1;
    }
    assert(closing.take(i as int) =~= closing);
    comment_stack.clear();
    let ghost mid = folding_ranges@;
    let ghost region_part = match st.region {
        Some(start) => seq![comment_model(start as int, line_idx - 1)],
        None => Seq::<RangeModel>::empty(),
    };
    let ghost cell_part = match st.cell {
        Some(start) => seq![comment_model(start as int, line_idx - 1)],
        None => Seq::<RangeModel>::empty(),
    };
    proof {
        lemma_all_valid_add(region_part, cell_part);
        lemma_all_valid_add(closing, region_part);
        lemma_all_valid_add(closing + region_part, cell_part);
        assert(tail == region_part + cell_part);
        assert(closing + tail =~= closing + region_part + cell_part);
    }
    if let Some(region_start) = *region_marker {
        if !(closing_range_ok(region_start, line_idx)) {
            assert(!region_part[0].valid);
            return false;
        }
        let range = comment_range(region_start, line_idx - 1);
        folding_ranges.push(range);
        *region_marker = None;
        assert(ranges_of(region_part) =~= seq![range]);
    } else {
        assert(ranges_of(region_part) =~= Seq::<FoldingRange>::empty());
    }
    assert(folding_ranges@ =~= mid + ranges_of(region_part));
    let ghost mid2 = folding_ranges@;
    if let Some(cell_start) = *cell_marker {
        if !(closing_range_ok(cell_start, line_idx)) {
            assert(!cell_part[0].valid);
            return false;
        }
        let range = comment_range(cell_start, line_idx - 1);
        folding_ranges.push(range);
        *cell_marker = None;
        assert(ranges_of(cell_part) =~= seq![range]);
    } else {
        assert(ranges_of(cell_part) =~= Seq::<FoldingRange>::empty());
    }
    assert(folding_ranges@ =~= mid2 + ranges_of(cell_part));
    proof {
        lemma_all_valid_add(closing + region_part, cell_part);
        lemma_all_valid_add(closing, region_part);
        assert(folding_ranges@ =~= base + ranges_of(closing + region_part + cell_part));
    }
    true
}


// ---------------------------------------------------------------------------
// Walking the tree
// ---------------------------------------------------------------------------

pub open spec fn state_of(
    sections: Seq<(usize, usize)>,
    region: Option<usize>,
    cell: Option<usize>,
) -> FoldState {
    FoldState { sections, region, cell }
}

/// Once some child's ranges hold one that cannot be reported, so do the ranges
/// of all the children.
proof fn lemma_visit_children_invalid(text: Seq<char>, t: SyntaxTree, k: nat, m: nat)
    requires
        k <= m <= t.children.len(),
        !all_valid(visit_children(text, t, k).0),
    ensures
        !all_valid(visit_children(text, t, m).0),
    decreases m - k,
{
    if k < m {
        lemma_visit_children_invalid(text, t, k, (m - 1) as nat);
        let (before, st) = visit_children(text, t, (m - 1) as nat);
        lemma_all_valid_add(before, visit(text, t.children[m - 1], st).0);
    }
}

fn kind_is(kind: &String, name: &str) -> (r: bool)
    ensures
        r == (kind@ == name@),
{
    *kind == name.to_owned()
}

fn bracket_range_ok(
    start_line: usize,
    start_char: usize,
    end_line: usize,
    end_char: usize,
    white_space_count: usize,
) -> (r: bool)
    ensures
        r == bracket_model(
            start_line as int,
            start_char as int,
            end_line as int,
            end_char as int,
            white_space_count as int,
        ).valid,
{
    start_line <= u32::MAX as usize && end_line <= u32::MAX as usize && end_char
        <= u32::MAX as usize && (end_char != white_space_count || end_line >= 1)
}

/// Walks the subtree of `node`, appending its folding ranges: a bracketed
/// construct that spans lines folds from its opening to just before its closing
/// bracket; a stand-alone comment may open or close a section, a region or a
/// cell among its siblings (`comment_stack`, `region_marker`, `cell_marker`);
/// whatever the children of a node leave open closes where the node ends.
/// Gives false, and stops, where a range would not fit the protocol's numbers.
#[verifier::rlimit(100)]
#[verifier::spinoff_prover]
pub fn parse_ts_node(
    node: &SyntaxNode,
    folding_ranges: &mut Vec<FoldingRange>,
    document: &Document,
    comment_stack: &mut Vec<(usize, usize)>,
    region_marker: &mut Option<usize>,
    cell_marker: &mut Option<usize>,
) -> (ok: bool)
    ensures
        ok == all_valid(
            visit(
                document.contents@,
                node@,
                state_of(old(comment_stack)@, *old(region_marker), *old(cell_marker)),
            ).0,
        ),
        ok ==> final(folding_ranges)@ == old(folding_ranges)@ + ranges_of(
            visit(
                document.contents@,
                node@,
                state_of(old(comment_stack)@, *old(region_marker), *old(cell_marker)),
            ).0,
        ),
        extends(old(folding_ranges)@, final(folding_ranges)@),
        ok ==> state_of(final(comment_stack)@, *final(region_marker), *final(cell_marker))
            == visit(
            document.contents@,
            node@,
            state_of(old(comment_stack)@, *old(region_marker), *old(cell_marker)),
        ).1,
    decreases node,
{
    let ghost text = document.contents@;
    let ghost t = node@;
    let ghost st0 = state_of(comment_stack@, *region_marker, *cell_marker);
    let ghost base = folding_ranges@;
    assert(t.kind == node.kind@);
    let bracket = kind_is(&node.kind, "parameters") || kind_is(&node.kind, "arguments")
        || kind_is(&node.kind, "braced_expression");
    let comment = !bracket && kind_is(&node.kind, "comment");
    proof {
        lemma_none();
    }
    if bracket {
        if node.start_row == node.end_row {
            assert(base + Seq::<FoldingRange>::empty() =~= base);
            return true;
        }
    } else if comment {
        if count_leading_whitespaces(document, node.start_row) != node.start_column {
            assert(base + Seq::<FoldingRange>::empty() =~= base);
            return true;
        }
    }
    assert(!skipped(text, t));
    let ghost own = own_step(text, t, st0);
    let ghost (inner, last) = visit_children(text, t, t.children.len());
    let ghost closing = end_step(last, t.end_row as usize);
    assert(t.children.len() > 0 ==> visit(text, t, st0) == (own.0 + inner + closing, own.1));
    assert(t.children.len() == 0 ==> visit(text, t, st0) == own);
    if bracket {
        if node.end_column == 0 {
            proof {
                lemma_single(own.0[0]);
                assert(own.0 == seq![own.0[0]]);
                lemma_all_valid_add(own.0, inner);
                lemma_all_valid_add(own.0 + inner, closing);
            }
            return false;
        }
        let ws = count_leading_whitespaces(document, node.end_row);
        let ghost m = bracket_model(
            node.start_row as int,
            node.start_column as int,
            node.end_row as int,
            node.end_column - 1,
            ws as int,
        );
        assert(own.0 == seq![m]);
        proof {
            lemma_single(m);
            lemma_all_valid_add(own.0, inner);
            lemma_all_valid_add(own.0 + inner, closing);
        }
        if !bracket_range_ok(node.start_row, node.start_column, node.end_row, node.end_column - 1, ws) {
            return false;
        }
        let range = bracket_range(
            node.start_row,
            node.start_column,
            node.end_row,
            node.end_column - 1,
            ws,
        );
        folding_ranges.push(range);
        assert(folding_ranges@ =~= base + ranges_of(own.0));
    } else if comment {
        proof {
            lemma_whole_line_ok(text, node.start_row as int);
        }
        let comment_line = get_line_text(document, node.start_row, None, None);
        let ghost line = comment_line@;
        let ghost r1 = section_step(st0.sections, node.start_row, line);
        let ghost r2 = region_step(st0.region, node.start_row, line);
        let ghost r3 = cell_step(st0.cell, node.start_row, line);
        assert(own == (r1.0 + r2.0 + r3.0, state_of(r1.1, r2.1, r3.1)));
        proof {
            lemma_all_valid_add(r1.0, r2.0);
            lemma_all_valid_add(r1.0 + r2.0, r3.0);
            lemma_all_valid_add(own.0, inner);
            lemma_all_valid_add(own.0 + inner, closing);
        }
        if !nested_processor(comment_stack, folding_ranges, node.start_row, comment_line.as_str()) {
            return false;
        }
        let ghost f1 = folding_ranges@;
        if !region_processor(folding_ranges, region_marker, node.start_row, comment_line.as_str()) {
            proof {
                lemma_extends_trans(base, f1, folding_ranges@);
            }
            return false;
        }
        let ghost f2 = folding_ranges@;
        proof {
            lemma_extends_trans(base, f1, f2);
        }
        if !cell_processor(folding_ranges, cell_marker, node.start_row, comment_line.as_str()) {
            proof {
                lemma_extends_trans(base, f2, folding_ranges@);
            }
            return false;
        }
        assert(folding_ranges@ =~= base + ranges_of(own.0));
    } else {
        assert(own == (Seq::<RangeModel>::empty(), st0));
        assert(folding_ranges@ =~= base + ranges_of(own.0));
    }
    assert(state_of(comment_stack@, *region_marker, *cell_marker) == own.1);
    assert(all_valid(own.0));
    let ghost mid = folding_ranges@;
    if node.children.len() > 0 {
        let mut child_stack: Vec<(usize, usize)> = Vec::new();
        let mut child_region: Option<usize> = None;
        let mut child_cell: Option<usize> = None;
        let mut i: usize = 0;
        assert(child_stack@ =~= Seq::<(usize, usize)>::empty());
        assert(mid + ranges_of(Seq::empty()) =~= mid);
        while i < node.children.len()
            invariant
                text == document.contents@,
                t == node@,
                t.children.len() == node.children.len(),
                st0 == state_of(old(comment_stack)@, *old(region_marker), *old(cell_marker)),
                visit(text, t, st0).0 == own.0 + inner + closing,
                inner == visit_children(text, t, t.children.len()).0,
                base == old(folding_ranges)@,
                extends(base, folding_ranges@),
                i <= node.children.len(),
                all_valid(visit_children(text, t, i as nat).0),
                folding_ranges@ == mid + ranges_of(visit_children(text, t, i as nat).0),
                state_of(child_stack@, child_region, child_cell) == visit_children(
                    text,
                    t,
                    i as nat,
                ).1,
            decreases node.children.len() - i,
        {
            let ghost before = visit_children(text, t, i as nat);
            let ghost ranges_before = folding_ranges@;
            assert(t.children[i as int] == node.children@[i as int]@);
            let child_ok = parse_ts_node(
                &node.children[i],
                folding_ranges,
                document,
                &mut child_stack,
                &mut child_region,
                &mut child_cell,
            );
            let ghost step = visit(text, t.children[i as int], before.1);
            assert(visit_children(text, t, (i + 1) as nat) == (before.0 + step.0, step.1));
            proof {
                lemma_all_valid_add(before.0, step.0);
            }
            if !child_ok {
                proof {
                    lemma_visit_children_invalid(
                        text,
                        t,
                        (i + 1) as nat,
                        node.children.len() as nat,
                    );
                    lemma_all_valid_add(own.0, inner);
                    lemma_all_valid_add(own.0 + inner, closing);
                    lemma_extends_trans(base, ranges_before, folding_ranges@);
                }
                return false;
            }
            proof {
                lemma_extends_trans(base, ranges_before, folding_ranges@);
            }
            assert(folding_ranges@ =~= mid + ranges_of(before.0 + step.0));
            i = i + 1;
        }
        assert(visit_children(text, t, i as nat) == (inner, last));
        proof {
            lemma_all_valid_add(inner, closing);
            lemma_all_valid_add(own.0, inner + closing);
            assert(own.0 + inner + closing =~= own.0 + (inner + closing));
        }
        let ghost ranges_before_end = folding_ranges@;
        if !end_node_handler(
            folding_ranges,
            node.end_row,
            &mut child_stack,
            &mut child_region,
            &mut child_cell,
        ) {
            proof {
                lemma_extends_trans(base, ranges_before_end, folding_ranges@);
            }
            return false;
        }
        proof {
            lemma_all_valid_add(own.0, inner);
            lemma_all_valid_add(own.0 + inner, closing);
            assert(folding_ranges@ =~= base + ranges_of(own.0 + inner + closing));
        }
    }
    true
}

/// The folding ranges of a document whose syntax tree is `tree`: an error when
/// the tree holds a syntax error, or when a range does not fit the protocol's
/// line and character numbers.
pub fn folding_range_of_tree(document: &Document, tree: &SyntaxNode) -> (r: Result<
    Vec<FoldingRange>,
    FoldingRangeError,
>)
    ensures
        match r {
            Ok(v) => folding_ranges_of(document.contents@, tree@) == Ok::<
                Seq<FoldingRange>,
                FoldingRangeError,
            >(v@),
            Err(e) => folding_ranges_of(document.contents@, tree@) == Err::<
                Seq<FoldingRange>,
                FoldingRangeError,
            >(e),
        },
{
    assert(tree@.has_error == tree.has_error);
    if tree.has_error {
        return Err(FoldingRangeError::ParseError);
    }
    let mut folding_ranges: Vec<FoldingRange> = Vec::new();
    let mut comment_stack: Vec<(usize, usize)> = Vec::new();
    let mut region_marker: Option<usize> = None;
    let mut cell_marker: Option<usize> = None;
    assert(state_of(comment_stack@, region_marker, cell_marker) == empty_state());
    let ok = parse_ts_node(
        tree,
        &mut folding_ranges,
        document,
        &mut comment_stack,
        &mut region_marker,
        &mut cell_marker,
    );
    if !ok {
        return Err(FoldingRangeError::PositionOutOfRange);
    }
    assert(folding_ranges@ =~= ranges_of(visit(document.contents@, tree@, empty_state()).0));
    Ok(folding_ranges)
}

/// The folding ranges of an R document: its syntax tree is parsed, then walked
/// (see `folding_range_of_tree`).
pub fn folding_range(document: &Document) -> (r: Result<Vec<FoldingRange>, FoldingRangeError>)
    ensures
        match parsed_r_tree(document.contents@) {
            None => r == Err::<Vec<FoldingRange>, FoldingRangeError>(
                FoldingRangeError::ParserUnavailable,
            ),
            Some(t) => match r {
                Ok(v) => folding_ranges_of(document.contents@, t) == Ok::<
                    Seq<FoldingRange>,
                    FoldingRangeError,
                >(v@),
                Err(e) => folding_ranges_of(document.contents@, t) == Err::<
                    Seq<FoldingRange>,
                    FoldingRangeError,
                >(e),
            },
        },
        (r == Err::<Vec<FoldingRange>, FoldingRangeError>(FoldingRangeError::ParserUnavailable))
            <==> parsed_r_nodes(document.contents@) is None,
{
    match parse_r(document.contents.as_str()) {
        Some(tree) => folding_range_of_tree(document, &tree),
        None => Err(FoldingRangeError::ParserUnavailable),
    }
}


// ---------------------------------------------------------------------------
// Laws
// ---------------------------------------------------------------------------

/// A bracketed construct that starts and ends on the same line folds nothing,
/// nor does anything inside it, and its siblings see the state unchanged.
pub proof fn lemma_single_line_brackets_do_not_fold(
    text: Seq<char>,
    t: SyntaxTree,
    st: FoldState,
)
    requires
        is_bracket_kind(t.kind),
        t.start_row == t.end_row,
    ensures
        visit(text, t, st) == (Seq::<RangeModel>::empty(), st),
{
}

/// A comment with code before it on its line folds nothing and changes no
/// section, region or cell.
pub proof fn lemma_inline_comments_are_ignored(text: Seq<char>, t: SyntaxTree, st: FoldState)
    requires
        is_comment_kind(t.kind),
        !is_bracket_kind(t.kind),
        leading_white_space(line_of(text, t.start_row as int)) != t.start_column,
    ensures
        visit(text, t, st) == (Seq::<RangeModel>::empty(), st),
{
}

/// Every range the walk reports is a region and has no collapsed text.
pub proof fn lemma_ranges_are_regions(ms: Seq<RangeModel>)
    ensures
        forall|i: int|
            0 <= i < ranges_of(ms).len() ==> (#[trigger] ranges_of(ms)[i]).kind == Some(
                FoldingRangeKind::Region,
            ) && ranges_of(ms)[i].collapsed_text is None,
{
}

/// Levels strictly increase from the outermost open section to the innermost.
pub open spec fn properly_nested(sections: Seq<(usize, usize)>) -> bool {
    forall|i: int, j: int| 0 <= i < j < sections.len() ==> sections[i].0 < sections[j].0
}

/// Opening a section of `level` on `line` closes exactly the open sections of
/// that level or deeper, innermost first, each on the line before; the
/// shallower ones stay open, and the new section becomes the innermost. So
/// every section is closed once: the ranges and the sections still open
/// together number one more than the sections open before. Sections stay
/// properly nested.
pub proof fn lemma_sections_nest(sections: Seq<(usize, usize)>, level: usize, line: usize)
    requires
        properly_nested(sections),
    ensures
        ({
            let (closed, open) = nest_sections(sections, level, line);
            let kept = open.len() - 1;
            &&& closed.len() + open.len() == sections.len() + 1
            &&& open.len() >= 1
            &&& properly_nested(open)
            &&& open.last() == (level, line)
            &&& open.drop_last() == sections.take(kept)
            &&& forall|i: int| 0 <= i < kept ==> (#[trigger] sections[i]).0 < level
            &&& forall|i: int| kept <= i < sections.len() ==> (#[trigger] sections[i]).0 >= level
            &&& forall|i: int|
                0 <= i < closed.len() ==> #[trigger] closed[i] == comment_model(
                    sections[sections.len() - 1 - i].1 as int,
                    line - 1,
                )
        }),
    decreases sections.len(),
{
    if sections.len() == 0 {
        let (closed, open) = nest_sections(sections, level, line);
        assert(open.drop_last() =~= sections.take(0));
    } else {
        let (last_level, last_line) = sections.last();
        let (closed, open) = nest_sections(sections, level, line);
        if last_level < level {
            assert(open.drop_last() =~= sections.take(sections.len() as int));
            assert forall|i: int| 0 <= i < sections.len() implies (#[trigger] sections[i]).0
                < level by {
                if i < sections.len() - 1 {
                    assert(sections[i].0 < sections[sections.len() - 1].0);
                }
            }
        } else if last_level == level {
            let rest = sections.drop_last();
            assert(open.drop_last() =~= sections.take(sections.len() - 1));
            assert forall|i: int| 0 <= i < sections.len() - 1 implies (#[trigger] sections[i]).0
                < level by {
                assert(sections[i].0 < sections[sections.len() - 1].0);
            }
            assert forall|i: int, j: int| 0 <= i < j < open.len() implies open[i].0 < open[j].0 by {
                if j == open.len() - 1 {
                    assert(open[i] == sections[i]);
                } else {
                    assert(open[i] == sections[i]);
                    assert(open[j] == sections[j]);
                }
            }
        } else {
            let rest = sections.drop_last();
            assert(properly_nested(rest)) by {
                assert forall|i: int, j: int| 0 <= i < j < rest.len() implies rest[i].0
                    < rest[j].0 by {
                    assert(rest[i] == sections[i]);
                    assert(rest[j] == sections[j]);
                }
            }
            lemma_sections_nest(rest, level, line);
            let (closed_rest, open_rest) = nest_sections(rest, level, line);
            assert(open == open_rest);
            assert(closed == seq![comment_model(last_line as int, line - 1)] + closed_rest);
            let kept = open.len() - 1;
            assert(closed_rest.len() + open_rest.len() == rest.len() + 1);
            assert(0 <= kept <= rest.len());
            assert(rest.take(kept) =~= sections.take(kept));
            assert forall|i: int| kept <= i < sections.len() implies (#[trigger] sections[i]).0
                >= level by {
                if i < sections.len() - 1 {
                    assert(sections[i] == rest[i]);
                }
            }
            assert forall|i: int| 0 <= i < kept implies (#[trigger] sections[i]).0 < level by {
                assert(sections[i] == rest[i]);
            }
            assert forall|i: int| 0 <= i < closed.len() implies #[trigger] closed[i]
                == comment_model(sections[sections.len() - 1 - i].1 as int, line - 1) by {
                if i > 0 {
                    assert(closed[i] == closed_rest[i - 1]);
                    assert(rest[rest.len() - 1 - (i - 1)] == sections[sections.len() - 1 - i]);
                }
            }
        }
    }
}

/// A `# region` line followed later by a `# endregion` line folds exactly
/// from the first to the second, and leaves no region open.
pub proof fn lemma_region_pairs(
    region: Option<usize>,
    start: usize,
    start_text: Seq<char>,
    end: usize,
    end_text: Seq<char>,
)
    requires
        region_type_of(start_text) == Some(RegionType::Start),
        region_type_of(end_text) == Some(RegionType::End),
    ensures
        region_step(region, start, start_text).1 == Some(start),
        region_step(Some(start), end, end_text) == (
            seq![comment_model(start as int, end as int)],
            None::<usize>,
        ),
{
}

/// An `# endregion` line with no open region folds nothing.
pub proof fn lemma_unmatched_endregion(line: usize, text: Seq<char>)
    requires
        region_type_of(text) == Some(RegionType::End),
    ensures
        region_step(None, line, text) == (Seq::<RangeModel>::empty(), None::<usize>),
{
}

/// A cell marker closes the current cell on the line before and starts the
/// next one on its own line.
pub proof fn lemma_cells_chain(start: usize, next: usize, text: Seq<char>)
    requires
        is_cell_line(text),
    ensures
        cell_step(Some(start), next, text) == (
            seq![comment_model(start as int, next - 1)],
            Some(next),
        ),
        cell_step(None, next, text) == (Seq::<RangeModel>::empty(), Some(next)),
{
}

/// At the end of a node, every open section, the open region and the current
/// cell each give one range ending on the line before the node's last line.
pub proof fn lemma_end_closes_everything(st: FoldState, line: usize)
    ensures
        end_step(st, line).len() == st.sections.len() + (if st.region is Some {
            1int
        } else {
            0
        }) + (if st.cell is Some {
            1int
        } else {
            0
        }),
        forall|i: int|
            0 <= i < end_step(st, line).len() ==> (#[trigger] end_step(st, line)[i]).end_line
                == line - 1,
{
    let c = close_sections(st.sections, line);
    let r = match st.region {
        Some(start) => seq![comment_model(start as int, line - 1)],
        None => Seq::<RangeModel>::empty(),
    };
    let k = match st.cell {
        Some(start) => seq![comment_model(start as int, line - 1)],
        None => Seq::<RangeModel>::empty(),
    };
    assert(end_step(st, line) == c + r + k);
    assert forall|i: int| 0 <= i < end_step(st, line).len() implies (#[trigger] end_step(
        st,
        line,
    )[i]).end_line == line - 1 by {
        if i < c.len() {
            assert(end_step(st, line)[i] == c[i]);
        } else if i < c.len() + r.len() {
            assert(end_step(st, line)[i] == r[i - c.len()]);
        } else {
            assert(end_step(st, line)[i] == k[i - c.len() - r.len()]);
        }
    }
}

/// A reportable bracket range of a construct that spans lines never ends
/// before it starts, and ends on the closing bracket's line or the line before.
pub proof fn lemma_bracket_ranges_are_ordered(
    start_line: int,
    start_char: int,
    end_line: int,
    end_char: int,
    white_space: int,
)
    requires
        start_line < end_line,
        bracket_model(start_line, start_char, end_line, end_char, white_space).valid,
    ensures
        ({
            let m = bracket_model(start_line, start_char, end_line, end_char, white_space);
            &&& m.start_line <= m.end_line
            &&& end_line - 1 <= m.end_line <= end_line
            &&& m.start_line == start_line
        }),
{
}


/// The open sections stay properly nested as the walk moves from one sibling
/// to the next.
pub proof fn lemma_walk_keeps_sections_nested(text: Seq<char>, t: SyntaxTree, st: FoldState)
    requires
        properly_nested(st.sections),
    ensures
        properly_nested(visit(text, t, st).1.sections),
{
    if !skipped(text, t) && !is_bracket_kind(t.kind) && is_comment_kind(t.kind) {
        let line = line_of(text, t.start_row as int);
        if let Some((level, _)) = comment_section(line) {
            lemma_sections_nest(st.sections, level, t.start_row as usize);
        }
    }
}


// ---------------------------------------------------------------------------
// Comments that are no marker, and runs of comment lines
// ---------------------------------------------------------------------------

/// A comment line that is not a cell marker leaves the current cell as it was
/// and closes nothing.
pub proof fn lemma_non_cell_comments_keep_the_cell(cell: Option<usize>, line: usize, text: Seq<char>)
    requires
        !is_cell_line(text),
    ensures
        cell_step(cell, line, text) == (Seq::<RangeModel>::empty(), cell),
{
}

/// A comment line that is neither `# region` nor `# endregion` leaves the open
/// region as it was and closes nothing.
pub proof fn lemma_non_marker_comments_keep_the_region(
    region: Option<usize>,
    line: usize,
    text: Seq<char>,
)
    requires
        region_type_of(text) is None,
    ensures
        region_step(region, line, text) == (Seq::<RangeModel>::empty(), region),
{
}

/// A comment line that is not a section header leaves the open sections as
/// they were and closes nothing.
pub proof fn lemma_non_header_comments_keep_the_sections(
    sections: Seq<(usize, usize)>,
    line: usize,
    text: Seq<char>,
)
    requires
        comment_section(text) is None,
    ensures
        section_step(sections, line, text) == (Seq::<RangeModel>::empty(), sections),
{
}

/// A comment that stands on its own line and is neither a section header, a
/// region marker nor a cell marker folds nothing, and the siblings after it
/// see the open sections, region and cell exactly as before it.
pub proof fn lemma_plain_comments_change_nothing(text: Seq<char>, t: SyntaxTree, st: FoldState)
    requires
        is_comment_kind(t.kind),
        t.children.len() == 0,
        leading_white_space(line_of(text, t.start_row as int)) == t.start_column,
        comment_section(line_of(text, t.start_row as int)) is None,
        region_type_of(line_of(text, t.start_row as int)) is None,
        !is_cell_line(line_of(text, t.start_row as int)),
    ensures
        visit(text, t, st) == (Seq::<RangeModel>::empty(), st),
{
    reveal_strlit("comment");
    reveal_strlit("parameters");
    reveal_strlit("arguments");
    reveal_strlit("braced_expression");
    assert(!is_bracket_kind(t.kind)) by {
        assert("comment"@.len() != "parameters"@.len());
        assert("comment"@.len() != "arguments"@.len());
        assert("comment"@.len() != "braced_expression"@.len());
    }
    assert(!skipped(text, t));
    let e = Seq::<RangeModel>::empty();
    assert(e + e + e =~= e);
    let after = FoldState { sections: st.sections, region: st.region, cell: st.cell };
    assert(after == st);
}

/// The ranges and the cell after a run of comment lines, each given by its
/// line number and text, when the cell before them was `cell`.
pub open spec fn cell_run(cell: Option<usize>, lines: Seq<(usize, Seq<char>)>) -> (
    Seq<RangeModel>,
    Option<usize>,
)
    decreases lines.len(),
{
    if lines.len() == 0 {
        (Seq::empty(), cell)
    } else {
        let (r, c) = cell_step(cell, lines[0].0, lines[0].1);
        let (rest, last) = cell_run(c, lines.drop_first());
        (r + rest, last)
    }
}

/// The ranges and the region after a run of comment lines.
pub open spec fn region_run(region: Option<usize>, lines: Seq<(usize, Seq<char>)>) -> (
    Seq<RangeModel>,
    Option<usize>,
)
    decreases lines.len(),
{
    if lines.len() == 0 {
        (Seq::empty(), region)
    } else {
        let (r, g) = region_step(region, lines[0].0, lines[0].1);
        let (rest, last) = region_run(g, lines.drop_first());
        (r + rest, last)
    }
}

/// The ranges and the open sections after a run of comment lines.
pub open spec fn section_run(sections: Seq<(usize, usize)>, lines: Seq<(usize, Seq<char>)>) -> (
    Seq<RangeModel>,
    Seq<(usize, usize)>,
)
    decreases lines.len(),
{
    if lines.len() == 0 {
        (Seq::empty(), sections)
    } else {
        let (r, s) = section_step(sections, lines[0].0, lines[0].1);
        let (rest, last) = section_run(s, lines.drop_first());
        (r + rest, last)
    }
}

proof fn lemma_cell_run_skips(cell: Option<usize>, lines: Seq<(usize, Seq<char>)>, tail: Seq<(usize, Seq<char>)>)
    requires
        forall|i: int| 0 <= i < lines.len() ==> !is_cell_line(#[trigger] lines[i].1),
    ensures
        cell_run(cell, lines + tail) == cell_run(cell, tail),
    decreases lines.len(),
{
    if lines.len() > 0 {
        assert((lines + tail)[0] == lines[0]);
        assert((lines + tail).drop_first() =~= lines.drop_first() + tail);
        lemma_cell_run_skips(cell, lines.drop_first(), tail);
        assert(Seq::<RangeModel>::empty() + cell_run(cell, tail).0 =~= cell_run(cell, tail).0);
    } else {
        assert(lines + tail =~= tail);
    }
}

proof fn lemma_region_run_skips(
    region: Option<usize>,
    lines: Seq<(usize, Seq<char>)>,
    tail: Seq<(usize, Seq<char>)>,
)
    requires
        forall|i: int| 0 <= i < lines.len() ==> (#[trigger] region_type_of(lines[i].1)) is None,
    ensures
        region_run(region, lines + tail) == region_run(region, tail),
    decreases lines.len(),
{
    if lines.len() > 0 {
        assert((lines + tail)[0] == lines[0]);
        assert(region_type_of(lines[0].1) is None);
        assert((lines + tail).drop_first() =~= lines.drop_first() + tail);
        lemma_region_run_skips(region, lines.drop_first(), tail);
        assert(Seq::<RangeModel>::empty() + region_run(region, tail).0 =~= region_run(
            region,
            tail,
        ).0);
    } else {
        assert(lines + tail =~= tail);
    }
}

proof fn lemma_section_run_skips(
    sections: Seq<(usize, usize)>,
    lines: Seq<(usize, Seq<char>)>,
    tail: Seq<(usize, Seq<char>)>,
)
    requires
        forall|i: int| 0 <= i < lines.len() ==> (#[trigger] comment_section(lines[i].1)) is None,
    ensures
        section_run(sections, lines + tail) == section_run(sections, tail),
    decreases lines.len(),
{
    if lines.len() > 0 {
        assert((lines + tail)[0] == lines[0]);
        assert(comment_section(lines[0].1) is None);
        assert((lines + tail).drop_first() =~= lines.drop_first() + tail);
        lemma_section_run_skips(sections, lines.drop_first(), tail);
        assert(Seq::<RangeModel>::empty() + section_run(sections, tail).0 =~= section_run(
            sections,
            tail,
        ).0);
    } else {
        assert(lines + tail =~= tail);
    }
}

/// Two cell markers on lines `a` and `b`, with only comments that are no cell
/// marker between them, fold the first cell from `a` to the line before `b`,
/// and leave the cell of `b` open.
pub proof fn lemma_cells_fold_to_the_next_marker(
    a: usize,
    first: Seq<char>,
    between: Seq<(usize, Seq<char>)>,
    b: usize,
    next: Seq<char>,
)
    requires
        is_cell_line(first),
        is_cell_line(next),
        forall|i: int| 0 <= i < between.len() ==> !is_cell_line(#[trigger] between[i].1),
    ensures
        cell_run(None, seq![(a, first)] + between + seq![(b, next)]) == (
            seq![comment_model(a as int, b - 1)],
            Some(b),
        ),
{
    let lines = seq![(a, first)] + between + seq![(b, next)];
    let tail = seq![(b, next)];
    assert(lines[0] == (a, first));
    assert(lines.drop_first() =~= between + tail);
    lemma_cell_run_skips(Some(a), between, tail);
    assert(tail.drop_first() =~= Seq::<(usize, Seq<char>)>::empty());
    let e = Seq::<RangeModel>::empty();
    let m = seq![comment_model(a as int, b - 1)];
    assert(cell_step(None, a, first) == (e, Some(a)));
    assert(cell_run(Some(b), Seq::<(usize, Seq<char>)>::empty()) == (e, Some(b)));
    assert(cell_step(Some(a), b, next) == (m, Some(b)));
    assert(cell_run(Some(a), tail) == (m + e, Some(b)));
    assert(cell_run(None, lines) == (e + cell_run(Some(a), between + tail).0, Some(b)));
    assert(e + (m + e) =~= m);
}

/// A `# region` line at `a` and an `# endregion` line at `b`, with only
/// comments that are neither between them, fold from `a` to `b` and leave no
/// region open.
pub proof fn lemma_regions_fold_to_their_end(
    region: Option<usize>,
    a: usize,
    first: Seq<char>,
    between: Seq<(usize, Seq<char>)>,
    b: usize,
    last: Seq<char>,
)
    requires
        region_type_of(first) == Some(RegionType::Start),
        region_type_of(last) == Some(RegionType::End),
        forall|i: int| 0 <= i < between.len() ==> (#[trigger] region_type_of(between[i].1)) is None,
    ensures
        region_run(region, seq![(a, first)] + between + seq![(b, last)]) == (
            seq![comment_model(a as int, b as int)],
            None::<usize>,
        ),
{
    let lines = seq![(a, first)] + between + seq![(b, last)];
    let tail = seq![(b, last)];
    assert(lines[0] == (a, first));
    assert(lines.drop_first() =~= between + tail);
    lemma_region_run_skips(Some(a), between, tail);
    assert(tail.drop_first() =~= Seq::<(usize, Seq<char>)>::empty());
    let e = Seq::<RangeModel>::empty();
    let m = seq![comment_model(a as int, b as int)];
    assert(region_step(region, a, first) == (e, Some(a)));
    assert(region_run(None, Seq::<(usize, Seq<char>)>::empty()) == (e, None::<usize>));
    assert(region_step(Some(a), b, last) == (m, None::<usize>));
    assert(region_run(Some(a), tail) == (m + e, None::<usize>));
    assert(region_run(region, lines) == (e + region_run(Some(a), between + tail).0, None::<usize>));
    assert(e + (seq![comment_model(a as int, b as int)] + e) =~= seq![
        comment_model(a as int, b as int),
    ]);
}

/// A section header of `level` at `a` with no open sections, followed by
/// comments that are no headers, leaves that section open, so the end of the node on line
/// `end` folds it from `a` to the line before.
pub proof fn lemma_sections_stay_open_to_the_end(
    a: usize,
    header: Seq<char>,
    level: usize,
    between: Seq<(usize, Seq<char>)>,
    end: usize,
)
    requires
        section_level(comment_section(header)) == Some(level),
        forall|i: int| 0 <= i < between.len() ==> (#[trigger] comment_section(between[i].1)) is None,
    ensures
        section_run(Seq::empty(), seq![(a, header)] + between) == (
            Seq::<RangeModel>::empty(),
            seq![(level, a)],
        ),
        close_sections(section_run(Seq::empty(), seq![(a, header)] + between).1, end) == seq![
            comment_model(a as int, end - 1),
        ],
{
    let lines = seq![(a, header)] + between;
    assert(lines[0] == (a, header));
    assert(lines.drop_first() =~= between + Seq::<(usize, Seq<char>)>::empty());
    let opened = seq![(level, a)];
    assert(section_step(Seq::empty(), a, header) == (Seq::<RangeModel>::empty(), opened));
    lemma_section_run_skips(opened, between, Seq::empty());
    let e = Seq::<RangeModel>::empty();
    assert(e + e =~= e);
    assert(close_sections(opened, end) =~= seq![comment_model(a as int, end - 1)]);
}

// ---------------------------------------------------------------------------
// The walk reaches every node
// ---------------------------------------------------------------------------

/// Where the ranges of child `i` of `t` start among the ranges of `t`'s
/// children.
pub open spec fn child_offset(text: Seq<char>, t: SyntaxTree, i: nat) -> int {
    visit_children(text, t, i).0.len() as int
}

/// The ranges of child `i` of `t`, walked with the state its earlier siblings
/// left.
pub open spec fn child_ranges(text: Seq<char>, t: SyntaxTree, i: nat) -> Seq<RangeModel> {
    visit(text, t.children[i as int], visit_children(text, t, i).1).0
}

proof fn lemma_children_ranges_kept(text: Seq<char>, t: SyntaxTree, i: nat, k: nat)
    requires
        i < k <= t.children.len(),
    ensures
        child_offset(text, t, i) + child_ranges(text, t, i).len() <= visit_children(
            text,
            t,
            k,
        ).0.len(),
        visit_children(text, t, k).0.subrange(
            child_offset(text, t, i),
            child_offset(text, t, i) + child_ranges(text, t, i).len(),
        ) == child_ranges(text, t, i),
    decreases k,
{
    let o = child_offset(text, t, i);
    let r = child_ranges(text, t, i);
    if k == i + 1 {
        assert(visit_children(text, t, k).0 == visit_children(text, t, i).0 + r);
        assert(visit_children(text, t, k).0.subrange(o, o + r.len()) =~= r);
    } else {
        lemma_children_ranges_kept(text, t, i, (k - 1) as nat);
        let before = visit_children(text, t, (k - 1) as nat).0;
        let (_, st) = visit_children(text, t, (k - 1) as nat);
        let last = visit(text, t.children[k - 1], st).0;
        assert(visit_children(text, t, k).0 == before + last);
        assert((before + last).subrange(o, o + r.len()) =~= before.subrange(o, o + r.len()));
    }
}

/// The walk goes into every node it does not skip: a bracketed construct that
/// spans lines gives its own range first, and the ranges of each child (walked
/// with the state its earlier siblings left) all appear, in order, among the
/// ranges of the node.
pub proof fn lemma_walk_reaches_every_child(text: Seq<char>, t: SyntaxTree, st: FoldState)
    requires
        !skipped(text, t),
    ensures
        is_bracket_kind(t.kind) ==> visit(text, t, st).0.len() >= 1 && visit(text, t, st).0[0]
            == bracket_model(
            t.start_row as int,
            t.start_column as int,
            t.end_row as int,
            t.end_column - 1,
            leading_white_space(line_of(text, t.end_row as int)) as int,
        ),
        forall|i: nat|
            i < t.children.len() ==> {
                let o = own_step(text, t, st).0.len() + child_offset(text, t, i);
                &&& o + child_ranges(text, t, i).len() <= visit(text, t, st).0.len()
                &&& visit(text, t, st).0.subrange(o, o + child_ranges(text, t, i).len())
                    == #[trigger] child_ranges(text, t, i)
            },
{
    let own = own_step(text, t, st).0;
    if t.children.len() > 0 {
        let n = t.children.len();
        let (inner, last) = visit_children(text, t, n);
        let closing = end_step(last, t.end_row as usize);
        assert(visit(text, t, st).0 == own + inner + closing);
        assert forall|i: nat| i < t.children.len() implies {
            let o = own.len() + child_offset(text, t, i);
            &&& o + child_ranges(text, t, i).len() <= visit(text, t, st).0.len()
            &&& visit(text, t, st).0.subrange(o, o + child_ranges(text, t, i).len())
                == #[trigger] child_ranges(text, t, i)
        } by {
            lemma_children_ranges_kept(text, t, i, n);
            let c = child_offset(text, t, i);
            let r = child_ranges(text, t, i);
            assert((own + inner + closing).subrange(own.len() + c, own.len() + c + r.len())
                =~= inner.subrange(c, c + r.len()));
        }
    }
    if is_bracket_kind(t.kind) {
        assert(visit(text, t, st).0[0] == own[0]);
    }
}

} // verus!
