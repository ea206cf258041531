use vstd::prelude::*;
use vstd::string::*;
use vstd::utf8::*;

verus! {

broadcast use vstd::string::group_string_axioms;

/// An open text document: the text the editor holds for it.
pub struct Document {
    pub contents: String,
}

// ---------------------------------------------------------------------------
// Characters
// ---------------------------------------------------------------------------

/// The Unicode `White_Space` property, the definition that `char::is_whitespace`
/// and `str::trim` use.
pub open spec fn is_white_space(c: char) -> bool {
    let u = c as u32;
    ||| 0x09 <= u <= 0x0D
    ||| u == 0x20
    ||| u == 0x85
    ||| u == 0xA0
    ||| u == 0x1680
    ||| 0x2000 <= u <= 0x200A
    ||| u == 0x2028
    ||| u == 0x2029
    ||| u == 0x202F
    ||| u == 0x205F
    ||| u == 0x3000
}

/// Whether `c` is a white-space character.
pub fn is_white_space_char(c: char) -> (r: bool)
    ensures
        r == is_white_space(c),
{
    let u = c as u32;
    (0x09 <= u && u <= 0x0D) || u == 0x20 || u == 0x85 || u == 0xA0 || u == 0x1680 || (0x2000
        <= u && u <= 0x200A) || u == 0x2028 || u == 0x2029 || u == 0x202F || u == 0x205F || u
        == 0x3000
}

/// The characters of `s`, in order.
pub fn chars_of(s: &str) -> (v: Vec<char>)
    ensures
        v@ == s@,
{
    let mut v: Vec<char> = Vec::new();
    for c in it: s.chars()
        invariant
            v@ == it.seq().take(it.index() as int),
            it.seq() == s@,
    {
        v.push(c);
    }
    v
}

/// Number of white-space characters at the start of `s`.
pub open spec fn leading_white_space(s: Seq<char>) -> nat
    decreases s.len(),
{
    if s.len() == 0 || !is_white_space(s[0]) {
        0
    } else {
        1 + leading_white_space(s.drop_first())
    }
}

/// `leading_white_space` counts exactly the white-space prefix: the first
/// `leading_white_space(s)` characters are white space, and the next one, if
/// any, is not.
pub proof fn lemma_leading_white_space(s: Seq<char>)
    ensures
        leading_white_space(s) <= s.len(),
        forall|j: int| 0 <= j < leading_white_space(s) ==> is_white_space(#[trigger] s[j]),
        leading_white_space(s) < s.len() ==> !is_white_space(s[leading_white_space(s) as int]),
    decreases s.len(),
{
    if s.len() > 0 && is_white_space(s[0]) {
        lemma_leading_white_space(s.drop_first());
        assert forall|j: int| 0 <= j < leading_white_space(s) implies is_white_space(
            #[trigger] s[j],
        ) by {
            if j > 0 {
                assert(s[j] == s.drop_first()[j - 1]);
            }
        }
    }
}

proof fn lemma_leading_white_space_skip(s: Seq<char>, i: int)
    requires
        0 <= i < s.len(),
    ensures
        leading_white_space(s.skip(i)) == if is_white_space(s[i]) {
            1 + leading_white_space(s.skip(i + 1))
        } else {
            0
        },
{
    assert(s.skip(i).drop_first() =~= s.skip(i + 1));
}

/// Number of white-space characters at the start of `line`.
pub fn count_white_space_prefix(line: &str) -> (n: usize)
    ensures
        n == leading_white_space(line@),
{
    let chars = chars_of(line);
    let mut i: usize = 0;
    assert(chars@.skip(0) =~= chars@);
    while i < chars.len()
        invariant
            chars@ == line@,
            i <= chars.len(),
            forall|j: int| 0 <= j < i ==> is_white_space(#[trigger] chars@[j]),
            leading_white_space(chars@) == i + leading_white_space(chars@.skip(i as int)),
        decreases chars.len() - i,
    {
        proof {
            lemma_leading_white_space_skip(chars@, i as int);
        }
        if !is_white_space_char(chars[i]) {
            return i;
        }
        i = i + 1;
    }
    assert(chars@.skip(i as int) =~= Seq::<char>::empty());
    i
}

// ---------------------------------------------------------------------------
// Trimming
// ---------------------------------------------------------------------------

/// Number of white-space characters at the end of `s`.
pub open spec fn trailing_white_space(s: Seq<char>) -> nat
    decreases s.len(),
{
    if s.len() == 0 || !is_white_space(s.last()) {
        0
    } else {
        1 + trailing_white_space(s.drop_last())
    }
}

/// `s` without its leading and trailing white space, as `str::trim` gives it.
pub open spec fn trim(s: Seq<char>) -> Seq<char> {
    let inner = s.skip(leading_white_space(s) as int);
    inner.take(inner.len() - trailing_white_space(inner))
}

/// `trailing_white_space` counts exactly the white-space suffix.
pub proof fn lemma_trailing_white_space(s: Seq<char>)
    ensures
        trailing_white_space(s) <= s.len(),
        forall|j: int|
            s.len() - trailing_white_space(s) <= j < s.len() ==> is_white_space(#[trigger] s[j]),
        trailing_white_space(s) < s.len() ==> !is_white_space(
            s[s.len() - trailing_white_space(s) - 1],
        ),
    decreases s.len(),
{
    if s.len() > 0 && is_white_space(s.last()) {
        lemma_trailing_white_space(s.drop_last());
        assert forall|j: int|
            s.len() - trailing_white_space(s) <= j < s.len() implies is_white_space(
            #[trigger] s[j],
        ) by {
            if j < s.len() - 1 {
                assert(s[j] == s.drop_last()[j]);
            }
        }
    }
}

proof fn lemma_trailing_white_space_take(s: Seq<char>, k: int)
    requires
        0 < k <= s.len(),
    ensures
        trailing_white_space(s.take(k)) == if is_white_space(s[k - 1]) {
            1 + trailing_white_space(s.take(k - 1))
        } else {
            0
        },
{
    assert(s.take(k).drop_last() =~= s.take(k - 1));
}

/// A trimmed text has no white space at either end, and trimming twice is
/// trimming once.
pub proof fn lemma_trim(s: Seq<char>)
    ensures
        trim(s).len() > 0 ==> !is_white_space(trim(s)[0]) && !is_white_space(trim(s).last()),
        trim(trim(s)) == trim(s),
        trim(s).len() <= s.len(),
{
    let inner = s.skip(leading_white_space(s) as int);
    lemma_leading_white_space(s);
    lemma_trailing_white_space(inner);
    let t = trim(s);
    if t.len() > 0 {
        assert(t[0] == s[leading_white_space(s) as int]);
        assert(t.last() == inner[inner.len() - trailing_white_space(inner) - 1]);
    }
    // The trimmed text has nothing left to trim.
    if t.len() > 0 {
        assert(leading_white_space(t) == 0);
        assert(t.skip(0) =~= t);
        assert(trailing_white_space(t) == 0);
        assert(t.take(t.len() as int) =~= t);
    } else {
        assert(leading_white_space(t) == 0);
        assert(t.skip(0) =~= t);
        assert(t.take(0) =~= t);
    }
}

/// Position of the first non-white-space character of `chars`, or its length.
fn white_space_prefix_len(chars: &Vec<char>) -> (n: usize)
    ensures
        n == leading_white_space(chars@),
{
    let mut i: usize = 0;
    assert(chars@.skip(0) =~= chars@);
    while i < chars.len()
        invariant
            i <= chars.len(),
            leading_white_space(chars@) == i + leading_white_space(chars@.skip(i as int)),
        decreases chars.len() - i,
    {
        proof {
            lemma_leading_white_space_skip(chars@, i as int);
        }
        if !is_white_space_char(chars[i]) {
            return i;
        }
        i = i + 1;
    }
    assert(chars@.skip(i as int) =~= Seq::<char>::empty());
    i
}

/// Number of white-space characters at the end of `chars[from..]`.
fn white_space_suffix_len(chars: &Vec<char>, from: usize) -> (n: usize)
    requires
        from <= chars.len(),
    ensures
        n == trailing_white_space(chars@.skip(from as int)),
{
    let ghost inner = chars@.skip(from as int);
    let mut k: usize = chars.len() - from;
    let mut n: usize = 0;
    assert(inner.take(k as int) =~= inner);
    while k > 0
        invariant
            inner == chars@.skip(from as int),
            k <= inner.len(),
            inner.len() == chars.len() - from,
            n + k == inner.len(),
            trailing_white_space(inner) == n + trailing_white_space(inner.take(k as int)),
        decreases k,
    {
        proof {
            lemma_trailing_white_space_take(inner, k as int);
        }
        if !is_white_space_char(chars[from + k - 1]) {
            return n;
        }
        k = k - 1;
        n = n + 1;
    }
    assert(inner.take(0) =~= Seq::<char>::empty());
    n
}

/// `s` without leading and trailing white space.
pub fn trim_white_space(s: &str) -> (r: String)
    ensures
        r@ == trim(s@),
{
    let chars = chars_of(s);
    let a = white_space_prefix_len(&chars);
    proof {
        lemma_leading_white_space(chars@);
    }
    let t = white_space_suffix_len(&chars, a);
    proof {
        lemma_trailing_white_space(chars@.skip(a as int));
    }
    let b = chars.len() - t;
    let piece = s.substring_char(a, b);
    assert(piece@ =~= trim(s@));
    piece.to_owned()
}

// ---------------------------------------------------------------------------
// Lines
// ---------------------------------------------------------------------------

/// Index of the first line feed in `s`, or `s.len()` when there is none.
pub open spec fn first_line_feed(s: Seq<char>) -> nat
    decreases s.len(),
{
    if s.len() == 0 || s[0] == '\n' {
        0
    } else {
        1 + first_line_feed(s.drop_first())
    }
}

/// `s` without one trailing carriage return.
pub open spec fn strip_carriage_return(s: Seq<char>) -> Seq<char> {
    if s.len() > 0 && s.last() == '\r' {
        s.drop_last()
    } else {
        s
    }
}

/// The lines of `text`, as `str::lines` yields them: the text is cut at each
/// line feed, a carriage return just before a line feed is dropped with it, and
/// a final line feed does not start another line.
pub open spec fn text_lines(text: Seq<char>) -> Seq<Seq<char>>
    decreases text.len(),
{
    if text.len() == 0 {
        seq![]
    } else {
        let k = first_line_feed(text);
        if k >= text.len() {
            seq![text]
        } else {
            seq![strip_carriage_return(text.take(k as int))] + text_lines(
                text.skip(k as int + 1),
            )
        }
    }
}

/// Line `n` of `text`, or the empty text when there is no such line.
pub open spec fn line_of(text: Seq<char>, n: int) -> Seq<char> {
    if 0 <= n < text_lines(text).len() {
        text_lines(text)[n]
    } else {
        Seq::empty()
    }
}

proof fn lemma_first_line_feed(s: Seq<char>, p: int, q: int)
    requires
        0 <= p <= q <= s.len(),
        forall|r: int| p <= r < q ==> s[r] != '\n',
        q == s.len() || s[q] == '\n',
    ensures
        first_line_feed(s.skip(p)) == q - p,
    decreases q - p,
{
    let t = s.skip(p);
    if p < q {
        assert(t[0] == s[p]);
        assert(t.drop_first() =~= s.skip(p + 1));
        lemma_first_line_feed(s, p + 1, q);
    }
}

/// A line holds no line feed.
pub proof fn lemma_lines_have_no_line_feed(text: Seq<char>)
    ensures
        forall|n: int, j: int|
            0 <= n < text_lines(text).len() && 0 <= j < text_lines(text)[n].len()
                ==> text_lines(text)[n][j] != '\n',
    decreases text.len(),
{
    if text.len() > 0 {
        let k = first_line_feed(text) as int;
        lemma_first_line_feed_bound(text);
        if k < text.len() {
            lemma_lines_have_no_line_feed(text.skip(k + 1));
            assert forall|n: int, j: int|
                0 <= n < text_lines(text).len() && 0 <= j < text_lines(text)[n].len()
                    implies text_lines(text)[n][j] != '\n' by {
                if n > 0 {
                    assert(text_lines(text)[n] == text_lines(text.skip(k + 1))[n - 1]);
                }
            }
        }
    }
}

proof fn lemma_first_line_feed_bound(s: Seq<char>)
    ensures
        first_line_feed(s) <= s.len(),
        forall|r: int| 0 <= r < first_line_feed(s) ==> s[r] != '\n',
    decreases s.len(),
{
    if s.len() > 0 && s[0] != '\n' {
        lemma_first_line_feed_bound(s.drop_first());
        assert forall|r: int| 0 <= r < first_line_feed(s) implies s[r] != '\n' by {
            if r > 0 {
                assert(s[r] == s.drop_first()[r - 1]);
            }
        }
    }
}

/// Char range `[start, end)` of line `n` of `chars`, if that line exists.
fn line_range(chars: &Vec<char>, n: usize) -> (r: Option<(usize, usize)>)
    ensures
        match r {
            Some((a, b)) => {
                &&& n < text_lines(chars@).len()
                &&& a <= b <= chars@.len()
                &&& text_lines(chars@)[n as int] == chars@.subrange(a as int, b as int)
            },
            None => n >= text_lines(chars@).len(),
        },
{
    let ghost s = chars@;
    let len = chars.len();
    let mut p: usize = 0;
    let mut idx: usize = 0;
    assert(s.skip(0) =~= s);
    loop
        invariant
            s == chars@,
            len == s.len(),
            p <= len,
            idx <= n,
            text_lines(s).len() == idx + text_lines(s.skip(p as int)).len(),
            forall|j: int|
                0 <= j < text_lines(s.skip(p as int)).len() ==> text_lines(s)[idx + j]
                    == #[trigger] text_lines(s.skip(p as int))[j],
        decreases len - p,
    {
        if p >= len {
            assert(s.skip(p as int).len() == 0);
            return None;
        }
        let mut q: usize = p;
        while q < len && chars[q] != '\n'
            invariant
                s == chars@,
                len == s.len(),
                p <= q <= len,
                forall|r: int| p <= r < q ==> s[r] != '\n',
            decreases len - q,
        {
            q = q + 1;
        }
        let ghost t = s.skip(p as int);
        proof {
            lemma_first_line_feed(s, p as int, q as int);
        }
        assert(t.take((q - p) as int) =~= s.subrange(p as int, q as int));
        if q < len {
            assert(t.skip((q - p) as int + 1) =~= s.skip(q as int + 1));
        }
        if idx == n {
            if q < len {
                if q > p && chars[q - 1] == '\r' {
                    assert(s.subrange(p as int, q as int).drop_last() =~= s.subrange(
                        p as int,
                        q - 1,
                    ));
                    assert(text_lines(t)[0] == s.subrange(p as int, q - 1));
                    assert(text_lines(s)[idx as int] == text_lines(t)[0]);
                    return Some((p, q - 1));
                }
                assert(text_lines(t)[0] == s.subrange(p as int, q as int));
                assert(text_lines(s)[idx as int] == text_lines(t)[0]);
                return Some((p, q));
            }
            assert(t =~= s.subrange(p as int, q as int));
            assert(text_lines(s)[idx as int] == text_lines(t)[0]);
            return Some((p, q));
        }
        if q >= len {
            assert(text_lines(t).len() == 1);
            return None;
        }
        let ghost old_p = p;
        proof {
            assert forall|j: int|
                0 <= j < text_lines(s.skip(q as int + 1)).len() implies text_lines(s)[idx + 1 + j]
                == #[trigger] text_lines(s.skip(q as int + 1))[j] by {
                assert(text_lines(t)[j + 1] == text_lines(s.skip(q as int + 1))[j]);
            }
        }
        p = q + 1;
        idx = idx + 1;
    }
}

/// Byte offsets `start..end` of `line`, each clamped to the line's byte length.
pub open spec fn clamped_byte_range(line: Seq<char>, start: Option<usize>, end: Option<usize>) -> (
    int,
    int,
) {
    let len = encode_utf8(line).len() as int;
    let s = match start {
        Some(v) => v as int,
        None => 0,
    };
    let e = match end {
        Some(v) => v as int,
        None => len,
    };
    (if s < len {
        s
    } else {
        len
    }, if e < len {
        e
    } else {
        len
    })
}

/// The clamped byte range of the line can be cut out: it is not reversed and
/// both of its ends fall on character boundaries of the line.
pub open spec fn line_slice_ok(
    text: Seq<char>,
    line_num: int,
    start: Option<usize>,
    end: Option<usize>,
) -> bool {
    let line = line_of(text, line_num);
    let (s, e) = clamped_byte_range(line, start, end);
    &&& s <= e
    &&& is_char_boundary(encode_utf8(line), s)
    &&& is_char_boundary(encode_utf8(line), e)
}

/// A character boundary of a UTF-8 text stays one in any prefix that holds it.
pub proof fn lemma_boundary_in_prefix(b: Seq<u8>, s: int, e: int)
    requires
        valid_utf8(b),
        0 <= s <= e <= b.len(),
        is_char_boundary(b, s),
        is_char_boundary(b, e),
    ensures
        valid_utf8(b.subrange(0, e)),
        is_char_boundary(b.subrange(0, e), s),
{
    valid_utf8_split(b, e);
    let p = b.subrange(0, e);
    is_char_boundary_start_end_of_seq(p);
    is_char_boundary_start_end_of_seq(b);
    if s < e {
        is_char_boundary_iff_not_is_continuation_byte(b, s);
        is_char_boundary_iff_not_is_continuation_byte(p, s);
    }
}

/// Text of line `line_num` of the document, between byte offsets `start_char`
/// (default: the line's start) and `end_char` (default: the line's end), both
/// clamped to the line. A line number past the last line gives the empty text.
pub fn get_line_text(
    document: &Document,
    line_num: usize,
    start_char: Option<usize>,
    end_char: Option<usize>,
) -> (r: String)
    requires
        line_slice_ok(document.contents@, line_num as int, start_char, end_char),
    ensures
        ({
            let line = line_of(document.contents@, line_num as int);
            let (s, e) = clamped_byte_range(line, start_char, end_char);
            encode_utf8(r@) == encode_utf8(line).subrange(s, e)
        }),
        start_char is None && end_char is None ==> r@ == line_of(
            document.contents@,
            line_num as int,
        ),
        line_num >= text_lines(document.contents@).len() ==> r@.len() == 0,
{
    let text = document.contents.as_str();
    let chars = chars_of(text);
    match line_range(&chars, line_num) {
        None => {
            let r = String::new();
            assert(encode_utf8(r@) =~= Seq::<u8>::empty());
            assert(encode_utf8(Seq::<char>::empty()) =~= Seq::<u8>::empty());
            r
        },
        Some((a, b)) => {
            let line = text.substring_char(a, b);
            let ghost bytes = encode_utf8(line@);
            assert(line@ == line_of(document.contents@, line_num as int));
            assert(line.spec_bytes() == bytes);
            proof {
                encode_utf8_valid_utf8(line@);
                encode_utf8_decode_utf8(line@);
                is_char_boundary_start_end_of_seq(bytes);
            }
            let len = line.as_bytes().len();
            let s = match start_char {
                Some(v) => if v < len {
                    v
                } else {
                    len
                },
                None => 0,
            };
            let e = match end_char {
                Some(v) => if v < len {
                    v
                } else {
                    len
                },
                None => len,
            };
            assert(len == bytes.len());
            assert((s as int, e as int) == clamped_byte_range(
                line_of(document.contents@, line_num as int),
                start_char,
                end_char,
            ));
            proof {
                lemma_boundary_in_prefix(bytes, s as int, e as int);
            }
            let (head, _) = line.split_at(e);
            let (_, mid) = head.split_at(s);
            assert(mid.spec_bytes() =~= bytes.subrange(s as int, e as int));
            let r = mid.to_owned();
            proof {
                assert(r@ == mid@);
                encode_utf8_decode_utf8(mid@);
                if start_char is None && end_char is None {
                    assert(bytes.subrange(0, bytes.len() as int) =~= bytes);
                    assert(decode_utf8(encode_utf8(r@)) == decode_utf8(bytes));
                }
            }
            r
        },
    }
}

/// Asking for a whole line never panics.
pub proof fn lemma_whole_line_ok(text: Seq<char>, line_num: int)
    ensures
        line_slice_ok(text, line_num, None, None),
{
    let line = line_of(text, line_num);
    encode_utf8_valid_utf8(line);
    is_char_boundary_start_end_of_seq(encode_utf8(line));
}

/// Number of white-space characters at the start of line `line_num` (zero past
/// the last line).
pub fn count_leading_whitespaces(document: &Document, line_num: usize) -> (n: usize)
    ensures
        n == leading_white_space(line_of(document.contents@, line_num as int)),
{
    proof {
        lemma_whole_line_ok(document.contents@, line_num as int);
    }
    let line_text = get_line_text(document, line_num, None, None);
    count_white_space_prefix(line_text.as_str())
}

} // verus!
