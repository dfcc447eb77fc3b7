//! The source grammar: byte-level matching primitives and the line-by-line
//! parser that turns a whole source buffer into a `SourceFile`.

use vstd::prelude::*;
use crate::assembler::labels::Label;
use crate::assembler::parse::instruction::{
    parse_label_word, parse_number_operand, parse_statement, spec_parse_label_word,
    spec_parse_number_operand, spec_statement_parse, Statement,
};
use crate::assembler::parse::number::LiteralNumber;

pub mod instruction;
pub mod number;

verus! {

// The byte values of the grammar's punctuation and letters, named after
// their characters.
pub const COMMA: u8 = 44;
pub const COLON: u8 = 58;
pub const SEMICOLON: u8 = 59;
pub const QUOTE: u8 = 39;
pub const AT_SIGN: u8 = 64;
pub const QUESTION_MARK: u8 = 63;
pub const L_A: u8 = 65;
pub const L_B: u8 = 66;
pub const L_C: u8 = 67;
pub const L_D: u8 = 68;
pub const L_E: u8 = 69;
pub const L_G: u8 = 71;
pub const L_H: u8 = 72;
pub const L_I: u8 = 73;
pub const L_J: u8 = 74;
pub const L_L: u8 = 76;
pub const L_M: u8 = 77;
pub const L_N: u8 = 78;
pub const L_O: u8 = 79;
pub const L_P: u8 = 80;
pub const L_Q: u8 = 81;
pub const L_R: u8 = 82;
pub const L_S: u8 = 83;
pub const L_T: u8 = 84;
pub const L_U: u8 = 85;
pub const L_V: u8 = 86;
pub const L_W: u8 = 87;
pub const L_X: u8 = 88;
pub const L_Z: u8 = 90;

/// What stopped the parse: text outside the grammar, or a numeric literal
/// rejected under its declared base or width.
#[derive(Copy, Clone, Debug, PartialEq, Eq, Structural)]
pub enum ParseErrorKind {
    Syntax,
    InvalidNumber,
}

/// A fatal parse failure at a byte offset of the original source.
#[derive(Copy, Clone, Debug, PartialEq, Eq, Structural)]
pub struct ParseError {
    pub pos: usize,
    pub kind: ParseErrorKind,
}

/// A space or horizontal tab.
pub open spec fn is_ws(b: u8) -> bool {
    b == 32 || b == 9
}

/// A byte that can begin a newline sequence.
pub open spec fn is_nl(b: u8) -> bool {
    b == 13 || b == 10
}

/// A space, tab, carriage return or line feed.
pub open spec fn is_ws_nl(b: u8) -> bool {
    is_ws(b) || is_nl(b)
}

/// A byte legal inside a comment: tab or printable character.
pub open spec fn is_comment_byte(b: u8) -> bool {
    b == 9 || (32 <= b <= 126)
}

/// A byte that may appear in a bare word: an upper-case letter, a digit,
/// `@` or `?`. Labels, mnemonics, keywords and numeric literals are all
/// spelled from these.
pub open spec fn is_word_byte(b: u8) -> bool {
    (65 <= b <= 90) || (48 <= b <= 57) || b == 64 || b == 63
}

/// Where a run of spaces and tabs starting at `pos` ends.
pub open spec fn spec_skip_ws(src: Seq<u8>, pos: int) -> int
    decreases src.len() - pos,
{
    if pos < src.len() && is_ws(src[pos]) {
        spec_skip_ws(src, pos + 1)
    } else {
        pos
    }
}

/// Where a run of spaces, tabs and newline bytes starting at `pos` ends.
pub open spec fn spec_skip_ws_nl(src: Seq<u8>, pos: int) -> int
    decreases src.len() - pos,
{
    if pos < src.len() && is_ws_nl(src[pos]) {
        spec_skip_ws_nl(src, pos + 1)
    } else {
        pos
    }
}

/// Where the maximal run of word bytes starting at `pos` ends.
pub open spec fn spec_read_word(src: Seq<u8>, pos: int) -> int
    decreases src.len() - pos,
{
    if pos < src.len() && is_word_byte(src[pos]) {
        spec_read_word(src, pos + 1)
    } else {
        pos
    }
}

/// Where a comment whose semicolon stands at `pos` ends: after the
/// semicolon and every following comment byte.
pub open spec fn spec_comment_end(src: Seq<u8>, pos: int) -> int
    decreases src.len() - pos,
{
    if pos < src.len() && is_comment_byte(src[pos]) {
        spec_comment_end(src, pos + 1)
    } else {
        pos
    }
}

/// These four scans never move backwards and never leave the buffer.
pub proof fn lemma_scan_bounds(src: Seq<u8>, pos: int)
    requires
        0 <= pos <= src.len(),
    ensures
        pos <= spec_skip_ws(src, pos) <= src.len(),
        pos <= spec_skip_ws_nl(src, pos) <= src.len(),
        pos <= spec_read_word(src, pos) <= src.len(),
        pos <= spec_comment_end(src, pos) <= src.len(),
    decreases src.len() - pos,
{
    if pos < src.len() {
        lemma_scan_bounds(src, pos + 1);
    }
}

/// Advances over spaces and tabs; stops at the first byte of any other
/// kind (maximal munch).
pub fn skip_ws(src: &[u8], pos: usize) -> (r: usize)
    requires
        pos <= src@.len(),
    ensures
        pos <= r <= src@.len(),
        r == spec_skip_ws(src@, pos as int),
        forall|i: int| pos <= i < r ==> is_ws(#[trigger] src@[i]),
        r < src@.len() ==> !is_ws(src@[r as int]),
{
    let n = src.len();
    let mut i = pos;
    while i < n && (src[i] == 32 || src[i] == 9)
        invariant
            pos <= i <= n,
            n == src@.len(),
            spec_skip_ws(src@, pos as int) == spec_skip_ws(src@, i as int),
            forall|j: int| pos <= j < i ==> is_ws(#[trigger] src@[j]),
        decreases n - i,
    {
        i = i + 1;
    }
    i
}

/// Advances over spaces, tabs and newline bytes (maximal munch).
pub fn skip_ws_nl(src: &[u8], pos: usize) -> (r: usize)
    requires
        pos <= src@.len(),
    ensures
        pos <= r <= src@.len(),
        r == spec_skip_ws_nl(src@, pos as int),
        forall|i: int| pos <= i < r ==> is_ws_nl(#[trigger] src@[i]),
        r < src@.len() ==> !is_ws_nl(src@[r as int]),
{
    let n = src.len();
    let mut i = pos;
    while i < n && (src[i] == 32 || src[i] == 9 || src[i] == 13 || src[i] == 10)
        invariant
            pos <= i <= n,
            n == src@.len(),
            spec_skip_ws_nl(src@, pos as int) == spec_skip_ws_nl(src@, i as int),
            forall|j: int| pos <= j < i ==> is_ws_nl(#[trigger] src@[j]),
        decreases n - i,
    {
        i = i + 1;
    }
    i
}

/// What one newline at `pos` spans: the position after a carriage-return/
/// line-feed pair or a single newline byte, or nothing.
pub open spec fn spec_match_newline(src: Seq<u8>, pos: int) -> Option<int> {
    if pos < src.len() && src[pos] == 13 {
        if pos + 1 < src.len() && src[pos + 1] == 10 {
            Some(pos + 2)
        } else {
            Some(pos + 1)
        }
    } else if pos < src.len() && src[pos] == 10 {
        Some(pos + 1)
    } else {
        None
    }
}

/// Consumes one newline: a carriage-return/line-feed pair, or either byte
/// alone. Returns the position after it, or nothing when no newline
/// starts at `pos`.
pub fn match_newline(src: &[u8], pos: usize) -> (r: Option<usize>)
    requires
        pos <= src@.len(),
    ensures
        match r {
            Some(p) => pos < p <= src@.len() && is_nl(src@[pos as int]) && spec_match_newline(
                src@,
                pos as int,
            ) == Some(p as int),
            None => (pos == src@.len() || !is_nl(src@[pos as int])) && spec_match_newline(
                src@,
                pos as int,
            ) is None,
        },
{
    if pos < src.len() && src[pos] == 13 {
        if pos + 1 < src.len() && src[pos + 1] == 10 {
            Some(pos + 2)
        } else {
            Some(pos + 1)
        }
    } else if pos < src.len() && src[pos] == 10 {
        Some(pos + 1)
    } else {
        None
    }
}

/// A label definition: a label followed by a colon, with the offset of the
/// label's first byte.
#[derive(Clone, Debug, PartialEq, Eq)]
pub struct LabelSegment {
    pub label: Label,
    pub index: usize,
}

/// A statement with the offset of its first byte, for error reporting.
#[derive(Clone, Debug, PartialEq, Eq)]
pub struct StatementSegment {
    pub statement: Statement,
    pub index: usize,
}

/// A trailing comment, recorded by the offset of its semicolon.
#[derive(Clone, Copy, Debug, PartialEq, Eq, Structural)]
pub struct CommentSegment {
    pub index: usize,
}

/// A line holding only a comment, before the first content line or after
/// the end-of-assembly marker.
#[derive(Clone, Copy, Debug, PartialEq, Eq, Structural)]
pub struct CommentOnlyLine {
    pub comment: CommentSegment,
}

/// The optional first content line: `[label:] ORG <number>`, setting the
/// origin address.
#[derive(Clone, Debug, PartialEq, Eq)]
pub struct OriginLine {
    pub label: Option<LabelSegment>,
    pub address: LiteralNumber,
    pub address_index: usize,
}

/// What one statement line holds. At least one of label, statement and
/// comment is present.
#[derive(Clone, Debug, PartialEq, Eq)]
pub enum StatementLineContent {
    Labeled(LabelSegment, Option<StatementSegment>, Option<CommentSegment>),
    NoLabel(StatementSegment, Option<CommentSegment>),
    OnlyComment(CommentSegment),
}

/// One line of the statement sequence.
#[derive(Clone, Debug, PartialEq, Eq)]
pub struct StatementLine {
    pub content: StatementLineContent,
}

impl StatementLine {
    /// The label this line defines, if any.
    pub open spec fn spec_label(self) -> Option<LabelSegment> {
        match self.content {
            StatementLineContent::Labeled(l, _, _) => Some(l),
            StatementLineContent::NoLabel(_, _) => None,
            StatementLineContent::OnlyComment(_) => None,
        }
    }

    /// The statement this line carries, if any.
    pub open spec fn spec_statement(self) -> Option<StatementSegment> {
        match self.content {
            StatementLineContent::Labeled(_, s, _) => s,
            StatementLineContent::NoLabel(s, _) => Some(s),
            StatementLineContent::OnlyComment(_) => None,
        }
    }

    /// The label this line defines, if any.
    pub fn label(&self) -> (r: Option<&LabelSegment>)
        ensures
            match r {
                Some(l) => self.spec_label() == Some(*l),
                None => self.spec_label() is None,
            },
    {
        match &self.content {
            StatementLineContent::Labeled(l, _, _) => Some(l),
            _ => None,
        }
    }

    /// The statement this line carries, if any.
    pub fn code(&self) -> (r: Option<&StatementSegment>)
        ensures
            match r {
                Some(s) => self.spec_statement() == Some(*s),
                None => self.spec_statement() is None,
            },
    {
        match &self.content {
            StatementLineContent::Labeled(_, s, _) => s.as_ref(),
            StatementLineContent::NoLabel(s, _) => Some(s),
            StatementLineContent::OnlyComment(_) => None,
        }
    }
}

/// The mandatory last content line: `[label:] END`.
#[derive(Clone, Debug, PartialEq, Eq)]
pub struct EndOfAssemblyLine {
    pub label: Option<LabelSegment>,
}

/// A whole parsed source file: leading comment lines, an optional origin
/// line, the ordered statement lines, the end-of-assembly marker, and
/// trailing comment lines.
#[derive(Clone, Debug, PartialEq, Eq)]
pub struct SourceFile {
    pub leading_comments: Vec<CommentOnlyLine>,
    pub origin_line: Option<OriginLine>,
    pub lines: Vec<StatementLine>,
    pub end: EndOfAssemblyLine,
    pub trailing_comments: Vec<CommentOnlyLine>,
}

/// Advances over the maximal run of word bytes starting at `pos`.
pub fn read_word(src: &[u8], pos: usize) -> (r: usize)
    requires
        pos <= src@.len(),
    ensures
        pos <= r <= src@.len(),
        r == spec_read_word(src@, pos as int),
        forall|i: int| pos <= i < r ==> is_word_byte(#[trigger] src@[i]),
        r < src@.len() ==> !is_word_byte(src@[r as int]),
{
    let n = src.len();
    let mut i = pos;
    while i < n && (
        (65 <= src[i] && src[i] <= 90) || (48 <= src[i] && src[i] <= 57) || src[i] == 64
        || src[i] == 63)
        invariant
            pos <= i <= n,
            n == src@.len(),
            spec_read_word(src@, pos as int) == spec_read_word(src@, i as int),
            forall|j: int| pos <= j < i ==> is_word_byte(#[trigger] src@[j]),
        decreases n - i,
    {
        i = i + 1;
    }
    i
}


/// Whether a label definition (`label:`) starts at `pos`, and the
/// position after it and its trailing whitespace; the position is
/// untouched when none does.
pub open spec fn spec_try_label(src: Seq<u8>, pos: int) -> (bool, int) {
    match spec_parse_label_word(src, pos) {
        Ok(t) => if t.1 < src.len() && src[t.1] == COLON {
            (true, spec_skip_ws(src, t.1 + 1))
        } else {
            (false, pos)
        },
        Err(_) => (false, pos),
    }
}

/// An optional label definition at `pos` pins an optional label segment:
/// present exactly when one starts there, spanning exactly its bytes.
pub open spec fn spec_label_opt_matches(src: Seq<u8>, pos: int, ol: Option<LabelSegment>) -> bool {
    if spec_try_label(src, pos).0 {
        ol matches Some(seg) && seg.label@ == (spec_parse_label_word(src, pos)->Ok_0).0
            && seg.index == pos
    } else {
        ol is None
    }
}

/// Where the line ends after `pos`: either the end of the input, or one
/// newline, which is consumed.
pub open spec fn spec_expect_line_end(src: Seq<u8>, pos: int) -> Result<int, ParseError> {
    if pos == src.len() {
        Ok(pos)
    } else {
        match spec_match_newline(src, pos) {
            Some(p) => Ok(p),
            None => Err(ParseError { pos: pos as usize, kind: ParseErrorKind::Syntax }),
        }
    }
}

/// What the rest of a content line parses to: the offset of its optional
/// comment, and the position after the line end.
pub open spec fn spec_line_rest(src: Seq<u8>, pos: int) -> Result<(Option<int>, int), ParseError> {
    let p = spec_skip_ws(src, pos);
    if p < src.len() && src[p] == SEMICOLON {
        match spec_expect_line_end(src, spec_comment_end(src, p + 1)) {
            Ok(e) => Ok((Some(p), e)),
            Err(er) => Err(er),
        }
    } else {
        match spec_expect_line_end(src, p) {
            Ok(e) => Ok((None, e)),
            Err(er) => Err(er),
        }
    }
}

/// An optional trailing comment pins an optional comment segment.
pub open spec fn spec_comment_opt_matches(ci: Option<int>, c: Option<CommentSegment>) -> bool {
    match ci {
        Some(i) => c == Some(CommentSegment { index: i as usize }),
        None => c is None,
    }
}

/// Where a run of blank and comment-only lines starting at `pos` ends:
/// the first position, after whitespace and newlines, that does not begin
/// a comment.
pub open spec fn spec_comment_lines_end(src: Seq<u8>, pos: int) -> int
    decreases src.len() - pos,
    via spec_comment_lines_end_dec
{
    let p = spec_skip_ws_nl(src, pos);
    if 0 <= pos <= src.len() && p < src.len() && src[p] == SEMICOLON {
        spec_comment_lines_end(src, spec_comment_end(src, p + 1))
    } else {
        p
    }
}

#[via_fn]
proof fn spec_comment_lines_end_dec(src: Seq<u8>, pos: int) {
    if 0 <= pos <= src.len() {
        lemma_scan_bounds(src, pos);
        let p = spec_skip_ws_nl(src, pos);
        if p < src.len() && src[p] == SEMICOLON {
            lemma_scan_bounds(src, p + 1);
        }
    }
}

/// The comment-only lines standing between `pos` and the next content:
/// one entry per comment, carrying its semicolon's offset, with nothing
/// left over.
pub open spec fn spec_comment_lines_values(src: Seq<u8>, pos: int, cs: Seq<CommentOnlyLine>) -> bool
    decreases cs.len(),
{
    let p = spec_skip_ws_nl(src, pos);
    if cs.len() == 0 {
        !(p < src.len() && src[p] == SEMICOLON)
    } else {
        &&& p < src.len() && src[p] == SEMICOLON
        &&& cs[0] == (CommentOnlyLine { comment: CommentSegment { index: p as usize } })
        &&& spec_comment_lines_values(src, spec_comment_end(src, p + 1), cs.drop_first())
    }
}

/// The comment-only lines `cs` stand between `from` and `to`.
pub open spec fn spec_comment_lines_prefix(
    src: Seq<u8>,
    from: int,
    cs: Seq<CommentOnlyLine>,
    to: int,
) -> bool
    decreases cs.len(),
{
    let p = spec_skip_ws_nl(src, from);
    if cs.len() == 0 {
        to == from
    } else {
        &&& p < src.len() && src[p] == SEMICOLON
        &&& cs[0] == (CommentOnlyLine { comment: CommentSegment { index: p as usize } })
        &&& spec_comment_lines_prefix(src, spec_comment_end(src, p + 1), cs.drop_first(), to)
    }
}

/// Extending a comment-line prefix by one more comment line.
proof fn lemma_comment_lines_prefix_push(
    src: Seq<u8>,
    from: int,
    cs: Seq<CommentOnlyLine>,
    to: int,
    c: CommentOnlyLine,
)
    requires
        spec_comment_lines_prefix(src, from, cs, to),
        ({
            let p = spec_skip_ws_nl(src, to);
            p < src.len() && src[p] == SEMICOLON && c == (CommentOnlyLine {
                comment: CommentSegment { index: p as usize },
            })
        }),
    ensures
        spec_comment_lines_prefix(
            src,
            from,
            cs.push(c),
            spec_comment_end(src, spec_skip_ws_nl(src, to) + 1),
        ),
    decreases cs.len(),
{
    let goal = spec_comment_end(src, spec_skip_ws_nl(src, to) + 1);
    if cs.len() == 0 {
        assert(to == from);
        assert(cs.push(c)[0] == c);
        assert(cs.push(c).drop_first() =~= Seq::<CommentOnlyLine>::empty());
        assert(spec_comment_lines_prefix(src, goal, Seq::<CommentOnlyLine>::empty(), goal));
        assert(spec_comment_lines_prefix(src, from, cs.push(c), goal));
    } else {
        assert(cs.push(c)[0] == cs[0]);
        assert(cs.push(c).drop_first() =~= cs.drop_first().push(c));
        let p0 = spec_skip_ws_nl(src, from);
        lemma_comment_lines_prefix_push(src, spec_comment_end(src, p0 + 1), cs.drop_first(), to, c);
        assert(spec_comment_lines_prefix(src, from, cs.push(c), goal));
    }
}

/// A complete comment-line prefix is the whole run.
proof fn lemma_comment_lines_prefix_values(
    src: Seq<u8>,
    from: int,
    cs: Seq<CommentOnlyLine>,
    to: int,
)
    requires
        spec_comment_lines_prefix(src, from, cs, to),
        !({
            let p = spec_skip_ws_nl(src, to);
            p < src.len() && src[p] == SEMICOLON
        }),
    ensures
        spec_comment_lines_values(src, from, cs),
    decreases cs.len(),
{
    if cs.len() > 0 {
        let p0 = spec_skip_ws_nl(src, from);
        lemma_comment_lines_prefix_values(src, spec_comment_end(src, p0 + 1), cs.drop_first(), to);
    }
}

/// Whether the word at `p1` is the end-of-assembly keyword.
pub open spec fn spec_is_end_word(src: Seq<u8>, p1: int) -> bool {
    let wend = spec_read_word(src, p1);
    wend - p1 == 3 && src[p1] == L_E && src[p1 + 1] == L_N && src[p1 + 2] == L_D
}

/// Whether the word at `p1` is the origin keyword.
pub open spec fn spec_is_org_word(src: Seq<u8>, p1: int) -> bool {
    let wend = spec_read_word(src, p1);
    wend - p1 == 3 && src[p1] == L_O && src[p1 + 1] == L_R && src[p1 + 2] == L_G
}

/// What the optional origin line at `pos` parses to: whether one is
/// present, and the position after it.
pub open spec fn spec_origin_parse(src: Seq<u8>, pos: int) -> Result<(bool, int), ParseError> {
    let tl = spec_try_label(src, pos);
    let p1 = tl.1;
    if spec_is_org_word(src, p1) {
        let p2 = spec_skip_ws(src, spec_read_word(src, p1));
        match spec_parse_number_operand(src, p2) {
            Ok(t) => match spec_line_rest(src, t.1) {
                Ok(lr) => Ok((true, lr.1)),
                Err(e) => Err(e),
            },
            Err(e) => Err(e),
        }
    } else {
        Ok((false, pos))
    }
}

/// The parsed origin line pins its fields: the optional label, the
/// address value, and the address's offset.
pub open spec fn spec_origin_values(src: Seq<u8>, pos: int, ol: Option<OriginLine>) -> bool {
    let tl = spec_try_label(src, pos);
    let p1 = tl.1;
    if spec_is_org_word(src, p1) {
        let p2 = spec_skip_ws(src, spec_read_word(src, p1));
        &&& ol matches Some(o)
        &&& spec_label_opt_matches(src, pos, o.label)
        &&& o.address.value == (spec_parse_number_operand(src, p2)->Ok_0).0
        &&& o.address_index == p2
    } else {
        ol is None
    }
}

/// Whether a statement follows the optional label on this line.
pub open spec fn spec_has_statement(src: Seq<u8>, p1: int) -> bool {
    p1 < src.len() && src[p1] != SEMICOLON && src[p1] != 13 && src[p1] != 10
}

/// Where the statement line at `pos` ends (meaningful when it parses).
pub open spec fn spec_line_end_pos(src: Seq<u8>, pos: int) -> int {
    let p = spec_skip_ws_nl(src, pos);
    if p < src.len() && src[p] == SEMICOLON {
        spec_expect_line_end(src, spec_comment_end(src, p + 1))->Ok_0
    } else {
        let tl = spec_try_label(src, p);
        let p1 = tl.1;
        if tl.0 {
            if spec_has_statement(src, p1) {
                (spec_line_rest(src, (spec_statement_parse(src, p1)->Ok_0).1)->Ok_0).1
            } else {
                (spec_line_rest(src, p1)->Ok_0).1
            }
        } else {
            (spec_line_rest(src, (spec_statement_parse(src, p)->Ok_0).1)->Ok_0).1
        }
    }
}

/// The statement line at `pos` is exactly `line`: a comment-only line, a
/// labeled line with its optional statement, or a bare statement line —
/// never the end-of-assembly line.
pub open spec fn spec_line_matches(src: Seq<u8>, pos: int, line: StatementLine) -> bool {
    let p = spec_skip_ws_nl(src, pos);
    if p < src.len() && src[p] == SEMICOLON {
        &&& line == (StatementLine {
            content: StatementLineContent::OnlyComment(CommentSegment { index: p as usize }),
        })
        &&& spec_expect_line_end(src, spec_comment_end(src, p + 1)) is Ok
    } else {
        let tl = spec_try_label(src, p);
        let p1 = tl.1;
        &&& p < src.len()
        &&& !spec_is_end_word(src, p1)
        &&& if tl.0 {
            if spec_has_statement(src, p1) {
                &&& line.content matches StatementLineContent::Labeled(seg, st, cmt)
                &&& spec_label_opt_matches(src, p, Some(seg))
                &&& spec_statement_parse(src, p1) matches Ok(sp)
                &&& (st matches Some(stseg) && stseg.index == p1 && stseg.statement@ == sp.0)
                &&& spec_line_rest(src, sp.1) matches Ok(lr) && spec_comment_opt_matches(lr.0, cmt)
            } else {
                &&& line.content matches StatementLineContent::Labeled(seg, st, cmt)
                &&& spec_label_opt_matches(src, p, Some(seg))
                &&& st is None
                &&& spec_line_rest(src, p1) matches Ok(lr) && spec_comment_opt_matches(lr.0, cmt)
            }
        } else {
            &&& line.content matches StatementLineContent::NoLabel(stseg, cmt)
            &&& spec_statement_parse(src, p) matches Ok(sp)
            &&& stseg.index == p && stseg.statement@ == sp.0
            &&& spec_line_rest(src, sp.1) matches Ok(lr) && spec_comment_opt_matches(lr.0, cmt)
        }
    }
}

/// The end-of-assembly line at `pos` is exactly `el`.
pub open spec fn spec_end_line_matches(src: Seq<u8>, pos: int, el: EndOfAssemblyLine) -> bool {
    let p = spec_skip_ws_nl(src, pos);
    let tl = spec_try_label(src, p);
    &&& p < src.len()
    &&& src[p] != SEMICOLON
    &&& spec_is_end_word(src, tl.1)
    &&& spec_label_opt_matches(src, p, el.label)
}

/// The statement lines from `pos` to the end-of-assembly line are exactly
/// `lines`, and the end line is exactly `el`.
pub open spec fn spec_lines_values(
    src: Seq<u8>,
    pos: int,
    lines: Seq<StatementLine>,
    el: EndOfAssemblyLine,
) -> bool
    decreases lines.len(),
{
    if lines.len() == 0 {
        spec_end_line_matches(src, pos, el)
    } else {
        &&& spec_line_matches(src, pos, lines[0])
        &&& spec_lines_values(src, spec_line_end_pos(src, pos), lines.drop_first(), el)
    }
}

/// The statement lines `lines` stand between `from` and `to`.
pub open spec fn spec_lines_prefix(
    src: Seq<u8>,
    from: int,
    lines: Seq<StatementLine>,
    to: int,
) -> bool
    decreases lines.len(),
{
    if lines.len() == 0 {
        to == from
    } else {
        &&& spec_line_matches(src, from, lines[0])
        &&& spec_lines_prefix(src, spec_line_end_pos(src, from), lines.drop_first(), to)
    }
}

/// Extending a statement-line prefix by one more line.
proof fn lemma_lines_prefix_push(
    src: Seq<u8>,
    from: int,
    lines: Seq<StatementLine>,
    to: int,
    line: StatementLine,
)
    requires
        spec_lines_prefix(src, from, lines, to),
        spec_line_matches(src, to, line),
    ensures
        spec_lines_prefix(src, from, lines.push(line), spec_line_end_pos(src, to)),
    decreases lines.len(),
{
    let goal = spec_line_end_pos(src, to);
    if lines.len() == 0 {
        assert(to == from);
        assert(lines.push(line)[0] == line);
        assert(lines.push(line).drop_first() =~= Seq::<StatementLine>::empty());
        assert(spec_lines_prefix(src, goal, Seq::<StatementLine>::empty(), goal));
        assert(spec_lines_prefix(src, from, lines.push(line), goal));
    } else {
        assert(lines.push(line)[0] == lines[0]);
        assert(lines.push(line).drop_first() =~= lines.drop_first().push(line));
        lemma_lines_prefix_push(src, spec_line_end_pos(src, from), lines.drop_first(), to, line);
        assert(spec_lines_prefix(src, from, lines.push(line), goal));
    }
}

/// A statement-line prefix that reaches the end-of-assembly line is the
/// whole statement sequence.
proof fn lemma_lines_prefix_values(
    src: Seq<u8>,
    from: int,
    lines: Seq<StatementLine>,
    to: int,
    el: EndOfAssemblyLine,
)
    requires
        spec_lines_prefix(src, from, lines, to),
        spec_end_line_matches(src, to, el),
    ensures
        spec_lines_values(src, from, lines, el),
    decreases lines.len(),
{
    if lines.len() > 0 {
        lemma_lines_prefix_values(src, spec_line_end_pos(src, from), lines.drop_first(), to, el);
    }
}

/// Whether the statement lines from `pos` up to and including the
/// end-of-assembly line parse, and where parsing continues after the end
/// line, or the first failure. The two unreachable arms only discharge
/// termination: every parsed line advances the cursor.
pub open spec fn spec_lines_outcome(src: Seq<u8>, pos: int) -> Result<int, ParseError>
    decreases src.len() - pos,
{
    let p = spec_skip_ws_nl(src, pos);
    if p >= src.len() {
        // the input ran out before the end-of-assembly marker
        Err(ParseError { pos: p as usize, kind: ParseErrorKind::Syntax })
    } else if src[p] == SEMICOLON {
        match spec_expect_line_end(src, spec_comment_end(src, p + 1)) {
            Ok(e) => if pos < e <= src.len() {
                spec_lines_outcome(src, e)
            } else {
                // unreachable
                Err(ParseError { pos: p as usize, kind: ParseErrorKind::Syntax })
            },
            Err(er) => Err(er),
        }
    } else {
        let tl = spec_try_label(src, p);
        let p1 = tl.1;
        if spec_is_end_word(src, p1) {
            match spec_line_rest(src, spec_read_word(src, p1)) {
                Ok(lr) => Ok(lr.1),
                Err(e) => Err(e),
            }
        } else {
            let st = if tl.0 && !spec_has_statement(src, p1) {
                Ok::<int, ParseError>(p1)
            } else {
                match spec_statement_parse(src, if tl.0 { p1 } else { p }) {
                    Ok(sp) => Ok(sp.1),
                    Err(e) => Err(e),
                }
            };
            match st {
                Ok(after) => match spec_line_rest(src, after) {
                    Ok(lr) => if pos < lr.1 <= src.len() {
                        spec_lines_outcome(src, lr.1)
                    } else {
                        // unreachable
                        Err(ParseError { pos: p as usize, kind: ParseErrorKind::Syntax })
                    },
                    Err(e) => Err(e),
                },
                Err(e) => Err(e),
            }
        }
    }
}

/// Whether a whole source buffer parses: leading comment lines, the
/// optional origin line, the statement lines and end line, trailing
/// comment lines, and nothing else before the end of the input; or the
/// first failure.
pub open spec fn spec_source_outcome(src: Seq<u8>) -> Result<(), ParseError> {
    let pa = spec_comment_lines_end(src, 0);
    match spec_origin_parse(src, pa) {
        Err(e) => Err(e),
        Ok(t) => match spec_lines_outcome(src, t.1) {
            Err(e) => Err(e),
            Ok(after_end) => {
                let pt = spec_comment_lines_end(src, after_end);
                if pt < src.len() {
                    // content other than blanks and comments after the end marker
                    Err(ParseError { pos: pt as usize, kind: ParseErrorKind::Syntax })
                } else {
                    Ok(())
                }
            },
        },
    }
}

/// A parse tree is exactly what the source denotes: its comment runs, its
/// origin line, its statement lines and its end line all stand at the
/// positions the grammar fixes, with the field values the bytes spell.
pub open spec fn spec_source_values(src: Seq<u8>, sf: SourceFile) -> bool {
    let pa = spec_comment_lines_end(src, 0);
    let pb = (spec_origin_parse(src, pa)->Ok_0).1;
    &&& spec_comment_lines_values(src, 0, sf.leading_comments@)
    &&& spec_origin_values(src, pa, sf.origin_line)
    &&& spec_lines_values(src, pb, sf.lines@, sf.end)
    &&& spec_comment_lines_values(src, spec_lines_outcome(src, pb)->Ok_0, sf.trailing_comments@)
}

/// Consumes a comment: the semicolon and every tab or printable byte
/// after it, stopping at the end of the line.
fn parse_comment(src: &[u8], pos: usize) -> (r: (CommentSegment, usize))
    requires
        pos < src@.len(),
        src@[pos as int] == SEMICOLON,
    ensures
        pos < r.1 <= src@.len(),
        r.0 == (CommentSegment { index: pos }),
        r.1 == spec_comment_end(src@, pos + 1),
        forall|j: int| pos < j < r.1 ==> is_comment_byte(#[trigger] src@[j]),
        r.1 < src@.len() ==> !is_comment_byte(src@[r.1 as int]),
{
    let n = src.len();
    let mut i = pos + 1;
    while i < n && (src[i] == 9 || (32 <= src[i] && src[i] <= 126))
        invariant
            pos + 1 <= i <= n,
            n == src@.len(),
            spec_comment_end(src@, pos + 1) == spec_comment_end(src@, i as int),
            forall|j: int| pos < j < i ==> is_comment_byte(#[trigger] src@[j]),
        decreases n - i,
    {
        i = i + 1;
    }
    (CommentSegment { index: pos }, i)
}

/// Requires the line to be over: either the end of the input or a newline,
/// which is consumed.
fn expect_line_end(src: &[u8], pos: usize) -> (r: Result<usize, ParseError>)
    requires
        pos <= src@.len(),
    ensures
        r matches Ok(p) ==> pos <= p <= src@.len(),
        ({
            let s = spec_expect_line_end(src@, pos as int);
            match r {
                Ok(p) => s == Ok::<_, ParseError>(p as int),
                Err(e) => s == Err::<int, _>(e),
            }
        }),
{
    if pos == src.len() {
        return Ok(pos);
    }
    match match_newline(src, pos) {
        Some(p) => Ok(p),
        None => Err(ParseError { pos, kind: ParseErrorKind::Syntax }),
    }
}

/// Every label the file defines — on the origin line, on a statement
/// line, or on the end-of-assembly line — matches the label grammar.
pub open spec fn spec_labels_valid(sf: SourceFile) -> bool {
    &&& match sf.origin_line {
        Some(o) => match o.label {
            Some(seg) => Label::spec_valid(seg.label@),
            None => true,
        },
        None => true,
    }
    &&& forall|i: int|
        0 <= i < sf.lines@.len() ==> match #[trigger] sf.lines@[i].spec_label() {
            Some(seg) => Label::spec_valid(seg.label@),
            None => true,
        }
    &&& match sf.end.label {
        Some(seg) => Label::spec_valid(seg.label@),
        None => true,
    }
}

/// Attempts a label definition (`label:` and trailing whitespace); leaves
/// the cursor untouched when none starts here.
fn try_label_segment(src: &[u8], pos: usize) -> (r: (Option<LabelSegment>, usize))
    requires
        pos <= src@.len(),
    ensures
        pos <= r.1 <= src@.len(),
        r.0 is Some ==> pos < r.1,
        r.0 matches Some(seg) ==> Label::spec_valid(seg.label@),
        r.0 is Some == spec_try_label(src@, pos as int).0,
        r.1 == spec_try_label(src@, pos as int).1,
        spec_label_opt_matches(src@, pos as int, r.0),
{
    match parse_label_word(src, pos) {
        Ok((label, e)) => {
            if e < src.len() && src[e] == COLON {
                let p = skip_ws(src, e + 1);
                (Some(LabelSegment { label, index: pos }), p)
            } else {
                (None, pos)
            }
        },
        Err(_) => (None, pos),
    }
}

/// Parses trailing rest of a content line: optional comment, then the end
/// of the line.
fn parse_line_rest(src: &[u8], pos: usize) -> (r: Result<
    (Option<CommentSegment>, usize),
    ParseError,
>)
    requires
        pos <= src@.len(),
    ensures
        r matches Ok(t) ==> pos <= t.1 <= src@.len(),
        ({
            let s = spec_line_rest(src@, pos as int);
            match r {
                Ok(t) => s matches Ok(lr) && spec_comment_opt_matches(lr.0, t.0) && lr.1 == t.1,
                Err(e) => s == Err::<(Option<int>, int), _>(e),
            }
        }),
{
    let p = skip_ws(src, pos);
    if p < src.len() && src[p] == SEMICOLON {
        let (c, q) = parse_comment(src, p);
        let e = expect_line_end(src, q)?;
        Ok((Some(c), e))
    } else {
        let e = expect_line_end(src, p)?;
        Ok((None, e))
    }
}

/// Consumes a run of blank and comment-only lines, collecting one entry
/// per comment, and stops at the first content byte.
fn parse_comment_lines(src: &[u8], start: usize) -> (r: (Vec<CommentOnlyLine>, usize))
    requires
        start <= src@.len(),
    ensures
        start <= r.1 <= src@.len(),
        r.1 == spec_comment_lines_end(src@, start as int),
        spec_comment_lines_values(src@, start as int, r.0@),
        r.1 < src@.len() ==> !is_ws_nl(src@[r.1 as int]) && src@[r.1 as int] != SEMICOLON,
{
    let n = src.len();
    let mut comments: Vec<CommentOnlyLine> = Vec::new();
    let ghost mut anchor: int = start as int;
    let mut pos = skip_ws_nl(src, start);
    while pos < n && src[pos] == SEMICOLON
        invariant
            start <= pos <= n,
            n == src@.len(),
            start <= anchor <= n,
            pos == spec_skip_ws_nl(src@, anchor),
            pos < n ==> !is_ws_nl(src@[pos as int]),
            spec_comment_lines_end(src@, start as int) == spec_comment_lines_end(src@, anchor),
            spec_comment_lines_prefix(src@, start as int, comments@, anchor),
        decreases n - pos,
    {
        let (comment, p) = parse_comment(src, pos);
        proof {
            lemma_comment_lines_prefix_push(
                src@,
                start as int,
                comments@,
                anchor,
                CommentOnlyLine { comment },
            );
            anchor = p as int;
        }
        comments.push(CommentOnlyLine { comment });
        pos = skip_ws_nl(src, p);
    }
    proof {
        lemma_comment_lines_prefix_values(src@, start as int, comments@, anchor);
    }
    (comments, pos)
}

/// Parses a whole source buffer: leading blank and comment-only lines, an
/// optional origin line, statement lines in order, the mandatory
/// end-of-assembly line, and trailing blank and comment-only lines. Any
/// other content after the end marker is a parse error, as is running out
/// of input before it.
///
/// The contract is exact in both directions: the run succeeds if and only
/// if `spec_source_outcome` accepts the bytes (and fails with exactly its
/// error), and a returned tree is pinned field by field to the source by
/// `spec_source_values`.
pub fn parse_source_file(src: &[u8]) -> (r: Result<SourceFile, ParseError>)
    ensures
        r matches Ok(sf) ==> spec_labels_valid(sf),
        spec_source_outcome(src@) == (match r {
            Ok(_) => Ok::<(), ParseError>(()),
            Err(e) => Err(e),
        }),
        r matches Ok(sf) ==> spec_source_values(src@, sf),
{
    let n = src.len();
    let (leading_comments, pos0) = parse_comment_lines(src, 0);
    let ghost pa = pos0 as int;
    let mut origin_line: Option<OriginLine> = None;
    let (origin_label, p1) = try_label_segment(src, pos0);
    let wend = read_word(src, p1);
    let mut pos = pos0;
    if wend - p1 == 3 && src[p1] == L_O && src[p1 + 1] == L_R && src[p1 + 2] == L_G {
        let p2 = skip_ws(src, wend);
        proof {
            assert(spec_is_org_word(src@, p1 as int));
        }
        let (address, p3) = match parse_number_operand(src, p2) {
            Ok(t) => t,
            Err(e) => {
                proof {
                    assert(spec_origin_parse(src@, pa) == Err::<(bool, int), ParseError>(e));
                }
                return Err(e);
            },
        };
        let p4 = match parse_line_rest(src, p3) {
            Ok(t) => t.1,
            Err(e) => {
                proof {
                    assert(spec_origin_parse(src@, pa) == Err::<(bool, int), ParseError>(e));
                }
                return Err(e);
            },
        };
        origin_line = Some(OriginLine { label: origin_label, address, address_index: p2 });
        pos = p4;
        proof {
            assert(spec_origin_parse(src@, pa) == Ok::<(bool, int), ParseError>((true, pos as int)));
            assert(spec_origin_values(src@, pa, origin_line));
        }
    } else {
        proof {
            assert(!spec_is_org_word(src@, p1 as int));
            assert(spec_origin_parse(src@, pa) == Ok::<(bool, int), ParseError>((false, pos as int)));
            assert(spec_origin_values(src@, pa, origin_line));
        }
    }
    let mut lines: Vec<StatementLine> = Vec::new();
    let mut end: Option<EndOfAssemblyLine> = None;
    let ghost pb = pos as int;
    while end.is_none()
        invariant
            pos <= n,
            n == src@.len(),
            pa == spec_comment_lines_end(src@, 0),
            spec_origin_parse(src@, pa) == Ok::<(bool, int), ParseError>((origin_line is Some, pb)),
            spec_origin_values(src@, pa, origin_line),
            match end {
                Some(el) => spec_lines_values(src@, pb, lines@, el) && spec_lines_outcome(src@, pb)
                    == Ok::<int, ParseError>(pos as int),
                None => spec_lines_outcome(src@, pb) == spec_lines_outcome(src@, pos as int)
                    && spec_lines_prefix(src@, pb, lines@, pos as int),
            },
            forall|j: int|
                0 <= j < lines@.len() ==> match #[trigger] lines@[j].spec_label() {
                    Some(seg) => Label::spec_valid(seg.label@),
                    None => true,
                },
            match end {
                Some(e) => match e.label {
                    Some(seg) => Label::spec_valid(seg.label@),
                    None => true,
                },
                None => true,
            },
        decreases n - pos + if end is Some {
            0int
        } else {
            1int
        },
    {
        let ghost anchor = pos as int;
        pos = skip_ws_nl(src, pos);
        if pos >= n {
            // the input ran out before the end-of-assembly marker
            let e = ParseError { pos, kind: ParseErrorKind::Syntax };
            proof {
                assert(spec_lines_outcome(src@, anchor) == Err::<int, ParseError>(e));
            }
            return Err(e);
        }
        if src[pos] == SEMICOLON {
            let (comment, p) = parse_comment(src, pos);
            let line = StatementLine { content: StatementLineContent::OnlyComment(comment) };
            let e = match expect_line_end(src, p) {
                Ok(e) => e,
                Err(er) => {
                    proof {
                        assert(spec_lines_outcome(src@, anchor) == Err::<int, ParseError>(er));
                    }
                    return Err(er);
                },
            };
            proof {
                assert(spec_line_matches(src@, anchor, line));
                assert(spec_line_end_pos(src@, anchor) == e);
                lemma_lines_prefix_push(src@, pb, lines@, anchor, line);
                assert(spec_lines_outcome(src@, anchor) == spec_lines_outcome(src@, e as int));
            }
            lines.push(line);
            pos = e;
            continue;
        }
        let (label, pl) = try_label_segment(src, pos);
        let wend = read_word(src, pl);
        if wend - pl == 3 && src[pl] == L_E && src[pl + 1] == L_N && src[pl + 2] == L_D {
            proof {
                assert(spec_is_end_word(src@, pl as int));
            }
            let p2 = match parse_line_rest(src, wend) {
                Ok(t) => t.1,
                Err(er) => {
                    proof {
                        assert(spec_lines_outcome(src@, anchor) == Err::<int, ParseError>(er));
                    }
                    return Err(er);
                },
            };
            let el = EndOfAssemblyLine { label };
            proof {
                assert(spec_end_line_matches(src@, anchor, el));
                assert(spec_lines_outcome(src@, anchor) == Ok::<int, ParseError>(p2 as int));
                lemma_lines_prefix_values(src@, pb, lines@, anchor, el);
            }
            end = Some(el);
            pos = p2;
        } else {
            proof {
                assert(!spec_is_end_word(src@, pl as int));
            }
            match label {
                Some(label_segment) => {
                    let mut segment: Option<StatementSegment> = None;
                    let mut p = pl;
                    if p < n && src[p] != SEMICOLON && src[p] != 13 && src[p] != 10 {
                        let (statement, q) = match parse_statement(src, p) {
                            Ok(t) => t,
                            Err(er) => {
                                proof {
                                    assert(spec_lines_outcome(src@, anchor) == Err::<
                                        int,
                                        ParseError,
                                    >(er));
                                }
                                return Err(er);
                            },
                        };
                        segment = Some(StatementSegment { statement, index: p });
                        p = q;
                    }
                    let (comment, e) = match parse_line_rest(src, p) {
                        Ok(t) => t,
                        Err(er) => {
                            proof {
                                assert(spec_lines_outcome(src@, anchor) == Err::<int, ParseError>(
                                    er,
                                ));
                            }
                            return Err(er);
                        },
                    };
                    let line = StatementLine {
                        content: StatementLineContent::Labeled(label_segment, segment, comment),
                    };
                    proof {
                        assert(spec_line_matches(src@, anchor, line));
                        assert(spec_line_end_pos(src@, anchor) == e);
                        lemma_lines_prefix_push(src@, pb, lines@, anchor, line);
                        assert(spec_lines_outcome(src@, anchor) == spec_lines_outcome(
                            src@,
                            e as int,
                        ));
                    }
                    lines.push(line);
                    pos = e;
                },
                None => {
                    let (statement, q) = match parse_statement(src, pos) {
                        Ok(t) => t,
                        Err(er) => {
                            proof {
                                assert(spec_lines_outcome(src@, anchor) == Err::<int, ParseError>(
                                    er,
                                ));
                            }
                            return Err(er);
                        },
                    };
                    let (comment, e) = match parse_line_rest(src, q) {
                        Ok(t) => t,
                        Err(er) => {
                            proof {
                                assert(spec_lines_outcome(src@, anchor) == Err::<int, ParseError>(
                                    er,
                                ));
                            }
                            return Err(er);
                        },
                    };
                    let line = StatementLine {
                        content: StatementLineContent::NoLabel(
                            StatementSegment { statement, index: pos },
                            comment,
                        ),
                    };
                    proof {
                        assert(spec_line_matches(src@, anchor, line));
                        assert(spec_line_end_pos(src@, anchor) == e);
                        lemma_lines_prefix_push(src@, pb, lines@, anchor, line);
                        assert(spec_lines_outcome(src@, anchor) == spec_lines_outcome(
                            src@,
                            e as int,
                        ));
                    }
                    lines.push(line);
                    pos = e;
                },
            }
        }
    }
    let (trailing_comments, pt) = parse_comment_lines(src, pos);
    if pt < n {
        // content other than blanks and comments after the end marker
        return Err(ParseError { pos: pt, kind: ParseErrorKind::Syntax });
    }
    let end_line = match end {
        Some(el) => el,
        None => {
            // the loop only exits once the end line is parsed
            return Err(ParseError { pos: pt, kind: ParseErrorKind::Syntax });
        },
    };
    let sf = SourceFile {
        leading_comments,
        origin_line,
        lines,
        end: end_line,
        trailing_comments,
    };
    proof {
        assert(spec_source_values(src@, sf));
    }
    Ok(sf)
}

} // verus!
