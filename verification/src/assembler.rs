//! The assembler: parses source text into a file-level syntax tree, assigns
//! addresses to labels in a first pass, resolves references in a second
//! pass, and hands back the resolved program with its origin address.

use vstd::prelude::*;
use crate::assembler::labels::{Label, LabelLookup};
use crate::assembler::parse::instruction::{
    lemma_resolved_instruction_len, spec_data_bytes, spec_resolve_instruction,
    spec_resolve_operand, DataStatement, ResolveError, Statement,
};
use crate::assembler::parse::{
    parse_source_file, spec_source_outcome, spec_source_values, ParseError, ParseErrorKind,
    SourceFile, StatementLine, StatementLineContent,
};
use crate::coding::encoder::{
    lemma_units_bytes_len, spec_unit_len, spec_units_bytes, spec_units_len,
};
use crate::instruction::{Data16, EmissionUnit, InstructionOrData};

pub mod labels;
pub mod parse;

verus! {

pub type AssemblySource<'a> = &'a [u8];

/// Why an assembly run failed.
#[derive(Clone, Debug, PartialEq, Eq)]
pub enum AssembleErrorKind {
    /// The source does not match the grammar.
    Syntax,
    /// A numeric literal is malformed or does not fit its width.
    InvalidNumber,
    /// The named label is defined more than once.
    DuplicateLabel(Label),
    /// A referenced label is never defined.
    UnknownLabel,
    /// Address assignment ran past the end of the address space.
    AddressOverflow,
}

/// A fatal assembly failure: the first error encountered, at a byte offset
/// of the original source.
#[derive(Clone, Debug, PartialEq, Eq)]
pub struct AssembleError {
    pub pos: usize,
    pub kind: AssembleErrorKind,
}

/// The origin address a file declares, zero when it declares none.
pub open spec fn spec_origin(sf: SourceFile) -> u16 {
    match sf.origin_line {
        Some(o) => o.address.value,
        None => 0,
    }
}

/// The name of the label a statement line defines, if any.
pub open spec fn spec_line_label_name(line: StatementLine) -> Option<Seq<u8>> {
    match line.spec_label() {
        Some(seg) => Some(seg.label@),
        None => None,
    }
}

/// The name of the label the origin line defines, if any.
pub open spec fn spec_origin_label_name(sf: SourceFile) -> Option<Seq<u8>> {
    match sf.origin_line {
        Some(o) => match o.label {
            Some(seg) => Some(seg.label@),
            None => None,
        },
        None => None,
    }
}

/// A statement line's contribution to the address counter.
pub open spec fn spec_line_len(line: StatementLine) -> int {
    match line.spec_statement() {
        Some(seg) => seg.statement.spec_len(),
        None => 0,
    }
}

/// The sum of the lengths of the first `i` statement lines: how many bytes
/// precede line `i` in the program.
pub open spec fn spec_prefix_len(lines: Seq<StatementLine>, i: int) -> int
    decreases i,
{
    if i <= 0 {
        0
    } else {
        spec_prefix_len(lines, i - 1) + spec_line_len(lines[i - 1])
    }
}

/// No line has a negative length.
proof fn lemma_line_len_nonneg(line: StatementLine)
    ensures
        spec_line_len(line) >= 0,
{
    match line.spec_statement() {
        Some(seg) => {
            crate::assembler::parse::instruction::lemma_statement_len_nonneg(seg.statement);
        },
        None => {},
    }
}

/// Prefix lengths only grow with the prefix.
proof fn lemma_prefix_len_monotone(lines: Seq<StatementLine>, i: int, j: int)
    requires
        i <= j,
    ensures
        spec_prefix_len(lines, i) <= spec_prefix_len(lines, j),
    decreases j - i,
{
    if i < j {
        lemma_prefix_len_monotone(lines, i, j - 1);
        lemma_line_len_nonneg(lines[j - 1]);
    }
}

/// The name has at least two definitions: on two statement lines, or on
/// the origin line and a statement line.
pub open spec fn spec_label_defined_twice(sf: SourceFile, name: Seq<u8>) -> bool {
    ||| exists|i: int, j: int|
        0 <= i < j < sf.lines@.len() && #[trigger] spec_line_label_name(sf.lines@[i]) == Some(name)
            && #[trigger] spec_line_label_name(sf.lines@[j]) == Some(name)
    ||| (spec_origin_label_name(sf) == Some(name) && exists|i: int|
        0 <= i < sf.lines@.len() && #[trigger] spec_line_label_name(sf.lines@[i]) == Some(name))
}

/// A duplicate-label failure at `pos` is accurate: some line defines
/// `name` at offset `pos`, and the same name is already defined earlier —
/// on a preceding line or on the origin line.
pub open spec fn spec_reports_duplicate(sf: SourceFile, name: Seq<u8>, pos: usize) -> bool {
    exists|i: int|
        {
            &&& 0 <= i < sf.lines@.len()
            &&& ((#[trigger] sf.lines@[i].spec_label()) matches Some(seg) && seg.label@ == name
                && seg.index == pos)
            &&& (spec_origin_label_name(sf) == Some(name) || exists|j: int|
                0 <= j < i && #[trigger] spec_line_label_name(sf.lines@[j]) == Some(name))
        }
}

/// An overflow failure at `pos` is accurate: the statement at offset `pos`
/// is the first whose length carries the running address past the end of
/// the address space.
pub open spec fn spec_reports_overflow(sf: SourceFile, pos: usize) -> bool {
    exists|i: int|
        {
            &&& 0 <= i < sf.lines@.len()
            &&& ((#[trigger] sf.lines@[i].spec_statement()) matches Some(seg) && seg.index == pos)
            &&& spec_origin(sf) + spec_prefix_len(sf.lines@, i) <= 0xffff
            &&& spec_origin(sf) + spec_prefix_len(sf.lines@, i + 1) > 0xffff
        }
}

/// No label is defined twice: the origin line's label (if any) differs
/// from every statement line's label, and those are pairwise distinct.
pub open spec fn spec_no_duplicate_labels(sf: SourceFile) -> bool {
    &&& forall|i: int, j: int|
        0 <= i < j < sf.lines@.len() ==> !(#[trigger] spec_line_label_name(sf.lines@[i]) is Some
            && #[trigger] spec_line_label_name(sf.lines@[j]) is Some
            && spec_line_label_name(sf.lines@[i]) == spec_line_label_name(sf.lines@[j]))
    &&& forall|i: int|
        0 <= i < sf.lines@.len() ==> !(spec_origin_label_name(sf) is Some && #[trigger]
        spec_line_label_name(sf.lines@[i]) == spec_origin_label_name(sf))
}

/// Address assignment stays inside the 16-bit address space at every line.
pub open spec fn spec_no_address_overflow(sf: SourceFile) -> bool {
    forall|i: int|
        0 <= i <= sf.lines@.len() ==> spec_origin(sf) + #[trigger] spec_prefix_len(sf.lines@, i)
            <= 0xffff
}

/// What a correct label table for a file holds: the origin line's label at
/// the origin address; every statement line's label at the origin address
/// plus the lengths of all statements strictly before that line; and
/// nothing else.
pub open spec fn spec_table_correct(sf: SourceFile, m: Map<Seq<u8>, u16>) -> bool {
    &&& (match spec_origin_label_name(sf) {
        Some(name) => m.contains_key(name) && m[name] == spec_origin(sf),
        None => true,
    })
    &&& forall|i: int|
        0 <= i < sf.lines@.len() ==> match #[trigger] spec_line_label_name(sf.lines@[i]) {
            Some(name) => m.contains_key(name) && m[name] == spec_origin(sf) + spec_prefix_len(
                sf.lines@,
                i,
            ),
            None => true,
        }
    &&& forall|name: Seq<u8>|
        #[trigger] m.contains_key(name) ==> spec_origin_label_name(sf) == Some(name) || exists|
            i: int,
        | 0 <= i < sf.lines@.len() && #[trigger] spec_line_label_name(sf.lines@[i]) == Some(name)
}

/// Pass 1: walks the statement lines in order, keeping a running address
/// that starts at the origin, records each label at the address current
/// when its line begins, and advances the address by each statement's
/// length.
///
/// Succeeds exactly when no label is defined twice and the running address
/// never leaves the 16-bit address space; the table it returns satisfies
/// `spec_table_correct` — each label's address is the origin plus the
/// lengths of all statements strictly before its line.
pub fn assign_addresses(sf: &SourceFile) -> (r: Result<LabelLookup, AssembleError>)
    ensures
        r is Ok <==> (spec_no_duplicate_labels(*sf) && spec_no_address_overflow(*sf)),
        r matches Ok(t) ==> spec_table_correct(*sf, t@),
        r matches Err(e) ==> match e.kind {
            AssembleErrorKind::DuplicateLabel(l) => spec_label_defined_twice(*sf, l@)
                && spec_reports_duplicate(*sf, l@, e.pos),
            AssembleErrorKind::AddressOverflow => spec_reports_overflow(*sf, e.pos),
            _ => false,
        },
{
    let mut labels = LabelLookup::new();
    let origin: u16 = match &sf.origin_line {
        Some(o) => o.address.value,
        None => 0,
    };
    if let Some(origin_line) = &sf.origin_line {
        if let Some(segment) = &origin_line.label {
            // cannot fail: the table is still empty
            let _ = labels.insert(segment.label.clone_label(), origin);
        }
    }
    let mut current_address: u16 = origin;
    let n = sf.lines.len();
    let mut i: usize = 0;
    while i < n
        invariant
            i <= n,
            n == sf.lines@.len(),
            current_address == spec_origin(*sf) + spec_prefix_len(sf.lines@, i as int),
            match spec_origin_label_name(*sf) {
                Some(name) => labels@.contains_key(name) && labels@[name] == spec_origin(*sf),
                None => true,
            },
            forall|j: int|
                0 <= j < i ==> match #[trigger] spec_line_label_name(sf.lines@[j]) {
                    Some(name) => labels@.contains_key(name) && labels@[name] == spec_origin(*sf)
                        + spec_prefix_len(sf.lines@, j),
                    None => true,
                },
            forall|name: Seq<u8>|
                #[trigger] labels@.contains_key(name) ==> spec_origin_label_name(*sf) == Some(name)
                    || exists|j: int|
                    0 <= j < i && #[trigger] spec_line_label_name(sf.lines@[j]) == Some(name),
            forall|j1: int, j2: int|
                0 <= j1 < j2 < i ==> !(#[trigger] spec_line_label_name(sf.lines@[j1]) is Some
                    && #[trigger] spec_line_label_name(sf.lines@[j2]) is Some
                    && spec_line_label_name(sf.lines@[j1]) == spec_line_label_name(sf.lines@[j2])),
            forall|j: int|
                0 <= j < i ==> !(spec_origin_label_name(*sf) is Some && #[trigger]
                spec_line_label_name(sf.lines@[j]) == spec_origin_label_name(*sf)),
        decreases n - i,
    {
        let line = &sf.lines[i];
        if let Some(segment) = line.label() {
            match labels.insert(segment.label.clone_label(), current_address) {
                Ok(_) => {},
                Err(_) => {
                    proof {
                        let name = segment.label@;
                        assert(spec_line_label_name(sf.lines@[i as int]) == Some(name));
                        assert(sf.lines@[i as int].spec_label() matches Some(seg) && seg.label@
                            == name && seg.index == segment.index);
                        if spec_origin_label_name(*sf) != Some(name) {
                            let j = choose|j: int|
                                0 <= j < i && #[trigger] spec_line_label_name(sf.lines@[j])
                                    == Some(name);
                            assert(spec_line_label_name(sf.lines@[j]) is Some
                                && spec_line_label_name(sf.lines@[i as int]) is Some
                                && spec_line_label_name(sf.lines@[j]) == spec_line_label_name(
                                sf.lines@[i as int],
                            ));
                        }
                        assert(spec_reports_duplicate(*sf, name, segment.index));
                    }
                    return Err(
                        AssembleError {
                            pos: segment.index,
                            kind: AssembleErrorKind::DuplicateLabel(segment.label.clone_label()),
                        },
                    );
                },
            }
        }
        if let Some(code) = line.code() {
            let length = match &code.statement {
                Statement::DataStatement(d) => match d.byte_length() {
                    Some(l) => l,
                    None => {
                        proof {
                            lemma_prefix_len_monotone(sf.lines@, 0, i as int);
                            assert(spec_line_len(sf.lines@[i as int]) == code.statement.spec_len());
                            assert(spec_prefix_len(sf.lines@, i + 1) == spec_prefix_len(
                                sf.lines@,
                                i as int,
                            ) + spec_line_len(sf.lines@[i as int]));
                            assert(spec_origin(*sf) + spec_prefix_len(sf.lines@, i + 1) > 0xffff);
                            assert(sf.lines@[i as int].spec_statement() matches Some(seg)
                                && seg.index == code.index);
                            assert(spec_reports_overflow(*sf, code.index));
                        }
                        return Err(
                            AssembleError {
                                pos: code.index,
                                kind: AssembleErrorKind::AddressOverflow,
                            },
                        );
                    },
                },
                Statement::Instruction(p) => p.instruction_length(),
            };
            current_address = match current_address.checked_add(length) {
                Some(a) => a,
                None => {
                    proof {
                        assert(spec_line_len(sf.lines@[i as int]) == code.statement.spec_len());
                        assert(spec_prefix_len(sf.lines@, i + 1) == spec_prefix_len(
                            sf.lines@,
                            i as int,
                        ) + spec_line_len(sf.lines@[i as int]));
                        assert(spec_origin(*sf) + spec_prefix_len(sf.lines@, i + 1) > 0xffff);
                        assert(sf.lines@[i as int].spec_statement() matches Some(seg)
                            && seg.index == code.index);
                        assert(spec_reports_overflow(*sf, code.index));
                    }
                    return Err(
                        AssembleError { pos: code.index, kind: AssembleErrorKind::AddressOverflow },
                    );
                },
            };
        }
        i = i + 1;
    }
    proof {
        assert forall|k: int| 0 <= k <= n implies spec_origin(*sf) + #[trigger] spec_prefix_len(
            sf.lines@,
            k,
        ) <= 0xffff by {
            lemma_prefix_len_monotone(sf.lines@, k, n as int);
        }
    }
    Ok(labels)
}

/// The error kind a resolution failure reports.
pub open spec fn spec_resolve_error_kind(e: ResolveError) -> AssembleErrorKind {
    match e {
        ResolveError::UnknownLabel => AssembleErrorKind::UnknownLabel,
        ResolveError::InvalidNumber => AssembleErrorKind::InvalidNumber,
    }
}

/// What one statement emits under a label table: a byte run for a
/// byte-define, a little-endian word for a word-define, a zero-filled run
/// for a storage reservation, or one decoded instruction.
pub open spec fn spec_resolve_statement(s: Statement, m: Map<Seq<u8>, u16>) -> Result<
    Seq<EmissionUnit>,
    ResolveError,
> {
    match s {
        Statement::DataStatement(d) => match d {
            DataStatement::DefineByte(l) => match spec_data_bytes(l) {
                Some(bytes) => Ok(seq![EmissionUnit::Slice(bytes)]),
                None => Err(ResolveError::InvalidNumber),
            },
            DataStatement::DefineWord(o) => match spec_resolve_operand(o, m) {
                Some(v) => Ok(seq![EmissionUnit::Word(Data16::spec_from_u16(v))]),
                None => Err(ResolveError::UnknownLabel),
            },
            DataStatement::DefineStorage(len) => Ok(
                seq![EmissionUnit::Slice(Seq::new(len.value as nat, |i: int| 0u8))],
            ),
        },
        Statement::Instruction(p) => match spec_resolve_instruction(p.inner, m) {
            Ok(i) => Ok(seq![EmissionUnit::Instruction(i)]),
            Err(e) => Err(e),
        },
    }
}

/// What a line sequence resolves to under a label table: the concatenation
/// of each statement's emission units in program order, or the first
/// failure with its statement's source offset.
pub open spec fn spec_resolve_lines(lines: Seq<StatementLine>, m: Map<Seq<u8>, u16>) -> Result<
    Seq<EmissionUnit>,
    AssembleError,
>
    decreases lines.len(),
{
    if lines.len() == 0 {
        Ok(Seq::empty())
    } else {
        match spec_resolve_lines(lines.drop_last(), m) {
            Err(e) => Err(e),
            Ok(units) => match lines.last().spec_statement() {
                None => Ok(units),
                Some(seg) => match spec_resolve_statement(seg.statement, m) {
                    Ok(us) => Ok(units + us),
                    Err(re) => Err(
                        AssembleError { pos: seg.index, kind: spec_resolve_error_kind(re) },
                    ),
                },
            },
        }
    }
}

/// A failure in a prefix of the lines is the whole sequence's failure.
proof fn lemma_resolve_error_propagates(lines: Seq<StatementLine>, m: Map<Seq<u8>, u16>, i: int)
    requires
        0 <= i <= lines.len(),
        spec_resolve_lines(lines.take(i), m) is Err,
    ensures
        spec_resolve_lines(lines, m) == spec_resolve_lines(lines.take(i), m),
    decreases lines.len(),
{
    if i == lines.len() {
        assert(lines.take(i) =~= lines);
    } else {
        assert(lines.drop_last().take(i) =~= lines.take(i));
        lemma_resolve_error_propagates(lines.drop_last(), m, i);
    }
}

/// The sequence-of-units view of a resolved program vector.
pub open spec fn spec_units_view(v: Seq<InstructionOrData>) -> Seq<EmissionUnit> {
    v.map_values(|u: InstructionOrData| u@)
}

/// Pass 2: walks the statement lines again, resolving every label and
/// literal operand against the completed table and emitting the program's
/// units in order. Returns exactly what `spec_resolve_lines` denotes:
/// the first unresolved reference or overflowing literal fails the run at
/// that statement's offset.
pub fn resolve_program(lines: Vec<StatementLine>, labels: &LabelLookup) -> (r: Result<
    Vec<InstructionOrData>,
    AssembleError,
>)
    ensures
        match r {
            Ok(v) => spec_resolve_lines(lines@, labels@) == Ok::<_, AssembleError>(
                spec_units_view(v@),
            ),
            Err(e) => spec_resolve_lines(lines@, labels@) == Err::<Seq<EmissionUnit>, _>(e),
        },
{
    let ghost all = lines@;
    let mut rest = lines;
    let mut out: Vec<InstructionOrData> = Vec::new();
    proof {
        assert(all.take(0) =~= Seq::<StatementLine>::empty());
        assert(spec_units_view(out@) =~= Seq::<EmissionUnit>::empty());
        assert(all.take(all.len() - rest@.len()) + rest@ =~= all);
    }
    while rest.len() > 0
        invariant
            all == lines@,
            all.take(all.len() - rest@.len()) + rest@ =~= all,
            spec_resolve_lines(all.take(all.len() - rest@.len()), labels@) == Ok::<
                _,
                AssembleError,
            >(spec_units_view(out@)),
        decreases rest@.len(),
    {
        let ghost i = all.len() - rest@.len();
        let line = rest.remove(0);
        proof {
            assert(line == all[i]);
            assert(all.take(i + 1).drop_last() =~= all.take(i));
            assert(all.take(i + 1).last() == all[i]);
            assert(all.take(i + 1) + rest@ =~= all);
        }
        let ghost out0 = out@;
        let seg_opt = match line.content {
            StatementLineContent::Labeled(_, s, _) => s,
            StatementLineContent::NoLabel(s, _) => Some(s),
            StatementLineContent::OnlyComment(_) => None,
        };
        match seg_opt {
            None => {},
            Some(seg) => {
                let index = seg.index;
                match seg.statement {
                    Statement::DataStatement(DataStatement::DefineByte(l)) => match l.get() {
                        Some(bytes) => {
                            out.push(InstructionOrData::Slice(bytes));
                        },
                        None => {
                            let e = AssembleError {
                                pos: index,
                                kind: AssembleErrorKind::InvalidNumber,
                            };
                            proof {
                                assert(spec_resolve_lines(all.take(i + 1), labels@) == Err::<
                                    Seq<EmissionUnit>,
                                    _,
                                >(e));
                                lemma_resolve_error_propagates(all, labels@, i + 1);
                            }
                            return Err(e);
                        },
                    },
                    Statement::DataStatement(DataStatement::DefineWord(o)) => match o.get(labels) {
                        Some(a) => {
                            out.push(InstructionOrData::Word(a));
                        },
                        None => {
                            let e = AssembleError {
                                pos: index,
                                kind: AssembleErrorKind::UnknownLabel,
                            };
                            proof {
                                assert(spec_resolve_lines(all.take(i + 1), labels@) == Err::<
                                    Seq<EmissionUnit>,
                                    _,
                                >(e));
                                lemma_resolve_error_propagates(all, labels@, i + 1);
                            }
                            return Err(e);
                        },
                    },
                    Statement::DataStatement(DataStatement::DefineStorage(len)) => {
                        let count = len.value;
                        let mut zeros: Vec<u8> = Vec::new();
                        let mut k: u16 = 0;
                        while k < count
                            invariant
                                k <= count,
                                zeros@.len() == k,
                                forall|j: int| 0 <= j < k ==> zeros@[j] == 0u8,
                            decreases count - k,
                        {
                            zeros.push(0);
                            k = k + 1;
                        }
                        proof {
                            assert(zeros@ =~= Seq::new(len.value as nat, |j: int| 0u8));
                        }
                        out.push(InstructionOrData::Slice(zeros));
                    },
                    Statement::Instruction(p) => match p.into_inner(labels) {
                        Ok(instruction) => {
                            out.push(InstructionOrData::Instruction(instruction));
                        },
                        Err(re) => {
                            let kind = match re {
                                ResolveError::UnknownLabel => AssembleErrorKind::UnknownLabel,
                                ResolveError::InvalidNumber => AssembleErrorKind::InvalidNumber,
                            };
                            let e = AssembleError { pos: index, kind };
                            proof {
                                assert(spec_resolve_lines(all.take(i + 1), labels@) == Err::<
                                    Seq<EmissionUnit>,
                                    _,
                                >(e));
                                lemma_resolve_error_propagates(all, labels@, i + 1);
                            }
                            return Err(e);
                        },
                    },
                }
            },
        }
        proof {
            if out@.len() > out0.len() {
                assert(spec_units_view(out@) =~= spec_units_view(out0).push(out@.last()@));
                assert(spec_units_view(out0).push(out@.last()@) =~= spec_units_view(out0) + seq![
                    out@.last()@,
                ]);
            } else {
                assert(spec_units_view(out@) =~= spec_units_view(out0));
            }
            assert(spec_resolve_lines(all.take(i + 1), labels@) == Ok::<_, AssembleError>(
                spec_units_view(out@),
            ));
        }
    }
    proof {
        assert(all.take(all.len() as int) =~= all);
    }
    Ok(out)
}

/// Unit lengths add up over concatenation.
proof fn lemma_units_len_concat(a: Seq<EmissionUnit>, b: Seq<EmissionUnit>)
    ensures
        spec_units_len(a + b) == spec_units_len(a) + spec_units_len(b),
    decreases b.len(),
{
    if b.len() == 0 {
        assert(a + b =~= a);
    } else {
        assert((a + b).drop_last() =~= a + b.drop_last());
        assert((a + b).last() == b.last());
        lemma_units_len_concat(a, b.drop_last());
    }
}

/// The units a statement resolves to occupy exactly the bytes its
/// statically determined length promised — whatever the label table held.
proof fn lemma_resolved_statement_len(s: Statement, m: Map<Seq<u8>, u16>, us: Seq<EmissionUnit>)
    requires
        spec_resolve_statement(s, m) == Ok::<_, ResolveError>(us),
    ensures
        spec_units_len(us) == s.spec_len(),
{
    assert(us.len() == 1);
    assert(us.drop_last() =~= Seq::<EmissionUnit>::empty());
    assert(spec_units_len(us.drop_last()) == 0);
    assert(spec_units_len(us) == spec_unit_len(us.last()));
    match s {
        Statement::DataStatement(d) => {
            match d {
                DataStatement::DefineByte(l) => {
                    match l {
                        crate::assembler::parse::instruction::LiteralStringOrNumber::String(
                            st,
                        ) => {
                            assert(us.last() == EmissionUnit::Slice(st.bytes@));
                        },
                        crate::assembler::parse::instruction::LiteralStringOrNumber::Number(
                            num,
                        ) => {
                            assert(us.last() == EmissionUnit::Slice(seq![num.value as u8]));
                        },
                    }
                },
                DataStatement::DefineWord(_) => {},
                DataStatement::DefineStorage(len) => {
                    assert(us.last() == EmissionUnit::Slice(
                        Seq::new(len.value as nat, |i: int| 0u8),
                    ));
                },
            }
        },
        Statement::Instruction(p) => {
            let i = spec_resolve_instruction(p.inner, m)->Ok_0;
            lemma_resolved_instruction_len(p, m, i);
        },
    }
}

/// Prefix lengths agree on line sequences that agree pointwise.
proof fn lemma_prefix_len_agree(l1: Seq<StatementLine>, l2: Seq<StatementLine>, k: int)
    requires
        k <= l1.len(),
        k <= l2.len(),
        forall|j: int| 0 <= j < k ==> l1[j] == l2[j],
    ensures
        spec_prefix_len(l1, k) == spec_prefix_len(l2, k),
    decreases k,
{
    if k > 0 {
        lemma_prefix_len_agree(l1, l2, k - 1);
    }
}

/// The total length of a resolved program equals the sum of its statements'
/// statically determined lengths.
proof fn lemma_resolved_lines_len(
    lines: Seq<StatementLine>,
    m: Map<Seq<u8>, u16>,
    units: Seq<EmissionUnit>,
)
    requires
        spec_resolve_lines(lines, m) == Ok::<_, AssembleError>(units),
    ensures
        spec_units_len(units) == spec_prefix_len(lines, lines.len() as int),
    decreases lines.len(),
{
    if lines.len() == 0 {
    } else {
        let prev = spec_resolve_lines(lines.drop_last(), m)->Ok_0;
        lemma_resolved_lines_len(lines.drop_last(), m, prev);
        lemma_prefix_len_agree(lines.drop_last(), lines, lines.len() - 1);
        match lines.last().spec_statement() {
            None => {},
            Some(seg) => {
                let us = spec_resolve_statement(seg.statement, m)->Ok_0;
                lemma_resolved_statement_len(seg.statement, m, us);
                lemma_units_len_concat(prev, us);
            },
        }
    }
}

/// The byte length of the encoder's output over a resolved program equals
/// the sum of the statements' statically determined lengths — independent
/// of what any label resolved to.
pub proof fn lemma_output_length(
    lines: Seq<StatementLine>,
    m: Map<Seq<u8>, u16>,
    units: Seq<EmissionUnit>,
)
    requires
        spec_resolve_lines(lines, m) == Ok::<_, AssembleError>(units),
    ensures
        spec_units_bytes(units).len() == spec_prefix_len(lines, lines.len() as int),
{
    lemma_units_bytes_len(units);
    lemma_resolved_lines_len(lines, m, units);
}

/// Prefix lengths agree on line sequences whose statements have the same
/// statically determined lengths, whatever their labels, comments or
/// operand values.
proof fn lemma_prefix_len_same_shape(l1: Seq<StatementLine>, l2: Seq<StatementLine>, k: int)
    requires
        k <= l1.len(),
        k <= l2.len(),
        forall|j: int| 0 <= j < k ==> spec_line_len(#[trigger] l1[j]) == spec_line_len(l2[j]),
    ensures
        spec_prefix_len(l1, k) == spec_prefix_len(l2, k),
    decreases k,
{
    if k > 0 {
        lemma_prefix_len_same_shape(l1, l2, k - 1);
    }
}

/// The encoder's output length depends only on the statements' statically
/// determined lengths: two programs whose lines carry statements of the
/// same lengths — whatever origin they declare, wherever their labels
/// stand, and whatever values their operands resolve to — encode to
/// outputs of the same length.
pub proof fn lemma_output_length_shape_only(
    l1: Seq<StatementLine>,
    m1: Map<Seq<u8>, u16>,
    u1: Seq<EmissionUnit>,
    l2: Seq<StatementLine>,
    m2: Map<Seq<u8>, u16>,
    u2: Seq<EmissionUnit>,
)
    requires
        spec_resolve_lines(l1, m1) == Ok::<_, AssembleError>(u1),
        spec_resolve_lines(l2, m2) == Ok::<_, AssembleError>(u2),
        l1.len() == l2.len(),
        forall|j: int| 0 <= j < l1.len() ==> spec_line_len(#[trigger] l1[j]) == spec_line_len(l2[j]),
    ensures
        spec_units_bytes(u1).len() == spec_units_bytes(u2).len(),
{
    lemma_output_length(l1, m1, u1);
    lemma_output_length(l2, m2, u2);
    lemma_prefix_len_same_shape(l1, l2, l1.len() as int);
}

/// References resolve through the completed label table alone: two files
/// carrying the same statements resolve identically under equal tables, no
/// matter where the labels that built those tables stand. In particular a
/// reference to a label defined later in the file resolves exactly as it
/// would were the definition earlier.
pub proof fn lemma_reference_order_independent(
    l1: Seq<StatementLine>,
    l2: Seq<StatementLine>,
    m: Map<Seq<u8>, u16>,
)
    requires
        l1.map_values(|line: StatementLine| line.spec_statement()) == l2.map_values(
            |line: StatementLine| line.spec_statement(),
        ),
    ensures
        spec_resolve_lines(l1, m) == spec_resolve_lines(l2, m),
    decreases l1.len(),
{
    let f = |line: StatementLine| line.spec_statement();
    assert(l1.map_values(f).len() == l2.map_values(f).len());
    if l1.len() > 0 {
        assert(l1.map_values(f)[l1.len() - 1] == l2.map_values(f)[l2.len() - 1]);
        assert(l1.last().spec_statement() == l2.last().spec_statement());
        assert(l1.drop_last().map_values(f) =~= l2.drop_last().map_values(f)) by {
            assert forall|j: int| 0 <= j < l1.len() - 1 implies l1.drop_last().map_values(f)[j]
                == l2.drop_last().map_values(f)[j] by {
                assert(l1.map_values(f)[j] == l2.map_values(f)[j]);
            }
        }
        lemma_reference_order_independent(l1.drop_last(), l2.drop_last(), m);
    }
}

/// The character a decimal digit prints as.
pub open spec fn spec_digit_char(d: int) -> char {
    if d == 0 {
        '0'
    } else if d == 1 {
        '1'
    } else if d == 2 {
        '2'
    } else if d == 3 {
        '3'
    } else if d == 4 {
        '4'
    } else if d == 5 {
        '5'
    } else if d == 6 {
        '6'
    } else if d == 7 {
        '7'
    } else if d == 8 {
        '8'
    } else {
        '9'
    }
}

/// The decimal rendering of a non-negative number, most significant digit
/// first.
pub open spec fn spec_decimal(n: int) -> Seq<char>
    decreases n,
    via spec_decimal_decreases
{
    if n < 10 {
        seq![spec_digit_char(n)]
    } else {
        spec_decimal(n / 10).push(spec_digit_char(n % 10))
    }
}

#[via_fn]
proof fn spec_decimal_decreases(n: int) {
    if n >= 10 {
        vstd::arithmetic::div_mod::lemma_div_decreases(n, 10);
        vstd::arithmetic::div_mod::lemma_div_pos_is_pos(n, 10);
    }
}

fn digit_char(d: usize) -> (c: char)
    requires
        d < 10,
    ensures
        c == spec_digit_char(d as int),
{
    if d == 0 {
        '0'
    } else if d == 1 {
        '1'
    } else if d == 2 {
        '2'
    } else if d == 3 {
        '3'
    } else if d == 4 {
        '4'
    } else if d == 5 {
        '5'
    } else if d == 6 {
        '6'
    } else if d == 7 {
        '7'
    } else if d == 8 {
        '8'
    } else {
        '9'
    }
}

/// Relies on String::push: appends exactly one character.
#[verifier::external_body]
fn push_char(s: &mut String, c: char)
    ensures
        final(s)@ == old(s)@ + seq![c],
{
    s.push(c);
}

/// Renders a byte offset in decimal.
fn decimal_string(n: usize) -> (r: String)
    ensures
        r@ == spec_decimal(n as int),
    decreases n,
{
    if n < 10 {
        let mut s = String::new();
        push_char(&mut s, digit_char(n));
        proof {
            assert(s@ =~= spec_decimal(n as int));
        }
        s
    } else {
        proof {
            vstd::arithmetic::div_mod::lemma_div_decreases(n as int, 10);
        }
        let mut s = decimal_string(n / 10);
        push_char(&mut s, digit_char(n % 10));
        proof {
            assert(s@ =~= spec_decimal(n as int));
        }
        s
    }
}

/// The characters of a label name, one per byte.
pub open spec fn spec_label_chars(name: Seq<u8>) -> Seq<char> {
    name.map_values(|b: u8| b as char)
}

/// The short description each failure prints.
pub open spec fn spec_kind_text(kind: AssembleErrorKind) -> Seq<char> {
    match kind {
        AssembleErrorKind::Syntax => "Syntax error"@,
        AssembleErrorKind::InvalidNumber => "Invalid number"@,
        AssembleErrorKind::DuplicateLabel(l) => "Duplicate label "@ + spec_label_chars(l@),
        AssembleErrorKind::UnknownLabel => "Unknown label"@,
        AssembleErrorKind::AddressOverflow => "Memory size overflowed"@,
    }
}

/// The single human-readable message a failed run reports: the byte offset
/// in decimal, a separator, and the failure's short description.
pub open spec fn spec_error_message(e: AssembleError) -> Seq<char> {
    spec_decimal(e.pos as int) + ": "@ + spec_kind_text(e.kind)
}

/// Renders a failure as its one-line message.
pub fn error_message(e: &AssembleError) -> (r: String)
    ensures
        r@ == spec_error_message(*e),
{
    let mut s = decimal_string(e.pos);
    s.append(": ");
    match &e.kind {
        AssembleErrorKind::Syntax => {
            s.append("Syntax error");
        },
        AssembleErrorKind::InvalidNumber => {
            s.append("Invalid number");
        },
        AssembleErrorKind::UnknownLabel => {
            s.append("Unknown label");
        },
        AssembleErrorKind::AddressOverflow => {
            s.append("Memory size overflowed");
        },
        AssembleErrorKind::DuplicateLabel(label) => {
            s.append("Duplicate label ");
            let ghost prefix = s@;
            let count = label.span.len();
            let mut i: usize = 0;
            while i < count
                invariant
                    i <= count,
                    count == label.span@.len(),
                    s@ == prefix + spec_label_chars(label.span@.take(i as int)),
                decreases count - i,
            {
                push_char(&mut s, label.span[i] as char);
                proof {
                    assert(spec_label_chars(label.span@.take(i + 1)) =~= spec_label_chars(
                        label.span@.take(i as int),
                    ).push(label.span@[i as int] as char));
                }
                i = i + 1;
            }
            proof {
                assert(label.span@.take(count as int) =~= label.span@);
            }
        },
    }
    proof {
        assert(s@ =~= spec_error_message(*e));
    }
    s
}

/// One successful assembly run: the file declares `origin`, its label table
/// is `m` — duplicate-free, overflow-free, and correct in the sense of
/// `spec_table_correct` — and its statements resolve under `m` to exactly
/// `units`.
pub open spec fn spec_assembles_to(
    sf: SourceFile,
    m: Map<Seq<u8>, u16>,
    units: Seq<EmissionUnit>,
    origin: u16,
) -> bool {
    &&& spec_origin(sf) == origin
    &&& spec_no_duplicate_labels(sf)
    &&& spec_no_address_overflow(sf)
    &&& spec_table_correct(sf, m)
    &&& spec_resolve_lines(sf.lines@, m) == Ok::<_, AssembleError>(units)
}

/// The message shape of every failed run: a byte offset in decimal, a
/// separator, and one failure description.
pub open spec fn spec_is_error_message(s: Seq<char>) -> bool {
    exists|e: AssembleError| s == #[trigger] spec_error_message(e)
}

/// The parse tree of `src` assembles to exactly these units at this
/// origin: `sf` is pinned to the source bytes by `spec_source_values`, its
/// label table `m` is duplicate-free and correct, and its statements
/// resolve under `m` to `units`.
pub open spec fn spec_assembles_from(
    src: Seq<u8>,
    sf: SourceFile,
    m: Map<Seq<u8>, u16>,
    units: Seq<EmissionUnit>,
    origin: u16,
) -> bool {
    &&& spec_source_values(src, sf)
    &&& spec_assembles_to(sf, m, units, origin)
}

/// The source assembles to exactly these units at this origin.
pub open spec fn spec_assembly_from_source(
    src: Seq<u8>,
    units: Seq<EmissionUnit>,
    origin: u16,
) -> bool {
    exists|sf: SourceFile, m: Map<Seq<u8>, u16>| #[trigger] spec_assembles_from(
        src,
        sf,
        m,
        units,
        origin,
    )
}

/// The assembly failure a parse failure reports.
pub open spec fn spec_parse_error_to_assemble(pe: ParseError) -> AssembleError {
    AssembleError {
        pos: pe.pos,
        kind: match pe.kind {
            ParseErrorKind::Syntax => AssembleErrorKind::Syntax,
            ParseErrorKind::InvalidNumber => AssembleErrorKind::InvalidNumber,
        },
    }
}

/// `e` is a genuine failure of assembling the parse tree of `src`: a
/// duplicate label or an address overflow found in pass 1 (accurately
/// reported, with its offset), or — with a correct, duplicate-free table —
/// the first resolution failure of pass 2.
pub open spec fn spec_failure_witness(
    src: Seq<u8>,
    sf: SourceFile,
    m: Map<Seq<u8>, u16>,
    e: AssembleError,
) -> bool {
    &&& spec_source_values(src, sf)
    &&& {
        ||| (match e.kind {
            AssembleErrorKind::DuplicateLabel(l) => spec_label_defined_twice(sf, l@)
                && spec_reports_duplicate(sf, l@, e.pos),
            AssembleErrorKind::AddressOverflow => spec_reports_overflow(sf, e.pos),
            _ => false,
        })
        ||| {
            &&& spec_no_duplicate_labels(sf)
            &&& spec_no_address_overflow(sf)
            &&& spec_table_correct(sf, m)
            &&& spec_resolve_lines(sf.lines@, m) == Err::<Seq<EmissionUnit>, AssembleError>(e)
        }
    }
}

/// A failed run's message reports a genuine failure: the parse failure of
/// the source itself, or a pass failure of the source's parse tree,
/// rendered by `spec_error_message`.
pub open spec fn spec_assembly_failure(src: Seq<u8>, msg: Seq<char>) -> bool {
    match spec_source_outcome(src) {
        Err(pe) => msg == spec_error_message(spec_parse_error_to_assemble(pe)),
        Ok(_) => exists|sf: SourceFile, m: Map<Seq<u8>, u16>, e: AssembleError|
            #[trigger] spec_failure_witness(src, sf, m, e) && msg == spec_error_message(e),
    }
}

/// Assembles a source buffer: parses it, assigns label addresses in a
/// first pass, resolves every reference in a second pass, and returns the
/// resolved program with its origin address. On success the output is
/// what the source's parse tree assembles to; the first fatal error ends
/// the run with a single message reporting that genuine failure and its
/// byte offset.
pub fn parse_assembly(source: AssemblySource) -> (r: Result<(Vec<InstructionOrData>, u16), String>)
    ensures
        r matches Ok(t) ==> spec_source_outcome(source@) is Ok && spec_assembly_from_source(
            source@,
            spec_units_view(t.0@),
            t.1,
        ),
        r matches Err(s) ==> spec_is_error_message(s@) && spec_assembly_failure(source@, s@),
{
    let sf = match parse_source_file(source) {
        Ok(sf) => sf,
        Err(e) => {
            let kind = match e.kind {
                ParseErrorKind::Syntax => AssembleErrorKind::Syntax,
                ParseErrorKind::InvalidNumber => AssembleErrorKind::InvalidNumber,
            };
            let message = error_message(&AssembleError { pos: e.pos, kind });
            proof {
                assert(spec_is_error_message(message@));
                assert(message@ == spec_error_message(spec_parse_error_to_assemble(e)));
            }
            return Err(message);
        },
    };
    let origin: u16 = match &sf.origin_line {
        Some(o) => o.address.value,
        None => 0,
    };
    let labels = match assign_addresses(&sf) {
        Ok(labels) => labels,
        Err(e) => {
            let ghost ge = e;
            let message = error_message(&e);
            proof {
                assert(spec_is_error_message(message@));
                assert(spec_failure_witness(source@, sf, Map::<Seq<u8>, u16>::empty(), ge));
                assert(spec_assembly_failure(source@, message@));
            }
            return Err(message);
        },
    };
    let ghost gsf = sf;
    let SourceFile { lines, .. } = sf;
    let units = match resolve_program(lines, &labels) {
        Ok(units) => units,
        Err(e) => {
            let ghost ge = e;
            let message = error_message(&e);
            proof {
                assert(spec_is_error_message(message@));
                assert(spec_failure_witness(source@, gsf, labels@, ge));
                assert(spec_assembly_failure(source@, message@));
            }
            return Err(message);
        },
    };
    let r = (units, origin);
    proof {
        assert(spec_assembles_from(source@, gsf, labels@, spec_units_view(r.0@), r.1));
        assert(spec_assembly_from_source(source@, spec_units_view(r.0@), r.1));
    }
    Ok(r)
}

} // verus!
