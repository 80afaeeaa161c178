//! From a cut document to the records that the store keeps: statements,
//! and for each url the place where each statement was found.

use vstd::prelude::*;
use vstd::slice::slice_to_vec;
use crate::bytes::{copy_range, count_newlines_in, newline_count, NEWLINE};
use crate::splitter::{
    covers,
    joined_text,
    lemma_spans,
    line_at,
    lines_agree,
    outcome_of,
    replay,
    settle,
    tags_agree,
    text_of,
    Fragment,
    SplitFailure,
    SplitState,
    Splitter,
};
use crate::statement::{Statement, StatementSource};

verus! {

/// Cuts `input`, given the recogniser's outcomes in the order in which the
/// cutter asks for them. Outcomes that are left over when the cutter is
/// done are not looked at; a run of outcomes that ends too early is a
/// failure at the offset where the next was needed.
pub fn split_psql_to_statements(input: &[u8], outcomes: &[Option<usize>]) -> (r: Result<
    Vec<Fragment>,
    SplitFailure,
>)
    ensures
        match outcome_of(input@, replay(input@, settle(input@, SplitState::start()), outcomes@)) {
            Ok(pieces) => r matches Ok(v) && v@ == pieces,
            Err(f) => r == Err::<Vec<Fragment>, SplitFailure>(f),
        },
        r matches Ok(v) ==> covers(v@, input@.len() as int) && lines_agree(input@, v@)
            && tags_agree(v@) && joined_text(input@, v@) == input@,
{
    let mut splitter = Splitter::new(slice_to_vec(input));
    let ghost first = splitter@;
    let mut i: usize = 0;
    assert(outcomes@.subrange(0, outcomes@.len() as int) =~= outcomes@);
    while i < outcomes.len() && splitter.pending().is_some()
        invariant
            splitter.wf(),
            splitter.doc() == input@,
            i <= outcomes@.len(),
            replay(input@, splitter@, outcomes@.subrange(i as int, outcomes@.len() as int))
                == replay(input@, first, outcomes@),
        decreases outcomes@.len() - i,
    {
        assert(outcomes@.subrange(i as int, outcomes@.len() as int).drop_first()
            =~= outcomes@.subrange(i + 1, outcomes@.len() as int));
        splitter.advance(outcomes[i]);
        i = i + 1;
    }
    splitter.finish()
}

/// Offset at which the line that holds `offset` begins.
pub open spec fn line_start(doc: Seq<u8>, offset: int) -> int
    decreases offset,
{
    if offset <= 0 {
        0
    } else if doc[offset - 1] == NEWLINE {
        offset
    } else {
        line_start(doc, offset - 1)
    }
}

/// Column of `offset`, counted from 1 in bytes.
pub fn column_of(doc: &[u8], offset: usize) -> (column: usize)
    requires
        offset <= doc.len(),
        offset < usize::MAX,
    ensures
        column == offset - line_start(doc@, offset as int) + 1,
{
    let mut i: usize = offset;
    while i > 0 && doc[i - 1] != NEWLINE
        invariant
            i <= offset <= doc@.len(),
            line_start(doc@, i as int) == line_start(doc@, offset as int),
        decreases i,
    {
        i = i - 1;
    }
    offset - i + 1
}

/// Line and column of `offset`, both counted from 1; the column counts
/// bytes.
pub fn position_of(doc: &[u8], offset: usize) -> (at: (usize, usize))
    requires
        offset <= doc.len(),
        offset < usize::MAX,
    ensures
        at.0 == line_at(doc@, offset as int),
        at.1 == offset - line_start(doc@, offset as int) + 1,
{
    (count_newlines_in(doc, 0, offset) + 1, column_of(doc, offset))
}

/// The statement that a fragment of `doc` holds.
pub fn fragment_statement(doc: &[u8], piece: &Fragment, document_id: i64) -> (s: Statement)
    requires
        piece.start_offset <= piece.end_offset <= doc@.len(),
    ensures
        s.wf(),
        s.text@ == text_of(doc@, *piece),
        s.language == piece.language,
        s.document_id == document_id,
{
    Statement::new(
        copy_range(doc, piece.start_offset, piece.end_offset),
        piece.language,
        document_id,
    )
}

/// The statements of a cut document, one per fragment and in the
/// fragments' order. Each holds its fragment's bytes and tag, and its
/// identity and line count are those of its text.
pub fn statements_of(doc: &[u8], fragments: &Vec<Fragment>, document_id: i64) -> (out: Vec<
    Statement,
>)
    requires
        covers(fragments@, doc@.len() as int),
    ensures
        out@.len() == fragments@.len(),
        forall|i: int|
            0 <= i < out@.len() ==> {
                &&& (#[trigger] out@[i]).wf()
                &&& out@[i].text@ == text_of(doc@, fragments@[i])
                &&& out@[i].language == fragments@[i].language
                &&& out@[i].document_id == document_id
            },
{
    let mut out: Vec<Statement> = Vec::new();
    let mut i: usize = 0;
    while i < fragments.len()
        invariant
            covers(fragments@, doc@.len() as int),
            i <= fragments@.len(),
            out@.len() == i,
            forall|k: int|
                0 <= k < out@.len() ==> {
                    &&& (#[trigger] out@[k]).wf()
                    &&& out@[k].text@ == text_of(doc@, fragments@[k])
                    &&& out@[k].language == fragments@[k].language
                    &&& out@[k].document_id == document_id
                },
        decreases fragments@.len() - i,
    {
        proof {
            lemma_spans(doc@, fragments@, doc@.len() as int, i as int);
        }
        let piece = fragments[i];
        out.push(fragment_statement(doc, &piece, document_id));
        i = i + 1;
    }
    out
}

/// One record per url of where the statement `stmt`, cut as `piece`, was
/// found: each begins at the fragment's line and offset and spans as many
/// bytes as the statement's text has.
pub fn sources_for(stmt: &Statement, piece: &Fragment, urls: &Vec<String>) -> (out: Vec<
    StatementSource,
>)
    requires
        piece.start_offset + stmt.text@.len() <= usize::MAX,
    ensures
        out@.len() == urls@.len(),
        forall|j: int|
            0 <= j < out@.len() ==> {
                &&& (#[trigger] out@[j]).url@ == urls@[j]@
                &&& out@[j].statement_id == stmt.id
                &&& out@[j].document_id == stmt.document_id
                &&& out@[j].n_lines == stmt.n_lines
                &&& out@[j].start_line == piece.start_line
                &&& out@[j].start_offset == piece.start_offset
                &&& out@[j].end_offset == piece.start_offset + stmt.text@.len()
            },
{
    let mut out: Vec<StatementSource> = Vec::new();
    let mut j: usize = 0;
    while j < urls.len()
        invariant
            piece.start_offset + stmt.text@.len() <= usize::MAX,
            j <= urls@.len(),
            out@.len() == j,
            forall|k: int|
                0 <= k < out@.len() ==> {
                    &&& (#[trigger] out@[k]).url@ == urls@[k]@
                    &&& out@[k].statement_id == stmt.id
                    &&& out@[k].document_id == stmt.document_id
                    &&& out@[k].n_lines == stmt.n_lines
                    &&& out@[k].start_line == piece.start_line
                    &&& out@[k].start_offset == piece.start_offset
                    &&& out@[k].end_offset == piece.start_offset + stmt.text@.len()
                },
        decreases urls@.len() - j,
    {
        let src = stmt.with_source(urls[j].as_str(), piece.start_line, piece.start_offset);
        out.push(src);
        j = j + 1;
    }
    out
}

/// The offset law. Take the `i`-th fragment of a cut document, the
/// statement made of its bytes, and a record of that statement at the
/// fragment's place. Then the record's span is exactly as long as the
/// statement's text, it ends where the fragment ends, and its line count is
/// the number of line feeds in the text.
pub proof fn lemma_offset_law(
    doc: Seq<u8>,
    pieces: Seq<Fragment>,
    i: int,
    stmt: Statement,
    src: StatementSource,
)
    requires
        covers(pieces, doc.len() as int),
        0 <= i < pieces.len(),
        stmt.wf(),
        stmt.text@ == text_of(doc, pieces[i]),
        src.start_offset == pieces[i].start_offset,
        src.end_offset == src.start_offset + stmt.text@.len(),
        src.n_lines == stmt.n_lines,
    ensures
        src.end_offset - src.start_offset == stmt.text@.len(),
        src.end_offset == pieces[i].end_offset,
        src.n_lines == newline_count(stmt.text@),
        src.statement_id == stmt.id ==> src.describes(stmt.text@),
{
    lemma_spans(doc, pieces, doc.len() as int, i);
}

} // verus!
