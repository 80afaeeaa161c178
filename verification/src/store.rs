//! What is handed to the relational store: the text of multi-row inserts,
//! their flat parameter lists, and the cut of a batch into chunks that stay
//! under the store's limit on parameters per statement.
//!
//! Nothing here talks to a store. Every row is keyed by content, so the
//! same input always yields the same rows.

use vstd::prelude::*;
use vstd::utf8::encode_utf8;
use crate::identity::{content_hash, content_id};
use crate::language::Language;
use crate::statement::StatementSource;

verus! {

/// Most parameters that one statement may bind.
pub const MAX_PARAMETERS: usize = 999;

/// The schema version that this crate writes and reads: major, minor.
pub const SCHEMA_VERSION: (u32, u32) = (0, 0);

/// Why the store cannot be used.
#[derive(Debug, Clone, Copy, PartialEq, Eq, Structural)]
pub enum StoreFailure {
    /// The store was written under another schema version.
    SchemaMismatch { major: u32, minor: u32 },
}

/// Holds a stored schema version against the one this crate knows. Only an
/// exact match passes: there is no migration.
pub fn check_schema_version(major: u32, minor: u32) -> (r: Result<(), StoreFailure>)
    ensures
        r is Ok <==> (major, minor) == SCHEMA_VERSION,
        r matches Err(f) ==> f == (StoreFailure::SchemaMismatch { major, minor }),
{
    if major == SCHEMA_VERSION.0 && minor == SCHEMA_VERSION.1 {
        Ok(())
    } else {
        Err(StoreFailure::SchemaMismatch { major, minor })
    }
}

/// A run of rows of a batch: `len` rows from row `start` on.
#[derive(Debug, Clone, Copy, PartialEq, Eq, Structural)]
pub struct Chunk {
    /// Index of the chunk's first row.
    pub start: usize,
    /// Number of rows in the chunk.
    pub len: usize,
}

/// The `i`-th chunk of `n` rows cut into chunks of `cap` rows: full but for
/// the last, which holds what is left.
pub open spec fn chunk_at(n: int, cap: int, i: int) -> Chunk {
    Chunk {
        start: (i * cap) as usize,
        len: (if (i + 1) * cap <= n {
            cap
        } else {
            n - i * cap
        }) as usize,
    }
}

/// The chunks of `n` rows, `cap` rows to a chunk.
pub open spec fn is_chunk_plan(plan: Seq<Chunk>, n: int, cap: int) -> bool {
    &&& forall|i: int| 0 <= i < plan.len() ==> #[trigger] plan[i] == chunk_at(n, cap, i)
    &&& (plan.len() - 1) * cap < n <= plan.len() * cap
}

/// The chunks of a plan leave no row out and take none twice: the first
/// starts at row 0, each starts where the one before it ends, every chunk
/// but the last is full, none is empty, and the last ends at the last row.
pub proof fn lemma_chunk_plan_covers(plan: Seq<Chunk>, n: int, cap: int, i: int)
    requires
        is_chunk_plan(plan, n, cap),
        0 < cap,
        0 <= n <= usize::MAX,
        0 <= i < plan.len(),
    ensures
        0 < plan[i].len <= cap,
        i == 0 ==> plan[i].start == 0,
        i + 1 < plan.len() ==> plan[i].len == cap && plan[i].start + plan[i].len == plan[i
            + 1].start,
        i + 1 == plan.len() ==> plan[i].start + plan[i].len == n,
{
    assert(plan[i] == chunk_at(n, cap, i));
    assert(0 <= i * cap <= (plan.len() - 1) * cap && (i + 1) * cap == i * cap + cap && (i == 0
        ==> i * cap == 0)) by (nonlinear_arith)
        requires
            0 <= i < plan.len(),
            0 < cap,
    ;
    if i + 1 < plan.len() {
        assert(plan[i + 1] == chunk_at(n, cap, i + 1));
        assert((i + 1) * cap <= (plan.len() - 1) * cap) by (nonlinear_arith)
            requires
                i + 1 <= plan.len() - 1,
                0 < cap,
        ;
    } else {
        assert((i + 1) * cap == plan.len() * cap);
    }
}

/// How many rows of `width` parameters fit one statement.
pub fn rows_per_statement(width: usize) -> (rows: usize)
    requires
        0 < width <= MAX_PARAMETERS,
    ensures
        rows == MAX_PARAMETERS as int / width as int,
        rows >= 1,
        rows * width <= MAX_PARAMETERS,
{
    assert(MAX_PARAMETERS as int / width as int >= 1 && (MAX_PARAMETERS as int / width as int)
        * width <= MAX_PARAMETERS) by (nonlinear_arith)
        requires
            0 < width <= MAX_PARAMETERS,
    ;
    MAX_PARAMETERS / width
}

/// Cuts a batch of `n_rows` rows into chunks of at most `cap` rows, in
/// order. Every chunk but the last is full, the last holds exactly the
/// rest, and no chunk is empty.
pub fn chunk_plan(n_rows: usize, cap: usize) -> (plan: Vec<Chunk>)
    requires
        cap > 0,
    ensures
        is_chunk_plan(plan@, n_rows as int, cap as int),
        forall|i: int| 0 <= i < plan@.len() ==> 0 < (#[trigger] plan@[i]).len <= cap,
        forall|i: int|
            0 <= i < plan@.len() ==> (#[trigger] plan@[i]).start + plan@[i].len <= n_rows,
{
    let mut plan: Vec<Chunk> = Vec::new();
    let mut start: usize = 0;
    assert(plan@.len() * cap == 0) by (nonlinear_arith)
        requires
            plan@.len() == 0,
    ;
    while start < n_rows
        invariant
            cap > 0,
            start <= n_rows,
            start == plan@.len() * cap,
            forall|i: int|
                0 <= i < plan@.len() ==> #[trigger] plan@[i] == chunk_at(
                    n_rows as int,
                    cap as int,
                    i,
                ),
            forall|i: int| 0 <= i < plan@.len() ==> 0 < (#[trigger] plan@[i]).len <= cap,
            forall|i: int|
                0 <= i < plan@.len() ==> (#[trigger] plan@[i]).start + plan@[i].len <= n_rows,
        decreases n_rows - start,
    {
        let ghost k = plan@.len() as int;
        let left = n_rows - start;
        let len = if left >= cap {
            cap
        } else {
            left
        };
        assert((k + 1) * cap == k * cap + cap) by (nonlinear_arith);
        plan.push(Chunk { start, len });
        start = start + len;
        if start >= n_rows {
            return plan;
        }
    }
    assert((plan@.len() - 1) * cap < plan@.len() * cap) by (nonlinear_arith)
        requires
            cap > 0,
    ;
    plan
}

/// `(?,?,…)` with `width` question marks.
pub open spec fn tuple_text(width: nat) -> Seq<u8>
    decreases width,
{
    if width == 0 {
        seq![40u8, 41u8]
    } else if width == 1 {
        seq![40u8, 63u8, 41u8]
    } else {
        tuple_text((width - 1) as nat).drop_last() + seq![44u8, 63u8, 41u8]
    }
}

/// `rows` tuples of `width` question marks, separated by commas.
pub open spec fn tuples_text(rows: nat, width: nat) -> Seq<u8>
    decreases rows,
{
    if rows == 0 {
        Seq::<u8>::empty()
    } else if rows == 1 {
        tuple_text(width)
    } else {
        tuples_text((rows - 1) as nat, width) + seq![44u8] + tuple_text(width)
    }
}

/// Writes one tuple of `width` question marks.
pub fn placeholder_tuple(width: usize) -> (out: Vec<u8>)
    ensures
        out@ == tuple_text(width as nat),
{
    let mut out: Vec<u8> = Vec::new();
    out.push(40);
    if width == 0 {
        out.push(41);
        return out;
    }
    out.push(63);
    out.push(41);
    let mut i: usize = 1;
    while i < width
        invariant
            1 <= i <= width,
            out@ == tuple_text(i as nat),
        decreases width - i,
    {
        out.pop();
        out.push(44);
        out.push(63);
        out.push(41);
        i = i + 1;
    }
    out
}

/// Writes `rows` tuples of `width` question marks, separated by commas.
pub fn placeholder_tuples(rows: usize, width: usize) -> (out: Vec<u8>)
    ensures
        out@ == tuples_text(rows as nat, width as nat),
{
    let tuple = placeholder_tuple(width);
    let mut out: Vec<u8> = Vec::new();
    let mut i: usize = 0;
    while i < rows
        invariant
            i <= rows,
            tuple@ == tuple_text(width as nat),
            out@ == tuples_text(i as nat, width as nat),
        decreases rows - i,
    {
        if i > 0 {
            out.push(44);
        }
        out.extend_from_slice(tuple.as_slice());
        i = i + 1;
    }
    out
}

/// The text of a multi-row insert: `head`, then `rows` tuples of `width`
/// question marks, then `tail`.
pub fn multi_row_sql(head: &str, rows: usize, width: usize, tail: &str) -> (sql: Vec<u8>)
    ensures
        sql@ == encode_utf8(head@) + tuples_text(rows as nat, width as nat) + encode_utf8(tail@),
{
    let mut sql: Vec<u8> = Vec::new();
    sql.extend_from_slice(head.as_bytes());
    let tuples = placeholder_tuples(rows, width);
    sql.extend_from_slice(tuples.as_slice());
    sql.extend_from_slice(tail.as_bytes());
    sql
}

/// Offset of the `n`-th occurrence of `byte` at or after `from`, counted
/// from 0; `None` where there are fewer.
pub open spec fn nth_index(s: Seq<u8>, byte: u8, n: nat, from: int) -> Option<int>
    decreases s.len() - from,
{
    if from < 0 || from >= s.len() {
        None
    } else if s[from] == byte {
        if n == 0 {
            Some(from)
        } else {
            nth_index(s, byte, (n - 1) as nat, from + 1)
        }
    } else {
        nth_index(s, byte, n, from + 1)
    }
}

/// Finds the `n`-th occurrence of `byte` in `text`, counted from 0.
pub fn find_nth(text: &[u8], byte: u8, n: usize) -> (at: Option<usize>)
    ensures
        at matches Some(i) ==> nth_index(text@, byte, n as nat, 0) == Some(i as int) && i
            < text@.len() && text@[i as int] == byte,
        at is None ==> nth_index(text@, byte, n as nat, 0) is None,
{
    let mut i: usize = 0;
    let mut left: usize = n;
    while i < text.len()
        invariant
            i <= text@.len(),
            left <= n,
            nth_index(text@, byte, left as nat, i as int) == nth_index(text@, byte, n as nat, 0),
        decreases text@.len() - i,
    {
        if text[i] == byte {
            if left == 0 {
                return Some(i);
            }
            left = left - 1;
        }
        i = i + 1;
    }
    None
}

/// The two parts of an insert template that the second pair of round
/// brackets marks: what stands before the second `(`, and what stands
/// between it and the second `)`.
pub open spec fn template_parts(sql: Seq<u8>) -> Option<(Seq<u8>, Seq<u8>)> {
    match (nth_index(sql, 40u8, 1, 0), nth_index(sql, 41u8, 1, 0)) {
        (Some(open), Some(close)) => if open < close {
            Some((sql.subrange(0, open), sql.subrange(open + 1, close)))
        } else {
            None
        },
        _ => None,
    }
}

/// Splits an insert template at its second pair of round brackets.
pub fn split_template(sql: &[u8]) -> (parts: Option<(Vec<u8>, Vec<u8>)>)
    ensures
        match template_parts(sql@) {
            Some((base, tuple)) => parts matches Some(p) && p.0@ == base && p.1@ == tuple,
            None => parts is None,
        },
{
    let open = find_nth(sql, 40, 1);
    let close = find_nth(sql, 41, 1);
    match (open, close) {
        (Some(open), Some(close)) => {
            if open < close {
                let base = crate::bytes::copy_range(sql, 0, open);
                let tuple = crate::bytes::copy_range(sql, open + 1, close);
                Some((base, tuple))
            } else {
                None
            }
        },
        _ => None,
    }
}

/// The template of the insert that records predictions, one row spelled
/// out.
pub const INSERT_PREDICTION_SQL: &'static str =
    "INSERT INTO predictions (statement_id, oracle_id, language_id, message, error, valid)\nVALUES (\n    ? -- 1: statement_id\n  , ? -- 2: oracle_id\n  , ? -- 3: language_id\n  , ? -- 4: message\n  , ? -- 5: error\n  , ? -- 6: whether the statement is explicitly valid/not\n)\nON CONFLICT DO NOTHING;\n";

/// The prediction insert's head and the inside of its one row.
pub fn extract_params() -> (parts: Option<(Vec<u8>, Vec<u8>)>)
    ensures
        match template_parts(encode_utf8(INSERT_PREDICTION_SQL@)) {
            Some((base, tuple)) => parts matches Some(p) && p.0@ == base && p.1@ == tuple,
            None => parts is None,
        },
{
    split_template(INSERT_PREDICTION_SQL.as_bytes())
}

/// `base (tuple)`, then `, (tuple)` for each further row.
pub open spec fn rows_text(base: Seq<u8>, tuple: Seq<u8>, rows: nat) -> Seq<u8>
    decreases rows,
{
    if rows == 0 {
        base
    } else if rows == 1 {
        base + seq![32u8, 40u8] + tuple + seq![41u8]
    } else {
        rows_text(base, tuple, (rows - 1) as nat) + seq![44u8, 32u8, 40u8] + tuple + seq![41u8]
    }
}

/// Writes an insert of `rows` rows from a template's two parts.
pub fn construct_insert_sql(base: &[u8], tuple: &[u8], rows: usize) -> (sql: Vec<u8>)
    ensures
        sql@ == rows_text(base@, tuple@, rows as nat),
{
    let mut sql: Vec<u8> = Vec::new();
    sql.extend_from_slice(base);
    let mut i: usize = 0;
    while i < rows
        invariant
            i <= rows,
            sql@ == rows_text(base@, tuple@, i as nat),
        decreases rows - i,
    {
        if i > 0 {
            sql.push(44);
        }
        sql.push(32);
        sql.push(40);
        sql.extend_from_slice(tuple);
        sql.push(41);
        i = i + 1;
    }
    sql
}

/// The identities under which urls are kept, in the urls' order.
pub fn url_ids(urls: &Vec<String>) -> (ids: Vec<i64>)
    ensures
        ids@.len() == urls@.len(),
        forall|i: int|
            0 <= i < ids@.len() ==> #[trigger] ids@[i] == content_id(encode_utf8(urls@[i]@)),
{
    let mut ids: Vec<i64> = Vec::new();
    let mut i: usize = 0;
    while i < urls.len()
        invariant
            i <= urls@.len(),
            ids@.len() == i,
            forall|k: int|
                0 <= k < ids@.len() ==> #[trigger] ids@[k] == content_id(encode_utf8(urls@[k]@)),
        decreases urls@.len() - i,
    {
        ids.push(content_hash(urls[i].as_str().as_bytes()));
        i = i + 1;
    }
    ids
}

/// The parameters of the statement-language rows: statement, then the
/// language's number.
pub open spec fn language_params_of(rows: Seq<(i64, Language)>) -> Seq<i64>
    decreases rows.len(),
{
    if rows.len() == 0 {
        Seq::<i64>::empty()
    } else {
        language_params_of(rows.drop_last()) + seq![rows.last().0, rows.last().1.spec_id()]
    }
}

/// Flattens statement-language rows into parameters.
pub fn language_params(rows: &Vec<(i64, Language)>) -> (params: Vec<i64>)
    ensures
        params@ == language_params_of(rows@),
        params@.len() == 2 * rows@.len(),
{
    let mut params: Vec<i64> = Vec::new();
    let mut i: usize = 0;
    while i < rows.len()
        invariant
            i <= rows@.len(),
            params@ == language_params_of(rows@.subrange(0, i as int)),
            params@.len() == 2 * i,
        decreases rows@.len() - i,
    {
        let row = rows[i];
        params.push(row.0);
        params.push(row.1.id());
        i = i + 1;
        assert(rows@.subrange(0, i as int).drop_last() =~= rows@.subrange(0, i - 1));
    }
    assert(rows@.subrange(0, rows@.len() as int) =~= rows@);
    params
}

/// The parameters of the statement-fingerprint rows: statement, then
/// fingerprint.
pub open spec fn fingerprint_params_of(rows: Seq<(i64, i64)>) -> Seq<i64>
    decreases rows.len(),
{
    if rows.len() == 0 {
        Seq::<i64>::empty()
    } else {
        fingerprint_params_of(rows.drop_last()) + seq![rows.last().0, rows.last().1]
    }
}

/// Flattens statement-fingerprint rows into parameters.
pub fn fingerprint_params(rows: &Vec<(i64, i64)>) -> (params: Vec<i64>)
    ensures
        params@ == fingerprint_params_of(rows@),
        params@.len() == 2 * rows@.len(),
{
    let mut params: Vec<i64> = Vec::new();
    let mut i: usize = 0;
    while i < rows.len()
        invariant
            i <= rows@.len(),
            params@ == fingerprint_params_of(rows@.subrange(0, i as int)),
            params@.len() == 2 * i,
        decreases rows@.len() - i,
    {
        let row = rows[i];
        params.push(row.0);
        params.push(row.1);
        i = i + 1;
        assert(rows@.subrange(0, i as int).drop_last() =~= rows@.subrange(0, i - 1));
    }
    assert(rows@.subrange(0, rows@.len() as int) =~= rows@);
    params
}

/// The six numbers that the store keeps of one occurrence fit its signed
/// 64-bit columns.
pub open spec fn source_fits(src: StatementSource) -> bool {
    &&& src.start_line + src.n_lines <= i64::MAX
    &&& src.start_offset <= i64::MAX
    &&& src.end_offset <= i64::MAX
}

/// The six parameters of one occurrence: document, statement, first line,
/// the line after the last line feed, first offset, end offset.
pub open spec fn source_row(src: StatementSource) -> Seq<i64> {
    seq![
        src.document_id,
        src.statement_id,
        src.start_line as i64,
        (src.start_line + src.n_lines) as i64,
        src.start_offset as i64,
        src.end_offset as i64,
    ]
}

/// The parameters of a run of occurrences.
pub open spec fn source_params_of(sources: Seq<StatementSource>) -> Seq<i64>
    decreases sources.len(),
{
    if sources.len() == 0 {
        Seq::<i64>::empty()
    } else {
        source_params_of(sources.drop_last()) + source_row(sources.last())
    }
}

/// Flattens occurrences into parameters, six to a row. `None` where a line
/// or an offset does not fit the store's signed columns.
pub fn source_params(sources: &Vec<StatementSource>) -> (params: Option<Vec<i64>>)
    ensures
        params is Some <==> forall|i: int|
            0 <= i < sources@.len() ==> source_fits(#[trigger] sources@[i]),
        params matches Some(p) ==> p@ == source_params_of(sources@) && p@.len() == 6
            * sources@.len(),
{
    let mut params: Vec<i64> = Vec::new();
    let mut i: usize = 0;
    while i < sources.len()
        invariant
            i <= sources@.len(),
            params@ == source_params_of(sources@.subrange(0, i as int)),
            params@.len() == 6 * i,
            forall|k: int| 0 <= k < i ==> source_fits(#[trigger] sources@[k]),
        decreases sources@.len() - i,
    {
        let src = &sources[i];
        let limit: u128 = 0x7fff_ffff_ffff_ffff;
        if src.start_line as u128 + src.n_lines as u128 > limit || src.start_offset as u128
            > limit || src.end_offset as u128 > limit {
            return None;
        }
        params.push(src.document_id);
        params.push(src.statement_id);
        params.push(src.start_line as i64);
        params.push((src.start_line as u128 + src.n_lines as u128) as i64);
        params.push(src.start_offset as i64);
        params.push(src.end_offset as i64);
        i = i + 1;
        assert(sources@.subrange(0, i as int).drop_last() =~= sources@.subrange(0, i - 1));
    }
    assert(sources@.subrange(0, sources@.len() as int) =~= sources@);
    Some(params)
}

/// The pairs of document and url that a run of occurrences names.
pub fn document_url_params(sources: &Vec<StatementSource>) -> (pairs: Vec<(i64, i64)>)
    ensures
        pairs@.len() == sources@.len(),
        forall|i: int|
            0 <= i < pairs@.len() ==> #[trigger] pairs@[i] == (
                sources@[i].document_id,
                content_id(encode_utf8(sources@[i].url@)),
            ),
{
    let mut pairs: Vec<(i64, i64)> = Vec::new();
    let mut i: usize = 0;
    while i < sources.len()
        invariant
            i <= sources@.len(),
            pairs@.len() == i,
            forall|k: int|
                0 <= k < pairs@.len() ==> #[trigger] pairs@[k] == (
                    sources@[k].document_id,
                    content_id(encode_utf8(sources@[k].url@)),
                ),
        decreases sources@.len() - i,
    {
        let src = &sources[i];
        pairs.push((src.document_id, src.url_id()));
        i = i + 1;
    }
    pairs
}

/// A source of predictions about statements.
pub struct Oracle {

}

/// One prediction: what an oracle said of a statement.
pub struct Prediction {
    /// Identity of the statement.
    pub statement_id: i64,
    /// Identity of the oracle.
    pub oracle_id: i64,
    /// The language the oracle read the statement in.
    pub language: Language,
    /// The error the oracle raised; empty where it raised none.
    pub err: Seq<char>,
    /// What the oracle had to say.
    pub message: Seq<char>,
}

/// A batch of predictions, kept column by column.
pub struct PredictionSet {
    statement_ids: Vec<i64>,
    oracle_ids: Vec<i64>,
    language_ids: Vec<Language>,
    errs: Vec<String>,
    messages: Vec<String>,
}

/// The predictions that hold a statement valid, and those that hold it
/// invalid.
pub struct Predictions {
    /// Predictions of validity.
    pub valid: PredictionSet,
    /// Predictions of invalidity.
    pub invalid: PredictionSet,
}

/// One parameter of a statement, as the store takes it.
#[derive(Debug, Clone, PartialEq, Eq)]
pub enum SqlValue {
    /// A signed 64-bit integer.
    Integer(i64),
    /// A text.
    Text(String),
    /// A truth value.
    Boolean(bool),
}

impl View for PredictionSet {
    type V = Seq<Prediction>;

    closed spec fn view(&self) -> Seq<Prediction> {
        Seq::new(
            self.statement_ids@.len(),
            |i: int|
                Prediction {
                    statement_id: self.statement_ids@[i],
                    oracle_id: self.oracle_ids@[i],
                    language: self.language_ids@[i],
                    err: self.errs@[i]@,
                    message: self.messages@[i]@,
                },
        )
    }
}

/// The six parameters of one prediction: statement, oracle, the
/// language's number, error, message, and whether the batch is one of
/// validity.
pub open spec fn prediction_row_matches(row: Seq<SqlValue>, p: Prediction, valid: bool) -> bool {
    &&& row.len() == 6
    &&& row[0] == SqlValue::Integer(p.statement_id)
    &&& row[1] == SqlValue::Integer(p.oracle_id)
    &&& row[2] == SqlValue::Integer(p.language.spec_id())
    &&& row[3] matches SqlValue::Text(err) && err@ == p.err
    &&& row[4] matches SqlValue::Text(message) && message@ == p.message
    &&& row[5] == SqlValue::Boolean(valid)
}

impl PredictionSet {
    /// The columns are equally long.
    pub closed spec fn wf(&self) -> bool {
        &&& self.oracle_ids@.len() == self.statement_ids@.len()
        &&& self.language_ids@.len() == self.statement_ids@.len()
        &&& self.errs@.len() == self.statement_ids@.len()
        &&& self.messages@.len() == self.statement_ids@.len()
    }

    /// An empty batch.
    pub fn new() -> (set: PredictionSet)
        ensures
            set.wf(),
            set@ == Seq::<Prediction>::empty(),
    {
        let set = PredictionSet {
            statement_ids: Vec::new(),
            oracle_ids: Vec::new(),
            language_ids: Vec::new(),
            errs: Vec::new(),
            messages: Vec::new(),
        };
        set
    }

    /// An empty batch with room for `n` predictions.
    pub fn with_capacity(n: usize) -> (set: PredictionSet)
        ensures
            set.wf(),
            set@ == Seq::<Prediction>::empty(),
    {
        let set = PredictionSet {
            statement_ids: Vec::with_capacity(n),
            oracle_ids: Vec::with_capacity(n),
            language_ids: Vec::with_capacity(n),
            errs: Vec::with_capacity(n),
            messages: Vec::with_capacity(n),
        };
        set
    }

    /// Adds one prediction at the end of the batch.
    pub fn push(
        &mut self,
        statement_id: i64,
        oracle_id: i64,
        language: Language,
        err: String,
        message: String,
    )
        requires
            old(self).wf(),
        ensures
            final(self).wf(),
            final(self)@ == old(self)@.push(
                Prediction { statement_id, oracle_id, language, err: err@, message: message@ },
            ),
    {
        self.statement_ids.push(statement_id);
        self.oracle_ids.push(oracle_id);
        self.language_ids.push(language);
        self.errs.push(err);
        self.messages.push(message);
    }

    /// The number of predictions in the batch.
    pub fn len(&self) -> (n: usize)
        ensures
            n == self@.len(),
    {
        self.statement_ids.len()
    }

    /// Flattens the batch into parameters, six to a prediction, in the
    /// batch's order.
    pub fn params(&self, valid: bool) -> (params: Vec<SqlValue>)
        requires
            self.wf(),
        ensures
            params@.len() == 6 * self@.len(),
            forall|i: int|
                0 <= i < self@.len() ==> prediction_row_matches(
                    params@.subrange(6 * i, 6 * i + 6),
                    #[trigger] self@[i],
                    valid,
                ),
    {
        let mut params: Vec<SqlValue> = Vec::new();
        let mut i: usize = 0;
        while i < self.statement_ids.len()
            invariant
                self.wf(),
                i <= self@.len(),
                params@.len() == 6 * i,
                forall|k: int|
                    0 <= k < i ==> prediction_row_matches(
                        params@.subrange(6 * k, 6 * k + 6),
                        #[trigger] self@[k],
                        valid,
                    ),
            decreases self@.len() - i,
        {
            params.push(SqlValue::Integer(self.statement_ids[i]));
            params.push(SqlValue::Integer(self.oracle_ids[i]));
            params.push(SqlValue::Integer(self.language_ids[i].id()));
            params.push(SqlValue::Text(self.errs[i].clone()));
            params.push(SqlValue::Text(self.messages[i].clone()));
            params.push(SqlValue::Boolean(valid));
            i = i + 1;
        }
        params
    }
}

} // verus!
