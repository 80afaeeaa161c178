//! Cuts a transcript of the embedded engine's command-line client into its
//! parts: SQL statements, comment lines of the client, and the client's dot
//! directives.
//!
//! A part that starts with `.` or `#` is the client's and runs to the end
//! of its line. Any other part is SQL and runs through the semicolon that
//! ends it, or to the end of the transcript. Semicolons inside quoted text
//! and inside comments end nothing. Blanks between parts belong to no part.

use vstd::prelude::*;
use crate::bytes::{count_newlines_in, newline_count, NEWLINE};
use crate::ingest::{column_of, fragment_statement, line_start};
use crate::language::Language;
use crate::scan::{blank_end, line_end, find_line_end, skip_blank, DASH, DOT};
use crate::splitter::{text_of, Fragment};
use crate::statement::Statement;
use crate::tcl_test::{ParseFailure, HASH, QUOTE, SEMICOLON};

verus! {

/// `'`
pub const APOSTROPHE: u8 = 39;

/// `/`
pub const SLASH: u8 = 47;

/// `*`
pub const STAR: u8 = 42;

/// The parser of client transcripts.
pub struct SqliteCliParser;

/// One move of the cut.
pub enum CliStep {
    /// The transcript is read.
    Done,
    /// The token at `offset` does not close.
    Fail { offset: int },
    /// A part from `start` to `end`.
    Part { language: Language, start: int, end: int },
}

/// Offset of the first line feed at or after `from`; the end of the text
/// where there is none.
pub open spec fn line_stop(s: Seq<u8>, from: int) -> int
    decreases s.len() - from,
{
    if 0 <= from < s.len() && s[from] != NEWLINE {
        line_stop(s, from + 1)
    } else {
        from
    }
}

/// Offset just past the first byte `quote` at or after `from`.
pub open spec fn literal_close(s: Seq<u8>, from: int, quote: u8) -> Option<int>
    decreases s.len() - from,
{
    if from < 0 || from >= s.len() {
        None
    } else if s[from] == quote {
        Some(from + 1)
    } else {
        literal_close(s, from + 1, quote)
    }
}

/// Offset just past the first `*/` at or after `from`.
pub open spec fn comment_close(s: Seq<u8>, from: int) -> Option<int>
    decreases s.len() - from,
{
    if from < 0 || from + 1 >= s.len() {
        None
    } else if s[from] == STAR && s[from + 1] == SLASH {
        Some(from + 2)
    } else {
        comment_close(s, from + 1)
    }
}

/// Where the SQL statement read from `from` on ends: just past its
/// semicolon, or at the end of the text. Quoted text, line comments and
/// block comments are stepped over whole. `Err` holds the offset of a quote
/// or block comment that does not close.
pub open spec fn sql_end(s: Seq<u8>, from: int) -> Result<int, int>
    decreases s.len() - from,
{
    if from < 0 || from >= s.len() {
        Ok(from)
    } else if s[from] == SEMICOLON {
        Ok(from + 1)
    } else if s[from] == APOSTROPHE || s[from] == QUOTE {
        match literal_close(s, from + 1, s[from]) {
            Some(e) => if from < e <= s.len() {
                sql_end(s, e)
            } else {
                Err(from)
            },
            None => Err(from),
        }
    } else if s[from] == DASH && from + 1 < s.len() && s[from + 1] == DASH {
        let e = line_end(s, from);
        if from < e <= s.len() {
            sql_end(s, e)
        } else {
            Ok(from)
        }
    } else if s[from] == SLASH && from + 1 < s.len() && s[from + 1] == STAR {
        match comment_close(s, from + 2) {
            Some(e) => if from < e <= s.len() {
                sql_end(s, e)
            } else {
                Err(from)
            },
            None => Err(from),
        }
    } else {
        sql_end(s, from + 1)
    }
}

/// The cut's move at `pos`.
pub open spec fn cli_step(s: Seq<u8>, pos: int) -> CliStep {
    let p = blank_end(s, pos);
    if p < 0 || p >= s.len() {
        CliStep::Done
    } else if s[p] == DOT || s[p] == HASH {
        CliStep::Part { language: Language::Sqlite3Cli, start: p, end: line_stop(s, p) }
    } else {
        match sql_end(s, p) {
            Ok(e) => CliStep::Part { language: Language::Sqlite3, start: p, end: e },
            Err(offset) => CliStep::Fail { offset },
        }
    }
}

/// The parts of a transcript from `pos` on, in order, as ranges of the
/// transcript; `first_line` is the line on which the transcript begins. `Err`
/// holds the offset of the token that does not close.
pub open spec fn parts_from(s: Seq<u8>, pos: int, first_line: int) -> Result<Seq<Fragment>, int>
    decreases s.len() - pos,
{
    match cli_step(s, pos) {
        CliStep::Done => Ok(Seq::<Fragment>::empty()),
        CliStep::Fail { offset } => Err(offset),
        CliStep::Part { language, start, end } => if pos <= start < end <= s.len() {
            match parts_from(s, end, first_line) {
                Ok(rest) => Ok(
                    seq![
                        Fragment {
                            language,
                            start_line: (first_line + newline_count(s.subrange(0, start))) as usize,
                            start_offset: start as usize,
                            end_offset: end as usize,
                        },
                    ] + rest,
                ),
                Err(offset) => Err(offset),
            }
        } else {
            Ok(Seq::<Fragment>::empty())
        },
    }
}

/// The parts of a transcript that begins on line `first_line`, or the place
/// of the token that does not close.
pub open spec fn parts_of(s: Seq<u8>, first_line: int) -> Result<Seq<Fragment>, ParseFailure> {
    match parts_from(s, 0, first_line) {
        Ok(parts) => Ok(parts),
        Err(offset) => Err(
            ParseFailure {
                line: (first_line + newline_count(s.subrange(0, offset))) as usize,
                column: (offset - line_start(s, offset) + 1) as usize,
            },
        ),
    }
}

/// Finds the line feed that ends the line of `from`.
fn find_line_stop(text: &[u8], from: usize) -> (to: usize)
    requires
        from <= text@.len(),
    ensures
        to == line_stop(text@, from as int),
        from <= to <= text@.len(),
{
    let mut i: usize = from;
    while i < text.len() && text[i] != NEWLINE
        invariant
            from <= i <= text@.len(),
            line_stop(text@, i as int) == line_stop(text@, from as int),
        decreases text@.len() - i,
    {
        i = i + 1;
    }
    i
}

/// Finds the byte that closes quoted text.
fn find_literal_close(text: &[u8], from: usize, quote: u8) -> (end: Option<usize>)
    requires
        from <= text@.len(),
    ensures
        end matches Some(e) ==> literal_close(text@, from as int, quote) == Some(e as int) && from
            < e <= text@.len(),
        end is None ==> literal_close(text@, from as int, quote) is None,
{
    let mut i: usize = from;
    while i < text.len()
        invariant
            from <= i <= text@.len(),
            literal_close(text@, i as int, quote) == literal_close(text@, from as int, quote),
        decreases text@.len() - i,
    {
        if text[i] == quote {
            return Some(i + 1);
        }
        i = i + 1;
    }
    None
}

/// Finds the end of a block comment.
fn find_comment_close(text: &[u8], from: usize) -> (end: Option<usize>)
    requires
        from <= text@.len(),
    ensures
        end matches Some(e) ==> comment_close(text@, from as int) == Some(e as int) && from < e
            <= text@.len(),
        end is None ==> comment_close(text@, from as int) is None,
{
    let mut i: usize = from;
    while text.len() - i >= 2
        invariant
            from <= i <= text@.len(),
            comment_close(text@, i as int) == comment_close(text@, from as int),
        decreases text@.len() - i,
    {
        if text[i] == STAR && text[i + 1] == SLASH {
            return Some(i + 2);
        }
        i = i + 1;
    }
    None
}

/// Finds the end of the SQL statement that starts at `from`.
fn find_sql_end(text: &[u8], from: usize) -> (r: Result<usize, usize>)
    requires
        from < text@.len(),
    ensures
        match sql_end(text@, from as int) {
            Ok(e) => r matches Ok(end) && end == e && from < end <= text@.len(),
            Err(o) => r matches Err(offset) && offset == o && from <= offset < text@.len(),
        },
{
    let mut i: usize = from;
    while i < text.len()
        invariant
            from <= i <= text@.len(),
            i == from ==> from < text@.len(),
            sql_end(text@, i as int) == sql_end(text@, from as int),
        decreases text@.len() - i,
    {
        let b = text[i];
        if b == SEMICOLON {
            return Ok(i + 1);
        } else if b == APOSTROPHE || b == QUOTE {
            match find_literal_close(text, i + 1, b) {
                Some(e) => {
                    i = e;
                },
                None => {
                    return Err(i);
                },
            }
        } else if b == DASH && text.len() - i >= 2 && text[i + 1] == DASH {
            i = find_line_end(text, i);
        } else if b == SLASH && text.len() - i >= 2 && text[i + 1] == STAR {
            match find_comment_close(text, i + 2) {
                Some(e) => {
                    i = e;
                },
                None => {
                    return Err(i);
                },
            }
        } else {
            i = i + 1;
        }
    }
    Ok(i)
}

impl SqliteCliParser {
    /// Cuts a transcript into its parts, in order. `first_line` is the line
    /// on which the transcript begins in the document it is taken from; each
    /// part carries the line on which it starts in that document. Fails with
    /// the place of the first quote or block comment that does not close.
    pub fn parse(sql: &[u8], first_line: usize) -> (r: Result<Vec<Fragment>, ParseFailure>)
        requires
            first_line + sql@.len() <= usize::MAX,
        ensures
            match parts_of(sql@, first_line as int) {
                Ok(parts) => r matches Ok(v) && v@ == parts,
                Err(failure) => r == Err::<Vec<Fragment>, ParseFailure>(failure),
            },
            r matches Ok(v) ==> forall|i: int|
                0 <= i < v@.len() ==> (#[trigger] v@[i]).start_offset < v@[i].end_offset
                    <= sql@.len(),
    {
        let mut parts: Vec<Fragment> = Vec::new();
        let mut pos: usize = 0;
        loop
            invariant
                pos <= sql@.len(),
                first_line + sql@.len() <= usize::MAX,
                forall|i: int|
                    0 <= i < parts@.len() ==> (#[trigger] parts@[i]).start_offset
                        < parts@[i].end_offset <= sql@.len(),
                match parts_from(sql@, pos as int, first_line as int) {
                    Ok(rest) => parts_from(sql@, 0, first_line as int) == Ok::<
                        Seq<Fragment>,
                        int,
                    >(parts@ + rest),
                    Err(offset) => parts_from(sql@, 0, first_line as int) == Err::<
                        Seq<Fragment>,
                        int,
                    >(offset),
                },
            decreases sql@.len() - pos,
        {
            let ghost before = parts@;
            let p = skip_blank(sql, pos);
            if p >= sql.len() {
                return Ok(parts);
            }
            let b = sql[p];
            let (language, end) = if b == DOT || b == HASH {
                (Language::Sqlite3Cli, find_line_stop(sql, p + 1))
            } else {
                match find_sql_end(sql, p) {
                    Ok(e) => (Language::Sqlite3, e),
                    Err(offset) => {
                        return Err(
                            ParseFailure {
                                line: first_line + count_newlines_in(sql, 0, offset),
                                column: column_of(sql, offset),
                            },
                        );
                    },
                }
            };
            let piece = Fragment {
                language,
                start_line: first_line + count_newlines_in(sql, 0, p),
                start_offset: p,
                end_offset: end,
            };
            parts.push(piece);
            proof {
                match parts_from(sql@, end as int, first_line as int) {
                    Ok(rest) => {
                        assert(parts@ + rest =~= before + (seq![piece] + rest));
                    },
                    Err(_) => {},
                }
            }
            pos = end;
        }
    }
}

/// Cuts a transcript into statements: SQL is tagged as the embedded
/// engine's, comment lines and dot directives as its client's. Each
/// statement's text is the part's bytes, and its identity is the text's.
pub fn split(sql: &[u8], document_id: i64, start_line: usize) -> (r: Result<
    Vec<Statement>,
    ParseFailure,
>)
    requires
        start_line + sql@.len() <= usize::MAX,
    ensures
        match parts_of(sql@, start_line as int) {
            Ok(parts) => r matches Ok(v) && v@.len() == parts.len() && forall|i: int|
                0 <= i < v@.len() ==> {
                    &&& (#[trigger] v@[i]).wf()
                    &&& v@[i].text@ == text_of(sql@, parts[i])
                    &&& v@[i].language == parts[i].language
                    &&& v@[i].document_id == document_id
                },
            Err(failure) => r == Err::<Vec<Statement>, ParseFailure>(failure),
        },
{
    match SqliteCliParser::parse(sql, start_line) {
        Err(failure) => Err(failure),
        Ok(parts) => {
            let mut out: Vec<Statement> = Vec::new();
            let mut i: usize = 0;
            while i < parts.len()
                invariant
                    i <= parts@.len(),
                    out@.len() == i,
                    forall|k: int|
                        0 <= k < parts@.len() ==> (#[trigger] parts@[k]).start_offset
                            < parts@[k].end_offset <= sql@.len(),
                    forall|k: int|
                        0 <= k < out@.len() ==> {
                            &&& (#[trigger] out@[k]).wf()
                            &&& out@[k].text@ == text_of(sql@, parts@[k])
                            &&& out@[k].language == parts@[k].language
                            &&& out@[k].document_id == document_id
                        },
                decreases parts@.len() - i,
            {
                let piece = parts[i];
                out.push(fragment_statement(sql, &piece, document_id));
                i = i + 1;
            }
            Ok(out)
        },
    }
}

} // verus!
