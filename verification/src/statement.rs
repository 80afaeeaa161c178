//! Statements and the records of where they were found.

use vstd::prelude::*;
use vstd::utf8::encode_utf8;
use crate::bytes::{count_newlines, newline_count};
use crate::identity::{content_hash, content_id, digest_of, to_signed, xxh3_digest};
use crate::language::Language;

verus! {

/// One atomic statement of the corpus. Its identity is its text's.
#[derive(Clone, Debug)]
pub struct Statement {
    /// The statement's bytes, with the semicolon or line feed that ends it.
    pub text: Vec<u8>,
    /// Identity of the document the statement was first seen in.
    pub document_id: i64,
    /// Identity of `text`.
    pub id: i64,
    /// The dialect of the statement.
    pub language: Language,
    /// Line feeds inside `text`.
    pub n_lines: usize,
}

/// Where one occurrence of a statement lies in a document.
#[derive(Clone, Debug)]
pub struct StatementSource {
    /// Identity of the statement.
    pub statement_id: i64,
    /// Line on which the occurrence begins, counted from 1.
    pub start_line: usize,
    /// Line feeds inside the occurrence; can be 0.
    pub n_lines: usize,
    /// Offset of the first byte, counted from 0.
    pub start_offset: usize,
    /// Offset one past the last byte.
    pub end_offset: usize,
    /// Identity of the document.
    pub document_id: i64,
    /// Locator under which the document was found.
    pub url: String,
}

impl Statement {
    /// The derived fields agree with the text.
    pub open spec fn wf(&self) -> bool {
        &&& self.id == content_id(self.text@)
        &&& self.n_lines == newline_count(self.text@)
    }

    /// A statement of the given text.
    pub fn new(text: Vec<u8>, language: Language, document_id: i64) -> (s: Statement)
        ensures
            s.wf(),
            s.text@ == text@,
            s.language == language,
            s.document_id == document_id,
    {
        let n_lines = count_newlines(text.as_slice());
        let id = content_hash(text.as_slice());
        Statement { text, document_id, id, language, n_lines }
    }

    /// The unsigned digest of the text as it stands.
    pub fn digest(&self) -> (d: u64)
        ensures
            d == xxh3_digest(self.text@),
    {
        digest_of(self.text.as_slice())
    }

    /// Brings `id` back in line with the text, and hands the statement back.
    pub fn derive_id(&mut self) -> (updated: &mut Statement)
        ensures
            updated.id == content_id(old(self).text@),
            updated.text == old(self).text,
            updated.document_id == old(self).document_id,
            updated.language == old(self).language,
            updated.n_lines == old(self).n_lines,
            *final(self) == *final(updated),
    {
        self.id = to_signed(self.digest());
        self
    }

    /// Appends `text`, retags the statement and recomputes what is derived
    /// from the text; hands the statement back.
    pub fn update(&mut self, text: &[u8], language: Language) -> (updated: &mut Statement)
        ensures
            updated.wf(),
            updated.text@ == old(self).text@ + text@,
            updated.language == language,
            updated.document_id == old(self).document_id,
            *final(self) == *final(updated),
    {
        self.language = language;
        self.text.extend_from_slice(text);
        self.n_lines = count_newlines(self.text.as_slice());
        self.derive_id()
    }

    /// The record of this statement occurring at `start_offset`, on line
    /// `start_line`, in the document found under `url`.
    pub fn with_source(&self, url: &str, start_line: usize, start_offset: usize) -> (src:
        StatementSource)
        requires
            start_offset + self.text@.len() <= usize::MAX,
        ensures
            src.statement_id == self.id,
            src.document_id == self.document_id,
            src.url@ == url@,
            src.start_line == start_line,
            src.n_lines == self.n_lines,
            src.start_offset == start_offset,
            src.end_offset == start_offset + self.text@.len(),
    {
        StatementSource {
            statement_id: self.id,
            url: url.to_owned(),
            document_id: self.document_id,
            start_line,
            start_offset,
            end_offset: start_offset + self.text.len(),
            n_lines: self.n_lines,
        }
    }
}

impl StatementSource {
    /// The span's length is the text's, and its lines are the text's.
    pub open spec fn describes(&self, text: Seq<u8>) -> bool {
        &&& self.end_offset - self.start_offset == text.len()
        &&& self.n_lines == newline_count(text)
        &&& self.statement_id == content_id(text)
    }

    /// Identity of the url.
    pub fn url_id(&self) -> (id: i64)
        ensures
            id == content_id(encode_utf8(self.url@)),
    {
        content_hash(self.url.as_str().as_bytes())
    }
}

/// Statements with the same bytes have the same identity.
pub proof fn lemma_identity_is_content(a: Statement, b: Statement)
    requires
        a.wf(),
        b.wf(),
        a.text@ == b.text@,
    ensures
        a.id == b.id,
        a.n_lines == b.n_lines,
{
}

} // verus!
