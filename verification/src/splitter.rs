//! Cuts one document into statements.
//!
//! The cutter is a state machine. It owns the document and a cursor, and it
//! decides by itself what to do with meta-commands, conditional regions,
//! line comments between statements and copy-in payloads. What it cannot decide is
//! where an ordinary SQL statement ends: for that it asks a statement
//! recogniser, which lives outside this crate. The caller runs the loop:
//! while [`Splitter::pending`] names an offset, it applies the recogniser to
//! the text from that offset on and reports the outcome to
//! [`Splitter::advance`].
//!
//! Fragments are ranges of the document. They never overlap and leave no
//! gap, so joined in order they give the document back.

use vstd::prelude::*;
use vstd::slice::slice_subrange;
use crate::bytes::{
    count_newlines_in,
    lemma_newline_count_bound,
    lemma_newline_count_split,
    newline_count,
};
use crate::language::Language;
use crate::scan::{
    asks_for_payload,
    blank_end,
    comment_run_end,
    control_of,
    control_word,
    directive_end,
    expects_payload,
    find_directive_end,
    find_line_end,
    find_payload_end,
    leading_comment_len,
    line_end,
    meta_at,
    meta_head,
    payload_end,
    skip_word,
    word_end,
    Control,
};

verus! {

/// Why a document could not be cut.
#[derive(Debug, Clone, Copy, PartialEq, Eq, Structural)]
pub enum SplitFailure {
    /// The recogniser found no statement at `offset`, or claimed more bytes
    /// than the document has left.
    NoProgress { offset: usize },
    /// The control-flow directive at `offset` has no partner; for a region
    /// left open, `offset` is the end of the document.
    Unbalanced { offset: usize },
}

/// One statement as a range of the document.
#[derive(Debug, Clone, Copy, PartialEq, Eq, Structural)]
pub struct Fragment {
    /// Plain SQL, or interactive-session syntax.
    pub language: Language,
    /// Line on which the fragment begins, counted from 1.
    pub start_line: usize,
    /// Offset of the first byte.
    pub start_offset: usize,
    /// Offset one past the last byte.
    pub end_offset: usize,
}

/// What the cutter knows between two steps.
pub struct SplitState {
    /// Everything before this offset belongs to a fragment.
    pub cursor: int,
    /// The fragments so far, in document order.
    pub pieces: Seq<Fragment>,
    /// The conditional regions that are open, innermost last; an entry is
    /// true once the region's `\else` was seen.
    pub open: Seq<bool>,
    /// Set once the document is given up.
    pub failure: Option<SplitFailure>,
}

/// The line on which `offset` lies, counted from 1.
pub open spec fn line_at(doc: Seq<u8>, offset: int) -> int {
    1 + newline_count(doc.subrange(0, offset)) as int
}

/// The bytes of a fragment.
pub open spec fn text_of(doc: Seq<u8>, piece: Fragment) -> Seq<u8> {
    doc.subrange(piece.start_offset as int, piece.end_offset as int)
}

/// The fragments' bytes, joined in order.
pub open spec fn joined_text(doc: Seq<u8>, pieces: Seq<Fragment>) -> Seq<u8>
    decreases pieces.len(),
{
    if pieces.len() == 0 {
        Seq::<u8>::empty()
    } else {
        joined_text(doc, pieces.drop_last()) + text_of(doc, pieces.last())
    }
}

/// The fragments cover the document up to `upto`: none is empty, the last
/// ends at `upto`, and the ones before it cover the document up to where
/// the last begins. So the first starts at 0 and each starts where the one
/// before it ends.
pub open spec fn covers(pieces: Seq<Fragment>, upto: int) -> bool
    decreases pieces.len(),
{
    if pieces.len() == 0 {
        upto == 0
    } else {
        &&& pieces.last().start_offset < pieces.last().end_offset
        &&& pieces.last().end_offset == upto
        &&& covers(pieces.drop_last(), pieces.last().start_offset as int)
    }
}

/// Each fragment's start line is the line its first byte lies on.
pub open spec fn lines_agree(doc: Seq<u8>, pieces: Seq<Fragment>) -> bool {
    forall|i: int|
        0 <= i < pieces.len() ==> (#[trigger] pieces[i]).start_line == line_at(
            doc,
            pieces[i].start_offset as int,
        )
}

/// Each fragment is tagged as plain SQL or as interactive-session syntax.
pub open spec fn tags_agree(pieces: Seq<Fragment>) -> bool {
    forall|i: int|
        0 <= i < pieces.len() ==> (#[trigger] pieces[i]).language == Language::PgSql || pieces[i].language
            == Language::Psql
}

impl SplitState {
    /// The state before anything was read.
    pub open spec fn start() -> SplitState {
        SplitState {
            cursor: 0,
            pieces: Seq::<Fragment>::empty(),
            open: Seq::<bool>::empty(),
            failure: None,
        }
    }

    /// The recogniser has to be asked at the cursor.
    pub open spec fn pending(self, doc: Seq<u8>) -> bool {
        self.failure is None && self.cursor < doc.len()
    }

    /// The bytes from the cursor to `to` become a fragment of their own.
    pub open spec fn push(self, doc: Seq<u8>, to: int, language: Language) -> SplitState {
        SplitState {
            cursor: to,
            pieces: self.pieces.push(
                Fragment {
                    language,
                    start_line: line_at(doc, self.cursor) as usize,
                    start_offset: self.cursor as usize,
                    end_offset: to as usize,
                },
            ),
            ..self
        }
    }

    /// The bytes from the cursor to `to` join the last fragment, which is
    /// tagged `language`.
    pub open spec fn extend(self, to: int, language: Language) -> SplitState {
        SplitState {
            cursor: to,
            pieces: self.pieces.update(
                self.pieces.len() - 1,
                Fragment { language, end_offset: to as usize, ..self.pieces.last() },
            ),
            ..self
        }
    }

    /// Inside a region the bytes join the region's fragment; outside they
    /// become an interactive-session fragment.
    pub open spec fn take_meta(self, doc: Seq<u8>, to: int) -> SplitState {
        if self.open.len() > 0 {
            self.extend(to, Language::Psql)
        } else {
            self.push(doc, to, Language::Psql)
        }
    }

    /// The document is given up.
    pub open spec fn fail(self, failure: SplitFailure) -> SplitState {
        SplitState { failure: Some(failure), ..self }
    }

    /// The last fragment is a plain statement that asks for a payload, and
    /// a marker line ends one at the cursor.
    pub open spec fn payload_ahead(self, doc: Seq<u8>) -> bool {
        &&& self.open.len() == 0
        &&& self.pieces.len() > 0
        &&& self.pieces.last().language == Language::PgSql
        &&& expects_payload(text_of(doc, self.pieces.last()))
        &&& payload_end(doc, self.cursor) is Some
    }

    /// How many bytes of whole line comments lie at the cursor for the
    /// fragment before them to take; 0 inside a region and before the first
    /// fragment.
    pub open spec fn comments_ahead(self, doc: Seq<u8>) -> int {
        if self.open.len() == 0 && self.pieces.len() > 0 {
            comment_run_end(doc.subrange(self.cursor, doc.len() as int), 0)
        } else {
            0
        }
    }

    /// The state is consistent with the document.
    pub open spec fn wf(self, doc: Seq<u8>) -> bool {
        &&& 0 <= self.cursor <= doc.len()
        &&& covers(self.pieces, self.cursor)
        &&& lines_agree(doc, self.pieces)
        &&& tags_agree(self.pieces)
        &&& self.open.len() > 0 ==> self.pieces.len() > 0 && self.pieces.last().language
            == Language::Psql
    }
}

/// What a control-flow directive does to the state. The directive's
/// backslash is at `q`, its arguments end at `e`.
pub open spec fn take_control(doc: Seq<u8>, st: SplitState, c: Control, q: int, e: int)
    -> SplitState {
    match c {
        Control::If => SplitState { open: st.open.push(false), ..st.take_meta(doc, e) },
        Control::Elif => if st.open.len() > 0 && !st.open.last() {
            st.extend(e, Language::Psql)
        } else {
            st.fail(SplitFailure::Unbalanced { offset: q as usize })
        },
        Control::Else => if st.open.len() > 0 && !st.open.last() {
            SplitState {
                open: st.open.update(st.open.len() - 1, true),
                ..st.extend(e, Language::Psql)
            }
        } else {
            st.fail(SplitFailure::Unbalanced { offset: q as usize })
        },
        Control::Endif => if st.open.len() > 0 {
            SplitState { open: st.open.drop_last(), ..st.extend(e, Language::Psql) }
        } else {
            st.fail(SplitFailure::Unbalanced { offset: q as usize })
        },
    }
}

/// One thing the cutter does without the recogniser, if there is one to do:
///
/// - after a plain statement that asks for a payload, the lines up to and
///   with the marker line join that statement, which becomes
///   interactive-session syntax;
/// - whole line comments at the cursor join the fragment before them: they
///   speak of the statement above, not of the one below;
/// - a control-flow directive opens, continues or closes a conditional
///   region, and a region is one fragment from its `\if` to its `\endif`;
/// - any other meta-command takes the rest of its line and is a fragment of
///   its own, unless a region is open.
pub open spec fn settle_step(doc: Seq<u8>, st: SplitState) -> Option<SplitState> {
    if !st.pending(doc) {
        None
    } else if st.payload_ahead(doc) {
        Some(st.extend(payload_end(doc, st.cursor)->0, Language::Psql))
    } else if st.comments_ahead(doc) > 0 {
        Some(st.extend(st.cursor + st.comments_ahead(doc), st.pieces.last().language))
    } else if meta_at(doc, st.cursor) {
        let q = blank_end(doc, st.cursor);
        let w = word_end(doc, q + 1);
        match control_of(doc.subrange(q + 1, w)) {
            Some(c) => Some(take_control(doc, st, c, q, directive_end(doc, w))),
            None => Some(st.take_meta(doc, line_end(doc, q))),
        }
    } else {
        None
    }
}

/// Everything the cutter does without the recogniser, from `st` on.
pub open spec fn settle(doc: Seq<u8>, st: SplitState) -> SplitState
    decreases doc.len() - st.cursor,
{
    match settle_step(doc, st) {
        None => st,
        Some(next) => if next.failure is None && st.cursor < next.cursor <= doc.len() {
            settle(doc, next)
        } else {
            next
        },
    }
}

/// The recogniser found a statement of `n` bytes at the cursor. Inside a
/// region it joins the region; elsewhere it is a plain fragment.
pub open spec fn accept(doc: Seq<u8>, st: SplitState, n: int) -> SplitState {
    if st.open.len() > 0 {
        st.extend(st.cursor + n, Language::Psql)
    } else {
        st.push(doc, st.cursor + n, Language::PgSql)
    }
}

/// The state after the recogniser's outcome at the cursor: `Some(n)` for a
/// statement of `n` bytes, `None` where it found none. An outcome that makes
/// no progress, or claims more than is left, gives the document up.
pub open spec fn advance(doc: Seq<u8>, st: SplitState, outcome: Option<usize>) -> SplitState {
    if !st.pending(doc) {
        st
    } else {
        match outcome {
            Some(n) => if 0 < n && n <= doc.len() - st.cursor {
                settle(doc, accept(doc, st, n as int))
            } else {
                st.fail(SplitFailure::NoProgress { offset: st.cursor as usize })
            },
            None => st.fail(SplitFailure::NoProgress { offset: st.cursor as usize }),
        }
    }
}

/// The state after a run of outcomes, each reported while one is pending.
pub open spec fn replay(doc: Seq<u8>, st: SplitState, outcomes: Seq<Option<usize>>) -> SplitState
    decreases outcomes.len(),
{
    if outcomes.len() == 0 || !st.pending(doc) {
        st
    } else {
        replay(doc, advance(doc, st, outcomes[0]), outcomes.drop_first())
    }
}

/// What a finished run amounts to: the fragments, or the reason why there
/// are none. A run that stopped short of the document's end, or inside a
/// region, is a failure.
pub open spec fn outcome_of(doc: Seq<u8>, st: SplitState) -> Result<Seq<Fragment>, SplitFailure> {
    match st.failure {
        Some(f) => Err(f),
        None => if st.cursor < doc.len() {
            Err(SplitFailure::NoProgress { offset: st.cursor as usize })
        } else if st.open.len() > 0 {
            Err(SplitFailure::Unbalanced { offset: doc.len() as usize })
        } else {
            Ok(st.pieces)
        },
    }
}

/// Fragments that cover a text up to `upto` give, joined, the text up to
/// `upto`.
pub proof fn lemma_joined_is_prefix(doc: Seq<u8>, pieces: Seq<Fragment>, upto: int)
    requires
        covers(pieces, upto),
        0 <= upto <= doc.len(),
    ensures
        joined_text(doc, pieces) == doc.subrange(0, upto),
    decreases pieces.len(),
{
    if pieces.len() > 0 {
        lemma_joined_is_prefix(doc, pieces.drop_last(), pieces.last().start_offset as int);
    }
}

/// The round trip: fragments that cover a whole document give, joined in
/// order, the document.
pub proof fn lemma_round_trip(doc: Seq<u8>, pieces: Seq<Fragment>)
    requires
        covers(pieces, doc.len() as int),
    ensures
        joined_text(doc, pieces) == doc,
{
    lemma_joined_is_prefix(doc, pieces, doc.len() as int);
}

/// In fragments that cover a text up to `upto`, each span lies inside the
/// text, is as long as the fragment's bytes, and ends where the next
/// fragment begins.
pub proof fn lemma_spans(doc: Seq<u8>, pieces: Seq<Fragment>, upto: int, i: int)
    requires
        covers(pieces, upto),
        0 <= upto <= doc.len(),
        0 <= i < pieces.len(),
    ensures
        0 <= pieces[i].start_offset < pieces[i].end_offset <= upto,
        pieces[i].end_offset - pieces[i].start_offset == text_of(doc, pieces[i]).len(),
        i == 0 ==> pieces[i].start_offset == 0,
        i + 1 < pieces.len() ==> pieces[i].end_offset == pieces[i + 1].start_offset,
        i + 1 == pieces.len() ==> pieces[i].end_offset == upto,
    decreases pieces.len(),
{
    let rest = pieces.drop_last();
    let last = pieces.last();
    if i < pieces.len() - 1 {
        lemma_spans(doc, rest, last.start_offset as int, i);
    } else if rest.len() == 0 {
        assert(covers(rest, last.start_offset as int));
    }
}

/// Bytes that join a fragment are appended to its text.
pub proof fn lemma_extend_appends(doc: Seq<u8>, st: SplitState, to: int, language: Language)
    requires
        st.wf(doc),
        st.pieces.len() > 0,
        st.cursor <= to <= doc.len() <= usize::MAX,
    ensures
        text_of(doc, st.extend(to, language).pieces.last()) == text_of(doc, st.pieces.last())
            + doc.subrange(st.cursor, to),
        st.extend(to, language).pieces.drop_last() == st.pieces.drop_last(),
{
}

/// While a conditional region is open nothing is cut: whatever the cutter
/// does by itself, and whatever statement the recogniser finds, the number
/// of fragments stays as it is. So a region is never split between its
/// `\if` and its `\endif`.
pub proof fn lemma_region_stays_whole(doc: Seq<u8>, st: SplitState, n: int)
    requires
        st.wf(doc),
        st.open.len() > 0,
    ensures
        settle_step(doc, st) matches Some(next) ==> next.pieces.len() == st.pieces.len(),
        accept(doc, st, n).pieces.len() == st.pieces.len(),
{
}

/// Outside any region, a meta-command that is no control-flow directive is
/// a fragment of its own: it starts at the cursor, takes the rest of the
/// command's line and is interactive-session syntax. The fragments before
/// it stay as they are.
pub proof fn lemma_meta_command_is_isolated(doc: Seq<u8>, st: SplitState)
    requires
        st.wf(doc),
        st.pending(doc),
        st.open.len() == 0,
        !st.payload_ahead(doc),
        st.comments_ahead(doc) <= 0,
        meta_at(doc, st.cursor),
        control_of(
            doc.subrange(
                blank_end(doc, st.cursor) + 1,
                word_end(doc, blank_end(doc, st.cursor) + 1),
            ),
        ) is None,
    ensures
        settle_step(doc, st) matches Some(next) && next.pieces.drop_last() == st.pieces
            && next.pieces.last() == (Fragment {
            language: Language::Psql,
            start_line: line_at(doc, st.cursor) as usize,
            start_offset: st.cursor as usize,
            end_offset: line_end(doc, blank_end(doc, st.cursor)) as usize,
        }),
{
}

/// A control-flow directive never makes a fragment of its own, but for the
/// `\if` that opens an outermost region: `\elif`, `\else` and `\endif`
/// join the region they belong to, or give the document up.
pub proof fn lemma_control_flow_is_never_isolated(
    doc: Seq<u8>,
    st: SplitState,
    c: Control,
    q: int,
    e: int,
)
    requires
        st.wf(doc),
        c != Control::If || st.open.len() > 0,
    ensures
        take_control(doc, st, c, q, e).pieces.len() == st.pieces.len(),
        take_control(doc, st, c, q, e).failure is None ==> st.open.len() > 0,
{
}

/// A run that yields fragments has read the whole document and has left
/// no region open: a region whose `\endif` is missing is a failure, never a
/// fragment.
pub proof fn lemma_finished_run_is_balanced(doc: Seq<u8>, st: SplitState)
    requires
        st.wf(doc),
        outcome_of(doc, st) is Ok,
    ensures
        st.open.len() == 0,
        st.cursor == doc.len(),
        st.failure is None,
        outcome_of(doc, st) == Ok::<Seq<Fragment>, SplitFailure>(st.pieces),
{
}

/// The cutter: a document, a cursor and the fragments cut so far.
pub struct Splitter {
    doc: Vec<u8>,
    cursor: usize,
    newlines: usize,
    fragments: Vec<Fragment>,
    open: Vec<bool>,
    failure: Option<SplitFailure>,
}

impl View for Splitter {
    type V = SplitState;

    closed spec fn view(&self) -> SplitState {
        SplitState {
            cursor: self.cursor as int,
            pieces: self.fragments@,
            open: self.open@,
            failure: self.failure,
        }
    }
}

impl Splitter {
    /// The document being cut.
    pub closed spec fn doc(&self) -> Seq<u8> {
        self.doc@
    }

    /// The cutter is consistent.
    pub closed spec fn wf(&self) -> bool {
        &&& self@.wf(self.doc@)
        &&& self.newlines == newline_count(self.doc@.subrange(0, self.cursor as int))
    }

    /// A consistent cutter's state is consistent with its document.
    pub proof fn lemma_wf(&self)
        requires
            self.wf(),
        ensures
            self@.wf(self.doc()),
    {
    }

    /// Takes a document and does what can be done before the recogniser is
    /// first needed.
    pub fn new(doc: Vec<u8>) -> (s: Splitter)
        ensures
            s.wf(),
            s.doc() == doc@,
            s@ == settle(doc@, SplitState::start()),
    {
        let mut s = Splitter {
            doc,
            cursor: 0,
            newlines: 0,
            fragments: Vec::new(),
            open: Vec::new(),
            failure: None,
        };
        s.settle();
        s
    }

    /// The offset at which the recogniser has to be applied next; `None`
    /// once the document is cut or given up.
    pub fn pending(&self) -> (at: Option<usize>)
        requires
            self.wf(),
        ensures
            at == if self@.pending(self.doc()) {
                Some(self@.cursor as usize)
            } else {
                None
            },
    {
        if self.failure.is_none() && self.cursor < self.doc.len() {
            Some(self.cursor)
        } else {
            None
        }
    }

    /// The text from the cursor on: what the recogniser is applied to.
    pub fn remaining(&self) -> (rest: &[u8])
        requires
            self.wf(),
        ensures
            rest@ == self.doc().subrange(self@.cursor, self.doc().len() as int),
    {
        slice_subrange(self.doc.as_slice(), self.cursor, self.doc.len())
    }

    /// The bytes from the cursor to `to` become a fragment of their own.
    fn push_fragment(&mut self, to: usize, language: Language)
        requires
            old(self).wf(),
            old(self).cursor < to <= old(self).doc@.len(),
            old(self).open@.len() == 0,
            language == Language::PgSql || language == Language::Psql,
        ensures
            final(self).wf(),
            final(self).doc@ == old(self).doc@,
            final(self)@ == old(self)@.push(old(self).doc@, to as int, language),
    {
        proof {
            lemma_newline_count_bound(self.doc@.subrange(0, self.cursor as int));
            lemma_newline_count_split(self.doc@, 0, self.cursor as int, to as int);
        }
        let ghost before = self.fragments@;
        let piece = Fragment {
            language,
            start_line: self.newlines + 1,
            start_offset: self.cursor,
            end_offset: to,
        };
        let grown = count_newlines_in(self.doc.as_slice(), self.cursor, to);
        self.fragments.push(piece);
        self.newlines = self.newlines + grown;
        self.cursor = to;
        assert(self.fragments@.drop_last() =~= before);
    }

    /// The bytes from the cursor to `to` join the last fragment.
    fn extend_last(&mut self, to: usize, language: Language)
        requires
            old(self).wf(),
            old(self).cursor < to <= old(self).doc@.len(),
            old(self).fragments@.len() > 0,
            old(self).open@.len() > 0 ==> language == Language::Psql,
            language == Language::PgSql || language == Language::Psql,
        ensures
            final(self).wf(),
            final(self).doc@ == old(self).doc@,
            final(self)@ == old(self)@.extend(to as int, language),
    {
        proof {
            lemma_newline_count_bound(self.doc@.subrange(0, to as int));
            lemma_newline_count_split(self.doc@, 0, self.cursor as int, to as int);
        }
        let ghost before = self.fragments@;
        let last = self.fragments.len() - 1;
        let piece = Fragment { language, end_offset: to, ..self.fragments[last] };
        let grown = count_newlines_in(self.doc.as_slice(), self.cursor, to);
        self.fragments.set(last, piece);
        self.newlines = self.newlines + grown;
        self.cursor = to;
        assert(self.fragments@.drop_last() =~= before.drop_last());
    }

    /// Inside a region the bytes join it; outside they become a fragment.
    fn take_meta(&mut self, to: usize)
        requires
            old(self).wf(),
            old(self).cursor < to <= old(self).doc@.len(),
        ensures
            final(self).wf(),
            final(self).doc@ == old(self).doc@,
            final(self)@ == old(self)@.take_meta(old(self).doc@, to as int),
            final(self).fragments@.len() > 0,
            final(self).fragments@.last().language == Language::Psql,
    {
        if self.open.len() > 0 {
            self.extend_last(to, Language::Psql);
        } else {
            self.push_fragment(to, Language::Psql);
        }
    }

    /// Gives the document up.
    fn give_up(&mut self, failure: SplitFailure)
        requires
            old(self).wf(),
        ensures
            final(self).wf(),
            final(self).doc@ == old(self).doc@,
            final(self)@ == old(self)@.fail(failure),
    {
        self.failure = Some(failure);
    }

    /// Applies a control-flow directive whose backslash is at `q` and whose
    /// arguments end at `e`.
    fn take_control(&mut self, c: Control, q: usize, e: usize)
        requires
            old(self).wf(),
            old(self).cursor < e <= old(self).doc@.len(),
        ensures
            final(self).wf(),
            final(self).doc@ == old(self).doc@,
            final(self)@ == take_control(old(self).doc@, old(self)@, c, q as int, e as int),
            final(self).failure is Some || final(self).cursor == e,
    {
        let depth = self.open.len();
        match c {
            Control::If => {
                self.take_meta(e);
                self.open.push(false);
            },
            Control::Elif => {
                if depth > 0 && !self.open[depth - 1] {
                    self.extend_last(e, Language::Psql);
                } else {
                    self.give_up(SplitFailure::Unbalanced { offset: q });
                }
            },
            Control::Else => {
                if depth > 0 && !self.open[depth - 1] {
                    self.extend_last(e, Language::Psql);
                    self.open.set(depth - 1, true);
                } else {
                    self.give_up(SplitFailure::Unbalanced { offset: q });
                }
            },
            Control::Endif => {
                if depth > 0 {
                    self.extend_last(e, Language::Psql);
                    self.open.pop();
                } else {
                    self.give_up(SplitFailure::Unbalanced { offset: q });
                }
            },
        }
    }

    /// Whether a payload lies ahead, and where it ends.
    fn payload_ahead(&self) -> (end: Option<usize>)
        requires
            self.wf(),
            self@.pending(self.doc@),
        ensures
            end is Some == self@.payload_ahead(self.doc@),
            end matches Some(e) ==> payload_end(self.doc@, self.cursor as int) == Some(e as int)
                && self.cursor < e <= self.doc@.len(),
    {
        if self.open.len() > 0 || self.fragments.len() == 0 {
            return None;
        }
        let last = self.fragments[self.fragments.len() - 1];
        if last.language != Language::PgSql {
            return None;
        }
        let text = slice_subrange(self.doc.as_slice(), last.start_offset, last.end_offset);
        if !asks_for_payload(text) {
            return None;
        }
        find_payload_end(self.doc.as_slice(), self.cursor)
    }

    /// Does one thing that needs no recogniser, if there is one to do.
    fn step(&mut self) -> (moved: bool)
        requires
            old(self).wf(),
        ensures
            final(self).wf(),
            final(self).doc@ == old(self).doc@,
            match settle_step(old(self).doc@, old(self)@) {
                None => !moved && final(self)@ == old(self)@,
                Some(next) => moved && final(self)@ == next && (next.failure is Some
                    || old(self).cursor < next.cursor),
            },
    {
        if self.failure.is_some() || self.cursor >= self.doc.len() {
            return false;
        }
        if let Some(e) = self.payload_ahead() {
            self.extend_last(e, Language::Psql);
            return true;
        }
        if self.open.len() == 0 && self.fragments.len() > 0 {
            let k = leading_comment_len(self.remaining());
            if k > 0 {
                let language = self.fragments[self.fragments.len() - 1].language;
                self.extend_last(self.cursor + k, language);
                return true;
            }
        }
        match meta_head(self.doc.as_slice(), self.cursor) {
            None => false,
            Some(q) => {
                let w = skip_word(self.doc.as_slice(), q + 1);
                match control_word(self.doc.as_slice(), q + 1, w) {
                    Some(c) => {
                        let e = find_directive_end(self.doc.as_slice(), w);
                        self.take_control(c, q, e);
                    },
                    None => {
                        let e = find_line_end(self.doc.as_slice(), q);
                        self.take_meta(e);
                    },
                }
                true
            },
        }
    }

    /// Does everything that needs no recogniser.
    fn settle(&mut self)
        requires
            old(self).wf(),
        ensures
            final(self).wf(),
            final(self).doc@ == old(self).doc@,
            final(self)@ == settle(old(self).doc@, old(self)@),
    {
        loop
            invariant_except_break
                self.wf(),
                self.doc@ == old(self).doc@,
                settle(self.doc@, self@) == settle(old(self).doc@, old(self)@),
            ensures
                self.wf(),
                self.doc@ == old(self).doc@,
                self@ == settle(old(self).doc@, old(self)@),
            decreases
                    (if self.failure is None {
                        1int
                    } else {
                        0int
                    }),
                    self.doc@.len() - self.cursor,
        {
            let moved = self.step();
            if !moved {
                break ;
            }
        }
    }

    /// The recogniser found a statement that runs from the cursor to `end`.
    fn accept(&mut self, end: usize)
        requires
            old(self).wf(),
            old(self)@.pending(old(self).doc@),
            old(self).cursor < end <= old(self).doc@.len(),
        ensures
            final(self).wf(),
            final(self).doc@ == old(self).doc@,
            final(self)@ == accept(old(self).doc@, old(self)@, end - old(self).cursor),
    {
        if self.open.len() > 0 {
            self.extend_last(end, Language::Psql);
        } else {
            self.push_fragment(end, Language::PgSql);
        }
    }

    /// Reports the recogniser's outcome at the pending offset: `Some(n)` for
    /// a statement of `n` bytes, `None` where it found none. While nothing
    /// is pending the report changes nothing.
    pub fn advance(&mut self, outcome: Option<usize>)
        requires
            old(self).wf(),
        ensures
            final(self).wf(),
            final(self).doc() == old(self).doc(),
            final(self)@ == advance(old(self).doc(), old(self)@, outcome),
    {
        if self.failure.is_some() || self.cursor >= self.doc.len() {
            return ;
        }
        match outcome {
            Some(n) => {
                if 0 < n && n <= self.doc.len() - self.cursor {
                    self.accept(self.cursor + n);
                    self.settle();
                } else {
                    self.give_up(SplitFailure::NoProgress { offset: self.cursor });
                }
            },
            None => {
                self.give_up(SplitFailure::NoProgress { offset: self.cursor });
            },
        }
    }

    /// Ends the run. The fragments come back where the whole document was
    /// cut and no region is left open; they then cover the document, so that
    /// joined in order they are the document, and each starts on the line its
    /// first byte lies on.
    pub fn finish(self) -> (r: Result<Vec<Fragment>, SplitFailure>)
        requires
            self.wf(),
        ensures
            match outcome_of(self.doc(), self@) {
                Ok(pieces) => r matches Ok(v) && v@ == pieces,
                Err(f) => r == Err::<Vec<Fragment>, SplitFailure>(f),
            },
            r matches Ok(v) ==> covers(v@, self.doc().len() as int) && lines_agree(
                self.doc(),
                v@,
            ) && tags_agree(v@) && joined_text(self.doc(), v@) == self.doc(),
    {
        match self.failure {
            Some(f) => Err(f),
            None => {
                if self.cursor < self.doc.len() {
                    Err(SplitFailure::NoProgress { offset: self.cursor })
                } else if self.open.len() > 0 {
                    Err(SplitFailure::Unbalanced { offset: self.doc.len() })
                } else {
                    proof {
                        lemma_round_trip(self.doc@, self.fragments@);
                    }
                    Ok(self.fragments)
                }
            },
        }
    }
}

} // verus!
