//! Lexical recognisers over raw bytes: blanks, words, line ends, line
//! comments, meta-command heads and the marker that ends a copy-in payload.
//!
//! Each recogniser is a spec function on `Seq<u8>` and an executable
//! function proved to compute it.

use vstd::prelude::*;
use vstd::utf8::encode_utf8;
use crate::bytes::NEWLINE;

verus! {

/// The byte that opens a meta-command.
pub const BACKSLASH: u8 = 92;

/// The second byte of the marker that ends a copy-in payload.
pub const DOT: u8 = 46;

/// The byte that a line comment starts with, twice.
pub const DASH: u8 = 45;

/// Space, tab, line feed, vertical tab, form feed, carriage return.
pub open spec fn is_blank(b: u8) -> bool {
    b == 32 || (9 <= b && b <= 13)
}

/// Space or tab.
pub open spec fn is_inline_blank(b: u8) -> bool {
    b == 32 || b == 9
}

/// An ASCII letter, digit or underscore.
pub open spec fn is_word_byte(b: u8) -> bool {
    (97 <= b && b <= 122) || (65 <= b && b <= 90) || (48 <= b && b <= 57) || b == 95
}

/// The ASCII lower-case form of a byte.
pub open spec fn lower(b: u8) -> u8 {
    if 65 <= b && b <= 90 {
        (b + 32) as u8
    } else {
        b
    }
}

/// First offset at or after `from` that holds no blank.
pub open spec fn blank_end(s: Seq<u8>, from: int) -> int
    decreases s.len() - from,
{
    if 0 <= from < s.len() && is_blank(s[from]) {
        blank_end(s, from + 1)
    } else {
        from
    }
}

/// First offset at or after `from` that holds neither space nor tab.
pub open spec fn inline_blank_end(s: Seq<u8>, from: int) -> int
    decreases s.len() - from,
{
    if 0 <= from < s.len() && is_inline_blank(s[from]) {
        inline_blank_end(s, from + 1)
    } else {
        from
    }
}

/// First offset at or after `from` that holds no word byte.
pub open spec fn word_end(s: Seq<u8>, from: int) -> int
    decreases s.len() - from,
{
    if 0 <= from < s.len() && is_word_byte(s[from]) {
        word_end(s, from + 1)
    } else {
        from
    }
}

/// Offset just past the first line feed at or after `from`; the end of the
/// text where there is none.
pub open spec fn line_end(s: Seq<u8>, from: int) -> int
    decreases s.len() - from,
{
    if from < 0 || from >= s.len() {
        from
    } else if s[from] == NEWLINE {
        from + 1
    } else {
        line_end(s, from + 1)
    }
}

/// Where the arguments of a control-flow directive stop: before the next
/// backslash, or past the line feed that ends the line, or at the end of
/// the text.
pub open spec fn directive_end(s: Seq<u8>, from: int) -> int
    decreases s.len() - from,
{
    if from < 0 || from >= s.len() {
        from
    } else if s[from] == BACKSLASH {
        from
    } else if s[from] == NEWLINE {
        from + 1
    } else {
        directive_end(s, from + 1)
    }
}

/// A meta-command head stands at `from`: blanks, then a backslash, then a
/// word byte.
pub open spec fn meta_at(s: Seq<u8>, from: int) -> bool {
    let q = blank_end(s, from);
    0 <= q && q + 1 < s.len() && s[q] == BACKSLASH && is_word_byte(s[q + 1])
}

/// The line that starts at `from` is a line comment: spaces and tabs, then
/// two dashes.
pub open spec fn comment_at(s: Seq<u8>, from: int) -> bool {
    let q = inline_blank_end(s, from);
    0 <= q && q + 1 < s.len() && s[q] == DASH && s[q + 1] == DASH
}

/// Length of the run of whole line comments that `s` starts with, counted
/// from `from`. A last comment without a line feed counts where it ends
/// the text.
pub open spec fn comment_run_end(s: Seq<u8>, from: int) -> int
    decreases s.len() - from,
{
    let e = line_end(s, from);
    if 0 <= from < e && e <= s.len() && comment_at(s, from) {
        comment_run_end(s, e)
    } else {
        from
    }
}

/// The line that starts at `from` holds the end-of-payload marker and
/// nothing else.
pub open spec fn terminator_at(s: Seq<u8>, from: int) -> bool {
    0 <= from && from + 2 <= s.len() && s[from] == BACKSLASH && s[from + 1] == DOT && (from + 2
        == s.len() || s[from + 2] == NEWLINE)
}

/// Offset just past a marker line that starts at `from`.
pub open spec fn terminator_end(s: Seq<u8>, from: int) -> int {
    if from + 2 == s.len() {
        from + 2
    } else {
        from + 3
    }
}

/// Offset just past the first marker line among the lines that start at
/// `from`, if there is one.
pub open spec fn payload_end(s: Seq<u8>, from: int) -> Option<int>
    decreases s.len() - from,
{
    if from < 0 || from >= s.len() {
        None
    } else if terminator_at(s, from) {
        Some(terminator_end(s, from))
    } else {
        let e = line_end(s, from);
        if from < e && e <= s.len() {
            payload_end(s, e)
        } else {
            None
        }
    }
}

/// `copy` stands at `i`, in either case.
pub open spec fn copy_at(s: Seq<u8>, i: int) -> bool {
    0 <= i && i + 4 <= s.len() && lower(s[i]) == 99 && lower(s[i + 1]) == 111 && lower(s[i + 2])
        == 112 && lower(s[i + 3]) == 121
}

/// `stdin` stands at `i`, in either case.
pub open spec fn stdin_at(s: Seq<u8>, i: int) -> bool {
    0 <= i && i + 5 <= s.len() && lower(s[i]) == 115 && lower(s[i + 1]) == 116 && lower(s[i + 2])
        == 100 && lower(s[i + 3]) == 105 && lower(s[i + 4]) == 110
}

/// The statement asks for a payload on the lines after it: its first word
/// is `copy` and `stdin` occurs later in it.
pub open spec fn expects_payload(text: Seq<u8>) -> bool {
    let q = blank_end(text, 0);
    &&& copy_at(text, q)
    &&& (q + 4 == text.len() || !is_word_byte(text[q + 4]))
    &&& exists|i: int| q + 4 <= i && #[trigger] stdin_at(text, i)
}

/// The four directives that steer conditional regions.
#[derive(Debug, Clone, Copy, PartialEq, Eq, Structural)]
pub enum Control {
    /// Opens a region.
    If,
    /// Opens a further branch of the innermost region.
    Elif,
    /// Opens the last branch of the innermost region.
    Else,
    /// Closes the innermost region.
    Endif,
}

/// The word that opens a conditional region.
pub const IF: &'static str = "if";

/// The word that opens a further branch.
pub const ELIF: &'static str = "elif";

/// The word that opens the last branch.
pub const ELSE: &'static str = "else";

/// The word that closes a conditional region.
pub const ENDIF: &'static str = "endif";

/// The directive that a meta-command's word names, if any.
pub open spec fn control_of(word: Seq<u8>) -> Option<Control> {
    if word == encode_utf8(IF@) {
        Some(Control::If)
    } else if word == encode_utf8(ELIF@) {
        Some(Control::Elif)
    } else if word == encode_utf8(ELSE@) {
        Some(Control::Else)
    } else if word == encode_utf8(ENDIF@) {
        Some(Control::Endif)
    } else {
        None
    }
}

/// Whether `b` is a blank.
pub fn blank(b: u8) -> (r: bool)
    ensures
        r == is_blank(b),
{
    b == 32 || (9 <= b && b <= 13)
}

/// Whether `b` is a word byte.
pub fn word_byte(b: u8) -> (r: bool)
    ensures
        r == is_word_byte(b),
{
    (97 <= b && b <= 122) || (65 <= b && b <= 90) || (48 <= b && b <= 57) || b == 95
}

/// The ASCII lower-case form of `b`.
pub fn to_lower(b: u8) -> (r: u8)
    ensures
        r == lower(b),
{
    if 65 <= b && b <= 90 {
        b + 32
    } else {
        b
    }
}

/// Skips blanks from `from` on.
pub fn skip_blank(text: &[u8], from: usize) -> (to: usize)
    requires
        from <= text@.len(),
    ensures
        to == blank_end(text@, from as int),
        from <= to <= text@.len(),
        to < text@.len() ==> !is_blank(text@[to as int]),
{
    let mut i: usize = from;
    while i < text.len() && blank(text[i])
        invariant
            from <= i <= text@.len(),
            blank_end(text@, i as int) == blank_end(text@, from as int),
        decreases text@.len() - i,
    {
        i = i + 1;
    }
    i
}

/// Skips spaces and tabs from `from` on.
pub fn skip_inline_blank(text: &[u8], from: usize) -> (to: usize)
    requires
        from <= text@.len(),
    ensures
        to == inline_blank_end(text@, from as int),
        from <= to <= text@.len(),
{
    let mut i: usize = from;
    while i < text.len() && (text[i] == 32 || text[i] == 9)
        invariant
            from <= i <= text@.len(),
            inline_blank_end(text@, i as int) == inline_blank_end(text@, from as int),
        decreases text@.len() - i,
    {
        i = i + 1;
    }
    i
}

/// Skips word bytes from `from` on.
pub fn skip_word(text: &[u8], from: usize) -> (to: usize)
    requires
        from <= text@.len(),
    ensures
        to == word_end(text@, from as int),
        from <= to <= text@.len(),
{
    let mut i: usize = from;
    while i < text.len() && word_byte(text[i])
        invariant
            from <= i <= text@.len(),
            word_end(text@, i as int) == word_end(text@, from as int),
        decreases text@.len() - i,
    {
        i = i + 1;
    }
    i
}

/// Finds the end of the line that `from` lies on.
pub fn find_line_end(text: &[u8], from: usize) -> (to: usize)
    requires
        from <= text@.len(),
    ensures
        to == line_end(text@, from as int),
        from <= to <= text@.len(),
        from < text@.len() ==> from < to,
{
    let mut i: usize = from;
    while i < text.len() && text[i] != NEWLINE
        invariant
            from <= i <= text@.len(),
            line_end(text@, i as int) == line_end(text@, from as int),
        decreases text@.len() - i,
    {
        i = i + 1;
    }
    if i < text.len() {
        i + 1
    } else {
        i
    }
}

/// Finds where the arguments of a control-flow directive stop.
pub fn find_directive_end(text: &[u8], from: usize) -> (to: usize)
    requires
        from <= text@.len(),
    ensures
        to == directive_end(text@, from as int),
        from <= to <= text@.len(),
{
    let mut i: usize = from;
    while i < text.len() && text[i] != NEWLINE && text[i] != BACKSLASH
        invariant
            from <= i <= text@.len(),
            directive_end(text@, i as int) == directive_end(text@, from as int),
        decreases text@.len() - i,
    {
        i = i + 1;
    }
    if i < text.len() && text[i] == NEWLINE {
        i + 1
    } else {
        i
    }
}

/// Looks for a meta-command head at `from`; hands back the offset of its
/// backslash.
pub fn meta_head(text: &[u8], from: usize) -> (head: Option<usize>)
    requires
        from <= text@.len(),
    ensures
        head is Some == meta_at(text@, from as int),
        head matches Some(q) ==> q == blank_end(text@, from as int) && from <= q && q + 1
            < text@.len(),
{
    let q = skip_blank(text, from);
    if q < text.len() && text.len() - q > 1 && text[q] == BACKSLASH && word_byte(text[q + 1]) {
        Some(q)
    } else {
        None
    }
}

/// Whether the line that starts at `from` is a line comment.
pub fn is_comment_line(text: &[u8], from: usize) -> (r: bool)
    requires
        from <= text@.len(),
    ensures
        r == comment_at(text@, from as int),
{
    let q = skip_inline_blank(text, from);
    q < text.len() && text.len() - q > 1 && text[q] == DASH && text[q + 1] == DASH
}

/// Measures the run of whole line comments that `text` starts with.
pub fn leading_comment_len(text: &[u8]) -> (n: usize)
    ensures
        n == comment_run_end(text@, 0),
        n <= text@.len(),
{
    let mut i: usize = 0;
    loop
        invariant
            i <= text@.len(),
            comment_run_end(text@, i as int) == comment_run_end(text@, 0),
        decreases text@.len() - i,
    {
        if i >= text.len() || !is_comment_line(text, i) {
            return i;
        }
        let e = find_line_end(text, i);
        i = e;
    }
}

/// Whether the end-of-payload marker line starts at `from`.
pub fn is_terminator_line(text: &[u8], from: usize) -> (r: bool)
    requires
        from <= text@.len(),
    ensures
        r == terminator_at(text@, from as int),
{
    let left = text.len() - from;
    left >= 2 && text[from] == BACKSLASH && text[from + 1] == DOT && (left == 2 || text[from + 2]
        == NEWLINE)
}

/// Looks for the marker line that ends a payload starting at `from`.
pub fn find_payload_end(text: &[u8], from: usize) -> (end: Option<usize>)
    requires
        from <= text@.len(),
    ensures
        end matches Some(e) ==> payload_end(text@, from as int) == Some(e as int) && from < e
            && e <= text@.len(),
        end is None ==> payload_end(text@, from as int) is None,
{
    let mut i: usize = from;
    loop
        invariant
            from <= i <= text@.len(),
            payload_end(text@, i as int) == payload_end(text@, from as int),
        decreases text@.len() - i,
    {
        if i >= text.len() {
            return None;
        }
        if is_terminator_line(text, i) {
            if text.len() - i == 2 {
                return Some(i + 2);
            } else {
                return Some(i + 3);
            }
        }
        let e = find_line_end(text, i);
        i = e;
    }
}

/// Whether `stdin` stands somewhere at or after `from`.
fn has_stdin_from(text: &[u8], from: usize) -> (r: bool)
    requires
        from <= text@.len(),
    ensures
        r == exists|i: int| from <= i && #[trigger] stdin_at(text@, i),
{
    let mut i: usize = from;
    while text.len() - i >= 5
        invariant
            from <= i <= text@.len(),
            forall|j: int| from <= j < i ==> !#[trigger] stdin_at(text@, j),
        decreases text@.len() - i,
    {
        if to_lower(text[i]) == 115 && to_lower(text[i + 1]) == 116 && to_lower(text[i + 2]) == 100
            && to_lower(text[i + 3]) == 105 && to_lower(text[i + 4]) == 110 {
            assert(stdin_at(text@, i as int));
            return true;
        }
        i = i + 1;
    }
    false
}

/// Whether the statement `text` asks for a payload on the lines after it.
pub fn asks_for_payload(text: &[u8]) -> (r: bool)
    ensures
        r == expects_payload(text@),
{
    let q = skip_blank(text, 0);
    if text.len() - q < 4 {
        return false;
    }
    if !(to_lower(text[q]) == 99 && to_lower(text[q + 1]) == 111 && to_lower(text[q + 2]) == 112
        && to_lower(text[q + 3]) == 121) {
        return false;
    }
    if text.len() - q > 4 && word_byte(text[q + 4]) {
        return false;
    }
    has_stdin_from(text, q + 4)
}

/// Whether the bytes between two offsets spell `word`.
pub fn spells(text: &[u8], from: usize, to: usize, word: &str) -> (r: bool)
    requires
        from <= to <= text@.len(),
    ensures
        r == (text@.subrange(from as int, to as int) == encode_utf8(word@)),
{
    let bytes = word.as_bytes();
    let ghost part = text@.subrange(from as int, to as int);
    if to - from != bytes.len() {
        return false;
    }
    let mut i: usize = 0;
    while i < bytes.len()
        invariant
            from <= to <= text@.len(),
            to - from == bytes@.len(),
            bytes@ == encode_utf8(word@),
            part == text@.subrange(from as int, to as int),
            i <= bytes@.len(),
            forall|k: int| 0 <= k < i ==> part[k] == bytes@[k],
        decreases bytes@.len() - i,
    {
        if text[from + i] != bytes[i] {
            return false;
        }
        i = i + 1;
    }
    assert(part =~= bytes@);
    true
}

/// Reads the word between two offsets as a control-flow directive.
pub fn control_word(text: &[u8], from: usize, to: usize) -> (c: Option<Control>)
    requires
        from <= to <= text@.len(),
    ensures
        c == control_of(text@.subrange(from as int, to as int)),
{
    if spells(text, from, to, IF) {
        Some(Control::If)
    } else if spells(text, from, to, ELIF) {
        Some(Control::Elif)
    } else if spells(text, from, to, ELSE) {
        Some(Control::Else)
    } else if spells(text, from, to, ENDIF) {
        Some(Control::Endif)
    } else {
        None
    }
}

} // verus!
