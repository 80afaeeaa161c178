//! Tells which procedural language the body of a statement is written in.
//!
//! The statement's shape comes from a SQL parser outside this crate. What
//! that parser found is handed in as plain values: the top-level forms of
//! the statement and, for the two forms that carry a body, their options.

use vstd::prelude::*;
use vstd::slice::slice_to_vec;
use vstd::string::StringExecFns;
use crate::language::{identify_language, language_named, Language};
use crate::statement::Statement;

verus! {

/// The key under which a form declares its language.
pub const LANGUAGE_KEY: &'static str = "language";

/// The language of a body that declares none.
pub const DEFAULT_LANGUAGE: &'static str = "plpgsql";

/// The value of an option.
#[derive(Debug, Clone, PartialEq, Eq)]
pub enum OptionArg {
    /// A string.
    Text(String),
    /// A list; each item is its string, or `None` where it is no string.
    List(Vec<Option<String>>),
    /// Anything else.
    Other,
    /// No value.
    Absent,
}

/// One entry of a form's option list.
#[derive(Debug, Clone, PartialEq, Eq)]
pub enum OptionNode {
    /// A named option.
    Def { name: String, arg: OptionArg },
    /// An entry that is no named option.
    Other,
}

/// A top-level form of a parsed statement.
#[derive(Debug, Clone, PartialEq, Eq)]
pub enum StatementForm {
    /// Run an anonymous block.
    Do { args: Vec<OptionNode> },
    /// Define a function.
    CreateFunction { options: Vec<OptionNode> },
    /// Any other statement.
    OtherNode,
    /// A form without a node.
    MissingNode,
    /// A form without a statement.
    Empty,
}

/// What the parser made of a statement.
#[derive(Debug, Clone, PartialEq, Eq)]
pub enum Parsed {
    /// The parser refused the text.
    Failed,
    /// The top-level forms, in order.
    Forms(Vec<StatementForm>),
}

/// Why a statement has no language to resolve. None of these is an error.
#[derive(Debug, Clone, Copy, PartialEq, Eq, Structural)]
pub enum Skip {
    /// The parser refused the text.
    Unparsed,
    /// No top-level form: only comments, or nothing.
    NoForm,
    /// The first form holds no statement.
    EmptyForm,
    /// The first form's statement holds no node.
    MissingNode,
    /// The first form neither runs a block nor defines a function.
    NotProcedural,
}

/// The first string among a list's items.
pub open spec fn first_text(items: Seq<Option<String>>) -> Option<Seq<char>>
    decreases items.len(),
{
    if items.len() == 0 {
        None
    } else {
        match items[0] {
            Some(s) => Some(s@),
            None => first_text(items.drop_first()),
        }
    }
}

/// The string that an option's value carries: the string itself, or the
/// first string of a list.
pub open spec fn arg_text(arg: OptionArg) -> Option<Seq<char>> {
    match arg {
        OptionArg::Text(s) => Some(s@),
        OptionArg::List(items) => first_text(items@),
        OptionArg::Other => None,
        OptionArg::Absent => None,
    }
}

/// The language that an option declares, if it is a language option with a
/// string value.
pub open spec fn declared_by(node: OptionNode) -> Option<Seq<char>> {
    match node {
        OptionNode::Def { name, arg } => if name@ == LANGUAGE_KEY@ {
            arg_text(arg)
        } else {
            None
        },
        OptionNode::Other => None,
    }
}

/// The language that an option list declares: that of its last language
/// option with a string value, or `fallback` where it has none.
pub open spec fn declared_language(nodes: Seq<OptionNode>, fallback: Seq<char>) -> Seq<char>
    decreases nodes.len(),
{
    if nodes.len() == 0 {
        fallback
    } else {
        match declared_by(nodes.last()) {
            Some(name) => name,
            None => declared_language(nodes.drop_last(), fallback),
        }
    }
}

/// The declared language of a parsed statement's body, or why there is none
/// to resolve. Only the first top-level form counts.
pub open spec fn body_language(parsed: Parsed) -> Result<Seq<char>, Skip> {
    match parsed {
        Parsed::Failed => Err(Skip::Unparsed),
        Parsed::Forms(forms) => if forms@.len() == 0 {
            Err(Skip::NoForm)
        } else {
            match forms@[0] {
                StatementForm::Do { args } => Ok(declared_language(args@, DEFAULT_LANGUAGE@)),
                StatementForm::CreateFunction { options } => Ok(
                    declared_language(options@, DEFAULT_LANGUAGE@),
                ),
                StatementForm::OtherNode => Err(Skip::NotProcedural),
                StatementForm::MissingNode => Err(Skip::MissingNode),
                StatementForm::Empty => Err(Skip::EmptyForm),
            }
        },
    }
}

/// Finds the first string among a list's items.
fn first_string(items: &Vec<Option<String>>) -> (found: Option<String>)
    ensures
        match first_text(items@) {
            Some(text) => found matches Some(s) && s@ == text,
            None => found is None,
        },
{
    let mut i: usize = 0;
    assert(items@.subrange(0, items@.len() as int) =~= items@);
    while i < items.len()
        invariant
            i <= items@.len(),
            first_text(items@.subrange(i as int, items@.len() as int)) == first_text(items@),
        decreases items@.len() - i,
    {
        assert(items@.subrange(i as int, items@.len() as int).drop_first() =~= items@.subrange(
            i + 1,
            items@.len() as int,
        ));
        match &items[i] {
            Some(s) => {
                return Some(s.clone());
            },
            None => {},
        }
        i = i + 1;
    }
    None
}

/// The string that a protobuf-style option value carries.
pub fn extract_protobuf_string(arg: &OptionArg) -> (found: Option<String>)
    ensures
        match arg_text(*arg) {
            Some(text) => found matches Some(s) && s@ == text,
            None => found is None,
        },
{
    match arg {
        OptionArg::Text(s) => Some(s.clone()),
        OptionArg::List(items) => first_string(items),
        OptionArg::Other => None,
        OptionArg::Absent => None,
    }
}

/// Walks an option list for the language it declares; `plpgsql` where it
/// declares none.
pub fn parse_pl(nodes: &Vec<OptionNode>) -> (lang: String)
    ensures
        lang@ == declared_language(nodes@, DEFAULT_LANGUAGE@),
{
    let key = String::from_str(LANGUAGE_KEY);
    let mut lang = String::from_str(DEFAULT_LANGUAGE);
    let mut i: usize = 0;
    while i < nodes.len()
        invariant
            i <= nodes@.len(),
            key@ == LANGUAGE_KEY@,
            lang@ == declared_language(nodes@.subrange(0, i as int), DEFAULT_LANGUAGE@),
        decreases nodes@.len() - i,
    {
        assert(nodes@.subrange(0, i + 1).drop_last() =~= nodes@.subrange(0, i as int));
        match &nodes[i] {
            OptionNode::Def { name, arg } => {
                if *name == key {
                    match extract_protobuf_string(arg) {
                        Some(found) => {
                            lang = found;
                        },
                        None => {},
                    }
                }
            },
            OptionNode::Other => {},
        }
        i = i + 1;
    }
    assert(nodes@.subrange(0, nodes@.len() as int) =~= nodes@);
    lang
}

/// The declared language of an anonymous block.
pub fn parse_do_stmt(args: &Vec<OptionNode>) -> (lang: String)
    ensures
        lang@ == declared_language(args@, DEFAULT_LANGUAGE@),
{
    parse_pl(args)
}

/// The declared language of a function definition.
pub fn parse_fn_stmt(options: &Vec<OptionNode>) -> (lang: String)
    ensures
        lang@ == declared_language(options@, DEFAULT_LANGUAGE@),
{
    parse_pl(options)
}

/// The declared language of a parsed statement's body, or why there is none
/// to resolve.
pub fn extract_pl(parsed: &Parsed) -> (r: Result<String, Skip>)
    ensures
        match body_language(*parsed) {
            Ok(name) => r matches Ok(s) && s@ == name,
            Err(skip) => r == Err::<String, Skip>(skip),
        },
{
    match parsed {
        Parsed::Failed => Err(Skip::Unparsed),
        Parsed::Forms(forms) => {
            if forms.len() == 0 {
                return Err(Skip::NoForm);
            }
            match &forms[0] {
                StatementForm::Do { args } => Ok(parse_do_stmt(args)),
                StatementForm::CreateFunction { options } => Ok(parse_fn_stmt(options)),
                StatementForm::OtherNode => Err(Skip::NotProcedural),
                StatementForm::MissingNode => Err(Skip::MissingNode),
                StatementForm::Empty => Err(Skip::EmptyForm),
            }
        },
    }
}

/// The statement retagged with the language of its body, where it has one
/// to resolve. Text, identity and document stay as they are.
pub fn recognize_pl_statement(s: &Statement, parsed: &Parsed) -> (r: Option<Statement>)
    ensures
        match body_language(*parsed) {
            Ok(name) => r matches Some(tagged) && tagged.language == language_named(name)
                && tagged.text@ == s.text@ && tagged.id == s.id && tagged.document_id
                == s.document_id && tagged.n_lines == s.n_lines,
            Err(_) => r is None,
        },
{
    match extract_pl(parsed) {
        Ok(lang) => Some(
            Statement {
                text: slice_to_vec(s.text.as_slice()),
                document_id: s.document_id,
                id: s.id,
                language: identify_language(lang.as_str()),
                n_lines: s.n_lines,
            },
        ),
        Err(_) => None,
    }
}

/// The pair under which the store keeps a statement's language.
pub fn language_association(s: &Statement) -> (pair: (i64, Language))
    ensures
        pair == (s.id, s.language),
{
    (s.id, s.language)
}

} // verus!
