//! The closed set of dialects a statement can be tagged with.

use vstd::prelude::*;

verus! {

/// The dialect a statement is written in.
#[derive(Debug, Clone, Copy, PartialEq, Eq, Structural)]
pub enum Language {
    /// Plain SQL.
    PgSql,
    /// PL/pgSQL procedural block.
    PlPgSql,
    /// Interactive-session syntax: meta-commands and what hangs on them.
    Psql,
    /// PL/Perl.
    PlPerl,
    /// PL/Tcl.
    PlTcl,
    /// PL/Python, version 2.
    PlPython2,
    /// PL/Python, version 3.
    PlPython3,
    /// SQL of the embedded engine.
    Sqlite3,
    /// A directive of the embedded engine's command-line client.
    Sqlite3Cli,
    /// A procedural language that is none of the above.
    Other,
}

impl Language {
    /// The number under which the store keeps this language.
    pub open spec fn spec_id(self) -> i64 {
        match self {
            Language::PgSql => 0,
            Language::PlPgSql => 1,
            Language::Psql => 2,
            Language::PlPerl => 3,
            Language::PlTcl => 4,
            Language::PlPython2 => 5,
            Language::PlPython3 => 6,
            Language::Sqlite3 => 7,
            Language::Sqlite3Cli => 8,
            Language::Other => -1i64,
        }
    }

    /// The number under which the store keeps this language.
    #[verifier::when_used_as_spec(spec_id)]
    pub fn id(self) -> (n: i64)
        ensures
            n == self.spec_id(),
    {
        match self {
            Language::PgSql => 0,
            Language::PlPgSql => 1,
            Language::Psql => 2,
            Language::PlPerl => 3,
            Language::PlTcl => 4,
            Language::PlPython2 => 5,
            Language::PlPython3 => 6,
            Language::Sqlite3 => 7,
            Language::Sqlite3Cli => 8,
            Language::Other => -1,
        }
    }
}

/// Distinct languages are kept under distinct numbers.
pub proof fn lemma_language_id_injective(a: Language, b: Language)
    requires
        a.spec_id() == b.spec_id(),
    ensures
        a == b,
{
}

/// Pattern of the names of PL/pgSQL.
pub const PLPGSQL_NAME: &'static str = "(?i)^plpgsql$";

/// Pattern of the names of PL/Perl.
pub const PLPERL_NAME: &'static str = "(?i)^plperl$";

/// Pattern of the names of PL/Tcl.
pub const PLTCL_NAME: &'static str = "(?i)^pltcl$";

/// Pattern of the names of PL/Python 2.
pub const PLPYTHON2_NAME: &'static str = "(?i)^plpython2?u$";

/// Pattern of the names of PL/Python 3.
pub const PLPYTHON3_NAME: &'static str = "(?i)^plpython3u$";

/// What a search for `pattern` in `text` gives with the regex crate's
/// default options: whether there is a match anywhere in `text`, or `None`
/// where the crate refuses to compile the pattern.
pub uninterp spec fn regex_search(pattern: Seq<char>, text: Seq<char>) -> Option<bool>;

/// Calls `regex::Regex::new` on `pattern` and, where that gives a regex,
/// `regex::Regex::is_match` on `text`. Trusted: the outcome depends on the
/// two strings alone. Nothing is claimed of which strings match.
#[verifier::external_body]
fn search(pattern: &str, text: &str) -> (found: Option<bool>)
    ensures
        found == regex_search(pattern@, text@),
{
    match regex::Regex::new(pattern) {
        Ok(re) => Some(re.is_match(text)),
        Err(_) => None,
    }
}

/// The pattern compiles and matches in `text`.
pub open spec fn names(pattern: Seq<char>, text: Seq<char>) -> bool {
    regex_search(pattern, text) == Some(true)
}

/// The language that a name stands for, given which of the five patterns
/// it matches. The patterns are tried in a fixed order and the first match
/// decides; a name that matches none is some other language.
pub open spec fn language_of_matches(
    plpgsql: bool,
    plperl: bool,
    pltcl: bool,
    plpython2: bool,
    plpython3: bool,
) -> Language {
    if plpgsql {
        Language::PlPgSql
    } else if plperl {
        Language::PlPerl
    } else if pltcl {
        Language::PlTcl
    } else if plpython2 {
        Language::PlPython2
    } else if plpython3 {
        Language::PlPython3
    } else {
        Language::Other
    }
}

/// The language that the name `name` stands for.
pub open spec fn language_named(name: Seq<char>) -> Language {
    language_of_matches(
        names(PLPGSQL_NAME@, name),
        names(PLPERL_NAME@, name),
        names(PLTCL_NAME@, name),
        names(PLPYTHON2_NAME@, name),
        names(PLPYTHON3_NAME@, name),
    )
}

/// Picks the language from the outcomes of the five searches.
pub fn language_from_matches(
    plpgsql: bool,
    plperl: bool,
    pltcl: bool,
    plpython2: bool,
    plpython3: bool,
) -> (language: Language)
    ensures
        language == language_of_matches(plpgsql, plperl, pltcl, plpython2, plpython3),
{
    if plpgsql {
        Language::PlPgSql
    } else if plperl {
        Language::PlPerl
    } else if pltcl {
        Language::PlTcl
    } else if plpython2 {
        Language::PlPython2
    } else if plpython3 {
        Language::PlPython3
    } else {
        Language::Other
    }
}

/// Whether `pattern` compiles and matches in `text`.
fn is_named(pattern: &str, text: &str) -> (r: bool)
    ensures
        r == names(pattern@, text@),
{
    match search(pattern, text) {
        Some(found) => found,
        None => false,
    }
}

/// Normalises a declared language name to a language. Never fails: a name
/// that no pattern matches is `Other`.
pub fn identify_language(lang: &str) -> (language: Language)
    ensures
        language == language_named(lang@),
{
    language_from_matches(
        is_named(PLPGSQL_NAME, lang),
        is_named(PLPERL_NAME, lang),
        is_named(PLTCL_NAME, lang),
        is_named(PLPYTHON2_NAME, lang),
        is_named(PLPYTHON3_NAME, lang),
    )
}

} // verus!
