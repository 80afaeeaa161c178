use corpus::ingest::{
    column_of, fragment_statement, position_of, sources_for, split_psql_to_statements,
    statements_of,
};
use corpus::language::Language;
use corpus::splitter::{Fragment, SplitFailure, Splitter};

/// A toy recogniser: a statement runs to the first semicolon and takes the
/// line feed after it; a tail of blanks is a statement too.
fn to_semicolon(rest: &[u8]) -> Option<usize> {
    match rest.iter().position(|b| *b == b';') {
        Some(i) => {
            if rest.get(i + 1) == Some(&b'\n') {
                Some(i + 2)
            } else {
                Some(i + 1)
            }
        }
        None => {
            if !rest.is_empty() && rest.iter().all(|b| b.is_ascii_whitespace()) {
                Some(rest.len())
            } else {
                None
            }
        }
    }
}

fn cut(doc: &str) -> Result<Vec<Fragment>, SplitFailure> {
    let mut splitter = Splitter::new(doc.as_bytes().to_vec());
    while splitter.pending().is_some() {
        let outcome = to_semicolon(splitter.remaining());
        splitter.advance(outcome);
    }
    splitter.finish()
}

fn texts(doc: &str, fragments: &[Fragment]) -> Vec<String> {
    fragments
        .iter()
        .map(|f| doc[f.start_offset..f.end_offset].to_string())
        .collect()
}

#[test]
fn fragments_join_to_the_document() {
    let doc = "select 1;\n-- note\nselect 2;\n\\d t\n\\if x\nselect 3;\n\\endif\nselect 4;";
    let fragments = cut(doc).unwrap();
    assert_eq!(texts(doc, &fragments).concat(), doc);
    assert_eq!(fragments[0].start_offset, 0);
    for pair in fragments.windows(2) {
        assert_eq!(pair[0].end_offset, pair[1].start_offset);
    }
    assert_eq!(fragments.last().unwrap().end_offset, doc.len());
}

#[test]
fn comment_lines_go_to_the_statement_before() {
    let doc = "select 1;\n-- note\nselect 2;\n";
    let fragments = cut(doc).unwrap();
    assert_eq!(texts(doc, &fragments), vec!["select 1;\n-- note\n", "select 2;\n"]);
    assert_eq!(fragments[0].language, Language::PgSql);
    assert_eq!(fragments[1].language, Language::PgSql);
    assert_eq!(fragments[0].start_line, 1);
    assert_eq!(fragments[1].start_line, 3);
}

#[test]
fn leading_comment_of_first_statement_stays() {
    let doc = "-- header\nselect 1;\n";
    let fragments = cut(doc).unwrap();
    assert_eq!(texts(doc, &fragments), vec!["-- header\nselect 1;\n"]);
}

#[test]
fn meta_command_is_a_statement_of_its_own() {
    let doc = "select 1;\n\\d mytable\nselect 2;\n";
    let fragments = cut(doc).unwrap();
    assert_eq!(texts(doc, &fragments), vec!["select 1;\n", "\\d mytable\n", "select 2;\n"]);
    assert_eq!(fragments[0].language, Language::PgSql);
    assert_eq!(fragments[1].language, Language::Psql);
    assert_eq!(fragments[2].language, Language::PgSql);
    assert_eq!(fragments[1].start_line, 2);
    assert_eq!(fragments[2].start_line, 3);
}

#[test]
fn conditional_directives_stay_with_what_they_guard() {
    let doc = "select 0;\n\\if true\nselect 1;\n\\endif\nselect 2;\n";
    let fragments = cut(doc).unwrap();
    assert_eq!(
        texts(doc, &fragments),
        vec!["select 0;\n", "\\if true\nselect 1;\n\\endif\n", "select 2;\n"]
    );
    assert_eq!(fragments[1].language, Language::Psql);
    assert_eq!(fragments[2].start_line, 5);
}

#[test]
fn copy_payload_joins_the_copy_statement() {
    let doc = "COPY t FROM stdin;\n1\tfoo\n2\tbar\n\\.\nselect 1;\n";
    let fragments = cut(doc).unwrap();
    assert_eq!(
        texts(doc, &fragments),
        vec!["COPY t FROM stdin;\n1\tfoo\n2\tbar\n\\.\n", "select 1;\n"]
    );
    assert_eq!(fragments[0].language, Language::Psql);
    assert_eq!(fragments[1].language, Language::PgSql);
    assert_eq!(fragments[1].start_line, 5);
}

#[test]
fn marker_line_without_copy_is_left_alone() {
    let doc = "select 1;\n\\.\n";
    let r = cut(doc);
    assert_eq!(r, Err(SplitFailure::NoProgress { offset: 10 }));
}

#[test]
fn nested_regions_on_one_line_are_one_fragment() {
    let doc = "\\if a \\if b select 1; \\endif \\else select 2; \\endif";
    let fragments = cut(doc).unwrap();
    assert_eq!(texts(doc, &fragments), vec![doc]);
    assert_eq!(fragments[0].language, Language::Psql);
}

#[test]
fn missing_endif_is_a_failure() {
    let doc = "\\if a \\if b select 1; \\else select 2; \\endif";
    assert_eq!(cut(doc), Err(SplitFailure::Unbalanced { offset: doc.len() }));
}

#[test]
fn stray_directives_are_failures() {
    assert_eq!(cut("\\endif\n"), Err(SplitFailure::Unbalanced { offset: 0 }));
    assert_eq!(cut("select 1;\n \\else\n"), Err(SplitFailure::Unbalanced { offset: 11 }));
    assert_eq!(
        cut("\\if a\n\\else\n\\else\n\\endif\n"),
        Err(SplitFailure::Unbalanced { offset: 12 })
    );
    assert_eq!(
        cut("\\if a\n\\else\n\\elif b\n\\endif\n"),
        Err(SplitFailure::Unbalanced { offset: 12 })
    );
}

#[test]
fn recogniser_without_progress_gives_the_document_up() {
    assert_eq!(cut("select 'open"), Err(SplitFailure::NoProgress { offset: 0 }));
    assert_eq!(
        split_psql_to_statements(b"select 1;", &[Some(0)]),
        Err(SplitFailure::NoProgress { offset: 0 })
    );
    assert_eq!(
        split_psql_to_statements(b"select 1;", &[Some(10)]),
        Err(SplitFailure::NoProgress { offset: 0 })
    );
    assert_eq!(
        split_psql_to_statements(b"select 1;", &[Some(4)]),
        Err(SplitFailure::NoProgress { offset: 4 })
    );
}

#[test]
fn replayed_outcomes_cut_the_document() {
    let doc = b"select 1;\n-- note\nselect 2;\n";
    let fragments = split_psql_to_statements(doc, &[Some(10), Some(10)]).unwrap();
    assert_eq!(
        fragments,
        vec![
            Fragment { language: Language::PgSql, start_line: 1, start_offset: 0, end_offset: 18 },
            Fragment { language: Language::PgSql, start_line: 3, start_offset: 18, end_offset: 28 },
        ]
    );
    assert_eq!(split_psql_to_statements(b"", &[]), Ok(vec![]));
}

#[test]
fn sources_span_the_statement() {
    let doc = b"select 1;\nselect\n2;\n";
    let fragments = split_psql_to_statements(doc, &[Some(10), Some(10)]).unwrap();
    let urls = vec!["file://a.sql".to_string(), "https://example.org/a.sql".to_string()];
    let stmt = fragment_statement(doc, &fragments[1], 42);
    assert_eq!(stmt.text, b"select\n2;\n".to_vec());
    assert_eq!(stmt.n_lines, 2);
    assert_eq!(stmt.document_id, 42);
    let sources = sources_for(&stmt, &fragments[1], &urls);
    assert_eq!(sources.len(), 2);
    for (src, url) in sources.iter().zip(urls.iter()) {
        assert_eq!(src.end_offset - src.start_offset, stmt.text.len());
        assert_eq!(src.n_lines, 2);
        assert_eq!(src.start_line, 2);
        assert_eq!(src.start_offset, 10);
        assert_eq!(src.statement_id, stmt.id);
        assert_eq!(&src.url, url);
    }
}

#[test]
fn positions_count_lines_and_bytes() {
    let doc = b"ab\ncd\n";
    assert_eq!(position_of(doc, 0), (1, 1));
    assert_eq!(position_of(doc, 2), (1, 3));
    assert_eq!(position_of(doc, 3), (2, 1));
    assert_eq!(position_of(doc, 6), (3, 1));
}

#[test]
fn document_may_start_with_a_meta_command() {
    let doc = "\\set x 1\n\\echo :x\nselect :x;\n";
    let fragments = cut(doc).unwrap();
    assert_eq!(texts(doc, &fragments), vec!["\\set x 1\n", "\\echo :x\n", "select :x;\n"]);
    assert_eq!(fragments[0].language, Language::Psql);
    assert_eq!(fragments[1].language, Language::Psql);
    assert_eq!(fragments[1].start_line, 2);
    assert_eq!(fragments[2].language, Language::PgSql);
}

#[test]
fn blanks_before_a_meta_command_belong_to_it() {
    let doc = "select 1;\n\n  \\d t\nselect 2;";
    let fragments = cut(doc).unwrap();
    assert_eq!(texts(doc, &fragments), vec!["select 1;\n", "\n  \\d t\n", "select 2;"]);
    assert_eq!(fragments[1].start_line, 2);
    assert_eq!(fragments[2].start_line, 4);
}

#[test]
fn statement_of_comments_only_joins_the_one_before() {
    let doc = b"select 1;\n-- a\n  -- b\n";
    let fragments = split_psql_to_statements(doc, &[Some(10)]).unwrap();
    assert_eq!(
        fragments,
        vec![Fragment { language: Language::PgSql, start_line: 1, start_offset: 0, end_offset: 22 }]
    );
}

#[test]
fn comment_after_blank_line_is_not_moved() {
    let doc = "select 1;\n\n-- about two\nselect 2;\n";
    let fragments = cut(doc).unwrap();
    assert_eq!(texts(doc, &fragments), vec!["select 1;\n", "\n-- about two\nselect 2;\n"]);
}

#[test]
fn last_comment_without_line_feed_is_moved() {
    let doc = b"select 1;\n-- bye";
    let fragments = split_psql_to_statements(doc, &[Some(10)]).unwrap();
    assert_eq!(fragments.len(), 1);
    assert_eq!(fragments[0].end_offset, 16);
}

#[test]
fn statements_inside_a_region_join_it() {
    let doc = "\\if :x\n  select 1;\n  \\echo yes\n\\elif :y\n  select 2;\n\\else\n  select 3;\n\\endif\n\\echo done\n";
    let fragments = cut(doc).unwrap();
    assert_eq!(fragments.len(), 2);
    assert_eq!(fragments[0].language, Language::Psql);
    assert_eq!(fragments[0].start_offset, 0);
    assert_eq!(&doc[fragments[1].start_offset..], "\\echo done\n");
    assert_eq!(fragments[1].start_line, 9);
}

#[test]
fn region_after_a_statement_starts_its_own_fragment() {
    let doc = "select 0;\n\\if a\n\\if b\nselect 1;\n\\endif\n\\endif\n";
    let fragments = cut(doc).unwrap();
    assert_eq!(
        texts(doc, &fragments),
        vec!["select 0;\n", "\\if a\n\\if b\nselect 1;\n\\endif\n\\endif\n"]
    );
}

#[test]
fn copy_is_recognised_in_either_case_and_needs_stdin() {
    let doc = "copy t (a, b) From STDIN with csv;\n1,2\n\\.\n";
    let fragments = cut(doc).unwrap();
    assert_eq!(texts(doc, &fragments), vec![doc]);
    assert_eq!(fragments[0].language, Language::Psql);

    let doc = "copy t to stdout;\nselect 1;\n";
    let fragments = cut(doc).unwrap();
    assert_eq!(texts(doc, &fragments), vec!["copy t to stdout;\n", "select 1;\n"]);
    assert_eq!(fragments[0].language, Language::PgSql);

    let doc = "copycat from stdin;\n\\.\n";
    assert_eq!(cut(doc), Err(SplitFailure::NoProgress { offset: 20 }));
}

#[test]
fn marker_at_the_end_of_the_document_ends_the_payload() {
    let doc = "COPY t FROM stdin;\n1\n\\.";
    let fragments = cut(doc).unwrap();
    assert_eq!(texts(doc, &fragments), vec![doc]);
    assert_eq!(fragments[0].language, Language::Psql);
}

#[test]
fn payload_is_absorbed_once() {
    let doc = "COPY t FROM stdin;\n1\n\\.\nselect 1;\n\\.\n";
    assert_eq!(cut(doc), Err(SplitFailure::NoProgress { offset: 34 }));
    let fragments = split_psql_to_statements(doc.as_bytes(), &[Some(19), Some(10), Some(3)]).unwrap();
    assert_eq!(
        texts(doc, &fragments),
        vec!["COPY t FROM stdin;\n1\n\\.\n", "select 1;\n", "\\.\n"]
    );
}

#[test]
fn cutter_names_the_offset_it_waits_at() {
    let doc = b"\\d t\nselect 1;\nselect 2;\n";
    let mut splitter = Splitter::new(doc.to_vec());
    assert_eq!(splitter.pending(), Some(5));
    assert_eq!(splitter.remaining(), &doc[5..]);
    splitter.advance(Some(10));
    assert_eq!(splitter.pending(), Some(15));
    splitter.advance(Some(10));
    assert_eq!(splitter.pending(), None);
    splitter.advance(None);
    assert_eq!(splitter.finish().unwrap().len(), 3);
}

#[test]
fn run_that_stops_early_is_a_failure() {
    let splitter = Splitter::new(b"select 1;".to_vec());
    assert_eq!(splitter.finish(), Err(SplitFailure::NoProgress { offset: 0 }));
    assert_eq!(
        split_psql_to_statements(b"select 1;\nselect 2;\n", &[Some(10)]),
        Err(SplitFailure::NoProgress { offset: 10 })
    );
    assert_eq!(Splitter::new(Vec::new()).finish(), Ok(vec![]));
}

#[test]
fn failure_is_final() {
    let mut splitter = Splitter::new(b"select 1;".to_vec());
    splitter.advance(None);
    assert_eq!(splitter.pending(), None);
    splitter.advance(Some(9));
    assert_eq!(splitter.finish(), Err(SplitFailure::NoProgress { offset: 0 }));
}

#[test]
fn statements_hold_their_fragments() {
    let doc = "select 1;\n-- note\n\\d t\nselect\n2;\n";
    let fragments = cut(doc).unwrap();
    let statements = statements_of(doc.as_bytes(), &fragments, 11);
    assert_eq!(statements.len(), 3);
    let joined: Vec<u8> = statements.iter().flat_map(|s| s.text.clone()).collect();
    assert_eq!(joined, doc.as_bytes());
    assert_eq!(statements[0].text, b"select 1;\n-- note\n".to_vec());
    assert_eq!(statements[0].n_lines, 2);
    assert_eq!(statements[1].language, Language::Psql);
    assert_eq!(statements[2].n_lines, 2);
    for (s, f) in statements.iter().zip(fragments.iter()) {
        assert_eq!(s.text.len(), f.end_offset - f.start_offset);
        assert_eq!(s.id, xxhash_rust::xxh3::xxh3_64(&s.text) as i64);
        assert_eq!(s.document_id, 11);
        assert_eq!(s.language, f.language);
    }
    assert_eq!(column_of(doc.as_bytes(), 12), 3);
}

#[test]
fn comment_before_a_meta_command_goes_up_and_the_command_stands_alone() {
    let doc = "select 1;\n-- show it\n\\d t\n-- and then\nselect 2;\n";
    let fragments = cut(doc).unwrap();
    assert_eq!(
        texts(doc, &fragments),
        vec!["select 1;\n-- show it\n", "\\d t\n-- and then\n", "select 2;\n"]
    );
    assert_eq!(fragments[0].language, Language::PgSql);
    assert_eq!(fragments[1].language, Language::Psql);
    assert_eq!(fragments[2].language, Language::PgSql);
    assert_eq!(fragments[2].start_line, 5);
}

#[test]
fn recogniser_is_asked_after_the_comments() {
    let doc = b"select 1;\n-- note\nselect 2;\n";
    let mut splitter = Splitter::new(doc.to_vec());
    assert_eq!(splitter.pending(), Some(0));
    splitter.advance(Some(10));
    assert_eq!(splitter.pending(), Some(18));
    assert_eq!(splitter.remaining(), b"select 2;\n");
}
