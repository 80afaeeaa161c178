use corpus::language::Language;
use corpus::statement::{Statement, StatementSource};
use corpus::store::{
    check_schema_version, chunk_plan, construct_insert_sql, document_url_params, extract_params,
    find_nth, fingerprint_params, language_params, multi_row_sql, placeholder_tuple,
    placeholder_tuples, rows_per_statement, source_params, split_template, url_ids, Chunk,
    PredictionSet, SqlValue, StoreFailure, INSERT_PREDICTION_SQL, MAX_PARAMETERS,
};

#[test]
fn test_params() {
    println!("{}", String::from_utf8(extract_params().unwrap().0).unwrap());
    assert_eq!(String::from_utf8(extract_params().unwrap().1).unwrap(), "\n    ? -- 1: statement_id\n  , ? -- 2: oracle_id\n  , ? -- 3: language_id\n  , ? -- 4: message\n  , ? -- 5: error\n  , ? -- 6: whether the statement is explicitly valid/not\n");
}

#[test]
fn template_head_runs_to_the_second_bracket() {
    let (base, _) = extract_params().unwrap();
    assert_eq!(
        String::from_utf8(base).unwrap(),
        "INSERT INTO predictions (statement_id, oracle_id, language_id, message, error, valid)\nVALUES "
    );
    assert!(INSERT_PREDICTION_SQL.starts_with("INSERT INTO predictions ("));
}

#[test]
fn template_without_second_brackets_has_no_parts() {
    assert_eq!(split_template(b"insert into t (a) values"), None);
    assert_eq!(split_template(b"insert into t (a) values (?"), None);
    assert_eq!(split_template(b"a ) b ) c ( d ( e"), None);
    assert_eq!(
        split_template(b"x (a) y (b) z"),
        Some((b"x (a) y ".to_vec(), b"b".to_vec()))
    );
}

#[test]
fn nth_occurrence_counts_from_zero() {
    assert_eq!(find_nth(b"a(b(c(", b'(', 0), Some(1));
    assert_eq!(find_nth(b"a(b(c(", b'(', 2), Some(5));
    assert_eq!(find_nth(b"a(b(c(", b'(', 3), None);
    assert_eq!(find_nth(b"", b'(', 0), None);
}

#[test]
fn insert_of_three_rows() {
    let sql = construct_insert_sql(b"INSERT INTO t VALUES", b"?, ?", 3);
    assert_eq!(
        String::from_utf8(sql).unwrap(),
        "INSERT INTO t VALUES (?, ?), (?, ?), (?, ?)"
    );
    assert_eq!(construct_insert_sql(b"head", b"?", 0), b"head".to_vec());
}

#[test]
fn placeholders_are_comma_separated_tuples() {
    assert_eq!(placeholder_tuple(0), b"()".to_vec());
    assert_eq!(placeholder_tuple(1), b"(?)".to_vec());
    assert_eq!(placeholder_tuple(6), b"(?,?,?,?,?,?)".to_vec());
    assert_eq!(placeholder_tuples(0, 2), b"".to_vec());
    assert_eq!(placeholder_tuples(1, 2), b"(?,?)".to_vec());
    assert_eq!(placeholder_tuples(3, 2), b"(?,?),(?,?),(?,?)".to_vec());
    assert_eq!(
        String::from_utf8(multi_row_sql(
            "INSERT INTO statement_fingerprints(statement_id, fingerprint) VALUES ",
            2,
            2,
            " ON CONFLICT DO NOTHING;"
        ))
        .unwrap(),
        "INSERT INTO statement_fingerprints(statement_id, fingerprint) VALUES (?,?),(?,?) ON CONFLICT DO NOTHING;"
    );
}

#[test]
fn chunks_are_full_but_for_the_last() {
    assert_eq!(chunk_plan(0, 4), vec![]);
    assert_eq!(chunk_plan(3, 4), vec![Chunk { start: 0, len: 3 }]);
    assert_eq!(chunk_plan(4, 4), vec![Chunk { start: 0, len: 4 }]);
    assert_eq!(
        chunk_plan(10, 4),
        vec![
            Chunk { start: 0, len: 4 },
            Chunk { start: 4, len: 4 },
            Chunk { start: 8, len: 2 }
        ]
    );
    assert_eq!(MAX_PARAMETERS, 999);
    assert_eq!(rows_per_statement(6), 166);
    assert_eq!(rows_per_statement(2), 499);
    assert_eq!(rows_per_statement(999), 1);
    let plan = chunk_plan(400, rows_per_statement(6));
    assert_eq!(
        plan,
        vec![
            Chunk { start: 0, len: 166 },
            Chunk { start: 166, len: 166 },
            Chunk { start: 332, len: 68 }
        ]
    );
}

#[test]
fn schema_version_must_match_exactly() {
    assert_eq!(check_schema_version(0, 0), Ok(()));
    assert_eq!(
        check_schema_version(0, 1),
        Err(StoreFailure::SchemaMismatch { major: 0, minor: 1 })
    );
    assert_eq!(
        check_schema_version(1, 0),
        Err(StoreFailure::SchemaMismatch { major: 1, minor: 0 })
    );
}

#[test]
fn language_rows_flatten_in_order() {
    let rows = vec![(11, Language::PlPgSql), (12, Language::Other), (13, Language::Sqlite3Cli)];
    assert_eq!(language_params(&rows), vec![11, 1, 12, -1, 13, 8]);
    assert_eq!(language_params(&vec![]), Vec::<i64>::new());
}

#[test]
fn fingerprint_rows_flatten_in_order() {
    assert_eq!(fingerprint_params(&vec![(1, -2), (3, 4)]), vec![1, -2, 3, 4]);
}

fn source(url: &str, start_line: usize, n_lines: usize, start: usize, end: usize) -> StatementSource {
    StatementSource {
        statement_id: 7,
        start_line,
        n_lines,
        start_offset: start,
        end_offset: end,
        document_id: 9,
        url: url.to_string(),
    }
}

#[test]
fn source_rows_hold_six_numbers() {
    let sources = vec![source("u", 3, 2, 10, 25), source("v", 1, 0, 0, 4)];
    assert_eq!(
        source_params(&sources),
        Some(vec![9, 7, 3, 5, 10, 25, 9, 7, 1, 1, 0, 4])
    );
    assert_eq!(source_params(&vec![]), Some(vec![]));
}

#[test]
fn source_rows_that_do_not_fit_are_refused() {
    let big = i64::MAX as usize;
    assert_eq!(source_params(&vec![source("u", big, 1, 0, 1)]), None);
    assert_eq!(source_params(&vec![source("u", 1, 0, big + 1, big + 2)]), None);
    assert_eq!(
        source_params(&vec![source("u", big, 0, big, big)]),
        Some(vec![9, 7, i64::MAX, i64::MAX, i64::MAX, i64::MAX])
    );
}

#[test]
fn url_identities_are_content_hashes() {
    let urls = vec!["file://a.sql".to_string(), "".to_string(), "file://a.sql".to_string()];
    let ids = url_ids(&urls);
    assert_eq!(ids.len(), 3);
    assert_eq!(ids[0], ids[2]);
    assert_ne!(ids[0], ids[1]);
    assert_eq!(ids[0], xxhash_rust::xxh3::xxh3_64(b"file://a.sql") as i64);
    let pairs = document_url_params(&vec![source("file://a.sql", 1, 0, 0, 1)]);
    assert_eq!(pairs, vec![(9, ids[0])]);
    let stmt = Statement::new(b"select 1;".to_vec(), Language::PgSql, 9);
    assert_eq!(stmt.with_source("file://a.sql", 1, 0).url_id(), ids[0]);
}

#[test]
fn predictions_flatten_six_to_a_row() {
    let mut set = PredictionSet::with_capacity(2);
    assert_eq!(set.len(), 0);
    set.push(1, 2, Language::PgSql, "".to_string(), "ok".to_string());
    set.push(3, 4, Language::PlPython3, "boom".to_string(), "".to_string());
    assert_eq!(set.len(), 2);
    assert_eq!(
        set.params(true),
        vec![
            SqlValue::Integer(1),
            SqlValue::Integer(2),
            SqlValue::Integer(0),
            SqlValue::Text("".to_string()),
            SqlValue::Text("ok".to_string()),
            SqlValue::Boolean(true),
            SqlValue::Integer(3),
            SqlValue::Integer(4),
            SqlValue::Integer(6),
            SqlValue::Text("boom".to_string()),
            SqlValue::Text("".to_string()),
            SqlValue::Boolean(true),
        ]
    );
    assert_eq!(PredictionSet::new().params(false), vec![]);
}
