use bigquery_lite_engine::analyzer::{QueryAnalyzer, QueryComplexity};

#[test]
fn test_query_complexity() {
    assert_eq!(
        QueryAnalyzer::estimate_complexity("SELECT * FROM table"),
        QueryComplexity::Simple
    );

    assert_eq!(
        QueryAnalyzer::estimate_complexity("SELECT COUNT(*) FROM table GROUP BY column"),
        QueryComplexity::Medium
    );

    assert_eq!(
        QueryAnalyzer::estimate_complexity("SELECT ROW_NUMBER() OVER (ORDER BY id) FROM table"),
        QueryComplexity::Complex
    );
}

#[test]
fn test_query_complexity_false_positives() {
    assert_eq!(
        QueryAnalyzer::estimate_complexity("SELECT * FROM table -- This has JOIN in comment"),
        QueryComplexity::Simple
    );

    assert_eq!(
        QueryAnalyzer::estimate_complexity(
            "SELECT * FROM table /* Contains GROUP BY in block comment */"
        ),
        QueryComplexity::Simple
    );

    assert_eq!(
        QueryAnalyzer::estimate_complexity("SELECT 'This has JOIN keyword' FROM table"),
        QueryComplexity::Simple
    );

    assert_eq!(
        QueryAnalyzer::estimate_complexity("SELECT \"Contains GROUP BY\" FROM table"),
        QueryComplexity::Simple
    );

    assert_eq!(
        QueryAnalyzer::estimate_complexity(
            "SELECT * FROM table1 JOIN table2 ON table1.id = table2.id"
        ),
        QueryComplexity::Medium
    );

    assert_eq!(
        QueryAnalyzer::estimate_complexity("SELECT 'JOINING' FROM table"),
        QueryComplexity::Simple
    );

    assert_eq!(
        QueryAnalyzer::estimate_complexity("SELECT * FROM (SELECT * FROM table1) t1"),
        QueryComplexity::Simple
    );

    assert_eq!(
        QueryAnalyzer::estimate_complexity("SELECT * FROM table WHERE col IN (1, 2, 3)"),
        QueryComplexity::Simple
    );

    assert_eq!(
        QueryAnalyzer::estimate_complexity("SELECT COUNT(*) FROM table"),
        QueryComplexity::Simple
    );

    assert_eq!(
        QueryAnalyzer::estimate_complexity("SELECT 'COUNT is important' FROM table"),
        QueryComplexity::Simple
    );
}

#[test]
fn test_remove_comments_and_strings() {
    let sql = "SELECT * FROM table -- This is a comment with JOIN";
    let cleaned = QueryAnalyzer::remove_comments_and_strings(sql);
    assert!(!cleaned.contains("JOIN"));
    assert!(cleaned.contains("SELECT"));

    let sql = "SELECT * /* comment with GROUP BY */ FROM table";
    let cleaned = QueryAnalyzer::remove_comments_and_strings(sql);
    assert!(!cleaned.contains("GROUP BY"));
    assert!(cleaned.contains("SELECT"));

    let sql = "SELECT 'text with JOIN keyword' FROM table";
    let cleaned = QueryAnalyzer::remove_comments_and_strings(sql);
    assert!(!cleaned.contains("JOIN"));
    assert!(cleaned.contains("SELECT"));

    let sql = r#"SELECT 'single quote' AND "double quote with GROUP BY" FROM table"#;
    let cleaned = QueryAnalyzer::remove_comments_and_strings(sql);
    assert!(!cleaned.contains("GROUP BY"));
    assert!(cleaned.contains("SELECT"));
}

#[test]
fn test_sql_keyword_detection() {
    assert!(QueryAnalyzer::contains_sql_keyword(
        "SELECT * FROM table JOIN other",
        "JOIN"
    ));
    assert!(!QueryAnalyzer::contains_sql_keyword(
        "SELECT * FROM tableJOINother",
        "JOIN"
    ));
    assert!(!QueryAnalyzer::contains_sql_keyword(
        "SELECT * FROM JOINtable",
        "JOIN"
    ));
    assert!(!QueryAnalyzer::contains_sql_keyword(
        "SELECT * FROM tableJOIN",
        "JOIN"
    ));

    assert!(QueryAnalyzer::contains_sql_keyword(
        "SELECT * FROM table GROUP BY col",
        "GROUP BY"
    ));
    assert!(!QueryAnalyzer::contains_sql_keyword(
        "SELECT * FROM tableGROUP BYcol",
        "GROUP BY"
    ));
}

#[test]
fn test_function_counting() {
    assert_eq!(
        QueryAnalyzer::count_sql_function("SELECT COUNT(*) FROM table", "COUNT"),
        1
    );
    assert_eq!(
        QueryAnalyzer::count_sql_function("SELECT COUNT(*), SUM(col) FROM table", "COUNT"),
        1
    );
    assert_eq!(
        QueryAnalyzer::count_sql_function("SELECT COUNT(*), SUM(col) FROM table", "SUM"),
        1
    );

    assert_eq!(
        QueryAnalyzer::count_sql_function("SELECT COUNTER FROM table", "COUNT"),
        0
    );
    assert_eq!(
        QueryAnalyzer::count_sql_function("SELECT COUNT_TOTAL FROM table", "COUNT"),
        0
    );
}

#[test]
fn test_subquery_counting() {
    assert_eq!(
        QueryAnalyzer::count_subqueries("SELECT * FROM (SELECT * FROM table) t"),
        1
    );
    assert_eq!(
        QueryAnalyzer::count_subqueries(
            "SELECT * FROM (SELECT * FROM (SELECT * FROM table) t1) t2"
        ),
        2
    );

    assert_eq!(
        QueryAnalyzer::count_subqueries("SELECT * FROM table WHERE col IN (1, 2, 3)"),
        0
    );
    assert_eq!(QueryAnalyzer::count_subqueries("SELECT COUNT(*) FROM table"), 0);

    assert_eq!(
        QueryAnalyzer::count_subqueries(
            "SELECT * FROM (SELECT * FROM table) t WHERE col IN (1, 2, 3)"
        ),
        1
    );
}

#[test]
fn test_normalization_blanks_in_place() {
    // Literal bodies and their quotes become blanks, one per character.
    assert_eq!(
        QueryAnalyzer::remove_comments_and_strings("SELECT 'x' FROM t"),
        "SELECT     FROM t"
    );
    // A line comment becomes blanks; its newline passes through.
    assert_eq!(
        QueryAnalyzer::remove_comments_and_strings("a -- b\nc"),
        "a     \nc"
    );
    // A block comment collapses to a single blank.
    assert_eq!(
        QueryAnalyzer::remove_comments_and_strings("SELECT 1 /* note */ FROM t"),
        "SELECT 1   FROM t"
    );
    // An unterminated block comment consumes the rest and adds no blank.
    assert_eq!(QueryAnalyzer::remove_comments_and_strings("a /* b"), "a ");
    // A collapsing block comment can pull the words around it together:
    // multi-word keywords can appear this way although absent from the input.
    assert_eq!(
        QueryAnalyzer::remove_comments_and_strings("GROUP/**/BY"),
        "GROUP BY"
    );
}

#[test]
fn test_normalization_idempotent_examples() {
    let inputs = [
        "SELECT * FROM t -- JOIN\nSELECT",
        "SELECT 'a /* b */' FROM \"t -- x\"",
        "a /* unterminated",
        "mixed 'one' -- two\n/* three */ four",
        "",
    ];
    for sql in inputs {
        let once = QueryAnalyzer::remove_comments_and_strings(sql);
        let twice = QueryAnalyzer::remove_comments_and_strings(&once);
        assert_eq!(once, twice);
    }
}

#[test]
fn test_masked_keywords_not_detectable() {
    // JOIN appears only inside a literal and a comment: not detectable after
    // normalization.
    let sql = "SELECT 'JOIN' FROM t -- JOIN";
    let cleaned = QueryAnalyzer::remove_comments_and_strings(sql);
    assert!(!cleaned.contains("JOIN"));
    // An unmasked JOIN survives in place.
    let sql = "SELECT * FROM a JOIN b -- JOIN";
    let cleaned = QueryAnalyzer::remove_comments_and_strings(sql);
    assert!(cleaned.contains("JOIN"));
}

#[test]
fn test_deep_subqueries_are_complex() {
    let sql = "SELECT * FROM (SELECT * FROM (SELECT * FROM (SELECT * FROM t) a) b) c";
    assert_eq!(QueryAnalyzer::count_subqueries(sql), 3);
    assert_eq!(QueryAnalyzer::estimate_complexity(sql), QueryComplexity::Complex);
}

#[test]
fn test_many_aggregates_are_medium() {
    let sql = "SELECT COUNT(a), SUM(b), AVG(c), MIN(d) FROM t";
    assert_eq!(QueryAnalyzer::estimate_complexity(sql), QueryComplexity::Medium);
    // Three aggregate calls are not enough to raise the tier.
    let sql = "SELECT COUNT(a), SUM(b), AVG(c) FROM t";
    assert_eq!(QueryAnalyzer::estimate_complexity(sql), QueryComplexity::Simple);
}

#[test]
fn test_lowercase_keywords_detected() {
    assert_eq!(
        QueryAnalyzer::estimate_complexity("select * from a join b on a.id = b.id"),
        QueryComplexity::Medium
    );
    assert_eq!(
        QueryAnalyzer::estimate_complexity("select row_number() over (order by id) from t"),
        QueryComplexity::Complex
    );
}

#[test]
fn test_estimate_memory_usage() {
    assert_eq!(
        QueryAnalyzer::estimate_memory_usage("SELECT * FROM t", 1000),
        100_000
    );
    assert_eq!(
        QueryAnalyzer::estimate_memory_usage("SELECT * FROM a JOIN b", 1000),
        200_000
    );
    assert_eq!(
        QueryAnalyzer::estimate_memory_usage("SELECT SUM(x) OVER (ORDER BY y) FROM t", 1000),
        500_000
    );
    assert_eq!(QueryAnalyzer::estimate_memory_usage("SELECT * FROM t", 0), 0);
}

#[test]
fn test_estimate_execution_time() {
    // Rounded up to whole thousands of rows, floored at one millisecond.
    assert_eq!(QueryAnalyzer::estimate_execution_time("SELECT * FROM t", 0), 1);
    assert_eq!(QueryAnalyzer::estimate_execution_time("SELECT * FROM t", 1), 1);
    assert_eq!(QueryAnalyzer::estimate_execution_time("SELECT * FROM t", 1500), 2);
    assert_eq!(
        QueryAnalyzer::estimate_execution_time("SELECT * FROM a JOIN b", 1500),
        10
    );
    assert_eq!(
        QueryAnalyzer::estimate_execution_time("SELECT SUM(x) OVER (ORDER BY y) FROM t", 1000),
        20
    );
}

#[test]
fn test_complexity_label() {
    assert_eq!(QueryComplexity::Simple.label(), "Simple");
    assert_eq!(QueryComplexity::Medium.label(), "Medium");
    assert_eq!(QueryComplexity::Complex.label(), "Complex");
}
