use miniapm::sql::normalize_sql;

#[test]
fn span_test_normalize_sql_strings() {
    let sql = "SELECT * FROM users WHERE name = 'John'";
    assert_eq!(normalize_sql(sql), "SELECT * FROM users WHERE name = ?");
}

#[test]
fn span_test_normalize_sql_numbers() {
    let sql = "SELECT * FROM users WHERE id = 123";
    assert_eq!(normalize_sql(sql), "SELECT * FROM users WHERE id = ?");
}

#[test]
fn span_test_normalize_sql_mixed() {
    let sql = "SELECT * FROM orders WHERE user_id = 42 AND status = 'pending'";
    assert_eq!(
        normalize_sql(sql),
        "SELECT * FROM orders WHERE user_id = ? AND status = ?"
    );
}

#[test]
fn span_test_normalize_sql_in_clause() {
    let sql = "SELECT * FROM users WHERE id IN (1, 2, 3)";
    assert_eq!(
        normalize_sql(sql),
        "SELECT * FROM users WHERE id IN (?, ?, ?)"
    );
}

#[test]
fn normalize_sql_of_the_scenarios() {
    assert_eq!(
        normalize_sql("SELECT * FROM users WHERE id = 123 AND name = 'John'"),
        "SELECT * FROM users WHERE id = ? AND name = ?"
    );
    assert_eq!(normalize_sql("WHERE id IN (1, 2, 3)"), "WHERE id IN (?, ?, ?)");
}

#[test]
fn normalize_sql_string_literals() {
    assert_eq!(normalize_sql(""), "");
    assert_eq!(normalize_sql("''"), "?");
    assert_eq!(normalize_sql("\"a\""), "?");
    // A doubled quote inside a literal is an escaped quote.
    assert_eq!(normalize_sql("name = 'O''Brien' AND x"), "name = ? AND x");
    // The other quote character is an ordinary character inside a literal.
    assert_eq!(normalize_sql("a = \"it's\" b"), "a = ? b");
    assert_eq!(normalize_sql("a = 'say \"hi\"' b"), "a = ? b");
    // A literal that is never closed swallows the rest and writes nothing.
    assert_eq!(normalize_sql("a = 'open"), "a =");
    // Digits inside a literal are part of it.
    assert_eq!(normalize_sql("x = ' 1 2 3 '"), "x = ?");
}

#[test]
fn normalize_sql_numeric_literals() {
    assert_eq!(normalize_sql("1"), "?");
    assert_eq!(normalize_sql("12.5"), "?");
    assert_eq!(normalize_sql("x=1.2.3"), "x=?");
    assert_eq!(normalize_sql("f(10,20)"), "f(?,?)");
    // A digit inside a name is no literal.
    assert_eq!(normalize_sql("t1.id = t2.id"), "t1.id = t2.id");
    assert_eq!(normalize_sql("a -1"), "a -1");
    assert_eq!(normalize_sql("a>1"), "a>1");
    // What follows the digits of a literal is kept.
    assert_eq!(normalize_sql("LIMIT 10x"), "LIMIT ?x");
    // After a literal that was replaced a digit is no literal.
    assert_eq!(normalize_sql("'a'1"), "?1");
}

#[test]
fn normalize_sql_white_space() {
    assert_eq!(normalize_sql("  SELECT   1  "), "SELECT ?");
    assert_eq!(normalize_sql("SELECT\n\t*\r\nFROM   t"), "SELECT * FROM t");
    assert_eq!(normalize_sql(" \t\n"), "");
    // A digit after any white space begins a literal, after a tab as after a space.
    assert_eq!(normalize_sql("a\t1"), "a ?");
    assert_eq!(normalize_sql("a\n42"), "a ?");
    assert_eq!(normalize_sql("a\u{a0}7"), "a ?");
}

#[test]
fn normalize_sql_is_idempotent_on_examples() {
    for sql in [
        "SELECT * FROM users WHERE id = 123 AND name = 'John'",
        "WHERE id IN (1, 2, 3)",
        "a\t1",
        "'a'1 2",
        "x = 'open",
        "  t1.a=3   AND\nb = \"q\"  ",
        "f(10,20) - 3 -4",
        "?",
        "",
    ] {
        let once = normalize_sql(sql);
        assert_eq!(normalize_sql(&once), once);
    }
}
