use carbide::column_set::{ColumnKind, ColumnSet, ColumnWrap, IfNonEmpty, QueryPiece};

fn render(pieces: &[QueryPiece<'_>]) -> (String, Vec<String>) {
    let mut sql = String::new();
    let mut binds = Vec::new();
    for p in pieces {
        match p {
            QueryPiece::Sql(s) => sql.push_str(s),
            QueryPiece::Bind(k) => {
                binds.push(match k {
                    ColumnKind::Bool(b) => format!("{b}"),
                    ColumnKind::String(s) => s.clone(),
                    ColumnKind::Strings(v) => v.join("|"),
                    ColumnKind::I64(i) => format!("{i}"),
                });
                sql.push_str(&format!("${}", binds.len()));
            }
        }
    }
    (sql, binds)
}

#[test]
fn empty_column_set_is_empty_and_renders_no_where_clause() {
    let set = ColumnSet::new();
    assert!(set.is_empty());
    assert_eq!(set.len(), 0);
    assert!(set.into_where_pieces().is_empty());
}

#[test]
fn insert_lists_columns_then_values() {
    let mut set = ColumnSet::new();
    set.push("name", "alpha");
    set.push("enabled", true);
    set.push("count", 7i64);
    let (sql, binds) = render(&set.into_insert_pieces());
    assert_eq!(sql, " (name, enabled, count) VALUES ($1, $2, $3)");
    assert_eq!(binds, vec!["alpha", "true", "7"]);
}

#[test]
fn update_with_one_column() {
    let mut set = ColumnSet::new();
    set.push("name", String::from("beta"));
    let (sql, binds) = render(&set.into_update_pieces());
    assert_eq!(sql, " SET name = $1");
    assert_eq!(binds, vec!["beta"]);
}

#[test]
fn update_with_two_columns_places_separator_before_second_value() {
    let mut set = ColumnSet::new();
    set.push("a", 1i64);
    set.push("b", 2i64);
    let (sql, _) = render(&set.into_update_pieces());
    assert_eq!(sql, " SET a = $1b = , $2");
}

#[test]
fn where_clause_uses_lower_and_overlap() {
    let labels = vec![String::from("x"), String::from("y")];
    let mut set = ColumnSet::new();
    set.push_wrapped("name", "Gamma", ColumnWrap::ToLower);
    set.push("labels", &labels);
    set.push_if_some("skipped", None::<bool>);
    set.push_wrapped_if_some("other", None::<i64>, ColumnWrap::ToLower);
    set.push_if_some("flag", Some(false));
    let (sql, binds) = render(&set.into_where_pieces());
    assert_eq!(
        sql,
        " WHERE LOWER(name) = LOWER($1) AND labels && $2 AND flag = $3"
    );
    assert_eq!(binds, vec!["Gamma", "x|y", "false"]);
}

#[test]
fn push_wrapped_if_some_adds_a_present_value() {
    let mut set = ColumnSet::new();
    set.push_wrapped_if_some("host", Some("H"), ColumnWrap::ToLower);
    assert!(!set.is_empty());
    let (cols, vals) = set.into_parts();
    assert_eq!(cols, vec!["host"]);
    assert!(vals[0].is_to_lower());
}

#[test]
fn if_non_empty_on_string_vectors() {
    let empty: Vec<String> = vec![];
    assert!(empty.if_non_empty().is_none());
    let one = vec![String::from("a")];
    assert_eq!(one.if_non_empty().unwrap().len(), 1);
}
