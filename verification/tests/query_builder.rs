use carbide::column_set::{ColumnSet, ColumnWrap};
use carbide::query_builder::{PgQueryBuilder, PushAsWhereClause, PushValuesForInsert, PushValuesForUpdate};
use sqlx::{Postgres, QueryBuilder};

fn builder<'a>(init: &str) -> PgQueryBuilder<'a> {
    PgQueryBuilder { inner: QueryBuilder::<Postgres>::new(init) }
}

#[test]
fn insert_statement_text() {
    let mut set = ColumnSet::new();
    set.push("name", "alpha");
    set.push("enabled", true);
    set.push("count", 7i64);
    let mut qb = builder("INSERT INTO things");
    qb.push_values_for_insert(set);
    assert_eq!(qb.inner.sql(), "INSERT INTO things (name, enabled, count) VALUES ($1, $2, $3)");
}

#[test]
fn update_statement_text() {
    let mut one = ColumnSet::new();
    one.push("name", String::from("beta"));
    let mut qb = builder("UPDATE things");
    qb.push_values_for_update(one).push_as_where_clause({
        let mut w = ColumnSet::new();
        w.push("id", 4i64);
        w
    });
    assert_eq!(qb.inner.sql(), "UPDATE things SET name = $1 WHERE id = $2");

    let mut two = ColumnSet::new();
    two.push("a", 1i64);
    two.push("b", 2i64);
    let mut qb = builder("UPDATE t");
    qb.push_values_for_update(two);
    assert_eq!(qb.inner.sql(), "UPDATE t SET a = $1b = , $2");
}

#[test]
fn where_clause_text() {
    let tags = vec![String::from("x"), String::from("y")];
    let mut set = ColumnSet::new();
    set.push("id", 3i64);
    set.push_wrapped("name", "Gamma", ColumnWrap::ToLower);
    set.push("tags", &tags);
    let mut qb = builder("SELECT * FROM things");
    qb.push_as_where_clause(set);
    assert_eq!(
        qb.inner.sql(),
        "SELECT * FROM things WHERE id = $1 AND LOWER(name) = LOWER($2) AND tags && $3"
    );
}

#[test]
fn empty_where_clause_adds_nothing() {
    let mut qb = builder("SELECT 1");
    qb.push_as_where_clause(ColumnSet::new());
    assert_eq!(qb.inner.sql(), "SELECT 1");
}
