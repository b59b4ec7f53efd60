//! Appending column sets to sqlx's Postgres `QueryBuilder`: as the values of
//! an `INSERT`, the assignments of an `UPDATE`, or a `WHERE` clause.
use vstd::prelude::*;
use sqlx::{Postgres, QueryBuilder};
use crate::column_set::{
    bound_values, insert_pieces, law_insert_binds_each_value_in_order, law_update_binds_each_value_in_order,
    law_where_binds_each_value_in_order, lemma_bound_values_concat, pieces_model, set_values, update_pieces,
    where_pieces, ColumnKind, ColumnSet, KindModel, PieceModel, QueryPiece, ValueModel,
};
use crate::identity_url::utf8_len;
use crate::text::{decimal, reversed};

verus! {

/// A sqlx query builder for Postgres. The builder is a field so that callers
/// create it with `QueryBuilder::new` and build and run the statement from it.
#[verifier::external_body]
pub struct PgQueryBuilder<'a> {
    pub inner: QueryBuilder<'a, Postgres>,
}

/// What a Postgres query builder holds: its SQL text and the values bound to
/// it, in order; `None` once `build` has taken its arguments (it then
/// refuses further pushes).
pub uninterp spec fn builder_contents(qb: PgQueryBuilder<'_>) -> Option<(Seq<char>, Seq<KindModel>)>;

/// Whether the builder accepts pushes.
pub open spec fn builder_open(qb: PgQueryBuilder<'_>) -> bool {
    builder_contents(qb) is Some
}

/// The builder's SQL text.
pub open spec fn builder_sql(qb: PgQueryBuilder<'_>) -> Seq<char> {
    match builder_contents(qb) {
        Some((sql, _)) => sql,
        None => Seq::empty(),
    }
}

/// The values bound to the builder, in order.
pub open spec fn builder_args(qb: PgQueryBuilder<'_>) -> Seq<KindModel> {
    match builder_contents(qb) {
        Some((_, args)) => args,
        None => Seq::empty(),
    }
}

/// The placeholder of the `k`-th bound value (from 1): `$k`.
pub open spec fn placeholder(k: nat) -> Seq<char> {
    seq!['$'] + decimal(k)
}

/// Largest encoded size of one bound value in the Postgres wire format.
pub open spec fn max_value_size() -> nat {
    0x7fff_ffff
}

/// Encoded size of a text array: a 20-byte header, then each element's
/// UTF-8 bytes after a 4-byte length.
pub open spec fn text_array_size(items: Seq<Seq<char>>) -> nat
    decreases items.len(),
{
    if items.len() == 0 {
        20
    } else {
        text_array_size(items.drop_last()) + 4 + utf8_len(items.last())
    }
}

/// Whether a value can be bound: its encoding fits the wire format's
/// 32-bit length.
pub open spec fn encodable(k: KindModel) -> bool {
    match k {
        KindModel::Str(s) => utf8_len(s) <= max_value_size(),
        KindModel::Strs(items) => text_array_size(items) <= max_value_size(),
        _ => true,
    }
}

/// The SQL text that pushing the steps `ps` appends to a builder that has
/// `n` values bound: each fragment, and a placeholder for each bind.
pub open spec fn pushed_sql(ps: Seq<PieceModel>, n: nat) -> Seq<char>
    decreases ps.len(),
{
    if ps.len() == 0 {
        seq![]
    } else {
        pushed_sql(ps.drop_last(), n) + match ps.last() {
            PieceModel::Sql(s) => s,
            PieceModel::Bind(_) => placeholder(n + bound_values(ps.drop_last()).len() + 1),
        }
    }
}

/// Whether a column set can be pushed to a builder: the builder accepts
/// pushes, every value can be encoded, and the count of bound values stays
/// within `usize`.
pub open spec fn can_push(qb: PgQueryBuilder<'_>, set: Seq<(Seq<char>, ValueModel)>) -> bool {
    &&& builder_open(qb)
    &&& forall|i: int| 0 <= i < set.len() ==> encodable(#[trigger] set[i].1.kind)
    &&& builder_args(qb).len() + set.len() <= usize::MAX
}

/// Appends a SQL fragment (`QueryBuilder::push`, which writes the fragment's
/// `Display` text to the query).
#[verifier::external_body]
fn push_sql<'a>(qb: &mut PgQueryBuilder<'a>, sql: &'static str)
    requires
        builder_open(*old(qb)),
    ensures
        builder_contents(*final(qb)) == Some((builder_sql(*old(qb)) + sql@, builder_args(*old(qb)))),
{
    qb.inner.push(sql);
}

/// Binds a value (`QueryBuilder::push_bind`, called with the value the
/// variant holds): the value is appended to the arguments and the
/// placeholder `$n` (`n` the new count of arguments) to the query. The
/// call panics when the encoding exceeds the 32-bit length, which
/// `requires` leaves out.
#[verifier::external_body]
fn push_bind_value<'a>(qb: &mut PgQueryBuilder<'a>, value: ColumnKind<'a>)
    requires
        builder_open(*old(qb)),
        encodable(value@),
        builder_args(*old(qb)).len() < usize::MAX,
    ensures
        builder_contents(*final(qb)) == Some(
            (
                builder_sql(*old(qb)) + placeholder(builder_args(*old(qb)).len() + 1),
                builder_args(*old(qb)).push(value@),
            ),
        ),
{
    match value {
        ColumnKind::Bool(v) => qb.inner.push_bind(v),
        ColumnKind::String(v) => qb.inner.push_bind(v),
        ColumnKind::Strings(v) => qb.inner.push_bind(v),
        ColumnKind::I64(v) => qb.inner.push_bind(v),
    };
}

proof fn lemma_bound_values_prefix(ps: Seq<PieceModel>, k: int)
    requires
        0 <= k < ps.len(),
        ps[k] is Bind,
    ensures
        bound_values(ps.take(k + 1)) == bound_values(ps.take(k)).push(ps[k]->Bind_0),
        bound_values(ps.take(k)).len() < bound_values(ps).len(),
        bound_values(ps)[bound_values(ps.take(k)).len() as int] == ps[k]->Bind_0,
{
    assert(ps.take(k + 1).drop_last() =~= ps.take(k));
    assert(ps.take(k + 1).last() == ps[k]);
    lemma_bound_values_concat(ps.take(k + 1), ps.skip(k + 1));
    assert(ps.take(k + 1) + ps.skip(k + 1) =~= ps);
}

proof fn lemma_bound_values_len(ps: Seq<PieceModel>, k: int)
    requires
        0 <= k <= ps.len(),
    ensures
        bound_values(ps.take(k)).len() <= bound_values(ps).len(),
{
    lemma_bound_values_concat(ps.take(k), ps.skip(k));
    assert(ps.take(k) + ps.skip(k) =~= ps);
}

/// Pushes the steps in order.
fn push_pieces<'a>(qb: &mut PgQueryBuilder<'a>, pieces: Vec<QueryPiece<'a>>)
    requires
        builder_open(*old(qb)),
        forall|i: int| 0 <= i < bound_values(pieces_model(pieces@)).len() ==> encodable(
            #[trigger] bound_values(pieces_model(pieces@))[i],
        ),
        builder_args(*old(qb)).len() + bound_values(pieces_model(pieces@)).len() <= usize::MAX,
    ensures
        builder_contents(*final(qb)) == Some(
            (
                builder_sql(*old(qb)) + pushed_sql(pieces_model(pieces@), builder_args(*old(qb)).len()),
                builder_args(*old(qb)) + bound_values(pieces_model(pieces@)),
            ),
        ),
{
    let ghost pm = pieces_model(pieces@);
    let ghost sql0 = builder_sql(*qb);
    let ghost args0 = builder_args(*qb);
    let n = pieces.len();
    let mut rest = reversed(pieces);
    let mut k: usize = 0;
    assert(pm.take(0) =~= Seq::<PieceModel>::empty());
    assert(builder_args(*qb) =~= args0 + bound_values(pm.take(0)));
    assert(builder_sql(*qb) =~= sql0 + pushed_sql(pm.take(0), args0.len()));
    while rest.len() > 0
        invariant
            n == pm.len(),
            k + rest@.len() == n,
            forall|j: int| 0 <= j < rest@.len() ==> (#[trigger] rest@[j])@ == pm[n - 1 - j],
            forall|i: int| 0 <= i < bound_values(pm).len() ==> encodable(#[trigger] bound_values(pm)[i]),
            args0.len() + bound_values(pm).len() <= usize::MAX,
            builder_contents(*qb) == Some(
                (sql0 + pushed_sql(pm.take(k as int), args0.len()), args0 + bound_values(pm.take(k as int))),
            ),
        decreases rest.len(),
    {
        let p = rest.pop().unwrap();
        let ghost pv = p@;
        assert(pv == pm[k as int]);
        assert(pm.take(k + 1).drop_last() =~= pm.take(k as int));
        assert(pm.take(k + 1).last() == pv);
        match p {
            QueryPiece::Sql(s) => {
                push_sql(qb, s);
                assert(bound_values(pm.take(k + 1)) == bound_values(pm.take(k as int)));
            },
            QueryPiece::Bind(kind) => {
                proof {
                    lemma_bound_values_prefix(pm, k as int);
                }
                push_bind_value(qb, kind);
            },
        }
        k = k + 1;
        assert(builder_sql(*qb) =~= sql0 + pushed_sql(pm.take(k as int), args0.len()));
        assert(builder_args(*qb) =~= args0 + bound_values(pm.take(k as int)));
    }
    assert(pm.take(k as int) =~= pm);
}

proof fn lemma_set_values_encodable(set: Seq<(Seq<char>, ValueModel)>)
    requires
        forall|i: int| 0 <= i < set.len() ==> encodable(#[trigger] set[i].1.kind),
    ensures
        forall|i: int| 0 <= i < set_values(set).len() ==> encodable(#[trigger] set_values(set)[i]),
{
    assert forall|i: int| 0 <= i < set_values(set).len() implies encodable(#[trigger] set_values(set)[i]) by {
        assert(set_values(set)[i] == set[i].1.kind);
    }
}

/// Appending a column set as the values of an `INSERT`.
pub trait PushValuesForInsert<'a> {
    /// Whether the column set can be appended without a panic.
    spec fn accepts_insert(&self, column_set: ColumnSet<'a>) -> bool;

    /// Appends ` (columns) VALUES (placeholders)` and binds the values.
    fn push_values_for_insert(&mut self, column_set: ColumnSet<'a>) -> &mut Self
        requires
            old(self).accepts_insert(column_set),
    ;
}

impl<'a> PushValuesForInsert<'a> for PgQueryBuilder<'a> {
    open spec fn accepts_insert(&self, column_set: ColumnSet<'a>) -> bool {
        can_push(*self, column_set@)
    }

    fn push_values_for_insert(&mut self, column_set: ColumnSet<'a>) -> (r: &mut Self)
        ensures
            builder_contents(*r) == Some(
                (
                    builder_sql(*old(self)) + pushed_sql(insert_pieces(column_set@), builder_args(*old(self)).len()),
                    builder_args(*old(self)) + set_values(column_set@),
                ),
            ),
            *final(self) == *final(r),
    {
        proof {
            law_insert_binds_each_value_in_order(column_set@);
            lemma_set_values_encodable(column_set@);
        }
        let pieces = column_set.into_insert_pieces();
        push_pieces(self, pieces);
        self
    }
}

/// Appending a column set as the assignments of an `UPDATE`.
pub trait PushValuesForUpdate<'a> {
    /// Whether the column set can be appended without a panic.
    spec fn accepts_update(&self, column_set: ColumnSet<'a>) -> bool;

    /// Appends ` SET column = placeholder...` and binds the values.
    fn push_values_for_update(&mut self, column_set: ColumnSet<'a>) -> &mut Self
        requires
            old(self).accepts_update(column_set),
    ;
}

impl<'a> PushValuesForUpdate<'a> for PgQueryBuilder<'a> {
    open spec fn accepts_update(&self, column_set: ColumnSet<'a>) -> bool {
        can_push(*self, column_set@)
    }

    fn push_values_for_update(&mut self, column_set: ColumnSet<'a>) -> (r: &mut Self)
        ensures
            builder_contents(*r) == Some(
                (
                    builder_sql(*old(self)) + pushed_sql(update_pieces(column_set@), builder_args(*old(self)).len()),
                    builder_args(*old(self)) + set_values(column_set@),
                ),
            ),
            *final(self) == *final(r),
    {
        proof {
            law_update_binds_each_value_in_order(column_set@);
            lemma_set_values_encodable(column_set@);
        }
        let pieces = column_set.into_update_pieces();
        push_pieces(self, pieces);
        self
    }
}

/// Appending a column set as a `WHERE` clause.
pub trait PushAsWhereClause<'a> {
    /// Whether the column set can be appended without a panic.
    spec fn accepts_where(&self, column_set: ColumnSet<'a>) -> bool;

    /// Appends ` WHERE condition AND ...` (nothing for an empty set) and
    /// binds the values.
    fn push_as_where_clause(&mut self, column_set: ColumnSet<'a>) -> &mut Self
        requires
            old(self).accepts_where(column_set),
    ;
}

impl<'a> PushAsWhereClause<'a> for PgQueryBuilder<'a> {
    open spec fn accepts_where(&self, column_set: ColumnSet<'a>) -> bool {
        can_push(*self, column_set@)
    }

    fn push_as_where_clause(&mut self, column_set: ColumnSet<'a>) -> (r: &mut Self)
        ensures
            builder_contents(*r) == Some(
                (
                    builder_sql(*old(self)) + pushed_sql(where_pieces(column_set@), builder_args(*old(self)).len()),
                    builder_args(*old(self)) + set_values(column_set@),
                ),
            ),
            *final(self) == *final(r),
    {
        proof {
            law_where_binds_each_value_in_order(column_set@);
            lemma_set_values_encodable(column_set@);
        }
        let pieces = column_set.into_where_pieces();
        push_pieces(self, pieces);
        self
    }
}

} // verus!
