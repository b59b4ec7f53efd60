//! Column sets for building SQL statements: named values that render as the
//! column list and `VALUES` of an `INSERT`, the assignments of an `UPDATE`,
//! or the conditions of a `WHERE` clause. Rendering yields the sequence of
//! SQL fragments and bound arguments to hand to a query builder.
use vstd::prelude::*;
use vstd::string::*;
use crate::text::reversed;

verus! {

/// How a column and its value are wrapped in a comparison.
pub enum ColumnWrap {
    /// Compare `LOWER(column)` with `LOWER(value)`.
    ToLower,
}

/// A value bound for a column.
pub enum ColumnKind<'a> {
    Bool(bool),
    String(String),
    Strings(&'a Vec<String>),
    I64(i64),
}

/// Plain-value model of a `ColumnKind`.
pub enum KindModel {
    Bool(bool),
    Str(Seq<char>),
    Strs(Seq<Seq<char>>),
    I64(i64),
}

impl<'a> View for ColumnKind<'a> {
    type V = KindModel;

    open spec fn view(&self) -> KindModel {
        match self {
            ColumnKind::Bool(b) => KindModel::Bool(*b),
            ColumnKind::String(s) => KindModel::Str(s@),
            ColumnKind::Strings(v) => KindModel::Strs(v@.map_values(|s: String| s@)),
            ColumnKind::I64(i) => KindModel::I64(*i),
        }
    }
}

impl<'a> From<&'a str> for ColumnKind<'a> {
    fn from(value: &'a str) -> (r: Self)
        ensures
            r@ == KindModel::Str(value@),
    {
        ColumnKind::String(value.to_owned())
    }
}

impl<'a> From<String> for ColumnKind<'a> {
    fn from(value: String) -> (r: Self)
        ensures
            r@ == KindModel::Str(value@),
    {
        ColumnKind::String(value)
    }
}

impl<'a> From<&'a Vec<String>> for ColumnKind<'a> {
    fn from(value: &'a Vec<String>) -> (r: Self)
        ensures
            r@ == KindModel::Strs(value@.map_values(|s: String| s@)),
    {
        ColumnKind::Strings(value)
    }
}

impl<'a> From<bool> for ColumnKind<'a> {
    fn from(value: bool) -> (r: Self)
        ensures
            r@ == KindModel::Bool(value),
    {
        ColumnKind::Bool(value)
    }
}

impl<'a> From<i64> for ColumnKind<'a> {
    fn from(value: i64) -> (r: Self)
        ensures
            r@ == KindModel::I64(value),
    {
        ColumnKind::I64(value)
    }
}


impl<'a> vstd::std_specs::convert::FromSpecImpl<&'a str> for ColumnKind<'a> {
    open spec fn obeys_from_spec() -> bool {
        false
    }

    open spec fn from_spec(v: &'a str) -> ColumnKind<'a> {
        ColumnKind::Bool(false)
    }
}

impl<'a> vstd::std_specs::convert::FromSpecImpl<String> for ColumnKind<'a> {
    open spec fn obeys_from_spec() -> bool {
        true
    }

    open spec fn from_spec(v: String) -> ColumnKind<'a> {
        ColumnKind::String(v)
    }
}

impl<'a> vstd::std_specs::convert::FromSpecImpl<&'a Vec<String>> for ColumnKind<'a> {
    open spec fn obeys_from_spec() -> bool {
        true
    }

    open spec fn from_spec(v: &'a Vec<String>) -> ColumnKind<'a> {
        ColumnKind::Strings(v)
    }
}

impl<'a> vstd::std_specs::convert::FromSpecImpl<bool> for ColumnKind<'a> {
    open spec fn obeys_from_spec() -> bool {
        true
    }

    open spec fn from_spec(v: bool) -> ColumnKind<'a> {
        ColumnKind::Bool(v)
    }
}

impl<'a> vstd::std_specs::convert::FromSpecImpl<i64> for ColumnKind<'a> {
    open spec fn obeys_from_spec() -> bool {
        true
    }

    open spec fn from_spec(v: i64) -> ColumnKind<'a> {
        ColumnKind::I64(v)
    }
}


/// A value with its optional wrapping.
pub struct ColumnValue<'a> {
    wrap: Option<ColumnWrap>,
    kind: ColumnKind<'a>,
}

/// Plain-value model of a `ColumnValue`: whether it compares lower-cased,
/// and the bound value.
pub struct ValueModel {
    pub to_lower: bool,
    pub kind: KindModel,
}

impl<'a> View for ColumnValue<'a> {
    type V = ValueModel;

    closed spec fn view(&self) -> ValueModel {
        ValueModel { to_lower: self.wrap is Some, kind: self.kind@ }
    }
}

impl<'a> ColumnValue<'a> {
    /// The bound value.
    pub fn kind(&self) -> (k: &ColumnKind<'a>)
        ensures
            k@ == self@.kind,
    {
        &self.kind
    }

    /// Whether column and value compare lower-cased.
    pub fn is_to_lower(&self) -> (b: bool)
        ensures
            b == self@.to_lower,
    {
        self.wrap.is_some()
    }

    /// The bound value, consuming the column value.
    pub fn into_kind(self) -> (k: ColumnKind<'a>)
        ensures
            k@ == self@.kind,
    {
        self.kind
    }
}

/// An ordered list of columns with the values to bind for them.
pub struct ColumnSet<'a> {
    set: Vec<(&'static str, ColumnValue<'a>)>,
}

/// Model of one entry: the column name and its value.
pub open spec fn entry_model<'a>(e: (&'static str, ColumnValue<'a>)) -> (Seq<char>, ValueModel) {
    (e.0@, e.1@)
}

impl<'a> View for ColumnSet<'a> {
    type V = Seq<(Seq<char>, ValueModel)>;

    closed spec fn view(&self) -> Seq<(Seq<char>, ValueModel)> {
        self.set@.map_values(|e: (&'static str, ColumnValue<'a>)| entry_model(e))
    }
}

impl<'a> ColumnSet<'a> {
    /// An empty column set.
    pub fn new() -> (c: ColumnSet<'a>)
        ensures
            c@ == Seq::<(Seq<char>, ValueModel)>::empty(),
    {
        let c = ColumnSet { set: Vec::new() };
        assert(c@ =~= Seq::<(Seq<char>, ValueModel)>::empty());
        c
    }

    fn push_entry(&mut self, column: &'static str, value: ColumnValue<'a>)
        ensures
            final(self)@ == old(self)@.push((column@, value@)),
    {
        let ghost before = self@;
        self.set.push((column, value));
        assert(self@ =~= before.push((column@, value@)));
    }

    /// Appends `column` with `value`, compared as is.
    pub fn push<V>(&mut self, column: &'static str, value: V) where ColumnKind<'a>: From<V>
        ensures
            final(self)@.len() == old(self)@.len() + 1,
            final(self)@.take(old(self)@.len() as int) == old(self)@,
            final(self)@.last().0 == column@,
            !final(self)@.last().1.to_lower,
            exists|k: ColumnKind<'a>|
                call_ensures(ColumnKind::<'a>::from, (value,), k) && k@ == final(self)@.last().1.kind,
    {
        let kind = ColumnKind::<'a>::from(value);
        self.push_entry(column, ColumnValue { wrap: None, kind });
        assert(self@.take(old(self)@.len() as int) =~= old(self)@);
    }

    /// Appends `column` with `value`, wrapped as `column_wrap` says.
    pub fn push_wrapped<V>(&mut self, column: &'static str, value: V, column_wrap: ColumnWrap) where
        ColumnKind<'a>: From<V>,
        ensures
            final(self)@.len() == old(self)@.len() + 1,
            final(self)@.take(old(self)@.len() as int) == old(self)@,
            final(self)@.last().0 == column@,
            final(self)@.last().1.to_lower,
            exists|k: ColumnKind<'a>|
                call_ensures(ColumnKind::<'a>::from, (value,), k) && k@ == final(self)@.last().1.kind,
    {
        let kind = ColumnKind::<'a>::from(value);
        self.push_entry(column, ColumnValue { wrap: Some(column_wrap), kind });
        assert(self@.take(old(self)@.len() as int) =~= old(self)@);
    }

    /// Appends `column` when `value` is `Some`; otherwise leaves the set as is.
    pub fn push_if_some<V>(&mut self, column: &'static str, value: Option<V>) where
        ColumnKind<'a>: From<V>,
        ensures
            value is None ==> final(self)@ == old(self)@,
            value is Some ==> {
                &&& final(self)@.len() == old(self)@.len() + 1
                &&& final(self)@.take(old(self)@.len() as int) == old(self)@
                &&& final(self)@.last().0 == column@
                &&& !final(self)@.last().1.to_lower
                &&& exists|k: ColumnKind<'a>|
                    call_ensures(ColumnKind::<'a>::from, (value->0,), k) && k@ == final(self)@.last().1.kind
            },
    {
        if let Some(value) = value {
            let kind = ColumnKind::<'a>::from(value);
            self.push_entry(column, ColumnValue { wrap: None, kind });
            assert(self@.take(old(self)@.len() as int) =~= old(self)@);
        }
    }

    /// Appends `column`, wrapped as `column_wrap` says, when `value` is
    /// `Some`; otherwise leaves the set as is.
    pub fn push_wrapped_if_some<V>(
        &mut self,
        column: &'static str,
        value: Option<V>,
        column_wrap: ColumnWrap,
    ) where ColumnKind<'a>: From<V>
        ensures
            value is None ==> final(self)@ == old(self)@,
            value is Some ==> {
                &&& final(self)@.len() == old(self)@.len() + 1
                &&& final(self)@.take(old(self)@.len() as int) == old(self)@
                &&& final(self)@.last().0 == column@
                &&& final(self)@.last().1.to_lower
                &&& exists|k: ColumnKind<'a>|
                    call_ensures(ColumnKind::<'a>::from, (value->0,), k) && k@ == final(self)@.last().1.kind
            },
    {
        if let Some(value) = value {
            let kind = ColumnKind::<'a>::from(value);
            self.push_entry(column, ColumnValue { wrap: Some(column_wrap), kind });
            assert(self@.take(old(self)@.len() as int) =~= old(self)@);
        }
    }

    /// Whether the set has no columns.
    pub fn is_empty(&self) -> (b: bool)
        ensures
            b == (self@.len() == 0),
    {
        self.set.len() == 0
    }

    /// The number of columns.
    pub fn len(&self) -> (n: usize)
        ensures
            n == self@.len(),
    {
        self.set.len()
    }

    /// The column names and the values, in order.
    pub fn into_parts(self) -> (parts: (Vec<&'static str>, Vec<ColumnValue<'a>>))
        ensures
            parts.0@.len() == self@.len(),
            parts.1@.len() == self@.len(),
            forall|i: int| 0 <= i < self@.len() ==> (#[trigger] parts.0@[i])@ == self@[i].0,
            forall|i: int| 0 <= i < self@.len() ==> (#[trigger] parts.1@[i])@ == self@[i].1,
    {
        let ghost model = self@;
        let mut set = self.set;
        let mut rev_cols: Vec<&'static str> = Vec::new();
        let mut rev_vals: Vec<ColumnValue<'a>> = Vec::new();
        while set.len() > 0
            invariant
                set@.len() + rev_cols@.len() == model.len(),
                rev_vals@.len() == rev_cols@.len(),
                forall|i: int| 0 <= i < set@.len() ==> entry_model(#[trigger] set@[i]) == model[i],
                forall|j: int|
                    0 <= j < rev_cols@.len() ==> (#[trigger] rev_cols@[j])@ == model[model.len() - 1 - j].0,
                forall|j: int|
                    0 <= j < rev_vals@.len() ==> (#[trigger] rev_vals@[j])@ == model[model.len() - 1 - j].1,
            decreases set.len(),
        {
            let (c, v) = set.pop().unwrap();
            rev_cols.push(c);
            rev_vals.push(v);
        }
        let mut cols: Vec<&'static str> = Vec::new();
        let mut vals: Vec<ColumnValue<'a>> = Vec::new();
        while rev_cols.len() > 0
            invariant
                rev_vals@.len() == rev_cols@.len(),
                cols@.len() == vals@.len(),
                cols@.len() + rev_cols@.len() == model.len(),
                forall|j: int|
                    0 <= j < rev_cols@.len() ==> (#[trigger] rev_cols@[j])@ == model[model.len() - 1 - j].0,
                forall|j: int|
                    0 <= j < rev_vals@.len() ==> (#[trigger] rev_vals@[j])@ == model[model.len() - 1 - j].1,
                forall|i: int| 0 <= i < cols@.len() ==> (#[trigger] cols@[i])@ == model[i].0,
                forall|i: int| 0 <= i < vals@.len() ==> (#[trigger] vals@[i])@ == model[i].1,
            decreases rev_cols.len(),
        {
            let c = rev_cols.pop().unwrap();
            let v = rev_vals.pop().unwrap();
            cols.push(c);
            vals.push(v);
        }
        (cols, vals)
    }
}


/// One step of building a statement: a SQL fragment to append, or a value to
/// bind (which appends its placeholder).
pub enum QueryPiece<'a> {
    Sql(&'static str),
    Bind(ColumnKind<'a>),
}

/// Plain-value model of a `QueryPiece`.
pub enum PieceModel {
    Sql(Seq<char>),
    Bind(KindModel),
}

impl<'a> View for QueryPiece<'a> {
    type V = PieceModel;

    open spec fn view(&self) -> PieceModel {
        match self {
            QueryPiece::Sql(s) => PieceModel::Sql(s@),
            QueryPiece::Bind(k) => PieceModel::Bind(k@),
        }
    }
}

/// Items separated by `, ` fragments.
pub open spec fn separated(items: Seq<PieceModel>) -> Seq<PieceModel>
    decreases items.len(),
{
    if items.len() == 0 {
        seq![]
    } else if items.len() == 1 {
        seq![items[0]]
    } else {
        separated(items.drop_last()) + seq![PieceModel::Sql(", "@), items.last()]
    }
}

/// The steps that append ` (columns) VALUES (values)` for an `INSERT`.
pub open spec fn insert_pieces(set: Seq<(Seq<char>, ValueModel)>) -> Seq<PieceModel> {
    seq![PieceModel::Sql(" ("@)] + separated(column_fragments(set)) + seq![PieceModel::Sql(") VALUES ("@)]
        + separated(value_binds(set)) + seq![PieceModel::Sql(")"@)]
}

/// The steps for the `k`-th assignment of an `UPDATE`: the column, ` = `, and
/// the bound value; the value's `, ` separator is appended right before it
/// (every value but the first), after the ` = `.
pub open spec fn update_entry(k: int, e: (Seq<char>, ValueModel)) -> Seq<PieceModel> {
    seq![PieceModel::Sql(e.0), PieceModel::Sql(" = "@)] + if k > 0 {
        seq![PieceModel::Sql(", "@)]
    } else {
        seq![]
    } + seq![PieceModel::Bind(e.1.kind)]
}

/// The steps for all assignments of an `UPDATE`, in order.
pub open spec fn update_entries(set: Seq<(Seq<char>, ValueModel)>) -> Seq<PieceModel>
    decreases set.len(),
{
    if set.len() == 0 {
        seq![]
    } else {
        update_entries(set.drop_last()) + update_entry(set.len() - 1, set.last())
    }
}

/// The steps that append ` SET ...` for an `UPDATE`.
pub open spec fn update_pieces(set: Seq<(Seq<char>, ValueModel)>) -> Seq<PieceModel> {
    seq![PieceModel::Sql(" SET "@)] + update_entries(set)
}

/// The comparison operator for a value: `&&` (overlap) for string arrays,
/// `=` otherwise.
pub open spec fn where_op(kind: KindModel) -> Seq<char> {
    if kind is Strs {
        "&&"@
    } else {
        "="@
    }
}

/// The steps for the `k`-th condition of a `WHERE` clause.
pub open spec fn where_entry(k: int, e: (Seq<char>, ValueModel)) -> Seq<PieceModel> {
    let op = where_op(e.1.kind);
    seq![PieceModel::Sql(if k == 0 { " WHERE "@ } else { " AND "@ })] + if e.1.to_lower {
        seq![
            PieceModel::Sql("LOWER("@),
            PieceModel::Sql(e.0),
            PieceModel::Sql(") "@),
            PieceModel::Sql(op),
            PieceModel::Sql(" LOWER("@),
        ]
    } else {
        seq![PieceModel::Sql(e.0), PieceModel::Sql(" "@), PieceModel::Sql(op), PieceModel::Sql(" "@)]
    } + seq![PieceModel::Bind(e.1.kind)] + if e.1.to_lower {
        seq![PieceModel::Sql(")"@)]
    } else {
        seq![]
    }
}

/// The steps for all conditions of a `WHERE` clause, in order (nothing for
/// an empty set).
pub open spec fn where_pieces(set: Seq<(Seq<char>, ValueModel)>) -> Seq<PieceModel>
    decreases set.len(),
{
    if set.len() == 0 {
        seq![]
    } else {
        where_pieces(set.drop_last()) + where_entry(set.len() - 1, set.last())
    }
}

/// Model of a list of steps.
pub open spec fn pieces_model<'a>(v: Seq<QueryPiece<'a>>) -> Seq<PieceModel> {
    v.map_values(|p: QueryPiece<'a>| p@)
}

/// Appends `items` to `out`, separated by `, ` fragments.
fn push_separated<'a>(out: &mut Vec<QueryPiece<'a>>, items: Vec<QueryPiece<'a>>)
    ensures
        pieces_model(final(out)@) == pieces_model(old(out)@) + separated(pieces_model(items@)),
{
    let ghost start = pieces_model(out@);
    let ghost all = pieces_model(items@);
    let n = items.len();
    let mut rest = reversed(items);
    let mut k: usize = 0;
    assert(all.take(0) =~= Seq::<PieceModel>::empty());
    assert(pieces_model(out@) =~= start + separated(all.take(0)));
    while rest.len() > 0
        invariant
            n == all.len(),
            k + rest@.len() == n,
            forall|j: int| 0 <= j < rest@.len() ==> (#[trigger] rest@[j])@ == all[n - 1 - j],
            pieces_model(out@) == start + separated(all.take(k as int)),
        decreases rest.len(),
    {
        let ghost before = pieces_model(out@);
        let p = rest.pop().unwrap();
        let ghost pv = p@;
        assert(pv == all[k as int]);
        if k > 0 {
            out.push(QueryPiece::Sql(", "));
        }
        out.push(p);
        k = k + 1;
        assert(all.take(k as int).drop_last() =~= all.take(k - 1));
        assert(all.take(k as int).last() == pv);
        if k == 1 {
            assert(all.take(k as int) =~= seq![pv]);
            assert(pieces_model(out@) =~= start + seq![pv]);
        } else {
            assert(pieces_model(out@) =~= before + seq![PieceModel::Sql(", "@), pv]);
        }
    }
    assert(all.take(k as int) =~= all);
}

/// The column names, as SQL fragments.
pub open spec fn column_fragments(set: Seq<(Seq<char>, ValueModel)>) -> Seq<PieceModel> {
    set.map_values(|e: (Seq<char>, ValueModel)| PieceModel::Sql(e.0))
}

/// The values, as binds.
pub open spec fn value_binds(set: Seq<(Seq<char>, ValueModel)>) -> Seq<PieceModel> {
    set.map_values(|e: (Seq<char>, ValueModel)| PieceModel::Bind(e.1.kind))
}

impl<'a> ColumnSet<'a> {
    /// The steps that append ` (columns) VALUES (values)` for an `INSERT`.
    pub fn into_insert_pieces(self) -> (r: Vec<QueryPiece<'a>>)
        ensures
            pieces_model(r@) == insert_pieces(self@),
    {
        let ghost model = self@;
        let (cols, vals) = self.into_parts();
        let mut col_pieces: Vec<QueryPiece<'a>> = Vec::new();
        let mut i: usize = 0;
        while i < cols.len()
            invariant
                cols@.len() == model.len(),
                forall|j: int| 0 <= j < model.len() ==> (#[trigger] cols@[j])@ == model[j].0,
                i <= cols.len(),
                pieces_model(col_pieces@) == column_fragments(model).take(i as int),
            decreases cols.len() - i,
        {
            let ghost before = pieces_model(col_pieces@);
            col_pieces.push(QueryPiece::Sql(cols[i]));
            assert(pieces_model(col_pieces@) =~= before.push(PieceModel::Sql(model[i as int].0)));
            assert(column_fragments(model).take(i + 1) =~= column_fragments(model).take(i as int).push(
                column_fragments(model)[i as int],
            ));
            i = i + 1;
        }
        assert(column_fragments(model).take(cols.len() as int) =~= column_fragments(model));
        let mut val_pieces: Vec<QueryPiece<'a>> = Vec::new();
        let n = vals.len();
        let mut rest = reversed(vals);
        let mut k: usize = 0;
        while rest.len() > 0
            invariant
                n == model.len(),
                k + rest@.len() == n,
                forall|j: int| 0 <= j < rest@.len() ==> (#[trigger] rest@[j])@ == model[n - 1 - j].1,
                pieces_model(val_pieces@) == value_binds(model).take(k as int),
            decreases rest.len(),
        {
            let ghost before = pieces_model(val_pieces@);
            let v = rest.pop().unwrap();
            let kind = v.into_kind();
            let ghost kv = kind@;
            assert(kv == model[k as int].1.kind);
            val_pieces.push(QueryPiece::Bind(kind));
            assert(pieces_model(val_pieces@) =~= before.push(PieceModel::Bind(kv)));
            assert(value_binds(model).take(k + 1) =~= value_binds(model).take(k as int).push(
                value_binds(model)[k as int],
            ));
            k = k + 1;
        }
        assert(value_binds(model).take(k as int) =~= value_binds(model));
        let mut out: Vec<QueryPiece<'a>> = Vec::new();
        out.push(QueryPiece::Sql(" ("));
        let ghost s1 = pieces_model(out@);
        assert(s1 =~= seq![PieceModel::Sql(" ("@)]);
        push_separated(&mut out, col_pieces);
        let ghost s2 = pieces_model(out@);
        out.push(QueryPiece::Sql(") VALUES ("));
        assert(pieces_model(out@) =~= s2.push(PieceModel::Sql(") VALUES ("@)));
        let ghost s3 = pieces_model(out@);
        push_separated(&mut out, val_pieces);
        let ghost s4 = pieces_model(out@);
        out.push(QueryPiece::Sql(")"));
        assert(pieces_model(out@) =~= s4.push(PieceModel::Sql(")"@)));
        assert(pieces_model(out@) =~= insert_pieces(model));
        out
    }

    /// The steps that append ` SET column = value...` for an `UPDATE`.
    pub fn into_update_pieces(self) -> (r: Vec<QueryPiece<'a>>)
        ensures
            pieces_model(r@) == update_pieces(self@),
    {
        let ghost model = self@;
        let (cols, vals) = self.into_parts();
        let mut out: Vec<QueryPiece<'a>> = Vec::new();
        out.push(QueryPiece::Sql(" SET "));
        let n = vals.len();
        let mut rest = reversed(vals);
        let mut k: usize = 0;
        while rest.len() > 0
            invariant
                cols@.len() == model.len(),
                forall|j: int| 0 <= j < model.len() ==> (#[trigger] cols@[j])@ == model[j].0,
                n == model.len(),
                k + rest@.len() == n,
                forall|j: int| 0 <= j < rest@.len() ==> (#[trigger] rest@[j])@ == model[n - 1 - j].1,
                pieces_model(out@) == seq![PieceModel::Sql(" SET "@)] + update_entries(model.take(k as int)),
            decreases rest.len(),
        {
            let ghost before = pieces_model(out@);
            let v = rest.pop().unwrap();
            out.push(QueryPiece::Sql(cols[k]));
            out.push(QueryPiece::Sql(" = "));
            if k > 0 {
                out.push(QueryPiece::Sql(", "));
            }
            out.push(QueryPiece::Bind(v.into_kind()));
            k = k + 1;
            assert(model.take(k as int).drop_last() =~= model.take(k - 1));
            assert(pieces_model(out@) =~= before + update_entry(k - 1, model[k - 1]));
        }
        assert(model.take(k as int) =~= model);
        out
    }

    /// The steps that append ` WHERE c1 op v1 AND c2 op v2 ...`; nothing for
    /// an empty set.
    pub fn into_where_pieces(self) -> (r: Vec<QueryPiece<'a>>)
        ensures
            pieces_model(r@) == where_pieces(self@),
    {
        let ghost model = self@;
        let (cols, vals) = self.into_parts();
        let mut out: Vec<QueryPiece<'a>> = Vec::new();
        let n = vals.len();
        let mut rest = reversed(vals);
        let mut k: usize = 0;
        assert(model.take(0) =~= Seq::<(Seq<char>, ValueModel)>::empty());
        assert(pieces_model(out@) =~= seq![]);
        while rest.len() > 0
            invariant
                cols@.len() == model.len(),
                forall|j: int| 0 <= j < model.len() ==> (#[trigger] cols@[j])@ == model[j].0,
                n == model.len(),
                k + rest@.len() == n,
                forall|j: int| 0 <= j < rest@.len() ==> (#[trigger] rest@[j])@ == model[n - 1 - j].1,
                pieces_model(out@) == where_pieces(model.take(k as int)),
            decreases rest.len(),
        {
            let ghost before = pieces_model(out@);
            let v = rest.pop().unwrap();
            let lower = v.is_to_lower();
            let kind = v.into_kind();
            let op: &'static str = match &kind {
                ColumnKind::Strings(_) => "&&",
                _ => "=",
            };
            if k == 0 {
                out.push(QueryPiece::Sql(" WHERE "));
            } else {
                out.push(QueryPiece::Sql(" AND "));
            }
            if lower {
                out.push(QueryPiece::Sql("LOWER("));
                out.push(QueryPiece::Sql(cols[k]));
                out.push(QueryPiece::Sql(") "));
                out.push(QueryPiece::Sql(op));
                out.push(QueryPiece::Sql(" LOWER("));
            } else {
                out.push(QueryPiece::Sql(cols[k]));
                out.push(QueryPiece::Sql(" "));
                out.push(QueryPiece::Sql(op));
                out.push(QueryPiece::Sql(" "));
            }
            out.push(QueryPiece::Bind(kind));
            if lower {
                out.push(QueryPiece::Sql(")"));
            }
            k = k + 1;
            assert(model.take(k as int).drop_last() =~= model.take(k - 1));
            assert(pieces_model(out@) =~= before + where_entry(k - 1, model[k - 1]));
        }
        assert(model.take(k as int) =~= model);
        out
    }
}

/// A value when it is not empty.
pub trait IfNonEmpty {
    /// `None` for an empty value, otherwise the value itself.
    fn if_non_empty(&self) -> Option<&Self>;
}

impl IfNonEmpty for Vec<String> {
    fn if_non_empty(&self) -> (r: Option<&Self>)
        ensures
            self@.len() == 0 ==> r is None,
            self@.len() != 0 ==> r == Some(self),
    {
        if self.len() == 0 {
            None
        } else {
            Some(self)
        }
    }
}


// ---------------------------------------------------------------------
// Laws
// ---------------------------------------------------------------------

/// The values that a list of steps binds, in order.
pub open spec fn bound_values(ps: Seq<PieceModel>) -> Seq<KindModel>
    decreases ps.len(),
{
    if ps.len() == 0 {
        seq![]
    } else {
        match ps.last() {
            PieceModel::Bind(k) => bound_values(ps.drop_last()).push(k),
            PieceModel::Sql(_) => bound_values(ps.drop_last()),
        }
    }
}

/// The values of a column set, in column order.
pub open spec fn set_values(set: Seq<(Seq<char>, ValueModel)>) -> Seq<KindModel> {
    set.map_values(|e: (Seq<char>, ValueModel)| e.1.kind)
}

pub(crate) proof fn lemma_bound_values_concat(a: Seq<PieceModel>, b: Seq<PieceModel>)
    ensures
        bound_values(a + b) == bound_values(a) + bound_values(b),
    decreases b.len(),
{
    if b.len() == 0 {
        assert(a + b =~= a);
        assert(bound_values(a) + bound_values(b) =~= bound_values(a));
    } else {
        lemma_bound_values_concat(a, b.drop_last());
        assert((a + b).drop_last() =~= a + b.drop_last());
        assert((a + b).last() == b.last());
        match b.last() {
            PieceModel::Bind(k) => {
                assert(bound_values(a) + bound_values(b) =~= (bound_values(a) + bound_values(
                    b.drop_last(),
                )).push(k));
            },
            PieceModel::Sql(_) => {},
        }
    }
}

proof fn lemma_bound_values_sql_only(ps: Seq<PieceModel>)
    requires
        forall|i: int| 0 <= i < ps.len() ==> #[trigger] ps[i] is Sql,
    ensures
        bound_values(ps) == Seq::<KindModel>::empty(),
    decreases ps.len(),
{
    if ps.len() > 0 {
        lemma_bound_values_sql_only(ps.drop_last());
    }
}

proof fn lemma_separated_items(items: Seq<PieceModel>)
    ensures
        forall|i: int| 0 <= i < separated(items).len() ==> (#[trigger] separated(items)[i] is Bind)
            ==> items.contains(separated(items)[i]),
        bound_values(separated(items)) == bound_values(items),
    decreases items.len(),
{
    if items.len() > 1 {
        let init = items.drop_last();
        lemma_separated_items(init);
        let tail = seq![PieceModel::Sql(", "@), items.last()];
        lemma_bound_values_concat(separated(init), tail);
        lemma_bound_values_concat(seq![PieceModel::Sql(", "@)], seq![items.last()]);
        assert(tail =~= seq![PieceModel::Sql(", "@)] + seq![items.last()]);
        assert(init.push(items.last()) =~= items);
        assert(init + seq![items.last()] =~= items);
        lemma_bound_values_concat(init, seq![items.last()]);
        assert(seq![items.last()].drop_last() =~= Seq::<PieceModel>::empty());
        assert(seq![items.last()].last() == items.last());
        assert(bound_values(Seq::<PieceModel>::empty()) == Seq::<KindModel>::empty());
        assert(seq![PieceModel::Sql(", "@)].drop_last() =~= Seq::<PieceModel>::empty());
        assert forall|i: int| 0 <= i < separated(items).len() && (#[trigger] separated(items)[i] is Bind)
            implies items.contains(separated(items)[i]) by {
            if i < separated(init).len() {
                assert(separated(items)[i] == separated(init)[i]);
                let x = separated(init)[i];
                let j = choose|j: int| 0 <= j < init.len() && init[j] == x;
                assert(items[j] == x);
            } else {
                assert(separated(items)[i] == tail[i - separated(init).len()]);
                if i == separated(init).len() + 1 {
                    assert(items[items.len() - 1] == separated(items)[i]);
                }
            }
        }
    } else if items.len() == 1 {
        assert(seq![items[0]].drop_last() =~= Seq::<PieceModel>::empty());
        assert(items.drop_last() =~= Seq::<PieceModel>::empty());
        assert(items[0] == items.last());
        assert(items[0] == separated(items)[0]);
        assert(seq![items[0]] =~= items);
    }
}

proof fn lemma_column_fragments_sql(set: Seq<(Seq<char>, ValueModel)>)
    ensures
        bound_values(separated(column_fragments(set))) == Seq::<KindModel>::empty(),
{
    lemma_separated_items(column_fragments(set));
    lemma_bound_values_sql_only(column_fragments(set));
}

proof fn lemma_value_binds(set: Seq<(Seq<char>, ValueModel)>)
    ensures
        bound_values(value_binds(set)) == set_values(set),
    decreases set.len(),
{
    if set.len() > 0 {
        lemma_value_binds(set.drop_last());
        assert(value_binds(set).drop_last() =~= value_binds(set.drop_last()));
        assert(set_values(set) =~= set_values(set.drop_last()).push(set.last().1.kind));
    } else {
        assert(set_values(set) =~= Seq::<KindModel>::empty());
    }
}

/// An `INSERT` binds every value once, in column order.
pub proof fn law_insert_binds_each_value_in_order(set: Seq<(Seq<char>, ValueModel)>)
    ensures
        bound_values(insert_pieces(set)) == set_values(set),
{
    let a = seq![PieceModel::Sql(" ("@)];
    let b = separated(column_fragments(set));
    let c = seq![PieceModel::Sql(") VALUES ("@)];
    let d = separated(value_binds(set));
    let e = seq![PieceModel::Sql(")"@)];
    lemma_column_fragments_sql(set);
    lemma_separated_items(value_binds(set));
    lemma_value_binds(set);
    lemma_bound_values_sql_only(a);
    lemma_bound_values_sql_only(c);
    lemma_bound_values_sql_only(e);
    lemma_bound_values_concat(a, b);
    lemma_bound_values_concat(a + b, c);
    lemma_bound_values_concat(a + b + c, d);
    lemma_bound_values_concat(a + b + c + d, e);
    assert(insert_pieces(set) == a + b + c + d + e);
    assert(bound_values(insert_pieces(set)) =~= set_values(set));
}

/// An `UPDATE` binds every value once, in column order.
pub proof fn law_update_binds_each_value_in_order(set: Seq<(Seq<char>, ValueModel)>)
    ensures
        bound_values(update_pieces(set)) == set_values(set),
{
    lemma_update_entries_binds(set);
    lemma_bound_values_sql_only(seq![PieceModel::Sql(" SET "@)]);
    lemma_bound_values_concat(seq![PieceModel::Sql(" SET "@)], update_entries(set));
    assert(bound_values(update_pieces(set)) =~= set_values(set));
}

proof fn lemma_update_entries_binds(set: Seq<(Seq<char>, ValueModel)>)
    ensures
        bound_values(update_entries(set)) == set_values(set),
    decreases set.len(),
{
    if set.len() > 0 {
        let k = set.len() - 1;
        let e = set.last();
        lemma_update_entries_binds(set.drop_last());
        let head = seq![PieceModel::Sql(e.0), PieceModel::Sql(" = "@)] + if k > 0 {
            seq![PieceModel::Sql(", "@)]
        } else {
            seq![]
        };
        lemma_bound_values_sql_only(head);
        lemma_bound_values_concat(head, seq![PieceModel::Bind(e.1.kind)]);
        assert(update_entry(k, e) == head + seq![PieceModel::Bind(e.1.kind)]);
        assert(seq![PieceModel::Bind(e.1.kind)].drop_last() =~= Seq::<PieceModel>::empty());
        assert(bound_values(Seq::<PieceModel>::empty()) == Seq::<KindModel>::empty());
        assert(bound_values(seq![PieceModel::Bind(e.1.kind)]) =~= seq![e.1.kind]);
        lemma_bound_values_concat(update_entries(set.drop_last()), update_entry(k, e));
        assert(set_values(set) =~= set_values(set.drop_last()).push(e.1.kind));
        assert(bound_values(update_entry(k, e)) =~= seq![e.1.kind]);
    } else {
        assert(set_values(set) =~= Seq::<KindModel>::empty());
    }
}

/// A `WHERE` clause binds every value once, in column order.
pub proof fn law_where_binds_each_value_in_order(set: Seq<(Seq<char>, ValueModel)>)
    ensures
        bound_values(where_pieces(set)) == set_values(set),
    decreases set.len(),
{
    if set.len() > 0 {
        let k = set.len() - 1;
        let e = set.last();
        law_where_binds_each_value_in_order(set.drop_last());
        let op = where_op(e.1.kind);
        let head = seq![PieceModel::Sql(if k == 0 { " WHERE "@ } else { " AND "@ })] + if e.1.to_lower {
            seq![
                PieceModel::Sql("LOWER("@),
                PieceModel::Sql(e.0),
                PieceModel::Sql(") "@),
                PieceModel::Sql(op),
                PieceModel::Sql(" LOWER("@),
            ]
        } else {
            seq![PieceModel::Sql(e.0), PieceModel::Sql(" "@), PieceModel::Sql(op), PieceModel::Sql(" "@)]
        };
        let tail = if e.1.to_lower {
            seq![PieceModel::Sql(")"@)]
        } else {
            seq![]
        };
        let mid = seq![PieceModel::Bind(e.1.kind)];
        lemma_bound_values_sql_only(head);
        lemma_bound_values_sql_only(tail);
        lemma_bound_values_concat(head, mid);
        lemma_bound_values_concat(head + mid, tail);
        assert(where_entry(k, e) == head + mid + tail);
        assert(mid.drop_last() =~= Seq::<PieceModel>::empty());
        assert(bound_values(Seq::<PieceModel>::empty()) == Seq::<KindModel>::empty());
        assert(bound_values(mid) =~= seq![e.1.kind]);
        assert(bound_values(where_entry(k, e)) =~= seq![e.1.kind]);
        lemma_bound_values_concat(where_pieces(set.drop_last()), where_entry(k, e));
        assert(set_values(set) =~= set_values(set.drop_last()).push(e.1.kind));
    } else {
        assert(set_values(set) =~= Seq::<KindModel>::empty());
    }
}

/// An empty column set adds no `WHERE` clause.
pub proof fn law_empty_set_has_no_where_clause()
    ensures
        where_pieces(Seq::<(Seq<char>, ValueModel)>::empty()) == Seq::<PieceModel>::empty(),
{
}


impl<'a> Default for ColumnSet<'a> {
    fn default() -> (c: Self)
        ensures
            c@ == Seq::<(Seq<char>, ValueModel)>::empty(),
    {
        ColumnSet::new()
    }
}

} // verus!
