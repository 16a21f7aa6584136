//! The parts of a query that planning carries along without reading them. Each
//! is held as its JSON text.

use vstd::prelude::*;

verus! {

/// An expression.
#[derive(Debug)]
pub struct Expr {
    pub json: String,
}

/// A sort key.
#[derive(Debug)]
pub struct OrderByItem {
    pub json: String,
}

/// An item of a projection.
#[derive(Debug)]
pub struct ProjectionItem {
    pub json: String,
}

/// An aggregate.
#[derive(Debug)]
pub struct AggExpr {
    pub json: String,
}

/// The kind of a join.
#[derive(Debug)]
pub struct JoinKind {
    pub json: String,
}

/// The JSON texts of expressions.
pub open spec fn expr_texts(v: Seq<Expr>) -> Seq<Seq<char>> {
    Seq::new(v.len(), |i: int| v[i].json@)
}

/// The JSON texts of sort keys.
pub open spec fn key_texts(v: Seq<OrderByItem>) -> Seq<Seq<char>> {
    Seq::new(v.len(), |i: int| v[i].json@)
}

/// The JSON texts of projection items.
pub open spec fn item_texts(v: Seq<ProjectionItem>) -> Seq<Seq<char>> {
    Seq::new(v.len(), |i: int| v[i].json@)
}

/// The JSON texts of aggregates.
pub open spec fn agg_texts(v: Seq<AggExpr>) -> Seq<Seq<char>> {
    Seq::new(v.len(), |i: int| v[i].json@)
}

/// JSON texts with commas between them.
pub open spec fn comma_separated(items: Seq<Seq<char>>) -> Seq<char>
    decreases items.len(),
{
    if items.len() == 0 {
        Seq::empty()
    } else if items.len() == 1 {
        items[0]
    } else {
        comma_separated(items.drop_last()) + ","@ + items.last()
    }
}

/// The JSON text of an array.
pub open spec fn json_array(items: Seq<Seq<char>>) -> Seq<char> {
    "["@ + comma_separated(items) + "]"@
}

/// What is held as its JSON text.
trait Carried: Sized {
    spec fn text(self) -> Seq<char>;

    fn json_text(&self) -> (r: &str)
        ensures
            r@ == self.text(),
    ;
}

impl Carried for Expr {
    spec fn text(self) -> Seq<char> {
        self.json@
    }

    fn json_text(&self) -> (r: &str) {
        self.json.as_str()
    }
}

impl Carried for OrderByItem {
    spec fn text(self) -> Seq<char> {
        self.json@
    }

    fn json_text(&self) -> (r: &str) {
        self.json.as_str()
    }
}

impl Carried for ProjectionItem {
    spec fn text(self) -> Seq<char> {
        self.json@
    }

    fn json_text(&self) -> (r: &str) {
        self.json.as_str()
    }
}

impl Carried for AggExpr {
    spec fn text(self) -> Seq<char> {
        self.json@
    }

    fn json_text(&self) -> (r: &str) {
        self.json.as_str()
    }
}

/// The JSON texts of a list.
spec fn carried_texts<T: Carried>(v: Seq<T>) -> Seq<Seq<char>> {
    Seq::new(v.len(), |i: int| v[i].text())
}

/// The JSON text of a list.
fn list_json<T: Carried>(v: &Vec<T>) -> (r: String)
    ensures
        r@ == json_array(carried_texts(v@)),
{
    let ghost items = carried_texts(v@);
    let mut out: String = "[".to_owned();
    let mut i: usize = 0;
    assert(items.take(0) =~= Seq::<Seq<char>>::empty());
    assert(out@ =~= "["@ + comma_separated(items.take(0)));
    while i < v.len()
        invariant
            i <= v@.len(),
            items == carried_texts(v@),
            out@ == "["@ + comma_separated(items.take(i as int)),
        decreases v@.len() - i,
    {
        let ghost after = items.take(i + 1);
        assert(after.drop_last() =~= items.take(i as int));
        assert(after.last() == v@[i as int].text());
        if i > 0 {
            out.append(",");
        }
        out.append(v[i].json_text());
        i = i + 1;
        assert(out@ =~= "["@ + comma_separated(after));
    }
    assert(items.take(v@.len() as int) =~= items);
    out.append("]");
    out
}

/// The JSON text of a list of expressions.
pub fn exprs_json(v: &Vec<Expr>) -> (r: String)
    ensures
        r@ == json_array(expr_texts(v@)),
{
    assert(carried_texts(v@) =~= expr_texts(v@));
    list_json(v)
}

/// The JSON text of a list of sort keys.
pub fn keys_json(v: &Vec<OrderByItem>) -> (r: String)
    ensures
        r@ == json_array(key_texts(v@)),
{
    assert(carried_texts(v@) =~= key_texts(v@));
    list_json(v)
}

/// The JSON text of a list of projection items.
pub fn items_json(v: &Vec<ProjectionItem>) -> (r: String)
    ensures
        r@ == json_array(item_texts(v@)),
{
    assert(carried_texts(v@) =~= item_texts(v@));
    list_json(v)
}

/// The JSON text of a list of aggregates.
pub fn aggregates_json(v: &Vec<AggExpr>) -> (r: String)
    ensures
        r@ == json_array(agg_texts(v@)),
{
    assert(carried_texts(v@) =~= agg_texts(v@));
    list_json(v)
}

/// Copies expressions.
pub fn copy_exprs(v: &Vec<Expr>) -> (r: Vec<Expr>)
    ensures
        r@ == v@,
{
    let mut r: Vec<Expr> = Vec::new();
    let mut i: usize = 0;
    while i < v.len()
        invariant
            i <= v@.len(),
            r@ =~= v@.take(i as int),
        decreases v@.len() - i,
    {
        r.push(Expr { json: v[i].json.clone() });
        i = i + 1;
    }
    assert(r@ =~= v@);
    r
}

/// Copies aggregates.
pub fn copy_aggregates(v: &Vec<AggExpr>) -> (r: Vec<AggExpr>)
    ensures
        r@ == v@,
{
    let mut r: Vec<AggExpr> = Vec::new();
    let mut i: usize = 0;
    while i < v.len()
        invariant
            i <= v@.len(),
            r@ =~= v@.take(i as int),
        decreases v@.len() - i,
    {
        r.push(AggExpr { json: v[i].json.clone() });
        i = i + 1;
    }
    assert(r@ =~= v@);
    r
}

} // verus!
