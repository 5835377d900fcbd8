use sea_cursor::cursor::{Cursor, CursorTrait};
use sea_cursor::identity::{Identity, IntoIdentity};
use sea_cursor::model::DbBackend;
use sea_cursor::query_order::QueryOrder;
use sea_cursor::select::{
    select_columns, EntityTrait, FromQueryResult, PartialModelTrait, QuerySelect, Select,
    SelectModel,
};
use sea_query::{Alias, Expr, IntoCondition, IntoValueTuple, Order, Value, ValueTuple};

struct Pair;

impl EntityTrait for Pair {
    type Model = (i32, i32);

    fn table_name() -> String {
        "p".to_owned()
    }

    fn columns() -> Vec<String> {
        vec!["a".to_owned(), "b".to_owned()]
    }
}

/// A number made from a row that holds its text.
#[derive(Debug, PartialEq)]
struct Number(i64);

impl FromQueryResult<String> for Number {
    type Err = String;

    fn from_query_result(res: &String, pre: &str) -> Result<Self, String> {
        let text = res.strip_prefix(pre).unwrap();
        text.parse().map(Number).map_err(|_| format!("not a number: {text}"))
    }
}

struct JustB;

impl PartialModelTrait for JustB {
    fn select_cols<Q: QuerySelect>(mut select: Q) -> Q {
        select.query().column((Alias::new("p"), Alias::new("b")));
        select
    }
}

fn by_a() -> Cursor<SelectModel<(i32, i32)>> {
    Select::<Pair>::new().cursor_by("a".to_owned())
}

fn by_a_b() -> Cursor<SelectModel<(i32, i32)>> {
    Select::<Pair>::new().cursor_by(("a".to_owned(), "b".to_owned()))
}

fn many(columns: &[&str]) -> Identity {
    Identity::Many(columns.iter().map(|c| c.to_string()).collect())
}

fn built<S>(cursor: &Cursor<S>) -> (String, Vec<Value>) {
    let (sql, values) = cursor.build(DbBackend::Postgres);
    (sql, values.0)
}

fn number(value: &Value) -> i32 {
    match value {
        Value::Int(Some(n)) => *n,
        _ => panic!("not a number"),
    }
}

/// Whether a row of the pair table passes a `WHERE` clause that is a disjunction of conjunctions.
fn passes<S>(cursor: &Cursor<S>, row: (i32, i32)) -> bool {
    let (sql, values) = built(cursor);
    let filter = sql.split(" WHERE ").nth(1).unwrap().to_owned();
    filter.split(" OR ").any(|conjunction| {
        let conjunction = conjunction.trim_start_matches('(').trim_end_matches(')');
        conjunction.split(" AND ").all(|comparison| {
            let words: Vec<&str> = comparison.split(' ').collect();
            let left = if words[0] == r#""p"."a""# { row.0 } else { row.1 };
            let position: usize = words[2].trim_start_matches('$').parse().unwrap();
            let right = number(&values[position - 1]);
            match words[1] {
                "=" => left == right,
                "<" => left < right,
                ">" => left > right,
                _ => panic!("no comparison"),
            }
        })
    })
}

fn grid() -> Vec<(i32, i32)> {
    (0..4).flat_map(|a| (0..4).map(move |b| (a, b))).collect()
}

#[test]
fn filter_is_lexicographic() {
    let mut before = by_a_b();
    before.before((1, 2).into_value_tuple());
    let mut after = by_a_b();
    after.after((1, 2).into_value_tuple());
    for row in grid() {
        assert_eq!(passes(&before, row), row < (1, 2));
        assert_eq!(passes(&after, row), row > (1, 2));
    }
}

#[test]
fn key_splits_the_rows() {
    let mut before = by_a_b();
    before.before((2, 1).into_value_tuple());
    let mut after = by_a_b();
    after.after((2, 1).into_value_tuple());
    for row in grid() {
        let sides = [passes(&before, row), passes(&after, row), row == (2, 1)];
        assert_eq!(sides.iter().filter(|side| **side).count(), 1);
    }
}

#[test]
fn forms_of_a_key_agree() {
    let key = || vec![Value::from(1), Value::from(2)];

    let mut pair = by_a_b();
    pair.after((1, 2).into_value_tuple());
    let mut list: Cursor<SelectModel<()>> = Select::<Pair>::new()
        .cursor_by(many(&["a", "b"]))
        .into_model();
    list.after(ValueTuple::Many(key()));
    assert_eq!(built(&pair), built(&list));

    let mut triple = Select::<Pair>::new().cursor_by((
        "a".to_owned(),
        "b".to_owned(),
        "c".to_owned(),
    ));
    triple.before((1, 2, 3).into_value_tuple()).last(4);
    let mut list = Select::<Pair>::new().cursor_by(many(&["a", "b", "c"]));
    list.before(ValueTuple::Many(vec![1.into(), 2.into(), 3.into()])).last(4);
    assert_eq!(built(&triple), built(&list));

    let mut one = by_a();
    one.before(1.into_value_tuple());
    let mut list = Select::<Pair>::new().cursor_by(many(&["a"]));
    list.before(ValueTuple::Many(vec![1.into()]));
    assert_eq!(built(&one), built(&list));
}

#[test]
fn narrowing_commutes() {
    let mut one = by_a();
    one.after(0.into_value_tuple()).before(3.into_value_tuple());
    let mut other = by_a();
    other.before(3.into_value_tuple()).after(0.into_value_tuple());
    for row in grid() {
        assert_eq!(passes(&one, row), row.0 > 0 && row.0 < 3);
        assert_eq!(passes(&one, row), passes(&other, row));
    }
}

#[test]
fn narrowing_conjoins_composite_keys() {
    let mut cursor = by_a_b();
    cursor
        .after((0, 1).into_value_tuple())
        .before((3, 2).into_value_tuple());
    assert_eq!(
        built(&cursor),
        (
            [
                r#"SELECT "p"."a", "p"."b" FROM "p" WHERE"#,
                r#"(("p"."a" = $1 AND "p"."b" > $2) OR "p"."a" > $3) AND"#,
                r#"(("p"."a" = $4 AND "p"."b" < $5) OR "p"."a" < $6)"#,
            ]
            .join(" "),
            vec![0.into(), 1.into(), 0.into(), 3.into(), 2.into(), 3.into()]
        )
    );
}

#[test]
fn narrowing_keeps_an_earlier_filter() {
    let mut cursor = by_a();
    QuerySelect::query(&mut cursor).cond_where(
        Expr::col((Alias::new("p"), Alias::new("b")))
            .eq(7)
            .into_condition()
            .not(),
    );
    cursor.after(1.into_value_tuple());
    assert_eq!(
        built(&cursor),
        (
            r#"SELECT "p"."a", "p"."b" FROM "p" WHERE (NOT "p"."b" = $1) AND "p"."a" > $2"#
                .to_owned(),
            vec![7.into(), 1.into()]
        )
    );
}

#[test]
fn limit_and_filter_commute() {
    let mut one = by_a_b();
    one.after((1, 2).into_value_tuple()).last(5);
    let mut other = by_a_b();
    other.last(5).after((1, 2).into_value_tuple());
    assert_eq!(built(&one), built(&other));
}

#[test]
fn latest_limit_counts() {
    let mut cursor = by_a();
    cursor.last(5).first(2);
    let mut only_first = by_a();
    only_first.first(2);
    assert_eq!(built(&cursor), built(&only_first));
    assert_eq!(cursor.page(vec![Ok::<i32, String>(1), Ok(2)]), Ok(vec![1, 2]));

    cursor.last(3);
    let mut only_last = by_a();
    only_last.last(3);
    assert_eq!(built(&cursor), built(&only_last));
    assert_eq!(cursor.page(vec![Ok::<i32, String>(2), Ok(1)]), Ok(vec![1, 2]));
}

#[test]
fn first_replaces_an_earlier_order() {
    let mut cursor = by_a();
    QueryOrder::query(&mut cursor).order_by((Alias::new("p"), Alias::new("b")), Order::Desc);
    assert_eq!(
        built(&cursor).0,
        r#"SELECT "p"."a", "p"."b" FROM "p" ORDER BY "p"."b" DESC"#
    );
    cursor.first(1);
    assert_eq!(
        built(&cursor).0,
        r#"SELECT "p"."a", "p"."b" FROM "p" ORDER BY "p"."a" ASC LIMIT $1"#
    );
}

#[test]
fn both_ends_make_the_same_page() {
    let mut forwards = by_a();
    forwards.first(3);
    let mut backwards = by_a();
    backwards.last(3);

    let page = forwards.page(vec![Ok::<i32, String>(1), Ok(2), Ok(3)]);
    assert_eq!(page, Ok(vec![1, 2, 3]));
    assert_eq!(backwards.page(vec![Ok::<i32, String>(3), Ok(2), Ok(1)]), page);

    let page = forwards.page(vec![Ok(1), Err("bad"), Ok(3)]);
    assert_eq!(page, Err("bad"));
    assert_eq!(backwards.page(vec![Ok(3), Err("bad"), Ok(1)]), page);
}

#[test]
fn pages_continue_one_another() {
    let mut rows = grid();
    rows.sort();
    let mut seen = vec![];
    let mut page: Vec<(i32, i32)> = rows.iter().copied().take(5).collect();
    while let Some(end) = page.last().copied() {
        seen.extend(page);
        let mut next = by_a_b();
        next.after(end.into_value_tuple());
        page = rows.iter().copied().filter(|row| passes(&next, *row)).take(5).collect();
    }
    assert_eq!(seen, rows);
}

#[test]
fn without_columns_no_row_passes() {
    let mut cursor = Select::<Pair>::new().cursor_by(many(&[]));
    cursor.after(ValueTuple::Many(vec![])).first(2);
    assert_eq!(
        built(&cursor),
        (
            r#"SELECT "p"."a", "p"."b" FROM "p" WHERE FALSE LIMIT $1"#.to_owned(),
            vec![2_u64.into()]
        )
    );
}

#[test]
fn order_by_many_columns() {
    let mut cursor = Select::<Pair>::new().cursor_by(many(&["b", "a"]));
    cursor.last(9);
    assert_eq!(
        built(&cursor).0,
        r#"SELECT "p"."a", "p"."b" FROM "p" ORDER BY "p"."b" DESC, "p"."a" DESC LIMIT $1"#
    );
}

#[test]
fn a_new_cursor_leaves_the_statement_alone() {
    let query = select_columns(&"p".to_owned(), &vec!["b".to_owned()]);
    let cursor: Cursor<SelectModel<()>> = Cursor::new(query, "q".to_owned(), "a".to_owned());
    assert_eq!(built(&cursor), (r#"SELECT "p"."b" FROM "p""#.to_owned(), vec![]));
    assert_eq!(cursor.page(vec![Ok::<i32, ()>(2), Ok(1)]), Ok(vec![2, 1]));
}

#[test]
fn each_dialect_has_its_quotes_and_placeholders() {
    let mut cursor = by_a();
    cursor.before(4.into_value_tuple()).first(2);
    let values = vec![4.into(), 2_u64.into()];

    let (sql, parameters) = cursor.build(DbBackend::MySql);
    assert_eq!(
        sql,
        "SELECT `p`.`a`, `p`.`b` FROM `p` WHERE `p`.`a` < ? ORDER BY `p`.`a` ASC LIMIT ?"
    );
    assert_eq!(parameters.0, values);

    let (sql, parameters) = cursor.build(DbBackend::Sqlite);
    assert_eq!(
        sql,
        r#"SELECT "p"."a", "p"."b" FROM "p" WHERE "p"."a" < ? ORDER BY "p"."a" ASC LIMIT ?"#
    );
    assert_eq!(parameters.0, values);
}

#[test]
fn the_first_error_is_returned() {
    let mut cursor = by_a().into_model::<Number>();
    let rows = |texts: &[&str]| texts.iter().map(|t| t.to_string()).collect::<Vec<_>>();

    assert_eq!(cursor.all(rows(&["1", "2"])), Ok(vec![Number(1), Number(2)]));
    assert_eq!(cursor.all(rows(&[])), Ok(vec![]));
    assert_eq!(
        cursor.all(rows(&["1", "x", "y"])),
        Err("not a number: x".to_owned())
    );
    cursor.last(3);
    assert_eq!(
        cursor.all(rows(&["1", "x", "y"])),
        Err("not a number: x".to_owned())
    );
    assert_eq!(cursor.page::<i32, i32>(vec![Ok(1), Err(5), Err(6)]), Err(5));
}

#[test]
fn conversions_keep_the_cursor() {
    let mut cursor = by_a_b();
    cursor.after((1, 2).into_value_tuple()).last(4);
    let expected = built(&cursor);

    let copy = cursor.clone();
    assert_eq!(built(&copy), expected);
    let model = copy.into_model::<Number>();
    assert_eq!(built(&model), expected);
    let json = model.into_json();
    assert_eq!(built(&json), expected);
    assert_eq!(json.page(vec![Ok::<i32, ()>(2), Ok(1)]), Ok(vec![1, 2]));
}

#[test]
fn partial_models_select_their_own_columns() {
    let mut cursor = by_a();
    cursor.last(4);
    let partial = cursor.into_partial_model::<JustB>();
    assert_eq!(
        built(&partial).0,
        r#"SELECT "p"."b" FROM "p" ORDER BY "p"."a" DESC LIMIT $1"#
    );
    assert_eq!(partial.page(vec![Ok::<i32, ()>(2), Ok(1)]), Ok(vec![1, 2]));
}

#[test]
fn select_only_clears_the_select_list() {
    let cursor = QuerySelect::select_only(by_a());
    assert_eq!(built(&cursor).0, r#"SELECT  FROM "p""#);
}

#[test]
fn keys_must_fit_the_columns() {
    assert!(by_a().accepts(&1.into_value_tuple()));
    assert!(!by_a().accepts(&(1, 2).into_value_tuple()));
    assert!(by_a_b().accepts(&(1, 2).into_value_tuple()));
    assert!(!by_a_b().accepts(&ValueTuple::Many(vec![1.into(), 2.into()])));

    let three = ("a".to_owned(), "b".to_owned(), "c".to_owned()).into_identity();
    assert!(three.fits(&(1, 2, 3).into_value_tuple()));
    assert!(!three.fits(&1.into_value_tuple()));
    assert!(many(&["a", "b"]).fits(&ValueTuple::Many(vec![1.into(), 2.into()])));
    assert!(!many(&["a", "b"]).fits(&ValueTuple::Many(vec![1.into()])));
}

#[test]
fn identifiers_are_quoted() {
    let query = select_columns(&r#"odd"table"#.to_owned(), &vec!["a b".to_owned()]);
    let (sql, values) = DbBackend::Postgres.build(&query);
    assert_eq!(sql, r#"SELECT "odd""table"."a b" FROM "odd""table""#);
    assert!(values.0.is_empty());
}
