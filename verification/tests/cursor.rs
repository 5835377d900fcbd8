use sea_cursor::cursor::{Cursor, CursorTrait};
use sea_cursor::identity::Identity;
use sea_cursor::model::DbBackend;
use sea_cursor::select::{EntityTrait, FromQueryResult, QuerySelect, Select, SelectModel};
use sea_query::{inject_parameters, IntoValueTuple, PostgresQueryBuilder, Value};

#[derive(Clone, Debug, PartialEq)]
struct FruitModel {
    id: i32,
    name: String,
    cake_id: Option<i32>,
}

fn fruit(id: i32, name: &str) -> FruitModel {
    FruitModel { id, name: name.to_owned(), cake_id: Some(1) }
}

struct Fruit;

impl EntityTrait for Fruit {
    type Model = FruitModel;

    fn table_name() -> String {
        "fruit".to_owned()
    }

    fn columns() -> Vec<String> {
        vec!["id".to_owned(), "name".to_owned(), "cake_id".to_owned()]
    }
}

impl FromQueryResult<FruitModel> for FruitModel {
    type Err = String;

    fn from_query_result(res: &FruitModel, pre: &str) -> Result<Self, String> {
        assert_eq!(pre, "");
        Ok(res.clone())
    }
}

#[derive(Clone, Debug, PartialEq)]
struct ExampleModel {
    id: i32,
    category: String,
}

struct Example;

impl EntityTrait for Example {
    type Model = ExampleModel;

    fn table_name() -> String {
        "example".to_owned()
    }

    fn columns() -> Vec<String> {
        vec!["id".to_owned(), "category".to_owned()]
    }
}

impl FromQueryResult<ExampleModel> for ExampleModel {
    type Err = String;

    fn from_query_result(res: &ExampleModel, _pre: &str) -> Result<Self, String> {
        Ok(res.clone())
    }
}

#[derive(Clone, Debug, PartialEq)]
struct XyzModel {
    x: i32,
    y: String,
    z: i64,
}

struct Xyz;

impl EntityTrait for Xyz {
    type Model = XyzModel;

    fn table_name() -> String {
        "m".to_owned()
    }

    fn columns() -> Vec<String> {
        vec!["x".to_owned(), "y".to_owned(), "z".to_owned()]
    }
}

impl FromQueryResult<XyzModel> for XyzModel {
    type Err = String;

    fn from_query_result(res: &XyzModel, _pre: &str) -> Result<Self, String> {
        Ok(res.clone())
    }
}

struct Composite;

impl EntityTrait for Composite {
    type Model = ();

    fn table_name() -> String {
        "t".to_owned()
    }

    fn columns() -> Vec<String> {
        (1..=12).map(|i| format!("col_{i}")).collect()
    }
}

fn sql_and_values<S>(cursor: &Cursor<S>) -> (String, Vec<Value>) {
    let (sql, values) = cursor.build(DbBackend::Postgres);
    (sql, values.0)
}

/// The statement of a cursor with its parameters written out.
fn to_string<S>(cursor: &mut Cursor<S>) -> String {
    let (sql, values) = DbBackend::Postgres.build(QuerySelect::query(cursor));
    inject_parameters(&sql, values.0, &PostgresQueryBuilder)
}

#[test]
fn first_2_before_10() {
    let models = vec![fruit(1, "Blueberry"), fruit(2, "Rasberry")];

    let mut cursor = Select::<Fruit>::new().cursor_by("id".to_owned());
    cursor.before(10.into_value_tuple()).first(2);

    assert_eq!(cursor.all(models.clone()), Ok(models));
    assert_eq!(
        sql_and_values(&cursor),
        (
            [
                r#"SELECT "fruit"."id", "fruit"."name", "fruit"."cake_id""#,
                r#"FROM "fruit""#,
                r#"WHERE "fruit"."id" < $1"#,
                r#"ORDER BY "fruit"."id" ASC"#,
                r#"LIMIT $2"#,
            ]
            .join(" "),
            vec![10_i32.into(), 2_u64.into()]
        )
    );
}

#[test]
fn last_2_after_10() {
    let mut cursor = Select::<Fruit>::new().cursor_by("id".to_owned());
    cursor.after(10.into_value_tuple()).last(2);

    assert_eq!(
        cursor.all(vec![fruit(22, "Rasberry"), fruit(21, "Blueberry")]),
        Ok(vec![fruit(21, "Blueberry"), fruit(22, "Rasberry")])
    );
    assert_eq!(
        sql_and_values(&cursor),
        (
            [
                r#"SELECT "fruit"."id", "fruit"."name", "fruit"."cake_id""#,
                r#"FROM "fruit""#,
                r#"WHERE "fruit"."id" > $1"#,
                r#"ORDER BY "fruit"."id" DESC"#,
                r#"LIMIT $2"#,
            ]
            .join(" "),
            vec![10_i32.into(), 2_u64.into()]
        )
    );
}

#[test]
fn last_2_after_25_before_30() {
    let mut cursor = Select::<Fruit>::new().cursor_by("id".to_owned());
    cursor
        .after(25.into_value_tuple())
        .before(30.into_value_tuple())
        .last(2);

    assert_eq!(
        cursor.all(vec![fruit(27, "Rasberry"), fruit(26, "Blueberry")]),
        Ok(vec![fruit(26, "Blueberry"), fruit(27, "Rasberry")])
    );
    assert_eq!(
        sql_and_values(&cursor),
        (
            [
                r#"SELECT "fruit"."id", "fruit"."name", "fruit"."cake_id""#,
                r#"FROM "fruit""#,
                r#"WHERE "fruit"."id" > $1"#,
                r#"AND "fruit"."id" < $2"#,
                r#"ORDER BY "fruit"."id" DESC"#,
                r#"LIMIT $3"#,
            ]
            .join(" "),
            vec![25_i32.into(), 30_i32.into(), 2_u64.into()]
        )
    );
}

fn cat() -> Vec<ExampleModel> {
    vec![ExampleModel { id: 1, category: "CAT".to_owned() }]
}

fn by_category_and_id() -> Cursor<SelectModel<ExampleModel>> {
    Select::<Example>::new().cursor_by(("category".to_owned(), "id".to_owned()))
}

#[test]
fn composite_keys_1() {
    let mut cursor = by_category_and_id();
    cursor.first(3);

    assert!(!cursor.all(cat()).unwrap().is_empty());
    assert_eq!(
        sql_and_values(&cursor),
        (
            [
                r#"SELECT "example"."id", "example"."category""#,
                r#"FROM "example""#,
                r#"ORDER BY "example"."category" ASC, "example"."id" ASC"#,
                r#"LIMIT $1"#,
            ]
            .join(" "),
            vec![3_u64.into()]
        )
    );
}

#[test]
fn composite_keys_2() {
    let mut cursor = by_category_and_id();
    cursor.after(("A".to_owned(), 2).into_value_tuple()).first(3);

    assert!(!cursor.all(cat()).unwrap().is_empty());
    assert_eq!(
        sql_and_values(&cursor),
        (
            [
                r#"SELECT "example"."id", "example"."category""#,
                r#"FROM "example""#,
                r#"WHERE ("example"."category" = $1 AND "example"."id" > $2)"#,
                r#"OR "example"."category" > $3"#,
                r#"ORDER BY "example"."category" ASC, "example"."id" ASC"#,
                r#"LIMIT $4"#,
            ]
            .join(" "),
            vec![
                "A".to_string().into(),
                2i32.into(),
                "A".to_string().into(),
                3_u64.into(),
            ]
        )
    );
}

#[test]
fn composite_keys_3() {
    let mut cursor = by_category_and_id();
    cursor.before(("A".to_owned(), 2).into_value_tuple()).last(3);

    assert!(!cursor.all(cat()).unwrap().is_empty());
    assert_eq!(
        sql_and_values(&cursor),
        (
            [
                r#"SELECT "example"."id", "example"."category""#,
                r#"FROM "example""#,
                r#"WHERE ("example"."category" = $1 AND "example"."id" < $2)"#,
                r#"OR "example"."category" < $3"#,
                r#"ORDER BY "example"."category" DESC, "example"."id" DESC"#,
                r#"LIMIT $4"#,
            ]
            .join(" "),
            vec![
                "A".to_string().into(),
                2i32.into(),
                "A".to_string().into(),
                3_u64.into(),
            ]
        )
    );
}

fn xyz() -> Vec<XyzModel> {
    vec![XyzModel { x: 'x' as i32, y: "y".to_owned(), z: 'z' as i64 }]
}

fn by_x_y_z() -> Cursor<SelectModel<XyzModel>> {
    Select::<Xyz>::new().cursor_by(("x".to_owned(), "y".to_owned(), "z".to_owned()))
}

#[test]
fn composite_keys_4() {
    let mut cursor = by_x_y_z();
    cursor.first(4);

    assert!(!cursor.all(xyz()).unwrap().is_empty());
    assert_eq!(
        sql_and_values(&cursor),
        (
            [
                r#"SELECT "m"."x", "m"."y", "m"."z""#,
                r#"FROM "m""#,
                r#"ORDER BY "m"."x" ASC, "m"."y" ASC, "m"."z" ASC"#,
                r#"LIMIT $1"#,
            ]
            .join(" "),
            vec![4_u64.into()]
        )
    );
}

#[test]
fn composite_keys_5() {
    let mut cursor = by_x_y_z();
    cursor
        .after(('x' as i32, "y".to_owned(), 'z' as i64).into_value_tuple())
        .first(4);

    assert!(!cursor.all(xyz()).unwrap().is_empty());
    assert_eq!(
        sql_and_values(&cursor),
        (
            [
                r#"SELECT "m"."x", "m"."y", "m"."z""#,
                r#"FROM "m""#,
                r#"WHERE ("m"."x" = $1 AND "m"."y" = $2 AND "m"."z" > $3)"#,
                r#"OR ("m"."x" = $4 AND "m"."y" > $5)"#,
                r#"OR "m"."x" > $6"#,
                r#"ORDER BY "m"."x" ASC, "m"."y" ASC, "m"."z" ASC"#,
                r#"LIMIT $7"#,
            ]
            .join(" "),
            vec![
                ('x' as i32).into(),
                "y".into(),
                ('z' as i64).into(),
                ('x' as i32).into(),
                "y".into(),
                ('x' as i32).into(),
                4_u64.into(),
            ]
        )
    );
}

/// A cursor over the first `n` columns of the composite table.
fn by_columns(n: usize) -> Cursor<SelectModel<()>> {
    let columns = (1..=n).map(|i| format!("col_{i}")).collect();
    Select::<Composite>::new().cursor_by(Identity::Many(columns))
}

#[test]
fn cursor_by_many() {
    let base_sql = [
        r#"SELECT "t"."col_1", "t"."col_2", "t"."col_3", "t"."col_4", "t"."col_5", "t"."col_6", "t"."col_7", "t"."col_8", "t"."col_9", "t"."col_10", "t"."col_11", "t"."col_12""#,
        r#"FROM "t" WHERE"#,
    ].join(" ");

    let mut cursor = by_columns(4);
    cursor.after(("val_1", "val_2", "val_3", "val_4").into_value_tuple());
    assert_eq!(
        to_string(&mut cursor),
        format!(
            "{base_sql} {}",
            [
                r#"("t"."col_1" = 'val_1' AND "t"."col_2" = 'val_2' AND "t"."col_3" = 'val_3' AND "t"."col_4" > 'val_4')"#,
                r#"OR ("t"."col_1" = 'val_1' AND "t"."col_2" = 'val_2' AND "t"."col_3" > 'val_3')"#,
                r#"OR ("t"."col_1" = 'val_1' AND "t"."col_2" > 'val_2')"#,
                r#"OR "t"."col_1" > 'val_1'"#,
            ].join(" ")
        )
    );

    let mut cursor = by_columns(5);
    cursor.after(("val_1", "val_2", "val_3", "val_4", "val_5").into_value_tuple());
    assert_eq!(
        to_string(&mut cursor),
        format!(
            "{base_sql} {}",
            [
                r#"("t"."col_1" = 'val_1' AND "t"."col_2" = 'val_2' AND "t"."col_3" = 'val_3' AND "t"."col_4" = 'val_4' AND "t"."col_5" > 'val_5')"#,
                r#"OR ("t"."col_1" = 'val_1' AND "t"."col_2" = 'val_2' AND "t"."col_3" = 'val_3' AND "t"."col_4" > 'val_4')"#,
                r#"OR ("t"."col_1" = 'val_1' AND "t"."col_2" = 'val_2' AND "t"."col_3" > 'val_3')"#,
                r#"OR ("t"."col_1" = 'val_1' AND "t"."col_2" > 'val_2')"#,
                r#"OR "t"."col_1" > 'val_1'"#,
            ].join(" ")
        )
    );

    let mut cursor = by_columns(6);
    cursor.after(("val_1", "val_2", "val_3", "val_4", "val_5", "val_6").into_value_tuple());
    assert_eq!(
        to_string(&mut cursor),
        format!(
            "{base_sql} {}",
            [
                r#"("t"."col_1" = 'val_1' AND "t"."col_2" = 'val_2' AND "t"."col_3" = 'val_3' AND "t"."col_4" = 'val_4' AND "t"."col_5" = 'val_5' AND "t"."col_6" > 'val_6')"#,
                r#"OR ("t"."col_1" = 'val_1' AND "t"."col_2" = 'val_2' AND "t"."col_3" = 'val_3' AND "t"."col_4" = 'val_4' AND "t"."col_5" > 'val_5')"#,
                r#"OR ("t"."col_1" = 'val_1' AND "t"."col_2" = 'val_2' AND "t"."col_3" = 'val_3' AND "t"."col_4" > 'val_4')"#,
                r#"OR ("t"."col_1" = 'val_1' AND "t"."col_2" = 'val_2' AND "t"."col_3" > 'val_3')"#,
                r#"OR ("t"."col_1" = 'val_1' AND "t"."col_2" > 'val_2')"#,
                r#"OR "t"."col_1" > 'val_1'"#,
            ].join(" ")
        )
    );

    let mut cursor = by_columns(7);
    cursor.before(("val_1", "val_2", "val_3", "val_4", "val_5", "val_6", "val_7").into_value_tuple());
    assert_eq!(
        to_string(&mut cursor),
        format!(
            "{base_sql} {}",
            [
                r#"("t"."col_1" = 'val_1' AND "t"."col_2" = 'val_2' AND "t"."col_3" = 'val_3' AND "t"."col_4" = 'val_4' AND "t"."col_5" = 'val_5' AND "t"."col_6" = 'val_6' AND "t"."col_7" < 'val_7')"#,
                r#"OR ("t"."col_1" = 'val_1' AND "t"."col_2" = 'val_2' AND "t"."col_3" = 'val_3' AND "t"."col_4" = 'val_4' AND "t"."col_5" = 'val_5' AND "t"."col_6" < 'val_6')"#,
                r#"OR ("t"."col_1" = 'val_1' AND "t"."col_2" = 'val_2' AND "t"."col_3" = 'val_3' AND "t"."col_4" = 'val_4' AND "t"."col_5" < 'val_5')"#,
                r#"OR ("t"."col_1" = 'val_1' AND "t"."col_2" = 'val_2' AND "t"."col_3" = 'val_3' AND "t"."col_4" < 'val_4')"#,
                r#"OR ("t"."col_1" = 'val_1' AND "t"."col_2" = 'val_2' AND "t"."col_3" < 'val_3')"#,
                r#"OR ("t"."col_1" = 'val_1' AND "t"."col_2" < 'val_2')"#,
                r#"OR "t"."col_1" < 'val_1'"#,
            ].join(" ")
        )
    );

    let mut cursor = by_columns(8);
    cursor.before(("val_1", "val_2", "val_3", "val_4", "val_5", "val_6", "val_7", "val_8").into_value_tuple());
    assert_eq!(
        to_string(&mut cursor),
        format!(
            "{base_sql} {}",
            [
                r#"("t"."col_1" = 'val_1' AND "t"."col_2" = 'val_2' AND "t"."col_3" = 'val_3' AND "t"."col_4" = 'val_4' AND "t"."col_5" = 'val_5' AND "t"."col_6" = 'val_6' AND "t"."col_7" = 'val_7' AND "t"."col_8" < 'val_8')"#,
                r#"OR ("t"."col_1" = 'val_1' AND "t"."col_2" = 'val_2' AND "t"."col_3" = 'val_3' AND "t"."col_4" = 'val_4' AND "t"."col_5" = 'val_5' AND "t"."col_6" = 'val_6' AND "t"."col_7" < 'val_7')"#,
                r#"OR ("t"."col_1" = 'val_1' AND "t"."col_2" = 'val_2' AND "t"."col_3" = 'val_3' AND "t"."col_4" = 'val_4' AND "t"."col_5" = 'val_5' AND "t"."col_6" < 'val_6')"#,
                r#"OR ("t"."col_1" = 'val_1' AND "t"."col_2" = 'val_2' AND "t"."col_3" = 'val_3' AND "t"."col_4" = 'val_4' AND "t"."col_5" < 'val_5')"#,
                r#"OR ("t"."col_1" = 'val_1' AND "t"."col_2" = 'val_2' AND "t"."col_3" = 'val_3' AND "t"."col_4" < 'val_4')"#,
                r#"OR ("t"."col_1" = 'val_1' AND "t"."col_2" = 'val_2' AND "t"."col_3" < 'val_3')"#,
                r#"OR ("t"."col_1" = 'val_1' AND "t"."col_2" < 'val_2')"#,
                r#"OR "t"."col_1" < 'val_1'"#,
            ].join(" ")
        )
    );

    let mut cursor = by_columns(9);
    cursor.before(("val_1", "val_2", "val_3", "val_4", "val_5", "val_6", "val_7", "val_8", "val_9").into_value_tuple());
    assert_eq!(
        to_string(&mut cursor),
        format!(
            "{base_sql} {}",
            [
                r#"("t"."col_1" = 'val_1' AND "t"."col_2" = 'val_2' AND "t"."col_3" = 'val_3' AND "t"."col_4" = 'val_4' AND "t"."col_5" = 'val_5' AND "t"."col_6" = 'val_6' AND "t"."col_7" = 'val_7' AND "t"."col_8" = 'val_8' AND "t"."col_9" < 'val_9')"#,
                r#"OR ("t"."col_1" = 'val_1' AND "t"."col_2" = 'val_2' AND "t"."col_3" = 'val_3' AND "t"."col_4" = 'val_4' AND "t"."col_5" = 'val_5' AND "t"."col_6" = 'val_6' AND "t"."col_7" = 'val_7' AND "t"."col_8" < 'val_8')"#,
                r#"OR ("t"."col_1" = 'val_1' AND "t"."col_2" = 'val_2' AND "t"."col_3" = 'val_3' AND "t"."col_4" = 'val_4' AND "t"."col_5" = 'val_5' AND "t"."col_6" = 'val_6' AND "t"."col_7" < 'val_7')"#,
                r#"OR ("t"."col_1" = 'val_1' AND "t"."col_2" = 'val_2' AND "t"."col_3" = 'val_3' AND "t"."col_4" = 'val_4' AND "t"."col_5" = 'val_5' AND "t"."col_6" < 'val_6')"#,
                r#"OR ("t"."col_1" = 'val_1' AND "t"."col_2" = 'val_2' AND "t"."col_3" = 'val_3' AND "t"."col_4" = 'val_4' AND "t"."col_5" < 'val_5')"#,
                r#"OR ("t"."col_1" = 'val_1' AND "t"."col_2" = 'val_2' AND "t"."col_3" = 'val_3' AND "t"."col_4" < 'val_4')"#,
                r#"OR ("t"."col_1" = 'val_1' AND "t"."col_2" = 'val_2' AND "t"."col_3" < 'val_3')"#,
                r#"OR ("t"."col_1" = 'val_1' AND "t"."col_2" < 'val_2')"#,
                r#"OR "t"."col_1" < 'val_1'"#,
            ].join(" ")
        )
    );
}
