use query::ParseError;
use query::casing::FieldCase;
use query::filter::{Condition, Filter};
use query::sql::Database;

#[test]
fn test_new_uuid() {
    let filter = Filter::new("id-eq-8bd8a6fb-e2b2-47ab-b3db-4f47c067ba5e").unwrap();

    assert_eq!(filter.value, "8bd8a6fb-e2b2-47ab-b3db-4f47c067ba5e");
}

#[test]
fn test_new_splits_first_two_separators() {
    let filter = Filter::new("price-ge-200").unwrap();

    assert_eq!(filter.field, "price");
    assert_eq!(filter.condition, Condition::GE);
    assert_eq!(filter.value, "200");
}

#[test]
fn test_condition_tokens_and_symbols() {
    let table = [
        ("eq", Condition::EQ, "="),
        ("ne", Condition::NE, "!="),
        ("gt", Condition::GT, ">"),
        ("ge", Condition::GE, ">="),
        ("lt", Condition::LT, "<"),
        ("le", Condition::LE, "<="),
    ];
    for (token, condition, symbol) in table {
        let parsed = Condition::from_str(token).unwrap();
        assert_eq!(parsed, condition);
        assert_eq!(parsed.as_str(), symbol);
    }
}

#[test]
fn test_condition_invalid_token() {
    assert_eq!(Condition::from_str("qe"), Err(ParseError::InvalidCondition));
    assert_eq!(Condition::from_str(""), Err(ParseError::InvalidCondition));
}

#[test]
fn test_new_invalid_filter() {
    assert_eq!(Filter::new("price"), Err(ParseError::InvalidFilter));
    assert_eq!(Filter::new("price-ge"), Err(ParseError::InvalidFilter));
    assert_eq!(Filter::new("price-zz-1"), Err(ParseError::InvalidCondition));
}

#[test]
fn test_from_key_value() {
    let filter = Filter::from_key_value("userId", "bob", Condition::EQ);

    assert_eq!(filter.field, "userId");
    assert_eq!(filter.condition, Condition::EQ);
    assert_eq!(filter.value, "bob");
}

#[test]
fn test_to_string() {
    let filter = Filter::from_key_value("price", "200", Condition::GE);

    assert_eq!(filter.to_string(), "price >= 200");
}

#[test]
fn test_to_sql_map_table_snake_case() {
    let filter = Filter::from_key_value("orderId", "1", Condition::EQ);

    let sql = filter.to_sql_map_table(1, None, Some(FieldCase::Snake), &Database::Postgres);

    assert_eq!(sql, "order_id = $1");
}

#[test]
fn test_to_sql_map_table_qualified() {
    let filter = Filter::from_key_value("createdAt", "2020", Condition::LT);
    let table = String::from("orders");

    let sql = filter.to_sql_map_table(3, Some(&table), Some(FieldCase::Snake), &Database::Postgres);

    assert_eq!(sql, "orders.created_at < $3");
}

#[test]
fn test_to_sql_map_table_no_case_transform() {
    let filter = Filter::from_key_value("price", "200", Condition::GE);

    let sql = filter.to_sql_map_table(2, None, None, &Database::Postgres);

    assert_eq!(sql, "price >= $2");
}

#[test]
fn test_parse_error_messages() {
    assert_eq!(ParseError::InvalidSort.message(), "invalid sort");
    assert_eq!(ParseError::InvalidSortBy.message(), "invalid sort by");
    assert_eq!(ParseError::InvalidFilter.message(), "invalid filter");
    assert_eq!(ParseError::InvalidCondition.message(), "invalid filter condition");
    assert_eq!(ParseError::InvalidField.message(), "invalid field");
}
