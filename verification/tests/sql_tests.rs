use query::UrlQuery;
use query::sql::{Database, QueryBuilder};

fn fields(names: &[&str]) -> Vec<String> {
    names.iter().map(|n| n.to_string()).collect()
}

fn columns(pairs: &[(&str, &str)]) -> Vec<(String, String)> {
    pairs
        .iter()
        .map(|(c, t)| (c.to_string(), t.to_string()))
        .collect()
}

#[test]
fn test_query_builder_from_str() {
    let query =
        "userId=123&userName=bob&filter[]=orderId-eq-1&filter[]=price-ge-200&sort=price-desc&limit=10&offset=0";

    let parsed = UrlQuery::new(query, &fields(&["userId", "userName", "orderId", "price"])).unwrap();

    let (sql, args) =
        QueryBuilder::from_str("SELECT * FROM orders", parsed, Database::Postgres).build();

    let expected = "SELECT * FROM orders \
        WHERE user_id = $1 AND user_name = $2 \
        AND order_id = $3 AND price >= $4 \
        ORDER BY price DESC \
        LIMIT 10 \
        OFFSET 0";

    assert_eq!(sql, expected);
    assert_eq!(args.len(), 4);
}

#[test]
fn test_query_builder_new() {
    let query =
        "userId=123&userName=bob&filter[]=orderId-eq-1&filter[]=price-ge-200&sort=price-desc&limit=10&offset=0";

    let parsed = UrlQuery::new(query, &fields(&["userId", "userName", "orderId", "price"])).unwrap();

    let (sql, args) =
        QueryBuilder::new("orders", vec!["id", "status"], parsed, Database::Postgres).build();

    let expected = "SELECT id, status FROM orders \
        WHERE user_id = $1 AND user_name = $2 \
        AND order_id = $3 AND price >= $4 \
        ORDER BY price DESC \
        LIMIT 10 \
        OFFSET 0";

    assert_eq!(sql, expected);
    assert_eq!(args.len(), 4);
}

#[test]
fn test_query_builder_new_append_joins() {
    let query =
        "userId=123&userName=bob&filter[]=orderId-eq-1&filter[]=price-ge-200&sort=price-desc&limit=10&offset=0";

    let parsed = UrlQuery::new(query, &fields(&["userId", "userName", "orderId", "price"])).unwrap();

    let (sql, args) =
        QueryBuilder::new("orders", vec!["id", "status"], parsed, Database::Postgres)
            .append("JOIN users ON users.id = order.user_id")
            .append("JOIN inventory ON inventory.id = order.inventory_id")
            .build();

    let expected = "SELECT id, status FROM orders \
        JOIN users ON users.id = order.user_id \
        JOIN inventory ON inventory.id = order.inventory_id \
        WHERE user_id = $1 AND user_name = $2 \
        AND order_id = $3 AND price >= $4 \
        ORDER BY price DESC \
        LIMIT 10 \
        OFFSET 0";

    assert_eq!(sql, expected);
    assert_eq!(args.len(), 4);
}

#[test]
fn test_query_builder_new_map_columns() {
    let query = "id=1&group=id&sort=createdAt-desc";

    let parsed = UrlQuery::new(query, &fields(&["id", "createdAt"])).unwrap();

    let (sql, args) = QueryBuilder::from_str(
        "SELECT orders.id, user_id, status, address_id, orders.created_at FROM orders",
        parsed,
        Database::Postgres,
    )
    .append("JOIN order_items ON orders.id = order_items.order_id")
    .append("JOIN inventory ON order_items.inventory_id = inventory.id")
    .map_columns(columns(&[("id", "orders"), ("createdAt", "orders")]))
    .build();

    let expected =
        "SELECT orders.id, user_id, status, address_id, orders.created_at FROM orders \
         JOIN order_items ON orders.id = order_items.order_id \
         JOIN inventory ON order_items.inventory_id = inventory.id \
         WHERE orders.id = $1 GROUP BY orders.id ORDER BY orders.created_at DESC";

    assert_eq!(sql, expected);
    assert_eq!(args.len(), 1);
}

#[test]
fn test_append_where() {
    let query = "filter[]=userId-eq-1&filter[]=id-eq-2";

    let parsed = UrlQuery::new(query, &fields(&["userId", "id"])).unwrap();

    let mut builder = QueryBuilder::from_str("", parsed, Database::Postgres);

    let mut args = builder.append_where().into_iter();

    let user_id = args.next().unwrap().1;
    assert_eq!(user_id, "1");

    let id = args.next().unwrap().1;
    assert_eq!(id, "2");
}

#[test]
fn test_shift_bind() {
    let query = "filter[]=userId-eq-1&filter[]=id-eq-2";

    let parsed = UrlQuery::new(query, &fields(&["userId", "id"])).unwrap();

    let builder = QueryBuilder::from_str(
        "SELECT id, (SELECT postcode FROM address WHERE id = $1) FROM orders",
        parsed,
        Database::Postgres,
    )
    .shift_bind(1);

    let (sql, args) = builder.build();

    let expected = "SELECT id, (SELECT postcode FROM address WHERE id = $1) FROM orders WHERE user_id = $2 AND id = $3";

    assert_eq!(sql, expected);
    assert_eq!(args.len(), 2);
}

#[test]
fn test_empty_model_renders_base_only() {
    let parsed = UrlQuery::new("", &fields(&[])).unwrap();

    let (sql, args) =
        QueryBuilder::new("orders", vec!["id", "status"], parsed, Database::Postgres).build();

    assert_eq!(sql, "SELECT id, status FROM orders");
    assert!(args.is_empty());
}

#[test]
fn test_bind_numbering_without_shift() {
    let query = "filter[]=userId-eq-1&filter[]=price-ge-200";

    let parsed = UrlQuery::new(query, &fields(&["userId", "price"])).unwrap();

    let (sql, args) = QueryBuilder::from_str("SELECT * FROM t", parsed, Database::Postgres).build();

    assert_eq!(sql, "SELECT * FROM t WHERE user_id = $1 AND price >= $2");
    assert_eq!(
        args,
        vec![
            ("userId".to_string(), "1".to_string()),
            ("price".to_string(), "200".to_string()),
        ]
    );
}

#[test]
fn test_limit_without_offset() {
    let parsed = UrlQuery::new("limit=10", &fields(&[])).unwrap();

    let (sql, _) = QueryBuilder::from_str("SELECT * FROM t", parsed, Database::Postgres).build();

    assert_eq!(sql, "SELECT * FROM t LIMIT 10");
}

#[test]
fn test_offset_without_limit() {
    let parsed = UrlQuery::new("offset=5", &fields(&[])).unwrap();

    let (sql, _) = QueryBuilder::from_str("SELECT * FROM t", parsed, Database::Postgres).build();

    assert_eq!(sql, "SELECT * FROM t");
}

#[test]
fn test_unmapped_field_renders_unqualified() {
    let query = "filter[]=id-eq-1&filter[]=userId-eq-2";

    let parsed = UrlQuery::new(query, &fields(&["id", "userId"])).unwrap();

    let (sql, _) = QueryBuilder::from_str("SELECT * FROM orders", parsed, Database::Postgres)
        .map_columns(columns(&[("id", "orders")]))
        .build();

    assert_eq!(sql, "SELECT * FROM orders WHERE orders.id = $1 AND user_id = $2");
}

#[test]
fn test_end_to_end_scenario() {
    let query = "userId=123&userName=bob&filter[]=orderId-eq-1&filter[]=price-ge-200&sort=price-desc";

    let parsed = UrlQuery::new(query, &fields(&["userId", "userName", "orderId", "price"])).unwrap();

    let (sql, args) =
        QueryBuilder::new("orders", vec!["id", "status"], parsed, Database::Postgres).build();

    assert_eq!(
        sql,
        "SELECT id, status FROM orders WHERE user_id = $1 AND user_name = $2 AND order_id = $3 AND price >= $4 ORDER BY price DESC"
    );
    assert_eq!(
        args,
        vec![
            ("userId".to_string(), "123".to_string()),
            ("userName".to_string(), "bob".to_string()),
            ("orderId".to_string(), "1".to_string()),
            ("price".to_string(), "200".to_string()),
        ]
    );
}

#[test]
fn test_two_digit_bind_indices() {
    let query = "filter[]=a-eq-1&filter[]=b-eq-2&filter[]=c-eq-3";

    let parsed = UrlQuery::new(query, &fields(&["a", "b", "c"])).unwrap();

    let (sql, args) = QueryBuilder::from_str("SELECT * FROM t", parsed, Database::Postgres)
        .shift_bind(8)
        .build();

    assert_eq!(sql, "SELECT * FROM t WHERE a = $9 AND b = $10 AND c = $11");
    assert_eq!(args.len(), 3);
}
