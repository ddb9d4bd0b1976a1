use query::filter::{Condition, Filter};
use query::query::Query;
use query::sort::{Sort, SortBy};

#[test]
fn query_test_parse_query() {
    let query = "userId=bob&filter[]=orderId-eq-1&filter[]=price-ge-200&sort=price-desc";

    let parsed: Query = query.parse().unwrap();

    let expected = Query {
        query: vec![("userId".into(), "bob".into())],
        filters: vec![
            Filter {
                field: "orderId".into(),
                condition: Condition::EQ,
                value: "1".into(),
            },
            Filter {
                field: "price".into(),
                condition: Condition::GE,
                value: "200".into(),
            },
        ],
        sort: Some(Sort {
            field: String::from("price"),
            sort_by: SortBy::DESC,
        }),
    };

    assert_eq!(parsed, expected);
}

#[test]
fn query_test_parse_query_empty() {
    let query = "";

    let parsed: Query = query.parse().unwrap();

    let expected = Query {
        query: vec![],
        filters: vec![],
        sort: None,
    };

    assert_eq!(parsed, expected);
}

#[test]
fn test_is_valid() {
    let query = "userId=bob&filter[]=orderId-eq-1&filter[]=price-ge-200&sort=price-desc";

    let parsed: Query = query.parse().unwrap();

    let v1 = parsed.is_valid(vec!["userId"]);
    assert!(v1.is_ok());

    let v1 = parsed.is_valid(vec!["userId", "limit", "offset"]);
    assert!(v1.is_err());
}

#[test]
fn test_is_valid_message() {
    let parsed: Query = "userId=bob".parse().unwrap();

    let missing = parsed.is_valid(vec!["userId", "orderId"]);
    assert_eq!(missing, Err(String::from("orderId is required")));
}
