use query::ParseError;
use query::UrlQuery;
use query::filter::{Condition, Filter};
use query::sort::{Sort, SortBy};

fn fields(names: &[&str]) -> Vec<String> {
    names.iter().map(|n| n.to_string()).collect()
}

#[test]
fn url_query_test_parse_query() {
    let query =
        "userId=bob&filter[]=orderId-eq-1&filter[]=price-ge-200&sort=price-desc&group=orderId";

    let parsed = UrlQuery::new(query, &fields(&["userId", "orderId", "price"])).unwrap();

    let expected = UrlQuery {
        params: vec!["userId".to_owned()],
        filters: vec![
            Filter {
                field: "userId".into(),
                condition: Condition::EQ,
                value: "bob".into(),
            },
            Filter {
                field: "orderId".into(),
                condition: Condition::EQ,
                value: "1".into(),
            },
            Filter {
                field: "price".into(),
                condition: Condition::GE,
                value: "200".into(),
            },
        ],
        group: Some(String::from("orderId")),
        sort: Some(Sort {
            field: String::from("price"),
            sort_by: SortBy::DESC,
        }),
        limit_offset: (None, None),
    };

    assert_eq!(parsed, expected);
}

#[test]
fn url_query_test_parse_query_empty() {
    let query = "";

    let parsed = UrlQuery::new(query, &fields(&[])).unwrap();

    let expected = UrlQuery {
        params: vec![],
        filters: vec![],
        group: None,
        sort: None,
        limit_offset: (None, None),
    };

    assert_eq!(parsed, expected);
}

#[test]
fn test_parse_query_limit_offset() {
    let query = "limit=10&offset=0";

    let parsed = UrlQuery::new(query, &fields(&[])).unwrap();

    let expected = UrlQuery {
        params: vec![],
        filters: vec![],
        group: None,
        sort: None,
        limit_offset: (Some("10".into()), Some("0".into())),
    };

    assert_eq!(parsed, expected);
    assert!(parsed.check_limit_and_offset().is_ok());
}

#[test]
fn test_required() {
    let query = "userId=bob&filter[]=orderId-eq-1&filter[]=price-ge-200&sort=price-desc";

    let parsed = UrlQuery::new(query, &fields(&["userId", "orderId", "price"])).unwrap();

    let v1 = parsed.check_required(vec!["userId"]);
    assert!(v1.is_ok());

    let v1 = parsed.check_required(vec!["userId", "limit", "offset"]);
    assert!(v1.is_err());
}

#[test]
fn test_allowed_fields() {
    let query = "userId=bob&filter[]=orderId-eq-1";

    let result = UrlQuery::new(query, &fields(&["userId"]));

    assert_eq!(result, Err(ParseError::InvalidField))
}

#[test]
fn test_empty_allow_list_rejects_plain_key() {
    let result = UrlQuery::new("userId=bob", &fields(&[]));

    assert_eq!(result, Err(ParseError::InvalidField));
}

#[test]
fn test_disallowed_group_and_sort() {
    let allowed = fields(&["price"]);

    assert_eq!(
        UrlQuery::new("group=orderId", &allowed),
        Err(ParseError::InvalidField)
    );
    assert_eq!(
        UrlQuery::new("sort=orderId-asc", &allowed),
        Err(ParseError::InvalidField)
    );
}

#[test]
fn test_invalid_sort_tokens() {
    let allowed = fields(&["price"]);

    assert_eq!(UrlQuery::new("sort=price", &allowed), Err(ParseError::InvalidSort));
    assert_eq!(
        UrlQuery::new("sort=price-down", &allowed),
        Err(ParseError::InvalidSortBy)
    );
}

#[test]
fn test_invalid_filter_tokens() {
    let allowed = fields(&["price"]);

    assert_eq!(
        UrlQuery::new("filter[]=price", &allowed),
        Err(ParseError::InvalidFilter)
    );
    assert_eq!(
        UrlQuery::new("filter[]=price-zz-1", &allowed),
        Err(ParseError::InvalidCondition)
    );
}

#[test]
fn test_order_preserved() {
    let query = "userId=bob&filter[]=orderId-eq-1&filter[]=price-ge-200";

    let parsed = UrlQuery::new(query, &fields(&["userId", "orderId", "price"])).unwrap();

    let expected = vec![
        Filter {
            field: "userId".into(),
            condition: Condition::EQ,
            value: "bob".into(),
        },
        Filter {
            field: "orderId".into(),
            condition: Condition::EQ,
            value: "1".into(),
        },
        Filter {
            field: "price".into(),
            condition: Condition::GE,
            value: "200".into(),
        },
    ];

    assert_eq!(parsed.filters, expected);
}

#[test]
fn test_tokens_without_equals_are_dropped() {
    let parsed = UrlQuery::new("noise&userId=bob&", &fields(&["userId"])).unwrap();

    assert_eq!(parsed.params, vec!["userId".to_owned()]);
    assert_eq!(parsed.filters.len(), 1);
}

#[test]
fn test_repeated_keys() {
    let query = "userId=a&userId=b&sort=price-asc&sort=price-desc";

    let parsed = UrlQuery::new(query, &fields(&["userId", "price"])).unwrap();

    // Each repeated plain key adds another implicit filter, but the
    // params set collapses; the last sort wins.
    assert_eq!(parsed.params, vec!["userId".to_owned()]);
    assert_eq!(parsed.filters.len(), 2);
    assert_eq!(parsed.filters[0].value, "a");
    assert_eq!(parsed.filters[1].value, "b");
    assert_eq!(
        parsed.sort,
        Some(Sort {
            field: String::from("price"),
            sort_by: SortBy::DESC,
        })
    );
}

#[test]
fn test_check_required_message() {
    let parsed = UrlQuery::new("userId=bob", &fields(&["userId"])).unwrap();

    let missing = parsed.check_required(vec!["userId", "orderId"]);
    assert_eq!(missing, Err(String::from("orderId is required")));
}

#[test]
fn test_check_limit_and_offset_messages() {
    let parsed = UrlQuery::new("", &fields(&[])).unwrap();

    assert_eq!(parsed.check_limit(), Err(String::from("limit is required")));
    assert_eq!(parsed.check_offset(), Err(String::from("offset is required")));
    assert_eq!(
        parsed.check_limit_and_offset(),
        Err(String::from("limit is required"))
    );

    let with_limit = UrlQuery::new("limit=10", &fields(&[])).unwrap();
    assert_eq!(with_limit.check_limit(), Ok("10"));
    assert_eq!(
        with_limit.check_limit_and_offset(),
        Err(String::from("offset is required"))
    );
}

#[test]
fn test_mut_accessors() {
    let mut parsed = UrlQuery::new("limit=10&offset=0", &fields(&["price"])).unwrap();

    parsed
        .filters_mut()
        .push(Filter::from_key_value("price", "1", Condition::GT));
    *parsed.group_mut() = Some(String::from("price"));
    *parsed.sort_mut() = Some(Sort {
        field: String::from("price"),
        sort_by: SortBy::ASC,
    });
    parsed.limit_offset_mut().1 = None;

    assert_eq!(parsed.filters.len(), 1);
    assert_eq!(parsed.group, Some(String::from("price")));
    assert_eq!(
        parsed.sort,
        Some(Sort {
            field: String::from("price"),
            sort_by: SortBy::ASC,
        })
    );
    assert_eq!(parsed.limit_offset, (Some(String::from("10")), None));
}
