use price_keeper::error::ReconcileError;
use price_keeper::json::Json;
use price_keeper::product::Product;
use price_keeper::text::{push_digits, push_int};
use price_keeper::wb::{
    contains_id, get_one_price, is_success, get_prices, get_supplier_catalog, one_price, parse_json,
    read_optional_int, read_prices, read_row, read_size_price, set_price, PriceRequest,
    ProductPrice, ProductPricesPage,
};

fn object(entries: Vec<(&str, Json)>) -> Json {
    Json::Object(entries.into_iter().map(|(k, v)| (k.to_string(), v)).collect())
}

fn product(id: i64, basic: i64, total: i64, supplier: Option<i64>) -> Json {
    let price = object(vec![("basic", Json::Int(basic)), ("total", Json::Int(total))]);
    let size = object(vec![("name", Json::Text("".to_string())), ("price", price)]);
    let mut entries = vec![("id", Json::Int(id)), ("sizes", Json::Array(vec![size]))];
    if let Some(s) = supplier {
        entries.push(("supplierId", Json::Int(s)));
    }
    object(entries)
}

fn answer(products: Vec<Json>, total: Option<i64>) -> Json {
    let mut data = vec![("products", Json::Array(products))];
    if let Some(t) = total {
        data.push(("total", Json::Int(t)));
    }
    object(vec![("state", Json::Int(0)), ("data", object(data))])
}

#[test]
fn no_ids_ask_for_nothing() {
    assert_eq!(get_prices(Some(5), &vec![]), Ok(PriceRequest::Nothing));
    assert_eq!(get_prices(None, &vec![]), Ok(PriceRequest::Nothing));
}

#[test]
fn one_id_asks_for_the_card() {
    assert_eq!(get_prices(None, &vec![42]), Ok(PriceRequest::One { id: 42 }));
    assert_eq!(get_prices(Some(7), &vec![42]), Ok(PriceRequest::One { id: 42 }));
    assert_eq!(get_one_price(42), PriceRequest::One { id: 42 });
}

#[test]
fn several_ids_ask_for_the_catalog() {
    assert_eq!(
        get_prices(Some(7), &vec![42, 43]),
        Ok(PriceRequest::Catalog { supplier: 7, limit: 300, page: 1 })
    );
}

#[test]
fn several_ids_without_catalog_id_fail() {
    assert_eq!(get_prices(None, &vec![42, 43]), Err(ReconcileError::MissingCatalogId));
}

#[test]
fn catalog_request_takes_defaults() {
    assert_eq!(
        get_supplier_catalog(9, None, None),
        PriceRequest::Catalog { supplier: 9, limit: 300, page: 1 }
    );
    assert_eq!(
        get_supplier_catalog(9, Some(10), Some(3)),
        PriceRequest::Catalog { supplier: 9, limit: 10, page: 3 }
    );
}

#[test]
fn addresses_of_requests() {
    assert_eq!(PriceRequest::Nothing.url(), None);
    assert_eq!(PriceRequest::One { id: 42 }.timeout_seconds(), 60);
    assert_eq!(
        PriceRequest::One { id: 42 }.url(),
        Some("https://card.wb.ru/cards/v2/detail?curr=rub&dest=-1257786&nm=42".to_string())
    );
    assert_eq!(
        PriceRequest::Catalog { supplier: 12345, limit: 300, page: 1 }.url(),
        Some(
            "https://catalog.wb.ru/sellers/v2/catalog?curr=rub&dest=-1257786&sort=newly&supplier=12345&limit=300&page=1"
                .to_string()
        )
    );
    assert_eq!(
        PriceRequest::One { id: -7 }.url(),
        Some("https://card.wb.ru/cards/v2/detail?curr=rub&dest=-1257786&nm=-7".to_string())
    );
}

#[test]
fn integers_in_decimal() {
    let mut text = String::from("n=");
    push_int(&mut text, 0);
    text.push(',');
    push_int(&mut text, i32::MAX);
    text.push(',');
    push_int(&mut text, i32::MIN);
    text.push(',');
    push_digits(&mut text, 1009);
    assert_eq!(text, "n=0,2147483647,-2147483648,1009");
}

#[test]
fn catalog_answer_is_read() {
    let data = answer(
        vec![product(1, 10000, 970, Some(77)), product(2, 20000, 1500, Some(77))],
        Some(2),
    );
    let page = parse_json(&data).unwrap();
    assert_eq!(page.supplier_id, Some(77));
    assert_eq!(page.total, Some(2));
    assert_eq!(
        page.prices,
        vec![
            ProductPrice { id: 1, basic: 10000, total: 970 },
            ProductPrice { id: 2, basic: 20000, total: 1500 }
        ]
    );
}

#[test]
fn catalog_answer_without_products_is_empty() {
    let page = parse_json(&answer(vec![], None)).unwrap();
    assert_eq!(page, ProductPricesPage { supplier_id: None, total: None, prices: vec![] });
}

#[test]
fn answer_without_product_list_fails() {
    assert_eq!(parse_json(&Json::Null), Err(ReconcileError::FetchFailed));
    assert_eq!(parse_json(&object(vec![("data", Json::Null)])), Err(ReconcileError::FetchFailed));
    let no_array = object(vec![("data", object(vec![("products", Json::Int(1))]))]);
    assert_eq!(parse_json(&no_array), Err(ReconcileError::FetchFailed));
}

#[test]
fn product_without_price_fails_the_page() {
    let broken = object(vec![("id", Json::Int(3)), ("sizes", Json::Array(vec![]))]);
    let data = answer(vec![product(1, 10000, 970, None), broken], None);
    assert_eq!(parse_json(&data), Err(ReconcileError::FetchFailed));
}

#[test]
fn malformed_numbers_fail_the_page() {
    let with_text_supplier = object(vec![
        ("id", Json::Int(1)),
        ("supplierId", Json::Text("x".to_string())),
        (
            "sizes",
            Json::Array(vec![object(vec![(
                "price",
                object(vec![("basic", Json::Int(1)), ("total", Json::Int(1))]),
            )])]),
        ),
    ]);
    assert_eq!(parse_json(&answer(vec![with_text_supplier], None)), Err(ReconcileError::FetchFailed));
    let too_large = product(1, 5_000_000_000, 970, None);
    assert_eq!(parse_json(&answer(vec![too_large], None)), Err(ReconcileError::FetchFailed));
    let inexact = object(vec![(
        "data",
        object(vec![("products", Json::Array(vec![])), ("total", Json::Inexact)]),
    )]);
    assert_eq!(parse_json(&inexact), Err(ReconcileError::FetchFailed));
}

#[test]
fn numbers_that_may_be_left_out() {
    assert_eq!(read_optional_int(None), Some(None));
    assert_eq!(read_optional_int(Some(&Json::Null)), Some(None));
    assert_eq!(read_optional_int(Some(&Json::Bool(false))), Some(None));
    assert_eq!(read_optional_int(Some(&Json::Int(5))), Some(Some(5)));
    assert_eq!(read_optional_int(Some(&Json::Bool(true))), None);
    assert_eq!(read_optional_int(Some(&Json::Int(i64::MAX))), None);
}

#[test]
fn rows_and_prices() {
    let p = product(8, 300, 200, None);
    assert_eq!(read_size_price(&p, "basic"), Some(300));
    assert_eq!(read_size_price(&p, "total"), Some(200));
    assert_eq!(read_size_price(&p, "other"), None);
    assert_eq!(read_row(&p), Some(ProductPrice { id: 8, basic: 300, total: 200 }));
    assert_eq!(read_row(&Json::Array(vec![])), None);
}

#[test]
fn first_member_with_the_key_counts() {
    let j = object(vec![("a", Json::Int(1)), ("b", Json::Int(2)), ("a", Json::Int(3))]);
    assert_eq!(j.get("a"), Some(&Json::Int(1)));
    assert_eq!(j.get("b"), Some(&Json::Int(2)));
    assert_eq!(j.get("c"), None);
    assert_eq!(Json::Int(1).get("a"), None);
    let a = Json::Array(vec![Json::Null, Json::Bool(true)]);
    assert_eq!(a.at(1), Some(&Json::Bool(true)));
    assert_eq!(a.at(2), None);
    assert_eq!(j.at(0), None);
    assert_eq!(Json::Int(-3).to_i32(), Some(-3));
    assert_eq!(Json::Int(i32::MAX as i64 + 1).to_i32(), None);
    assert_eq!(Json::Text("1".to_string()).to_i32(), None);
}

#[test]
fn card_answer_is_read_under_the_asked_id() {
    let data = answer(vec![product(999, 10000, 970, Some(77))], None);
    let page = one_price(42, &data).unwrap();
    assert_eq!(page.supplier_id, Some(77));
    assert_eq!(page.prices, vec![ProductPrice { id: 42, basic: 10000, total: 970 }]);
}

#[test]
fn card_without_price_is_not_found() {
    assert_eq!(one_price(42, &answer(vec![], None)), Err(ReconcileError::NotFound));
    assert_eq!(one_price(42, &Json::Null), Err(ReconcileError::NotFound));
    let no_total = object(vec![(
        "sizes",
        Json::Array(vec![object(vec![("price", object(vec![("basic", Json::Int(1))]))])]),
    )]);
    assert_eq!(one_price(42, &answer(vec![no_total], None)), Err(ReconcileError::NotFound));
}

#[test]
fn page_keeps_the_asked_goods_in_its_order() {
    let page = ProductPricesPage {
        supplier_id: Some(1),
        total: Some(3),
        prices: vec![
            ProductPrice { id: 3, basic: 1, total: 1 },
            ProductPrice { id: 1, basic: 2, total: 2 },
            ProductPrice { id: 2, basic: 3, total: 3 },
        ],
    };
    let kept = page.with_goods(vec![2, 3, 9]);
    assert_eq!(kept.supplier_id, Some(1));
    assert_eq!(kept.total, Some(3));
    assert_eq!(
        kept.prices,
        vec![ProductPrice { id: 3, basic: 1, total: 1 }, ProductPrice { id: 2, basic: 3, total: 3 }]
    );
    assert_eq!(page.with_goods(vec![]).prices, vec![]);
    assert!(contains_id(&vec![1, 2], 2));
    assert!(!contains_id(&vec![1, 2], 3));
}

#[test]
fn default_page_is_empty() {
    assert_eq!(
        ProductPricesPage::default(),
        ProductPricesPage { supplier_id: None, total: None, prices: vec![] }
    );
}

#[test]
fn answers_are_read_by_the_request() {
    let data = answer(
        vec![product(1, 10000, 970, Some(77)), product(2, 20000, 1500, Some(77))],
        None,
    );
    let nothing = read_prices(&PriceRequest::Nothing, &vec![], &data).unwrap();
    assert_eq!(nothing, ProductPricesPage::default());
    let one = read_prices(&PriceRequest::One { id: 5 }, &vec![5], &data).unwrap();
    assert_eq!(one.prices, vec![ProductPrice { id: 5, basic: 10000, total: 970 }]);
    let request = PriceRequest::Catalog { supplier: 77, limit: 300, page: 1 };
    let many = read_prices(&request, &vec![2, 4], &data).unwrap();
    assert_eq!(many.prices, vec![ProductPrice { id: 2, basic: 20000, total: 1500 }]);
    assert_eq!(read_prices(&request, &vec![2], &Json::Null), Err(ReconcileError::FetchFailed));
    assert_eq!(
        read_prices(&PriceRequest::One { id: 5 }, &vec![5], &Json::Null),
        Err(ReconcileError::NotFound)
    );
}

#[test]
fn push_carries_credential_and_prices() {
    let request = set_price("bearer-1", &vec![Product::new(42, 53196), Product::new(7, 400)]);
    assert_eq!(request.url, "https://discounts-prices-api.wildberries.ru/api/v2/upload/task");
    assert_eq!(request.authorization, "bearer-1");
    assert_eq!(request.timeout_seconds, 60);
    let expected = object(vec![(
        "data",
        Json::Array(vec![
            object(vec![("nmID", Json::Int(42)), ("price", Json::Int(53196))]),
            object(vec![("nmID", Json::Int(7)), ("price", Json::Int(400))]),
        ]),
    )]);
    assert_eq!(request.body, expected);
}

#[test]
fn push_of_nothing_has_an_empty_list() {
    let request = set_price("t", &vec![]);
    assert_eq!(request.body, object(vec![("data", Json::Array(vec![]))]));
}

#[test]
fn any_status_from_200_to_299_is_a_success() {
    assert!(is_success(200));
    assert!(is_success(204));
    assert!(is_success(299));
    assert!(!is_success(199));
    assert!(!is_success(300));
    assert!(!is_success(404));
    assert!(!is_success(500));
    assert!(!is_success(0));
}
