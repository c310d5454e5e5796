//! The marketplace: which request to make for which prices, what to read
//! from an answer, and what to send when prices are set.
//!
//! Nothing here talks to the marketplace. A request is a value that the
//! caller carries out; an answer comes back as a [`Json`] document.

use vstd::prelude::*;
use vstd::string::StringExecFns;
use crate::error::ReconcileError;
use crate::json::{deref_json, Json};
use crate::product::Product;
use crate::text::{decimal_text, push_int};

verus! {

/// The prices that the marketplace shows for one product: `basic` is the
/// list price in hundredths, `total` the net price.
#[derive(Clone, Copy, Debug, PartialEq, Eq, Structural)]
pub struct ProductPrice {
    pub id: i32,
    pub basic: i32,
    pub total: i32,
}

/// What was read from one answer of the marketplace.
#[derive(Clone, Debug, PartialEq, Eq)]
pub struct ProductPricesPage {
    pub supplier_id: Option<i32>,
    pub total: Option<i32>,
    pub prices: Vec<ProductPrice>,
}

/// A page of prices as mathematical values.
pub struct PageView {
    pub supplier_id: Option<i32>,
    pub total: Option<i32>,
    pub prices: Seq<ProductPrice>,
}

impl View for ProductPricesPage {
    type V = PageView;

    open spec fn view(&self) -> PageView {
        PageView { supplier_id: self.supplier_id, total: self.total, prices: self.prices@ }
    }
}

impl Default for ProductPricesPage {
    /// The page without prices.
    fn default() -> (page: Self)
        ensures
            page@ == (PageView { supplier_id: None, total: None, prices: Seq::empty() }),
    {
        ProductPricesPage { supplier_id: None, total: None, prices: Vec::new() }
    }
}

/// Whether `id` is one of `ids`.
pub fn contains_id(ids: &Vec<i32>, id: i32) -> (found: bool)
    ensures
        found == ids@.contains(id),
{
    let mut i: usize = 0;
    while i < ids.len()
        invariant
            i <= ids.len(),
            forall|j: int| 0 <= j < i ==> ids@[j] != id,
        decreases ids.len() - i,
    {
        if ids[i] == id {
            return true;
        }
        i = i + 1;
    }
    false
}

impl ProductPricesPage {
    /// The page with only the prices of the products in `id_list`, in the
    /// order of the page.
    pub fn with_goods(&self, id_list: Vec<i32>) -> (page: Self)
        ensures
            page@ == (PageView {
                prices: self.prices@.filter(|p: ProductPrice| id_list@.contains(p.id)),
                ..self@
            }),
    {
        let ghost wanted = |p: ProductPrice| id_list@.contains(p.id);
        let mut prices: Vec<ProductPrice> = Vec::new();
        let mut i: usize = 0;
        proof {
            reveal(Seq::filter);
            assert(self.prices@.take(0) =~= Seq::<ProductPrice>::empty());
        }
        while i < self.prices.len()
            invariant
                i <= self.prices.len(),
                wanted == (|p: ProductPrice| id_list@.contains(p.id)),
                prices@ == self.prices@.take(i as int).filter(wanted),
            decreases self.prices.len() - i,
        {
            let price = self.prices[i];
            proof {
                reveal(Seq::filter);
                assert(self.prices@.take(i + 1).drop_last() =~= self.prices@.take(i as int));
                assert(self.prices@.take(i + 1).last() == price);
            }
            if contains_id(&id_list, price.id) {
                prices.push(price);
            }
            i = i + 1;
        }
        assert(self.prices@.take(i as int) =~= self.prices@);
        ProductPricesPage { supplier_id: self.supplier_id, total: self.total, prices }
    }
}

/// A request for prices.
#[derive(Clone, Copy, Debug, PartialEq, Eq, Structural)]
pub enum PriceRequest {
    /// No prices are wanted: nothing is asked.
    Nothing,
    /// The card of one product.
    One { id: i32 },
    /// A page of a merchant's catalog.
    Catalog { supplier: i32, limit: i32, page: i32 },
}

/// The number of products on a catalog page where none is given.
pub const CATALOG_LIMIT: i32 = 300;

/// The catalog page that is asked for where none is given.
pub const CATALOG_PAGE: i32 = 1;

/// The seconds after which a request to the marketplace is given up.
pub const HTTP_TIMEOUT: u64 = 60;

/// Whether the marketplace accepted a request: its answer has a status from
/// 200 to 299.
pub fn is_success(status: u16) -> (ok: bool)
    ensures
        ok == (200 <= status <= 299),
{
    200 <= status && status <= 299
}

/// The request for the prices of the products in `id_list`.
pub open spec fn spec_get_prices(supplier_id: Option<i32>, id_list: Seq<i32>) -> Result<
    PriceRequest,
    ReconcileError,
> {
    if id_list.len() == 0 {
        Ok(PriceRequest::Nothing)
    } else if id_list.len() == 1 {
        Ok(PriceRequest::One { id: id_list[0] })
    } else {
        match supplier_id {
            Some(supplier) => Ok(
                PriceRequest::Catalog { supplier, limit: CATALOG_LIMIT, page: CATALOG_PAGE },
            ),
            None => Err(ReconcileError::MissingCatalogId),
        }
    }
}

/// Chooses the request for the prices of the products in `id_list`: none
/// for no product, the card for one, the merchant's catalog for several.
/// The catalog needs the merchant's catalog id: without it the choice fails
/// with `MissingCatalogId`.
pub fn get_prices(supplier_id: Option<i32>, id_list: &Vec<i32>) -> (r: Result<
    PriceRequest,
    ReconcileError,
>)
    ensures
        r == spec_get_prices(supplier_id, id_list@),
{
    if id_list.len() == 0 {
        Ok(PriceRequest::Nothing)
    } else if id_list.len() == 1 {
        Ok(get_one_price(id_list[0]))
    } else {
        match supplier_id {
            Some(supplier) => Ok(get_supplier_catalog(supplier, None, None)),
            None => Err(ReconcileError::MissingCatalogId),
        }
    }
}

/// The request for the card of one product.
pub fn get_one_price(id: i32) -> (request: PriceRequest)
    ensures
        request == (PriceRequest::One { id }),
{
    PriceRequest::One { id }
}

/// The request for a page of a merchant's catalog: 300 products and page 1
/// where the caller names no other.
pub fn get_supplier_catalog(supplier: i32, limit: Option<i32>, page: Option<i32>) -> (request:
    PriceRequest)
    ensures
        request == (PriceRequest::Catalog {
            supplier,
            limit: match limit {
                Some(n) => n,
                None => CATALOG_LIMIT,
            },
            page: match page {
                Some(n) => n,
                None => CATALOG_PAGE,
            },
        }),
{
    let limit = match limit {
        Some(n) => n,
        None => CATALOG_LIMIT,
    };
    let page = match page {
        Some(n) => n,
        None => CATALOG_PAGE,
    };
    PriceRequest::Catalog { supplier, limit, page }
}

impl PriceRequest {
    /// The seconds after which the request is given up.
    pub fn timeout_seconds(&self) -> (seconds: u64)
        ensures
            seconds == HTTP_TIMEOUT,
    {
        HTTP_TIMEOUT
    }

    /// The address that the request is sent to with GET; none for `Nothing`.
    pub open spec fn spec_url(self) -> Option<Seq<char>> {
        match self {
            PriceRequest::Nothing => None,
            PriceRequest::One { id } => Some(
                "https://card.wb.ru/cards/v2/detail?curr=rub&dest=-1257786&nm="@ + decimal_text(
                    id as int,
                ),
            ),
            PriceRequest::Catalog { supplier, limit, page } => Some(
                "https://catalog.wb.ru/sellers/v2/catalog?curr=rub&dest=-1257786&sort=newly&supplier="@
                    + decimal_text(supplier as int) + "&limit="@ + decimal_text(limit as int)
                    + "&page="@ + decimal_text(page as int),
            ),
        }
    }

    /// The address that the request is sent to with GET; none for `Nothing`.
    pub fn url(&self) -> (r: Option<String>)
        ensures
            match r {
                Some(text) => self.spec_url() == Some(text@),
                None => self.spec_url() is None,
            },
    {
        match self {
            PriceRequest::Nothing => None,
            PriceRequest::One { id } => {
                let mut text = String::from_str(
                    "https://card.wb.ru/cards/v2/detail?curr=rub&dest=-1257786&nm=",
                );
                push_int(&mut text, *id);
                Some(text)
            },
            PriceRequest::Catalog { supplier, limit, page } => {
                let mut text = String::from_str(
                    "https://catalog.wb.ru/sellers/v2/catalog?curr=rub&dest=-1257786&sort=newly&supplier=",
                );
                push_int(&mut text, *supplier);
                text.append("&limit=");
                push_int(&mut text, *limit);
                text.append("&page=");
                push_int(&mut text, *page);
                Some(text)
            },
        }
    }
}

/// The member `key` of a value that may be missing.
pub open spec fn then_member(value: Option<Json>, key: Seq<char>) -> Option<Json> {
    match value {
        Some(j) => j.member(key),
        None => None,
    }
}

/// The element `i` of a value that may be missing.
pub open spec fn then_item(value: Option<Json>, i: int) -> Option<Json> {
    match value {
        Some(j) => j.item(i),
        None => None,
    }
}

/// A value that may be missing, as a 32-bit integer.
pub open spec fn then_i32(value: Option<Json>) -> Option<i32> {
    match value {
        Some(j) => j.as_i32(),
        None => None,
    }
}

/// The price `field` of the first size of a product: `sizes[0].price.<field>`.
pub open spec fn size_price(product: Json, field: Seq<char>) -> Option<i32> {
    then_i32(
        then_member(then_member(then_item(product.member("sizes"@), 0), "price"@), field),
    )
}

/// The prices of one product of an answer, where it has an id, a list price
/// and a net price that are 32-bit integers.
pub open spec fn spec_row(product: Json) -> Option<ProductPrice> {
    match (
        then_i32(product.member("id"@)),
        size_price(product, "basic"@),
        size_price(product, "total"@),
    ) {
        (Some(id), Some(basic), Some(total)) => Some(ProductPrice { id, basic, total }),
        _ => None,
    }
}

/// The prices of all the products of an answer, where each has them.
pub open spec fn spec_rows(products: Seq<Json>) -> Option<Seq<ProductPrice>> {
    if forall|i: int| 0 <= i < products.len() ==> (#[trigger] spec_row(products[i])) is Some {
        Some(Seq::new(products.len(), |i: int| spec_row(products[i]).unwrap()))
    } else {
        None
    }
}

/// A number that an answer may leave out: missing, `null` and `false` stand
/// for none. The outer `None` says that the value is something else than a
/// 32-bit integer.
pub open spec fn spec_optional_int(value: Option<Json>) -> Option<Option<i32>> {
    match value {
        None => Some(None),
        Some(Json::Null) => Some(None),
        Some(Json::Bool(false)) => Some(None),
        Some(j) => match j.as_i32() {
            Some(n) => Some(Some(n)),
            None => None,
        },
    }
}

/// What is read from an answer: the catalog id of the first product
/// (`data.products[0].supplierId`), the total (`data.total`) and the prices
/// of all the products (`data.products[]`). None where `data.products` is
/// no array, a product lacks a price, or a number is malformed.
pub open spec fn spec_parse_json(data: Json) -> Option<PageView> {
    let products = then_member(data.member("data"@), "products"@);
    match products {
        Some(Json::Array(items)) => match (
            spec_optional_int(then_member(then_item(products, 0), "supplierId"@)),
            spec_optional_int(then_member(data.member("data"@), "total"@)),
            spec_rows(items@),
        ) {
            (Some(supplier_id), Some(total), Some(prices)) => Some(
                PageView { supplier_id, total, prices },
            ),
            _ => None,
        },
        _ => None,
    }
}

/// The member `key` of a value that may be missing.
pub fn get_in<'a>(value: Option<&'a Json>, key: &str) -> (r: Option<&'a Json>)
    ensures
        deref_json(r) == then_member(deref_json(value), key@),
{
    match value {
        Some(j) => j.get(key),
        None => None,
    }
}

/// The price `field` of the first size of a product.
pub fn read_size_price(product: &Json, field: &str) -> (r: Option<i32>)
    ensures
        r == size_price(*product, field@),
{
    let size = match product.get("sizes") {
        Some(sizes) => sizes.at(0),
        None => None,
    };
    match get_in(get_in(size, "price"), field) {
        Some(v) => v.to_i32(),
        None => None,
    }
}

/// The prices of one product of an answer.
pub fn read_row(product: &Json) -> (r: Option<ProductPrice>)
    ensures
        r == spec_row(*product),
{
    let id = match product.get("id") {
        Some(v) => v.to_i32(),
        None => None,
    };
    let basic = read_size_price(product, "basic");
    let total = read_size_price(product, "total");
    match (id, basic, total) {
        (Some(id), Some(basic), Some(total)) => Some(ProductPrice { id, basic, total }),
        _ => None,
    }
}

/// A number that an answer may leave out.
pub fn read_optional_int(value: Option<&Json>) -> (r: Option<Option<i32>>)
    ensures
        r == spec_optional_int(deref_json(value)),
{
    match value {
        None => Some(None),
        Some(Json::Null) => Some(None),
        Some(Json::Bool(false)) => Some(None),
        Some(j) => match j.to_i32() {
            Some(n) => Some(Some(n)),
            None => None,
        },
    }
}

/// A page as its mathematical value, an error as itself.
pub open spec fn page_result(r: Result<ProductPricesPage, ReconcileError>) -> Result<
    PageView,
    ReconcileError,
> {
    match r {
        Ok(page) => Ok(page@),
        Err(e) => Err(e),
    }
}

/// Reads the catalog id, the total and the prices of all products from an
/// answer of the marketplace. Fails with `FetchFailed` where the answer does
/// not have that form.
pub fn parse_json(data: &Json) -> (r: Result<ProductPricesPage, ReconcileError>)
    ensures
        page_result(r) == match spec_parse_json(*data) {
            Some(page) => Ok::<PageView, ReconcileError>(page),
            None => Err::<PageView, ReconcileError>(ReconcileError::FetchFailed),
        },
{
    let inner = data.get("data");
    let products = get_in(inner, "products");
    let items = match products {
        Some(Json::Array(items)) => items,
        _ => {
            return Err(ReconcileError::FetchFailed);
        },
    };
    let first = match products {
        Some(j) => j.at(0),
        None => None,
    };
    let supplier_id = match read_optional_int(get_in(first, "supplierId")) {
        Some(v) => v,
        None => {
            return Err(ReconcileError::FetchFailed);
        },
    };
    let total = match read_optional_int(get_in(inner, "total")) {
        Some(v) => v,
        None => {
            return Err(ReconcileError::FetchFailed);
        },
    };
    let mut prices: Vec<ProductPrice> = Vec::new();
    let mut i: usize = 0;
    while i < items.len()
        invariant
            i <= items.len(),
            prices@.len() == i,
            then_member(data.member("data"@), "products"@) == Some(Json::Array(*items)),
            forall|j: int| 0 <= j < i ==> (#[trigger] spec_row(items@[j])) == Some(prices@[j]),
        decreases items.len() - i,
    {
        match read_row(&items[i]) {
            Some(row) => {
                prices.push(row);
            },
            None => {
                return Err(ReconcileError::FetchFailed);
            },
        }
        i = i + 1;
    }
    assert(spec_rows(items@) is Some);
    assert(prices@ =~= spec_rows(items@).unwrap());
    Ok(ProductPricesPage { supplier_id, total, prices })
}

/// What is read from the card of the product `id`: its list and net price
/// (`data.products[0].sizes[0].price.basic` and `.total`), with the catalog
/// id and the total as far as the answer holds them. None where a price is
/// missing.
pub open spec fn spec_one_price(id: i32, data: Json) -> Option<PageView> {
    let first = then_item(then_member(data.member("data"@), "products"@), 0);
    match first {
        Some(product) => match (size_price(product, "basic"@), size_price(product, "total"@)) {
            (Some(basic), Some(total)) => Some(
                PageView {
                    supplier_id: match spec_optional_int(product.member("supplierId"@)) {
                        Some(v) => v,
                        None => None,
                    },
                    total: match spec_optional_int(then_member(data.member("data"@), "total"@)) {
                        Some(v) => v,
                        None => None,
                    },
                    prices: seq![ProductPrice { id, basic, total }],
                },
            ),
            _ => None,
        },
        None => None,
    }
}

/// Reads the prices of the product `id` from its card. Fails with `NotFound`
/// where the card shows no list price or no net price.
pub fn one_price(id: i32, data: &Json) -> (r: Result<ProductPricesPage, ReconcileError>)
    ensures
        page_result(r) == match spec_one_price(id, *data) {
            Some(page) => Ok::<PageView, ReconcileError>(page),
            None => Err::<PageView, ReconcileError>(ReconcileError::NotFound),
        },
{
    let inner = data.get("data");
    let first = match get_in(inner, "products") {
        Some(j) => j.at(0),
        None => None,
    };
    let product = match first {
        Some(p) => p,
        None => {
            return Err(ReconcileError::NotFound);
        },
    };
    let basic = read_size_price(product, "basic");
    let total = read_size_price(product, "total");
    match (basic, total) {
        (Some(basic), Some(total)) => {
            let supplier_id = match read_optional_int(product.get("supplierId")) {
                Some(v) => v,
                None => None,
            };
            let page_total = match read_optional_int(get_in(inner, "total")) {
                Some(v) => v,
                None => None,
            };
            let mut prices: Vec<ProductPrice> = Vec::new();
            prices.push(ProductPrice { id, basic, total });
            assert(prices@ =~= seq![ProductPrice { id, basic, total }]);
            Ok(ProductPricesPage { supplier_id, total: page_total, prices })
        },
        _ => Err(ReconcileError::NotFound),
    }
}

/// What an answer to a request for the prices of `id_list` yields.
pub open spec fn spec_read_prices(request: PriceRequest, id_list: Seq<i32>, data: Json) -> Result<
    PageView,
    ReconcileError,
> {
    match request {
        PriceRequest::Nothing => Ok(PageView { supplier_id: None, total: None, prices: seq![] }),
        PriceRequest::One { id } => match spec_one_price(id, data) {
            Some(page) => Ok(page),
            None => Err(ReconcileError::NotFound),
        },
        PriceRequest::Catalog { .. } => match spec_parse_json(data) {
            Some(page) => Ok(
                PageView {
                    prices: page.prices.filter(|p: ProductPrice| id_list.contains(p.id)),
                    ..page
                },
            ),
            None => Err(ReconcileError::FetchFailed),
        },
    }
}

/// Reads the prices of the products in `id_list` from the answer to
/// `request`: from a card the one product, from a catalog page the products
/// that were asked for, in the order of the page.
pub fn read_prices(request: &PriceRequest, id_list: &Vec<i32>, data: &Json) -> (r: Result<
    ProductPricesPage,
    ReconcileError,
>)
    ensures
        page_result(r) == spec_read_prices(*request, id_list@, *data),
{
    match request {
        PriceRequest::Nothing => {
            let page = ProductPricesPage::default();
            assert(page@.prices =~= seq![]);
            Ok(page)
        },
        PriceRequest::One { id } => one_price(*id, data),
        PriceRequest::Catalog { .. } => match parse_json(data) {
            Ok(page) => Ok(page.with_goods(id_list.clone())),
            Err(e) => Err(e),
        },
    }
}

/// A request to set list prices.
#[derive(Debug, PartialEq, Eq)]
pub struct PushRequest {
    /// The address that the request is sent to with POST.
    pub url: String,
    /// The value of the `Authorization` header.
    pub authorization: String,
    /// The body.
    pub body: Json,
    /// The seconds after which the request is given up.
    pub timeout_seconds: u64,
}

/// Whether `item` is the entry of a push for the product:
/// `{"nmID": id, "price": price}`.
pub open spec fn is_push_item(item: Json, product: Product) -> bool {
    &&& item matches Json::Object(entries)
    &&& entries@.len() == 2
    &&& entries@[0].0@ == "nmID"@
    &&& entries@[0].1 == Json::Int(product.id as i64)
    &&& entries@[1].0@ == "price"@
    &&& entries@[1].1 == Json::Int(product.price as i64)
}

/// Whether `body` is the body of a push for the products:
/// `{"data": [{"nmID": id, "price": price}, ...]}`, in their order.
pub open spec fn is_push_body(body: Json, products: Seq<Product>) -> bool {
    &&& body matches Json::Object(entries)
    &&& entries@.len() == 1
    &&& entries@[0].0@ == "data"@
    &&& entries@[0].1 matches Json::Array(items)
    &&& items@.len() == products.len()
    &&& forall|i: int| 0 <= i < products.len() ==> is_push_item(#[trigger] items@[i], products[i])
}

/// The request that sets the list prices of the products, made in the name
/// of the merchant whose credential `token` is.
pub fn set_price(token: &str, products: &Vec<Product>) -> (request: PushRequest)
    ensures
        request.url@ == "https://discounts-prices-api.wildberries.ru/api/v2/upload/task"@,
        request.authorization@ == token@,
        is_push_body(request.body, products@),
        request.timeout_seconds == HTTP_TIMEOUT,
{
    let mut items: Vec<Json> = Vec::new();
    let mut i: usize = 0;
    while i < products.len()
        invariant
            i <= products.len(),
            items@.len() == i,
            forall|j: int| 0 <= j < i ==> is_push_item(#[trigger] items@[j], products@[j]),
        decreases products.len() - i,
    {
        let mut entries: Vec<(String, Json)> = Vec::new();
        entries.push((String::from_str("nmID"), Json::Int(products[i].id as i64)));
        entries.push((String::from_str("price"), Json::Int(products[i].price as i64)));
        items.push(Json::Object(entries));
        i = i + 1;
    }
    let mut entries: Vec<(String, Json)> = Vec::new();
    entries.push((String::from_str("data"), Json::Array(items)));
    PushRequest {
        url: String::from_str("https://discounts-prices-api.wildberries.ru/api/v2/upload/task"),
        authorization: String::from_str(token),
        body: Json::Object(entries),
        timeout_seconds: HTTP_TIMEOUT,
    }
}

} // verus!
