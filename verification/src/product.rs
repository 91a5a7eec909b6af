//! The products table and its five handlers.
//!
//! Each handler mirrors one route: create, list, fetch by id, full update,
//! delete. The table holds the rows in insertion order and hands out ids from
//! a strictly increasing counter, as the database's auto-increment column
//! does. Prices are carried as a whole number of cents and timestamps as
//! microseconds since the Unix epoch, so that every field is a plain value.

use vstd::prelude::*;

use crate::clock::now_micros;
use crate::response::{ApiResponse, ApiResponseView, Body, BodyView};

verus! {

/// A stored product row.
pub struct Product {
    pub id: i32,
    pub name: String,
    pub description: Option<String>,
    pub price_cents: i64,
    pub stock_quantity: i32,
    pub category: Option<String>,
    pub img_url: Option<String>,
    pub created_at: i64,
    pub updated_at: i64,
}

/// The body of a create or update request: every field of a row that the
/// client chooses. The description is required here though the stored column
/// is nullable, so a created row always carries one.
pub struct NewProduct {
    pub name: String,
    pub description: String,
    pub price_cents: i64,
    pub stock_quantity: i32,
    pub category: Option<String>,
    pub img_url: Option<String>,
}

/// Mathematical image of an optional string.
pub open spec fn opt_view(o: Option<String>) -> Option<Seq<char>> {
    match o {
        Option::Some(s) => Option::Some(s@),
        Option::None => Option::None,
    }
}

/// Mathematical image of a stored row.
#[verifier::ext_equal]
pub ghost struct ProductView {
    pub id: int,
    pub name: Seq<char>,
    pub description: Option<Seq<char>>,
    pub price_cents: int,
    pub stock_quantity: int,
    pub category: Option<Seq<char>>,
    pub img_url: Option<Seq<char>>,
    pub created_at: int,
    pub updated_at: int,
}

impl View for Product {
    type V = ProductView;

    open spec fn view(&self) -> ProductView {
        ProductView {
            id: self.id as int,
            name: self.name@,
            description: opt_view(self.description),
            price_cents: self.price_cents as int,
            stock_quantity: self.stock_quantity as int,
            category: opt_view(self.category),
            img_url: opt_view(self.img_url),
            created_at: self.created_at as int,
            updated_at: self.updated_at as int,
        }
    }
}

/// Mathematical image of a request body.
#[verifier::ext_equal]
pub ghost struct NewProductView {
    pub name: Seq<char>,
    pub description: Seq<char>,
    pub price_cents: int,
    pub stock_quantity: int,
    pub category: Option<Seq<char>>,
    pub img_url: Option<Seq<char>>,
}

impl View for NewProduct {
    type V = NewProductView;

    open spec fn view(&self) -> NewProductView {
        NewProductView {
            name: self.name@,
            description: self.description@,
            price_cents: self.price_cents as int,
            stock_quantity: self.stock_quantity as int,
            category: opt_view(self.category),
            img_url: opt_view(self.img_url),
        }
    }
}

/// Image of a sequence of rows.
pub open spec fn products_view(rows: Seq<Product>) -> Seq<ProductView> {
    Seq::new(rows.len(), |i: int| rows[i]@)
}

/// The products table: the rows in insertion order and the next id the
/// auto-increment counter will hand out.
pub struct ProductTable {
    pub rows: Vec<Product>,
    pub next_id: i32,
}

/// Mathematical image of the table.
#[verifier::ext_equal]
pub ghost struct ProductTableView {
    pub rows: Seq<ProductView>,
    pub next_id: int,
}

impl View for ProductTable {
    type V = ProductTableView;

    open spec fn view(&self) -> ProductTableView {
        ProductTableView { rows: products_view(self.rows@), next_id: self.next_id as int }
    }
}

/// Well-formedness: ids are positive, below the counter, and pairwise
/// distinct, as an auto-increment primary key keeps them.
pub open spec fn product_table_wf(t: ProductTableView) -> bool {
    &&& 1 <= t.next_id <= i32::MAX as int
    &&& forall|i: int, j: int|
        0 <= i < j < t.rows.len() ==> t.rows[i].id != t.rows[j].id
    &&& forall|i: int| 0 <= i < t.rows.len() ==> 0 < #[trigger] t.rows[i].id < t.next_id
}

impl ProductTable {
    /// Well-formedness of the table.
    pub open spec fn wf(&self) -> bool {
        product_table_wf(self@)
    }

    /// An empty table, as a freshly created database starts.
    pub fn new() -> (t: ProductTable)
        ensures
            t.wf(),
            t@.rows.len() == 0,
            t@.next_id == 1,
    {
        ProductTable { rows: Vec::new(), next_id: 1 }
    }
}

/// Whether some row carries this id.
pub open spec fn product_in(rows: Seq<ProductView>, id: int) -> bool {
    exists|i: int| 0 <= i < rows.len() && rows[i].id == id
}

/// Index of the row carrying this id; with distinct ids there is at most one.
pub open spec fn product_index(rows: Seq<ProductView>, id: int) -> int {
    choose|i: int| 0 <= i < rows.len() && rows[i].id == id
}

/// The row a create request stores: both timestamps are the insertion time.
pub open spec fn product_row(p: NewProductView, id: int, now: int) -> ProductView {
    ProductView {
        id: id,
        name: p.name,
        description: Option::Some(p.description),
        price_cents: p.price_cents,
        stock_quantity: p.stock_quantity,
        category: p.category,
        img_url: p.img_url,
        created_at: now,
        updated_at: now,
    }
}

/// The row after a full update: every mutable field is replaced, the id and
/// creation time stay, and the update time is refreshed.
pub open spec fn updated_row(r: ProductView, p: NewProductView, now: int) -> ProductView {
    ProductView {
        id: r.id,
        name: p.name,
        description: Option::Some(p.description),
        price_cents: p.price_cents,
        stock_quantity: p.stock_quantity,
        category: p.category,
        img_url: p.img_url,
        created_at: r.created_at,
        updated_at: now,
    }
}

/// What the create handler does: append the new row under the next id and
/// answer 200.
pub open spec fn spec_add_product(t: ProductTableView, p: NewProductView, now: int) -> (
    ProductTableView,
    ApiResponseView,
) {
    (
        ProductTableView {
            rows: t.rows.push(product_row(p, t.next_id, now)),
            next_id: t.next_id + 1,
        },
        ApiResponseView {
            status: 200,
            body: BodyView::Note("Product added successfully."@),
        },
    )
}

/// What the list handler answers: 200 with every row.
pub open spec fn spec_get_all_products(t: ProductTableView) -> ApiResponseView {
    ApiResponseView { status: 200, body: BodyView::ProductList(t.rows) }
}

/// What the fetch handler answers: 200 with the row when the id is present,
/// 404 otherwise.
pub open spec fn spec_get_product_by_id(t: ProductTableView, id: int) -> ApiResponseView {
    if product_in(t.rows, id) {
        ApiResponseView {
            status: 200,
            body: BodyView::ProductItem(t.rows[product_index(t.rows, id)]),
        }
    } else {
        ApiResponseView { status: 404, body: BodyView::Message("Product not found!"@) }
    }
}

/// What the update handler does: replace the matching row's mutable fields
/// and answer 200, or answer 404 and change nothing when the id is absent.
pub open spec fn spec_update_product_by_id(
    t: ProductTableView,
    id: int,
    p: NewProductView,
    now: int,
) -> (ProductTableView, ApiResponseView) {
    if product_in(t.rows, id) {
        let k = product_index(t.rows, id);
        (
            ProductTableView {
                rows: t.rows.update(k, updated_row(t.rows[k], p, now)),
                next_id: t.next_id,
            },
            ApiResponseView {
                status: 200,
                body: BodyView::Note("Product updated successfully."@),
            },
        )
    } else {
        (t, ApiResponseView { status: 404, body: BodyView::Message("Product not found!"@) })
    }
}

/// What the delete handler does: remove the matching row and answer 200, or
/// answer 404 and change nothing when the id is absent.
pub open spec fn spec_delete_product_by_id(t: ProductTableView, id: int) -> (
    ProductTableView,
    ApiResponseView,
) {
    if product_in(t.rows, id) {
        (
            ProductTableView {
                rows: t.rows.remove(product_index(t.rows, id)),
                next_id: t.next_id,
            },
            ApiResponseView {
                status: 200,
                body: BodyView::Note("Product deleted successfully."@),
            },
        )
    } else {
        (t, ApiResponseView { status: 404, body: BodyView::Message("Product not found!"@) })
    }
}

/// Copy an optional string.
fn clone_opt_string(o: &Option<String>) -> (r: Option<String>)
    ensures
        opt_view(r) == opt_view(*o),
{
    match o {
        Option::Some(s) => Option::Some(s.clone()),
        Option::None => Option::None,
    }
}

impl Clone for Product {
    /// A field-for-field copy.
    fn clone(&self) -> (r: Product)
        ensures
            r@ == self@,
    {
        Product {
            id: self.id,
            name: self.name.clone(),
            description: clone_opt_string(&self.description),
            price_cents: self.price_cents,
            stock_quantity: self.stock_quantity,
            category: clone_opt_string(&self.category),
            img_url: clone_opt_string(&self.img_url),
            created_at: self.created_at,
            updated_at: self.updated_at,
        }
    }
}

/// Store a new product at the given insertion time and confirm with 200.
pub fn add_product_at(table: &mut ProductTable, product: NewProduct, now: i64) -> (r: ApiResponse)
    requires
        old(table).wf(),
        old(table).next_id < i32::MAX,
    ensures
        final(table).wf(),
        final(table)@ == spec_add_product(old(table)@, product@, now as int).0,
        r@ == spec_add_product(old(table)@, product@, now as int).1,
{
    let ghost t0 = table@;
    let ghost p = product@;
    let id = table.next_id;
    let row = Product {
        id: id,
        name: product.name,
        description: Option::Some(product.description),
        price_cents: product.price_cents,
        stock_quantity: product.stock_quantity,
        category: product.category,
        img_url: product.img_url,
        created_at: now,
        updated_at: now,
    };
    proof {
        assert(row@ == product_row(p, t0.next_id, now as int));
    }
    table.rows.push(row);
    table.next_id = table.next_id + 1;
    proof {
        assert(table@.rows =~= t0.rows.push(product_row(p, t0.next_id, now as int)));
        assert(table@ =~= spec_add_product(t0, p, now as int).0);
        assert forall|i: int, j: int|
            0 <= i < j < table@.rows.len() implies table@.rows[i].id
            != table@.rows[j].id by {
            if j < t0.rows.len() {
                assert(t0.rows[i].id != t0.rows[j].id);
            } else {
                assert(t0.rows[i].id < t0.next_id);
            }
        }
    }
    ApiResponse { status: 200, body: Body::Note("Product added successfully.".to_owned()) }
}

/// Store a new product at the current time and confirm with 200. The clock
/// decides the timestamps, so they are stated existentially; both equal the
/// one instant read.
pub fn add_product(table: &mut ProductTable, product: NewProduct) -> (r: ApiResponse)
    requires
        old(table).wf(),
        old(table).next_id < i32::MAX,
    ensures
        final(table).wf(),
        exists|now: int|
            #![trigger spec_add_product(old(table)@, product@, now)]
            0 <= now && final(table)@ == spec_add_product(old(table)@, product@, now).0 && r@
                == spec_add_product(old(table)@, product@, now).1,
{
    let ghost t0 = table@;
    let ghost p = product@;
    let now = now_micros();
    let r = add_product_at(table, product, now);
    proof {
        assert(0 <= now as int && table@ == spec_add_product(t0, p, now as int).0 && r@
            == spec_add_product(t0, p, now as int).1);
    }
    r
}

/// Answer 200 with a copy of every row.
pub fn get_all_products(table: &ProductTable) -> (r: ApiResponse)
    ensures
        r@ == spec_get_all_products(table@),
{
    let n = table.rows.len();
    let mut list: Vec<Product> = Vec::new();
    let mut i: usize = 0;
    while i < n
        invariant
            n == table.rows@.len(),
            0 <= i <= n,
            list@.len() == i,
            forall|j: int| 0 <= j < i ==> #[trigger] list@[j]@ == table.rows@[j]@,
        decreases n - i,
    {
        list.push(table.rows[i].clone());
        i = i + 1;
    }
    proof {
        assert(products_view(list@) =~= products_view(table.rows@));
    }
    ApiResponse { status: 200, body: Body::ProductList(list) }
}

/// Answer 200 with a copy of the row carrying the id, or 404 when none does.
pub fn get_product_by_id(table: &ProductTable, id: i32) -> (r: ApiResponse)
    requires
        table.wf(),
    ensures
        r@ == spec_get_product_by_id(table@, id as int),
{
    let n = table.rows.len();
    let mut i: usize = 0;
    while i < n
        invariant
            n == table.rows@.len(),
            0 <= i <= n,
            table.wf(),
            forall|j: int| 0 <= j < i ==> #[trigger] table@.rows[j].id != id as int,
        decreases n - i,
    {
        if table.rows[i].id == id {
            proof {
                assert(table@.rows[i as int] == table.rows@[i as int]@);
                assert(table@.rows[i as int].id == id as int);
                assert(product_in(table@.rows, id as int));
                let k = product_index(table@.rows, id as int);
                assert(0 <= k < table@.rows.len() && table@.rows[k].id == id as int);
                if k < i as int {
                    assert(table@.rows[k].id != id as int);
                } else if k > i as int {
                    assert(table@.rows[i as int].id != table@.rows[k].id);
                }
                assert(k == i as int);
            }
            return ApiResponse { status: 200, body: Body::ProductItem(table.rows[i].clone()) };
        }
        i = i + 1;
    }
    proof {
        assert(!product_in(table@.rows, id as int));
    }
    ApiResponse { status: 404, body: Body::Message("Product not found!".to_owned()) }
}

/// Replace every mutable field of the row carrying the id, refreshing its
/// update time to the given instant, and confirm with 200; answer 404 and
/// change nothing when the id is absent.
pub fn update_product_by_id_at(
    table: &mut ProductTable,
    id: i32,
    product: NewProduct,
    now: i64,
) -> (r: ApiResponse)
    requires
        old(table).wf(),
    ensures
        final(table).wf(),
        final(table)@ == spec_update_product_by_id(old(table)@, id as int, product@, now as int).0,
        r@ == spec_update_product_by_id(old(table)@, id as int, product@, now as int).1,
{
    let ghost t0 = table@;
    let ghost p = product@;
    let n = table.rows.len();
    let mut i: usize = 0;
    while i < n
        invariant
            table@ == t0,
            old(table)@ == t0,
            product@ == p,
            n == table.rows@.len(),
            0 <= i <= n,
            product_table_wf(t0),
            forall|j: int| 0 <= j < i ==> #[trigger] t0.rows[j].id != id as int,
        decreases n - i,
    {
        if table.rows[i].id == id {
            proof {
                assert(t0.rows[i as int] == table.rows@[i as int]@);
                assert(t0.rows[i as int].id == id as int);
                assert(product_in(t0.rows, id as int));
                let k = product_index(t0.rows, id as int);
                assert(0 <= k < t0.rows.len() && t0.rows[k].id == id as int);
                if k < i as int {
                    assert(t0.rows[k].id != id as int);
                } else if k > i as int {
                    assert(t0.rows[i as int].id != t0.rows[k].id);
                }
                assert(k == i as int);
            }
            let created = table.rows[i].created_at;
            let row = Product {
                id: id,
                name: product.name,
                description: Option::Some(product.description),
                price_cents: product.price_cents,
                stock_quantity: product.stock_quantity,
                category: product.category,
                img_url: product.img_url,
                created_at: created,
                updated_at: now,
            };
            proof {
                assert(row@ =~= updated_row(t0.rows[i as int], p, now as int));
            }
            table.rows.set(i, row);
            proof {
                assert(table@.rows =~= t0.rows.update(
                    i as int,
                    updated_row(t0.rows[i as int], p, now as int),
                ));
                assert(table@ =~= spec_update_product_by_id(t0, id as int, p, now as int).0);
                assert(forall|j: int|
                    0 <= j < table@.rows.len() ==> #[trigger] table@.rows[j].id == t0.rows[j].id);
            }
            return ApiResponse {
                status: 200,
                body: Body::Note("Product updated successfully.".to_owned()),
            };
        }
        i = i + 1;
    }
    proof {
        assert(!product_in(t0.rows, id as int));
    }
    ApiResponse { status: 404, body: Body::Message("Product not found!".to_owned()) }
}

/// Replace the row's mutable fields at the current time. The clock decides
/// the new update time, so it is stated existentially.
pub fn update_product_by_id(table: &mut ProductTable, id: i32, product: NewProduct) -> (r:
    ApiResponse)
    requires
        old(table).wf(),
    ensures
        final(table).wf(),
        exists|now: int|
            #![trigger spec_update_product_by_id(old(table)@, id as int, product@, now)]
            0 <= now && final(table)@ == spec_update_product_by_id(
                old(table)@,
                id as int,
                product@,
                now,
            ).0 && r@ == spec_update_product_by_id(old(table)@, id as int, product@, now).1,
{
    let ghost t0 = table@;
    let ghost p = product@;
    let now = now_micros();
    let r = update_product_by_id_at(table, id, product, now);
    proof {
        assert(0 <= now as int && table@ == spec_update_product_by_id(
            t0,
            id as int,
            p,
            now as int,
        ).0 && r@ == spec_update_product_by_id(t0, id as int, p, now as int).1);
    }
    r
}

/// Remove the row carrying the id and confirm with 200; answer 404 and
/// change nothing when the id is absent.
pub fn delete_product_by_id(table: &mut ProductTable, id: i32) -> (r: ApiResponse)
    requires
        old(table).wf(),
    ensures
        final(table).wf(),
        final(table)@ == spec_delete_product_by_id(old(table)@, id as int).0,
        r@ == spec_delete_product_by_id(old(table)@, id as int).1,
{
    let ghost t0 = table@;
    let n = table.rows.len();
    let mut i: usize = 0;
    while i < n
        invariant
            table@ == t0,
            old(table)@ == t0,
            n == table.rows@.len(),
            0 <= i <= n,
            product_table_wf(t0),
            forall|j: int| 0 <= j < i ==> #[trigger] t0.rows[j].id != id as int,
        decreases n - i,
    {
        if table.rows[i].id == id {
            proof {
                assert(t0.rows[i as int] == table.rows@[i as int]@);
                assert(t0.rows[i as int].id == id as int);
                assert(product_in(t0.rows, id as int));
                let k = product_index(t0.rows, id as int);
                assert(0 <= k < t0.rows.len() && t0.rows[k].id == id as int);
                if k < i as int {
                    assert(t0.rows[k].id != id as int);
                } else if k > i as int {
                    assert(t0.rows[i as int].id != t0.rows[k].id);
                }
                assert(k == i as int);
            }
            table.rows.remove(i);
            proof {
                assert(table@.rows =~= t0.rows.remove(i as int));
                assert(table@ =~= spec_delete_product_by_id(t0, id as int).0);
                assert forall|a: int, b: int|
                    0 <= a < b < table@.rows.len() implies table@.rows[a].id
                    != table@.rows[b].id by {
                    let a0 = if a < i as int { a } else { a + 1 };
                    let b0 = if b < i as int { b } else { b + 1 };
                    assert(table@.rows[a] == t0.rows[a0]);
                    assert(table@.rows[b] == t0.rows[b0]);
                }
                assert forall|a: int| 0 <= a < table@.rows.len() implies 0 < #[trigger] table@.rows[a].id
                    < table@.next_id by {
                    let a0 = if a < i as int { a } else { a + 1 };
                    assert(table@.rows[a] == t0.rows[a0]);
                }
            }
            return ApiResponse {
                status: 200,
                body: Body::Note("Product deleted successfully.".to_owned()),
            };
        }
        i = i + 1;
    }
    proof {
        assert(!product_in(t0.rows, id as int));
    }
    ApiResponse { status: 404, body: Body::Message("Product not found!".to_owned()) }
}

/// Creating a product and then fetching it under the id the counter handed
/// out returns exactly the stored row, whose creation and update times are
/// the one insertion instant; the listing afterwards ends with that row.
pub proof fn lemma_add_then_get(t: ProductTableView, p: NewProductView, now: int)
    requires
        product_table_wf(t),
        t.next_id < i32::MAX as int,
    ensures
        product_table_wf(spec_add_product(t, p, now).0),
        spec_get_product_by_id(spec_add_product(t, p, now).0, t.next_id) == (ApiResponseView {
            status: 200,
            body: BodyView::ProductItem(product_row(p, t.next_id, now)),
        }),
        product_row(p, t.next_id, now).created_at == product_row(p, t.next_id, now).updated_at,
        spec_get_all_products(spec_add_product(t, p, now).0) == (ApiResponseView {
            status: 200,
            body: BodyView::ProductList(spec_add_product(t, p, now).0.rows),
        }),
        spec_add_product(t, p, now).0.rows.last() == product_row(p, t.next_id, now),
{
    let t2 = spec_add_product(t, p, now).0;
    let n = t.rows.len() as int;
    assert forall|i: int, j: int|
        0 <= i < j < t2.rows.len() implies t2.rows[i].id != t2.rows[j].id by {
        if j < n {
            assert(t.rows[i].id != t.rows[j].id);
        } else {
            assert(t.rows[i].id < t.next_id);
        }
    }
    assert forall|i: int| 0 <= i < t2.rows.len() implies 0 < #[trigger] t2.rows[i].id
        < t2.next_id by {
        if i < n {
            assert(0 < t.rows[i].id < t.next_id);
        }
    }
    assert(t2.rows[n].id == t.next_id);
    assert(product_in(t2.rows, t.next_id));
    let k = product_index(t2.rows, t.next_id);
    assert(0 <= k < t2.rows.len() && t2.rows[k].id == t.next_id);
    if k < n {
        assert(0 < t.rows[k].id < t.next_id);
    }
    assert(k == n);
}

/// Updating an existing product answers 200 and replaces every mutable field
/// of exactly the matching row, keeping its id and creation time and setting
/// its update time to the given instant — strictly later than before
/// whenever the clock moved forward. Updating an absent id answers 404 and
/// leaves the table unchanged.
pub proof fn lemma_update_semantics(t: ProductTableView, id: int, p: NewProductView, now: int)
    requires
        product_table_wf(t),
    ensures
        product_in(t.rows, id) ==> spec_update_product_by_id(t, id, p, now).1.status == 200,
        spec_update_product_by_id(t, id, p, now).0.rows.len() == t.rows.len(),
        forall|j: int|
            0 <= j < t.rows.len() && #[trigger] t.rows[j].id != id ==> spec_update_product_by_id(
                t,
                id,
                p,
                now,
            ).0.rows[j] == t.rows[j],
        forall|j: int|
            0 <= j < t.rows.len() && #[trigger] t.rows[j].id == id ==> spec_update_product_by_id(
                t,
                id,
                p,
                now,
            ).0.rows[j] == updated_row(t.rows[j], p, now),
        forall|j: int|
            0 <= j < t.rows.len() && #[trigger] t.rows[j].id == id && now > t.rows[j].updated_at
                ==> spec_update_product_by_id(t, id, p, now).0.rows[j].updated_at
                > t.rows[j].updated_at,
        !product_in(t.rows, id) ==> spec_update_product_by_id(t, id, p, now).0 == t
            && spec_update_product_by_id(t, id, p, now).1.status == 404,
{
    if product_in(t.rows, id) {
        let k = product_index(t.rows, id);
        assert(0 <= k < t.rows.len() && t.rows[k].id == id);
        assert forall|j: int|
            0 <= j < t.rows.len() && #[trigger] t.rows[j].id == id implies j == k by {
            if j < k {
                assert(t.rows[j].id != t.rows[k].id);
            } else if j > k {
                assert(t.rows[k].id != t.rows[j].id);
            }
        }
    }
}

/// A successful delete removes the only row carrying the id, so deleting the
/// same id a second time answers 404 and changes nothing.
pub proof fn lemma_delete_twice(t: ProductTableView, id: int)
    requires
        product_table_wf(t),
        product_in(t.rows, id),
    ensures
        spec_delete_product_by_id(t, id).1.status == 200,
        spec_delete_product_by_id(t, id).0.rows.len() == t.rows.len() - 1,
        !product_in(spec_delete_product_by_id(t, id).0.rows, id),
        spec_delete_product_by_id(spec_delete_product_by_id(t, id).0, id).0
            == spec_delete_product_by_id(t, id).0,
        spec_delete_product_by_id(spec_delete_product_by_id(t, id).0, id).1.status == 404,
{
    let k = product_index(t.rows, id);
    assert(0 <= k < t.rows.len() && t.rows[k].id == id);
    let rows2 = t.rows.remove(k);
    t.rows.remove_ensures(k);
    assert forall|j: int| 0 <= j < rows2.len() implies #[trigger] rows2[j].id != id by {
        if j < k {
            assert(rows2[j] == t.rows[j]);
            assert(t.rows[j].id != t.rows[k].id);
        } else {
            assert(rows2[j] == t.rows[j + 1]);
            assert(t.rows[k].id != t.rows[j + 1].id);
        }
    }
    assert(!product_in(rows2, id));
}

} // verus!
