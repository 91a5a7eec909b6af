use shop_core::product::{
    add_product, add_product_at, delete_product_by_id, get_all_products, get_product_by_id,
    update_product_by_id_at, NewProduct, ProductTable,
};
use shop_core::response::Body;

fn pen() -> NewProduct {
    NewProduct {
        name: "Pen".to_string(),
        description: "Blue".to_string(),
        price_cents: 150,
        stock_quantity: 100,
        category: None,
        img_url: None,
    }
}

fn notebook() -> NewProduct {
    NewProduct {
        name: "Notebook".to_string(),
        description: "A5 ruled".to_string(),
        price_cents: 499,
        stock_quantity: 25,
        category: Some("stationery".to_string()),
        img_url: Some("https://example.test/notebook.png".to_string()),
    }
}

#[test]
fn create_then_fetch_matches() {
    let mut table = ProductTable::new();
    let r = add_product_at(&mut table, pen(), 1000);
    assert_eq!(r.status, 200);
    match r.body {
        Body::Note(m) => assert_eq!(m, "Product added successfully."),
        _ => panic!("unexpected body"),
    }
    let r = get_product_by_id(&table, 1);
    assert_eq!(r.status, 200);
    match r.body {
        Body::ProductItem(p) => {
            assert_eq!(p.id, 1);
            assert_eq!(p.name, "Pen");
            assert_eq!(p.description.as_deref(), Some("Blue"));
            assert_eq!(p.price_cents, 150);
            assert_eq!(p.stock_quantity, 100);
            assert_eq!(p.category, None);
            assert_eq!(p.img_url, None);
            assert_eq!(p.created_at, 1000);
            assert_eq!(p.updated_at, 1000);
            assert_eq!(p.created_at, p.updated_at);
        }
        _ => panic!("unexpected body"),
    }
}

#[test]
fn listing_includes_created_product() {
    let mut table = ProductTable::new();
    let r = add_product_at(&mut table, pen(), 42);
    assert_eq!(r.status, 200);
    let r = get_all_products(&table);
    assert_eq!(r.status, 200);
    match r.body {
        Body::ProductList(list) => {
            assert_eq!(list.len(), 1);
            assert_eq!(list[0].name, "Pen");
            assert_eq!(list[0].price_cents, 150);
        }
        _ => panic!("unexpected body"),
    }
}

#[test]
fn fetch_missing_returns_404() {
    let table = ProductTable::new();
    let r = get_product_by_id(&table, 7);
    assert_eq!(r.status, 404);
    match r.body {
        Body::Message(m) => assert_eq!(m, "Product not found!"),
        _ => panic!("unexpected body"),
    }
}

#[test]
fn update_changes_fields_and_advances_updated_at() {
    let mut table = ProductTable::new();
    add_product_at(&mut table, pen(), 1000);
    let r = update_product_by_id_at(&mut table, 1, notebook(), 2000);
    assert_eq!(r.status, 200);
    match r.body {
        Body::Note(m) => assert_eq!(m, "Product updated successfully."),
        _ => panic!("unexpected body"),
    }
    let r = get_product_by_id(&table, 1);
    assert_eq!(r.status, 200);
    match r.body {
        Body::ProductItem(p) => {
            assert_eq!(p.id, 1);
            assert_eq!(p.name, "Notebook");
            assert_eq!(p.description.as_deref(), Some("A5 ruled"));
            assert_eq!(p.price_cents, 499);
            assert_eq!(p.stock_quantity, 25);
            assert_eq!(p.category.as_deref(), Some("stationery"));
            assert_eq!(p.img_url.as_deref(), Some("https://example.test/notebook.png"));
            assert_eq!(p.created_at, 1000);
            assert_eq!(p.updated_at, 2000);
            assert!(p.updated_at > p.created_at);
        }
        _ => panic!("unexpected body"),
    }
}

#[test]
fn update_missing_returns_404_and_mutates_nothing() {
    let mut table = ProductTable::new();
    add_product_at(&mut table, pen(), 1000);
    let r = update_product_by_id_at(&mut table, 9, notebook(), 2000);
    assert_eq!(r.status, 404);
    match r.body {
        Body::Message(m) => assert_eq!(m, "Product not found!"),
        _ => panic!("unexpected body"),
    }
    let r = get_product_by_id(&table, 1);
    match r.body {
        Body::ProductItem(p) => {
            assert_eq!(p.name, "Pen");
            assert_eq!(p.updated_at, 1000);
        }
        _ => panic!("unexpected body"),
    }
}

#[test]
fn delete_twice_gives_200_then_404() {
    let mut table = ProductTable::new();
    add_product_at(&mut table, pen(), 1000);
    let r = delete_product_by_id(&mut table, 1);
    assert_eq!(r.status, 200);
    match r.body {
        Body::Note(m) => assert_eq!(m, "Product deleted successfully."),
        _ => panic!("unexpected body"),
    }
    let r = delete_product_by_id(&mut table, 1);
    assert_eq!(r.status, 404);
    match r.body {
        Body::Message(m) => assert_eq!(m, "Product not found!"),
        _ => panic!("unexpected body"),
    }
}

#[test]
fn ids_come_from_an_increasing_counter() {
    let mut table = ProductTable::new();
    add_product_at(&mut table, pen(), 10);
    add_product_at(&mut table, notebook(), 20);
    let r = get_product_by_id(&table, 2);
    assert_eq!(r.status, 200);
    match r.body {
        Body::ProductItem(p) => assert_eq!(p.name, "Notebook"),
        _ => panic!("unexpected body"),
    }
    delete_product_by_id(&mut table, 2);
    add_product_at(&mut table, notebook(), 30);
    let r = get_product_by_id(&table, 3);
    assert_eq!(r.status, 200);
}

#[test]
fn clocked_create_stamps_both_timestamps_alike() {
    let mut table = ProductTable::new();
    let r = add_product(&mut table, pen());
    assert_eq!(r.status, 200);
    let r = get_product_by_id(&table, 1);
    assert_eq!(r.status, 200);
    match r.body {
        Body::ProductItem(p) => {
            assert_eq!(p.created_at, p.updated_at);
            assert!(p.created_at >= 0);
        }
        _ => panic!("unexpected body"),
    }
}
