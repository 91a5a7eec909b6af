use shop_core::response::{db_failure_response, Body, DbOperation};
use shop_core::text::password_long_enough;

fn message_of(op: DbOperation) -> (u16, String) {
    let r = db_failure_response(op);
    match r.body {
        Body::Message(m) => (r.status, m),
        Body::Text(m) => (r.status, m),
        _ => panic!("unexpected body"),
    }
}

#[test]
fn every_database_failure_answers_500() {
    assert_eq!(
        message_of(DbOperation::InsertProduct),
        (500, "Failed to add product.".to_string())
    );
    assert_eq!(
        message_of(DbOperation::SelectProducts),
        (500, "Failed to fetch products!".to_string())
    );
    assert_eq!(
        message_of(DbOperation::SelectProduct),
        (500, "Failed to fetch product!".to_string())
    );
    assert_eq!(
        message_of(DbOperation::UpdateProduct),
        (500, "Failed to update product!".to_string())
    );
    assert_eq!(
        message_of(DbOperation::DeleteProduct),
        (500, "Failed to delete the product!".to_string())
    );
    assert_eq!(
        message_of(DbOperation::SelectUserEmails),
        (500, "Failed to check existing users.".to_string())
    );
    assert_eq!(
        message_of(DbOperation::SelectUserByEmail),
        (500, "Database error occured!".to_string())
    );
    assert_eq!(
        message_of(DbOperation::SelectUserById),
        (500, "Database error!".to_string())
    );
}

#[test]
fn failed_user_insert_answers_plain_text() {
    let r = db_failure_response(DbOperation::InsertUser);
    assert_eq!(r.status, 500);
    match r.body {
        Body::Text(m) => assert_eq!(m, "Failed to add user!"),
        _ => panic!("unexpected body"),
    }
}

#[test]
fn password_rule_counts_trimmed_utf8_bytes() {
    assert!(!password_long_enough("abcdefg"));
    assert!(password_long_enough("abcdefgh"));
    assert!(!password_long_enough("   abcdefg   "));
    assert!(password_long_enough(" abcdefgh "));
    assert!(!password_long_enough(""));
    assert!(!password_long_enough(" \t\n\u{a0}\u{2003}\u{3000}"));
    assert!(password_long_enough("\u{e9}\u{e9}\u{e9}\u{e9}"));
    assert!(!password_long_enough("\u{e9}\u{e9}\u{e9}"));
    assert!(password_long_enough("\u{4e2d}\u{4e2d}\u{4e2d}"));
    assert!(password_long_enough("pass word"));
}
