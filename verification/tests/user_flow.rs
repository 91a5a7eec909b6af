use shop_core::response::Body;
use shop_core::user::{
    email_taken, get_all_users, get_user, get_user_by_id, login, sign_up, ExistingUser, NewUser,
    UserTable,
};

fn alice() -> NewUser {
    NewUser {
        name: "Alice".to_string(),
        email: "alice@example.test".to_string(),
        password: "opensesame".to_string(),
    }
}

#[test]
fn duplicate_email_rejected_and_count_unchanged() {
    let mut table = UserTable::new();
    let r = sign_up(&mut table, alice());
    assert_eq!(r.status, 200);
    match r.body {
        Body::Text(m) => assert_eq!(m, "User added successfully!"),
        _ => panic!("unexpected body"),
    }
    let before = get_all_users(&table).len();
    let r = sign_up(
        &mut table,
        NewUser {
            name: "Impostor".to_string(),
            email: "alice@example.test".to_string(),
            password: "anotherpassword".to_string(),
        },
    );
    assert_eq!(r.status, 400);
    match r.body {
        Body::Message(m) => assert_eq!(m, "User with this email already exists!"),
        _ => panic!("unexpected body"),
    }
    assert_eq!(get_all_users(&table).len(), before);
}

#[test]
fn password_of_seven_rejected_eight_accepted() {
    let mut table = UserTable::new();
    let r = sign_up(
        &mut table,
        NewUser {
            name: "Bob".to_string(),
            email: "bob@example.test".to_string(),
            password: "abcdefg".to_string(),
        },
    );
    assert_eq!(r.status, 400);
    match r.body {
        Body::Message(m) => assert_eq!(m, "Password cannot be less than 8 characters!"),
        _ => panic!("unexpected body"),
    }
    assert_eq!(get_all_users(&table).len(), 0);
    let r = sign_up(
        &mut table,
        NewUser {
            name: "Bob".to_string(),
            email: "bob@example.test".to_string(),
            password: "abcdefgh".to_string(),
        },
    );
    assert_eq!(r.status, 200);
    assert_eq!(get_all_users(&table).len(), 1);
}

#[test]
fn password_length_counts_after_trimming() {
    let mut table = UserTable::new();
    let r = sign_up(
        &mut table,
        NewUser {
            name: "Carol".to_string(),
            email: "carol@example.test".to_string(),
            password: "  abcdefg  ".to_string(),
        },
    );
    assert_eq!(r.status, 400);
    let r = sign_up(
        &mut table,
        NewUser {
            name: "Carol".to_string(),
            email: "carol@example.test".to_string(),
            password: "\u{a0}\u{2003}abcdefgh\n\t".to_string(),
        },
    );
    assert_eq!(r.status, 200);
}

#[test]
fn password_length_counts_utf8_bytes() {
    let mut table = UserTable::new();
    let r = sign_up(
        &mut table,
        NewUser {
            name: "Dora".to_string(),
            email: "dora@example.test".to_string(),
            password: "\u{e9}\u{e9}\u{e9}\u{e9}".to_string(),
        },
    );
    assert_eq!(r.status, 200);
}

#[test]
fn login_outcomes_match_credentials() {
    let mut table = UserTable::new();
    sign_up(&mut table, alice());
    let r = login(
        &table,
        ExistingUser {
            email: "alice@example.test".to_string(),
            password: "opensesame".to_string(),
        },
    );
    assert_eq!(r.status, 200);
    match r.body {
        Body::Message(m) => assert_eq!(m, "Logged in successfully."),
        _ => panic!("unexpected body"),
    }
    let r = login(
        &table,
        ExistingUser {
            email: "alice@example.test".to_string(),
            password: "wrongpass".to_string(),
        },
    );
    assert_eq!(r.status, 401);
    match r.body {
        Body::Message(m) => assert_eq!(m, "Incorrect passsword!"),
        _ => panic!("unexpected body"),
    }
    let r = login(
        &table,
        ExistingUser {
            email: "nobody@example.test".to_string(),
            password: "opensesame".to_string(),
        },
    );
    assert_eq!(r.status, 404);
    match r.body {
        Body::Message(m) => assert_eq!(m, "No user found!"),
        _ => panic!("unexpected body"),
    }
}

#[test]
fn fetch_user_returns_row_without_password() {
    let mut table = UserTable::new();
    sign_up(&mut table, alice());
    let found = get_user_by_id(&table, 1);
    match found {
        Some(u) => {
            assert_eq!(u.id, 1);
            assert_eq!(u.name, "Alice");
            assert_eq!(u.email, "alice@example.test");
        }
        None => panic!("user not found"),
    }
    let r = get_user(&table, 1);
    assert_eq!(r.status, 200);
    match r.body {
        Body::User(u) => {
            assert_eq!(u.id, 1);
            assert_eq!(u.name, "Alice");
            assert_eq!(u.email, "alice@example.test");
        }
        _ => panic!("unexpected body"),
    }
    let r = get_user(&table, 2);
    assert_eq!(r.status, 404);
    match r.body {
        Body::Message(m) => assert_eq!(m, "No user found for provided ID!"),
        _ => panic!("unexpected body"),
    }
}

#[test]
fn listed_emails_keep_row_order() {
    let mut table = UserTable::new();
    sign_up(&mut table, alice());
    sign_up(
        &mut table,
        NewUser {
            name: "Bob".to_string(),
            email: "bob@example.test".to_string(),
            password: "longenough".to_string(),
        },
    );
    let emails = get_all_users(&table);
    assert_eq!(emails, vec!["alice@example.test".to_string(), "bob@example.test".to_string()]);
}

#[test]
fn email_scan_finds_exact_matches_only() {
    let emails = vec!["a@x.test".to_string(), "b@x.test".to_string()];
    assert!(email_taken(&emails, &"b@x.test".to_string()));
    assert!(!email_taken(&emails, &"B@x.test".to_string()));
    assert!(!email_taken(&emails, &"c@x.test".to_string()));
}
