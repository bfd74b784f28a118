use conduit_core::auth::password::{hash, hash_is_checkable, is_hashable, verify};
use conduit_core::auth::{
    authenticated_username, login, registration_error, require_login, AuthError,
};
use conduit_core::db::{changed_one_row, expect_one_row, DbError};
use conduit_core::models::comment::{Comment, CommentRow};
use conduit_core::models::user::{opt_string_eq, PasswordChange, Profile, User};

#[test]
fn hash_is_accepted_for_its_password() {
    let h = hash("correct horse");
    assert_ne!(h, "correct horse");
    assert!(h.starts_with("$argon2id$"));
    assert!(verify("correct horse", &h));
    assert!(!verify("correct horse ", &h));
    assert!(!verify("", &h));
}

#[test]
fn ordinary_passwords_can_be_hashed() {
    assert!(is_hashable(""));
    assert!(is_hashable("correct horse"));
    assert!(is_hashable(&"é".repeat(100_000)));
}

#[test]
fn hashes_differ_from_call_to_call() {
    let a = hash("same");
    let b = hash("same");
    assert_ne!(a, b);
    assert!(verify("same", &a));
    assert!(verify("same", &b));
}

#[test]
fn known_hash_is_verified() {
    let stored = "$argon2id$v=19$m=16,t=2,p=1$c29tZXNhbHQ$WVDOfucSPAey3UEzzqLtBwRbGS83pTyIPLXgjhKfgrY";
    assert!(!verify("definitely not it", stored));
}

#[test]
fn malformed_hash_matches_nothing() {
    assert!(!verify("password", ""));
    assert!(!verify("password", "password"));
    assert!(!verify("", ""));
    assert!(!verify("password", "$argon2id$"));
}

#[test]
fn fresh_hash_can_be_checked() {
    for _ in 0..3 {
        assert!(hash_is_checkable(&hash("any password")));
    }
}

#[test]
fn hashes_that_name_too_many_lanes_are_not_checked() {
    assert!(hash_is_checkable(""));
    assert!(hash_is_checkable("no parameters here"));
    assert!(hash_is_checkable("$argon2id$v=19$m=19456,t=2,p=1$c29tZXNhbHQ$aGFzaGhhc2hoYXNo"));
    assert!(hash_is_checkable("$argon2id$v=19$m=8,t=1,p=16777215$c29tZXNhbHQ$aGFzaGhhc2hoYXNo"));
    assert!(!hash_is_checkable("$argon2id$v=19$m=8,t=1,p=16777216$c29tZXNhbHQ$aGFzaGhhc2hoYXNo"));
    assert!(!hash_is_checkable("$argon2id$v=19$m=8,t=1,p=536870912$c29tZXNhbHQ$aGFzaGhhc2hoYXNo"));
    assert!(!hash_is_checkable("$argon2id$v=19$m=8,t=1,p=4294967295$c29tZXNhbHQ$aGFzaGhhc2hoYXNo"));
    assert!(!hash_is_checkable("p=99999999999999999999999999999999999999"));
    assert!(!hash_is_checkable("p=0536870912"));
    assert!(hash_is_checkable("p="));
    assert!(hash_is_checkable("p=x536870912"));
    assert!(hash_is_checkable("p"));
    assert!(hash_is_checkable("=p"));
    // the last `p=` is the one that counts
    assert!(hash_is_checkable("$argon2id$v=19$m=8,t=1,p=536870912,p=1$c29tZXNhbHQ$aGFzaA"));
    assert!(!hash_is_checkable("$argon2id$v=19$m=8,t=1,p=1,p=536870912$c29tZXNhbHQ$aGFzaA"));
    assert!(hash_is_checkable("$argon2id$v=19$m=8,t=1,p=536870912,xp=1$c29tZXNhbHQ$aGFzaA"));
}

#[test]
fn login_with_a_hash_that_names_too_many_lanes_is_refused() {
    let stored = [
        "$argon2id$v=19$m=8,t=1,p=536870912$c29tZXNhbHQ$WVDOfucSPAey3UEzzqLtBwRbGS83pTyIPLXgjhKfgrY",
        "$argon2id$v=19$m=4294967295,t=1,p=4294967295$c29tZXNhbHQ$WVDOfucSPAey3UEzzqLtBwRbGS83pTyIPLXgjhKfgrY",
        "$argon2id$v=19$m=8,t=1,p=16777216$c29tZXNhbHQ$WVDOfucSPAey3UEzzqLtBwRbGS83pTyIPLXgjhKfgrY",
        "$argon2i$m=8,t=1,p=1,p=536870912$c29tZXNhbHQ$WVDOfucSPAey3UEzzqLtBwRbGS83pTyIPLXgjhKfgrY",
    ];
    for h in stored {
        assert!(!login(Some(h), "password"), "{:?}", h);
        assert!(!login(Some(h), ""), "{:?}", h);
    }
}

#[test]
fn login_with_a_hash_within_the_limits_asks_argon2() {
    // the most lanes that are allowed, with too little memory for them
    let h = "$argon2id$v=19$m=8,t=1,p=16777215$c29tZXNhbHQ$WVDOfucSPAey3UEzzqLtBwRbGS83pTyIPLXgjhKfgrY";
    assert!(hash_is_checkable(h));
    assert!(!login(Some(h), "password"));
    // an earlier `p=` is overwritten by a later one, and a name that only
    // ends in `p` is no parameter of Argon2
    let twice = "$argon2id$v=19$m=8,t=1,p=536870912,p=1$c29tZXNhbHQ$WVDOfucSPAey3UEzzqLtBwRbGS83pTyIPLXgjhKfgrY";
    assert!(!login(Some(twice), "password"));
    let other = "$argon2id$v=19$m=8,t=1,p=536870912,xp=1$c29tZXNhbHQ$WVDOfucSPAey3UEzzqLtBwRbGS83pTyIPLXgjhKfgrY";
    assert!(!login(Some(other), "password"));
}

#[test]
fn small_hash_is_verified() {
    // a hash made with little memory, one pass and one lane
    let salt = argon2::password_hash::SaltString::from_b64("c29tZXNhbHQ").expect("a salt");
    let params = argon2::Params::new(8, 1, 1, None).expect("parameters");
    let hasher = argon2::Argon2::new(argon2::Algorithm::Argon2id, argon2::Version::V0x13, params);
    let stored = argon2::PasswordHasher::hash_password(&hasher, "hunter2".as_bytes(), &salt)
        .expect("a hash")
        .to_string();
    assert!(stored.starts_with("$argon2id$v=19$m=8,t=1,p=1$c29tZXNhbHQ$"));
    assert!(hash_is_checkable(&stored));
    assert!(login(Some(&stored), "hunter2"));
    assert!(!login(Some(&stored), "hunter3"));
}

#[test]
fn login_needs_a_member_and_the_password() {
    let h = hash("s3cret");
    assert!(login(Some(&h), "s3cret"));
    assert!(!login(Some(&h), "S3cret"));
    assert!(!login(None, "s3cret"));
    assert!(!login(Some("s3cret"), "s3cret"));
}

#[test]
fn registration_failures_are_worded() {
    assert_eq!(
        registration_error(Some("UNIQUE constraint failed: user.email")),
        "Already taken: email"
    );
    assert_eq!(
        registration_error(Some("UNIQUE constraint failed: user.username")),
        "Already taken: username"
    );
    assert_eq!(registration_error(Some("UNIQUE constraint failed: user.")), "Already taken: ");
    assert_eq!(registration_error(Some("UNIQUE constraint failed: users.email")), "Could not register");
    assert_eq!(registration_error(Some("disk I/O error")), "Could not register");
    assert_eq!(registration_error(Some("")), "Could not register");
    assert_eq!(registration_error(None), "Could not register");
}

#[test]
fn login_is_required() {
    assert_eq!(require_login(Some("ann".to_owned())), Ok("ann".to_owned()));
    assert_eq!(require_login(None), Err(AuthError::NotLoggedIn));
    assert_eq!(AuthError::NotLoggedIn.message(), "Not logged in");
}

#[test]
fn nobody_speaks_without_a_session_cookie() {
    assert_eq!(authenticated_username(None, "secret"), None);
    assert_eq!(authenticated_username(Some(""), "secret"), None);
    assert_eq!(authenticated_username(Some("theme=dark; lang=en"), "secret"), None);
    assert_eq!(authenticated_username(Some("session=not-a-token"), "secret"), None);
}

#[test]
fn one_row_rule() {
    assert_eq!(expect_one_row(1), Ok(()));
    assert_eq!(expect_one_row(0), Err(DbError::RowNotFound));
    assert_eq!(expect_one_row(3), Err(DbError::RowNotFound));
    assert!(changed_one_row(1));
    assert!(!changed_one_row(0));
    assert!(!changed_one_row(2));
}

#[test]
fn profile_for_readers() {
    let p = User::profile("ann".to_owned(), Some("bio".to_owned()), None, Some(true));
    assert_eq!(p.username, "ann");
    assert_eq!(p.bio, Some("bio".to_owned()));
    assert_eq!(p.image, None);
    assert!(p.following);
    assert!(!User::profile("ann".to_owned(), None, None, Some(false)).following);
    assert!(!User::profile("ann".to_owned(), None, None, None).following);
    let q = Profile::new("ann".to_owned(), None, Some("https://x/y.png".to_owned()));
    assert!(!q.following);
    assert_eq!(q.image, Some("https://x/y.png".to_owned()));
}

#[test]
fn profiles_compare_by_their_fields() {
    let a = Profile::new("ann".to_owned(), None, Some("i".to_owned()));
    let mut b = Profile::new("ann".to_owned(), None, Some("i".to_owned()));
    assert!(a == b);
    b.following = true;
    assert!(a != b);
    b.following = false;
    b.bio = Some(String::new());
    assert!(a != b);
    assert!(opt_string_eq(&None, &None));
    assert!(opt_string_eq(&Some("a".to_owned()), &Some("a".to_owned())));
    assert!(!opt_string_eq(&Some("a".to_owned()), &Some("b".to_owned())));
    assert!(!opt_string_eq(&Some("a".to_owned()), &None));
}

#[test]
fn new_account() {
    let new = User::create("ann", "ann@example.org", "pass word");
    assert_eq!(new.user.username, "ann");
    assert_eq!(new.user.email, "ann@example.org");
    assert_eq!(new.user.bio, None);
    assert_eq!(new.user.image, None);
    assert_ne!(new.password_hash, "pass word");
    assert!(verify("pass word", &new.password_hash));
    assert!(login(Some(&new.password_hash), "pass word"));
}

#[test]
fn settings_keep_or_replace_the_password() {
    let user = User::default();
    assert_eq!(user.username, "");
    assert_eq!(user.email, "");
    assert_eq!(user.bio, None);
    assert_eq!(user.image, None);
    assert!(matches!(user.update(None), PasswordChange::Keep));
    match user.update(Some("new one")) {
        PasswordChange::Replace(h) => {
            assert!(verify("new one", &h));
            assert!(!verify("old one", &h));
        }
        PasswordChange::Keep => panic!("the password was to be replaced"),
    }
}

#[test]
fn comments_of_an_article() {
    let rows = vec![
        CommentRow {
            id: 5,
            body: "first".to_owned(),
            created_at: "2024-01-01".to_owned(),
            user: "ann".to_owned(),
            image: Some("https://img".to_owned()),
        },
        CommentRow {
            id: 9,
            body: "second".to_owned(),
            created_at: "2024-01-02".to_owned(),
            user: "bob".to_owned(),
            image: None,
        },
    ];
    let comments = Comment::for_article(rows);
    assert_eq!(comments.len(), 2);
    assert_eq!(comments[0].id, 5);
    assert_eq!(comments[0].body, "first");
    assert_eq!(comments[0].created_at, "2024-01-01");
    assert_eq!(comments[0].author.username, "ann");
    assert_eq!(comments[0].author.image, Some("https://img".to_owned()));
    assert_eq!(comments[0].author.bio, None);
    assert!(!comments[0].author.following);
    assert_eq!(comments[1].id, 9);
    assert_eq!(comments[1].author.username, "bob");
    assert_eq!(comments[1].author.image, None);
    assert!(Comment::for_article(vec![]).is_empty());
}

#[test]
fn deleting_a_comment_must_touch_one_row() {
    assert_eq!(Comment::delete(1), Ok(()));
    assert_eq!(Comment::delete(0), Err(DbError::RowNotFound));
}
