use conduit_core::app::{
    flip_following, follow_button_class, follow_label, tag_class, tag_link, toggle_follow,
    FollowAction,
};
use conduit_core::auth::AuthError;
use conduit_core::models::article::{Article, ArticleRow};
use conduit_core::models::comment::{Comment, CommentRow};
use conduit_core::models::user::{Profile, User};
use conduit_core::pages::article::{
    article_link, can_delete_comment, editor_link, favorite_disabled, flip_favorite, is_author,
    toggle_favorite, updated_label, FavoriteAction,
};
use conduit_core::pages::editor::{
    create_or_update_post, parse_tags, submission_errors, tags_field, PostPlan,
};
use conduit_core::pages::feed::{get_feed, page_links, FeedKind, Page};
use conduit_core::pages::profile::{
    favorites_link, is_own_profile, profile_feed, profile_img, profile_link, Avatar,
};
use conduit_core::pages::user::{login_errors, register_errors, settings, show_errors};

fn article_by(author: &str) -> Article {
    Article::from(ArticleRow {
        slug: "slug".to_owned(),
        title: "Title".to_owned(),
        description: "About".to_owned(),
        body: "Body".to_owned(),
        created_at: "now".to_owned(),
        updated_at: None,
        author: author.to_owned(),
        bio: None,
        image: None,
    })
}

fn member(name: &str) -> User {
    User { username: name.to_owned(), email: format!("{}@example.org", name), bio: None, image: None }
}

fn page(offset: u32, limit: u8) -> Page {
    Page::new(offset, limit).expect("a page")
}

fn strings(v: &[&str]) -> Vec<String> {
    v.iter().map(|s| (*s).to_owned()).collect()
}

#[test]
fn page_shows_something() {
    assert!(Page::new(0, 0).is_none());
    assert!(Page::new(100, 0).is_none());
    let p = page(30, 15);
    assert_eq!(p.offset(), 30);
    assert_eq!(p.limit(), 15);
}

#[test]
fn page_of_a_query() {
    let read = |o: Option<&str>, l: Option<&str>| {
        let p = Page::from_query(o, l);
        (p.offset(), p.limit())
    };
    assert_eq!(read(None, None), (0, 10));
    assert_eq!(read(Some("20"), Some("5")), (20, 5));
    assert_eq!(read(Some("abc"), Some("0")), (0, 10));
    assert_eq!(read(Some("+7"), Some("+3")), (7, 3));
    assert_eq!(read(Some("-1"), Some("256")), (0, 10));
    assert_eq!(read(Some("4294967296"), Some("255")), (0, 255));
    assert_eq!(read(Some("4294967295"), Some("1")), (4294967295, 1));
    assert_eq!(read(Some(""), Some("")), (0, 10));
    assert_eq!(read(Some(" 1"), Some("1 ")), (0, 10));
    assert_eq!(read(Some("12"), None), (12, 10));
    assert_eq!(read(None, Some("000")), (0, 10));
}

#[test]
fn links_to_the_pages() {
    let links = page_links(page(10, 5), 12);
    assert_eq!(links.len(), 3);
    assert_eq!(links[0].number, 1);
    assert_eq!(links[0].href, "?offset=0&limit=5");
    assert!(!links[0].active);
    assert_eq!(links[1].number, 2);
    assert_eq!(links[1].href, "?offset=5&limit=5");
    assert!(!links[1].active);
    assert_eq!(links[2].number, 3);
    assert_eq!(links[2].href, "?offset=10&limit=5");
    assert!(links[2].active);
}

#[test]
fn links_at_the_edges() {
    assert!(page_links(page(0, 10), 0).is_empty());
    let one = page_links(page(0, 10), 1);
    assert_eq!(one.len(), 1);
    assert!(one[0].active);
    let exact = page_links(page(0, 10), 20);
    assert_eq!(exact.len(), 2);
    assert_eq!(exact[1].href, "?offset=10&limit=10");
    let over = page_links(page(0, 10), 21);
    assert_eq!(over.len(), 3);
    let between = page_links(page(7, 5), 20);
    let active: Vec<u64> = between.iter().filter(|l| l.active).map(|l| l.number).collect();
    assert_eq!(active, vec![2]);
    let beyond = page_links(page(50, 5), 20);
    assert!(beyond.iter().all(|l| !l.active));
    let wide = page_links(page(510, 255), 1000);
    assert_eq!(wide.len(), 4);
    assert_eq!(wide[3].href, "?offset=765&limit=255");
    assert!(wide[2].active);
}

#[test]
fn links_agree_with_std() {
    for (offset, limit, count) in [(0u32, 1u8, 5u32), (3, 2, 9), (8, 3, 8), (0, 255, 1000)] {
        let links = page_links(page(offset, limit), count);
        let expected: Vec<(u64, String, bool)> = (0..count)
            .step_by(limit as usize)
            .enumerate()
            .map(|(n, start)| {
                (
                    n as u64 + 1,
                    format!("?offset={}&limit={}", start, limit),
                    start <= offset && offset < start + limit as u32,
                )
            })
            .collect();
        let got: Vec<(u64, String, bool)> =
            links.into_iter().map(|l| (l.number, l.href, l.active)).collect();
        assert_eq!(got, expected);
    }
}

#[test]
fn following_a_link_gives_its_page() {
    for link in page_links(page(0, 7), 30) {
        let query = link.href.strip_prefix('?').expect("a query string");
        let mut offset = None;
        let mut limit = None;
        for pair in query.split('&') {
            match pair.split_once('=') {
                Some(("offset", v)) => offset = Some(v),
                Some(("limit", v)) => limit = Some(v),
                _ => panic!("an unknown parameter"),
            }
        }
        let p = Page::from_query(offset, limit);
        assert_eq!(p.limit(), 7);
        assert_eq!(p.offset() as u64, (link.number - 1) * 7);
    }
}

#[test]
fn feed_plans() {
    let plan = get_feed(FeedKind::Global, page(20, 10), None).ok().expect("a plan");
    assert_eq!(plan.options.user, None);
    assert_eq!(plan.options.offset, 20);
    assert_eq!(plan.options.limit, 10);
    assert_eq!(plan.query.bind, None);
    assert_eq!(plan.query.offset, 20);
    assert_eq!(plan.query.limit, 10);
    assert!(plan.query.count_sql.ends_with("user.username "));

    let plan = get_feed(FeedKind::Feed, page(0, 10), Some("bob".to_owned())).ok().expect("a plan");
    assert_eq!(plan.options.user, Some("bob".to_owned()));
    assert_eq!(plan.query.bind, Some("bob".to_owned()));
    assert!(plan.query.count_sql.ends_with("where follower = ?)"));

    let plan = get_feed(FeedKind::By("ann".to_owned()), page(0, 10), Some("bob".to_owned()))
        .ok()
        .expect("a plan");
    assert_eq!(plan.options.user, Some("bob".to_owned()));
    assert_eq!(plan.query.bind, Some("ann".to_owned()));
    assert!(plan.query.count_sql.ends_with("where article.author = ?"));

    let plan = get_feed(FeedKind::Favorited("ann".to_owned()), page(0, 10), None).ok().expect("a plan");
    assert_eq!(plan.query.bind, Some("ann".to_owned()));
    assert!(plan.query.count_sql.ends_with("from favorite where user = ?)"));

    let plan = get_feed(FeedKind::Tag("rust".to_owned()), page(0, 10), None).ok().expect("a plan");
    assert_eq!(plan.query.bind, Some("rust".to_owned()));
    assert!(plan.query.count_sql.ends_with("from tag where tag = ?)"));
}

#[test]
fn own_feed_needs_a_reader() {
    match get_feed(FeedKind::Feed, page(0, 10), None) {
        Err(e) => assert_eq!(e, AuthError::NotLoggedIn),
        Ok(_) => panic!("a stranger follows nobody"),
    }
}

#[test]
fn feed_kinds_compare_by_value() {
    assert!(FeedKind::Feed == FeedKind::Feed);
    assert!(FeedKind::Feed != FeedKind::Global);
    assert!(FeedKind::By("a".to_owned()) == FeedKind::By("a".to_owned()));
    assert!(FeedKind::By("a".to_owned()) != FeedKind::By("b".to_owned()));
    assert!(FeedKind::By("a".to_owned()) != FeedKind::Favorited("a".to_owned()));
    assert!(FeedKind::Tag("a".to_owned()) != FeedKind::By("a".to_owned()));
}

#[test]
fn profile_addresses() {
    assert_eq!(profile_link("ann"), "/profile/ann");
    assert_eq!(profile_link(""), "/profile/");
    assert_eq!(favorites_link("ann"), "/profile/ann/favorites");
}

#[test]
fn pictures() {
    match profile_img(Some("https://example.org/a.png".to_owned())) {
        Avatar::Image(url) => assert_eq!(url, "https://example.org/a.png"),
        Avatar::Text(_) => panic!("a picture was expected"),
    }
    match profile_img(Some("http://example.org/a.png".to_owned())) {
        Avatar::Text(text) => assert_eq!(text, "http://example.org/a.png"),
        Avatar::Image(_) => panic!("only https is shown"),
    }
    match profile_img(Some(String::new())) {
        Avatar::Text(text) => assert_eq!(text, ""),
        Avatar::Image(_) => panic!("no picture was expected"),
    }
    match profile_img(None) {
        Avatar::Text(text) => assert_eq!(text, "🙂"),
        Avatar::Image(_) => panic!("no picture was expected"),
    }
}

#[test]
fn own_profile() {
    let ann = member("ann");
    assert!(is_own_profile(Some(&ann), "ann"));
    assert!(!is_own_profile(Some(&ann), "bob"));
    assert!(!is_own_profile(Some(&ann), "Ann"));
    assert!(!is_own_profile(None, "ann"));
}

#[test]
fn feeds_under_a_profile() {
    assert!(profile_feed("ann".to_owned(), false) == FeedKind::By("ann".to_owned()));
    assert!(profile_feed("ann".to_owned(), true) == FeedKind::Favorited("ann".to_owned()));
}

#[test]
fn article_addresses() {
    assert_eq!(article_link("hello-world"), "/article/hello-world");
    assert_eq!(editor_link("hello-world"), "/editor/hello-world");
    assert_eq!(updated_label(Some("2024-01-02")), Some("(2024-01-02)".to_owned()));
    assert_eq!(updated_label(None), None);
}

#[test]
fn favorite_requests() {
    assert_eq!(toggle_favorite(None, false), FavoriteAction::Refuse);
    assert_eq!(toggle_favorite(None, true), FavoriteAction::Refuse);
    assert_eq!(toggle_favorite(Some(1), false), FavoriteAction::Refuse);
    assert_eq!(toggle_favorite(Some(-1), true), FavoriteAction::Refuse);
    assert_eq!(toggle_favorite(Some(0), true), FavoriteAction::Remove);
    assert_eq!(toggle_favorite(Some(0), false), FavoriteAction::Add);
}

#[test]
fn favorite_button() {
    let article = article_by("ann");
    let ann = member("ann");
    let bob = member("bob");
    assert!(favorite_disabled(None, &article, false));
    assert!(favorite_disabled(Some(&ann), &article, false));
    assert!(favorite_disabled(Some(&bob), &article, true));
    assert!(!favorite_disabled(Some(&bob), &article, false));
}

#[test]
fn favorite_is_flipped() {
    let mut article = article_by("ann");
    article.favorites_count = 4;
    flip_favorite(&mut article);
    assert!(article.favorited);
    assert_eq!(article.favorites_count, 5);
    flip_favorite(&mut article);
    assert!(!article.favorited);
    assert_eq!(article.favorites_count, 4);
    assert_eq!(article.slug, "slug");
    assert_eq!(article.author.username, "ann");
}

#[test]
fn authors_and_their_comments() {
    let article = article_by("ann");
    assert!(is_author(Some(&member("ann")), &article));
    assert!(!is_author(Some(&member("bob")), &article));
    assert!(!is_author(None, &article));
    let comment = Comment::for_article(vec![CommentRow {
        id: 1,
        body: "b".to_owned(),
        created_at: "c".to_owned(),
        user: "bob".to_owned(),
        image: None,
    }])
    .remove(0);
    assert!(can_delete_comment(Some("bob"), &comment));
    assert!(!can_delete_comment(Some("ann"), &comment));
    assert!(!can_delete_comment(None, &comment));
}

#[test]
fn tags_of_the_form() {
    assert_eq!(parse_tags("rust web-dev"), strings(&["rust", "web-dev"]));
    assert_eq!(parse_tags("  Rust\tWEB  "), strings(&["rust", "web"]));
    assert_eq!(parse_tags("ÄÖ Ü"), strings(&["äö", "ü"]));
    assert!(parse_tags("").is_empty());
    assert!(parse_tags(" \n ").is_empty());
}

#[test]
fn tags_shown_in_the_form() {
    assert_eq!(tags_field(&strings(&[])), "");
    assert_eq!(tags_field(&strings(&["rust"])), "rust");
    assert_eq!(tags_field(&strings(&["rust", "web", "wasm"])), "rust web wasm");
    assert_eq!(tags_field(&strings(&["", "a", ""])), " a ");
    assert_eq!(parse_tags(&tags_field(&strings(&["rust", "web"]))), strings(&["rust", "web"]));
}

#[test]
fn new_post() {
    match create_or_update_post(None, "Hello World", "About", "Body", "Rust  web-dev") {
        PostPlan::Create { slug, tags } => {
            assert_eq!(slug, "hello-world");
            assert_eq!(tags, strings(&["rust", "web-dev"]));
        }
        _ => panic!("the article was to be created"),
    }
}

#[test]
fn edited_post() {
    match create_or_update_post(Some("old-slug".to_owned()), "New Title", "About", "Body", "") {
        PostPlan::Update { slug, tags } => {
            assert_eq!(slug, "old-slug");
            assert!(tags.is_empty());
        }
        _ => panic!("the article was to be updated"),
    }
}

#[test]
fn rejected_post() {
    match create_or_update_post(None, "", "About", "Body", "rust web_dev") {
        PostPlan::Rejected(errors) => assert_eq!(
            errors,
            strings(&[
                "missing title",
                "invalid tag (must be short, lowercase a-z and in kebab-case)"
            ])
        ),
        _ => panic!("the article was to be rejected"),
    }
    match create_or_update_post(Some("s".to_owned()), "t", "", "b", "") {
        PostPlan::Rejected(errors) => assert_eq!(errors, strings(&["missing description"])),
        _ => panic!("the article was to be rejected"),
    }
}

#[test]
fn errors_of_the_last_submission() {
    let none: Option<Result<Result<String, Vec<String>>, ()>> = None;
    assert!(submission_errors(none).is_empty());
    let failed: Option<Result<Result<String, Vec<String>>, ()>> = Some(Err(()));
    assert!(submission_errors(failed).is_empty());
    let stored: Option<Result<Result<String, Vec<String>>, ()>> = Some(Ok(Ok("slug".to_owned())));
    assert!(submission_errors(stored).is_empty());
    let rejected: Option<Result<Result<String, Vec<String>>, ()>> =
        Some(Ok(Err(strings(&["missing title", "missing body"]))));
    assert_eq!(submission_errors(rejected), strings(&["missing title", "missing body"]));
}

#[test]
fn failed_login_is_noted_once() {
    let mut errors = Vec::new();
    login_errors(&mut errors, false);
    assert!(errors.is_empty());
    assert!(!show_errors(&errors));
    login_errors(&mut errors, true);
    assert_eq!(errors, strings(&["Incorrect username or password."]));
    assert!(show_errors(&errors));
    login_errors(&mut errors, true);
    assert_eq!(errors, strings(&["Incorrect username or password."]));
    let mut other = strings(&["something else"]);
    login_errors(&mut other, true);
    assert_eq!(other, strings(&["something else"]));
}

#[test]
fn failed_registration_is_noted_once() {
    let mut errors = Vec::new();
    register_errors(&mut errors, Some("Already taken: email".to_owned()));
    assert_eq!(errors, strings(&["Already taken: email"]));
    register_errors(&mut errors, Some("Already taken: email".to_owned()));
    assert_eq!(errors, strings(&["Already taken: email"]));
    register_errors(&mut errors, None);
    assert_eq!(errors, strings(&["Already taken: email", "Something went wrong"]));
    register_errors(&mut errors, None);
    register_errors(&mut errors, Some("Already taken: username".to_owned()));
    assert_eq!(
        errors,
        strings(&["Already taken: email", "Something went wrong", "Already taken: username"])
    );
}

#[test]
fn saved_settings() {
    let (user, link) = settings(
        "ann".to_owned(),
        "ann@example.org".to_owned(),
        Some("https://img".to_owned()),
        None,
    );
    assert_eq!(user.username, "ann");
    assert_eq!(user.email, "ann@example.org");
    assert_eq!(user.image, Some("https://img".to_owned()));
    assert_eq!(user.bio, None);
    assert_eq!(link, "/profile/ann");
}

#[test]
fn tag_lists() {
    assert_eq!(tag_link("rust"), "/tag/rust");
    assert_eq!(tag_class(true), "tag-pill tag-default tag-outline");
    assert_eq!(tag_class(false), "tag-pill tag-default");
}

#[test]
fn follow_requests() {
    assert_eq!(toggle_follow("ann", "ann", false), FollowAction::Refuse);
    assert_eq!(toggle_follow("ann", "ann", true), FollowAction::Refuse);
    assert_eq!(toggle_follow("ann", "bob", true), FollowAction::Unfollow);
    assert_eq!(toggle_follow("ann", "bob", false), FollowAction::Follow);
    assert_eq!(toggle_follow("ann", "Ann", false), FollowAction::Follow);
}

#[test]
fn follow_button() {
    assert_eq!(follow_label(true), ("Unfollow", "ion-minus-round"));
    assert_eq!(follow_label(false), ("Follow", "ion-plus-round"));
    assert_eq!(follow_button_class("action-btn"), "btn btn-sm btn-outline-secondary action-btn");
    assert_eq!(follow_button_class(""), "btn btn-sm btn-outline-secondary ");
    let p = Profile::new("ann".to_owned(), Some("bio".to_owned()), None);
    let q = flip_following(p);
    assert!(q.following);
    assert_eq!(q.username, "ann");
    assert_eq!(q.bio, Some("bio".to_owned()));
    assert!(!flip_following(q).following);
}
