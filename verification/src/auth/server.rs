//! Sessions: the signed token that names a member, the cookie that carries
//! it, and the rule that decides which pages a request may reach.

use crate::models::user::opt_view;
use crate::text::{
    buffers, chars_of, has_prefix_at, split_chars, split_on, starts_with, str_concat,
    string_of_range, strip_prefix, white_space,
};
use vstd::prelude::*;
use vstd::string::StringExecFns;

verus! {

/// What a session token states: the member it names and the second (of Unix
/// time) at which it stops being valid.
#[derive(Debug)]
pub struct TokenClaims {
    pub sub: String,
    pub exp: usize,
}

/// The claims found in a token whose signature and expiry were accepted, as
/// far as they have the right shape: `sub` where it is a string, `exp` where
/// it is a non-negative whole number.
pub struct RawClaims {
    pub sub: Option<String>,
    pub exp: Option<u64>,
}

/// The token that signs the claims `sub` and `exp` with `secret` (HS256).
pub uninterp spec fn signed_token(sub: Seq<char>, exp: usize, secret: Seq<char>) -> Seq<char>;

/// Calls `jsonwebtoken::encode` with the default header (HS256) on a JSON
/// object that holds the two claims. Signing with a shared secret involves
/// no chance, so the token depends on the claims and the secret alone; it is
/// named [`signed_token`]. Of the two errors of `encode` neither can occur:
/// the key is a secret, as the header's algorithm asks, and a JSON object of
/// a string and a number can be written.
#[verifier::external_body]
fn encode_token(claims: &TokenClaims, secret: &str) -> (token: String)
    ensures
        token@ == signed_token(claims.sub@, claims.exp, secret@),
{
    let mut object = serde_json::Map::new();
    object.insert("sub".to_owned(), serde_json::Value::from(claims.sub.as_str()));
    object.insert("exp".to_owned(), serde_json::Value::from(claims.exp));
    let key = jsonwebtoken::EncodingKey::from_secret(secret.as_bytes());
    jsonwebtoken::encode(&jsonwebtoken::Header::default(), &object, &key).expect("encode token")
}

/// What a token claims under `secret`, as far as the claims have the right
/// shape: `sub` where it is a string, `exp` where it is a non-negative whole
/// number. The claims are written in the token; the clock has no part in
/// them.
pub uninterp spec fn token_claims(token: Seq<char>, secret: Seq<char>) -> (Option<Seq<char>>, Option<u64>);

/// The value of a [`RawClaims`].
pub open spec fn raw_view(raw: RawClaims) -> (Option<Seq<char>>, Option<u64>) {
    (opt_view(raw.sub), raw.exp)
}

/// Calls `jsonwebtoken::decode` with the default validation: the signature
/// must be HS256 under `secret`, and the `exp` claim must be present and not
/// lie more than a minute in the past. Whether a token has expired depends
/// on the clock, so nothing is promised of whether claims come back. The
/// claims that come back are read from the token and depend on nothing
/// else; they are named [`token_claims`]. Of the claims `sub` is handed on
/// where it is a string and `exp` where it is a non-negative whole number.
#[verifier::external_body]
fn decode_token(token: &str, secret: &str) -> (claims: Option<RawClaims>)
    ensures
        claims matches Some(raw) ==> raw_view(raw) == token_claims(token@, secret@),
{
    let key = jsonwebtoken::DecodingKey::from_secret(secret.as_bytes());
    let validation = jsonwebtoken::Validation::default();
    let claims = jsonwebtoken::decode::<serde_json::Value>(token, &key, &validation).ok()?.claims;
    let sub = match claims.get("sub") {
        Some(serde_json::Value::String(name)) => Some(name.clone()),
        _ => None,
    };
    let exp = match claims.get("exp") {
        Some(serde_json::Value::Number(second)) => second.as_u64(),
        _ => None,
    };
    Some(RawClaims { sub, exp })
}

/// Calls `chrono::Utc::now` and `DateTime::timestamp`: the current second of
/// Unix time. chrono makes a date of the clock's time before it returns, and
/// counts the days of a date in an `i32`: that bounds the second from above.
/// A clock that is set before 1970 makes chrono panic.
#[verifier::external_body]
fn unix_now() -> (now: i64)
    ensures
        now < 0x8000_0000 * 86_400,
{
    chrono::Utc::now().timestamp()
}

/// How long a session lasts: thirty days of 86 400 seconds.
pub open spec fn session_seconds() -> int {
    2_592_000
}

/// The expiry of a session that starts at `now`, as the token carries it.
pub open spec fn expiry_at(now: i64) -> usize {
    (now + session_seconds()) as usize
}

/// The expiry of a session that starts at `now`.
pub fn session_expiry(now: i64) -> (exp: usize)
    requires
        now + session_seconds() <= i64::MAX,
    ensures
        exp == expiry_at(now),
{
    let end: i64 = now + 2_592_000;
    #[verifier::truncate]
    (end as usize)
}

/// The claims that a decoded token makes, where it makes both in the right
/// shape: a name, and an expiry that fits the machine's word.
pub open spec fn claims_of(raw: (Option<Seq<char>>, Option<u64>)) -> Option<(Seq<char>, usize)> {
    match raw {
        (Some(sub), Some(exp)) => if exp <= usize::MAX {
            Some((sub, exp as usize))
        } else {
            None
        },
        _ => None,
    }
}

/// Reads the claims of a decoded token.
pub fn claims_from(raw: RawClaims) -> (claims: Option<TokenClaims>)
    ensures
        match claims {
            Some(c) => claims_of(raw_view(raw)) == Some((c.sub@, c.exp)),
            None => claims_of(raw_view(raw)) is None,
        },
{
    match (raw.sub, raw.exp) {
        (Some(sub), Some(exp)) => {
            if exp <= usize::MAX as u64 {
                Some(TokenClaims { sub, exp: exp as usize })
            } else {
                None
            }
        },
        _ => None,
    }
}

/// The value of the `Set-Cookie` header that hands `token` to the browser.
pub open spec fn session_cookie(token: Seq<char>) -> Seq<char> {
    "session="@ + token + "; path=/; HttpOnly; SameSite=Strict"@
}

/// The value of the `Set-Cookie` header that starts a session.
pub fn set_session_cookie(token: &str) -> (cookie: String)
    ensures
        cookie@ == session_cookie(token@),
{
    let mut cookie = str_concat("session=", token);
    cookie.append("; path=/; HttpOnly; SameSite=Strict");
    cookie
}

/// The value of the `Set-Cookie` header that ends a session: an empty
/// session that expired long ago.
pub fn clear_session_cookie() -> (cookie: String)
    ensures
        cookie@ == "session=; path=/; SameSite=Strict; Expires=Thu, 01 Jan 1970 00:00:00 GMT"@,
{
    "session=; path=/; SameSite=Strict; Expires=Thu, 01 Jan 1970 00:00:00 GMT".to_owned()
}

/// `s` without its leading white space.
pub open spec fn trim_start(s: Seq<char>) -> Seq<char>
    decreases s.len(),
{
    if s.len() > 0 && white_space(s[0]) {
        trim_start(s.drop_first())
    } else {
        s
    }
}

/// The session token that one piece of a `Cookie` header carries, if it is
/// the session cookie.
pub open spec fn session_in(piece: Seq<char>) -> Option<Seq<char>> {
    strip_prefix(trim_start(piece), "session="@)
}

/// The token of the first piece that is a session cookie.
pub open spec fn first_session(pieces: Seq<Seq<char>>) -> Option<Seq<char>>
    decreases pieces.len(),
{
    if pieces.len() == 0 {
        None
    } else {
        match session_in(pieces[0]) {
            Some(token) => Some(token),
            None => first_session(pieces.drop_first()),
        }
    }
}

/// The session token in a `Cookie` header: the header is a list of cookies
/// separated by `;`, and the first one named `session` counts.
pub open spec fn session_token(header: Seq<char>) -> Option<Seq<char>> {
    first_session(split_on(header, ';'))
}

/// What follows `name` in `piece`, once the leading white space is set
/// aside.
fn token_in(piece: &Vec<char>, name: &Vec<char>) -> (token: Option<String>)
    ensures
        opt_view(token) == strip_prefix(trim_start(piece@), name@),
{
    let mut k: usize = 0;
    assert(piece@.skip(0) == piece@);
    while k < piece.len() && piece[k].is_whitespace()
        invariant
            k <= piece.len(),
            trim_start(piece@) == trim_start(piece@.skip(k as int)),
        decreases piece.len() - k,
    {
        assert(piece@.skip(k as int).drop_first() == piece@.skip(k as int + 1));
        k += 1;
    }
    assert(trim_start(piece@) == piece@.skip(k as int));
    if has_prefix_at(piece, k, name) {
        let token = string_of_range(piece, k + name.len(), piece.len());
        assert(piece@.skip(k as int).skip(name@.len() as int) == piece@.subrange(
            k + name@.len(),
            piece@.len() as int,
        ));
        Some(token)
    } else {
        None
    }
}

/// Finds the session token in a `Cookie` header.
pub fn find_session_token(header: &str) -> (token: Option<String>)
    ensures
        opt_view(token) == session_token(header@),
{
    let chars = chars_of(header);
    let name = chars_of("session=");
    let pieces = split_chars(&chars, ';');
    let ghost all = split_on(header@, ';');
    let mut i: usize = 0;
    assert(all.skip(0) == all);
    while i < pieces.len()
        invariant
            i <= pieces.len(),
            name@ == "session="@,
            all == split_on(header@, ';'),
            buffers(pieces@) == all,
            first_session(all) == first_session(all.skip(i as int)),
        decreases pieces.len() - i,
    {
        assert(all.skip(i as int)[0] == pieces@[i as int]@);
        assert(all.skip(i as int).drop_first() == all.skip(i as int + 1));
        let found = token_in(&pieces[i], &name);
        assert(opt_view(found) == session_in(all.skip(i as int)[0]));
        assert(all.skip(i as int).len() > 0);
        if found.is_some() {
            assert(first_session(all.skip(i as int)) == opt_view(found));
            return found;
        }
        i += 1;
    }
    None
}

/// A sequence without separators is one piece.
proof fn lemma_one_piece(s: Seq<char>, sep: char)
    requires
        !s.contains(sep),
    ensures
        split_on(s, sep) == seq![s],
    decreases s.len(),
{
    if s.len() > 0 {
        let init = s.drop_last();
        if init.contains(sep) {
            let i = choose|i: int| 0 <= i < init.len() && init[i] == sep;
            assert(s[i] == sep);
            assert(s.contains(sep));
        }
        lemma_one_piece(init, sep);
        assert(s.contains(s.last()));
        assert(init.push(s.last()) == s);
        assert(seq![init].last() == init);
        assert(seq![init].drop_last() == Seq::<Seq<char>>::empty());
        assert(Seq::<Seq<char>>::empty().push(s) == seq![s]);
    } else {
        assert(s == Seq::<char>::empty());
    }
}

/// The session cookie that a browser was handed is read back from the
/// header in which the browser returns it: `session=` and the token. (A
/// signed token is made of letters, digits, dots, dashes and underscores, so
/// it holds no `;`.)
pub proof fn lemma_session_is_read_back(token: Seq<char>)
    requires
        !token.contains(';'),
    ensures
        session_token("session="@ + token) == Some(token),
{
    reveal_strlit("session=");
    let name = "session="@;
    let header = name + token;
    if header.contains(';') {
        let i = choose|i: int| 0 <= i < header.len() && header[i] == ';';
        if i >= name.len() {
            assert(header[i] == token[i - name.len()]);
            assert(token.contains(';'));
        }
    }
    lemma_one_piece(header, ';');
    assert(header[0] == 's');
    assert(!white_space('s'));
    assert(trim_start(header) == header);
    assert(name.is_prefix_of(header)) by {
        assert(header.subrange(0, name.len() as int) == name);
    }
    assert(header.skip(name.len() as int) == token);
    assert(seq![header].drop_first() == Seq::<Seq<char>>::empty());
    assert(first_session(seq![header]) == Some(token));
}

/// The member that claims name, where they have the right shape.
pub open spec fn member_named(raw: (Option<Seq<char>>, Option<u64>)) -> Option<Seq<char>> {
    match claims_of(raw) {
        Some(claims) => Some(claims.0),
        None => None,
    }
}

/// The member that a request speaks for, given what decoding its session
/// token gave.
pub open spec fn member_of(decoded: Option<RawClaims>) -> Option<Seq<char>> {
    match decoded {
        Some(raw) => member_named(raw_view(raw)),
        None => None,
    }
}

/// Names the member that a decoded session token speaks for.
pub fn username_from(decoded: Option<RawClaims>) -> (name: Option<String>)
    ensures
        opt_view(name) == member_of(decoded),
{
    match decoded {
        Some(raw) => match claims_from(raw) {
            Some(claims) => Some(claims.sub),
            None => None,
        },
        None => None,
    }
}

/// The member that a request speaks for, given its `Cookie` header. Without
/// a header or without a session cookie in it there is none. Where there is
/// a session cookie, the request speaks for the member that its token
/// names, provided the token is signed with `secret` and has not expired:
/// whether it is accepted depends on the clock, but a name that comes back
/// is the one that the token of the session cookie claims.
pub fn get_username(cookie_header: Option<&str>, secret: &str) -> (name: Option<String>)
    ensures
        cookie_header is None ==> name is None,
        cookie_header matches Some(h) && session_token(h@) is None ==> name is None,
        name matches Some(n) ==> cookie_header matches Some(h) && session_token(h@) matches Some(
            token,
        ) && member_named(token_claims(token, secret@)) == Some(n@),
{
    let header = match cookie_header {
        Some(h) => h,
        None => {
            return None;
        },
    };
    match find_session_token(header) {
        Some(token) => username_from(decode_token(token.as_str(), secret)),
        None => None,
    }
}

/// The cookie that starts a session for `username` at the second `now`.
pub open spec fn session_for(username: Seq<char>, now: i64, secret: Seq<char>) -> Seq<char> {
    session_cookie(signed_token(username, expiry_at(now), secret))
}

/// Starts a session for `username` at the second `now`: the `Set-Cookie`
/// value that carries a token for thirty days.
pub fn start_session(username: String, now: i64, secret: &str) -> (cookie: String)
    requires
        now + session_seconds() <= i64::MAX,
    ensures
        cookie@ == session_for(username@, now, secret@),
{
    let claims = TokenClaims { sub: username, exp: session_expiry(now) };
    let token = encode_token(&claims, secret);
    set_session_cookie(token.as_str())
}

/// Starts a session for `username` now.
pub fn set_username(username: String, secret: &str) -> (cookie: String)
    ensures
        exists|now: i64| cookie@ == #[trigger] session_for(username@, now, secret@),
{
    let now = unix_now();
    start_session(username, now, secret)
}

/// Where a request is sent instead of the page it asked for.
#[derive(Clone, Copy, Debug, PartialEq, Eq, Structural)]
pub enum Routing {
    /// The request goes on to the page.
    Proceed,
    /// The request is redirected to the home page.
    ToHome,
    /// The request is redirected to the login page.
    ToLogin,
}

/// The rule: a member has no business on the login and
/// registration pages, and a stranger none on the settings and editor pages.
pub open spec fn routing_for(path: Seq<char>, member: bool) -> Routing {
    if member {
        if "/login"@.is_prefix_of(path) || "/register"@.is_prefix_of(path) {
            Routing::ToHome
        } else {
            Routing::Proceed
        }
    } else {
        if "/settings"@.is_prefix_of(path) || "/editor"@.is_prefix_of(path) {
            Routing::ToLogin
        } else {
            Routing::Proceed
        }
    }
}

/// Nobody is sent where they cannot stay: a member is never sent to the
/// login page, nor a stranger to the home page in place of another page.
pub proof fn lemma_routing(path: Seq<char>)
    ensures
        routing_for(path, true) != Routing::ToLogin,
        routing_for(path, false) != Routing::ToHome,
{
}

impl Routing {
    /// The path that the request is redirected to, if it is.
    pub fn location(&self) -> (to: Option<&'static str>)
        ensures
            match *self {
                Routing::Proceed => to is None,
                Routing::ToHome => to matches Some(p) && p@ == "/"@,
                Routing::ToLogin => to matches Some(p) && p@ == "/login"@,
            },
    {
        match self {
            Routing::Proceed => None,
            Routing::ToHome => Some("/"),
            Routing::ToLogin => Some("/login"),
        }
    }
}

/// Decides what becomes of a request for `path`. `member` says whether the
/// request carries a valid session of a member that exists.
pub fn auth_middleware(path: &str, member: bool) -> (routing: Routing)
    ensures
        routing == routing_for(path@, member),
{
    if member {
        if starts_with(path, "/login") || starts_with(path, "/register") {
            Routing::ToHome
        } else {
            Routing::Proceed
        }
    } else {
        if starts_with(path, "/settings") || starts_with(path, "/editor") {
            Routing::ToLogin
        } else {
            Routing::Proceed
        }
    }
}

} // verus!
