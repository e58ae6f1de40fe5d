//! The HTTP auth gate and the cookie-based login flow.

use crate::pieces::{split, split_at_char};
use crate::text::{after_prefix, cat, cat3, has_prefix, opt_str, opt_text, own, texts, trim, trimmed};
use crate::webhook::same_secret;
use vstd::prelude::*;
use vstd::string::*;

verus! {

/// The cookie that carries the token.
pub const AUTH_COOKIE_NAME: &'static str = "grim_auth";

/// The sign-in page.
pub const LOGIN_PAGE_HTML: &'static str = r#"<!doctype html>
<html lang="en">
<head>
<meta charset="utf-8">
<title>grimoire sign in</title>
<style>
  body { font-family: -apple-system, system-ui, sans-serif; background: #0e0e10;
         color: #d8d8d8; display: flex; min-height: 100vh; align-items: center;
         justify-content: center; margin: 0; }
  form { background: #1a1a1d; padding: 2rem; border-radius: 0.5rem;
         border: 1px solid #2a2a2e; min-width: 320px; }
  h1 { font-size: 1rem; font-weight: 500; letter-spacing: 0.05em;
       text-transform: uppercase; margin: 0 0 1rem; color: #888; }
  input { width: 100%; padding: 0.6rem; box-sizing: border-box;
          background: #0e0e10; border: 1px solid #2a2a2e; color: #d8d8d8;
          font-family: ui-monospace, monospace; font-size: 0.9rem;
          border-radius: 0.25rem; }
  button { margin-top: 0.75rem; width: 100%; padding: 0.6rem;
           background: #6b46c1; color: white; border: 0; border-radius: 0.25rem;
           cursor: pointer; font-weight: 500; }
  button:hover { background: #7c54d6; }
  p { color: #666; font-size: 0.8rem; margin: 0.75rem 0 0; }
  code { background: #0e0e10; padding: 0.1rem 0.35rem; border-radius: 0.2rem;
         font-size: 0.8rem; }
</style>
</head>
<body>
<form method="post" action="/auth/login">
  <h1>◆ grimoire</h1>
  <input type="password" name="token" placeholder="auth token" autofocus autocomplete="off">
  <button type="submit">sign in</button>
  <p>token lives in <code>~/.grimoire/auth.token</code></p>
</form>
</body>
</html>"#;

/// The daemon's bearer token.
#[derive(Debug)]
pub struct AuthToken {
    pub secret: String,
}

impl AuthToken {
    /// The token with that secret.
    pub fn new(secret: &str) -> (t: AuthToken)
        ensures
            t.secret@ == secret@,
    {
        AuthToken { secret: own(secret) }
    }

    /// Whether what was presented is the secret, compared in constant time.
    pub fn verify(&self, presented: &str) -> (r: bool)
        ensures
            r == (presented@ == self.secret@),
    {
        same_secret(presented, self.secret.as_str())
    }
}

/// The token among the parts of a cookie header: that of the first part that
/// is the auth cookie.
pub open spec fn cookie_token(parts: Seq<Seq<char>>) -> Option<Seq<char>>
    decreases parts.len(),
{
    if parts.len() == 0 {
        None
    } else {
        let kv = trimmed(parts[0]);
        let name = "grim_auth"@ + "="@;
        if name.is_prefix_of(kv) {
            Some(kv.skip(name.len() as int))
        } else {
            cookie_token(parts.skip(1))
        }
    }
}

/// The token that a request presents: that of a bearer `Authorization` header,
/// and otherwise that of the auth cookie.
pub open spec fn presented_token(
    authorization: Option<Seq<char>>,
    cookie: Option<Seq<char>>,
) -> Option<Seq<char>> {
    if authorization is Some && "Bearer "@.is_prefix_of(authorization->0) {
        Some(trimmed(authorization->0.skip("Bearer "@.len() as int)))
    } else {
        match cookie {
            Some(c) => cookie_token(split(c, ';')),
            None => None,
        }
    }
}

/// The token that a request presents, from its `Authorization` and `Cookie`
/// headers.
pub fn extract_request_token(authorization: Option<&str>, cookie: Option<&str>) -> (r: Option<
    String,
>)
    ensures
        opt_text(r) == presented_token(opt_str(authorization), opt_str(cookie)),
{
    if let Some(h) = authorization {
        if let Some(rest) = after_prefix(h, "Bearer ") {
            return Some(trim(rest.as_str()));
        }
    }
    let c = match cookie {
        None => return None,
        Some(c) => c,
    };
    let parts = split_at_char(c, ';');
    let name = cat(AUTH_COOKIE_NAME, "=");
    let ghost all = texts(parts@);
    assert(all.skip(0) =~= all);
    let mut i: usize = 0;
    while i < parts.len()
        invariant
            i <= parts@.len(),
            all == texts(parts@),
            name@ == "grim_auth"@ + "="@,
            opt_str(cookie) == Some(c@),
            all == split(c@, ';'),
            presented_token(opt_str(authorization), opt_str(cookie)) == cookie_token(all),
            cookie_token(all) == cookie_token(all.skip(i as int)),
        decreases parts@.len() - i,
    {
        proof {
            assert(all.skip(i as int)[0] == parts@[i as int]@);
            assert(all.skip(i as int).skip(1) =~= all.skip(i + 1));
        }
        let kv = trim(parts[i].as_str());
        if let Some(v) = after_prefix(kv.as_str(), name.as_str()) {
            return Some(v);
        }
        i = i + 1;
    }
    None
}

/// Whether a request to a protected route goes through: it presents the
/// daemon's token.
pub fn http_auth_middleware(token: &AuthToken, authorization: Option<&str>, cookie: Option<&str>) -> (r:
    bool)
    ensures
        r == (presented_token(opt_str(authorization), opt_str(cookie)) == Some(token.secret@)),
{
    match extract_request_token(authorization, cookie) {
        Some(t) => token.verify(t.as_str()),
        None => false,
    }
}

/// A reply of the login flow.
#[derive(Debug)]
pub struct Reply {
    pub status: u16,
    pub content_type: Option<String>,
    pub set_cookie: Option<String>,
    pub location: Option<String>,
    pub body: String,
}

/// What a [`Reply`] says.
#[verifier::ext_equal]
pub ghost struct ReplyView {
    pub status: u16,
    pub content_type: Option<Seq<char>>,
    pub set_cookie: Option<Seq<char>>,
    pub location: Option<Seq<char>>,
    pub body: Seq<char>,
}

impl View for Reply {
    type V = ReplyView;

    open spec fn view(&self) -> ReplyView {
        ReplyView {
            status: self.status,
            content_type: opt_text(self.content_type),
            set_cookie: opt_text(self.set_cookie),
            location: opt_text(self.location),
            body: self.body@,
        }
    }
}

/// The sign-in page, under a status.
pub open spec fn login_page(status: u16) -> ReplyView {
    ReplyView {
        status,
        content_type: Some("text/html; charset=utf-8"@),
        set_cookie: None,
        location: None,
        body: LOGIN_PAGE_HTML@,
    }
}

fn show_login_page(status: u16) -> (r: Reply)
    ensures
        r@ == login_page(status),
{
    Reply {
        status,
        content_type: Some(own("text/html; charset=utf-8")),
        set_cookie: None,
        location: None,
        body: own(LOGIN_PAGE_HTML),
    }
}

/// The refusal of a request to a path: JSON under `/api/`, and the sign-in
/// page elsewhere.
pub fn unauthorized_response(path: &str) -> (r: Reply)
    ensures
        r@ == (if "/api/"@.is_prefix_of(path@) {
            ReplyView {
                status: 401,
                content_type: Some("application/json"@),
                set_cookie: None,
                location: None,
                body: "{\"error\":\"unauthenticated\"}"@,
            }
        } else {
            login_page(401)
        }),
{
    if has_prefix(path, "/api/") {
        Reply {
            status: 401,
            content_type: Some(own("application/json")),
            set_cookie: None,
            location: None,
            body: own("{\"error\":\"unauthenticated\"}"),
        }
    } else {
        show_login_page(401)
    }
}

/// What follows a login: the cookie is set, and the browser goes to `/`. The
/// cookie is not marked as secure, as the daemon listens on plain HTTP.
pub open spec fn logged_in(token: Seq<char>) -> ReplyView {
    ReplyView {
        status: 303,
        content_type: None,
        set_cookie: Some(
            "grim_auth"@ + "="@ + token + "; Path=/; HttpOnly; SameSite=Strict; Max-Age=86400"@,
        ),
        location: Some("/"@),
        body: ""@,
    }
}

fn login_success_response(token: &str) -> (r: Reply)
    ensures
        r@ == logged_in(token@),
{
    let mut cookie = cat3(AUTH_COOKIE_NAME, "=", token);
    cookie.append("; Path=/; HttpOnly; SameSite=Strict; Max-Age=86400");
    Reply {
        status: 303,
        content_type: None,
        set_cookie: Some(cookie),
        location: Some(own("/")),
        body: own(""),
    }
}

/// `GET /auth/login`: a valid token in the query logs in; otherwise the form
/// is shown.
pub fn http_login_get(token: &AuthToken, t: Option<&str>) -> (r: Reply)
    ensures
        r@ == (if opt_str(t) == Some(token.secret@) {
            logged_in(token.secret@)
        } else {
            login_page(200)
        }),
{
    if let Some(tok) = t {
        if token.verify(tok) {
            return login_success_response(tok);
        }
    }
    show_login_page(200)
}

/// `POST /auth/login`: the token from the form.
pub fn http_login_post(token: &AuthToken, presented: &str) -> (r: Reply)
    ensures
        r@ == (if presented@ == token.secret@ {
            logged_in(token.secret@)
        } else {
            login_page(401)
        }),
{
    if token.verify(presented) {
        login_success_response(presented)
    } else {
        show_login_page(401)
    }
}

/// `POST /auth/logout`: the cookie is cleared.
pub fn http_logout() -> (r: Reply)
    ensures
        r@ == (ReplyView {
            status: 200,
            content_type: Some("text/plain"@),
            set_cookie: Some(
                "grim_auth"@ + "=; Max-Age=0; Path=/; HttpOnly; SameSite=Strict"@,
            ),
            location: None,
            body: "logged out"@,
        }),
{
    Reply {
        status: 200,
        content_type: Some(own("text/plain")),
        set_cookie: Some(
            cat(AUTH_COOKIE_NAME, "=; Max-Age=0; Path=/; HttpOnly; SameSite=Strict"),
        ),
        location: None,
        body: own("logged out"),
    }
}

// ---------------------------------------------------------------------------
// Laws
// ---------------------------------------------------------------------------

/// A bearer header decides alone: what the cookie holds does not matter.
pub proof fn bearer_beats_cookie(
    authorization: Seq<char>,
    a: Option<Seq<char>>,
    b: Option<Seq<char>>,
)
    requires
        "Bearer "@.is_prefix_of(authorization),
    ensures
        presented_token(Some(authorization), a) == presented_token(Some(authorization), b),
{
}

/// What stands behind `Bearer` is the token, without the white space around
/// it.
pub proof fn bearer_tokens_are_presented(rest: Seq<char>, cookie: Option<Seq<char>>)
    ensures
        presented_token(Some("Bearer "@ + rest), cookie) == Some(trimmed(rest)),
        presented_token(None, None) is None,
{
    let h = "Bearer "@ + rest;
    assert("Bearer "@ =~= h.subrange(0, "Bearer "@.len() as int));
    assert(h.skip("Bearer "@.len() as int) =~= rest);
}

/// Of a cookie header the first part that is the auth cookie gives the token;
/// other cookies are passed over.
pub proof fn the_auth_cookie_gives_the_token(
    part: Seq<char>,
    rest: Seq<Seq<char>>,
    value: Seq<char>,
)
    ensures
        trimmed(part) == "grim_auth="@ + value ==> cookie_token(seq![part] + rest) == Some(value),
        !"grim_auth="@.is_prefix_of(trimmed(part)) ==> cookie_token(seq![part] + rest)
            == cookie_token(rest),
        cookie_token(Seq::<Seq<char>>::empty()) is None,
        presented_token(None, Some(part)) == cookie_token(split(part, ';')),
{
    let all = seq![part] + rest;
    let name = "grim_auth"@ + "="@;
    reveal_strlit("grim_auth");
    reveal_strlit("=");
    reveal_strlit("grim_auth=");
    assert(name =~= "grim_auth="@);
    assert(all[0] == part);
    assert(all.skip(1) =~= rest);
    if trimmed(part) == "grim_auth="@ + value {
        let kv = trimmed(part);
        assert(name =~= kv.subrange(0, name.len() as int));
        assert(kv.skip(name.len() as int) =~= value);
    }
}

/// A request goes through exactly where it presents the daemon's token.
pub proof fn only_the_token_goes_through(
    token: AuthToken,
    presented: &str,
    verified: bool,
    authorization: Option<&str>,
    cookie: Option<&str>,
    r: bool,
)
    requires
        call_ensures(AuthToken::verify, (&token, presented), verified),
        call_ensures(http_auth_middleware, (&token, authorization, cookie), r),
    ensures
        verified <==> presented@ == token.secret@,
        r <==> presented_token(opt_str(authorization), opt_str(cookie)) == Some(token.secret@),
{
}

/// A login with the token sets the cookie and goes on to the start; any other
/// shows the form again, without a cookie.
pub proof fn logins_need_the_token(
    token: AuthToken,
    presented: &str,
    posted: Reply,
    got: Reply,
)
    requires
        call_ensures(http_login_post, (&token, presented), posted),
        call_ensures(http_login_get, (&token, Some(presented)), got),
    ensures
        presented@ == token.secret@ ==> {
            &&& posted.status == 303
            &&& opt_text(posted.location) == Some("/"@)
            &&& opt_text(posted.set_cookie) == Some(
                "grim_auth"@ + "="@ + token.secret@
                    + "; Path=/; HttpOnly; SameSite=Strict; Max-Age=86400"@,
            )
            &&& got@ == posted@
        },
        presented@ != token.secret@ ==> {
            &&& posted.status == 401
            &&& got.status == 200
            &&& posted.set_cookie is None
            &&& got.set_cookie is None
            &&& posted.body@ == LOGIN_PAGE_HTML@
            &&& got.body@ == LOGIN_PAGE_HTML@
        },
{
}

/// A request without the token is refused: with an error to programs, and
/// with the form elsewhere. A logout takes the cookie back.
pub proof fn refusals_fit_the_path(path: &str, r: Reply, out: Reply)
    requires
        call_ensures(unauthorized_response, (path,), r),
        call_ensures(http_logout, (), out),
    ensures
        r.status == 401,
        r.set_cookie is None,
        "/api/"@.is_prefix_of(path@) ==> r.body@ == "{\"error\":\"unauthenticated\"}"@ && opt_text(
            r.content_type,
        ) == Some("application/json"@),
        !"/api/"@.is_prefix_of(path@) ==> r.body@ == LOGIN_PAGE_HTML@ && opt_text(r.content_type)
            == Some("text/html; charset=utf-8"@),
        out.status == 200,
        opt_text(out.set_cookie) == Some(
            "grim_auth"@ + "=; Max-Age=0; Path=/; HttpOnly; SameSite=Strict"@,
        ),
{
}

} // verus!
