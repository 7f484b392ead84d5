//! Sessions, the session cookie, and which requests the server lets through.

use vstd::prelude::*;
use crate::text::{
    chars_of, has_prefix, hex_chars, hex_digit, hex_of, slice_chars, split_by, split_chars,
    starts_with, str_is, string_of, trim, trim_chars, trim_end, trim_start, views, is_ws,
};

verus! {

// ---------------------------------------------------------------------------
// Specifications
// ---------------------------------------------------------------------------

/// A session token: 64 lower-case hexadecimal digits (32 random bytes).
pub open spec fn is_session_token(t: Seq<char>) -> bool {
    &&& t.len() == 64
    &&& forall|i: int| 0 <= i < t.len() ==> exists|d: nat| d < 16 && #[trigger] t[i] == hex_digit(d)
}

/// The name under which the session token travels in the cookie header.
pub open spec fn session_cookie_name() -> Seq<char> {
    "session_token="@
}

/// The `Set-Cookie` value that starts a session with token `t`.
pub open spec fn session_cookie(t: Seq<char>) -> Seq<char> {
    "session_token="@ + t + "; Path=/; HttpOnly; SameSite=Strict; Max-Age=86400"@
}

/// The `Set-Cookie` value that ends the session.
pub open spec fn cleared_cookie() -> Seq<char> {
    "session_token=; Path=/; HttpOnly; SameSite=Strict; Max-Age=0"@
}

/// The token of the first `;`-separated, trimmed piece that starts with
/// `session_token=`.
pub open spec fn first_session_piece(pieces: Seq<Seq<char>>) -> Option<Seq<char>>
    decreases pieces.len(),
{
    if pieces.len() == 0 {
        None
    } else if has_prefix(trim(pieces[0]), session_cookie_name()) {
        Some(trim(pieces[0]).skip(session_cookie_name().len() as int))
    } else {
        first_session_piece(pieces.drop_first())
    }
}

/// The session token carried by a `Cookie` header, if any.
pub open spec fn cookie_session(header: Seq<char>) -> Option<Seq<char>> {
    first_session_piece(split_by(header, ';'))
}

/// Whether a request with this `Cookie` header (if readable) belongs to a live session.
pub open spec fn has_live_session(sessions: Set<Seq<char>>, header: Option<Seq<char>>) -> bool {
    match header {
        Some(h) => match cookie_session(h) {
            Some(t) => sessions.contains(t),
            None => false,
        },
        None => false,
    }
}

/// Paths served without a session: the login page, the auth API and static assets.
pub open spec fn is_public_path(p: Seq<char>) -> bool {
    ||| p == "/login"@
    ||| has_prefix(p, "/api/auth/"@)
    ||| has_prefix(p, "/assets/"@)
    ||| has_prefix(p, "/_dioxus/"@)
    ||| has_prefix(p, "/public/"@)
    ||| has_prefix(p, "/wasm/"@)
}

/// What the server does with a request for `path`.
pub open spec fn access_for(path: Seq<char>, live_session: bool) -> AccessDecision {
    if is_public_path(path) || live_session {
        AccessDecision::Proceed
    } else if has_prefix(path, "/api/"@) {
        AccessDecision::Unauthorized
    } else {
        AccessDecision::RedirectToLogin
    }
}

/// The credentials the server accepts: the configured ones, `admin` by default.
pub open spec fn expected_credential(configured: Option<Seq<char>>) -> Seq<char> {
    match configured {
        Some(c) => c,
        None => "admin"@,
    }
}

pub open spec fn opt_view(o: Option<&str>) -> Option<Seq<char>> {
    match o {
        Some(s) => Some(s@),
        None => None,
    }
}

// ---------------------------------------------------------------------------
// Types
// ---------------------------------------------------------------------------

/// What happens to an incoming request.
#[derive(Debug, Clone, Copy, PartialEq, Eq, Structural)]
pub enum AccessDecision {
    /// Hand the request to the application.
    Proceed,
    /// Answer `401 Unauthorized`.
    Unauthorized,
    /// Redirect (temporarily) to `/login`.
    RedirectToLogin,
}

/// The set of live session tokens.
pub struct SessionStore {
    tokens: Vec<String>,
}

impl SessionStore {
    /// The live tokens.
    pub closed spec fn view(&self) -> Set<Seq<char>> {
        Set::new(|t: Seq<char>| exists|i: int| 0 <= i < self.tokens@.len() && self.tokens@[i]@ == t)
    }

    /// An empty store.
    pub fn new() -> (s: Self)
        ensures
            s.view() == Set::<Seq<char>>::empty(),
    {
        let s = SessionStore { tokens: Vec::new() };
        assert(s.view() =~= Set::<Seq<char>>::empty());
        s
    }

    /// Whether `token` is live.
    pub fn contains(&self, token: &str) -> (b: bool)
        ensures
            b == self.view().contains(token@),
    {
        let mut i: usize = 0;
        while i < self.tokens.len()
            invariant
                i <= self.tokens@.len(),
                forall|j: int| 0 <= j < i ==> self.tokens@[j]@ != token@,
            decreases self.tokens.len() - i,
        {
            if str_is(self.tokens[i].as_str(), token) {
                return true;
            }
            i += 1;
        }
        false
    }

    /// Adds `token` (a `HashSet::insert`).
    pub fn insert(&mut self, token: String)
        ensures
            final(self).view() == old(self).view().insert(token@),
    {
        if !self.contains(token.as_str()) {
            let ghost t = token@;
            let ghost before = self.tokens@;
            self.tokens.push(token);
            assert forall|x: Seq<char>| #[trigger] self.view().contains(x) == old(
                self,
            ).view().insert(t).contains(x) by {
                if old(self).view().insert(t).contains(x) && x != t {
                    let i = choose|i: int| 0 <= i < before.len() && before[i]@ == x;
                    assert(self.tokens@[i] == before[i]);
                }
                if x == t {
                    assert(self.tokens@[before.len() as int]@ == t);
                }
            }
            assert(self.view() =~= old(self).view().insert(t));
        } else {
            assert(self.view() =~= old(self).view().insert(token@));
        }
    }

    /// Removes `token` (a `HashSet::remove`).
    pub fn remove(&mut self, token: &str)
        ensures
            final(self).view() == old(self).view().remove(token@),
    {
        let ghost before = self.tokens@;
        let mut kept: Vec<String> = Vec::new();
        let mut i: usize = 0;
        while i < self.tokens.len()
            invariant
                i <= self.tokens@.len(),
                self.tokens@ == before,
                forall|j: int| 0 <= j < kept@.len() ==> #[trigger] kept@[j]@ != token@,
                forall|j: int|
                    0 <= j < kept@.len() ==> exists|k: int| 0 <= k < i && before[k]@ == #[trigger] kept@[j]@,
                forall|k: int|
                    0 <= k < i && before[k]@ != token@ ==> exists|j: int|
                        0 <= j < kept@.len() && #[trigger] kept@[j]@ == before[k]@,
            decreases self.tokens.len() - i,
        {
            let ghost prev = kept@;
            if !str_is(self.tokens[i].as_str(), token) {
                let t = self.tokens[i].clone();
                kept.push(t);
                assert(kept@[kept@.len() - 1]@ == before[i as int]@);
            }
            assert forall|k: int| 0 <= k < i + 1 && before[k]@ != token@ implies exists|j: int|
                0 <= j < kept@.len() && #[trigger] kept@[j]@ == before[k]@ by {
                if k == i {
                    assert(kept@[kept@.len() - 1]@ == before[k]@);
                } else {
                    let j = choose|j: int| 0 <= j < prev.len() && #[trigger] prev[j]@ == before[k]@;
                    assert(kept@[j] == prev[j]);
                }
            }
            i += 1;
        }
        self.tokens = kept;
        assert(self.view() =~= old(self).view().remove(token@));
    }
}

// ---------------------------------------------------------------------------
// Session tokens
// ---------------------------------------------------------------------------

/// 32 bytes from the thread-local random generator (`rand::rng().random()`).
/// Nothing is claimed of their values.
#[verifier::external_body]
fn random_token_bytes() -> (b: Vec<u8>)
    ensures
        b@.len() == 32,
{
    let bytes: [u8; 32] = rand::Rng::random(&mut rand::rng());
    bytes.to_vec()
}

proof fn lemma_hex_of_is_token(b: Seq<u8>)
    requires
        b.len() == 32,
    ensures
        is_session_token(hex_of(b)),
{
    lemma_hex_of_digits(b);
}

proof fn lemma_hex_of_digits(b: Seq<u8>)
    ensures
        hex_of(b).len() == 2 * b.len(),
        forall|i: int|
            0 <= i < hex_of(b).len() ==> exists|d: nat| d < 16 && #[trigger] hex_of(b)[i] == hex_digit(d),
    decreases b.len(),
{
    if b.len() > 0 {
        lemma_hex_of_digits(b.drop_last());
        let h = hex_of(b);
        let p = hex_of(b.drop_last());
        let hi = (b.last() / 16) as nat;
        let lo = (b.last() % 16) as nat;
        assert forall|i: int| 0 <= i < h.len() implies exists|d: nat|
            d < 16 && #[trigger] h[i] == hex_digit(d) by {
            if i < p.len() {
                assert(h[i] == p[i]);
            } else if i == p.len() {
                assert(h[i] == hex_digit(hi));
            } else {
                assert(h[i] == hex_digit(lo));
            }
        }
    }
}

/// A fresh random session token: 64 lower-case hexadecimal digits.
pub fn generate_session_token() -> (t: String)
    ensures
        is_session_token(t@),
        exists|b: Seq<u8>| b.len() == 32 && t@ == hex_of(b),
{
    let bytes = random_token_bytes();
    let chars = hex_chars(bytes.as_slice());
    proof {
        lemma_hex_of_is_token(bytes@);
    }
    string_of(chars.as_slice())
}

/// Starts a session: a fresh token becomes live and is returned.
pub fn create_session(store: &mut SessionStore) -> (t: String)
    ensures
        is_session_token(t@),
        final(store).view() == old(store).view().insert(t@),
{
    let token = generate_session_token();
    let kept = token.clone();
    store.insert(token);
    kept
}

/// Whether `token` belongs to a live session.
pub fn validate_session(store: &SessionStore, token: &str) -> (b: bool)
    ensures
        b == store.view().contains(token@),
{
    store.contains(token)
}

/// Ends the session of `token`, if it is live.
pub fn remove_session(store: &mut SessionStore, token: &str)
    ensures
        final(store).view() == old(store).view().remove(token@),
{
    store.remove(token)
}

// ---------------------------------------------------------------------------
// Cookies
// ---------------------------------------------------------------------------

/// The session token in a `Cookie` header: the rest of the first trimmed
/// `;`-separated piece that starts with `session_token=`.
pub fn extract_session_from_cookie(cookie_header: &str) -> (r: Option<String>)
    ensures
        match r {
            Some(t) => cookie_session(cookie_header@) == Some(t@),
            None => cookie_session(cookie_header@) is None,
        },
{
    let header = chars_of(cookie_header);
    let name = chars_of("session_token=");
    let pieces = split_chars(header.as_slice(), ';');
    let ghost all = views(pieces@);
    let mut k: usize = 0;
    assert(all.skip(0) == all);
    while k < pieces.len()
        invariant
            k <= pieces@.len(),
            all == views(pieces@),
            name@ == session_cookie_name(),
            all == split_by(header@, ';'),
            cookie_session(cookie_header@) == first_session_piece(all.skip(k as int)),
        decreases pieces.len() - k,
    {
        let piece = trim_chars(pieces[k].as_slice());
        assert(all.skip(k as int)[0] == pieces@[k as int]@);
        if starts_with(piece.as_slice(), name.as_slice()) {
            let token = slice_chars(piece.as_slice(), name.len(), piece.len());
            assert(token@ == piece@.skip(name@.len() as int));
            return Some(string_of(token.as_slice()));
        }
        assert(all.skip(k as int).drop_first() == all.skip(k + 1));
        k += 1;
    }
    None
}

/// Whether a request carrying this `Cookie` header belongs to a live session.
pub fn check_auth_server(store: &SessionStore, cookie_header: Option<&str>) -> (b: bool)
    ensures
        b == has_live_session(store.view(), opt_view(cookie_header)),
{
    match cookie_header {
        Some(h) => match extract_session_from_cookie(h) {
            Some(t) => validate_session(store, t.as_str()),
            None => false,
        },
        None => false,
    }
}

/// Whether `path` is served without a session.
pub fn is_public_path_exec(path: &str) -> (b: bool)
    ensures
        b == is_public_path(path@),
{
    let p = chars_of(path);
    str_is(path, "/login") || starts_with(p.as_slice(), chars_of("/api/auth/").as_slice())
        || starts_with(p.as_slice(), chars_of("/assets/").as_slice()) || starts_with(
        p.as_slice(),
        chars_of("/_dioxus/").as_slice(),
    ) || starts_with(p.as_slice(), chars_of("/public/").as_slice()) || starts_with(
        p.as_slice(),
        chars_of("/wasm/").as_slice(),
    )
}

/// The check in front of every request: public paths and requests with a live
/// session proceed; other API requests are refused with 401; other pages are
/// redirected to the login page.
pub fn auth_middleware(store: &SessionStore, path: &str, cookie_header: Option<&str>) -> (d:
    AccessDecision)
    ensures
        d == access_for(path@, has_live_session(store.view(), opt_view(cookie_header))),
{
    if is_public_path_exec(path) {
        return AccessDecision::Proceed;
    }
    if check_auth_server(store, cookie_header) {
        return AccessDecision::Proceed;
    }
    let p = chars_of(path);
    if starts_with(p.as_slice(), chars_of("/api/").as_slice()) {
        AccessDecision::Unauthorized
    } else {
        AccessDecision::RedirectToLogin
    }
}

/// Whether the given credentials are the configured ones (`admin`/`admin`
/// where none are configured).
pub fn credentials_accepted(
    username: &str,
    password: &str,
    configured_user: Option<&str>,
    configured_pass: Option<&str>,
) -> (b: bool)
    ensures
        b == (username@ == expected_credential(opt_view(configured_user)) && password@
            == expected_credential(opt_view(configured_pass))),
{
    let user_ok = match configured_user {
        Some(u) => str_is(username, u),
        None => str_is(username, "admin"),
    };
    let pass_ok = match configured_pass {
        Some(p) => str_is(password, p),
        None => str_is(password, "admin"),
    };
    user_ok && pass_ok
}

/// Logs in: with the right credentials a session starts and the `Set-Cookie`
/// value carrying its token is returned; otherwise nothing changes.
pub fn login_server(
    store: &mut SessionStore,
    username: &str,
    password: &str,
    configured_user: Option<&str>,
    configured_pass: Option<&str>,
) -> (r: Option<String>)
    ensures
        (r is Some) == (username@ == expected_credential(opt_view(configured_user)) && password@
            == expected_credential(opt_view(configured_pass))),
        r is None ==> final(store).view() == old(store).view(),
        match r {
            Some(c) => exists|t: Seq<char>|
                is_session_token(t) && c@ == session_cookie(t) && final(store).view() == old(
                    store,
                ).view().insert(t),
            None => true,
        },
{
    if credentials_accepted(username, password, configured_user, configured_pass) {
        let token = create_session(store);
        let mut cookie = chars_of("session_token=");
        crate::text::extend_chars(&mut cookie, chars_of(token.as_str()).as_slice());
        crate::text::extend_chars(
            &mut cookie,
            chars_of("; Path=/; HttpOnly; SameSite=Strict; Max-Age=86400").as_slice(),
        );
        let c = string_of(cookie.as_slice());
        assert(c@ == session_cookie(token@));
        Some(c)
    } else {
        None
    }
}

/// Logs out: the session named by the `Cookie` header (if any) ends, and the
/// `Set-Cookie` value that clears the cookie is returned.
pub fn logout_server(store: &mut SessionStore, cookie_header: Option<&str>) -> (c: String)
    ensures
        c@ == cleared_cookie(),
        match opt_view(cookie_header) {
            Some(h) => match cookie_session(h) {
                Some(t) => final(store).view() == old(store).view().remove(t),
                None => final(store).view() == old(store).view(),
            },
            None => final(store).view() == old(store).view(),
        },
{
    if let Some(h) = cookie_header {
        if let Some(t) = extract_session_from_cookie(h) {
            remove_session(store, t.as_str());
        }
    }
    string_of(chars_of("session_token=; Path=/; HttpOnly; SameSite=Strict; Max-Age=0").as_slice())
}

// ---------------------------------------------------------------------------
// Laws
// ---------------------------------------------------------------------------

proof fn lemma_hex_digit_plain(d: nat)
    requires
        d < 16,
    ensures
        !is_ws(hex_digit(d)),
        hex_digit(d) != ';',
{
    let digits = seq!['0', '1', '2', '3', '4', '5', '6', '7', '8', '9', 'a', 'b', 'c', 'd', 'e', 'f'];
    assert(hex_digit(d) == digits[d as int]);
    assert(d == 0 || d == 1 || d == 2 || d == 3 || d == 4 || d == 5 || d == 6 || d == 7 || d == 8
        || d == 9 || d == 10 || d == 11 || d == 12 || d == 13 || d == 14 || d == 15);
}

proof fn lemma_split_without_separator(a: Seq<char>, c: char)
    requires
        forall|i: int| 0 <= i < a.len() ==> a[i] != c,
    ensures
        split_by(a, c) == seq![a],
    decreases a.len(),
{
    if a.len() > 0 {
        lemma_split_without_separator(a.drop_last(), c);
        assert(a.drop_last().push(a.last()) =~= a);
        assert(split_by(a, c) =~= seq![a]);
    } else {
        assert(a =~= Seq::<char>::empty());
    }
}

proof fn lemma_split_first_piece(s: Seq<char>, a: Seq<char>, c: char)
    requires
        has_prefix(s, a.push(c)),
        forall|i: int| 0 <= i < a.len() ==> a[i] != c,
    ensures
        split_by(s, c).len() >= 2,
        split_by(s, c)[0] == a,
    decreases s.len(),
{
    if s.len() == a.len() + 1 {
        assert(s == a.push(c)) by {
            assert(s.take(s.len() as int) == s);
        }
        assert(s.drop_last() =~= a);
        lemma_split_without_separator(a, c);
    } else {
        assert(s.drop_last().take(a.len() + 1int) == s.take(a.len() + 1int));
        lemma_split_first_piece(s.drop_last(), a, c);
    }
}

/// A cookie header that begins with the session pair `session_token=<t>`,
/// followed by nothing or by further `;`-separated attributes or cookies,
/// yields the token `t`: what login hands out is what the request check reads back.
pub proof fn law_session_cookie_round_trip(t: Seq<char>, rest: Seq<char>)
    requires
        is_session_token(t),
        rest.len() == 0 || rest[0] == ';',
    ensures
        cookie_session("session_token="@ + t + rest) == Some(t),
{
    reveal_strlit("session_token=");
    let name = "session_token="@;
    let pair = name + t;
    let h = pair + rest;
    assert forall|i: int| 0 <= i < pair.len() implies pair[i] != ';' && (i == pair.len() - 1
        ==> !is_ws(pair[i])) by {
        if i >= name.len() {
            let d = choose|d: nat| d < 16 && #[trigger] t[i - name.len()] == hex_digit(d);
            lemma_hex_digit_plain(d);
        }
    }
    assert(!is_ws(pair[0]));
    if rest.len() == 0 {
        assert(h == pair);
        lemma_split_without_separator(pair, ';');
        assert(split_by(h, ';')[0] == pair);
    } else {
        assert(h.take(pair.len() + 1int) =~= pair.push(';'));
        lemma_split_first_piece(h, pair, ';');
    }
    assert(trim_start(pair) == pair);
    assert(trim_end(pair) == pair);
    assert(trim(pair) == pair);
    assert(pair.take(name.len() as int) =~= name);
    assert(pair.skip(name.len() as int) =~= t);
}

/// The `Set-Cookie` value of a fresh session, echoed back, carries its token.
pub proof fn law_login_cookie_names_its_token(t: Seq<char>)
    requires
        is_session_token(t),
    ensures
        cookie_session(session_cookie(t)) == Some(t),
{
    reveal_strlit("; Path=/; HttpOnly; SameSite=Strict; Max-Age=86400");
    let rest = "; Path=/; HttpOnly; SameSite=Strict; Max-Age=86400"@;
    assert(rest[0] == ';');
    law_session_cookie_round_trip(t, rest);
    assert(session_cookie(t) == "session_token="@ + t + rest);
}

/// A session is live from its creation until its removal, and removing one
/// session leaves every other session as it was.
pub proof fn law_session_lifecycle(sessions: Set<Seq<char>>, t: Seq<char>, other: Seq<char>)
    ensures
        sessions.insert(t).contains(t),
        !sessions.insert(t).remove(t).contains(t),
        other != t ==> (sessions.remove(t).contains(other) == sessions.contains(other)),
        other != t ==> (sessions.insert(t).contains(other) == sessions.contains(other)),
{
}

/// Every request that carries the cookie of a live session is let through.
pub proof fn law_live_session_proceeds(sessions: Set<Seq<char>>, t: Seq<char>, path: Seq<char>)
    requires
        is_session_token(t),
        sessions.contains(t),
    ensures
        access_for(path, has_live_session(sessions, Some("session_token="@ + t)))
            == AccessDecision::Proceed,
{
    law_session_cookie_round_trip(t, Seq::<char>::empty());
    assert("session_token="@ + t + Seq::<char>::empty() == "session_token="@ + t);
}

/// Once its session is removed, a cookie no longer opens a non-public path:
/// API paths are refused and pages are redirected to the login page.
pub proof fn law_removed_session_is_turned_away(
    sessions: Set<Seq<char>>,
    t: Seq<char>,
    path: Seq<char>,
)
    requires
        is_session_token(t),
        !is_public_path(path),
    ensures
        access_for(path, has_live_session(sessions.remove(t), Some("session_token="@ + t)))
            == (if has_prefix(path, "/api/"@) {
            AccessDecision::Unauthorized
        } else {
            AccessDecision::RedirectToLogin
        }),
{
    law_session_cookie_round_trip(t, Seq::<char>::empty());
    assert("session_token="@ + t + Seq::<char>::empty() == "session_token="@ + t);
}

/// Public paths are served whatever the session.
pub proof fn law_public_paths_proceed(path: Seq<char>, live: bool)
    requires
        is_public_path(path),
    ensures
        access_for(path, live) == AccessDecision::Proceed,
{
}

} // verus!
