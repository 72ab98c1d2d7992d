use vstd::prelude::*;
use crate::channels::starts_with;
use crate::error::ApiError;
use crate::forms::{chars_of, index_from, lemma_index_from_bounds, lemma_index_from_first};
use crate::ids::{hyphenated, parse_uuid, uuid_parse_result, uuid_to_string};
use crate::strings::{has_prefix, is_ws, lemma_trim_noop, trim, trim_str};
use crate::text::{push_char, push_str};

verus! {

/// The claims of a session token: the user's id and the expiry time.
#[derive(Debug, Clone, PartialEq, Eq)]
pub struct SessionClaims {
    pub sub: String,
    pub exp: usize,
}

/// The claims of the short-lived token that carries the login flow state.
#[derive(Debug, Clone, PartialEq, Eq)]
pub struct FlowClaims {
    pub csrf: String,
    pub nonce: String,
    pub exp: usize,
}

/// The query parameters the identity provider redirects back with.
#[derive(Debug, Clone, PartialEq, Eq)]
pub struct CallbackParams {
    pub code: String,
    pub state: String,
}

/// The value of the first cookie in the `;`-separated `cookies` (from index
/// `i` on) whose trimmed text starts with `prefix` (`name=`).
pub open spec fn find_cookie_from(cookies: Seq<char>, prefix: Seq<char>, i: int) -> Option<
    Seq<char>,
>
    decreases cookies.len() - i,
{
    if i < 0 || i > cookies.len() {
        None
    } else {
        let e = index_from(cookies, ';', i);
        let seg = trim(cookies.subrange(i, e));
        if starts_with(seg, prefix) {
            Some(seg.subrange(prefix.len() as int, seg.len() as int))
        } else if e >= cookies.len() {
            None
        } else {
            proof {
                lemma_index_from_bounds(cookies, ';', i);
            }
            find_cookie_from(cookies, prefix, e + 1)
        }
    }
}

/// The value of the cookie whose `name=` prefix is `prefix`.
pub open spec fn find_cookie_spec(cookies: Seq<char>, prefix: Seq<char>) -> Option<Seq<char>> {
    find_cookie_from(cookies, prefix, 0)
}

fn string_from_chars(s: &Vec<char>, lo: usize, hi: usize) -> (r: String)
    requires
        lo <= hi <= s.len(),
    ensures
        r@ == s@.subrange(lo as int, hi as int),
{
    let mut out = String::new();
    let mut k = lo;
    while k < hi
        invariant
            lo <= k <= hi <= s.len(),
            out@ == s@.subrange(lo as int, k as int),
        decreases hi - k,
    {
        push_char(&mut out, s[k]);
        k = k + 1;
        assert(out@ =~= s@.subrange(lo as int, k as int));
    }
    out
}

/// Finds the value of a cookie in a `Cookie` header: `prefix` is the
/// cookie's name followed by `=`.
pub fn find_cookie(cookies: &str, prefix: &str) -> (r: Option<String>)
    ensures
        r matches Some(v) ==> find_cookie_spec(cookies@, prefix@) == Some(v@),
        r is None ==> find_cookie_spec(cookies@, prefix@) is None,
{
    let s = chars_of(cookies);
    let m = prefix.unicode_len();
    let mut i: usize = 0;
    loop
        invariant
            i <= s.len(),
            s@ == cookies@,
            m == prefix@.len(),
            find_cookie_from(s@, prefix@, i as int) == find_cookie_from(s@, prefix@, 0),
        decreases s.len() - i,
    {
        let mut e = i;
        while e < s.len() && s[e] != ';'
            invariant
                i <= e <= s.len(),
                index_from(s@, ';', e as int) == index_from(s@, ';', i as int),
            decreases s.len() - e,
        {
            e = e + 1;
        }
        let seg_owned = string_from_chars(&s, i, e);
        let seg = trim_str(seg_owned.as_str());
        if has_prefix(seg, prefix) {
            let n = seg.unicode_len();
            return Some(seg.substring_char(m, n).to_owned());
        }
        if e >= s.len() {
            return None;
        }
        i = e + 1;
    }
}

/// The token of an `Authorization: Bearer <token>` header.
pub fn bearer_token(authorization: &str) -> (r: Option<String>)
    ensures
        starts_with(authorization@, "Bearer "@) ==> (r matches Some(t) && t@
            == authorization@.subrange(7, authorization@.len() as int)),
        !starts_with(authorization@, "Bearer "@) ==> r is None,
{
    proof {
        reveal_strlit("Bearer ");
    }
    if has_prefix(authorization, "Bearer ") {
        let n = authorization.unicode_len();
        Some(authorization.substring_char(7, n).to_owned())
    } else {
        None
    }
}

/// The session token of a request: a bearer token from the `Authorization`
/// header, else the `session` cookie.
pub open spec fn spec_session_token(authorization: Option<Seq<char>>, cookie: Option<Seq<char>>) -> Option<
    Seq<char>,
> {
    let bearer = match authorization {
        Some(a) => if starts_with(a, "Bearer "@) {
            Some(a.subrange(7, a.len() as int))
        } else {
            None
        },
        None => None,
    };
    match bearer {
        Some(t) => Some(t),
        None => match cookie {
            Some(c) => find_cookie_spec(c, "session="@),
            None => None,
        },
    }
}

/// Finds the session token of a request; without one the request is
/// unauthorized.
pub fn session_token(authorization: Option<&str>, cookie: Option<&str>) -> (r: Result<
    String,
    ApiError,
>)
    ensures
        ({
            let a = match authorization {
                Some(x) => Some(x@),
                None => None,
            };
            let c = match cookie {
                Some(x) => Some(x@),
                None => None,
            };
            match spec_session_token(a, c) {
                Some(t) => r matches Ok(v) && v@ == t,
                None => r == Err::<String, ApiError>(ApiError::Unauthorized),
            }
        }),
{
    let bearer = match authorization {
        Some(a) => bearer_token(a),
        None => None,
    };
    match bearer {
        Some(t) => Ok(t),
        None => match cookie {
            Some(c) => match find_cookie(c, "session=") {
                Some(t) => Ok(t),
                None => Err(ApiError::Unauthorized),
            },
            None => Err(ApiError::Unauthorized),
        },
    }
}

/// The user id a session subject was read as: the parsed UUID, or, for a
/// subject that is not a UUID, an unauthorized request.
pub fn user_id_from_parsed(parsed: Option<u128>) -> (r: Result<u128, ApiError>)
    ensures
        match parsed {
            Some(id) => r == Ok::<u128, ApiError>(id),
            None => r == Err::<u128, ApiError>(ApiError::Unauthorized),
        },
{
    match parsed {
        Some(id) => Ok(id),
        None => Err(ApiError::Unauthorized),
    }
}

/// The id of the user a verified session names; a subject that is not a
/// UUID leaves the request unauthorized.
pub fn user_id_from_sub(sub: &str) -> (r: Result<u128, ApiError>)
    ensures
        match uuid_parse_result(sub@) {
            Some(id) => r == Ok::<u128, ApiError>(id),
            None => r == Err::<u128, ApiError>(ApiError::Unauthorized),
        },
{
    user_id_from_parsed(parse_uuid(sub))
}

/// The login flow token of a callback request, from its `oidc_flow` cookie.
pub fn flow_token(cookie: Option<&str>) -> (r: Result<String, ApiError>)
    ensures
        match cookie {
            Some(c) => match find_cookie_spec(c@, "oidc_flow="@) {
                Some(t) => r matches Ok(v) && v@ == t,
                None => r matches Err(ApiError::BadRequest(m)) && m@ == "invalid or expired state"@,
            },
            None => r matches Err(ApiError::BadRequest(m)) && m@ == "invalid or expired state"@,
        },
{
    let found = match cookie {
        Some(c) => find_cookie(c, "oidc_flow="),
        None => None,
    };
    match found {
        Some(t) => Ok(t),
        None => Err(ApiError::BadRequest(String::from_str("invalid or expired state"))),
    }
}

/// Checks that the `state` the provider echoed is the CSRF token of the flow.
pub fn check_flow_state(flow_csrf: &str, state: &str) -> (r: Result<(), ApiError>)
    ensures
        flow_csrf@ == state@ ==> r is Ok,
        flow_csrf@ != state@ ==> (r matches Err(ApiError::BadRequest(m)) && m@
            == "invalid or expired state"@),
{
    if crate::strings::str_eq(flow_csrf, state) {
        Ok(())
    } else {
        Err(ApiError::BadRequest(String::from_str("invalid or expired state")))
    }
}

/// Whether a new account may be created when `user_count` users exist:
/// only the very first user may register.
pub fn registration_allowed(user_count: i64) -> (r: Result<(), ApiError>)
    ensures
        user_count <= 0 ==> r is Ok,
        user_count > 0 ==> (r matches Err(ApiError::Forbidden(m)) && m@
            == "registration is closed"@),
{
    if user_count > 0 {
        Err(ApiError::Forbidden(String::from_str("registration is closed")))
    } else {
        Ok(())
    }
}

/// The latest Unix time (seconds) that a UTC date-time can hold.
pub const MAX_UTC_SECS: i64 = 8_210_266_876_799;

/// Seconds a login flow stays valid.
pub const FLOW_TTL_SECS: i64 = 600;

/// Seconds a session stays valid (thirty days).
pub const SESSION_TTL_SECS: i64 = 2_592_000;

/// The `exp` claim of a token issued at `now` (Unix seconds) that lives
/// `ttl` seconds.
pub fn expiry(now: i64, ttl: i64) -> (r: usize)
    requires
        0 <= ttl,
        now + ttl <= MAX_UTC_SECS,
    ensures
        r == (now + ttl) as usize,
{
    (now + ttl) as usize
}

/// The `Set-Cookie` value that stores the login flow token.
pub fn flow_cookie(jwt: &str) -> (r: String)
    ensures
        r@ == "oidc_flow="@ + jwt@ + "; HttpOnly; Path=/; SameSite=Lax; Max-Age=600"@,
{
    let mut s = String::from_str("oidc_flow=");
    push_str(&mut s, jwt);
    push_str(&mut s, "; HttpOnly; Path=/; SameSite=Lax; Max-Age=600");
    s
}

/// The `Set-Cookie` value that stores the session token for thirty days.
pub fn session_cookie(jwt: &str) -> (r: String)
    ensures
        r@ == "session="@ + jwt@ + "; HttpOnly; Path=/; SameSite=Lax; Max-Age=2592000"@,
{
    let mut s = String::from_str("session=");
    push_str(&mut s, jwt);
    push_str(&mut s, "; HttpOnly; Path=/; SameSite=Lax; Max-Age=2592000");
    s
}

/// The `Set-Cookie` value that clears the login flow cookie.
pub fn clear_flow_cookie() -> (r: String)
    ensures
        r@ == "oidc_flow=; HttpOnly; Path=/; Max-Age=0"@,
{
    String::from_str("oidc_flow=; HttpOnly; Path=/; Max-Age=0")
}

/// The `Set-Cookie` value that clears the session cookie on logout.
pub fn clear_session_cookie() -> (r: String)
    ensures
        r@ == "session=; HttpOnly; Path=/; Max-Age=0"@,
{
    String::from_str("session=; HttpOnly; Path=/; Max-Age=0")
}

/// The subject of the session issued to user `id`: its hyphenated text,
/// which reads back as the same id.
pub fn session_subject(id: u128) -> (r: String)
    ensures
        r@ == hyphenated(id),
        uuid_parse_result(r@) == Some(id),
{
    uuid_to_string(id)
}

/// Whether a cookie value can be stored and read back unchanged: it holds no
/// `;` and no whitespace (a JWT never does).
pub open spec fn plain_cookie_value(v: Seq<char>) -> bool {
    forall|i: int| 0 <= i < v.len() ==> v[i] != ';' && !is_ws(#[trigger] v[i])
}

/// Reading a cookie back from a header that starts with `name` `=` `value`,
/// followed by `;` and attributes, gives `value`.
proof fn lemma_cookie_round_trip(name_eq: Seq<char>, value: Seq<char>, attrs: Seq<char>)
    requires
        name_eq.len() > 0,
        !is_ws(name_eq[0]),
        !is_ws(name_eq[name_eq.len() - 1]),
        forall|i: int| 0 <= i < name_eq.len() ==> name_eq[i] != ';',
        plain_cookie_value(value),
        attrs.len() > 0,
        attrs[0] == ';',
    ensures
        find_cookie_spec(name_eq + value + attrs, name_eq) == Some(value),
{
    let c = name_eq + value + attrs;
    let j: int = (name_eq.len() + value.len()) as int;
    assert forall|k: int| 0 <= k < j implies c[k] != ';' by {
        if k < name_eq.len() {
            assert(c[k] == name_eq[k]);
        } else {
            assert(c[k] == value[k - name_eq.len()]);
        }
    }
    assert(c[j] == attrs[0]);
    lemma_index_from_first(c, ';', j);
    let seg = c.subrange(0, j);
    assert(seg =~= name_eq + value);
    assert(seg[0] == name_eq[0]);
    if value.len() > 0 {
        assert(seg[seg.len() - 1] == value[value.len() - 1]);
    } else {
        assert(seg[seg.len() - 1] == name_eq[name_eq.len() - 1]);
    }
    lemma_trim_noop(seg);
    assert(seg.subrange(0, name_eq.len() as int) =~= name_eq);
    assert(seg.subrange(name_eq.len() as int, seg.len() as int) =~= value);
}

/// A session cookie is read back as the token it stores: the request that
/// carries it is authenticated with that token.
pub proof fn lemma_session_cookie_round_trip(jwt: Seq<char>)
    requires
        plain_cookie_value(jwt),
    ensures
        spec_session_token(
            None,
            Some("session="@ + jwt + "; HttpOnly; Path=/; SameSite=Lax; Max-Age=2592000"@),
        ) == Some(jwt),
{
    reveal_strlit("session=");
    reveal_strlit("; HttpOnly; Path=/; SameSite=Lax; Max-Age=2592000");
    lemma_cookie_round_trip(
        "session="@,
        jwt,
        "; HttpOnly; Path=/; SameSite=Lax; Max-Age=2592000"@,
    );
}

/// A login flow cookie is read back as the token it stores.
pub proof fn lemma_flow_cookie_round_trip(jwt: Seq<char>)
    requires
        plain_cookie_value(jwt),
    ensures
        find_cookie_spec(
            "oidc_flow="@ + jwt + "; HttpOnly; Path=/; SameSite=Lax; Max-Age=600"@,
            "oidc_flow="@,
        ) == Some(jwt),
{
    reveal_strlit("oidc_flow=");
    reveal_strlit("; HttpOnly; Path=/; SameSite=Lax; Max-Age=600");
    lemma_cookie_round_trip("oidc_flow="@, jwt, "; HttpOnly; Path=/; SameSite=Lax; Max-Age=600"@);
}

} // verus!
