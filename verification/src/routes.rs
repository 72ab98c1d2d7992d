use vstd::prelude::*;
use crate::channels::starts_with;
use crate::strings::{has_prefix, str_eq};
use crate::text::push_str;

verus! {

/// The pages of the dashboard.
#[derive(Debug, Clone, PartialEq, Eq)]
pub enum Route {
    Monitors,
    MonitorDetail { id: String },
    Create,
    Notifications,
    StatusPages,
    CreateStatusPage,
    StatusPageEdit { id: String },
    StatusPageDetail { id: String },
    PublicStatus { slug: String },
    NotFound,
}

/// Whether `s` can stand as a path parameter: one non-empty segment.
pub open spec fn segment(s: Seq<char>) -> bool {
    s.len() > 0 && forall|i: int| 0 <= i < s.len() ==> s[i] != '/'
}

/// Whether `t` ends with `p`.
pub open spec fn ends_with(t: Seq<char>, p: Seq<char>) -> bool {
    p.len() <= t.len() && t.subrange(t.len() - p.len(), t.len() as int) == p
}

/// The parameter of `p` when `p` is `prefix`, one non-empty segment, then
/// `suffix`.
pub open spec fn param_between(p: Seq<char>, prefix: Seq<char>, suffix: Seq<char>) -> Option<
    Seq<char>,
> {
    if starts_with(p, prefix) && ends_with(p, suffix) && p.len() >= prefix.len() + suffix.len()
        && segment(p.subrange(prefix.len() as int, p.len() - suffix.len())) {
        Some(p.subrange(prefix.len() as int, p.len() - suffix.len()))
    } else {
        None
    }
}

/// Whether `p` is one of the fixed paths of the route table.
pub open spec fn fixed_path(p: Seq<char>) -> bool {
    p == "/"@ || p == "/create"@ || p == "/notifications"@ || p == "/status-pages"@ || p
        == "/status-pages/create"@
}

/// Whether the route table sends path `p` to page `r`: `/`, `/monitors/:id`,
/// `/create`, `/notifications`, `/status-pages`, `/status-pages/create`,
/// `/status-pages/:id/edit`, `/status-pages/:id`, `/s/:slug`; a parameter is
/// one non-empty segment, the fixed `/status-pages/create` wins over
/// `/status-pages/:id`, and every other path is not found.
pub open spec fn routes_to(p: Seq<char>, r: Route) -> bool {
    match r {
        Route::Monitors => p == "/"@,
        Route::Create => p == "/create"@,
        Route::Notifications => p == "/notifications"@,
        Route::StatusPages => p == "/status-pages"@,
        Route::CreateStatusPage => p == "/status-pages/create"@,
        Route::MonitorDetail { id } => param_between(p, "/monitors/"@, ""@) == Some(id@),
        Route::StatusPageEdit { id } => param_between(p, "/status-pages/"@, "/edit"@) == Some(
            id@,
        ),
        Route::StatusPageDetail { id } => p != "/status-pages/create"@ && param_between(
            p,
            "/status-pages/"@,
            ""@,
        ) == Some(id@),
        Route::PublicStatus { slug } => param_between(p, "/s/"@, ""@) == Some(slug@),
        Route::NotFound => {
            &&& !fixed_path(p)
            &&& param_between(p, "/monitors/"@, ""@) is None
            &&& param_between(p, "/status-pages/"@, "/edit"@) is None
            &&& param_between(p, "/status-pages/"@, ""@) is None
            &&& param_between(p, "/s/"@, ""@) is None
        },
    }
}

/// Whether `s` is one non-empty path segment.
fn is_segment(s: &str) -> (r: bool)
    ensures
        r == segment(s@),
{
    let n = s.unicode_len();
    if n == 0 {
        return false;
    }
    let mut i: usize = 0;
    while i < n
        invariant
            n == s@.len(),
            i <= n,
            forall|k: int| 0 <= k < i ==> s@[k] != '/',
        decreases n - i,
    {
        if s.get_char(i) == '/' {
            return false;
        }
        i = i + 1;
    }
    true
}

/// Whether `s` ends with `/edit`.
fn ends_with_edit(s: &str) -> (r: bool)
    ensures
        r == ends_with(s@, "/edit"@),
{
    proof {
        reveal_strlit("/edit");
    }
    let n = s.unicode_len();
    if n < 5 {
        return false;
    }
    let tail = s.substring_char(n - 5, n);
    str_eq(tail, "/edit")
}

/// The character of `p` at `i` when `p` starts with `prefix` and `i` is
/// inside the prefix.
proof fn lemma_prefix_char(p: Seq<char>, prefix: Seq<char>, i: int)
    requires
        starts_with(p, prefix),
        0 <= i < prefix.len(),
    ensures
        p[i] == prefix[i],
{
    assert(p.subrange(0, prefix.len() as int)[i] == p[i]);
}

/// The patterns of the route table exclude one another, but for
/// `/status-pages/create`, which is a fixed path and also has the shape of a
/// status page's path.
proof fn lemma_patterns_exclusive(p: Seq<char>)
    ensures
        fixed_path(p) ==> param_between(p, "/monitors/"@, ""@) is None,
        fixed_path(p) ==> param_between(p, "/status-pages/"@, "/edit"@) is None,
        fixed_path(p) && p != "/status-pages/create"@ ==> param_between(
            p,
            "/status-pages/"@,
            ""@,
        ) is None,
        fixed_path(p) ==> param_between(p, "/s/"@, ""@) is None,
        param_between(p, "/monitors/"@, ""@) is Some ==> param_between(
            p,
            "/status-pages/"@,
            "/edit"@,
        ) is None && param_between(p, "/status-pages/"@, ""@) is None && param_between(
            p,
            "/s/"@,
            ""@,
        ) is None,
        param_between(p, "/status-pages/"@, "/edit"@) is Some ==> param_between(
            p,
            "/status-pages/"@,
            ""@,
        ) is None && param_between(p, "/s/"@, ""@) is None,
        param_between(p, "/status-pages/"@, ""@) is Some ==> param_between(p, "/s/"@, ""@) is None,
{
    reveal_strlit("/monitors/");
    reveal_strlit("/status-pages/");
    reveal_strlit("/s/");
    reveal_strlit("/edit");
    reveal_strlit("");
    reveal_strlit("/");
    reveal_strlit("/create");
    reveal_strlit("/notifications");
    reveal_strlit("/status-pages");
    reveal_strlit("/status-pages/create");
    if starts_with(p, "/monitors/"@) {
        lemma_prefix_char(p, "/monitors/"@, 1);
        if starts_with(p, "/status-pages/"@) {
            lemma_prefix_char(p, "/status-pages/"@, 1);
        }
        if starts_with(p, "/s/"@) {
            lemma_prefix_char(p, "/s/"@, 1);
        }
    }
    if starts_with(p, "/status-pages/"@) {
        lemma_prefix_char(p, "/status-pages/"@, 2);
        if starts_with(p, "/s/"@) {
            lemma_prefix_char(p, "/s/"@, 2);
        }
    }
    if param_between(p, "/status-pages/"@, "/edit"@) is Some {
        let rest = p.subrange(14, p.len() as int);
        assert(p.subrange(p.len() - 5, p.len() as int)[0] == '/');
        assert(rest[p.len() - 5 - 14] == '/');
        assert(!segment(rest));
        assert(p.subrange(14, p.len() - 0) =~= rest);
    }
    if fixed_path(p) && p != "/status-pages/create"@ {
        if starts_with(p, "/status-pages/"@) {
            assert(p.len() >= 14);
            lemma_prefix_char(p, "/status-pages/"@, 13);
        }
    }
    if p == "/status-pages/create"@ {
        assert(p.subrange(p.len() - 5, p.len() as int)[0] == 'r');
    }
    if fixed_path(p) && starts_with(p, "/s/"@) {
        lemma_prefix_char(p, "/s/"@, 1);
        lemma_prefix_char(p, "/s/"@, 2);
    }
}

/// The page a path shows.
pub fn recognize(path: &str) -> (r: Route)
    ensures
        routes_to(path@, r),
        r is Monitors <==> path@ == "/"@,
        r is Create <==> path@ == "/create"@,
        r is Notifications <==> path@ == "/notifications"@,
        r is StatusPages <==> path@ == "/status-pages"@,
        r is CreateStatusPage <==> path@ == "/status-pages/create"@,
        r is MonitorDetail <==> param_between(path@, "/monitors/"@, ""@) is Some,
        r is StatusPageEdit <==> param_between(path@, "/status-pages/"@, "/edit"@) is Some,
        r is StatusPageDetail <==> (path@ != "/status-pages/create"@ && param_between(
            path@,
            "/status-pages/"@,
            ""@,
        ) is Some),
        r is PublicStatus <==> param_between(path@, "/s/"@, ""@) is Some,
{
    proof {
        reveal_strlit("/monitors/");
        reveal_strlit("/status-pages/");
        reveal_strlit("/s/");
        reveal_strlit("/edit");
        reveal_strlit("");
        reveal_strlit("/");
        reveal_strlit("/create");
        reveal_strlit("/notifications");
        reveal_strlit("/status-pages");
        reveal_strlit("/status-pages/create");
        assert(path@.subrange(path@.len() as int, path@.len() as int) =~= ""@);
        lemma_patterns_exclusive(path@);
    }
    let p = path;
    let n = p.unicode_len();
    if str_eq(p, "/") {
        return Route::Monitors;
    }
    if str_eq(p, "/create") {
        return Route::Create;
    }
    if str_eq(p, "/notifications") {
        return Route::Notifications;
    }
    if str_eq(p, "/status-pages") {
        return Route::StatusPages;
    }
    if str_eq(p, "/status-pages/create") {
        return Route::CreateStatusPage;
    }
    if has_prefix(p, "/monitors/") {
        let rest = p.substring_char(10, n);
        if is_segment(rest) {
            return Route::MonitorDetail { id: rest.to_owned() };
        }
    }
    if has_prefix(p, "/status-pages/") {
        if ends_with_edit(p) && n >= 19 {
            let mid = p.substring_char(14, n - 5);
            if is_segment(mid) {
                return Route::StatusPageEdit { id: mid.to_owned() };
            }
        }
        let rest = p.substring_char(14, n);
        if is_segment(rest) {
            return Route::StatusPageDetail { id: rest.to_owned() };
        }
    }
    if has_prefix(p, "/s/") {
        let rest = p.substring_char(3, n);
        if is_segment(rest) {
            return Route::PublicStatus { slug: rest.to_owned() };
        }
    }
    Route::NotFound
}

/// The path of a page, as links write it.
pub open spec fn spec_path(r: Route) -> Seq<char> {
    match r {
        Route::Monitors => "/"@,
        Route::MonitorDetail { id } => "/monitors/"@ + id@,
        Route::Create => "/create"@,
        Route::Notifications => "/notifications"@,
        Route::StatusPages => "/status-pages"@,
        Route::CreateStatusPage => "/status-pages/create"@,
        Route::StatusPageEdit { id } => "/status-pages/"@ + id@ + "/edit"@,
        Route::StatusPageDetail { id } => "/status-pages/"@ + id@,
        Route::PublicStatus { slug } => "/s/"@ + slug@,
        Route::NotFound => "/404"@,
    }
}

/// The path of a page.
pub fn route_path(r: &Route) -> (s: String)
    ensures
        s@ == spec_path(*r),
{
    match r {
        Route::Monitors => String::from_str("/"),
        Route::MonitorDetail { id } => {
            let mut s = String::from_str("/monitors/");
            push_str(&mut s, id.as_str());
            s
        },
        Route::Create => String::from_str("/create"),
        Route::Notifications => String::from_str("/notifications"),
        Route::StatusPages => String::from_str("/status-pages"),
        Route::CreateStatusPage => String::from_str("/status-pages/create"),
        Route::StatusPageEdit { id } => {
            let mut s = String::from_str("/status-pages/");
            push_str(&mut s, id.as_str());
            push_str(&mut s, "/edit");
            s
        },
        Route::StatusPageDetail { id } => {
            let mut s = String::from_str("/status-pages/");
            push_str(&mut s, id.as_str());
            s
        },
        Route::PublicStatus { slug } => {
            let mut s = String::from_str("/s/");
            push_str(&mut s, slug.as_str());
            s
        },
        Route::NotFound => String::from_str("/404"),
    }
}

/// Whether the parameter of a page can be written into its path and read
/// back: one non-empty segment, and a status page id other than `create`
/// (whose path is the creation page's).
pub open spec fn path_params_ok(r: Route) -> bool {
    match r {
        Route::MonitorDetail { id } => segment(id@),
        Route::StatusPageEdit { id } => segment(id@),
        Route::StatusPageDetail { id } => segment(id@) && id@ != "create"@,
        Route::PublicStatus { slug } => segment(slug@),
        _ => true,
    }
}

/// A page's path leads back to the page: a link built for a page opens that
/// page, with the same parameter.
pub proof fn lemma_route_round_trip(r: Route)
    requires
        path_params_ok(r),
    ensures
        routes_to(spec_path(r), r),
{
    reveal_strlit("/");
    reveal_strlit("/monitors/");
    reveal_strlit("/status-pages/");
    reveal_strlit("/status-pages/create");
    reveal_strlit("/s/");
    reveal_strlit("/edit");
    reveal_strlit("");
    reveal_strlit("create");
    reveal_strlit("/404");
    reveal_strlit("/create");
    reveal_strlit("/notifications");
    reveal_strlit("/status-pages");
    let p = spec_path(r);
    assert(p.subrange(p.len() as int, p.len() as int) =~= ""@);
    match r {
        Route::MonitorDetail { id } => {
            assert(p.subrange(0, 10) =~= "/monitors/"@);
            assert(p.subrange(10, p.len() as int) =~= id@);
        },
        Route::StatusPageEdit { id } => {
            assert(p.subrange(0, 14) =~= "/status-pages/"@);
            assert(p.subrange(p.len() - 5, p.len() as int) =~= "/edit"@);
            assert(p.subrange(14, p.len() - 5) =~= id@);
        },
        Route::StatusPageDetail { id } => {
            assert(p.subrange(0, 14) =~= "/status-pages/"@);
            assert(p.subrange(14, p.len() as int) =~= id@);
            if p == "/status-pages/create"@ {
                assert(id@ =~= "/status-pages/create"@.subrange(14, 20));
                assert("/status-pages/create"@.subrange(14, 20) =~= "create"@);
            }
        },
        Route::PublicStatus { slug } => {
            assert(p.subrange(0, 3) =~= "/s/"@);
            assert(p.subrange(3, p.len() as int) =~= slug@);
        },
        Route::NotFound => {
            assert(p[1] == '4');
            assert(!starts_with(p, "/s/"@)) by {
                assert(p.subrange(0, 3)[1] != "/s/"@[1]);
            }
        },
        _ => {},
    }
}

/// Whether a page is public: only public status pages are shown without
/// signing in.
pub fn is_public(r: &Route) -> (b: bool)
    ensures
        b == (*r is PublicStatus),
{
    match r {
        Route::PublicStatus { .. } => true,
        _ => false,
    }
}

/// What the sign-in guard shows.
#[derive(Debug, Clone, PartialEq, Eq)]
pub enum GuardView {
    /// Nothing yet: the session is being checked.
    Pending,
    /// The requested page.
    Page(Route),
    /// The sign-in page.
    Login,
}

/// What the app shows for `route` while the session check has answered
/// `authed` (nothing yet, signed in, or not): public pages are shown at once,
/// other pages only to a signed-in user, who is otherwise asked to sign in.
pub fn guard_view(route: Route, authed: Option<bool>) -> (v: GuardView)
    ensures
        route is PublicStatus ==> v == GuardView::Page(route),
        !(route is PublicStatus) ==> v == (match authed {
            None => GuardView::Pending,
            Some(true) => GuardView::Page(route),
            Some(false) => GuardView::Login,
        }),
{
    if is_public(&route) {
        return GuardView::Page(route);
    }
    match authed {
        None => GuardView::Pending,
        Some(true) => GuardView::Page(route),
        Some(false) => GuardView::Login,
    }
}

} // verus!
