use vstd::prelude::*;

verus! {

/// `t` without all of its leading `/` characters.
pub open spec fn strip_slashes(t: Seq<char>) -> Seq<char>
    decreases t.len(),
{
    if t.len() > 0 && t[0] == '/' {
        strip_slashes(t.drop_first())
    } else {
        t
    }
}

/// The embedded asset a request path asks for: the path without its leading
/// slashes, and `index.html` for the root.
pub fn asset_path(uri_path: &str) -> (r: String)
    ensures
        strip_slashes(uri_path@).len() == 0 ==> r@ == "index.html"@,
        strip_slashes(uri_path@).len() > 0 ==> r@ == strip_slashes(uri_path@),
{
    let n = uri_path.unicode_len();
    let mut i: usize = 0;
    assert(uri_path@.skip(0) =~= uri_path@);
    while i < n && uri_path.get_char(i) == '/'
        invariant
            n == uri_path@.len(),
            i <= n,
            strip_slashes(uri_path@.skip(i as int)) == strip_slashes(uri_path@),
        decreases n - i,
    {
        assert(uri_path@.skip(i as int).drop_first() =~= uri_path@.skip(i as int + 1));
        i = i + 1;
    }
    let rest = uri_path.substring_char(i, n);
    assert(rest@ =~= uri_path@.skip(i as int));
    if rest.is_empty() {
        String::from_str("index.html")
    } else {
        rest.to_owned()
    }
}

} // verus!
