use vstd::prelude::*;
use crate::error::ApiError;
use crate::strings::{utf8_len, utf8_len_exceeds};

verus! {

/// A character a slug may hold: a lowercase ASCII letter, a digit, `-` or `_`.
pub open spec fn slug_char(c: char) -> bool {
    ('a' <= c <= 'z') || ('0' <= c <= '9') || c == '-' || c == '_'
}

/// An ASCII letter or digit (either case).
pub open spec fn ascii_alphanumeric(c: char) -> bool {
    ('a' <= c <= 'z') || ('A' <= c <= 'Z') || ('0' <= c <= '9')
}

/// Whether the characters of a slug are acceptable: it starts with an ASCII
/// letter or digit and holds only lowercase letters, digits, `-` and `_`.
pub open spec fn slug_chars_ok(s: Seq<char>) -> bool {
    &&& s.len() > 0
    &&& ascii_alphanumeric(s[0])
    &&& forall|i: int| 0 <= i < s.len() ==> slug_char(#[trigger] s[i])
}

/// Checks a status page slug: 1 to 100 bytes, lowercase alphanumeric with
/// hyphens or underscores, starting with a letter or digit.
pub fn validate_slug(slug: &str) -> (r: Result<(), ApiError>)
    ensures
        (slug@.len() == 0 || utf8_len(slug@) > 100) ==> (r matches Err(ApiError::BadRequest(m))
            && m@ == "Slug must be between 1 and 100 characters"@),
        !(slug@.len() == 0 || utf8_len(slug@) > 100) && !slug_chars_ok(slug@) ==> (r matches Err(
            ApiError::BadRequest(m),
        ) && m@
            == "Slug may only contain lowercase letters, digits, hyphens, and underscores, and must start with a letter or digit"@),
        r is Ok <==> (slug@.len() > 0 && utf8_len(slug@) <= 100 && slug_chars_ok(slug@)),
{
    if slug.is_empty() || utf8_len_exceeds(slug, 100) {
        return Err(
            ApiError::BadRequest(String::from_str("Slug must be between 1 and 100 characters")),
        );
    }
    let n = slug.unicode_len();
    let first = slug.get_char(0);
    let mut valid = ('a' <= first && first <= 'z') || ('A' <= first && first <= 'Z') || ('0'
        <= first && first <= '9');
    let mut i: usize = 0;
    while i < n
        invariant
            n == slug@.len(),
            i <= n,
            valid == (ascii_alphanumeric(slug@[0]) && forall|k: int|
                0 <= k < i ==> slug_char(#[trigger] slug@[k])),
        decreases n - i,
    {
        let c = slug.get_char(i);
        if !(('a' <= c && c <= 'z') || ('0' <= c && c <= '9') || c == '-' || c == '_') {
            valid = false;
        }
        i = i + 1;
    }
    if !valid {
        return Err(
            ApiError::BadRequest(
                String::from_str(
                    "Slug may only contain lowercase letters, digits, hyphens, and underscores, and must start with a letter or digit",
                ),
            ),
        );
    }
    Ok(())
}

/// The editable fields of a status page.
#[derive(Debug, Clone, PartialEq, Eq)]
pub struct StatusPageFields {
    pub name: String,
    pub description: Option<String>,
    pub slug: String,
    pub refresh_interval: u32,
}

/// A partial update of a status page; absent fields are kept.
#[derive(Debug, Clone, PartialEq, Eq)]
pub struct UpdateStatusPageRequest {
    pub name: Option<String>,
    pub description: Option<String>,
    pub slug: Option<String>,
    pub refresh_interval: Option<u32>,
}

/// The request to create a status page.
#[derive(Debug, Clone, PartialEq, Eq)]
pub struct CreateStatusPageRequest {
    pub name: String,
    pub description: Option<String>,
    pub slug: String,
    pub refresh_interval: Option<u32>,
}

/// Seconds between refreshes of a public status page when none is given.
pub const DEFAULT_REFRESH_INTERVAL: u32 = 60;

/// The fields a new status page is stored with: the refresh interval
/// defaults to sixty seconds.
pub fn new_status_page_fields(input: CreateStatusPageRequest) -> (r: StatusPageFields)
    ensures
        r.name == input.name,
        r.description == input.description,
        r.slug == input.slug,
        r.refresh_interval == (match input.refresh_interval {
            Some(v) => v,
            None => 60,
        }),
{
    StatusPageFields {
        name: input.name,
        description: input.description,
        slug: input.slug,
        refresh_interval: match input.refresh_interval {
            Some(v) => v,
            None => DEFAULT_REFRESH_INTERVAL,
        },
    }
}

/// A status page's fields after an update: absent fields are kept, and an
/// empty description clears the description.
pub open spec fn merged_status_page(existing: StatusPageFields, input: UpdateStatusPageRequest) -> StatusPageFields {
    StatusPageFields {
        name: match input.name {
            Some(n) => n,
            None => existing.name,
        },
        description: match input.description {
            Some(d) => if d@.len() == 0 {
                None
            } else {
                Some(d)
            },
            None => existing.description,
        },
        slug: match input.slug {
            Some(s) => s,
            None => existing.slug,
        },
        refresh_interval: match input.refresh_interval {
            Some(v) => v,
            None => existing.refresh_interval,
        },
    }
}

/// Applies an update to a status page: absent fields are kept, and an empty
/// description clears the description.
pub fn merge_status_page_update(existing: StatusPageFields, input: UpdateStatusPageRequest) -> (r:
    StatusPageFields)
    ensures
        r == merged_status_page(existing, input),
{
    let name = match input.name {
        Some(n) => n,
        None => existing.name,
    };
    let description = match input.description {
        Some(d) => if d.as_str().is_empty() {
            None
        } else {
            Some(d)
        },
        None => existing.description,
    };
    let slug = match input.slug {
        Some(s) => s,
        None => existing.slug,
    };
    let refresh_interval = match input.refresh_interval {
        Some(v) => v,
        None => existing.refresh_interval,
    };
    StatusPageFields { name, description, slug, refresh_interval }
}

/// An update that sets nothing leaves a status page as it was, and applying
/// the same update twice is applying it once.
pub proof fn lemma_status_page_update_laws(existing: StatusPageFields, input: UpdateStatusPageRequest)
    ensures
        merged_status_page(
            existing,
            UpdateStatusPageRequest {
                name: None,
                description: None,
                slug: None,
                refresh_interval: None,
            },
        ) == existing,
        merged_status_page(merged_status_page(existing, input), input) == merged_status_page(
            existing,
            input,
        ),
{
}

/// Each field a status page update sets takes the value it is set to (an
/// empty description clears the description), and each field it leaves out
/// keeps the value it had.
pub proof fn lemma_status_page_update_sets_fields(
    existing: StatusPageFields,
    input: UpdateStatusPageRequest,
)
    ensures
        ({
            let r = merged_status_page(existing, input);
            &&& input.name matches Some(v) ==> r.name == v
            &&& input.name is None ==> r.name == existing.name
            &&& input.description matches Some(d) ==> (d@.len() == 0 ==> r.description is None)
                && (d@.len() > 0 ==> r.description == Some(d))
            &&& input.description is None ==> r.description == existing.description
            &&& input.slug matches Some(v) ==> r.slug == v
            &&& input.slug is None ==> r.slug == existing.slug
            &&& input.refresh_interval matches Some(v) ==> r.refresh_interval == v
            &&& input.refresh_interval is None ==> r.refresh_interval == existing.refresh_interval
        }),
{
}

/// Checks the slug of an update, when it sets one: a slug that
/// [`validate_slug`] refuses is answered with the same bad request.
pub fn validate_update_slug(input: &UpdateStatusPageRequest) -> (r: Result<(), ApiError>)
    ensures
        input.slug is None ==> r is Ok,
        input.slug matches Some(s) ==> (r is Ok <==> (s@.len() > 0 && utf8_len(s@) <= 100
            && slug_chars_ok(s@))),
        input.slug matches Some(s) ==> ((s@.len() == 0 || utf8_len(s@) > 100) ==> (r matches Err(
            ApiError::BadRequest(m),
        ) && m@ == "Slug must be between 1 and 100 characters"@)),
        input.slug matches Some(s) ==> (!(s@.len() == 0 || utf8_len(s@) > 100) && !slug_chars_ok(
            s@,
        ) ==> (r matches Err(ApiError::BadRequest(m)) && m@
            == "Slug may only contain lowercase letters, digits, hyphens, and underscores, and must start with a letter or digit"@)),
{
    match &input.slug {
        Some(s) => validate_slug(s.as_str()),
        None => Ok(()),
    }
}

} // verus!
