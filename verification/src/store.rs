use vstd::prelude::*;
use crate::error::ApiError;
use crate::ids::{hyphenated, uuid_to_string};
use crate::text::push_str;

verus! {

/// Why a write to the database failed.
#[derive(Debug, Clone, PartialEq, Eq)]
pub enum WriteFailure {
    /// A unique constraint refused the row.
    UniqueViolation,
    /// Any other database error, with its text.
    Other(String),
}

/// The error that answers a database failure that no rule names: an internal
/// error carrying the database's text.
pub open spec fn is_internal_error(msg: Seq<char>, e: ApiError) -> bool {
    e matches ApiError::InternalServerError(m) && m@ == msg
}

/// The error for a failed write of a status page with slug `slug`: a taken
/// slug is the client's mistake.
pub fn status_page_write_error(failure: WriteFailure, slug: &str) -> (r: ApiError)
    ensures
        match failure {
            WriteFailure::UniqueViolation => r matches ApiError::BadRequest(m) && m@ == "slug '"@
                + slug@ + "' is already taken"@,
            WriteFailure::Other(msg) => is_internal_error(msg@, r),
        },
{
    match failure {
        WriteFailure::UniqueViolation => {
            let mut m = String::from_str("slug '");
            push_str(&mut m, slug);
            push_str(&mut m, "' is already taken");
            ApiError::BadRequest(m)
        },
        WriteFailure::Other(msg) => ApiError::InternalServerError(msg),
    }
}

/// The error for a failed addition of monitor `monitor_id` to a status page:
/// the monitor may be on the page already.
pub fn page_monitor_write_error(failure: WriteFailure, monitor_id: u128) -> (r: ApiError)
    ensures
        match failure {
            WriteFailure::UniqueViolation => r matches ApiError::BadRequest(m) && m@ == "monitor "@
                + hyphenated(monitor_id) + " is already on this status page"@,
            WriteFailure::Other(msg) => is_internal_error(msg@, r),
        },
{
    match failure {
        WriteFailure::UniqueViolation => {
            let mut m = String::from_str("monitor ");
            push_str(&mut m, uuid_to_string(monitor_id).as_str());
            push_str(&mut m, " is already on this status page");
            ApiError::BadRequest(m)
        },
        WriteFailure::Other(msg) => ApiError::InternalServerError(msg),
    }
}

/// The error for a failed link of monitor `monitor_id` to channel
/// `channel_id`: the two may be linked already.
pub fn link_write_error(failure: WriteFailure, monitor_id: u128, channel_id: u128) -> (r: ApiError)
    ensures
        match failure {
            WriteFailure::UniqueViolation => r matches ApiError::BadRequest(m) && m@ == "monitor "@
                + hyphenated(monitor_id) + " is already linked to channel "@ + hyphenated(
                channel_id,
            ),
            WriteFailure::Other(msg) => is_internal_error(msg@, r),
        },
{
    match failure {
        WriteFailure::UniqueViolation => {
            let mut m = String::from_str("monitor ");
            push_str(&mut m, uuid_to_string(monitor_id).as_str());
            push_str(&mut m, " is already linked to channel ");
            push_str(&mut m, uuid_to_string(channel_id).as_str());
            ApiError::BadRequest(m)
        },
        WriteFailure::Other(msg) => ApiError::InternalServerError(msg),
    }
}

/// The answer to removing monitor `monitor_id` from status page `page_id`
/// once the database says how many rows it deleted: none means the monitor
/// was not on the page.
pub fn page_monitor_removed(rows_affected: u64, page_id: u128, monitor_id: u128) -> (r: Result<
    (),
    ApiError,
>)
    ensures
        rows_affected > 0 ==> r is Ok,
        rows_affected == 0 ==> (r matches Err(ApiError::NotFound(m)) && m@ == "monitor "@
            + hyphenated(monitor_id) + " is not on status page "@ + hyphenated(page_id)),
{
    if rows_affected > 0 {
        return Ok(());
    }
    let mut m = String::from_str("monitor ");
    push_str(&mut m, uuid_to_string(monitor_id).as_str());
    push_str(&mut m, " is not on status page ");
    push_str(&mut m, uuid_to_string(page_id).as_str());
    Err(ApiError::NotFound(m))
}

/// The answer to unlinking monitor `monitor_id` from channel `channel_id`
/// once the database says how many rows it deleted: none means there was no
/// such link.
pub fn link_removed(rows_affected: u64, monitor_id: u128, channel_id: u128) -> (r: Result<
    (),
    ApiError,
>)
    ensures
        rows_affected > 0 ==> r is Ok,
        rows_affected == 0 ==> (r matches Err(ApiError::NotFound(m)) && m@
            == "no notification link between monitor "@ + hyphenated(monitor_id) + " and channel "@
            + hyphenated(channel_id)),
{
    if rows_affected > 0 {
        return Ok(());
    }
    let mut m = String::from_str("no notification link between monitor ");
    push_str(&mut m, uuid_to_string(monitor_id).as_str());
    push_str(&mut m, " and channel ");
    push_str(&mut m, uuid_to_string(channel_id).as_str());
    Err(ApiError::NotFound(m))
}

/// What a lookup by id can miss.
#[derive(Debug, Clone, Copy, PartialEq, Eq, Structural)]
pub enum Entity {
    Monitor,
    Incident,
    NotificationChannel,
    StatusPage,
}

/// The name an entity goes by in error messages.
pub open spec fn entity_name(e: Entity) -> Seq<char> {
    match e {
        Entity::Monitor => "monitor"@,
        Entity::Incident => "incident"@,
        Entity::NotificationChannel => "notification channel"@,
        Entity::StatusPage => "status page"@,
    }
}

/// The error for a lookup of `entity` with id `id` that found no row.
pub fn not_found(entity: Entity, id: u128) -> (r: ApiError)
    ensures
        r matches ApiError::NotFound(m) && m@ == entity_name(entity) + " "@ + hyphenated(id)
            + " not found"@,
{
    let mut m = String::from_str(match entity {
        Entity::Monitor => "monitor",
        Entity::Incident => "incident",
        Entity::NotificationChannel => "notification channel",
        Entity::StatusPage => "status page",
    });
    push_str(&mut m, " ");
    push_str(&mut m, uuid_to_string(id).as_str());
    push_str(&mut m, " not found");
    ApiError::NotFound(m)
}

/// The error for a public status page slug that names no page.
pub fn slug_not_found(slug: &str) -> (r: ApiError)
    ensures
        r matches ApiError::NotFound(m) && m@ == "status page '"@ + slug@ + "' not found"@,
{
    let mut m = String::from_str("status page '");
    push_str(&mut m, slug);
    push_str(&mut m, "' not found");
    ApiError::NotFound(m)
}

/// The error for a session whose user no longer exists.
pub fn user_not_found() -> (r: ApiError)
    ensures
        r matches ApiError::NotFound(m) && m@ == "user not found"@,
{
    ApiError::NotFound(String::from_str("user not found"))
}

} // verus!
