//! Host registration: the id a reporting host goes by.

use vstd::prelude::*;

verus! {

/// The 128-bit value of the UUID that text `s` spells, if it spells one.
pub uninterp spec fn parsed_uuid(s: Seq<char>) -> Option<u128>;

/// Whether `id` has the marks of a random UUID: version 4, RFC 4122 variant.
pub open spec fn is_random_uuid(id: u128) -> bool {
    (id >> 76u128) & 0xfu128 == 4 && (id >> 62u128) & 0x3u128 == 2
}

/// Relies on uuid's `Uuid::parse_str`, read by `Uuid::as_u128`: whether the
/// text is a UUID in one of the forms the crate accepts, and its value. The
/// result depends on the text alone.
#[verifier::external_body]
fn parse_uuid(s: &str) -> (r: Option<u128>)
    ensures
        r == parsed_uuid(s@),
{
    match uuid::Uuid::parse_str(s) {
        Ok(u) => Some(u.as_u128()),
        Err(_) => None,
    }
}

/// Relies on uuid's `Uuid::new_v4`, read by `Uuid::as_u128`: a random UUID,
/// whose version bits say 4 and whose variant bits say RFC 4122.
#[verifier::external_body]
fn random_uuid() -> (r: u128)
    ensures
        is_random_uuid(r),
{
    uuid::Uuid::new_v4().as_u128()
}

/// The id parsed from a host's own id where there is one, else a fresh random one.
pub fn known_or_fresh(parsed: Option<u128>) -> (r: u128)
    ensures
        parsed is Some ==> r == parsed->0,
        parsed is None ==> is_random_uuid(r),
{
    match parsed {
        Some(id) => id,
        None => random_uuid(),
    }
}

/// The id a host goes by: the id it already has, if that is a well-formed
/// UUID, else a fresh random one.
pub fn register_host(project_id: u64, existing_id: &Option<String>, service_name: &String) -> (r: u128)
    ensures
        match existing_id {
            Some(s) if parsed_uuid(s@) is Some => r == parsed_uuid(s@)->0,
            _ => is_random_uuid(r),
        },
{
    match existing_id {
        Some(s) => known_or_fresh(parse_uuid(s.as_str())),
        None => known_or_fresh(None),
    }
}

} // verus!
