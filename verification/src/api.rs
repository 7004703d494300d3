//! Refusals, and the checks that requests have to pass.

use vstd::prelude::*;

use crate::coordinates::{is_latitude, is_longitude, law_ranges_end_at_their_limits, within};
use crate::header::{header_text, text_in};
use crate::records::LocationRequest;
use crate::text::{begins_with, same_text, strip_prefix, trim, trimmed};

verus! {

/// What a refused request is answered: an HTTP status and a message.
pub struct Refusal {
    pub status: int,
    pub message: Seq<char>,
}

/// The answer to a refused request.
#[derive(Debug)]
pub struct ApiError {
    pub status: u16,
    pub message: String,
}

impl View for ApiError {
    type V = Refusal;

    open spec fn view(&self) -> Refusal {
        Refusal { status: self.status as int, message: self.message@ }
    }
}

impl DeepView for ApiError {
    type V = Refusal;

    open spec fn deep_view(&self) -> Refusal {
        self.view()
    }
}

/// The refusal of a request that does not show who makes it.
pub open spec fn unauthorized(message: Seq<char>) -> Refusal {
    Refusal { status: 401, message }
}

/// The refusal of a request that asks for something that is not allowed.
pub open spec fn bad_request(message: Seq<char>) -> Refusal {
    Refusal { status: 400, message }
}

/// The refusal of a request for something that does not exist.
pub open spec fn not_found(message: Seq<char>) -> Refusal {
    Refusal { status: 404, message }
}

/// The refusal of a request that the server failed to serve.
pub open spec fn internal(message: Seq<char>) -> Refusal {
    Refusal { status: 500, message }
}

impl ApiError {
    pub fn unauthorized(message: &str) -> (r: ApiError)
        ensures
            r@ == unauthorized(message@),
    {
        ApiError { status: 401, message: message.to_owned() }
    }

    pub fn bad_request(message: &str) -> (r: ApiError)
        ensures
            r@ == bad_request(message@),
    {
        ApiError { status: 400, message: message.to_owned() }
    }

    pub fn not_found(message: &str) -> (r: ApiError)
        ensures
            r@ == not_found(message@),
    {
        ApiError { status: 404, message: message.to_owned() }
    }

    pub fn internal(message: &str) -> (r: ApiError)
        ensures
            r@ == internal(message@),
    {
        ApiError { status: 500, message: message.to_owned() }
    }
}

/// The body of the answer to a refused request.
#[derive(Debug)]
pub struct ErrorResponse {
    pub error: String,
}

impl ErrorResponse {
    pub fn new(message: &str) -> (r: ErrorResponse)
        ensures
            r.error@ == message@,
    {
        ErrorResponse { error: message.to_owned() }
    }
}

/// What the server answers to whoever asks whether it runs.
#[derive(Debug)]
pub struct Health {
    pub ok: bool,
    pub name: &'static str,
}

/// The answer of a server that runs.
pub fn health() -> (r: Health)
    ensures
        r.ok,
        r.name@ == "guideng"@,
{
    Health { ok: true, name: "guideng" }
}

/// Whether a device may have this name: trimmed, it has 1 to 64 characters.
pub open spec fn is_name(name: Seq<char>) -> bool {
    1 <= trimmed(name).len() <= 64
}

/// Whether devices may be swept after this many days.
pub open spec fn is_days(days: int) -> bool {
    1 <= days <= 36500
}

/// Whether a report names a place on the globe.
pub open spec fn is_place(request: LocationRequest) -> bool {
    within(request.reading.latitude, 90) && within(request.reading.longitude, 180)
}

/// Checks the name of a device.
pub fn validate_name(name: &str) -> (r: Result<(), ApiError>)
    ensures
        match r {
            Ok(_) => is_name(name@),
            Err(e) => !is_name(name@) && e@ == bad_request("device name must be 1-64 characters"@),
        },
{
    let bare = trim(name);
    let size: usize = bare.as_str().unicode_len();
    if size == 0 || size > 64 {
        return Err(ApiError::bad_request("device name must be 1-64 characters"));
    }
    Ok(())
}

/// Checks a number of days after which devices are swept.
pub fn validate_days(days: i64) -> (r: Result<i64, ApiError>)
    ensures
        match r {
            Ok(same) => is_days(days as int) && same == days,
            Err(e) => !is_days(days as int) && e@ == bad_request(
                "days must be between 1 and 36500"@,
            ),
        },
{
    if days < 1 || days > 36500 {
        return Err(ApiError::bad_request("days must be between 1 and 36500"));
    }
    Ok(days)
}

/// Checks the coordinates of a report.
pub fn validate_location(payload: &LocationRequest) -> (r: Result<(), ApiError>)
    ensures
        match r {
            Ok(_) => is_place(*payload),
            Err(e) => !is_place(*payload) && e@ == bad_request("invalid coordinates"@),
        },
{
    if !is_latitude(payload.reading.latitude) || !is_longitude(payload.reading.longitude) {
        return Err(ApiError::bad_request("invalid coordinates"));
    }
    Ok(())
}

/// The token that a request brings: the one behind `Bearer ` in its
/// `Authorization` header; where there is none there, the one in its
/// `X-Guideng-Token` header.
pub open spec fn provided_token(
    authorization: Option<Seq<char>>,
    custom: Option<Seq<char>>,
) -> Option<Seq<char>> {
    match authorization {
        Some(value) if begins_with(value, "Bearer "@) => Some(
            value.skip("Bearer "@.len() as int),
        ),
        _ => custom,
    }
}

/// Lets a request to the API pass if one of its two headers brings the token of
/// the server.
pub fn auth(token: &str, authorization: Option<&[u8]>, custom: Option<&[u8]>) -> (r: Result<
    (),
    ApiError,
>)
    ensures
        match r {
            Ok(_) => provided_token(text_in(authorization), text_in(custom)) == Some(token@),
            Err(e) => provided_token(text_in(authorization), text_in(custom)) != Some(token@) && e@
                == unauthorized("invalid token"@),
        },
{
    let bearer = match header_text(authorization) {
        Some(value) => strip_prefix(value.as_str(), "Bearer "),
        None => None,
    };
    let provided = match bearer {
        Some(value) => Some(value),
        None => header_text(custom),
    };
    let allowed = match provided {
        Some(value) => same_text(value.as_str(), token),
        None => false,
    };
    if allowed {
        Ok(())
    } else {
        Err(ApiError::unauthorized("invalid token"))
    }
}

/// A request brings its token in either header. The one in `Authorization`
/// counts whatever the other header holds; the one in `X-Guideng-Token` counts
/// unless `Authorization` holds one too.
pub proof fn law_either_header_will_do(token: Seq<char>, other: Option<Seq<char>>)
    ensures
        provided_token(Some("Bearer "@ + token), other) == Some(token),
        !(other matches Some(value) && begins_with(value, "Bearer "@)) ==> provided_token(
            other,
            Some(token),
        ) == Some(token),
{
    let value = "Bearer "@ + token;
    assert(value.take("Bearer "@.len() as int) == "Bearer "@);
    assert(value.skip("Bearer "@.len() as int) == token);
}

/// Each refusal has its status and hands its message on.
pub proof fn law_refusals_have_their_status(message: Seq<char>)
    ensures
        unauthorized(message).status == 401 && unauthorized(message).message == message,
        bad_request(message).status == 400 && bad_request(message).message == message,
        not_found(message).status == 404 && not_found(message).message == message,
        internal(message).status == 500 && internal(message).message == message,
{
}

/// The view of a refusal holds its status and its message.
pub proof fn law_view_of_a_refusal_is_whole(error: ApiError)
    ensures
        error@.status == error.status,
        error@.message == error.message@,
{
}

/// A request that brings its token in neither header brings none.
pub proof fn law_no_header_no_token(authorization: Option<Seq<char>>, custom: Option<Seq<char>>)
    requires
        custom is None,
        forall|rest: Seq<char>| authorization != Some(#[trigger] ("Bearer "@ + rest)),
    ensures
        provided_token(authorization, custom) is None,
{
    match authorization {
        Some(value) => {
            if begins_with(value, "Bearer "@) {
                let rest = value.skip("Bearer "@.len() as int);
                assert(value == "Bearer "@ + rest);
            }
        },
        None => {},
    }
}

/// A name may be given to a device exactly where 1 to 64 characters are left of
/// it without the white space at its ends; devices may be swept after 1 to 36500
/// days; and a report names a place exactly where its latitude lies within 90
/// degrees and its longitude within 180, whatever else it holds.
pub proof fn law_limits_of_requests(name: Seq<char>, days: int, request: LocationRequest)
    ensures
        is_name(name) <==> 1 <= trimmed(name).len() <= 64,
        is_days(days) <==> 1 <= days <= 36500,
        is_place(request) <==> request.reading.latitude % 0x8000_0000_0000_0000
            <= 0x4056_8000_0000_0000 && request.reading.longitude % 0x8000_0000_0000_0000
            <= 0x4066_8000_0000_0000,
{
    law_ranges_end_at_their_limits(request.reading.latitude);
    law_ranges_end_at_their_limits(request.reading.longitude);
}

} // verus!
