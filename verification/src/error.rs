//! The SCIM error envelope, RFC 7644 section 3.12.
//!
//! Every error that leaves the SCIM endpoints has this shape. Authentication
//! failures are uniform: whatever the cause, the caller gets the same 401 body.

use vstd::prelude::*;

use crate::json::{field, fields, one_text, Fields, Json, JsonView};
use crate::text::{decimal, decimal_text};

verus! {

pub const SCIM_ERROR_URN: &'static str = "urn:ietf:params:scim:api:messages:2.0:Error";

/// An HTTP status code.
#[derive(Clone, Copy, Debug, PartialEq, Eq, Structural)]
pub struct Status {
    pub code: u16,
}

/// What `rocket::http::Status::reason` returns for a status code.
pub uninterp spec fn reason_phrase(code: u16) -> Option<Seq<char>>;

/// `rocket::http::Status::reason`: the canonical reason phrase of a known
/// status code, `None` of any other code. No phrase is empty.
#[verifier::external_body]
fn canonical_reason(code: u16) -> (r: Option<&'static str>)
    ensures
        match r {
            Some(phrase) => reason_phrase(code) == Some(phrase@) && phrase@.len() > 0,
            None => reason_phrase(code) is None,
        },
{
    rocket::http::Status::new(code).reason()
}

impl Status {
    /// The canonical reason phrase, where the code has one.
    pub fn reason(&self) -> (r: Option<&'static str>)
        ensures
            match r {
                Some(phrase) => reason_phrase(self.code) == Some(phrase@) && phrase@.len() > 0,
                None => reason_phrase(self.code) is None,
            },
    {
        canonical_reason(self.code)
    }
}

/// An error answer.
#[derive(Debug)]
pub struct ScimError {
    pub status: Status,
    pub scim_type: Option<&'static str>,
    pub detail: String,
    /// Seconds for a Retry-After header: set on 429, so that a throttled client
    /// has something better than a guess to back off by.
    pub retry_after: Option<u64>,
}

/// The mathematical counterpart of [`ScimError`].
#[verifier::ext_equal]
pub ghost struct ScimErrorView {
    pub status: int,
    pub scim_type: Option<Seq<char>>,
    pub detail: Seq<char>,
    pub retry_after: Option<int>,
}

impl View for ScimError {
    type V = ScimErrorView;

    open spec fn view(&self) -> ScimErrorView {
        ScimErrorView {
            status: self.status.code as int,
            scim_type: match self.scim_type {
                Some(t) => Some(t@),
                None => None,
            },
            detail: self.detail@,
            retry_after: match self.retry_after {
                Some(seconds) => Some(seconds as int),
                None => None,
            },
        }
    }
}

impl ScimErrorView {
    /// An error without Retry-After.
    pub open spec fn plain(status: int, scim_type: Option<Seq<char>>, detail: Seq<char>) -> Self {
        ScimErrorView { status, scim_type, detail, retry_after: None }
    }

    pub open spec fn unauthorized() -> Self {
        Self::plain(401, None, "Unauthorized"@)
    }

    pub open spec fn too_many_requests(configured: int) -> Self {
        ScimErrorView {
            status: 429,
            scim_type: None,
            detail: "Too many requests"@,
            retry_after: Some(if configured > 1 { configured } else { 1 }),
        }
    }

    pub open spec fn conflict(scim_type: Seq<char>, detail: Seq<char>) -> Self {
        Self::plain(409, Some(scim_type), detail)
    }

    pub open spec fn payload_too_large() -> Self {
        Self::plain(413, None, "Payload too large"@)
    }

    pub open spec fn not_found() -> Self {
        Self::plain(404, None, "Resource not found"@)
    }

    pub open spec fn bad_request(scim_type: Seq<char>, detail: Seq<char>) -> Self {
        Self::plain(400, Some(scim_type), detail)
    }

    pub open spec fn not_implemented(detail: Seq<char>) -> Self {
        Self::plain(501, None, detail)
    }

    pub open spec fn internal() -> Self {
        Self::plain(500, None, "Internal server error"@)
    }

    pub open spec fn from_status(code: u16, configured: int) -> Self {
        if code == 429 {
            Self::too_many_requests(configured)
        } else {
            Self::plain(
                code as int,
                None,
                match reason_phrase(code) {
                    Some(phrase) => phrase,
                    None => "Request failed"@,
                },
            )
        }
    }

    /// Where the optional parts of an error stand: scimType on a 400, and on a 409 for
    /// `uniqueness` alone; Retry-After on 429 and nowhere else, with a usable delay.
    pub open spec fn well_typed(self) -> bool {
        &&& self.scim_type matches Some(t) ==> self.status == 400 || (self.status == 409 && t
            == "uniqueness"@)
        &&& self.retry_after is Some <==> self.status == 429
        &&& self.retry_after matches Some(seconds) ==> seconds >= 1
    }

    /// What RFC 7644 section 3.12 asks of an error.
    pub open spec fn well_formed(self) -> bool {
        self.well_typed() && self.detail.len() > 0
    }

    /// The JSON body of the error.
    pub open spec fn envelope(self) -> JsonView {
        let members = fields().push(field("schemas"@, one_text(SCIM_ERROR_URN@))).push(
            field("status"@, JsonView::Text(decimal_text(self.status as nat))),
        ).push(field("detail"@, JsonView::Text(self.detail)));
        JsonView::Object(
            match self.scim_type {
                Some(t) => members.push(field("scimType"@, JsonView::Text(t))),
                None => members,
            },
        )
    }
}

impl ScimError {
    fn new(code: u16, scim_type: Option<&'static str>, detail: &str) -> (r: Self)
        ensures
            r@ == ScimErrorView::plain(
                code as int,
                match scim_type {
                    Some(t) => Some(t@),
                    None => None,
                },
                detail@,
            ),
    {
        ScimError {
            status: Status { code },
            scim_type,
            detail: detail.to_owned(),
            retry_after: None,
        }
    }

    pub fn unauthorized() -> (r: Self)
        ensures
            r@ == ScimErrorView::unauthorized(),
    {
        Self::new(401, None, "Unauthorized")
    }

    /// A throttled request. `configured` is the server's refill period in seconds.
    pub fn too_many_requests(configured: u64) -> (r: Self)
        ensures
            r@ == ScimErrorView::too_many_requests(configured as int),
    {
        let seconds: u64 = if configured > 1 {
            configured
        } else {
            1
        };
        ScimError {
            status: Status { code: 429 },
            scim_type: None,
            detail: "Too many requests".to_owned(),
            retry_after: Some(seconds),
        }
    }

    pub fn conflict(scim_type: &'static str, detail: &str) -> (r: Self)
        ensures
            r@ == ScimErrorView::conflict(scim_type@, detail@),
    {
        Self::new(409, Some(scim_type), detail)
    }

    pub fn payload_too_large() -> (r: Self)
        ensures
            r@ == ScimErrorView::payload_too_large(),
    {
        Self::new(413, None, "Payload too large")
    }

    pub fn not_found() -> (r: Self)
        ensures
            r@ == ScimErrorView::not_found(),
    {
        Self::new(404, None, "Resource not found")
    }

    pub fn bad_request(scim_type: &'static str, detail: &str) -> (r: Self)
        ensures
            r@ == ScimErrorView::bad_request(scim_type@, detail@),
    {
        Self::new(400, Some(scim_type), detail)
    }

    pub fn not_implemented(detail: &str) -> (r: Self)
        ensures
            r@ == ScimErrorView::not_implemented(detail@),
    {
        Self::new(501, None, detail)
    }

    pub fn internal() -> (r: Self)
        ensures
            r@ == ScimErrorView::internal(),
    {
        Self::new(500, None, "Internal server error")
    }

    /// The envelope of a status that has no constructor of its own. The detail is
    /// the status's reason phrase, never request content.
    pub fn from_status(status: Status, configured: u64) -> (r: Self)
        ensures
            r@ == ScimErrorView::from_status(status.code, configured as int),
    {
        if status.code == 429 {
            return Self::too_many_requests(configured);
        }
        match status.reason() {
            Some(phrase) => Self::new(status.code, None, phrase),
            None => Self::new(status.code, None, "Request failed"),
        }
    }

    /// The JSON body of the error.
    pub fn body(&self) -> (r: Json)
        ensures
            r@ == self@.envelope(),
    {
        let members = Fields::new().with_one_text("schemas", SCIM_ERROR_URN).with_text(
            "status",
            decimal(self.status.code as u64).as_str(),
        ).with_text("detail", self.detail.as_str());
        match self.scim_type {
            Some(t) => members.with_text("scimType", t).done(),
            None => members.done(),
        }
    }
}

/// A media type.
#[derive(Clone, Copy, Debug)]
pub struct ContentType {
    pub top: &'static str,
    pub sub: &'static str,
}

/// The media type of every SCIM body, RFC 7644 section 3.1.
pub fn scim_content_type() -> (r: ContentType)
    ensures
        r.top@ == "application"@,
        r.sub@ == "scim+json"@,
{
    ContentType { top: "application", sub: "scim+json" }
}

/// Each constructor yields a well-formed error, provided that a bad request has
/// something to say and a conflict is a uniqueness conflict.
pub proof fn law_constructors_are_well_formed(
    scim_type: Seq<char>,
    detail: Seq<char>,
    configured: int,
)
    requires
        detail.len() > 0,
    ensures
        ScimErrorView::unauthorized().well_formed(),
        ScimErrorView::too_many_requests(configured).well_formed(),
        ScimErrorView::conflict("uniqueness"@, detail).well_formed(),
        ScimErrorView::payload_too_large().well_formed(),
        ScimErrorView::not_found().well_formed(),
        ScimErrorView::bad_request(scim_type, detail).well_formed(),
        ScimErrorView::not_implemented(detail).well_formed(),
        ScimErrorView::internal().well_formed(),
{
    reveal_strlit("Unauthorized");
    reveal_strlit("Too many requests");
    reveal_strlit("Payload too large");
    reveal_strlit("Resource not found");
    reveal_strlit("Internal server error");
}

/// The envelope names the error schema, carries the status as a text and the
/// detail as it is, and has a scimType exactly where the error has one.
pub proof fn law_envelope_is_readable(e: ScimErrorView)
    ensures
        e.envelope().get("schemas"@) == Some(one_text(SCIM_ERROR_URN@)),
        e.envelope().get("status"@) == Some(JsonView::Text(decimal_text(e.status as nat))),
        e.envelope().get("detail"@) == Some(JsonView::Text(e.detail)),
        e.envelope().get("scimType"@) == (match e.scim_type {
            Some(t) => Some(JsonView::Text(t)),
            None => None,
        }),
{
    reveal_strlit("schemas");
    reveal_strlit("status");
    reveal_strlit("detail");
    reveal_strlit("scimType");
    reveal_with_fuel(crate::json::first_named, 6);
    let members = e.envelope()->Object_0;
    assert("schemas"@.len() == 7 && "status"@.len() == 6 && "detail"@.len() == 6);
    assert("status"@[0] == 's' && "detail"@[0] == 'd');
    assert("scimType"@.len() == 8);
    let tail = members.drop_first();
    assert(tail[0] == members[1]);
    assert(tail.drop_first()[0] == members[2]);
    if e.scim_type is Some {
        assert(tail.drop_first().drop_first()[0] == members[3]);
    }
}

} // verus!
