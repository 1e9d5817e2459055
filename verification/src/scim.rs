//! What the SCIM endpoints share: limits, paging, response shapes and the error
//! answers of requests that no endpoint got to see.

use vstd::prelude::*;
use vstd::string::*;

use crate::discovery::LIST_RESPONSE_URN;
use crate::error::{ScimError, ScimErrorView, Status};
use crate::json::{field, fields, one_text, views, Fields, Json, JsonView};
use crate::text::{char_count, decimal, decimal_text, join3, optional};

verus! {

/// The acting user recorded in the event log for changes that come through SCIM.
///
/// It has the length of a UUID: a shorter actor would be padded by a fixed-width
/// column, and no longer be equal to this constant when read back.
pub const SCIM_ACTOR: &'static str = "vaultwarden-scim-000000-000000000000";

/// The page-size cap that is advertised, and that every list endpoint enforces.
pub const SCIM_MAX_RESULTS: usize = 200;

pub const SCIM_DEFAULT_PAGE_SIZE: i64 = 100;

/// The most member values that one Group write may carry.
pub const SCIM_MAX_GROUP_MEMBERS: usize = 1000;

/// The most member operations that one Group PATCH may carry. It is no smaller
/// than the cap on values, so that one operation per member stays possible.
pub const SCIM_MAX_GROUP_MEMBER_OPS: usize = 1000;

/// The longest externalId, in characters.
pub const SCIM_MAX_EXTERNAL_ID_LEN: usize = 300;

/// The longest displayName of a Group, in characters.
pub const SCIM_MAX_GROUP_NAME_LEN: usize = 100;

/// The longest userName, in characters.
pub const SCIM_MAX_EMAIL_LEN: usize = 255;

/// The longest displayName of a User, in characters.
pub const SCIM_MAX_DISPLAY_NAME_LEN: usize = 255;

/// The largest request body, in kibibytes.
pub const SCIM_BODY_LIMIT_KIB: u64 = 512;

/// The actor is as long as a UUID.
pub proof fn law_actor_fits_a_uuid_column()
    ensures
        SCIM_ACTOR@.len() == 36,
{
    reveal_strlit("vaultwarden-scim-000000-000000000000");
}

/// A page stays clear of the 999 parameters that a statement may bind in SQLite, so that the
/// accounts and the members of a whole page can be loaded at once.
pub proof fn law_pages_fit_one_statement(count: Option<i64>)
    ensures
        0 <= page_size(count) <= SCIM_MAX_RESULTS < 900,
{
}

/// The error of an attribute that is too long.
pub open spec fn too_long(name: Seq<char>, max: nat) -> ScimErrorView {
    ScimErrorView::bad_request(
        "invalidValue"@,
        name + " must be at most "@ + decimal_text(max) + " characters"@,
    )
}

/// Rejects an over-long attribute before it reaches a column that would decide
/// the outcome. Counted in characters, not bytes, as the column limits are.
pub fn check_attribute_len(name: &str, value: &str, max: usize) -> (r: Result<(), ScimError>)
    ensures
        match r {
            Ok(_) => value@.len() <= max,
            Err(e) => value@.len() > max && e@ == too_long(name@, max as nat),
        },
{
    if char_count(value) > max {
        let mut detail = join3(name, " must be at most ", decimal(max as u64).as_str());
        detail.append(" characters");
        return Err(ScimError::bad_request("invalidValue", detail.as_str()));
    }
    Ok(())
}

/// The 1-based index that a list request starts at: absent, zero and negative
/// values all become 1, as does one that no machine word holds.
pub open spec fn first_index(start_index: Option<i64>) -> int {
    match start_index {
        Some(n) => if 1 <= n <= usize::MAX {
            n as int
        } else {
            1
        },
        None => 1,
    }
}

/// How many resources a list request may get: a negative count collapses to 0,
/// and anything above the cap is cut.
pub open spec fn page_size(count: Option<i64>) -> int {
    match count {
        Some(n) => if n < 0 || n > usize::MAX {
            0
        } else if n > SCIM_MAX_RESULTS {
            SCIM_MAX_RESULTS as int
        } else {
            n as int
        },
        None => SCIM_DEFAULT_PAGE_SIZE as int,
    }
}

/// Clamps pagination parameters, RFC 7644 section 3.4.2.4.
pub fn page_bounds(start_index: Option<i64>, count: Option<i64>) -> (r: (usize, usize))
    ensures
        r.0 == first_index(start_index),
        r.1 == page_size(count),
        r.0 >= 1,
        r.1 <= SCIM_MAX_RESULTS,
{
    let start: usize = match start_index {
        Some(n) => if n >= 1 && n as u64 <= usize::MAX as u64 {
            n as usize
        } else {
            1
        },
        None => 1,
    };
    let size: usize = match count {
        Some(n) => if n < 0 || n as u64 > usize::MAX as u64 {
            0
        } else if n as usize > SCIM_MAX_RESULTS {
            SCIM_MAX_RESULTS
        } else {
            n as usize
        },
        None => 100,
    };
    (start, size)
}

/// The part of a list that a page shows.
pub open spec fn page_of<T>(items: Seq<T>, start: int, size: int) -> Seq<T> {
    let from = if start - 1 <= items.len() {
        start - 1
    } else {
        items.len() as int
    };
    let to = if from + size <= items.len() {
        from + size
    } else {
        items.len() as int
    };
    items.subrange(from, to)
}

/// Cuts the page out of a list.
pub fn page<T>(items: Vec<T>, start: usize, size: usize) -> (r: Vec<T>)
    requires
        start >= 1,
    ensures
        r@ == page_of(items@, start as int, size as int),
{
    let total: usize = items.len();
    let from: usize = if start - 1 <= total {
        start - 1
    } else {
        total
    };
    let to: usize = if size <= total - from {
        from + size
    } else {
        total
    };
    let mut rest = items;
    let mut tail = rest.split_off(from);
    let extra = tail.split_off(to - from);
    assert(tail@ =~= page_of(items@, start as int, size as int));
    tail
}

/// A page joins what came before it without a gap or an overlap: what came before a page, and
/// the page itself, are what comes before the next page.
pub proof fn law_pages_neither_skip_nor_repeat<T>(items: Seq<T>, start: int, size: int)
    requires
        1 <= start <= items.len() + 1,
        size >= 0,
    ensures
        items.take(start - 1) + page_of(items, start, size) == items.take(
            if start - 1 + size <= items.len() {
                start - 1 + size
            } else {
                items.len() as int
            },
        ),
        page_of(items, start, size).len() <= size,
        start - 1 + size <= items.len() ==> page_of(items, start, size).len() == size,
{
    let end = if start - 1 + size <= items.len() {
        start - 1 + size
    } else {
        items.len() as int
    };
    assert(items.take(start - 1) + page_of(items, start, size) =~= items.take(end));
}

/// The first pages of a list, joined.
pub open spec fn walked<T>(items: Seq<T>, size: int, pages: nat) -> Seq<T>
    decreases pages,
{
    if pages == 0 {
        Seq::empty()
    } else {
        walked(items, size, (pages - 1) as nat) + page_of(items, 1 + (pages - 1) * size, size)
    }
}

/// Walking a list page by page shows every item exactly once: the pages joined are the
/// beginning of the list, and all of it once they reach so far. A page is empty exactly where
/// the pages before it have shown everything.
pub proof fn law_walks_show_everything_once<T>(items: Seq<T>, size: int, pages: nat)
    requires
        size > 0,
    ensures
        walked(items, size, pages) == items.take(
            if pages * size <= items.len() {
                pages * size
            } else {
                items.len() as int
            },
        ),
        pages * size >= items.len() ==> walked(items, size, pages) == items,
        page_of(items, 1 + pages * size, size).len() == 0 <==> pages * size >= items.len(),
    decreases pages,
{
    assert(0 <= pages * size) by (nonlinear_arith)
        requires
            pages >= 0,
            size > 0,
    ;
    let end = if pages * size <= items.len() {
        pages * size
    } else {
        items.len() as int
    };
    if pages == 0 {
        assert(walked(items, size, pages) =~= items.take(0));
    } else {
        let earlier = (pages - 1) as nat;
        law_walks_show_everything_once(items, size, earlier);
        assert(earlier * size + size == pages * size && earlier * size >= 0) by (nonlinear_arith)
            requires
                earlier == pages - 1,
                pages >= 1,
                size > 0,
        ;
        assert(walked(items, size, pages) =~= items.take(end));
    }
    assert(items.take(items.len() as int) =~= items);
}

/// A JSON body that was accepted within the size limit.
pub struct ScimJson<T>(pub T);

/// What came of reading a request body.
pub enum BodyOutcome<T> {
    /// The body was read to its end and understood.
    Understood(T),
    /// The body was read to its end, but is no such value.
    Malformed,
    /// The body is larger than the limit.
    Truncated,
    /// The body could not be read.
    Unreadable,
}

impl<T> ScimJson<T> {
    /// Accepts a request body, or says why not.
    pub fn from_data(outcome: BodyOutcome<T>) -> (r: Result<ScimJson<T>, ScimError>)
        ensures
            match outcome {
                BodyOutcome::Understood(value) => r == Ok::<ScimJson<T>, ScimError>(
                    ScimJson(value),
                ),
                BodyOutcome::Malformed => r matches Err(e) && e@ == ScimErrorView::bad_request(
                    "invalidSyntax"@,
                    "Malformed SCIM body"@,
                ),
                BodyOutcome::Truncated => r matches Err(e) && e@
                    == ScimErrorView::payload_too_large(),
                BodyOutcome::Unreadable => r matches Err(e) && e@ == ScimErrorView::bad_request(
                    "invalidSyntax"@,
                    "Unreadable body"@,
                ),
            },
    {
        match outcome {
            BodyOutcome::Understood(value) => Ok(ScimJson(value)),
            BodyOutcome::Malformed => Err(
                ScimError::bad_request("invalidSyntax", "Malformed SCIM body"),
            ),
            BodyOutcome::Truncated => Err(ScimError::payload_too_large()),
            BodyOutcome::Unreadable => Err(
                ScimError::bad_request("invalidSyntax", "Unreadable body"),
            ),
        }
    }
}

/// A success answer.
#[derive(Debug)]
pub struct ScimResponse {
    pub status: Status,
    pub location: Option<String>,
    pub body: Option<Json>,
}

/// The mathematical counterpart of [`ScimResponse`].
#[verifier::ext_equal]
pub ghost struct ScimResponseView {
    pub status: int,
    pub location: Option<Seq<char>>,
    pub body: Option<JsonView>,
}

impl View for ScimResponse {
    type V = ScimResponseView;

    open spec fn view(&self) -> ScimResponseView {
        ScimResponseView {
            status: self.status.code as int,
            location: optional(self.location),
            body: match self.body {
                Some(body) => Some(body@),
                None => None,
            },
        }
    }
}

impl ScimResponseView {
    pub open spec fn ok(body: JsonView) -> Self {
        ScimResponseView { status: 200, location: None, body: Some(body) }
    }

    pub open spec fn created(location: Seq<char>, body: JsonView) -> Self {
        ScimResponseView { status: 201, location: Some(location), body: Some(body) }
    }

    pub open spec fn no_content() -> Self {
        ScimResponseView { status: 204, location: None, body: None }
    }
}

impl ScimResponse {
    pub fn ok(body: Json) -> (r: Self)
        ensures
            r@ == ScimResponseView::ok(body@),
    {
        ScimResponse { status: Status { code: 200 }, location: None, body: Some(body) }
    }

    pub fn created(location: String, body: Json) -> (r: Self)
        ensures
            r@ == ScimResponseView::created(location@, body@),
    {
        ScimResponse { status: Status { code: 201 }, location: Some(location), body: Some(body) }
    }

    pub fn no_content() -> (r: Self)
        ensures
            r@ == ScimResponseView::no_content(),
    {
        ScimResponse { status: Status { code: 204 }, location: None, body: None }
    }
}

/// The body of a list answer.
pub open spec fn list_body(total: int, start_index: int, resources: Seq<JsonView>) -> JsonView {
    JsonView::Object(
        fields().push(field("schemas"@, one_text(LIST_RESPONSE_URN@))).push(
            field("totalResults"@, JsonView::Integer(total)),
        ).push(field("itemsPerPage"@, JsonView::Integer(resources.len() as int))).push(
            field("startIndex"@, JsonView::Integer(start_index)),
        ).push(field("Resources"@, JsonView::Array(resources))),
    )
}

/// A list answer.
pub fn list_response(total: usize, start_index: usize, resources: Vec<Json>) -> (r: ScimResponse)
    ensures
        r@ == ScimResponseView::ok(list_body(total as int, start_index as int, views(resources@))),
{
    let shown: usize = resources.len();
    let body = Fields::new().with_one_text("schemas", LIST_RESPONSE_URN).with_integer(
        "totalResults",
        total as i128,
    ).with_integer("itemsPerPage", shown as i128).with_integer(
        "startIndex",
        start_index as i128,
    ).with("Resources", Json::array(resources)).done();
    ScimResponse::ok(body)
}

/// The base URL of an organization's SCIM endpoints.
pub open spec fn base_url(domain: Seq<char>, org: Seq<char>) -> Seq<char> {
    domain + "/scim/v2/"@ + org
}

/// The canonical URL of a resource.
pub open spec fn location_url(
    domain: Seq<char>,
    org: Seq<char>,
    resource_type: Seq<char>,
    id: Seq<char>,
) -> Seq<char> {
    base_url(domain, org) + "/"@ + resource_type + "/"@ + id
}

/// The canonical URL of a resource, for the Location header and meta.location.
pub fn resource_location(domain: &str, org: &str, resource_type: &str, id: &str) -> (r: String)
    ensures
        r@ == location_url(domain@, org@, resource_type@, id@),
{
    let mut r = join3(domain, "/scim/v2/", org);
    r.append("/");
    r.append(resource_type);
    r.append("/");
    r.append(id);
    r
}

/// The answer to a request that ended with a bare error status.
pub open spec fn caught_error(code: u16, configured: int) -> ScimErrorView {
    if code == 400 {
        ScimErrorView::bad_request("invalidValue"@, "Bad request"@)
    } else if code == 401 {
        ScimErrorView::unauthorized()
    } else if code == 404 {
        ScimErrorView::not_found()
    } else if code == 422 {
        ScimErrorView::bad_request("invalidValue"@, "Malformed request parameter"@)
    } else if code == 413 {
        ScimErrorView::payload_too_large()
    } else if code == 429 {
        ScimErrorView::too_many_requests(configured)
    } else if code == 500 {
        ScimErrorView::internal()
    } else {
        ScimErrorView::from_status(code, configured)
    }
}

/// Keeps every error inside the SCIM envelope, whatever raised it. The 401 body is
/// a constant. A 422, which a malformed path or query parameter raises, is
/// answered with 400: RFC 7644 does not use it.
pub fn catch_status(status: Status, configured: u64) -> (r: ScimError)
    ensures
        r@ == caught_error(status.code, configured as int),
{
    match status.code {
        400 => ScimError::bad_request("invalidValue", "Bad request"),
        401 => ScimError::unauthorized(),
        404 => ScimError::not_found(),
        422 => ScimError::bad_request("invalidValue", "Malformed request parameter"),
        413 => ScimError::payload_too_large(),
        429 => ScimError::too_many_requests(configured),
        500 => ScimError::internal(),
        _ => ScimError::from_status(status, configured),
    }
}

} // verus!
