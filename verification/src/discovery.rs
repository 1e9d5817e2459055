//! SCIM discovery documents, RFC 7643 section 5 and RFC 7644 section 4.
//!
//! Groups are advertised only where the server can serve them: a client that reads
//! discovery to decide what to sync must not be told of an endpoint that refuses.

use vstd::prelude::*;
use vstd::string::*;

use crate::error::{ScimError, ScimErrorView};
use crate::json::{field, fields, items, one_text, views, Fields, Items, Json, JsonView};
use crate::scim::{base_url, list_body, ScimResponse, ScimResponseView, SCIM_MAX_RESULTS};
use crate::text::{join2, join3, text_eq};

verus! {

pub const LIST_RESPONSE_URN: &'static str = "urn:ietf:params:scim:api:messages:2.0:ListResponse";

pub const USER_SCHEMA_URN: &'static str = "urn:ietf:params:scim:schemas:core:2.0:User";

pub const GROUP_SCHEMA_URN: &'static str = "urn:ietf:params:scim:schemas:core:2.0:Group";

pub const SCHEMA_URN: &'static str = "urn:ietf:params:scim:schemas:core:2.0:Schema";

pub const RESOURCE_TYPE_URN: &'static str = "urn:ietf:params:scim:schemas:core:2.0:ResourceType";

pub const CONFIG_URN: &'static str = "urn:ietf:params:scim:schemas:core:2.0:ServiceProviderConfig";

pub const DOCUMENTATION: &'static str = "https://github.com/croftinator/vaultwarden-scim-v2";

pub const USER_DESCRIPTION: &'static str = "Organization member. Only the attributes listed here are honoured; anything else is accepted and ignored, per RFC 7643 section 2.1.";

pub const GROUP_DESCRIPTION: &'static str = "Organization group. SCIM owns group existence and membership; collection access stays an in-app admin decision.";

/// The base URL of an organization's SCIM endpoints.
pub fn scim_base(domain: &str, org: &str) -> (r: String)
    ensures
        r@ == base_url(domain@, org@),
{
    join3(domain, "/scim/v2/", org)
}

/// An object that says whether something is supported.
pub open spec fn support(supported: bool) -> JsonView {
    JsonView::Object(fields().push(field("supported"@, JsonView::Bool(supported))))
}

fn support_json(supported: bool) -> (r: Json)
    ensures
        r@ == support(supported),
{
    Fields::new().with_bool("supported", supported).done()
}

/// The meta object of a resource.
pub open spec fn meta_view(resource_type: Seq<char>, location: Seq<char>) -> JsonView {
    JsonView::Object(
        fields().push(field("resourceType"@, JsonView::Text(resource_type))).push(
            field("location"@, JsonView::Text(location)),
        ),
    )
}

fn meta_json(resource_type: &str, location: &str) -> (r: Json)
    ensures
        r@ == meta_view(resource_type@, location@),
{
    Fields::new().with_text("resourceType", resource_type).with_text("location", location).done()
}

/// The service provider configuration.
pub open spec fn provider_config(base: Seq<char>) -> JsonView {
    JsonView::Object(
        fields().push(field("schemas"@, one_text(CONFIG_URN@))).push(
            field("documentationUri"@, JsonView::Text(DOCUMENTATION@)),
        ).push(field("patch"@, support(true))).push(
            field(
                "bulk"@,
                JsonView::Object(
                    fields().push(field("supported"@, JsonView::Bool(false))).push(
                        field("maxOperations"@, JsonView::Integer(0)),
                    ).push(field("maxPayloadSize"@, JsonView::Integer(0))),
                ),
            ),
        ).push(
            field(
                "filter"@,
                JsonView::Object(
                    fields().push(field("supported"@, JsonView::Bool(true))).push(
                        field("maxResults"@, JsonView::Integer(SCIM_MAX_RESULTS as int)),
                    ),
                ),
            ),
        ).push(field("changePassword"@, support(false))).push(field("sort"@, support(false))).push(
            field("etag"@, support(false)),
        ).push(
            field(
                "authenticationSchemes"@,
                JsonView::Array(
                    items().push(
                        JsonView::Object(
                            fields().push(field("type"@, JsonView::Text("oauthbearertoken"@))).push(
                                field("name"@, JsonView::Text("OAuth Bearer Token"@)),
                            ).push(
                                field(
                                    "description"@,
                                    JsonView::Text(
                                        "Static bearer token generated per organization"@,
                                    ),
                                ),
                            ).push(field("primary"@, JsonView::Bool(true))),
                        ),
                    ),
                ),
            ),
        ).push(
            field(
                "meta"@,
                meta_view("ServiceProviderConfig"@, base + "/ServiceProviderConfig"@),
            ),
        ),
    )
}

/// Answers a request for the service provider configuration.
pub fn service_provider_config(domain: &str, org: &str) -> (r: ScimResponse)
    ensures
        r@ == ScimResponseView::ok(provider_config(base_url(domain@, org@))),
{
    let base = scim_base(domain, org);
    let location = join2(base.as_str(), "/ServiceProviderConfig");
    let bulk = Fields::new().with_bool("supported", false).with_integer(
        "maxOperations",
        0,
    ).with_integer("maxPayloadSize", 0).done();
    let filter = Fields::new().with_bool("supported", true).with_integer(
        "maxResults",
        SCIM_MAX_RESULTS as i128,
    ).done();
    let scheme = Fields::new().with_text("type", "oauthbearertoken").with_text(
        "name",
        "OAuth Bearer Token",
    ).with_text("description", "Static bearer token generated per organization").with_bool(
        "primary",
        true,
    ).done();
    let body = Fields::new().with_one_text("schemas", CONFIG_URN).with_text(
        "documentationUri",
        DOCUMENTATION,
    ).with("patch", support_json(true)).with("bulk", bulk).with("filter", filter).with(
        "changePassword",
        support_json(false),
    ).with("sort", support_json(false)).with("etag", support_json(false)).with(
        "authenticationSchemes",
        Items::new().with(scheme).done(),
    ).with("meta", meta_json("ServiceProviderConfig", location.as_str())).done();
    ScimResponse::ok(body)
}

/// One resource type.
pub open spec fn resource_type_view(
    base: Seq<char>,
    name: Seq<char>,
    endpoint: Seq<char>,
    description: Seq<char>,
    schema: Seq<char>,
) -> JsonView {
    JsonView::Object(
        fields().push(field("schemas"@, one_text(RESOURCE_TYPE_URN@))).push(
            field("id"@, JsonView::Text(name)),
        ).push(field("name"@, JsonView::Text(name))).push(
            field("endpoint"@, JsonView::Text(endpoint)),
        ).push(field("description"@, JsonView::Text(description))).push(
            field("schema"@, JsonView::Text(schema)),
        ).push(field("meta"@, meta_view("ResourceType"@, base + "/ResourceTypes/"@ + name))),
    )
}

/// The resource type of members.
pub open spec fn user_type(base: Seq<char>) -> JsonView {
    resource_type_view(base, "User"@, "/Users"@, "Organization member"@, USER_SCHEMA_URN@)
}

/// The resource type of groups.
pub open spec fn group_type(base: Seq<char>) -> JsonView {
    resource_type_view(base, "Group"@, "/Groups"@, "Organization group"@, GROUP_SCHEMA_URN@)
}

fn resource_type_json(base: &str, name: &str, endpoint: &str, description: &str, schema: &str) -> (r:
    Json)
    ensures
        r@ == resource_type_view(base@, name@, endpoint@, description@, schema@),
{
    let location = join3(base, "/ResourceTypes/", name);
    Fields::new().with_one_text("schemas", RESOURCE_TYPE_URN).with_text("id", name).with_text(
        "name",
        name,
    ).with_text("endpoint", endpoint).with_text("description", description).with_text(
        "schema",
        schema,
    ).with("meta", meta_json("ResourceType", location.as_str())).done()
}

fn user_resource_type(base: &str) -> (r: Json)
    ensures
        r@ == user_type(base@),
{
    resource_type_json(base, "User", "/Users", "Organization member", USER_SCHEMA_URN)
}

fn group_resource_type(base: &str) -> (r: Json)
    ensures
        r@ == group_type(base@),
{
    resource_type_json(base, "Group", "/Groups", "Organization group", GROUP_SCHEMA_URN)
}

/// One entry of a Schema resource's attributes, RFC 7643 section 7.
pub open spec fn attribute_fields(
    name: Seq<char>,
    attr_type: Seq<char>,
    multi_valued: bool,
    required: bool,
    mutability: Seq<char>,
    uniqueness: Seq<char>,
) -> Seq<crate::json::MemberView> {
    fields().push(field("name"@, JsonView::Text(name))).push(
        field("type"@, JsonView::Text(attr_type)),
    ).push(field("multiValued"@, JsonView::Bool(multi_valued))).push(
        field("description"@, JsonView::Text(""@)),
    ).push(field("required"@, JsonView::Bool(required))).push(
        field("caseExact"@, JsonView::Bool(false)),
    ).push(field("mutability"@, JsonView::Text(mutability))).push(
        field("returned"@, JsonView::Text("default"@)),
    ).push(field("uniqueness"@, JsonView::Text(uniqueness)))
}

/// An attribute without sub-attributes.
pub open spec fn attribute_view(
    name: Seq<char>,
    attr_type: Seq<char>,
    multi_valued: bool,
    required: bool,
    mutability: Seq<char>,
    uniqueness: Seq<char>,
) -> JsonView {
    JsonView::Object(
        attribute_fields(name, attr_type, multi_valued, required, mutability, uniqueness),
    )
}

/// A complex attribute that is not unique.
pub open spec fn complex_view(
    name: Seq<char>,
    multi_valued: bool,
    mutability: Seq<char>,
    parts: Seq<JsonView>,
) -> JsonView {
    JsonView::Object(
        attribute_fields(name, "complex"@, multi_valued, false, mutability, "none"@).push(
            field("subAttributes"@, JsonView::Array(parts)),
        ),
    )
}

fn attribute_builder(
    name: &str,
    attr_type: &str,
    multi_valued: bool,
    required: bool,
    mutability: &str,
    uniqueness: &str,
) -> (r: Fields)
    ensures
        r@ == attribute_fields(
            name@,
            attr_type@,
            multi_valued,
            required,
            mutability@,
            uniqueness@,
        ),
{
    Fields::new().with_text("name", name).with_text("type", attr_type).with_bool(
        "multiValued",
        multi_valued,
    ).with_text("description", "").with_bool("required", required).with_bool(
        "caseExact",
        false,
    ).with_text("mutability", mutability).with_text("returned", "default").with_text(
        "uniqueness",
        uniqueness,
    )
}

fn attribute(
    name: &str,
    attr_type: &str,
    multi_valued: bool,
    required: bool,
    mutability: &str,
    uniqueness: &str,
) -> (r: Json)
    ensures
        r@ == attribute_view(name@, attr_type@, multi_valued, required, mutability@, uniqueness@),
{
    attribute_builder(name, attr_type, multi_valued, required, mutability, uniqueness).done()
}

fn complex_attribute(name: &str, multi_valued: bool, mutability: &str, parts: Items) -> (r: Json)
    ensures
        r@ == complex_view(name@, multi_valued, mutability@, parts@),
{
    attribute_builder(name, "complex", multi_valued, false, mutability, "none").with(
        "subAttributes",
        parts.done(),
    ).done()
}

/// The attributes of a User: what is accepted at creation, and not rewritten afterwards,
/// is `immutable`. externalId is a common attribute and belongs to no schema.
pub open spec fn user_attribute_views() -> Seq<JsonView> {
    items().push(attribute_view("userName"@, "string"@, false, true, "immutable"@, "server"@)).push(
        attribute_view("displayName"@, "string"@, false, false, "immutable"@, "none"@),
    ).push(
        complex_view(
            "name"@,
            false,
            "immutable"@,
            items().push(
                attribute_view("formatted"@, "string"@, false, false, "immutable"@, "none"@),
            ).push(
                attribute_view("givenName"@, "string"@, false, false, "immutable"@, "none"@),
            ).push(
                attribute_view("familyName"@, "string"@, false, false, "immutable"@, "none"@),
            ),
        ),
    ).push(
        complex_view(
            "emails"@,
            true,
            "immutable"@,
            items().push(
                attribute_view("value"@, "string"@, false, true, "immutable"@, "none"@),
            ).push(attribute_view("type"@, "string"@, false, false, "immutable"@, "none"@)).push(
                attribute_view("primary"@, "boolean"@, false, false, "immutable"@, "none"@),
            ),
        ),
    ).push(attribute_view("active"@, "boolean"@, false, false, "readWrite"@, "none"@))
}

fn user_attributes() -> (r: Items)
    ensures
        r@ == user_attribute_views(),
{
    let name = complex_attribute(
        "name",
        false,
        "immutable",
        Items::new().with(
            attribute("formatted", "string", false, false, "immutable", "none"),
        ).with(attribute("givenName", "string", false, false, "immutable", "none")).with(
            attribute("familyName", "string", false, false, "immutable", "none"),
        ),
    );
    let emails = complex_attribute(
        "emails",
        true,
        "immutable",
        Items::new().with(attribute("value", "string", false, true, "immutable", "none")).with(
            attribute("type", "string", false, false, "immutable", "none"),
        ).with(attribute("primary", "boolean", false, false, "immutable", "none")),
    );
    Items::new().with(attribute("userName", "string", false, true, "immutable", "server")).with(
        attribute("displayName", "string", false, false, "immutable", "none"),
    ).with(name).with(emails).with(
        attribute("active", "boolean", false, false, "readWrite", "none"),
    )
}

/// The attributes of a Group.
pub open spec fn group_attribute_views() -> Seq<JsonView> {
    items().push(
        attribute_view("displayName"@, "string"@, false, true, "readWrite"@, "none"@),
    ).push(
        complex_view(
            "members"@,
            true,
            "readWrite"@,
            items().push(
                attribute_view("value"@, "string"@, false, true, "immutable"@, "none"@),
            ),
        ),
    )
}

fn group_attributes() -> (r: Items)
    ensures
        r@ == group_attribute_views(),
{
    let members = complex_attribute(
        "members",
        true,
        "readWrite",
        Items::new().with(attribute("value", "string", false, true, "immutable", "none")),
    );
    Items::new().with(attribute("displayName", "string", false, true, "readWrite", "none")).with(
        members,
    )
}

/// One schema.
pub open spec fn schema_view(
    base: Seq<char>,
    urn: Seq<char>,
    name: Seq<char>,
    description: Seq<char>,
    attributes: Seq<JsonView>,
) -> JsonView {
    JsonView::Object(
        fields().push(field("schemas"@, one_text(SCHEMA_URN@))).push(
            field("id"@, JsonView::Text(urn)),
        ).push(field("name"@, JsonView::Text(name))).push(
            field("description"@, JsonView::Text(description)),
        ).push(field("attributes"@, JsonView::Array(attributes))).push(
            field("meta"@, meta_view("Schema"@, base + "/Schemas/"@ + urn)),
        ),
    )
}

/// The schema of members.
pub open spec fn user_schema_view(base: Seq<char>) -> JsonView {
    schema_view(base, USER_SCHEMA_URN@, "User"@, USER_DESCRIPTION@, user_attribute_views())
}

/// The schema of groups.
pub open spec fn group_schema_view(base: Seq<char>) -> JsonView {
    schema_view(base, GROUP_SCHEMA_URN@, "Group"@, GROUP_DESCRIPTION@, group_attribute_views())
}

fn schema_json(base: &str, urn: &str, name: &str, description: &str, attributes: Items) -> (r: Json)
    ensures
        r@ == schema_view(base@, urn@, name@, description@, attributes@),
{
    let location = join3(base, "/Schemas/", urn);
    Fields::new().with_one_text("schemas", SCHEMA_URN).with_text("id", urn).with_text(
        "name",
        name,
    ).with_text("description", description).with("attributes", attributes.done()).with(
        "meta",
        meta_json("Schema", location.as_str()),
    ).done()
}

fn user_schema(base: &str) -> (r: Json)
    ensures
        r@ == user_schema_view(base@),
{
    schema_json(base, USER_SCHEMA_URN, "User", USER_DESCRIPTION, user_attributes())
}

fn group_schema(base: &str) -> (r: Json)
    ensures
        r@ == group_schema_view(base@),
{
    schema_json(base, GROUP_SCHEMA_URN, "Group", GROUP_DESCRIPTION, group_attributes())
}

/// The resources that a discovery list shows: the one for members, and the one for groups
/// where the server serves groups.
pub open spec fn discovered(user: JsonView, group: JsonView, groups_on: bool) -> Seq<JsonView> {
    if groups_on {
        items().push(user).push(group)
    } else {
        items().push(user)
    }
}

fn list_of(resources: Vec<Json>) -> (r: ScimResponse)
    ensures
        r@ == ScimResponseView::ok(
            list_body(resources.len() as int, 1, views(resources@)),
        ),
{
    let total: usize = resources.len();
    crate::scim::list_response(total, 1, resources)
}

/// Answers a request for the resource types.
pub fn resource_types(domain: &str, org: &str, groups_on: bool) -> (r: ScimResponse)
    ensures
        ({
            let base = base_url(domain@, org@);
            let shown = discovered(user_type(base), group_type(base), groups_on);
            r@ == ScimResponseView::ok(list_body(shown.len() as int, 1, shown))
        }),
{
    let base = scim_base(domain, org);
    let mut resources: Vec<Json> = Vec::new();
    resources.push(user_resource_type(base.as_str()));
    if groups_on {
        resources.push(group_resource_type(base.as_str()));
    }
    assert(views(resources@) =~= discovered(user_type(base@), group_type(base@), groups_on));
    list_of(resources)
}

/// Answers a request for one resource type. Every location that discovery advertises can
/// be retrieved.
pub fn resource_type(resource_id: &str, domain: &str, org: &str, groups_on: bool) -> (r: Result<
    ScimResponse,
    ScimError,
>)
    ensures
        ({
            let base = base_url(domain@, org@);
            if resource_id@ == "User"@ {
                r matches Ok(response) && response@ == ScimResponseView::ok(user_type(base))
            } else if resource_id@ == "Group"@ && groups_on {
                r matches Ok(response) && response@ == ScimResponseView::ok(group_type(base))
            } else {
                r matches Err(e) && e@ == ScimErrorView::not_found()
            }
        }),
{
    let base = scim_base(domain, org);
    if text_eq(resource_id, "User") {
        Ok(ScimResponse::ok(user_resource_type(base.as_str())))
    } else if text_eq(resource_id, "Group") && groups_on {
        Ok(ScimResponse::ok(group_resource_type(base.as_str())))
    } else {
        Err(ScimError::not_found())
    }
}

/// Answers a request for the schemas.
pub fn schemas(domain: &str, org: &str, groups_on: bool) -> (r: ScimResponse)
    ensures
        ({
            let base = base_url(domain@, org@);
            let shown = discovered(user_schema_view(base), group_schema_view(base), groups_on);
            r@ == ScimResponseView::ok(list_body(shown.len() as int, 1, shown))
        }),
{
    let base = scim_base(domain, org);
    let mut resources: Vec<Json> = Vec::new();
    resources.push(user_schema(base.as_str()));
    if groups_on {
        resources.push(group_schema(base.as_str()));
    }
    assert(views(resources@) =~= discovered(
        user_schema_view(base@),
        group_schema_view(base@),
        groups_on,
    ));
    list_of(resources)
}

/// Answers a request for one schema.
pub fn schema(schema_id: &str, domain: &str, org: &str, groups_on: bool) -> (r: Result<
    ScimResponse,
    ScimError,
>)
    ensures
        ({
            let base = base_url(domain@, org@);
            if schema_id@ == USER_SCHEMA_URN@ {
                r matches Ok(response) && response@ == ScimResponseView::ok(user_schema_view(base))
            } else if schema_id@ == GROUP_SCHEMA_URN@ && groups_on {
                r matches Ok(response) && response@ == ScimResponseView::ok(group_schema_view(base))
            } else {
                r matches Err(e) && e@ == ScimErrorView::not_found()
            }
        }),
{
    let base = scim_base(domain, org);
    if text_eq(schema_id, USER_SCHEMA_URN) {
        Ok(ScimResponse::ok(user_schema(base.as_str())))
    } else if text_eq(schema_id, GROUP_SCHEMA_URN) && groups_on {
        Ok(ScimResponse::ok(group_schema(base.as_str())))
    } else {
        Err(ScimError::not_found())
    }
}

} // verus!
