//! What a client reads in the discovery documents.

use vstd::prelude::*;

use crate::discovery::{
    attribute_view, complex_view, discovered, group_attribute_views, group_schema_view, group_type, provider_config,
    user_attribute_views, user_schema_view, user_type,
};
use crate::json::{first_named, JsonView, MemberView};
use crate::representation_laws::{has_members, is_text, lemma_first_named};
use crate::scim::base_url;

verus! {

/// Whether a value says that something is supported, or that it is not.
pub open spec fn says_supported(value: Option<JsonView>, supported: bool) -> bool {
    value matches Some(shown) && shown.get("supported"@) == Some(JsonView::Bool(supported))
}

/// Whether a value is an object with the kind and the place of a resource.
pub open spec fn is_meta(value: Option<JsonView>, kind: Seq<char>, location: Seq<char>) -> bool {
    value matches Some(meta) && has_members(meta, 2) && is_text(meta.get("resourceType"@), kind)
        && is_text(meta.get("location"@), location)
}

/// Whether a value is an array of one text.
pub open spec fn is_one_text(value: Option<JsonView>, text: Seq<char>) -> bool {
    value matches Some(JsonView::Array(list)) && list.len() == 1 && list[0] == JsonView::Text(text)
}

proof fn lemma_discovery_names()
    ensures
        "schemas"@.len() == 7 && "schemas"@[0] == 's',
        "documentationUri"@.len() == 16,
        "patch"@.len() == 5,
        "bulk"@.len() == 4 && "bulk"@[0] == 'b',
        "filter"@.len() == 6,
        "changePassword"@.len() == 14 && "changePassword"@[0] == 'c',
        "sort"@.len() == 4 && "sort"@[0] == 's',
        "etag"@.len() == 4 && "etag"@[0] == 'e',
        "authenticationSchemes"@.len() == 21,
        "meta"@.len() == 4 && "meta"@[0] == 'm',
        "supported"@.len() == 9,
        "maxOperations"@.len() == 13,
        "maxPayloadSize"@.len() == 14 && "maxPayloadSize"@[0] == 'm',
        "maxResults"@.len() == 10,
        "resourceType"@.len() == 12,
        "location"@.len() == 8 && "location"@[0] == 'l',
        "id"@.len() == 2,
        "name"@.len() == 4 && "name"@[0] == 'n',
        "endpoint"@.len() == 8 && "endpoint"@[0] == 'e',
        "description"@.len() == 11,
        "schema"@.len() == 6,
        "attributes"@.len() == 10,
        "type"@.len() == 4 && "type"@[0] == 't',
        "multiValued"@.len() == 11 && "multiValued"@[0] == 'm',
        "description"@[0] == 'd',
        "required"@.len() == 8 && "required"@[0] == 'r' && "required"@[2] == 'q',
        "caseExact"@.len() == 9,
        "mutability"@.len() == 10 && "mutability"@[0] == 'm',
        "returned"@.len() == 8 && "returned"@[0] == 'r' && "returned"@[2] == 't',
        "uniqueness"@.len() == 10 && "uniqueness"@[0] == 'u',
{
    reveal_strlit("schemas");
    reveal_strlit("documentationUri");
    reveal_strlit("patch");
    reveal_strlit("bulk");
    reveal_strlit("filter");
    reveal_strlit("changePassword");
    reveal_strlit("sort");
    reveal_strlit("etag");
    reveal_strlit("authenticationSchemes");
    reveal_strlit("meta");
    reveal_strlit("supported");
    reveal_strlit("maxOperations");
    reveal_strlit("maxPayloadSize");
    reveal_strlit("maxResults");
    reveal_strlit("resourceType");
    reveal_strlit("location");
    reveal_strlit("id");
    reveal_strlit("name");
    reveal_strlit("endpoint");
    reveal_strlit("description");
    reveal_strlit("schema");
    reveal_strlit("attributes");
    reveal_strlit("type");
    reveal_strlit("multiValued");
    reveal_strlit("required");
    reveal_strlit("caseExact");
    reveal_strlit("mutability");
    reveal_strlit("returned");
    reveal_strlit("uniqueness");
}

/// The configuration says what is served, wherever the server is: patches and filters, and
/// none of the rest; that no list is longer than two hundred; and where it can be found.
pub proof fn law_configuration_says_what_is_served(domain: Seq<char>, org: Seq<char>)
    ensures
        ({
            let base = domain + "/scim/v2/"@ + org;
            let shown = provider_config(base_url(domain, org));
            &&& has_members(shown, 10)
            &&& is_one_text(
                shown.get("schemas"@),
                "urn:ietf:params:scim:schemas:core:2.0:ServiceProviderConfig"@,
            )
            &&& says_supported(shown.get("patch"@), true)
            &&& says_supported(shown.get("bulk"@), false)
            &&& shown.get("bulk"@) matches Some(bulk) && has_members(bulk, 3) && bulk.get(
                "maxOperations"@,
            ) == Some(JsonView::Integer(0)) && bulk.get("maxPayloadSize"@) == Some(
                JsonView::Integer(0),
            )
            &&& says_supported(shown.get("filter"@), true)
            &&& shown.get("filter"@) matches Some(filter) && filter.get("maxResults"@) == Some(
                JsonView::Integer(200),
            )
            &&& says_supported(shown.get("changePassword"@), false)
            &&& says_supported(shown.get("sort"@), false)
            &&& says_supported(shown.get("etag"@), false)
            &&& is_text(
                shown.get("documentationUri"@),
                "https://github.com/croftinator/vaultwarden-scim-v2"@,
            )
            &&& shown.get("authenticationSchemes"@) matches Some(JsonView::Array(schemes))
                && schemes.len() == 1 && is_text(schemes[0].get("type"@), "oauthbearertoken"@)
                && is_text(schemes[0].get("name"@), "OAuth Bearer Token"@)
                && schemes[0].get("primary"@) == Some(JsonView::Bool(true))
            &&& is_meta(
                shown.get("meta"@),
                "ServiceProviderConfig"@,
                base + "/ServiceProviderConfig"@,
            )
        }),
{
    lemma_discovery_names();
    let shown = provider_config(base_url(domain, org))->Object_0;
    lemma_first_named(shown, "schemas"@, 0);
    lemma_first_named(shown, "documentationUri"@, 1);
    lemma_first_named(shown, "authenticationSchemes"@, 8);
    reveal_strlit("primary");
    let scheme = shown[8].value->Array_0[0]->Object_0;
    lemma_first_named(scheme, "type"@, 0);
    lemma_first_named(scheme, "name"@, 1);
    lemma_first_named(scheme, "primary"@, 3);
    lemma_first_named(shown, "patch"@, 2);
    lemma_first_named(shown, "bulk"@, 3);
    lemma_first_named(shown, "filter"@, 4);
    lemma_first_named(shown, "changePassword"@, 5);
    lemma_first_named(shown, "sort"@, 6);
    lemma_first_named(shown, "etag"@, 7);
    lemma_first_named(shown, "meta"@, 9);
    lemma_first_named(shown[2].value->Object_0, "supported"@, 0);
    lemma_first_named(shown[3].value->Object_0, "supported"@, 0);
    lemma_first_named(shown[3].value->Object_0, "maxOperations"@, 1);
    lemma_first_named(shown[3].value->Object_0, "maxPayloadSize"@, 2);
    lemma_first_named(shown[4].value->Object_0, "supported"@, 0);
    lemma_first_named(shown[4].value->Object_0, "maxResults"@, 1);
    lemma_first_named(shown[5].value->Object_0, "supported"@, 0);
    lemma_first_named(shown[6].value->Object_0, "supported"@, 0);
    lemma_first_named(shown[7].value->Object_0, "supported"@, 0);
    lemma_first_named(shown[9].value->Object_0, "resourceType"@, 0);
    lemma_first_named(shown[9].value->Object_0, "location"@, 1);
}

/// Whether a value describes a resource type.
pub open spec fn is_resource_type(
    shown: JsonView,
    base: Seq<char>,
    name: Seq<char>,
    endpoint: Seq<char>,
    schema: Seq<char>,
) -> bool {
    &&& has_members(shown, 7)
    &&& is_one_text(
        shown.get("schemas"@),
        "urn:ietf:params:scim:schemas:core:2.0:ResourceType"@,
    )
    &&& is_text(shown.get("id"@), name)
    &&& is_text(shown.get("name"@), name)
    &&& is_text(shown.get("endpoint"@), endpoint)
    &&& is_text(shown.get("schema"@), schema)
    &&& is_meta(shown.get("meta"@), "ResourceType"@, base + "/ResourceTypes/"@ + name)
}

proof fn lemma_resource_type(shown: JsonView)
    requires
        shown is Object,
        shown->Object_0.len() == 7,
        shown->Object_0[0].name == "schemas"@,
        shown->Object_0[1].name == "id"@,
        shown->Object_0[2].name == "name"@,
        shown->Object_0[3].name == "endpoint"@,
        shown->Object_0[4].name == "description"@,
        shown->Object_0[5].name == "schema"@,
        shown->Object_0[6].name == "meta"@,
        has_members(shown->Object_0[6].value, 2),
        shown->Object_0[6].value->Object_0[0].name == "resourceType"@,
        shown->Object_0[6].value->Object_0[1].name == "location"@,
    ensures
        shown.get("schemas"@) == Some(shown->Object_0[0].value),
        shown.get("id"@) == Some(shown->Object_0[1].value),
        shown.get("name"@) == Some(shown->Object_0[2].value),
        shown.get("endpoint"@) == Some(shown->Object_0[3].value),
        shown.get("schema"@) == Some(shown->Object_0[5].value),
        shown.get("meta"@) == Some(shown->Object_0[6].value),
        shown->Object_0[6].value.get("resourceType"@) == Some(
            shown->Object_0[6].value->Object_0[0].value,
        ),
        shown->Object_0[6].value.get("location"@) == Some(
            shown->Object_0[6].value->Object_0[1].value,
        ),
{
    lemma_discovery_names();
    let parts = shown->Object_0;
    lemma_first_named(parts, "schemas"@, 0);
    lemma_first_named(parts, "id"@, 1);
    lemma_first_named(parts, "name"@, 2);
    lemma_first_named(parts, "endpoint"@, 3);
    lemma_first_named(parts, "schema"@, 5);
    lemma_first_named(parts, "meta"@, 6);
    lemma_first_named(parts[6].value->Object_0, "resourceType"@, 0);
    lemma_first_named(parts[6].value->Object_0, "location"@, 1);
}

/// The resource types say where members and groups are served, under which schema, and where
/// the description itself can be found.
pub proof fn law_resource_types_say_where(domain: Seq<char>, org: Seq<char>)
    ensures
        is_resource_type(
            user_type(base_url(domain, org)),
            domain + "/scim/v2/"@ + org,
            "User"@,
            "/Users"@,
            "urn:ietf:params:scim:schemas:core:2.0:User"@,
        ),
        is_resource_type(
            group_type(base_url(domain, org)),
            domain + "/scim/v2/"@ + org,
            "Group"@,
            "/Groups"@,
            "urn:ietf:params:scim:schemas:core:2.0:Group"@,
        ),
{
    lemma_resource_type(user_type(base_url(domain, org)));
    lemma_resource_type(group_type(base_url(domain, org)));
}

/// Whether a value describes a schema.
pub open spec fn is_schema(
    shown: JsonView,
    base: Seq<char>,
    urn: Seq<char>,
    name: Seq<char>,
    attributes: Seq<JsonView>,
) -> bool {
    &&& has_members(shown, 6)
    &&& is_one_text(shown.get("schemas"@), "urn:ietf:params:scim:schemas:core:2.0:Schema"@)
    &&& is_text(shown.get("id"@), urn)
    &&& is_text(shown.get("name"@), name)
    &&& shown.get("attributes"@) == Some(JsonView::Array(attributes))
    &&& is_meta(shown.get("meta"@), "Schema"@, base + "/Schemas/"@ + urn)
}

proof fn lemma_schema(shown: JsonView)
    requires
        shown is Object,
        shown->Object_0.len() == 6,
        shown->Object_0[0].name == "schemas"@,
        shown->Object_0[1].name == "id"@,
        shown->Object_0[2].name == "name"@,
        shown->Object_0[3].name == "description"@,
        shown->Object_0[4].name == "attributes"@,
        shown->Object_0[5].name == "meta"@,
        has_members(shown->Object_0[5].value, 2),
        shown->Object_0[5].value->Object_0[0].name == "resourceType"@,
        shown->Object_0[5].value->Object_0[1].name == "location"@,
    ensures
        shown.get("schemas"@) == Some(shown->Object_0[0].value),
        shown.get("id"@) == Some(shown->Object_0[1].value),
        shown.get("name"@) == Some(shown->Object_0[2].value),
        shown.get("attributes"@) == Some(shown->Object_0[4].value),
        shown.get("meta"@) == Some(shown->Object_0[5].value),
        shown->Object_0[5].value.get("resourceType"@) == Some(
            shown->Object_0[5].value->Object_0[0].value,
        ),
        shown->Object_0[5].value.get("location"@) == Some(
            shown->Object_0[5].value->Object_0[1].value,
        ),
{
    lemma_discovery_names();
    let parts = shown->Object_0;
    lemma_first_named(parts, "schemas"@, 0);
    lemma_first_named(parts, "id"@, 1);
    lemma_first_named(parts, "name"@, 2);
    lemma_first_named(parts, "attributes"@, 4);
    lemma_first_named(parts, "meta"@, 5);
    lemma_first_named(parts[5].value->Object_0, "resourceType"@, 0);
    lemma_first_named(parts[5].value->Object_0, "location"@, 1);
}

/// The schemas say which attributes members and groups have, and where the schema itself can
/// be found.
pub proof fn law_schemas_say_what(domain: Seq<char>, org: Seq<char>)
    ensures
        is_schema(
            user_schema_view(base_url(domain, org)),
            domain + "/scim/v2/"@ + org,
            "urn:ietf:params:scim:schemas:core:2.0:User"@,
            "User"@,
            user_attribute_views(),
        ),
        is_schema(
            group_schema_view(base_url(domain, org)),
            domain + "/scim/v2/"@ + org,
            "urn:ietf:params:scim:schemas:core:2.0:Group"@,
            "Group"@,
            group_attribute_views(),
        ),
{
    lemma_schema(user_schema_view(base_url(domain, org)));
    lemma_schema(group_schema_view(base_url(domain, org)));
}

/// Groups are advertised exactly where they are served; members always are, and first.
pub proof fn law_groups_are_advertised_where_served(
    user: JsonView,
    group: JsonView,
    groups_on: bool,
)
    ensures
        discovered(user, group, groups_on) == (if groups_on {
            seq![user, group]
        } else {
            seq![user]
        }),
{
}

/// Whether a value describes an attribute.
pub open spec fn is_attribute(
    shown: JsonView,
    name: Seq<char>,
    kind: Seq<char>,
    multi_valued: bool,
    required: bool,
    mutability: Seq<char>,
    uniqueness: Seq<char>,
) -> bool {
    &&& is_text(shown.get("name"@), name)
    &&& is_text(shown.get("type"@), kind)
    &&& shown.get("multiValued"@) == Some(JsonView::Bool(multi_valued))
    &&& is_text(shown.get("description"@), ""@)
    &&& shown.get("required"@) == Some(JsonView::Bool(required))
    &&& shown.get("caseExact"@) == Some(JsonView::Bool(false))
    &&& is_text(shown.get("mutability"@), mutability)
    &&& is_text(shown.get("returned"@), "default"@)
    &&& is_text(shown.get("uniqueness"@), uniqueness)
}

/// An attribute is described by what it is given; one with parts lists them and is otherwise
/// the same.
pub proof fn law_attributes_are_described(
    name: Seq<char>,
    kind: Seq<char>,
    multi_valued: bool,
    required: bool,
    mutability: Seq<char>,
    uniqueness: Seq<char>,
    parts: Seq<JsonView>,
)
    ensures
        has_members(
            attribute_view(name, kind, multi_valued, required, mutability, uniqueness),
            9,
        ),
        is_attribute(
            attribute_view(name, kind, multi_valued, required, mutability, uniqueness),
            name,
            kind,
            multi_valued,
            required,
            mutability,
            uniqueness,
        ),
        has_members(complex_view(name, multi_valued, mutability, parts), 10),
        is_attribute(
            complex_view(name, multi_valued, mutability, parts),
            name,
            "complex"@,
            multi_valued,
            false,
            mutability,
            "none"@,
        ),
        complex_view(name, multi_valued, mutability, parts).get("subAttributes"@) == Some(
            JsonView::Array(parts),
        ),
{
    lemma_discovery_names();
    reveal_strlit("subAttributes");
    assert("subAttributes"@.len() == 13);
    let plain = attribute_view(name, kind, multi_valued, required, mutability, uniqueness)->Object_0;
    let complex = complex_view(name, multi_valued, mutability, parts)->Object_0;
    lemma_attribute_members(plain);
    lemma_attribute_members(complex);
    lemma_first_named(complex, "subAttributes"@, 9);
}

proof fn lemma_attribute_members(shown: Seq<MemberView>)
    requires
        shown.len() >= 9,
        shown[0].name == "name"@,
        shown[1].name == "type"@,
        shown[2].name == "multiValued"@,
        shown[3].name == "description"@,
        shown[4].name == "required"@,
        shown[5].name == "caseExact"@,
        shown[6].name == "mutability"@,
        shown[7].name == "returned"@,
        shown[8].name == "uniqueness"@,
    ensures
        first_named(shown, "name"@) == Some(shown[0].value),
        first_named(shown, "type"@) == Some(shown[1].value),
        first_named(shown, "multiValued"@) == Some(shown[2].value),
        first_named(shown, "description"@) == Some(shown[3].value),
        first_named(shown, "required"@) == Some(shown[4].value),
        first_named(shown, "caseExact"@) == Some(shown[5].value),
        first_named(shown, "mutability"@) == Some(shown[6].value),
        first_named(shown, "returned"@) == Some(shown[7].value),
        first_named(shown, "uniqueness"@) == Some(shown[8].value),
{
    lemma_discovery_names();
    lemma_first_named(shown, "name"@, 0);
    lemma_first_named(shown, "type"@, 1);
    lemma_first_named(shown, "multiValued"@, 2);
    lemma_first_named(shown, "description"@, 3);
    lemma_first_named(shown, "required"@, 4);
    lemma_first_named(shown, "caseExact"@, 5);
    lemma_first_named(shown, "mutability"@, 6);
    lemma_first_named(shown, "returned"@, 7);
    lemma_first_named(shown, "uniqueness"@, 8);
}

/// The parts of an attribute that has any.
pub open spec fn parts_of(attribute: JsonView) -> Seq<JsonView> {
    match attribute.get("subAttributes"@) {
        Some(JsonView::Array(parts)) => parts,
        _ => Seq::empty(),
    }
}

/// Of a member, only whether it is active can be written; its address is required and unique,
/// and its name and its addresses are taken at its creation alone.
pub proof fn law_user_attributes()
    ensures
        ({
            let all = user_attribute_views();
            let fixed = "immutable"@;
            let none = "none"@;
            &&& all.len() == 5
            &&& is_attribute(all[0], "userName"@, "string"@, false, true, fixed, "server"@)
            &&& is_attribute(all[1], "displayName"@, "string"@, false, false, fixed, none)
            &&& is_attribute(all[2], "name"@, "complex"@, false, false, fixed, none)
            &&& is_attribute(all[3], "emails"@, "complex"@, true, false, fixed, none)
            &&& is_attribute(all[4], "active"@, "boolean"@, false, false, "readWrite"@, none)
            &&& parts_of(all[2]).len() == 3
            &&& is_attribute(parts_of(all[2])[0], "formatted"@, "string"@, false, false, fixed, none)
            &&& is_attribute(parts_of(all[2])[1], "givenName"@, "string"@, false, false, fixed, none)
            &&& is_attribute(
                parts_of(all[2])[2],
                "familyName"@,
                "string"@,
                false,
                false,
                fixed,
                none,
            )
            &&& parts_of(all[3]).len() == 3
            &&& is_attribute(parts_of(all[3])[0], "value"@, "string"@, false, true, fixed, none)
            &&& is_attribute(parts_of(all[3])[1], "type"@, "string"@, false, false, fixed, none)
            &&& is_attribute(parts_of(all[3])[2], "primary"@, "boolean"@, false, false, fixed, none)
        }),
{
    let all = user_attribute_views();
    let fixed = "immutable"@;
    let none = "none"@;
    let nothing = Seq::<JsonView>::empty();
    let text = "string"@;
    law_attributes_are_described("userName"@, text, false, true, fixed, "server"@, nothing);
    law_attributes_are_described("displayName"@, text, false, false, fixed, none, nothing);
    law_attributes_are_described(
        "active"@,
        "boolean"@,
        false,
        false,
        "readWrite"@,
        none,
        nothing,
    );
    let name_parts = nothing.push(
        attribute_view("formatted"@, text, false, false, fixed, none),
    ).push(attribute_view("givenName"@, text, false, false, fixed, none)).push(
        attribute_view("familyName"@, text, false, false, fixed, none),
    );
    let email_parts = nothing.push(attribute_view("value"@, text, false, true, fixed, none)).push(
        attribute_view("type"@, text, false, false, fixed, none),
    ).push(attribute_view("primary"@, "boolean"@, false, false, fixed, none));
    law_attributes_are_described("name"@, text, false, false, fixed, none, name_parts);
    law_attributes_are_described("emails"@, text, true, false, fixed, none, email_parts);
    law_attributes_are_described("formatted"@, text, false, false, fixed, none, nothing);
    law_attributes_are_described("givenName"@, text, false, false, fixed, none, nothing);
    law_attributes_are_described("familyName"@, text, false, false, fixed, none, nothing);
    law_attributes_are_described("value"@, text, false, true, fixed, none, nothing);
    law_attributes_are_described("type"@, text, false, false, fixed, none, nothing);
    law_attributes_are_described("primary"@, "boolean"@, false, false, fixed, none, nothing);
    assert(all[2] == complex_view("name"@, false, fixed, name_parts));
    assert(all[3] == complex_view("emails"@, true, fixed, email_parts));
}

/// Of a group, the name, which is required, and the members can be written; a member is named
/// by its id.
pub proof fn law_group_attributes()
    ensures
        ({
            let all = group_attribute_views();
            let open = "readWrite"@;
            let none = "none"@;
            &&& all.len() == 2
            &&& is_attribute(all[0], "displayName"@, "string"@, false, true, open, none)
            &&& is_attribute(all[1], "members"@, "complex"@, true, false, open, none)
            &&& parts_of(all[1]).len() == 1
            &&& is_attribute(
                parts_of(all[1])[0],
                "value"@,
                "string"@,
                false,
                true,
                "immutable"@,
                none,
            )
        }),
{
    let open = "readWrite"@;
    let none = "none"@;
    let nothing = Seq::<JsonView>::empty();
    let parts = nothing.push(
        attribute_view("value"@, "string"@, false, true, "immutable"@, none),
    );
    law_attributes_are_described("displayName"@, "string"@, false, true, open, none, nothing);
    law_attributes_are_described("members"@, "string"@, true, false, open, none, parts);
    law_attributes_are_described("value"@, "string"@, false, true, "immutable"@, none, nothing);
    assert(group_attribute_views()[1] == complex_view("members"@, true, open, parts));
}

} // verus!
