//! What a PATCH means: from the shape of a request to what it asks for.

use vstd::prelude::*;

use crate::error::ScimErrorView;
use crate::fold::{lemma_try_fold_append, try_fold};
use crate::json::{first_named, JsonView, MemberView};
use crate::patch::{
    group_member_step, group_operation, group_operation_step, group_patch, user_member_step,
    user_operation, user_operation_step, user_patch, GroupPatchView, MemberOpView, PatchOpView,
    PatchOperationView, UserPatchView,
};
use crate::patch_laws::{
    law_group_operations_in_order, law_members_filter_round_trip, law_user_operations_in_order,
};
use crate::text::{ascii_lower, ascii_lowercase, same_ignoring_case};

verus! {

/// Whether a body carries the schema of a PATCH.
pub open spec fn has_schema(patch: PatchOpView) -> bool {
    patch.schemas.contains("urn:ietf:params:scim:api:messages:2.0:PatchOp"@)
}

/// Whether a body is a PATCH of one operation.
pub open spec fn asks_for(
    patch: PatchOpView,
    op: Seq<char>,
    path: Option<Seq<char>>,
    value: Option<JsonView>,
) -> bool {
    has_schema(patch) && patch.operations == seq![PatchOperationView { op, path, value }]
}

/// Whether a text begins with another, up to the case of ASCII letters.
pub open spec fn begins_with(s: Seq<char>, head: Seq<char>) -> bool {
    s.len() >= head.len() && same_ignoring_case(s.take(head.len() as int), head)
}

/// Whether a result is an error of a status, a type and a detail.
pub open spec fn refused<T>(
    r: Result<T, ScimErrorView>,
    scim_type: Seq<char>,
    detail: Seq<char>,
) -> bool {
    r matches Err(e) && e.status == 400 && e.scim_type == Some(scim_type) && e.detail == detail
        && e.retry_after is None
}

proof fn lemma_names()
    ensures
        ascii_lowercase("add"@) == "add"@,
        ascii_lowercase("remove"@) == "remove"@,
        ascii_lowercase("replace"@) == "replace"@,
        ascii_lowercase("active"@) == "active"@,
        ascii_lowercase("externalId"@) == "externalid"@,
        ascii_lowercase("externalid"@) == "externalid"@,
        ascii_lowercase("displayName"@) == "displayname"@,
        ascii_lowercase("displayname"@) == "displayname"@,
        ascii_lowercase("members"@) == "members"@,
        ascii_lowercase("true"@) == "true"@,
        ascii_lowercase("false"@) == "false"@,
        "add"@.len() == 3 && "remove"@.len() == 6 && "replace"@.len() == 7,
        "active"@.len() == 6 && "externalid"@.len() == 10 && "displayname"@.len() == 11,
        "members"@.len() == 7 && "members["@.len() == 8,
        "true"@.len() == 4 && "false"@.len() == 5,
        "displayname"@[0] == 'd' && "externalid"@[0] == 'e' && "active"@[0] == 'a',
{
    reveal_strlit("add");
    reveal_strlit("remove");
    reveal_strlit("replace");
    reveal_strlit("active");
    reveal_strlit("externalId");
    reveal_strlit("externalid");
    reveal_strlit("displayName");
    reveal_strlit("displayname");
    reveal_strlit("members");
    reveal_strlit("members[");
    reveal_strlit("true");
    reveal_strlit("false");
    assert(ascii_lowercase("add"@) =~= "add"@);
    assert(ascii_lowercase("remove"@) =~= "remove"@);
    assert(ascii_lowercase("replace"@) =~= "replace"@);
    assert(ascii_lowercase("active"@) =~= "active"@);
    assert(ascii_lowercase("externalId"@) =~= "externalid"@);
    assert(ascii_lowercase("externalid"@) =~= "externalid"@);
    assert(ascii_lowercase("displayName"@) =~= "displayname"@);
    assert(ascii_lowercase("displayname"@) =~= "displayname"@);
    assert(ascii_lowercase("members"@) =~= "members"@);
    assert(ascii_lowercase("true"@) =~= "true"@);
    assert(ascii_lowercase("false"@) =~= "false"@);
}

/// Case is ignored letter by letter: two texts are the same exactly where they are equally
/// long and differ at most in the case of an ASCII letter.
pub proof fn law_case_is_ignored_letter_by_letter(a: Seq<char>, b: Seq<char>)
    ensures
        same_ignoring_case(a, b) <==> a.len() == b.len() && forall|i: int|
            0 <= i < a.len() ==> {
                ||| a[i] == #[trigger] b[i]
                ||| 'A' <= a[i] <= 'Z' && b[i] as int == a[i] as int + 32
                ||| 'A' <= b[i] <= 'Z' && a[i] as int == b[i] as int + 32
            },
{
    assert(ascii_lowercase(a).len() == a.len() && ascii_lowercase(b).len() == b.len());
    if same_ignoring_case(a, b) {
        assert forall|i: int| 0 <= i < a.len() implies {
            ||| a[i] == #[trigger] b[i]
            ||| 'A' <= a[i] <= 'Z' && b[i] as int == a[i] as int + 32
            ||| 'A' <= b[i] <= 'Z' && a[i] as int == b[i] as int + 32
        } by {
            assert(ascii_lowercase(a)[i] == ascii_lowercase(b)[i]);
            assert(ascii_lower(a[i]) == ascii_lower(b[i]));
        }
    }
    if a.len() == b.len() && forall|i: int|
        0 <= i < a.len() ==> {
            ||| a[i] == #[trigger] b[i]
            ||| 'A' <= a[i] <= 'Z' && b[i] as int == a[i] as int + 32
            ||| 'A' <= b[i] <= 'Z' && a[i] as int == b[i] as int + 32
        } {
        assert(ascii_lowercase(a) =~= ascii_lowercase(b)) by {
            assert forall|i: int| 0 <= i < a.len() implies ascii_lowercase(a)[i]
                == ascii_lowercase(b)[i] by {
                let x = a[i];
                let y = b[i];
            }
        }
    }
}

proof fn lemma_user_alone(
    patch: PatchOpView,
    op: Seq<char>,
    path: Option<Seq<char>>,
    value: Option<JsonView>,
)
    requires
        asks_for(patch, op, path, value),
    ensures
        user_patch(patch) == user_operation(
            UserPatchView::nothing(),
            PatchOperationView { op, path, value },
        ),
{
    let operation = PatchOperationView { op, path, value };
    reveal_with_fuel(try_fold, 2);
    assert(patch.operations.drop_last() =~= Seq::empty());
    assert(patch.operations.last() == operation);
}

/// An add and a replace of externalId set it to the text they carry, in any casing of the
/// operation and the path; with anything but a text they are refused.
pub proof fn law_user_external_id_is_set(
    patch: PatchOpView,
    op: Seq<char>,
    path: Seq<char>,
    value: Option<JsonView>,
)
    requires
        asks_for(patch, op, Some(path), value),
        same_ignoring_case(op, "add"@) || same_ignoring_case(op, "replace"@),
        same_ignoring_case(path, "externalId"@),
    ensures
        match value {
            Some(JsonView::Text(id)) => user_patch(patch) matches Ok(asked) && asked.external_id
                == Some(id) && asked.active is None,
            _ => refused(user_patch(patch), "invalidValue"@, "externalId must be a string"@),
        },
{
    lemma_names();
    lemma_user_alone(patch, op, Some(path), value);
    assert(path.len() == ascii_lowercase(path).len());
}

/// A remove of externalId clears it, whatever value comes with it.
pub proof fn law_user_external_id_is_cleared(
    patch: PatchOpView,
    op: Seq<char>,
    path: Seq<char>,
    value: Option<JsonView>,
)
    requires
        asks_for(patch, op, Some(path), value),
        same_ignoring_case(op, "remove"@),
        same_ignoring_case(path, "externalId"@),
    ensures
        user_patch(patch) matches Ok(asked) && asked.external_id matches Some(id) && id.len() == 0
            && asked.active is None,
{
    lemma_names();
    lemma_user_alone(patch, op, Some(path), value);
    assert(path.len() == ascii_lowercase(path).len());
}

/// An add and a replace of active set it to the boolean they carry, which may be written as a
/// text in any casing; with anything else they are refused, and a remove always is.
pub proof fn law_user_active_is_set(
    patch: PatchOpView,
    op: Seq<char>,
    path: Seq<char>,
    value: Option<JsonView>,
)
    requires
        asks_for(patch, op, Some(path), value),
        same_ignoring_case(path, "active"@),
    ensures
        same_ignoring_case(op, "add"@) || same_ignoring_case(op, "replace"@) ==> (match value {
            Some(JsonView::Bool(b)) => user_patch(patch) matches Ok(asked) && asked.active == Some(
                b,
            ) && asked.external_id is None,
            Some(JsonView::Text(t)) => if same_ignoring_case(t, "true"@) {
                user_patch(patch) matches Ok(asked) && asked.active == Some(true)
                    && asked.external_id is None
            } else if same_ignoring_case(t, "false"@) {
                user_patch(patch) matches Ok(asked) && asked.active == Some(false)
                    && asked.external_id is None
            } else {
                refused(user_patch(patch), "invalidValue"@, "Expected a boolean value for active"@)
            },
            _ => refused(
                user_patch(patch),
                "invalidValue"@,
                "Expected a boolean value for active"@,
            ),
        }),
        same_ignoring_case(op, "remove"@) ==> refused(
            user_patch(patch),
            "invalidValue"@,
            "active cannot be removed, set it to false"@,
        ),
{
    lemma_names();
    lemma_user_alone(patch, op, Some(path), value);
}

proof fn lemma_begins_with(s: Seq<char>, head: Seq<char>)
    requires
        ascii_lowercase(head) == head,
    ensures
        begins_with(s, head) <==> head.is_prefix_of(ascii_lowercase(s)),
{
    assert(ascii_lowercase(s).len() == s.len());
    if s.len() >= head.len() {
        assert(ascii_lowercase(s).subrange(0, head.len() as int) =~= ascii_lowercase(
            s.take(head.len() as int),
        ));
    }
}

proof fn lemma_prefix_letter(head: Seq<char>, s: Seq<char>, i: int)
    requires
        0 <= i < head.len(),
    ensures
        head.is_prefix_of(s) ==> s[i] == head[i] && s.len() >= head.len(),
{
    if head.is_prefix_of(s) {
        assert(s.subrange(0, head.len() as int)[i] == s[i]);
    }
}

/// Whether a path names an attribute that directories map by default and that is not synced.
pub open spec fn mapped_by_default(path: Seq<char>) -> bool {
    ||| same_ignoring_case(path, "userName"@)
    ||| same_ignoring_case(path, "displayName"@)
    ||| same_ignoring_case(path, "title"@)
    ||| same_ignoring_case(path, "roles"@)
    ||| same_ignoring_case(path, "preferredLanguage"@)
    ||| same_ignoring_case(path, "name"@)
    ||| begins_with(path, "name."@)
    ||| same_ignoring_case(path, "emails"@)
    ||| begins_with(path, "emails["@)
    ||| begins_with(path, "addresses"@)
    ||| begins_with(path, "phonenumbers"@)
    ||| begins_with(path, "urn:ietf:params:scim:schemas:extension:enterprise:2.0:user"@)
}

proof fn lemma_mapped_by_default(path: Seq<char>)
    ensures
        mapped_by_default(path) <==> crate::patch::is_unsynced_name(ascii_lowercase(path)),
        mapped_by_default(path) ==> !same_ignoring_case(path, "active"@) && !same_ignoring_case(
            path,
            "externalId"@,
        ),
{
    lemma_names();
    reveal_strlit("userName");
    reveal_strlit("username");
    reveal_strlit("title");
    reveal_strlit("roles");
    reveal_strlit("preferredLanguage");
    reveal_strlit("preferredlanguage");
    reveal_strlit("name");
    reveal_strlit("name.");
    reveal_strlit("emails");
    reveal_strlit("emails[");
    reveal_strlit("addresses");
    reveal_strlit("phonenumbers");
    reveal_strlit("urn:ietf:params:scim:schemas:extension:enterprise:2.0:user");
    assert(ascii_lowercase("userName"@) =~= "username"@);
    assert(ascii_lowercase("title"@) =~= "title"@);
    assert(ascii_lowercase("roles"@) =~= "roles"@);
    assert(ascii_lowercase("preferredLanguage"@) =~= "preferredlanguage"@);
    assert(ascii_lowercase("name"@) =~= "name"@);
    assert(ascii_lowercase("name."@) =~= "name."@);
    assert(ascii_lowercase("emails"@) =~= "emails"@);
    assert(ascii_lowercase("emails["@) =~= "emails["@);
    assert(ascii_lowercase("addresses"@) =~= "addresses"@);
    assert(ascii_lowercase("phonenumbers"@) =~= "phonenumbers"@);
    let urn = "urn:ietf:params:scim:schemas:extension:enterprise:2.0:user"@;
    assert(ascii_lowercase(urn) =~= urn);
    lemma_begins_with(path, "name."@);
    lemma_begins_with(path, "emails["@);
    lemma_begins_with(path, "addresses"@);
    lemma_begins_with(path, "phonenumbers"@);
    lemma_begins_with(path, urn);
    let lower = ascii_lowercase(path);
    lemma_prefix_letter("name."@, lower, 0);
    lemma_prefix_letter("emails["@, lower, 0);
    lemma_prefix_letter("emails["@, lower, 1);
    lemma_prefix_letter("addresses"@, lower, 0);
    lemma_prefix_letter("addresses"@, lower, 1);
    lemma_prefix_letter("phonenumbers"@, lower, 0);
    lemma_prefix_letter(urn, lower, 0);
    reveal_strlit("active");
    reveal_strlit("externalid");
    reveal_strlit("displayname");
    assert("active"@[1] == 'c' && "externalid"@[1] == 'x');
    assert("emails"@[0] == 'e' && "emails["@[1] == 'm' && "addresses"@[1] == 'd');
}

/// An operation on an attribute that is not synced is accepted and asks for nothing; one on any
/// other path is refused, and so is one of no known kind.
pub proof fn law_other_user_paths(
    patch: PatchOpView,
    op: Seq<char>,
    path: Seq<char>,
    value: Option<JsonView>,
)
    requires
        asks_for(patch, op, Some(path), value),
    ensures
        ({
            let known = same_ignoring_case(op, "add"@) || same_ignoring_case(op, "replace"@)
                || same_ignoring_case(op, "remove"@);
            let owned = same_ignoring_case(path, "active"@) || same_ignoring_case(
                path,
                "externalId"@,
            );
            &&& !known ==> refused(
                user_patch(patch),
                "invalidValue"@,
                "Unsupported patch operation"@,
            )
            &&& known && mapped_by_default(path) ==> (user_patch(patch) matches Ok(asked)
                && asked.active is None && asked.external_id is None)
            &&& known && !mapped_by_default(path) && !owned ==> refused(
                user_patch(patch),
                "invalidPath"@,
                "Unsupported patch path"@,
            )
        }),
{
    lemma_names();
    lemma_user_alone(patch, op, Some(path), value);
    lemma_mapped_by_default(path);
}

/// A body without the schema of a PATCH, or without operations, is refused.
pub proof fn law_patch_bodies_need_a_schema_and_operations(patch: PatchOpView)
    ensures
        !has_schema(patch) ==> refused(user_patch(patch), "invalidValue"@, "Missing PatchOp schema"@)
            && refused(group_patch(patch), "invalidValue"@, "Missing PatchOp schema"@),
        has_schema(patch) && patch.operations.len() == 0 ==> refused(
            user_patch(patch),
            "invalidValue"@,
            "No operations provided"@,
        ) && refused(group_patch(patch), "invalidValue"@, "No operations provided"@),
{
}

/// Operations of a user PATCH take effect in order: a body that carries those of two others
/// asks for what the second asks for and, where that is silent, for what the first asks for;
/// the first refusal stands.
pub proof fn law_user_patches_join(first: PatchOpView, second: PatchOpView, both: PatchOpView)
    requires
        has_schema(first) && has_schema(second) && has_schema(both),
        first.operations.len() > 0,
        second.operations.len() > 0,
        both.operations == first.operations + second.operations,
    ensures
        match (user_patch(first), user_patch(second)) {
            (Ok(a), Ok(b)) => user_patch(both) matches Ok(asked) && asked.active == (if b.active is Some {
                b.active
            } else {
                a.active
            }) && asked.external_id == (if b.external_id is Some {
                b.external_id
            } else {
                a.external_id
            }),
            (Err(e), _) => user_patch(both) == Err::<UserPatchView, ScimErrorView>(e),
            (Ok(_), Err(e)) => user_patch(both) == Err::<UserPatchView, ScimErrorView>(e),
        },
{
    let nothing = UserPatchView::nothing();
    lemma_try_fold_append(nothing, first.operations, second.operations, user_operation_step());
    if let Ok(a) = user_patch(first) {
        law_user_operations_in_order(first.operations, second.operations, a);
    }
}

/// The operations that write each member of an object by its own path.
pub open spec fn one_by_one(op: Seq<char>, members: Seq<MemberView>) -> Seq<PatchOperationView> {
    members.map_values(
        |member: MemberView|
            PatchOperationView { op, path: Some(member.name), value: Some(member.value) },
    )
}

proof fn lemma_user_members_one_by_one(
    so_far: UserPatchView,
    op: Seq<char>,
    members: Seq<MemberView>,
)
    requires
        same_ignoring_case(op, "add"@) || same_ignoring_case(op, "replace"@),
    ensures
        ({
            let whole = try_fold(so_far, members, user_member_step());
            let singly = try_fold(so_far, one_by_one(op, members), user_operation_step());
            match whole {
                Ok(p) => singly == Ok::<UserPatchView, ScimErrorView>(p),
                Err(e) => singly matches Err(f) && e.status == f.status && e.scim_type
                    == f.scim_type,
            }
        }),
    decreases members.len(),
{
    lemma_names();
    if members.len() > 0 {
        lemma_user_members_one_by_one(so_far, op, members.drop_last());
        let all = one_by_one(op, members);
        assert(all.drop_last() =~= one_by_one(op, members.drop_last()));
        assert(all.last() == (PatchOperationView {
            op,
            path: Some(members.last().name),
            value: Some(members.last().value),
        }));
    }
}

/// An add or a replace without a path asks for what the same operations with each member's
/// name as their path ask for, in order; where one of these is refused, it is refused with
/// the same status and type.
pub proof fn law_user_pathless_is_member_by_member(
    whole: PatchOpView,
    singly: PatchOpView,
    op: Seq<char>,
    members: Seq<MemberView>,
)
    requires
        asks_for(whole, op, None, Some(JsonView::Object(members))),
        has_schema(singly),
        singly.operations == one_by_one(op, members),
        members.len() > 0,
        same_ignoring_case(op, "add"@) || same_ignoring_case(op, "replace"@),
    ensures
        match user_patch(whole) {
            Ok(p) => user_patch(singly) == Ok::<UserPatchView, ScimErrorView>(p),
            Err(e) => user_patch(singly) matches Err(f) && e.status == f.status && e.scim_type
                == f.scim_type,
        },
{
    lemma_names();
    lemma_user_alone(whole, op, None, Some(JsonView::Object(members)));
    lemma_user_members_one_by_one(UserPatchView::nothing(), op, members);
    assert(singly.operations.len() == members.len());
}

/// An add or a replace without a path asks for nothing where its object is empty, and is
/// refused where the first member of its object is no attribute of a user.
pub proof fn law_user_pathless_beginnings(
    patch: PatchOpView,
    op: Seq<char>,
    members: Seq<MemberView>,
)
    requires
        asks_for(patch, op, None, Some(JsonView::Object(members))),
        same_ignoring_case(op, "add"@) || same_ignoring_case(op, "replace"@),
    ensures
        members.len() == 0 ==> (user_patch(patch) matches Ok(asked) && asked.active is None
            && asked.external_id is None),
        members.len() > 0 && !mapped_by_default(members[0].name) && !same_ignoring_case(
            members[0].name,
            "active"@,
        ) && !same_ignoring_case(members[0].name, "externalId"@) ==> refused(
            user_patch(patch),
            "invalidPath"@,
            "Unsupported patch attribute"@,
        ),
{
    lemma_names();
    lemma_user_alone(patch, op, None, Some(JsonView::Object(members)));
    if members.len() > 0 {
        let nothing = UserPatchView::nothing();
        let first = members.take(1);
        lemma_mapped_by_default(members[0].name);
        assert(first + members.skip(1) =~= members);
        lemma_try_fold_append(nothing, first, members.skip(1), user_member_step());
        reveal_with_fuel(try_fold, 2);
        assert(first.drop_last() =~= Seq::empty());
        assert(first.last() == members[0]);
    }
}

/// A user operation without a path needs an object, and a remove needs a path.
pub proof fn law_user_pathless_refusals(patch: PatchOpView, op: Seq<char>, value: Option<JsonView>)
    requires
        asks_for(patch, op, None, value),
    ensures
        same_ignoring_case(op, "remove"@) ==> refused(
            user_patch(patch),
            "noTarget"@,
            "A remove operation must carry a path"@,
        ),
        (same_ignoring_case(op, "add"@) || same_ignoring_case(op, "replace"@)) && !(value matches Some(
            JsonView::Object(_),
        )) ==> refused(
            user_patch(patch),
            "invalidValue"@,
            "Operation without path must carry an object value"@,
        ),
        !same_ignoring_case(op, "add"@) && !same_ignoring_case(op, "replace"@)
            && !same_ignoring_case(op, "remove"@) ==> refused(
            user_patch(patch),
            "invalidValue"@,
            "Unsupported patch operation"@,
        ),
{
    lemma_names();
    lemma_user_alone(patch, op, None, value);
}

/// What a patch writes to without being synced is listed in order: the path of an operation
/// that names such an attribute, and, where there is no path, the names of such members of the
/// object.
pub proof fn law_unsynced_writes_are_listed(operation: PatchOperationView)
    ensures
        match operation.path {
            Some(path) => crate::patch::unsynced(seq![operation]) == (if mapped_by_default(path) {
                seq![path]
            } else {
                Seq::empty()
            }),
            None => match operation.value {
                Some(JsonView::Object(members)) => crate::patch::unsynced(seq![operation])
                    == members.filter(
                    |member: MemberView| mapped_by_default(member.name),
                ).map_values(|member: MemberView| member.name),
                _ => crate::patch::unsynced(seq![operation]) == Seq::<Seq<char>>::empty(),
            },
        },
{
    reveal_with_fuel(crate::patch::unsynced, 2);
    let one = seq![operation];
    assert(one.drop_last() =~= Seq::empty());
    assert(crate::patch::unsynced(one) =~= crate::patch::unsynced_in(operation));
    match operation.path {
        Some(path) => {
            lemma_names();
            lemma_mapped_by_default(path);
        },
        None => {
            if let Some(JsonView::Object(members)) = operation.value {
                lemma_unsynced_names(members);
            }
        },
    }
}

proof fn lemma_unsynced_names(members: Seq<MemberView>)
    ensures
        crate::patch::unsynced_names(members) == members.filter(
            |member: MemberView| mapped_by_default(member.name),
        ).map_values(|member: MemberView| member.name),
    decreases members.len(),
{
    reveal(Seq::filter);
    if members.len() > 0 {
        lemma_unsynced_names(members.drop_last());
        lemma_names();
        lemma_mapped_by_default(members.last().name);
    }
    assert(crate::patch::unsynced_names(members) =~= members.filter(
        |member: MemberView| mapped_by_default(member.name),
    ).map_values(|member: MemberView| member.name));
}

/// What two lists of operations write to without being synced is listed one after the other.
pub proof fn law_unsynced_writes_add_up(
    first: Seq<PatchOperationView>,
    second: Seq<PatchOperationView>,
)
    ensures
        crate::patch::unsynced(first + second) == crate::patch::unsynced(first)
            + crate::patch::unsynced(second),
    decreases second.len(),
{
    if second.len() == 0 {
        assert(first + second =~= first);
        assert(crate::patch::unsynced(first) + crate::patch::unsynced(second)
            =~= crate::patch::unsynced(first));
    } else {
        law_unsynced_writes_add_up(first, second.drop_last());
        assert((first + second).drop_last() =~= first + second.drop_last());
        assert(crate::patch::unsynced(first + second) =~= crate::patch::unsynced(first)
            + crate::patch::unsynced(second));
    }
}

// ---------------------------------------------------------------------------
// Groups
// ---------------------------------------------------------------------------

proof fn lemma_group_alone(
    patch: PatchOpView,
    op: Seq<char>,
    path: Option<Seq<char>>,
    value: Option<JsonView>,
)
    requires
        asks_for(patch, op, path, value),
    ensures
        group_patch(patch) == group_operation(
            GroupPatchView::nothing(),
            PatchOperationView { op, path, value },
        ),
{
    let operation = PatchOperationView { op, path, value };
    reveal_with_fuel(try_fold, 2);
    assert(patch.operations.drop_last() =~= Seq::empty());
    assert(patch.operations.last() == operation);
}

/// Whether a value lists ids: an array of objects that each have the text of an id under
/// `value`, or one such object.
pub open spec fn lists_ids(value: Option<JsonView>, ids: Seq<Seq<char>>) -> bool {
    match value {
        Some(JsonView::Array(items)) => items.len() == ids.len() && forall|i: int|
            0 <= i < ids.len() ==> (#[trigger] items[i]).get("value"@) == Some(
                JsonView::Text(ids[i]),
            ),
        Some(JsonView::Object(members)) => ids.len() == 1 && first_named(members, "value"@) == Some(
            JsonView::Text(ids[0]),
        ),
        _ => false,
    }
}

/// Whether a patch asks for one member operation and nothing else.
pub open spec fn only_members(r: Result<GroupPatchView, ScimErrorView>, op: MemberOpView) -> bool {
    r matches Ok(asked) && asked.display_name is None && asked.external_id is None
        && asked.member_ops == seq![op]
}

proof fn lemma_listed_ids(value: Option<JsonView>, ids: Seq<Seq<char>>)
    requires
        lists_ids(value, ids),
    ensures
        crate::patch::member_ids(value) == Ok::<Seq<Seq<char>>, ScimErrorView>(ids),
{
    match value {
        Some(JsonView::Array(items)) => {
            assert forall|i: int| 0 <= i < items.len() implies crate::patch::names_member(
                #[trigger] items[i],
            ) by {
                assert(items[i].get("value"@) == Some(JsonView::Text(ids[i])));
            }
            assert(items.map_values(|item: JsonView| crate::patch::named_member(item)) =~= ids);
        },
        Some(JsonView::Object(members)) => {
            let items = seq![JsonView::Object(members)];
            assert(items[0].get("value"@) == Some(JsonView::Text(ids[0])));
            assert(items.map_values(|item: JsonView| crate::patch::named_member(item)) =~= ids);
        },
        _ => {},
    }
}

proof fn lemma_unlisted_ids(value: Option<JsonView>)
    requires
        forall|ids: Seq<Seq<char>>| !#[trigger] lists_ids(value, ids),
    ensures
        crate::patch::member_ids(value) is Err,
{
    if let Ok(ids) = crate::patch::member_ids(value) {
        match value {
            Some(JsonView::Array(items)) => {
                assert forall|i: int| 0 <= i < ids.len() implies (#[trigger] items[i]).get(
                    "value"@,
                ) == Some(JsonView::Text(ids[i])) by {
                    assert(crate::patch::names_member(items[i]));
                }
            },
            Some(JsonView::Object(members)) => {
                let items = seq![JsonView::Object(members)];
                assert(crate::patch::names_member(items[0]));
                assert(ids[0] == crate::patch::named_member(items[0]));
            },
            _ => {},
        }
        assert(lists_ids(value, ids));
    }
}

/// An operation on members is that operation on the ids its value lists: an add adds them, a
/// remove removes them, a replace replaces the member set by them. A value that lists no ids
/// is refused.
pub proof fn law_group_members_are_changed(
    patch: PatchOpView,
    op: Seq<char>,
    path: Seq<char>,
    value: Option<JsonView>,
    ids: Seq<Seq<char>>,
)
    requires
        asks_for(patch, op, Some(path), value),
        same_ignoring_case(path, "members"@),
    ensures
        lists_ids(value, ids) ==> {
            &&& same_ignoring_case(op, "add"@) ==> only_members(
                group_patch(patch),
                MemberOpView::Add(ids),
            )
            &&& same_ignoring_case(op, "remove"@) ==> only_members(
                group_patch(patch),
                MemberOpView::Remove(ids),
            )
            &&& same_ignoring_case(op, "replace"@) ==> only_members(
                group_patch(patch),
                MemberOpView::Replace(ids),
            )
            &&& !same_ignoring_case(op, "add"@) && !same_ignoring_case(op, "remove"@)
                && !same_ignoring_case(op, "replace"@) ==> refused(
                group_patch(patch),
                "invalidValue"@,
                "Unsupported operation on members"@,
            )
        },
        (forall|some: Seq<Seq<char>>| !#[trigger] lists_ids(value, some)) ==> refused(
            group_patch(patch),
            "invalidValue"@,
            "members value must be an array of {value} objects"@,
        ),
{
    lemma_names();
    lemma_group_alone(patch, op, Some(path), value);
    if lists_ids(value, ids) {
        lemma_listed_ids(value, ids);
        if let Ok(asked) = group_patch(patch) {
            assert(asked.member_ops =~= seq![asked.member_ops[0]]);
        }
    }
    if forall|some: Seq<Seq<char>>| !#[trigger] lists_ids(value, some) {
        lemma_unlisted_ids(value);
    }
}

/// An operation through a filter path, in whatever casing and spacing it is written, is on the
/// one member it names: an add and a replace add it, a remove removes it, whatever value comes
/// with them.
pub proof fn law_group_filter_paths(
    patch: PatchOpView,
    op: Seq<char>,
    path: Seq<char>,
    id: Seq<char>,
    value: Option<JsonView>,
)
    requires
        asks_for(patch, op, Some(path), value),
        path == "members[value eq \""@ + id + "\"]"@ && id.len() > 0 && !id.contains('"')
            || crate::patch::members_filter_value(path) == Some(id),
    ensures
        same_ignoring_case(op, "add"@) || same_ignoring_case(op, "replace"@) ==> only_members(
            group_patch(patch),
            MemberOpView::Add(seq![id]),
        ),
        same_ignoring_case(op, "remove"@) ==> only_members(
            group_patch(patch),
            MemberOpView::Remove(seq![id]),
        ),
        !same_ignoring_case(op, "add"@) && !same_ignoring_case(op, "remove"@)
            && !same_ignoring_case(op, "replace"@) ==> refused(
            group_patch(patch),
            "invalidValue"@,
            "Unsupported operation on members"@,
        ),
{
    lemma_names();
    lemma_group_alone(patch, op, Some(path), value);
    if crate::patch::members_filter_value(path) != Some(id) {
        law_members_filter_round_trip(id);
    }
    reveal_strlit("members[");
    assert(ascii_lowercase("members["@) =~= "members["@);
    lemma_begins_with(path, "members["@);
    assert(ascii_lowercase(path).len() == path.len());
    if let Ok(asked) = group_patch(patch) {
        assert(asked.member_ops =~= seq![asked.member_ops[0]]);
    }
}

/// A path that begins like a filter on members and names no single one is refused.
pub proof fn law_group_other_filter_paths(
    patch: PatchOpView,
    op: Seq<char>,
    path: Seq<char>,
    value: Option<JsonView>,
)
    requires
        asks_for(patch, op, Some(path), value),
        begins_with(path, "members["@),
        crate::patch::members_filter_value(path) is None,
    ensures
        refused(group_patch(patch), "invalidPath"@, "Unsupported members filter path"@),
{
    lemma_names();
    lemma_group_alone(patch, op, Some(path), value);
    reveal_strlit("members[");
    assert(ascii_lowercase("members["@) =~= "members["@);
    lemma_begins_with(path, "members["@);
    assert(ascii_lowercase(path).len() == path.len());
}

/// Whether a patch asks for a text attribute and nothing else.
pub open spec fn only_text(
    r: Result<GroupPatchView, ScimErrorView>,
    display_name: Option<Seq<char>>,
    external_id: Option<Seq<char>>,
) -> bool {
    r matches Ok(asked) && asked.display_name == display_name && asked.external_id == external_id
        && asked.member_ops.len() == 0
}

/// An add and a replace of a group's displayName or externalId set it to the text they carry,
/// a remove clears it, and anything else is refused.
pub proof fn law_group_texts_are_set(
    patch: PatchOpView,
    op: Seq<char>,
    path: Seq<char>,
    value: Option<JsonView>,
)
    requires
        asks_for(patch, op, Some(path), value),
    ensures
        ({
            let sets = same_ignoring_case(op, "add"@) || same_ignoring_case(op, "replace"@);
            let clears = same_ignoring_case(op, "remove"@);
            let none = Some(Seq::<char>::empty());
            &&& same_ignoring_case(path, "displayName"@) ==> {
                &&& clears ==> only_text(group_patch(patch), none, None)
                &&& sets ==> (match value {
                    Some(JsonView::Text(t)) => only_text(group_patch(patch), Some(t), None),
                    _ => refused(
                        group_patch(patch),
                        "invalidValue"@,
                        "displayName"@ + " must be a string"@,
                    ),
                })
                &&& !sets && !clears ==> refused(
                    group_patch(patch),
                    "invalidValue"@,
                    "Unsupported operation on "@ + "displayName"@,
                )
            }
            &&& same_ignoring_case(path, "externalId"@) ==> {
                &&& clears ==> only_text(group_patch(patch), None, none)
                &&& sets ==> (match value {
                    Some(JsonView::Text(t)) => only_text(group_patch(patch), None, Some(t)),
                    _ => refused(
                        group_patch(patch),
                        "invalidValue"@,
                        "externalId"@ + " must be a string"@,
                    ),
                })
                &&& !sets && !clears ==> refused(
                    group_patch(patch),
                    "invalidValue"@,
                    "Unsupported operation on "@ + "externalId"@,
                )
            }
            &&& !same_ignoring_case(path, "displayName"@) && !same_ignoring_case(
                path,
                "externalId"@,
            ) && !same_ignoring_case(path, "members"@) && !begins_with(path, "members["@)
                ==> refused(
                group_patch(patch),
                "invalidPath"@,
                "Unsupported patch path for Groups"@,
            )
        }),
{
    lemma_names();
    lemma_group_alone(patch, op, Some(path), value);
    reveal_strlit("members[");
    reveal_strlit("members");
    assert(ascii_lowercase("members["@) =~= "members["@);
    lemma_begins_with(path, "members["@);
    let lower = ascii_lowercase(path);
    assert(lower.len() == path.len());
    lemma_prefix_letter("members["@, lower, 0);
    reveal_strlit("displayname");
    reveal_strlit("externalid");
}

/// Operations of a group PATCH take effect in order: a body that carries those of two others
/// asks for the member operations of both, and for what the second sets and, where it is
/// silent, for what the first sets; the first refusal stands.
pub proof fn law_group_patches_join(first: PatchOpView, second: PatchOpView, both: PatchOpView)
    requires
        has_schema(first) && has_schema(second) && has_schema(both),
        first.operations.len() > 0,
        second.operations.len() > 0,
        both.operations == first.operations + second.operations,
    ensures
        match (group_patch(first), group_patch(second)) {
            (Ok(a), Ok(b)) => group_patch(both) matches Ok(asked) && asked.member_ops
                == a.member_ops + b.member_ops && asked.display_name == (if b.display_name is Some {
                b.display_name
            } else {
                a.display_name
            }) && asked.external_id == (if b.external_id is Some {
                b.external_id
            } else {
                a.external_id
            }),
            (Err(e), _) => group_patch(both) == Err::<GroupPatchView, ScimErrorView>(e),
            (Ok(_), Err(e)) => group_patch(both) == Err::<GroupPatchView, ScimErrorView>(e),
        },
{
    let nothing = GroupPatchView::nothing();
    lemma_try_fold_append(nothing, first.operations, second.operations, group_operation_step());
    if let Ok(a) = group_patch(first) {
        law_group_operations_in_order(first.operations, second.operations, a);
    }
}

/// Whether a name is one of those that an object may set on a group.
pub open spec fn names_group_attribute(name: Seq<char>) -> bool {
    same_ignoring_case(name, "displayName"@) || same_ignoring_case(name, "externalId"@)
        || same_ignoring_case(name, "members"@)
}

proof fn lemma_group_members_one_by_one(
    so_far: GroupPatchView,
    op: Seq<char>,
    members: Seq<MemberView>,
)
    requires
        forall|i: int| 0 <= i < members.len() ==> names_group_attribute((#[trigger] members[i]).name),
    ensures
        try_fold(
            so_far,
            members,
            group_member_step(crate::patch::patch_kind(ascii_lowercase(op))),
        ) == try_fold(so_far, one_by_one(op, members), group_operation_step()),
    decreases members.len(),
{
    lemma_names();
    if members.len() > 0 {
        let rest = members.drop_last();
        assert forall|i: int| 0 <= i < rest.len() implies names_group_attribute(
            (#[trigger] rest[i]).name,
        ) by {
            assert(rest[i] == members[i]);
        }
        lemma_group_members_one_by_one(so_far, op, rest);
        let all = one_by_one(op, members);
        assert(all.drop_last() =~= one_by_one(op, rest));
        let last = members.last();
        assert(all.last() == (PatchOperationView {
            op,
            path: Some(last.name),
            value: Some(last.value),
        }));
        assert(names_group_attribute(members[members.len() - 1].name));
        let lower = ascii_lowercase(last.name);
        assert(lower.len() == last.name.len());
        reveal_strlit("members[");
        reveal_strlit("members");
        reveal_strlit("displayname");
        reveal_strlit("externalid");
        lemma_prefix_letter("members["@, lower, 0);
    }
}

/// A group operation without a path, of any kind but a remove, asks for what the same
/// operations with each member's name as their path ask for, in order, and is refused as they
/// are.
pub proof fn law_group_pathless_is_member_by_member(
    whole: PatchOpView,
    singly: PatchOpView,
    op: Seq<char>,
    members: Seq<MemberView>,
)
    requires
        asks_for(whole, op, None, Some(JsonView::Object(members))),
        has_schema(singly),
        singly.operations == one_by_one(op, members),
        members.len() > 0,
        !same_ignoring_case(op, "remove"@),
        forall|i: int| 0 <= i < members.len() ==> names_group_attribute((#[trigger] members[i]).name),
    ensures
        group_patch(whole) == group_patch(singly),
{
    lemma_names();
    lemma_group_alone(whole, op, None, Some(JsonView::Object(members)));
    lemma_group_members_one_by_one(GroupPatchView::nothing(), op, members);
    assert(singly.operations.len() == members.len());
}

/// A group operation without a path, of any kind but a remove, asks for nothing where its
/// object is empty, and is refused where the first member of its object is no attribute of a
/// group.
pub proof fn law_group_pathless_beginnings(
    patch: PatchOpView,
    op: Seq<char>,
    members: Seq<MemberView>,
)
    requires
        asks_for(patch, op, None, Some(JsonView::Object(members))),
        !same_ignoring_case(op, "remove"@),
    ensures
        members.len() == 0 ==> only_text(group_patch(patch), None, None),
        members.len() > 0 && !names_group_attribute(members[0].name) ==> refused(
            group_patch(patch),
            "invalidPath"@,
            "Unsupported patch attribute for Groups"@,
        ),
{
    lemma_names();
    lemma_group_alone(patch, op, None, Some(JsonView::Object(members)));
    if members.len() > 0 {
        let kind = crate::patch::patch_kind(ascii_lowercase(op));
        let nothing = GroupPatchView::nothing();
        let first = members.take(1);
        assert(first + members.skip(1) =~= members);
        lemma_try_fold_append(nothing, first, members.skip(1), group_member_step(kind));
        reveal_with_fuel(try_fold, 2);
        assert(first.drop_last() =~= Seq::empty());
        assert(first.last() == members[0]);
    }
}

/// A group operation without a path that holds an attribute no group has is refused; so
/// is a remove without a path, and an operation without a path and an object.
pub proof fn law_group_pathless_refusals(
    patch: PatchOpView,
    op: Seq<char>,
    value: Option<JsonView>,
)
    requires
        asks_for(patch, op, None, value),
    ensures
        same_ignoring_case(op, "remove"@) ==> refused(
            group_patch(patch),
            "noTarget"@,
            "A remove operation must carry a path"@,
        ),
        !same_ignoring_case(op, "remove"@) ==> (match value {
            Some(JsonView::Object(members)) => (exists|i: int|
                0 <= i < members.len() && !names_group_attribute((#[trigger] members[i]).name))
                ==> group_patch(patch) is Err,
            _ => refused(
                group_patch(patch),
                "invalidValue"@,
                "Operation without path must carry an object value"@,
            ),
        }),
{
    lemma_names();
    lemma_group_alone(patch, op, None, value);
    if let Some(JsonView::Object(members)) = value {
        let kind = crate::patch::patch_kind(ascii_lowercase(op));
        if exists|i: int|
            0 <= i < members.len() && !names_group_attribute((#[trigger] members[i]).name) {
            let i = choose|i: int|
                0 <= i < members.len() && !names_group_attribute((#[trigger] members[i]).name);
            lemma_unknown_member_is_refused(GroupPatchView::nothing(), kind, members, i);
        }
    }
}

proof fn lemma_unknown_member_is_refused(
    so_far: GroupPatchView,
    kind: Option<crate::patch::PatchKind>,
    members: Seq<MemberView>,
    i: int,
)
    requires
        0 <= i < members.len(),
        !names_group_attribute(members[i].name),
    ensures
        try_fold(so_far, members, group_member_step(kind)) is Err,
    decreases members.len(),
{
    lemma_names();
    if i < members.len() - 1 {
        assert(members.drop_last()[i] == members[i]);
        lemma_unknown_member_is_refused(so_far, kind, members.drop_last(), i);
    }
}

} // verus!
