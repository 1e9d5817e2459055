//! SCIM PatchOp parsing, RFC 7644 section 3.5.2.
//!
//! Identity providers take liberties that are met here: "op" comes in any
//! casing, booleans may come as strings, and an operation may have no "path"
//! and carry an object of attributes instead.

use vstd::prelude::*;
use vstd::string::*;

use crate::error::{ScimError, ScimErrorView};
use crate::fold::{lemma_try_fold_next, lemma_try_fold_stops, try_fold};
use crate::json::{Json, JsonView, Member, MemberView, member_views, views};
use crate::models::{scim_bool, ScimBool};
use crate::text::{
    ascii_lowercase, contains_quote, eq_ignore_ascii_case, join2, optional, same_ignoring_case,
    split_once_whitespace, split_word, starts_with, text_eq, texts, to_ascii_lowercase, to_chars,
    trim_end, trim_start, trimmed_end, trimmed_start, unquote, unquoted,
};

verus! {

pub const PATCH_OP_URN: &'static str = "urn:ietf:params:scim:api:messages:2.0:PatchOp";

/// A PATCH body.
#[derive(Debug)]
pub struct PatchOp {
    pub schemas: Vec<String>,
    pub operations: Vec<PatchOperation>,
}

/// One operation of a PATCH body.
#[derive(Debug)]
pub struct PatchOperation {
    pub op: String,
    pub path: Option<String>,
    pub value: Option<Json>,
}

/// The mathematical counterpart of [`PatchOp`].
pub ghost struct PatchOpView {
    pub schemas: Seq<Seq<char>>,
    pub operations: Seq<PatchOperationView>,
}

/// The mathematical counterpart of [`PatchOperation`].
pub ghost struct PatchOperationView {
    pub op: Seq<char>,
    pub path: Option<Seq<char>>,
    pub value: Option<JsonView>,
}

impl View for PatchOperation {
    type V = PatchOperationView;

    open spec fn view(&self) -> PatchOperationView {
        PatchOperationView {
            op: self.op@,
            path: optional(self.path),
            value: match self.value {
                Some(value) => Some(value@),
                None => None,
            },
        }
    }
}

/// The views of a sequence of operations.
pub open spec fn operation_views(operations: Seq<PatchOperation>) -> Seq<PatchOperationView> {
    operations.map_values(|operation: PatchOperation| operation@)
}

impl View for PatchOp {
    type V = PatchOpView;

    open spec fn view(&self) -> PatchOpView {
        PatchOpView {
            schemas: texts(self.schemas@),
            operations: operation_views(self.operations@),
        }
    }
}

/// What a PATCH operation does.
#[derive(Clone, Copy, Debug, PartialEq, Eq, Structural)]
pub enum PatchKind {
    Add,
    Remove,
    Replace,
}

/// The kind that a lower-case operation name stands for.
pub open spec fn patch_kind(lowered: Seq<char>) -> Option<PatchKind> {
    if lowered == "add"@ {
        Some(PatchKind::Add)
    } else if lowered == "remove"@ {
        Some(PatchKind::Remove)
    } else if lowered == "replace"@ {
        Some(PatchKind::Replace)
    } else {
        None
    }
}

/// Reads a lower-case operation name.
fn parse_patch_kind(lowered: &str) -> (r: Option<PatchKind>)
    ensures
        r == patch_kind(lowered@),
{
    if text_eq(lowered, "add") {
        Some(PatchKind::Add)
    } else if text_eq(lowered, "remove") {
        Some(PatchKind::Remove)
    } else if text_eq(lowered, "replace") {
        Some(PatchKind::Replace)
    } else {
        None
    }
}

/// What a User PATCH asked for, after normalization.
#[derive(Debug, PartialEq)]
pub struct UserPatch {
    pub active: Option<bool>,
    pub external_id: Option<String>,
}

/// The mathematical counterpart of [`UserPatch`].
#[verifier::ext_equal]
pub ghost struct UserPatchView {
    pub active: Option<bool>,
    pub external_id: Option<Seq<char>>,
}

impl View for UserPatch {
    type V = UserPatchView;

    open spec fn view(&self) -> UserPatchView {
        UserPatchView { active: self.active, external_id: optional(self.external_id) }
    }
}

impl UserPatchView {
    /// A patch that asks for nothing.
    pub open spec fn nothing() -> Self {
        UserPatchView { active: None, external_id: None }
    }
}

/// Lower-case names of the attributes that directories map by default and that
/// are not synced after creation. They are accepted and ignored, because a
/// refusal would surface as a sync error on every rename in the directory.
pub open spec fn is_unsynced_name(lower: Seq<char>) -> bool {
    ||| lower == "displayname"@
    ||| lower == "name"@
    ||| "name."@.is_prefix_of(lower)
    ||| lower == "emails"@
    ||| "emails["@.is_prefix_of(lower)
    ||| lower == "username"@
    ||| lower == "title"@
    ||| lower == "roles"@
    ||| lower == "preferredlanguage"@
    ||| "addresses"@.is_prefix_of(lower)
    ||| "phonenumbers"@.is_prefix_of(lower)
    ||| "urn:ietf:params:scim:schemas:extension:enterprise:2.0:user"@.is_prefix_of(lower)
}

fn is_ignored_lowercase_name(lower: &str) -> (r: bool)
    ensures
        r == is_unsynced_name(lower@),
{
    text_eq(lower, "displayname") || text_eq(lower, "name") || starts_with(lower, "name.")
        || text_eq(lower, "emails") || starts_with(lower, "emails[") || text_eq(lower, "username")
        || text_eq(lower, "title") || text_eq(lower, "roles") || text_eq(
        lower,
        "preferredlanguage",
    ) || starts_with(lower, "addresses") || starts_with(lower, "phonenumbers") || starts_with(
        lower,
        "urn:ietf:params:scim:schemas:extension:enterprise:2.0:user",
    )
}

/// Whether a path names an attribute that is accepted and ignored.
pub fn is_ignored_user_attribute(path: &str) -> (r: bool)
    ensures
        r == is_unsynced_name(ascii_lowercase(path@)),
{
    is_ignored_lowercase_name(to_ascii_lowercase(path).as_str())
}

/// The attribute of a User that a name stands for.
#[derive(Clone, Copy, Debug, PartialEq, Eq, Structural)]
pub enum UserAttribute {
    Active,
    ExternalId,
    Unsynced,
    Unknown,
}

/// The attribute of a User that `name` stands for.
pub open spec fn user_attribute(name: Seq<char>) -> UserAttribute {
    if same_ignoring_case(name, "active"@) {
        UserAttribute::Active
    } else if same_ignoring_case(name, "externalid"@) {
        UserAttribute::ExternalId
    } else if is_unsynced_name(ascii_lowercase(name)) {
        UserAttribute::Unsynced
    } else {
        UserAttribute::Unknown
    }
}

fn parse_user_attribute(name: &str) -> (r: UserAttribute)
    ensures
        r == user_attribute(name@),
{
    if eq_ignore_ascii_case(name, "active") {
        UserAttribute::Active
    } else if eq_ignore_ascii_case(name, "externalid") {
        UserAttribute::ExternalId
    } else if is_ignored_user_attribute(name) {
        UserAttribute::Unsynced
    } else {
        UserAttribute::Unknown
    }
}

/// Sets `active` to a JSON value.
pub open spec fn set_active(so_far: UserPatchView, value: JsonView) -> Result<
    UserPatchView,
    ScimErrorView,
> {
    match scim_bool(value) {
        Some(active) => Ok(UserPatchView { active: Some(active), ..so_far }),
        None => Err(
            ScimErrorView::bad_request(
                "invalidValue"@,
                "Expected a boolean value for active"@,
            ),
        ),
    }
}

/// Sets `externalId` to a JSON value.
pub open spec fn set_external_id(so_far: UserPatchView, value: Option<JsonView>) -> Result<
    UserPatchView,
    ScimErrorView,
> {
    match value {
        Some(JsonView::Text(id)) => Ok(UserPatchView { external_id: Some(id), ..so_far }),
        _ => Err(ScimErrorView::bad_request("invalidValue"@, "externalId must be a string"@)),
    }
}

/// What one member of a path-less operation's object does.
pub open spec fn user_member(so_far: UserPatchView, member: MemberView) -> Result<
    UserPatchView,
    ScimErrorView,
> {
    match user_attribute(member.name) {
        UserAttribute::Active => set_active(so_far, member.value),
        UserAttribute::ExternalId => set_external_id(so_far, Some(member.value)),
        UserAttribute::Unsynced => Ok(so_far),
        UserAttribute::Unknown => Err(
            ScimErrorView::bad_request("invalidPath"@, "Unsupported patch attribute"@),
        ),
    }
}

/// [`user_member`] as a step of a fold.
pub open spec fn user_member_step() -> spec_fn(UserPatchView, MemberView) -> Result<
    UserPatchView,
    ScimErrorView,
> {
    |so_far: UserPatchView, member: MemberView| user_member(so_far, member)
}

/// What one operation of a User PATCH does.
pub open spec fn user_operation(so_far: UserPatchView, operation: PatchOperationView) -> Result<
    UserPatchView,
    ScimErrorView,
> {
    match patch_kind(ascii_lowercase(operation.op)) {
        None => Err(ScimErrorView::bad_request("invalidValue"@, "Unsupported patch operation"@)),
        Some(kind) => match operation.path {
            Some(path) => match user_attribute(path) {
                UserAttribute::Active => if kind is Remove {
                    Err(
                        ScimErrorView::bad_request(
                            "invalidValue"@,
                            "active cannot be removed, set it to false"@,
                        ),
                    )
                } else {
                    set_active(
                        so_far,
                        match operation.value {
                            Some(value) => value,
                            None => JsonView::Null,
                        },
                    )
                },
                UserAttribute::ExternalId => if kind is Remove {
                    Ok(UserPatchView { external_id: Some(Seq::empty()), ..so_far })
                } else {
                    set_external_id(so_far, operation.value)
                },
                UserAttribute::Unsynced => Ok(so_far),
                UserAttribute::Unknown => Err(
                    ScimErrorView::bad_request("invalidPath"@, "Unsupported patch path"@),
                ),
            },
            None => if kind is Remove {
                Err(
                    ScimErrorView::bad_request(
                        "noTarget"@,
                        "A remove operation must carry a path"@,
                    ),
                )
            } else {
                match operation.value {
                    Some(JsonView::Object(members)) => try_fold(
                        so_far,
                        members,
                        user_member_step(),
                    ),
                    _ => Err(
                        ScimErrorView::bad_request(
                            "invalidValue"@,
                            "Operation without path must carry an object value"@,
                        ),
                    ),
                }
            },
        },
    }
}

/// [`user_operation`] as a step of a fold.
pub open spec fn user_operation_step() -> spec_fn(UserPatchView, PatchOperationView) -> Result<
    UserPatchView,
    ScimErrorView,
> {
    |so_far: UserPatchView, operation: PatchOperationView| user_operation(so_far, operation)
}

/// What every PATCH body must have before its operations are looked at.
pub open spec fn patch_header(patch: PatchOpView) -> Result<(), ScimErrorView> {
    if !patch.schemas.contains(PATCH_OP_URN@) {
        Err(ScimErrorView::bad_request("invalidValue"@, "Missing PatchOp schema"@))
    } else if patch.operations.len() == 0 {
        Err(ScimErrorView::bad_request("invalidValue"@, "No operations provided"@))
    } else {
        Ok(())
    }
}

/// What a User PATCH asks for: its operations, applied in order.
pub open spec fn user_patch(patch: PatchOpView) -> Result<UserPatchView, ScimErrorView> {
    match patch_header(patch) {
        Err(e) => Err(e),
        Ok(_) => try_fold(UserPatchView::nothing(), patch.operations, user_operation_step()),
    }
}

fn check_patch_header(patch: &PatchOp) -> (r: Result<(), ScimError>)
    ensures
        match r {
            Ok(_) => patch_header(patch@) is Ok,
            Err(e) => patch_header(patch@) == Err::<(), ScimErrorView>(e@),
        },
{
    let mut found = false;
    let mut i: usize = 0;
    while i < patch.schemas.len() && !found
        invariant
            i <= patch.schemas.len(),
            found ==> patch@.schemas.contains(PATCH_OP_URN@),
            !found ==> forall|j: int| 0 <= j < i ==> patch@.schemas[j] != PATCH_OP_URN@,
        decreases patch.schemas.len() - i,
    {
        if text_eq(patch.schemas[i].as_str(), PATCH_OP_URN) {
            assert(patch@.schemas[i as int] == PATCH_OP_URN@);
            found = true;
        }
        i += 1;
    }
    if !found {
        return Err(ScimError::bad_request("invalidValue", "Missing PatchOp schema"));
    }
    if patch.operations.len() == 0 {
        return Err(ScimError::bad_request("invalidValue", "No operations provided"));
    }
    Ok(())
}

fn coerce_bool(value: &Json) -> (r: Result<bool, ScimError>)
    ensures
        match r {
            Ok(active) => scim_bool(value@) == Some(active),
            Err(e) => scim_bool(value@) is None && e@ == ScimErrorView::bad_request(
                "invalidValue"@,
                "Expected a boolean value for active"@,
            ),
        },
{
    match ScimBool::from_json(value) {
        Some(b) => Ok(b.0),
        None => Err(ScimError::bad_request("invalidValue", "Expected a boolean value for active")),
    }
}

// An externalId to store. A remove clears it: the empty text is stored as absent.
fn external_id_value(value: Option<&Json>, is_remove: bool) -> (r: Result<String, ScimError>)
    ensures
        match r {
            Ok(id) => if is_remove {
                id@ == Seq::<char>::empty()
            } else {
                value matches Some(v) && v@ == JsonView::Text(id@)
            },
            Err(e) => !is_remove && !(value matches Some(v) && v@ is Text) && e@
                == ScimErrorView::bad_request("invalidValue"@, "externalId must be a string"@),
        },
{
    if is_remove {
        return Ok(String::new());
    }
    match value {
        Some(Json::Text(id)) => Ok(id.clone()),
        _ => Err(ScimError::bad_request("invalidValue", "externalId must be a string")),
    }
}

fn apply_user_members(start: UserPatch, members: &Vec<Member>) -> (r: Result<UserPatch, ScimError>)
    ensures
        match r {
            Ok(p) => try_fold(start@, member_views(members@), user_member_step()) == Ok::<
                UserPatchView,
                ScimErrorView,
            >(p@),
            Err(e) => try_fold(start@, member_views(members@), user_member_step()) == Err::<
                UserPatchView,
                ScimErrorView,
            >(e@),
        },
{
    let ghost all = member_views(members@);
    let ghost step = user_member_step();
    let ghost first = start@;
    let mut result = start;
    let mut i: usize = 0;
    assert(all.take(0) =~= Seq::empty());
    while i < members.len()
        invariant
            i <= members.len(),
            first == start@,
            all == member_views(members@),
            step == user_member_step(),
            try_fold(first, all.take(i as int), step) == Ok::<UserPatchView, ScimErrorView>(
                result@,
            ),
        decreases members.len() - i,
    {
        let member = &members[i];
        proof {
            lemma_try_fold_next(first, all, i as int, step);
        }
        match parse_user_attribute(member.name.as_str()) {
            UserAttribute::Active => match coerce_bool(&member.value) {
                Ok(active) => {
                    result.active = Some(active);
                },
                Err(e) => {
                    proof {
                        lemma_try_fold_stops(first, all, i + 1, step);
                    }
                    return Err(e);
                },
            },
            UserAttribute::ExternalId => match external_id_value(Some(&member.value), false) {
                Ok(id) => {
                    result.external_id = Some(id);
                },
                Err(e) => {
                    proof {
                        lemma_try_fold_stops(first, all, i + 1, step);
                    }
                    return Err(e);
                },
            },
            UserAttribute::Unsynced => {},
            UserAttribute::Unknown => {
                proof {
                    lemma_try_fold_stops(first, all, i + 1, step);
                }
                return Err(ScimError::bad_request("invalidPath", "Unsupported patch attribute"));
            },
        }
        i += 1;
    }
    assert(all.take(i as int) =~= all);
    Ok(result)
}

fn apply_user_operation(start: UserPatch, operation: &PatchOperation) -> (r: Result<
    UserPatch,
    ScimError,
>)
    ensures
        match r {
            Ok(p) => user_operation(start@, operation@) == Ok::<UserPatchView, ScimErrorView>(p@),
            Err(e) => user_operation(start@, operation@) == Err::<UserPatchView, ScimErrorView>(e@),
        },
{
    let mut result = start;
    let op = to_ascii_lowercase(operation.op.as_str());
    let Some(kind) = parse_patch_kind(op.as_str()) else {
        return Err(ScimError::bad_request("invalidValue", "Unsupported patch operation"));
    };
    let is_remove = kind == PatchKind::Remove;
    // The kind is checked per attribute, not up front: directories send a remove
    // whenever a mapped source attribute is cleared, also on ignored attributes.
    match &operation.path {
        Some(path) => match parse_user_attribute(path.as_str()) {
            UserAttribute::Active => {
                if is_remove {
                    // Ambiguous, and a wrong guess strands a member or drops a
                    // deprovision: the client has to be explicit.
                    return Err(
                        ScimError::bad_request(
                            "invalidValue",
                            "active cannot be removed, set it to false",
                        ),
                    );
                }
                let active = match &operation.value {
                    Some(value) => coerce_bool(value),
                    None => coerce_bool(&Json::Null),
                };
                match active {
                    Ok(active) => {
                        result.active = Some(active);
                    },
                    Err(e) => return Err(e),
                }
            },
            UserAttribute::ExternalId => match external_id_value(
                operation.value.as_ref(),
                is_remove,
            ) {
                Ok(id) => {
                    result.external_id = Some(id);
                },
                Err(e) => return Err(e),
            },
            UserAttribute::Unsynced => {},
            UserAttribute::Unknown => {
                return Err(ScimError::bad_request("invalidPath", "Unsupported patch path"));
            },
        },
        None => {
            if is_remove {
                return Err(
                    ScimError::bad_request("noTarget", "A remove operation must carry a path"),
                );
            }
            match &operation.value {
                Some(Json::Object(members)) => {
                    proof {
                        crate::json::lemma_object_view(operation.value->Some_0);
                    }
                    return apply_user_members(result, members);
                },
                _ => {
                    return Err(
                        ScimError::bad_request(
                            "invalidValue",
                            "Operation without path must carry an object value",
                        ),
                    );
                },
            }
        },
    }
    Ok(result)
}

/// Reads a User PATCH.
pub fn parse_user_patch(patch: &PatchOp) -> (r: Result<UserPatch, ScimError>)
    ensures
        match r {
            Ok(p) => user_patch(patch@) == Ok::<UserPatchView, ScimErrorView>(p@),
            Err(e) => user_patch(patch@) == Err::<UserPatchView, ScimErrorView>(e@),
        },
{
    if let Err(e) = check_patch_header(patch) {
        return Err(e);
    }
    let ghost all = patch@.operations;
    let ghost step = user_operation_step();
    let ghost first = UserPatchView::nothing();
    let mut result = UserPatch { active: None, external_id: None };
    let mut i: usize = 0;
    assert(all.take(0) =~= Seq::empty());
    while i < patch.operations.len()
        invariant
            i <= patch.operations.len(),
            patch_header(patch@) is Ok,
            first == UserPatchView::nothing(),
            all == patch@.operations,
            step == user_operation_step(),
            try_fold(first, all.take(i as int), step) == Ok::<UserPatchView, ScimErrorView>(
                result@,
            ),
        decreases patch.operations.len() - i,
    {
        proof {
            lemma_try_fold_next(first, all, i as int, step);
        }
        match apply_user_operation(result, &patch.operations[i]) {
            Ok(next) => {
                result = next;
            },
            Err(e) => {
                proof {
                    lemma_try_fold_stops(first, all, i + 1, step);
                }
                return Err(e);
            },
        }
        i += 1;
    }
    assert(all.take(i as int) =~= all);
    Ok(result)
}

/// The names of object members that are accepted and not applied.
pub open spec fn unsynced_names(members: Seq<MemberView>) -> Seq<Seq<char>>
    decreases members.len(),
{
    if members.len() == 0 {
        Seq::empty()
    } else {
        let earlier = unsynced_names(members.drop_last());
        if user_attribute(members.last().name) is Unsynced {
            earlier.push(members.last().name)
        } else {
            earlier
        }
    }
}

/// The attributes that one operation writes to, and that are accepted and not applied.
pub open spec fn unsynced_in(operation: PatchOperationView) -> Seq<Seq<char>> {
    match operation.path {
        Some(path) => if user_attribute(path) is Unsynced {
            seq![path]
        } else {
            Seq::empty()
        },
        None => match operation.value {
            Some(JsonView::Object(members)) => unsynced_names(members),
            _ => Seq::empty(),
        },
    }
}

/// The attributes that a patch writes to, and that are accepted and not applied.
pub open spec fn unsynced(operations: Seq<PatchOperationView>) -> Seq<Seq<char>>
    decreases operations.len(),
{
    if operations.len() == 0 {
        Seq::empty()
    } else {
        unsynced(operations.drop_last()) + unsynced_in(operations.last())
    }
}

fn push_unsynced_names(names: &mut Vec<String>, members: &Vec<Member>)
    ensures
        texts(final(names)@) == texts(old(names)@) + unsynced_names(member_views(members@)),
{
    let ghost all = member_views(members@);
    let ghost before = texts(names@);
    let mut i: usize = 0;
    assert(texts(names@) =~= before + unsynced_names(all.take(0)));
    while i < members.len()
        invariant
            i <= members.len(),
            all == member_views(members@),
            texts(names@) == before + unsynced_names(all.take(i as int)),
        decreases members.len() - i,
    {
        let ghost so_far = names@;
        proof {
            assert(all.take(i + 1).drop_last() =~= all.take(i as int));
            assert(all.take(i + 1).last() == all[i as int]);
        }
        if parse_user_attribute(members[i].name.as_str()) == UserAttribute::Unsynced {
            names.push(members[i].name.clone());
            assert(texts(names@) =~= texts(so_far).push(all[i as int].name));
        }
        assert(texts(names@) =~= before + unsynced_names(all.take(i + 1)));
        i += 1;
    }
    assert(all.take(i as int) =~= all);
}

/// Lists the attributes that a patch writes to, and that are accepted and not applied.
///
/// The client records such a write as done and never retries it, so that the directory and
/// the vault disagree from then on: a log of these is the only place where that shows.
pub fn unsynced_attributes(patch: &PatchOp) -> (r: Vec<String>)
    ensures
        texts(r@) == unsynced(patch@.operations),
{
    let ghost all = patch@.operations;
    let mut names: Vec<String> = Vec::new();
    let mut i: usize = 0;
    assert(texts(names@) =~= unsynced(all.take(0)));
    while i < patch.operations.len()
        invariant
            i <= patch.operations.len(),
            all == patch@.operations,
            texts(names@) == unsynced(all.take(i as int)),
        decreases patch.operations.len() - i,
    {
        let ghost so_far = names@;
        let operation = &patch.operations[i];
        proof {
            assert(all.take(i + 1).drop_last() =~= all.take(i as int));
            assert(all.take(i + 1).last() == operation@);
        }
        match &operation.path {
            Some(path) => {
                if parse_user_attribute(path.as_str()) == UserAttribute::Unsynced {
                    names.push(path.clone());
                    assert(texts(names@) =~= texts(so_far) + seq![path@]);
                }
            },
            None => {
                if let Some(Json::Object(members)) = &operation.value {
                    proof {
                        crate::json::lemma_object_view(operation.value->Some_0);
                    }
                    push_unsynced_names(&mut names, members);
                }
            },
        }
        assert(texts(names@) =~= unsynced(all.take(i + 1)));
        i += 1;
    }
    assert(all.take(i as int) =~= all);
    names
}

// ---------------------------------------------------------------------------
// Group PATCH
// ---------------------------------------------------------------------------

/// One membership change of a PatchOp. The values are the ids of SCIM Users.
#[derive(Debug, PartialEq)]
pub enum MemberOp {
    Add(Vec<String>),
    Remove(Vec<String>),
    /// Full replacement of the member set.
    Replace(Vec<String>),
}

/// The mathematical counterpart of [`MemberOp`].
pub ghost enum MemberOpView {
    Add(Seq<Seq<char>>),
    Remove(Seq<Seq<char>>),
    Replace(Seq<Seq<char>>),
}

impl View for MemberOp {
    type V = MemberOpView;

    open spec fn view(&self) -> MemberOpView {
        match self {
            MemberOp::Add(values) => MemberOpView::Add(texts(values@)),
            MemberOp::Remove(values) => MemberOpView::Remove(texts(values@)),
            MemberOp::Replace(values) => MemberOpView::Replace(texts(values@)),
        }
    }
}

impl MemberOpView {
    /// The ids that the operation names.
    pub open spec fn values(self) -> Seq<Seq<char>> {
        match self {
            MemberOpView::Add(values) => values,
            MemberOpView::Remove(values) => values,
            MemberOpView::Replace(values) => values,
        }
    }
}

impl MemberOp {
    /// The ids that the operation names.
    pub fn values(&self) -> (r: &Vec<String>)
        ensures
            texts(r@) == self@.values(),
    {
        match self {
            MemberOp::Add(values) => values,
            MemberOp::Remove(values) => values,
            MemberOp::Replace(values) => values,
        }
    }
}

/// What a Group PATCH asked for, after normalization.
///
/// The member operations are an ordered list, not three buckets: RFC 7644
/// section 3.5.2 applies operations in the order supplied.
#[derive(Debug, PartialEq)]
pub struct GroupPatch {
    pub display_name: Option<String>,
    pub external_id: Option<String>,
    pub member_ops: Vec<MemberOp>,
}

/// The mathematical counterpart of [`GroupPatch`].
#[verifier::ext_equal]
pub ghost struct GroupPatchView {
    pub display_name: Option<Seq<char>>,
    pub external_id: Option<Seq<char>>,
    pub member_ops: Seq<MemberOpView>,
}

/// The views of a sequence of member operations.
pub open spec fn member_op_views(ops: Seq<MemberOp>) -> Seq<MemberOpView> {
    ops.map_values(|op: MemberOp| op@)
}

impl View for GroupPatch {
    type V = GroupPatchView;

    open spec fn view(&self) -> GroupPatchView {
        GroupPatchView {
            display_name: optional(self.display_name),
            external_id: optional(self.external_id),
            member_ops: member_op_views(self.member_ops@),
        }
    }
}

/// How many ids a list of member operations names, each counted as often as it is named.
pub open spec fn total_values(ops: Seq<MemberOpView>) -> nat
    decreases ops.len(),
{
    if ops.len() == 0 {
        0
    } else {
        total_values(ops.drop_last()) + ops.last().values().len()
    }
}

impl GroupPatchView {
    /// A patch that asks for nothing.
    pub open spec fn nothing() -> Self {
        GroupPatchView { display_name: None, external_id: None, member_ops: Seq::empty() }
    }
}

proof fn lemma_total_values_grows(ops: Seq<MemberOpView>, n: int)
    requires
        0 <= n <= ops.len(),
    ensures
        total_values(ops.take(n)) <= total_values(ops),
    decreases ops.len(),
{
    if n < ops.len() {
        lemma_total_values_grows(ops.drop_last(), n);
        assert(ops.drop_last().take(n) =~= ops.take(n));
    } else {
        assert(ops.take(n) =~= ops);
    }
}

impl GroupPatch {
    /// The ids named across every member operation, for the inbound size cap.
    /// A total that no machine word holds counts as the largest one.
    pub fn member_count(&self) -> (r: usize)
        ensures
            total_values(self@.member_ops) <= usize::MAX ==> r == total_values(self@.member_ops),
            total_values(self@.member_ops) > usize::MAX ==> r == usize::MAX,
    {
        let ghost all = self@.member_ops;
        let mut total: usize = 0;
        let mut i: usize = 0;
        assert(all.take(0) =~= Seq::empty());
        while i < self.member_ops.len()
            invariant
                i <= self.member_ops.len(),
                all == member_op_views(self.member_ops@),
                total == total_values(all.take(i as int)),
            decreases self.member_ops.len() - i,
        {
            let n: usize = self.member_ops[i].values().len();
            proof {
                assert(all.take(i + 1).drop_last() =~= all.take(i as int));
                assert(all.take(i + 1).last() == self.member_ops@[i as int]@);
                lemma_total_values_grows(all, i + 1);
            }
            match total.checked_add(n) {
                Some(sum) => {
                    total = sum;
                },
                None => return usize::MAX,
            }
            i += 1;
        }
        assert(all.take(i as int) =~= all);
        total
    }
}

/// The id in a path of the form `members[value eq "<id>"]`. A quote inside the id is not
/// supported: what follows it would be read as part of the id, and a wrong id removes the
/// wrong person.
pub open spec fn members_filter_value(path: Seq<char>) -> Option<Seq<char>> {
    let prefix = "members["@;
    if path.len() <= prefix.len() || !same_ignoring_case(path.take(prefix.len() as int), prefix)
        || path.last() != ']' {
        None
    } else {
        match split_word(path.subrange(prefix.len() as int, path.len() - 1)) {
            Some((attribute, rest)) => if same_ignoring_case(attribute, "value"@) {
                match split_word(trimmed_start(rest)) {
                    Some((operator, rest)) => if same_ignoring_case(operator, "eq"@) {
                        match unquoted(trimmed_end(trimmed_start(rest))) {
                            Some(value) => if value.len() > 0 && !value.contains('"') {
                                Some(value)
                            } else {
                                None
                            },
                            None => None,
                        }
                    } else {
                        None
                    },
                    None => None,
                }
            } else {
                None
            },
            None => None,
        }
    }
}

/// Reads the id out of a path of the form `members[value eq "<id>"]`.
///
/// Some directories remove single members with such a filter path in place of a
/// value list.
pub fn parse_members_filter_path(path: &str) -> (r: Option<String>)
    ensures
        optional(r) == members_filter_value(path@),
{
    let chars = to_chars(path);
    let n: usize = chars.len();
    proof {
        reveal_strlit("members[");
    }
    if n <= 8 {
        return None;
    }
    if !eq_ignore_ascii_case(path.substring_char(0, 8), "members[") || chars[n - 1] != ']' {
        assert(path@.take(8) =~= path@.subrange(0, 8));
        return None;
    }
    assert(path@.take(8) =~= path@.subrange(0, 8));
    let inner = path.substring_char(8, n - 1);
    let Some((attribute, rest)) = split_once_whitespace(inner) else {
        return None;
    };
    if !eq_ignore_ascii_case(attribute, "value") {
        return None;
    }
    let Some((operator, rest)) = split_once_whitespace(trim_start(rest)) else {
        return None;
    };
    if !eq_ignore_ascii_case(operator, "eq") {
        return None;
    }
    let Some(value) = unquote(trim_end(trim_start(rest))) else {
        return None;
    };
    if value.is_empty() || contains_quote(value) {
        return None;
    }
    Some(value.to_owned())
}

/// The error of a member list that is none.
pub open spec fn invalid_members() -> ScimErrorView {
    ScimErrorView::bad_request(
        "invalidValue"@,
        "members value must be an array of {value} objects"@,
    )
}

/// Whether a JSON value is an object with a text called `value`.
pub open spec fn names_member(item: JsonView) -> bool {
    item.get("value"@) matches Some(value) && value is Text
}

/// The text called `value` of an object that has one.
pub open spec fn named_member(item: JsonView) -> Seq<char> {
    item.get("value"@)->Some_0->Text_0
}

/// The ids in a list of JSON values, each an object with a text called `value`.
pub open spec fn listed_members(items: Seq<JsonView>) -> Result<Seq<Seq<char>>, ScimErrorView> {
    if forall|i: int| 0 <= i < items.len() ==> names_member(#[trigger] items[i]) {
        Ok(items.map_values(|item: JsonView| named_member(item)))
    } else {
        Err(invalid_members())
    }
}

/// The ids in a PATCH value: either an array of objects, or a single object.
pub open spec fn member_ids(value: Option<JsonView>) -> Result<Seq<Seq<char>>, ScimErrorView> {
    match value {
        Some(JsonView::Array(items)) => listed_members(items),
        Some(JsonView::Object(members)) => listed_members(seq![JsonView::Object(members)]),
        _ => Err(invalid_members()),
    }
}

fn member_value(item: &Json) -> (r: Option<String>)
    ensures
        match r {
            Some(id) => names_member(item@) && named_member(item@) == id@,
            None => !names_member(item@),
        },
{
    match item.get("value") {
        Some(Json::Text(id)) => Some(id.clone()),
        _ => None,
    }
}

fn member_values(value: Option<&Json>) -> (r: Result<Vec<String>, ScimError>)
    ensures
        ({
            let wanted = member_ids(match value {
                Some(v) => Some(v@),
                None => None,
            });
            match r {
                Ok(ids) => wanted == Ok::<Seq<Seq<char>>, ScimErrorView>(texts(ids@)),
                Err(e) => wanted == Err::<Seq<Seq<char>>, ScimErrorView>(e@),
            }
        }),
{
    match value {
        Some(Json::Array(items)) => {
            let ghost all = views(items@);
            assert(value->Some_0@->Array_0 =~= all);
            let mut ids: Vec<String> = Vec::new();
            let mut i: usize = 0;
            while i < items.len()
                invariant
                    i <= items.len(),
                    value matches Some(v) && v@ == JsonView::Array(all),
                    all == views(items@),
                    ids.len() == i,
                    forall|j: int|
                        0 <= j < i ==> names_member(#[trigger] all[j]) && named_member(all[j])
                            == ids@[j]@,
                decreases items.len() - i,
            {
                match member_value(&items[i]) {
                    Some(id) => {
                        ids.push(id);
                    },
                    None => {
                        assert(!names_member(all[i as int]));
                        return Err(
                            ScimError::bad_request(
                                "invalidValue",
                                "members value must be an array of {value} objects",
                            ),
                        );
                    },
                }
                i += 1;
            }
            assert(texts(ids@) =~= all.map_values(|item: JsonView| named_member(item)));
            Ok(ids)
        },
        Some(single) => {
            let ghost view = single@;
            match single {
                Json::Object(_) => {
                    let ghost items = seq![view];
                    match member_value(single) {
                        Some(id) => {
                            let mut ids: Vec<String> = Vec::new();
                            ids.push(id);
                            assert(texts(ids@) =~= items.map_values(
                                |item: JsonView| named_member(item),
                            ));
                            Ok(ids)
                        },
                        None => {
                            assert(!names_member(items[0]));
                            Err(
                                ScimError::bad_request(
                                    "invalidValue",
                                    "members value must be an array of {value} objects",
                                ),
                            )
                        },
                    }
                },
                _ => Err(
                    ScimError::bad_request(
                        "invalidValue",
                        "members value must be an array of {value} objects",
                    ),
                ),
            }
        },
        None => Err(
            ScimError::bad_request(
                "invalidValue",
                "members value must be an array of {value} objects",
            ),
        ),
    }
}

/// The member operation of a kind, on a list of ids.
pub open spec fn member_change(kind: Option<PatchKind>, values: Seq<Seq<char>>) -> Result<
    MemberOpView,
    ScimErrorView,
> {
    match kind {
        Some(PatchKind::Add) => Ok(MemberOpView::Add(values)),
        Some(PatchKind::Remove) => Ok(MemberOpView::Remove(values)),
        Some(PatchKind::Replace) => Ok(MemberOpView::Replace(values)),
        None => Err(
            ScimErrorView::bad_request("invalidValue"@, "Unsupported operation on members"@),
        ),
    }
}

/// Adds a member operation behind those already there.
pub open spec fn push_member_change(
    so_far: GroupPatchView,
    kind: Option<PatchKind>,
    values: Result<Seq<Seq<char>>, ScimErrorView>,
) -> Result<GroupPatchView, ScimErrorView> {
    match values {
        Err(e) => Err(e),
        Ok(values) => match member_change(kind, values) {
            Err(e) => Err(e),
            Ok(op) => Ok(GroupPatchView { member_ops: so_far.member_ops.push(op), ..so_far }),
        },
    }
}

/// A displayName or externalId to store. A remove clears the attribute, whatever
/// value comes with it.
pub open spec fn group_text(
    kind: Option<PatchKind>,
    value: Option<JsonView>,
    attribute: Seq<char>,
) -> Result<Seq<char>, ScimErrorView> {
    match kind {
        Some(PatchKind::Remove) => Ok(Seq::empty()),
        Some(_) => match value {
            Some(JsonView::Text(text)) => Ok(text),
            _ => Err(
                ScimErrorView::bad_request("invalidValue"@, attribute + " must be a string"@),
            ),
        },
        None => Err(
            ScimErrorView::bad_request("invalidValue"@, "Unsupported operation on "@ + attribute),
        ),
    }
}

/// Sets displayName.
pub open spec fn set_display_name(
    so_far: GroupPatchView,
    kind: Option<PatchKind>,
    value: Option<JsonView>,
) -> Result<GroupPatchView, ScimErrorView> {
    match group_text(kind, value, "displayName"@) {
        Ok(text) => Ok(GroupPatchView { display_name: Some(text), ..so_far }),
        Err(e) => Err(e),
    }
}

/// Sets externalId.
pub open spec fn set_group_external_id(
    so_far: GroupPatchView,
    kind: Option<PatchKind>,
    value: Option<JsonView>,
) -> Result<GroupPatchView, ScimErrorView> {
    match group_text(kind, value, "externalId"@) {
        Ok(text) => Ok(GroupPatchView { external_id: Some(text), ..so_far }),
        Err(e) => Err(e),
    }
}

/// What one member of a path-less operation's object does.
pub open spec fn group_member(
    so_far: GroupPatchView,
    kind: Option<PatchKind>,
    member: MemberView,
) -> Result<GroupPatchView, ScimErrorView> {
    if same_ignoring_case(member.name, "displayname"@) {
        set_display_name(so_far, kind, Some(member.value))
    } else if same_ignoring_case(member.name, "externalid"@) {
        set_group_external_id(so_far, kind, Some(member.value))
    } else if same_ignoring_case(member.name, "members"@) {
        push_member_change(so_far, kind, member_ids(Some(member.value)))
    } else {
        Err(
            ScimErrorView::bad_request(
                "invalidPath"@,
                "Unsupported patch attribute for Groups"@,
            ),
        )
    }
}

/// [`group_member`] as a step of a fold.
pub open spec fn group_member_step(kind: Option<PatchKind>) -> spec_fn(
    GroupPatchView,
    MemberView,
) -> Result<GroupPatchView, ScimErrorView> {
    |so_far: GroupPatchView, member: MemberView| group_member(so_far, kind, member)
}

/// What one operation of a Group PATCH does. A replace through a filter path
/// targets that one member, so it means add, not "replace the whole set".
pub open spec fn group_operation(so_far: GroupPatchView, operation: PatchOperationView) -> Result<
    GroupPatchView,
    ScimErrorView,
> {
    let kind = patch_kind(ascii_lowercase(operation.op));
    match operation.path {
        Some(path) => if same_ignoring_case(path, "members"@) {
            push_member_change(so_far, kind, member_ids(operation.value))
        } else if "members["@.is_prefix_of(ascii_lowercase(path)) {
            match members_filter_value(path) {
                None => Err(
                    ScimErrorView::bad_request(
                        "invalidPath"@,
                        "Unsupported members filter path"@,
                    ),
                ),
                Some(id) => push_member_change(
                    so_far,
                    if kind == Some(PatchKind::Replace) {
                        Some(PatchKind::Add)
                    } else {
                        kind
                    },
                    Ok(seq![id]),
                ),
            }
        } else if same_ignoring_case(path, "displayname"@) {
            set_display_name(so_far, kind, operation.value)
        } else if same_ignoring_case(path, "externalid"@) {
            set_group_external_id(so_far, kind, operation.value)
        } else {
            Err(ScimErrorView::bad_request("invalidPath"@, "Unsupported patch path for Groups"@))
        },
        None => if kind == Some(PatchKind::Remove) {
            Err(ScimErrorView::bad_request("noTarget"@, "A remove operation must carry a path"@))
        } else {
            match operation.value {
                Some(JsonView::Object(members)) => try_fold(
                    so_far,
                    members,
                    group_member_step(kind),
                ),
                _ => Err(
                    ScimErrorView::bad_request(
                        "invalidValue"@,
                        "Operation without path must carry an object value"@,
                    ),
                ),
            }
        },
    }
}

/// [`group_operation`] as a step of a fold.
pub open spec fn group_operation_step() -> spec_fn(GroupPatchView, PatchOperationView) -> Result<
    GroupPatchView,
    ScimErrorView,
> {
    |so_far: GroupPatchView, operation: PatchOperationView| group_operation(so_far, operation)
}

/// What a Group PATCH asks for: its operations, applied in order.
pub open spec fn group_patch(patch: PatchOpView) -> Result<GroupPatchView, ScimErrorView> {
    match patch_header(patch) {
        Err(e) => Err(e),
        Ok(_) => try_fold(GroupPatchView::nothing(), patch.operations, group_operation_step()),
    }
}

/// The member operation of a kind, on a list of ids.
pub fn member_op(kind: Option<PatchKind>, values: Vec<String>) -> (r: Result<MemberOp, ScimError>)
    ensures
        match r {
            Ok(op) => member_change(kind, texts(values@)) == Ok::<MemberOpView, ScimErrorView>(op@),
            Err(e) => member_change(kind, texts(values@)) == Err::<MemberOpView, ScimErrorView>(e@),
        },
{
    match kind {
        Some(PatchKind::Add) => Ok(MemberOp::Add(values)),
        Some(PatchKind::Remove) => Ok(MemberOp::Remove(values)),
        Some(PatchKind::Replace) => Ok(MemberOp::Replace(values)),
        None => Err(ScimError::bad_request("invalidValue", "Unsupported operation on members")),
    }
}

fn group_string_value(kind: Option<PatchKind>, value: Option<&Json>, attribute: &str) -> (r: Result<
    String,
    ScimError,
>)
    ensures
        ({
            let wanted = group_text(
                kind,
                match value {
                    Some(v) => Some(v@),
                    None => None,
                },
                attribute@,
            );
            match r {
                Ok(text) => wanted == Ok::<Seq<char>, ScimErrorView>(text@),
                Err(e) => wanted == Err::<Seq<char>, ScimErrorView>(e@),
            }
        }),
{
    match kind {
        Some(PatchKind::Remove) => Ok(String::new()),
        Some(_) => match value {
            Some(Json::Text(text)) => Ok(text.clone()),
            _ => Err(
                ScimError::bad_request(
                    "invalidValue",
                    join2(attribute, " must be a string").as_str(),
                ),
            ),
        },
        None => Err(
            ScimError::bad_request(
                "invalidValue",
                join2("Unsupported operation on ", attribute).as_str(),
            ),
        ),
    }
}

fn push_member_op(start: GroupPatch, kind: Option<PatchKind>, values: Vec<String>) -> (r: Result<
    GroupPatch,
    ScimError,
>)
    ensures
        ({
            let wanted = push_member_change(start@, kind, Ok(texts(values@)));
            match r {
                Ok(p) => wanted == Ok::<GroupPatchView, ScimErrorView>(p@),
                Err(e) => wanted == Err::<GroupPatchView, ScimErrorView>(e@),
            }
        }),
{
    let mut result = start;
    match member_op(kind, values) {
        Ok(op) => {
            result.member_ops.push(op);
            assert(result@.member_ops =~= start@.member_ops.push(op@));
            Ok(result)
        },
        Err(e) => Err(e),
    }
}

fn apply_group_member(start: GroupPatch, kind: Option<PatchKind>, member: &Member) -> (r: Result<
    GroupPatch,
    ScimError,
>)
    ensures
        ({
            let wanted = group_member(
                start@,
                kind,
                MemberView { name: member.name@, value: member.value@ },
            );
            match r {
                Ok(p) => wanted == Ok::<GroupPatchView, ScimErrorView>(p@),
                Err(e) => wanted == Err::<GroupPatchView, ScimErrorView>(e@),
            }
        }),
{
    let mut result = start;
    let name = member.name.as_str();
    if eq_ignore_ascii_case(name, "displayname") {
        match group_string_value(kind, Some(&member.value), "displayName") {
            Ok(text) => {
                result.display_name = Some(text);
                Ok(result)
            },
            Err(e) => Err(e),
        }
    } else if eq_ignore_ascii_case(name, "externalid") {
        match group_string_value(kind, Some(&member.value), "externalId") {
            Ok(text) => {
                result.external_id = Some(text);
                Ok(result)
            },
            Err(e) => Err(e),
        }
    } else if eq_ignore_ascii_case(name, "members") {
        match member_values(Some(&member.value)) {
            Ok(values) => push_member_op(result, kind, values),
            Err(e) => Err(e),
        }
    } else {
        Err(ScimError::bad_request("invalidPath", "Unsupported patch attribute for Groups"))
    }
}

fn apply_group_members(start: GroupPatch, kind: Option<PatchKind>, members: &Vec<Member>) -> (r:
    Result<GroupPatch, ScimError>)
    ensures
        match r {
            Ok(p) => try_fold(start@, member_views(members@), group_member_step(kind)) == Ok::<
                GroupPatchView,
                ScimErrorView,
            >(p@),
            Err(e) => try_fold(start@, member_views(members@), group_member_step(kind)) == Err::<
                GroupPatchView,
                ScimErrorView,
            >(e@),
        },
{
    let ghost all = member_views(members@);
    let ghost step = group_member_step(kind);
    let ghost first = start@;
    let mut result = start;
    let mut i: usize = 0;
    assert(all.take(0) =~= Seq::empty());
    while i < members.len()
        invariant
            i <= members.len(),
            first == start@,
            all == member_views(members@),
            step == group_member_step(kind),
            try_fold(first, all.take(i as int), step) == Ok::<GroupPatchView, ScimErrorView>(
                result@,
            ),
        decreases members.len() - i,
    {
        proof {
            lemma_try_fold_next(first, all, i as int, step);
        }
        match apply_group_member(result, kind, &members[i]) {
            Ok(next) => {
                result = next;
            },
            Err(e) => {
                proof {
                    lemma_try_fold_stops(first, all, i + 1, step);
                }
                return Err(e);
            },
        }
        i += 1;
    }
    assert(all.take(i as int) =~= all);
    Ok(result)
}

fn apply_group_operation(start: GroupPatch, operation: &PatchOperation) -> (r: Result<
    GroupPatch,
    ScimError,
>)
    ensures
        match r {
            Ok(p) => group_operation(start@, operation@) == Ok::<GroupPatchView, ScimErrorView>(p@),
            Err(e) => group_operation(start@, operation@) == Err::<GroupPatchView, ScimErrorView>(
                e@,
            ),
        },
{
    let mut result = start;
    let op = to_ascii_lowercase(operation.op.as_str());
    let kind = parse_patch_kind(op.as_str());
    match &operation.path {
        Some(path) => {
            let path = path.as_str();
            if eq_ignore_ascii_case(path, "members") {
                match member_values(operation.value.as_ref()) {
                    Ok(values) => push_member_op(result, kind, values),
                    Err(e) => Err(e),
                }
            } else if starts_with(to_ascii_lowercase(path).as_str(), "members[") {
                let Some(id) = parse_members_filter_path(path) else {
                    return Err(
                        ScimError::bad_request("invalidPath", "Unsupported members filter path"),
                    );
                };
                let targeted = if kind == Some(PatchKind::Replace) {
                    Some(PatchKind::Add)
                } else {
                    kind
                };
                let mut values: Vec<String> = Vec::new();
                values.push(id);
                assert(texts(values@) =~= seq![id@]);
                push_member_op(result, targeted, values)
            } else if eq_ignore_ascii_case(path, "displayname") {
                match group_string_value(kind, operation.value.as_ref(), "displayName") {
                    Ok(text) => {
                        result.display_name = Some(text);
                        Ok(result)
                    },
                    Err(e) => Err(e),
                }
            } else if eq_ignore_ascii_case(path, "externalid") {
                match group_string_value(kind, operation.value.as_ref(), "externalId") {
                    Ok(text) => {
                        result.external_id = Some(text);
                        Ok(result)
                    },
                    Err(e) => Err(e),
                }
            } else {
                Err(ScimError::bad_request("invalidPath", "Unsupported patch path for Groups"))
            }
        },
        None => {
            if kind == Some(PatchKind::Remove) {
                return Err(
                    ScimError::bad_request("noTarget", "A remove operation must carry a path"),
                );
            }
            match &operation.value {
                Some(Json::Object(members)) => {
                    proof {
                        crate::json::lemma_object_view(operation.value->Some_0);
                    }
                    apply_group_members(result, kind, members)
                },
                _ => Err(
                    ScimError::bad_request(
                        "invalidValue",
                        "Operation without path must carry an object value",
                    ),
                ),
            }
        },
    }
}

/// Reads a Group PATCH.
pub fn parse_group_patch(patch: &PatchOp) -> (r: Result<GroupPatch, ScimError>)
    ensures
        match r {
            Ok(p) => group_patch(patch@) == Ok::<GroupPatchView, ScimErrorView>(p@),
            Err(e) => group_patch(patch@) == Err::<GroupPatchView, ScimErrorView>(e@),
        },
{
    if let Err(e) = check_patch_header(patch) {
        return Err(e);
    }
    let ghost all = patch@.operations;
    let ghost step = group_operation_step();
    let ghost first = GroupPatchView::nothing();
    let mut result = GroupPatch { display_name: None, external_id: None, member_ops: Vec::new() };
    let mut i: usize = 0;
    assert(all.take(0) =~= Seq::empty());
    assert(result@ =~= first);
    while i < patch.operations.len()
        invariant
            i <= patch.operations.len(),
            patch_header(patch@) is Ok,
            first == GroupPatchView::nothing(),
            all == patch@.operations,
            step == group_operation_step(),
            try_fold(first, all.take(i as int), step) == Ok::<GroupPatchView, ScimErrorView>(
                result@,
            ),
        decreases patch.operations.len() - i,
    {
        proof {
            lemma_try_fold_next(first, all, i as int, step);
        }
        match apply_group_operation(result, &patch.operations[i]) {
            Ok(next) => {
                result = next;
            },
            Err(e) => {
                proof {
                    lemma_try_fold_stops(first, all, i + 1, step);
                }
                return Err(e);
            },
        }
        i += 1;
    }
    assert(all.take(i as int) =~= all);
    Ok(result)
}

} // verus!
