//! What holds of PATCH parsing as a whole.

use vstd::prelude::*;

use crate::error::ScimErrorView;
use crate::fold::{lemma_try_fold_append, try_fold};
use crate::json::{JsonView, MemberView};
use crate::patch::{
    group_member, group_member_step, group_operation, group_operation_step, group_patch,
    members_filter_value, patch_kind, user_attribute, user_member, user_member_step, user_operation,
    user_operation_step, user_patch, GroupPatchView, MemberOpView, PatchKind, PatchOpView,
    PatchOperationView, UserPatchView,
};
use crate::text::{
    ascii_lowercase, is_white_space, lemma_margin_len, lemma_margin_len_is, lemma_trimmed_end_is,
    lemma_word_len, lemma_word_len_is, margin_len, same_ignoring_case, split_word, trimmed_end,
    trimmed_start, word_len,
};

verus! {

/// The filter path that names one member.
pub open spec fn members_filter_path(id: Seq<char>) -> Seq<char> {
    "members[value eq \""@ + id + "\"]"@
}

/// Every id without a quote can be named through a filter path, and is read back as it is.
pub proof fn law_members_filter_round_trip(id: Seq<char>)
    requires
        id.len() > 0,
        !id.contains('"'),
    ensures
        members_filter_value(members_filter_path(id)) == Some(id),
{
    reveal_strlit("members[value eq \"");
    reveal_strlit("members[");
    reveal_strlit("value");
    reveal_strlit("eq");
    reveal_strlit("\"]");
    let path = members_filter_path(id);
    assert(path.take(8) =~= "members["@);
    let inner = path.subrange(8, path.len() - 1);
    assert(inner =~= seq!['v', 'a', 'l', 'u', 'e', ' ', 'e', 'q', ' ', '"'] + id + seq!['"']);
    lemma_word_len_is(inner, 5);
    let rest = inner.skip(6);
    assert(inner.take(5) =~= "value"@);
    assert(rest =~= seq!['e', 'q', ' ', '"'] + id + seq!['"']);
    lemma_margin_len_is(rest, 0);
    assert(trimmed_start(rest) =~= rest);
    lemma_word_len_is(rest, 2);
    assert(rest.take(2) =~= "eq"@);
    let quoted = rest.skip(3);
    assert(quoted =~= seq!['"'] + id + seq!['"']);
    lemma_margin_len_is(quoted, 0);
    assert(trimmed_start(quoted) =~= quoted);
    lemma_trimmed_end_is(quoted, quoted.len() as int);
    assert(quoted.take(quoted.len() as int) =~= quoted);
    assert(quoted.subrange(1, quoted.len() - 1) =~= id);
}

/// A text with one quoted part.
pub open spec fn around_quoted(head: Seq<char>, quoted: Seq<char>, tail: Seq<char>) -> Seq<char> {
    head + seq!['"'] + quoted + seq!['"'] + tail
}

proof fn lemma_same_text_has_no_quote(a: Seq<char>, b: Seq<char>)
    requires
        same_ignoring_case(a, b),
        !b.contains('"'),
    ensures
        !a.contains('"'),
{
    assert(a.len() == ascii_lowercase(a).len() && b.len() == ascii_lowercase(b).len());
    assert forall|i: int| 0 <= i < a.len() implies a[i] != '"' by {
        assert(ascii_lowercase(a)[i] == ascii_lowercase(b)[i]);
        assert(b.contains(b[i]));
    }
}

proof fn lemma_joined_has_no_quote(a: Seq<char>, b: Seq<char>)
    requires
        !a.contains('"'),
        !b.contains('"'),
    ensures
        !(a + b).contains('"'),
{
    assert forall|i: int| 0 <= i < (a + b).len() implies (a + b)[i] != '"' by {
        if i < a.len() {
            assert(a.contains(a[i]));
        } else {
            assert(b.contains(b[i - a.len()]));
        }
    }
}

// What stands before the text that follows a word and white space.
proof fn lemma_word_and_margin(s: Seq<char>, word: Seq<char>, rest: Seq<char>) -> (head: Seq<char>)
    requires
        split_word(s) == Some((word, rest)),
        !word.contains('"'),
    ensures
        s == head + trimmed_start(rest),
        !head.contains('"'),
{
    lemma_word_len(s);
    lemma_margin_len(rest);
    let n = word_len(s) as int;
    let m = margin_len(rest) as int;
    let head = s.take(n + 1 + m);
    assert(s =~= head + trimmed_start(rest));
    assert forall|i: int| 0 <= i < head.len() implies head[i] != '"' by {
        if i < n {
            assert(word[i] == head[i]);
            assert(word.contains(word[i]));
        } else if i > n {
            assert(rest[i - n - 1] == head[i]);
        }
    }
    head
}

// What stands behind a text once the white space at its end is gone.
proof fn lemma_margin_at_end(s: Seq<char>) -> (tail: Seq<char>)
    ensures
        s == trimmed_end(s) + tail,
        !tail.contains('"'),
    decreases s.len(),
{
    if s.len() > 0 && is_white_space(s.last()) {
        let rest = s.drop_last();
        let inner = lemma_margin_at_end(rest);
        let tail = inner.push(s.last());
        assert(s =~= rest.push(s.last()));
        assert(s =~= trimmed_end(s) + tail);
        assert forall|i: int| 0 <= i < tail.len() implies tail[i] != '"' by {
            if i < inner.len() {
                assert(inner.contains(inner[i]));
            }
        }
        tail
    } else {
        assert(s =~= trimmed_end(s) + Seq::empty());
        Seq::empty()
    }
}

/// A filter path is never misread: where it gives an id, the quotes round the id are the
/// only ones in the path.
pub proof fn law_members_filter_is_faithful(path: Seq<char>, id: Seq<char>)
    requires
        members_filter_value(path) == Some(id),
    ensures
        id.len() > 0,
        !id.contains('"'),
        exists|head: Seq<char>, tail: Seq<char>|
            path == #[trigger] around_quoted(head, id, tail) && !head.contains('"')
                && !tail.contains('"'),
{
    reveal_strlit("members[");
    reveal_strlit("value");
    reveal_strlit("eq");
    let prefix = path.take(8);
    let inner = path.subrange(8, path.len() - 1);
    let (attribute, after) = split_word(inner)->Some_0;
    let rest = trimmed_start(after);
    let (operator, last) = split_word(rest)->Some_0;
    let quoted = trimmed_start(last);
    lemma_same_text_has_no_quote(prefix, "members["@);
    lemma_same_text_has_no_quote(attribute, "value"@);
    lemma_same_text_has_no_quote(operator, "eq"@);
    let first = lemma_word_and_margin(inner, attribute, after);
    let second = lemma_word_and_margin(rest, operator, last);
    let trailing = lemma_margin_at_end(quoted);
    let head = prefix + first + second;
    let tail = trailing + seq![']'];
    lemma_joined_has_no_quote(prefix, first);
    lemma_joined_has_no_quote(prefix + first, second);
    assert forall|i: int| 0 <= i < seq![']'].len() implies seq![']'][i] != '"' by {}
    lemma_joined_has_no_quote(trailing, seq![']']);
    let value = trimmed_end(quoted);
    assert(value =~= seq!['"'] + id + seq!['"']);
    assert(path =~= prefix + inner + seq![']']);
    assert(path =~= around_quoted(head, id, tail));
}

/// A path with more quotes than one id has round it is refused: two comparisons joined in one
/// filter never pass for one id.
pub proof fn law_paths_with_more_quotes_are_refused(path: Seq<char>, i: int, j: int, k: int)
    requires
        0 <= i < j < k < path.len(),
        path[i] == '"',
        path[j] == '"',
        path[k] == '"',
    ensures
        members_filter_value(path) is None,
{
    if let Some(id) = members_filter_value(path) {
        law_members_filter_is_faithful(path, id);
        let (head, tail) = choose|head: Seq<char>, tail: Seq<char>|
            path == #[trigger] around_quoted(head, id, tail) && !head.contains('"')
                && !tail.contains('"');
        assert forall|n: int| 0 <= n < path.len() && path[n] == '"' implies n == head.len() || n
            == head.len() + 1 + id.len() by {
            if n < head.len() {
                assert(head[n] == path[n]);
                assert(head.contains(head[n]));
            } else if head.len() < n < head.len() + 1 + id.len() {
                assert(id[n - head.len() - 1] == path[n]);
                assert(id.contains(id[n - head.len() - 1]));
            } else if n > head.len() + 1 + id.len() {
                assert(tail[n - head.len() - 2 - id.len()] == path[n]);
                assert(tail.contains(tail[n - head.len() - 2 - id.len()]));
            }
        }
    }
}

/// A replace through a filter path adds the one member it names: it never
/// replaces the member set.
pub proof fn law_filtered_replace_adds(
    so_far: GroupPatchView,
    operation: PatchOperationView,
    path: Seq<char>,
    id: Seq<char>,
)
    requires
        ascii_lowercase(operation.op) == "replace"@,
        operation.path == Some(path),
        members_filter_value(path) == Some(id),
    ensures
        group_operation(so_far, operation) == Ok::<GroupPatchView, ScimErrorView>(
            GroupPatchView {
                member_ops: so_far.member_ops.push(MemberOpView::Add(seq![id])),
                ..so_far
            },
        ),
{
    reveal_strlit("members[");
    reveal_strlit("members");
    reveal_strlit("replace");
    reveal_strlit("remove");
    reveal_strlit("add");
    assert("replace"@.len() == 7 && "remove"@.len() == 6 && "add"@.len() == 3);
    assert(ascii_lowercase(path).len() == path.len());
    assert(ascii_lowercase("members"@).len() == 7);
    let prefix = "members["@;
    assert(ascii_lowercase(prefix) =~= prefix);
    assert(ascii_lowercase(path).subrange(0, 8) =~= ascii_lowercase(path.take(8)));
}

/// An operation on an attribute that is not synced changes nothing, a remove no
/// less than an add or a replace.
pub proof fn law_unsynced_operations_change_nothing(
    so_far: UserPatchView,
    operation: PatchOperationView,
    path: Seq<char>,
)
    requires
        patch_kind(ascii_lowercase(operation.op)) is Some,
        operation.path == Some(path),
        user_attribute(path) is Unsynced,
    ensures
        user_operation(so_far, operation) == Ok::<UserPatchView, ScimErrorView>(so_far),
{
}

/// What `later` asks for, and what `earlier` asked for where `later` is silent.
pub open spec fn merged_users(earlier: UserPatchView, later: UserPatchView) -> UserPatchView {
    UserPatchView {
        active: if later.active is Some {
            later.active
        } else {
            earlier.active
        },
        external_id: if later.external_id is Some {
            later.external_id
        } else {
            earlier.external_id
        },
    }
}

/// What `later` asks for, and what `earlier` asked for where `later` is silent;
/// the member operations of both, in order.
pub open spec fn merged_groups(earlier: GroupPatchView, later: GroupPatchView) -> GroupPatchView {
    GroupPatchView {
        display_name: if later.display_name is Some {
            later.display_name
        } else {
            earlier.display_name
        },
        external_id: if later.external_id is Some {
            later.external_id
        } else {
            earlier.external_id
        },
        member_ops: earlier.member_ops + later.member_ops,
    }
}

/// `after` with `earlier` in front of it.
pub open spec fn after_users(
    earlier: UserPatchView,
    after: Result<UserPatchView, ScimErrorView>,
) -> Result<UserPatchView, ScimErrorView> {
    match after {
        Ok(later) => Ok(merged_users(earlier, later)),
        Err(e) => Err(e),
    }
}

/// `after` with `earlier` in front of it.
pub open spec fn after_groups(
    earlier: GroupPatchView,
    after: Result<GroupPatchView, ScimErrorView>,
) -> Result<GroupPatchView, ScimErrorView> {
    match after {
        Ok(later) => Ok(merged_groups(earlier, later)),
        Err(e) => Err(e),
    }
}

proof fn lemma_user_members_merge(
    earlier: UserPatchView,
    so_far: UserPatchView,
    members: Seq<MemberView>,
)
    ensures
        try_fold(merged_users(earlier, so_far), members, user_member_step()) == after_users(
            earlier,
            try_fold(so_far, members, user_member_step()),
        ),
    decreases members.len(),
{
    if members.len() > 0 {
        lemma_user_members_merge(earlier, so_far, members.drop_last());
    }
}

proof fn lemma_user_operations_merge(
    earlier: UserPatchView,
    so_far: UserPatchView,
    operations: Seq<PatchOperationView>,
)
    ensures
        try_fold(merged_users(earlier, so_far), operations, user_operation_step()) == after_users(
            earlier,
            try_fold(so_far, operations, user_operation_step()),
        ),
    decreases operations.len(),
{
    if operations.len() > 0 {
        lemma_user_operations_merge(earlier, so_far, operations.drop_last());
        if let Ok(middle) = try_fold(so_far, operations.drop_last(), user_operation_step()) {
            let operation = operations.last();
            if let Some(JsonView::Object(members)) = operation.value {
                lemma_user_members_merge(earlier, middle, members);
            }
        }
    }
}

/// User operations take effect in order: a list of operations followed by another
/// asks for what the second asks for and, where that is silent, for what the
/// first asked for.
pub proof fn law_user_operations_in_order(
    first: Seq<PatchOperationView>,
    second: Seq<PatchOperationView>,
    earlier: UserPatchView,
)
    requires
        try_fold(UserPatchView::nothing(), first, user_operation_step()) == Ok::<
            UserPatchView,
            ScimErrorView,
        >(earlier),
    ensures
        try_fold(UserPatchView::nothing(), first + second, user_operation_step()) == after_users(
            earlier,
            try_fold(UserPatchView::nothing(), second, user_operation_step()),
        ),
{
    lemma_try_fold_append(UserPatchView::nothing(), first, second, user_operation_step());
    assert(merged_users(earlier, UserPatchView::nothing()) =~= earlier);
    lemma_user_operations_merge(earlier, UserPatchView::nothing(), second);
}

proof fn lemma_group_member_merge(
    earlier: GroupPatchView,
    so_far: GroupPatchView,
    kind: Option<PatchKind>,
    member: MemberView,
)
    ensures
        group_member(merged_groups(earlier, so_far), kind, member) == after_groups(
            earlier,
            group_member(so_far, kind, member),
        ),
{
    if let Ok(next) = group_member(so_far, kind, member) {
        let whole = group_member(merged_groups(earlier, so_far), kind, member)->Ok_0;
        assert(whole =~= merged_groups(earlier, next));
    }
}

proof fn lemma_group_members_merge(
    earlier: GroupPatchView,
    so_far: GroupPatchView,
    kind: Option<PatchKind>,
    members: Seq<MemberView>,
)
    ensures
        try_fold(merged_groups(earlier, so_far), members, group_member_step(kind)) == after_groups(
            earlier,
            try_fold(so_far, members, group_member_step(kind)),
        ),
    decreases members.len(),
{
    if members.len() > 0 {
        lemma_group_members_merge(earlier, so_far, kind, members.drop_last());
        if let Ok(middle) = try_fold(so_far, members.drop_last(), group_member_step(kind)) {
            lemma_group_member_merge(earlier, middle, kind, members.last());
        }
    }
}

proof fn lemma_group_operation_merge(
    earlier: GroupPatchView,
    so_far: GroupPatchView,
    operation: PatchOperationView,
)
    ensures
        group_operation(merged_groups(earlier, so_far), operation) == after_groups(
            earlier,
            group_operation(so_far, operation),
        ),
{
    if let Some(JsonView::Object(members)) = operation.value {
        lemma_group_members_merge(
            earlier,
            so_far,
            patch_kind(ascii_lowercase(operation.op)),
            members,
        );
    }
    if let Ok(next) = group_operation(so_far, operation) {
        let whole = group_operation(merged_groups(earlier, so_far), operation)->Ok_0;
        assert(whole =~= merged_groups(earlier, next));
    }
}

proof fn lemma_group_operations_merge(
    earlier: GroupPatchView,
    so_far: GroupPatchView,
    operations: Seq<PatchOperationView>,
)
    ensures
        try_fold(merged_groups(earlier, so_far), operations, group_operation_step())
            == after_groups(earlier, try_fold(so_far, operations, group_operation_step())),
    decreases operations.len(),
{
    if operations.len() > 0 {
        lemma_group_operations_merge(earlier, so_far, operations.drop_last());
        if let Ok(middle) = try_fold(so_far, operations.drop_last(), group_operation_step()) {
            lemma_group_operation_merge(earlier, middle, operations.last());
        }
    }
}

/// Group operations take effect in order: the member operations of a list
/// followed by another are those of the first and then those of the second, none
/// dropped and none moved, and the later displayName and externalId stand.
pub proof fn law_group_operations_in_order(
    first: Seq<PatchOperationView>,
    second: Seq<PatchOperationView>,
    earlier: GroupPatchView,
)
    requires
        try_fold(GroupPatchView::nothing(), first, group_operation_step()) == Ok::<
            GroupPatchView,
            ScimErrorView,
        >(earlier),
    ensures
        try_fold(GroupPatchView::nothing(), first + second, group_operation_step())
            == after_groups(
            earlier,
            try_fold(GroupPatchView::nothing(), second, group_operation_step()),
        ),
{
    lemma_try_fold_append(GroupPatchView::nothing(), first, second, group_operation_step());
    assert(merged_groups(earlier, GroupPatchView::nothing()) =~= earlier);
    lemma_group_operations_merge(earlier, GroupPatchView::nothing(), second);
}

/// Whether a result is a value or a well-formed 400.
pub open spec fn value_or_bad_request<T>(r: Result<T, ScimErrorView>) -> bool {
    r matches Err(e) ==> e.status == 400 && e.well_formed()
}

proof fn lemma_user_member_errors(so_far: UserPatchView, member: MemberView)
    ensures
        value_or_bad_request(user_member(so_far, member)),
{
    reveal_strlit("Expected a boolean value for active");
    reveal_strlit("externalId must be a string");
    reveal_strlit("Unsupported patch attribute");
}

proof fn lemma_user_members_errors(so_far: UserPatchView, members: Seq<MemberView>)
    ensures
        value_or_bad_request(try_fold(so_far, members, user_member_step())),
    decreases members.len(),
{
    if members.len() > 0 {
        lemma_user_members_errors(so_far, members.drop_last());
        if let Ok(middle) = try_fold(so_far, members.drop_last(), user_member_step()) {
            lemma_user_member_errors(middle, members.last());
        }
    }
}

proof fn lemma_user_operations_errors(
    so_far: UserPatchView,
    operations: Seq<PatchOperationView>,
)
    ensures
        value_or_bad_request(try_fold(so_far, operations, user_operation_step())),
    decreases operations.len(),
{
    if operations.len() > 0 {
        lemma_user_operations_errors(so_far, operations.drop_last());
        if let Ok(middle) = try_fold(so_far, operations.drop_last(), user_operation_step()) {
            let operation = operations.last();
            reveal_strlit("Expected a boolean value for active");
            reveal_strlit("externalId must be a string");
            reveal_strlit("Unsupported patch operation");
            reveal_strlit("active cannot be removed, set it to false");
            reveal_strlit("Unsupported patch path");
            reveal_strlit("A remove operation must carry a path");
            reveal_strlit("Operation without path must carry an object value");
            if let Some(JsonView::Object(members)) = operation.value {
                lemma_user_members_errors(middle, members);
            }
        }
    }
}

/// A User PATCH is either understood or refused with a well-formed 400.
pub proof fn law_user_patch_refusals(patch: PatchOpView)
    ensures
        value_or_bad_request(user_patch(patch)),
{
    reveal_strlit("Missing PatchOp schema");
    reveal_strlit("No operations provided");
    lemma_user_operations_errors(UserPatchView::nothing(), patch.operations);
}

proof fn lemma_group_texts()
    ensures
        crate::patch::invalid_members().detail.len() > 0,
        "Unsupported operation on members"@.len() > 0,
        " must be a string"@.len() > 0,
        "Unsupported operation on "@.len() > 0,
        "Unsupported patch attribute for Groups"@.len() > 0,
{
    reveal_strlit("members value must be an array of {value} objects");
    reveal_strlit("Unsupported operation on members");
    reveal_strlit(" must be a string");
    reveal_strlit("Unsupported operation on ");
    reveal_strlit("Unsupported patch attribute for Groups");
}

proof fn lemma_group_members_errors(
    so_far: GroupPatchView,
    kind: Option<PatchKind>,
    members: Seq<MemberView>,
)
    ensures
        value_or_bad_request(try_fold(so_far, members, group_member_step(kind))),
    decreases members.len(),
{
    if members.len() > 0 {
        lemma_group_members_errors(so_far, kind, members.drop_last());
        lemma_group_texts();
    }
}

proof fn lemma_group_operations_errors(
    so_far: GroupPatchView,
    operations: Seq<PatchOperationView>,
)
    ensures
        value_or_bad_request(try_fold(so_far, operations, group_operation_step())),
    decreases operations.len(),
{
    if operations.len() > 0 {
        lemma_group_operations_errors(so_far, operations.drop_last());
        lemma_group_texts();
        reveal_strlit("Unsupported members filter path");
        reveal_strlit("Unsupported patch path for Groups");
        reveal_strlit("A remove operation must carry a path");
        reveal_strlit("Operation without path must carry an object value");
        if let Ok(middle) = try_fold(so_far, operations.drop_last(), group_operation_step()) {
            let operation = operations.last();
            if let Some(JsonView::Object(members)) = operation.value {
                lemma_group_members_errors(
                    middle,
                    patch_kind(ascii_lowercase(operation.op)),
                    members,
                );
            }
        }
    }
}

/// A Group PATCH is either understood or refused with a well-formed 400.
pub proof fn law_group_patch_refusals(patch: PatchOpView)
    ensures
        value_or_bad_request(group_patch(patch)),
{
    reveal_strlit("Missing PatchOp schema");
    reveal_strlit("No operations provided");
    lemma_group_operations_errors(GroupPatchView::nothing(), patch.operations);
}

} // verus!
