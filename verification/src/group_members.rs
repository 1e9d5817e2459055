//! Who is in a group after a change, and the writes that get it there.
//!
//! A member set is changed as a difference, not by deleting and inserting everything:
//! a failure part of the way then never removes a member it was not asked to.

use vstd::prelude::*;
use vstd::string::*;

use crate::error::ScimError;
use crate::group::{copy_ids, fresh, fresh_ids, is_listed, Group, GroupView};
use crate::groups::{
    all_known, checked, reject_unmanaged_group_add, unmanaged_add, GroupFacts, GroupFactsView,
    GroupLookup, GroupLookupView, Pending, PendingView,
};
use crate::patch::{member_op_views, MemberOp, MemberOpView};
use crate::text::texts;

verus! {

/// One row to write or delete.
#[derive(Debug)]
pub enum MemberWrite {
    Add(String),
    Remove(String),
}

/// The mathematical counterpart of [`MemberWrite`].
pub ghost enum MemberWriteView {
    Add(Seq<char>),
    Remove(Seq<char>),
}

impl View for MemberWrite {
    type V = MemberWriteView;

    open spec fn view(&self) -> MemberWriteView {
        match self {
            MemberWrite::Add(id) => MemberWriteView::Add(id@),
            MemberWrite::Remove(id) => MemberWriteView::Remove(id@),
        }
    }
}

/// The views of a list of writes.
pub open spec fn write_views(writes: Seq<MemberWrite>) -> Seq<MemberWriteView> {
    writes.map_values(|write: MemberWrite| write@)
}

/// One insertion for each id.
pub open spec fn additions(ids: Seq<Seq<char>>) -> Seq<MemberWriteView> {
    ids.map_values(|id: Seq<char>| MemberWriteView::Add(id))
}

/// One deletion for each id.
pub open spec fn removals(ids: Seq<Seq<char>>) -> Seq<MemberWriteView> {
    ids.map_values(|id: Seq<char>| MemberWriteView::Remove(id))
}

/// The writes that turn one member set into another.
pub open spec fn difference(wanted: Seq<Seq<char>>, current: Seq<Seq<char>>) -> Seq<
    MemberWriteView,
> {
    additions(fresh(wanted, current)) + removals(fresh(current, wanted))
}

/// The ids of `values` that are in `known`, in order.
pub open spec fn kept(values: Seq<Seq<char>>, known: Seq<Seq<char>>) -> Seq<Seq<char>>
    decreases values.len(),
{
    if values.len() == 0 {
        Seq::empty()
    } else {
        let earlier = kept(values.drop_last(), known);
        if known.contains(values.last()) {
            earlier.push(values.last())
        } else {
            earlier
        }
    }
}

/// Who is in the group after one member operation.
pub open spec fn members_after_op(current: Seq<Seq<char>>, op: MemberOpView) -> Seq<Seq<char>> {
    match op {
        MemberOpView::Add(values) => current + fresh(values, current),
        MemberOpView::Remove(values) => fresh(current, values),
        MemberOpView::Replace(values) => fresh(values, Seq::empty()),
    }
}

/// Who is in the group after a list of member operations, in order.
pub open spec fn members_after(current: Seq<Seq<char>>, ops: Seq<MemberOpView>) -> Seq<Seq<char>>
    decreases ops.len(),
{
    if ops.len() == 0 {
        current
    } else {
        members_after_op(members_after(current, ops.drop_last()), ops.last())
    }
}

/// Whether a member operation counts as an addition: every add on some id does, a
/// redundant one too; a replace does where it names someone who is not in the group.
pub open spec fn adds(current: Seq<Seq<char>>, op: MemberOpView) -> bool {
    match op {
        MemberOpView::Add(values) => values.len() > 0,
        MemberOpView::Remove(values) => false,
        MemberOpView::Replace(values) => fresh(values, current).len() > 0,
    }
}

/// Whether any of a list of member operations counts as an addition, at its turn.
pub open spec fn any_adds(current: Seq<Seq<char>>, ops: Seq<MemberOpView>) -> bool
    decreases ops.len(),
{
    ops.len() > 0 && (any_adds(current, ops.drop_last()) || adds(
        members_after(current, ops.drop_last()),
        ops.last(),
    ))
}

/// Whether the ids of a member operation resolve. A removal tolerates ids that are
/// not members: "already gone" is the steady state of one that is retried.
pub open spec fn op_resolves(op: MemberOpView, known: Seq<Seq<char>>) -> bool {
    op is Remove || all_known(op.values(), known)
}

/// Whether the ids of every member operation resolve.
pub open spec fn all_resolve(ops: Seq<MemberOpView>, known: Seq<Seq<char>>) -> bool {
    forall|i: int| 0 <= i < ops.len() ==> op_resolves(#[trigger] ops[i], known)
}

/// The ids that a list of member operations names.
pub open spec fn named_ids(ops: Seq<MemberOpView>) -> Seq<Seq<char>>
    decreases ops.len(),
{
    if ops.len() == 0 {
        Seq::empty()
    } else {
        named_ids(ops.drop_last()) + ops.last().values()
    }
}

/// The ids that are known to be members of the organization.
pub open spec fn known_ids(facts: GroupFactsView) -> Seq<Seq<char>> {
    match facts.known {
        Some(known) => known,
        None => Seq::empty(),
    }
}

/// Who is known to be in the group.
pub open spec fn current_members(facts: GroupFactsView) -> Seq<Seq<char>> {
    match facts.members {
        Some(members) => members,
        None => Seq::empty(),
    }
}

/// What a list of member operations would be refused for, decided before the first of
/// them writes anything: by replaying them against the group's present members.
pub open spec fn member_ops_check(
    group: GroupView,
    ops: Seq<MemberOpView>,
    facts: GroupFactsView,
) -> Result<(), PendingView> {
    if ops.len() == 0 {
        Ok(())
    } else {
        match facts.members {
            None => Err(PendingView::Needs(GroupLookupView::ListMembers)),
            Some(current) => if named_ids(ops).len() > 0 && facts.known is None {
                Err(PendingView::Needs(GroupLookupView::ResolveMembers(named_ids(ops))))
            } else if !all_resolve(ops, known_ids(facts)) {
                Err(PendingView::Refused(crate::groups::unresolvable()))
            } else if any_adds(current, ops) {
                unmanaged_add(group, facts)
            } else {
                Ok(())
            },
        }
    }
}

/// The writes of one member operation.
pub open spec fn op_writes(
    current: Seq<Seq<char>>,
    op: MemberOpView,
    known: Seq<Seq<char>>,
) -> Seq<MemberWriteView> {
    match op {
        MemberOpView::Add(values) => additions(values),
        MemberOpView::Remove(values) => removals(kept(values, known)),
        MemberOpView::Replace(values) => difference(values, current),
    }
}

/// The writes of a list of member operations, in order.
pub open spec fn ops_writes(
    current: Seq<Seq<char>>,
    ops: Seq<MemberOpView>,
    known: Seq<Seq<char>>,
) -> Seq<MemberWriteView>
    decreases ops.len(),
{
    if ops.len() == 0 {
        Seq::empty()
    } else {
        ops_writes(current, ops.drop_last(), known) + op_writes(
            members_after(current, ops.drop_last()),
            ops.last(),
            known,
        )
    }
}

/// What a replacement of a group's members would be refused for: someone who is not in the
/// group, where SCIM does not manage it. One that only removes is not refused.
pub open spec fn additions_check(
    group: GroupView,
    wanted: Seq<Seq<char>>,
    facts: GroupFactsView,
) -> Result<(), PendingView> {
    match facts.members {
        None => Err(PendingView::Needs(GroupLookupView::ListMembers)),
        Some(current) => if fresh(wanted, current).len() > 0 {
            unmanaged_add(group, facts)
        } else {
            Ok(())
        },
    }
}

fn push_writes(writes: &mut Vec<MemberWrite>, ids: Vec<String>, adding: bool)
    ensures
        write_views(final(writes)@) == write_views(old(writes)@) + (if adding {
            additions(texts(ids@))
        } else {
            removals(texts(ids@))
        }),
{
    let ghost all = if adding {
        additions(texts(ids@))
    } else {
        removals(texts(ids@))
    };
    let ghost before = write_views(writes@);
    let mut i: usize = 0;
    assert(write_views(writes@) =~= before + all.take(0));
    while i < ids.len()
        invariant
            i <= ids.len(),
            all == (if adding {
                additions(texts(ids@))
            } else {
                removals(texts(ids@))
            }),
            write_views(writes@) == before + all.take(i as int),
        decreases ids.len() - i,
    {
        let ghost so_far = writes@;
        let id = ids[i].clone();
        if adding {
            writes.push(MemberWrite::Add(id));
        } else {
            writes.push(MemberWrite::Remove(id));
        }
        assert(write_views(writes@) =~= write_views(so_far).push(all[i as int]));
        assert(write_views(writes@) =~= before + all.take(i + 1));
        i += 1;
    }
    assert(all.take(i as int) =~= all);
}

fn append_ids(list: &mut Vec<String>, ids: &Vec<String>)
    ensures
        texts(final(list)@) == texts(old(list)@) + texts(ids@),
{
    let ghost all = texts(ids@);
    let ghost before = texts(list@);
    let mut i: usize = 0;
    assert(texts(list@) =~= before + all.take(0));
    while i < ids.len()
        invariant
            i <= ids.len(),
            all == texts(ids@),
            texts(list@) == before + all.take(i as int),
        decreases ids.len() - i,
    {
        let ghost so_far = list@;
        list.push(ids[i].clone());
        assert(texts(list@) =~= texts(so_far).push(all[i as int]));
        assert(texts(list@) =~= before + all.take(i + 1));
        i += 1;
    }
    assert(all.take(i as int) =~= all);
}

fn kept_ids(values: &Vec<String>, known: &Vec<String>) -> (r: Vec<String>)
    ensures
        texts(r@) == kept(texts(values@), texts(known@)),
{
    let ghost all = texts(values@);
    let mut r: Vec<String> = Vec::new();
    let mut i: usize = 0;
    assert(texts(r@) =~= kept(all.take(0), texts(known@)));
    while i < values.len()
        invariant
            i <= values.len(),
            all == texts(values@),
            texts(r@) == kept(all.take(i as int), texts(known@)),
        decreases values.len() - i,
    {
        let ghost before = r@;
        proof {
            assert(all.take(i + 1).drop_last() =~= all.take(i as int));
            assert(all.take(i + 1).last() == all[i as int]);
        }
        if is_listed(known, &values[i]) {
            r.push(values[i].clone());
            assert(texts(r@) =~= texts(before).push(all[i as int]));
        }
        i += 1;
    }
    assert(all.take(i as int) =~= all);
    r
}

fn after_op(current: &Vec<String>, op: &MemberOp) -> (r: Vec<String>)
    ensures
        texts(r@) == members_after_op(texts(current@), op@),
{
    match op {
        MemberOp::Add(values) => {
            let mut r = copy_ids(current);
            let new = fresh_ids(values, current);
            append_ids(&mut r, &new);
            r
        },
        MemberOp::Remove(values) => fresh_ids(current, values),
        MemberOp::Replace(values) => {
            let none: Vec<String> = Vec::new();
            assert(texts(none@) =~= Seq::empty());
            fresh_ids(values, &none)
        },
    }
}

fn op_adds(current: &Vec<String>, op: &MemberOp) -> (r: bool)
    ensures
        r == adds(texts(current@), op@),
{
    match op {
        MemberOp::Add(values) => {
            assert(texts(values@).len() == values.len());
            values.len() > 0
        },
        MemberOp::Remove(_) => false,
        MemberOp::Replace(values) => {
            let new = fresh_ids(values, current);
            assert(texts(new@).len() == new.len());
            new.len() > 0
        },
    }
}

fn does_resolve(op: &MemberOp, known: &Vec<String>) -> (r: bool)
    ensures
        r == op_resolves(op@, texts(known@)),
{
    match op {
        MemberOp::Remove(_) => true,
        _ => {
            let values = op.values();
            let ghost all = texts(values@);
            let mut i: usize = 0;
            while i < values.len()
                invariant
                    i <= values.len(),
                    all == texts(values@),
                    all == op@.values(),
                    !(op@ is Remove),
                    forall|j: int| 0 <= j < i ==> texts(known@).contains(#[trigger] all[j]),
                decreases values.len() - i,
            {
                if !is_listed(known, &values[i]) {
                    assert(!texts(known@).contains(all[i as int]));
                    return false;
                }
                i += 1;
            }
            true
        },
    }
}

/// The ids that a list of member operations names.
pub fn named_members(ops: &Vec<MemberOp>) -> (r: Vec<String>)
    ensures
        texts(r@) == named_ids(member_op_views(ops@)),
{
    let ghost all = member_op_views(ops@);
    let mut r: Vec<String> = Vec::new();
    let mut i: usize = 0;
    assert(texts(r@) =~= named_ids(all.take(0)));
    while i < ops.len()
        invariant
            i <= ops.len(),
            all == member_op_views(ops@),
            texts(r@) == named_ids(all.take(i as int)),
        decreases ops.len() - i,
    {
        proof {
            assert(all.take(i + 1).drop_last() =~= all.take(i as int));
            assert(all.take(i + 1).last() == ops@[i as int]@);
        }
        append_ids(&mut r, ops[i].values());
        i += 1;
    }
    assert(all.take(i as int) =~= all);
    r
}

/// What a list of member operations would be refused for, before any of them writes.
pub fn precheck_member_ops(group: &Group, ops: &Vec<MemberOp>, facts: &GroupFacts) -> (r: Result<
    (),
    Pending,
>)
    ensures
        checked(r) == member_ops_check(group@, member_op_views(ops@), facts@),
{
    if ops.len() == 0 {
        return Ok(());
    }
    let current = match &facts.members {
        None => return Err(Pending::Needs(GroupLookup::ListMembers)),
        Some(members) => members,
    };
    let named = named_members(ops);
    assert(texts(named@).len() == named.len());
    if named.len() > 0 && facts.known.is_none() {
        return Err(Pending::Needs(GroupLookup::ResolveMembers(named)));
    }
    let none: Vec<String> = Vec::new();
    assert(texts(none@) =~= Seq::empty());
    let known = match &facts.known {
        Some(known) => known,
        None => &none,
    };
    let ghost all = member_op_views(ops@);
    let mut projected = copy_ids(current);
    let mut needs_permission = false;
    let mut i: usize = 0;
    assert(all.take(0) =~= Seq::empty());
    while i < ops.len()
        invariant
            i <= ops.len(),
            all == member_op_views(ops@),
            texts(known@) == known_ids(facts@),
            all_resolve(all.take(i as int), texts(known@)),
            texts(projected@) == members_after(texts(current@), all.take(i as int)),
            needs_permission == any_adds(texts(current@), all.take(i as int)),
            ops.len() > 0,
            facts@.members == Some(texts(current@)),
            !(named_ids(all).len() > 0 && facts@.known is None),
        decreases ops.len() - i,
    {
        let op = &ops[i];
        proof {
            assert(all.take(i + 1).drop_last() =~= all.take(i as int));
            assert(all.take(i + 1).last() == op@);
        }
        if !does_resolve(op, known) {
            assert(!op_resolves(all[i as int], texts(known@)));
            return Err(
                Pending::Refused(
                    ScimError::bad_request("invalidValue", crate::groups::UNRESOLVABLE_MEMBER),
                ),
            );
        }
        assert forall|j: int| 0 <= j < i + 1 implies op_resolves(
            #[trigger] all.take(i + 1)[j],
            texts(known@),
        ) by {
            if j < i {
                assert(all.take(i as int)[j] == all.take(i + 1)[j]);
            }
        }
        if op_adds(&projected, op) {
            needs_permission = true;
        }
        projected = after_op(&projected, op);
        i += 1;
    }
    assert(all.take(i as int) =~= all);
    if needs_permission {
        return reject_unmanaged_group_add(group, facts);
    }
    Ok(())
}

fn push_op_writes(
    writes: &mut Vec<MemberWrite>,
    current: &Vec<String>,
    op: &MemberOp,
    known: &Vec<String>,
)
    ensures
        write_views(final(writes)@) == write_views(old(writes)@) + op_writes(
            texts(current@),
            op@,
            texts(known@),
        ),
{
    let ghost before = write_views(writes@);
    match op {
        MemberOp::Add(values) => push_writes(writes, copy_ids(values), true),
        MemberOp::Remove(values) => push_writes(writes, kept_ids(values, known), false),
        MemberOp::Replace(values) => {
            push_writes(writes, fresh_ids(values, current), true);
            push_writes(writes, fresh_ids(current, values), false);
            assert(write_views(writes@) =~= before + difference(texts(values@), texts(current@)));
        },
    }
}

/// The writes of a list of member operations, in the order the client sent them.
pub fn apply_member_ops(ops: &Vec<MemberOp>, facts: &GroupFacts) -> (r: Vec<MemberWrite>)
    ensures
        write_views(r@) == ops_writes(
            current_members(facts@),
            member_op_views(ops@),
            known_ids(facts@),
        ),
{
    let none: Vec<String> = Vec::new();
    assert(texts(none@) =~= Seq::empty());
    let known = match &facts.known {
        Some(known) => known,
        None => &none,
    };
    let start = match &facts.members {
        Some(members) => members,
        None => &none,
    };
    let ghost all = member_op_views(ops@);
    let mut current = copy_ids(start);
    let mut writes: Vec<MemberWrite> = Vec::new();
    let mut i: usize = 0;
    assert(all.take(0) =~= Seq::empty());
    assert(write_views(writes@) =~= Seq::empty());
    while i < ops.len()
        invariant
            i <= ops.len(),
            all == member_op_views(ops@),
            texts(known@) == known_ids(facts@),
            texts(start@) == current_members(facts@),
            texts(current@) == members_after(texts(start@), all.take(i as int)),
            write_views(writes@) == ops_writes(texts(start@), all.take(i as int), texts(known@)),
        decreases ops.len() - i,
    {
        proof {
            assert(all.take(i + 1).drop_last() =~= all.take(i as int));
            assert(all.take(i + 1).last() == ops@[i as int]@);
        }
        push_op_writes(&mut writes, &current, &ops[i], known);
        current = after_op(&current, &ops[i]);
        i += 1;
    }
    assert(all.take(i as int) =~= all);
    writes
}

/// Refuses a replacement of a group's members that adds someone to a group that SCIM does not
/// manage.
pub fn reject_unmanaged_additions(group: &Group, wanted: &Vec<String>, facts: &GroupFacts) -> (r:
    Result<(), Pending>)
    ensures
        checked(r) == additions_check(group@, texts(wanted@), facts@),
{
    let current = match &facts.members {
        None => return Err(Pending::Needs(GroupLookup::ListMembers)),
        Some(members) => members,
    };
    let new = fresh_ids(wanted, current);
    assert(texts(new@).len() == new.len());
    if new.len() > 0 {
        return reject_unmanaged_group_add(group, facts);
    }
    Ok(())
}

/// The writes that replace a group's members.
pub fn set_members(wanted: &Vec<String>, facts: &GroupFacts) -> (r: Vec<MemberWrite>)
    ensures
        write_views(r@) == difference(texts(wanted@), current_members(facts@)),
{
    let none: Vec<String> = Vec::new();
    assert(texts(none@) =~= Seq::empty());
    let current = match &facts.members {
        Some(members) => members,
        None => &none,
    };
    let mut writes: Vec<MemberWrite> = Vec::new();
    push_writes(&mut writes, fresh_ids(wanted, current), true);
    push_writes(&mut writes, fresh_ids(current, wanted), false);
    assert(write_views(writes@) =~= difference(texts(wanted@), texts(current@)));
    writes
}

} // verus!
