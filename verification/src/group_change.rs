//! Creating, replacing, patching and deleting a group.

use vstd::prelude::*;
use vstd::string::*;

use crate::account::EventType;
use crate::error::{ScimError, ScimErrorView};
use crate::group::{stored_group_id, Group, GroupView};
use crate::group_members::{
    additions_check, apply_member_ops, current_members, difference, known_ids, member_ops_check,
    ops_writes, precheck_member_ops, reject_unmanaged_additions, set_members, write_views,
    MemberWrite, MemberWriteView,
};
use crate::groups::{
    check_groups_enabled, check_member_count, check_member_op_count, count_limit,
    external_id_change, group_id_taken, may_add, name_change, refusal, resolution,
    resolve_members, scim_group, scim_group_body, scim_may_add_members, GroupFacts,
    GroupFactsView, GroupLookup, GroupLookupView, Pending, PendingView, GROUPS_DISABLED,
    GROUP_ID_TAKEN, NAME_REQUIRED, TOO_MANY_OPS, UNMANAGED_DELETE,
};
use crate::patch::{group_patch, parse_group_patch, total_values, GroupPatch, GroupPatchView, PatchOp};
use crate::scim::{
    check_attribute_len, location_url, resource_location, too_long, ScimJson, ScimResponse,
    ScimResponseView, SCIM_MAX_EXTERNAL_ID_LEN, SCIM_MAX_GROUP_MEMBER_OPS, SCIM_MAX_GROUP_NAME_LEN,
};
use crate::text::{is_blank, is_blank_text, optional, texts};
use crate::users::{Site, SiteView};

verus! {

/// The body of a Group POST or PUT. Members that are absent and members that are empty
/// differ on PUT: an absent list leaves the members unchanged, an empty one clears
/// them.
#[derive(Debug)]
pub struct ScimGroupRequest {
    pub display_name: Option<String>,
    pub external_id: Option<String>,
    pub members: Option<Vec<String>>,
}

/// The mathematical counterpart of [`ScimGroupRequest`].
#[verifier::ext_equal]
pub ghost struct ScimGroupRequestView {
    pub display_name: Option<Seq<char>>,
    pub external_id: Option<Seq<char>>,
    pub members: Option<Seq<Seq<char>>>,
}

impl View for ScimGroupRequest {
    type V = ScimGroupRequestView;

    open spec fn view(&self) -> ScimGroupRequestView {
        ScimGroupRequestView {
            display_name: optional(self.display_name),
            external_id: optional(self.external_id),
            members: match self.members {
                Some(ids) => Some(texts(ids@)),
                None => None,
            },
        }
    }
}

/// What is to be done with a group.
#[derive(Debug)]
pub enum GroupIntent {
    Create(ScimGroupRequest),
    Replace(ScimGroupRequest),
    Patch(GroupPatch),
}

/// The mathematical counterpart of [`GroupIntent`].
pub ghost enum GroupIntentView {
    Create(ScimGroupRequestView),
    Replace(ScimGroupRequestView),
    Patch(GroupPatchView),
}

impl View for GroupIntent {
    type V = GroupIntentView;

    open spec fn view(&self) -> GroupIntentView {
        match self {
            GroupIntent::Create(request) => GroupIntentView::Create(request@),
            GroupIntent::Replace(request) => GroupIntentView::Replace(request@),
            GroupIntent::Patch(patch) => GroupIntentView::Patch(patch@),
        }
    }
}

/// A piece of work that a change of a group asks for.
#[derive(Debug)]
pub enum GroupCommand {
    /// Look up a fact.
    Lookup(GroupLookup),
    /// Write the group, so that a uniqueness conflict is reported and replaces nothing.
    Save(Group),
    AddMember(String),
    RemoveMember(String),
    /// Record an event of the group.
    Log(EventType, String),
}

/// What came of a piece of work.
#[derive(Debug)]
pub enum GroupReply {
    /// Those of the ids that are members of the organization.
    Known(Vec<String>),
    /// The group that has the externalId.
    Holder(Option<String>),
    /// Whether collections are granted to the group.
    Collections(bool),
    /// Who is in the group.
    Members(Vec<String>),
    /// The group was written, at the date that is given.
    Written(String),
    /// The group was not written: another one has its externalId.
    Duplicate,
    /// Whether the write succeeded.
    Saved(bool),
    /// The work is done.
    Noted,
}

/// Either more work, or the answer.
#[derive(Debug)]
pub enum GroupStep {
    Ask(GroupCommand),
    Done(Result<ScimResponse, ScimError>),
}

/// The mathematical counterpart of [`GroupCommand`].
pub ghost enum GroupCommandView {
    Lookup(GroupLookupView),
    Save(GroupView),
    AddMember(Seq<char>),
    RemoveMember(Seq<char>),
    Log(EventType, Seq<char>),
}

/// The mathematical counterpart of [`GroupReply`].
pub ghost enum GroupReplyView {
    Known(Seq<Seq<char>>),
    Holder(Option<Seq<char>>),
    Collections(bool),
    Members(Seq<Seq<char>>),
    Written(Seq<char>),
    Duplicate,
    Saved(bool),
    Noted,
}

/// The mathematical counterpart of [`GroupStep`].
pub ghost enum GroupStepView {
    Ask(GroupCommandView),
    Done(Result<ScimResponseView, ScimErrorView>),
}

impl View for GroupCommand {
    type V = GroupCommandView;

    open spec fn view(&self) -> GroupCommandView {
        match self {
            GroupCommand::Lookup(lookup) => GroupCommandView::Lookup(lookup@),
            GroupCommand::Save(group) => GroupCommandView::Save(group@),
            GroupCommand::AddMember(id) => GroupCommandView::AddMember(id@),
            GroupCommand::RemoveMember(id) => GroupCommandView::RemoveMember(id@),
            GroupCommand::Log(event, id) => GroupCommandView::Log(*event, id@),
        }
    }
}

impl View for GroupReply {
    type V = GroupReplyView;

    open spec fn view(&self) -> GroupReplyView {
        match self {
            GroupReply::Known(ids) => GroupReplyView::Known(texts(ids@)),
            GroupReply::Holder(found) => GroupReplyView::Holder(optional(*found)),
            GroupReply::Collections(b) => GroupReplyView::Collections(*b),
            GroupReply::Members(ids) => GroupReplyView::Members(texts(ids@)),
            GroupReply::Written(date) => GroupReplyView::Written(date@),
            GroupReply::Duplicate => GroupReplyView::Duplicate,
            GroupReply::Saved(b) => GroupReplyView::Saved(*b),
            GroupReply::Noted => GroupReplyView::Noted,
        }
    }
}

impl View for GroupStep {
    type V = GroupStepView;

    open spec fn view(&self) -> GroupStepView {
        match self {
            GroupStep::Ask(command) => GroupStepView::Ask(command@),
            GroupStep::Done(Ok(response)) => GroupStepView::Done(Ok(response@)),
            GroupStep::Done(Err(e)) => GroupStepView::Done(Err(e@)),
        }
    }
}

/// What a change is waiting for.
#[derive(Clone, Copy, Debug, PartialEq, Eq, Structural)]
pub enum GroupPhase {
    /// A fact that the checks need. Nothing has been written.
    Checking,
    /// The write of the group.
    Saving,
    /// The member write at hand.
    Writing,
    Logging,
    /// The members, for the answer.
    Listing,
    Finished,
}

/// A change of a group that is under way.
#[derive(Debug)]
pub struct GroupChange {
    group: Group,
    intent: GroupIntent,
    facts: GroupFacts,
    writes: Vec<MemberWrite>,
    /// How many of the member writes are done.
    written: usize,
    site: Site,
    phase: GroupPhase,
}

/// The mathematical counterpart of [`GroupChange`].
#[verifier::ext_equal]
pub ghost struct GroupChangeView {
    pub group: GroupView,
    pub intent: GroupIntentView,
    pub facts: GroupFactsView,
    pub writes: Seq<MemberWriteView>,
    pub written: int,
    pub site: SiteView,
    pub phase: GroupPhase,
}

impl View for GroupChange {
    type V = GroupChangeView;

    closed spec fn view(&self) -> GroupChangeView {
        GroupChangeView {
            group: self.group@,
            intent: self.intent@,
            facts: self.facts@,
            writes: write_views(self.writes@),
            written: self.written as int,
            site: self.site@,
            phase: self.phase,
        }
    }
}

/// The ids of a member list that may be absent.
pub open spec fn listed(members: Option<Seq<Seq<char>>>) -> Seq<Seq<char>> {
    match members {
        Some(ids) => ids,
        None => Seq::empty(),
    }
}

/// What a new group has to pass: its externalId must be free, and its members must be
/// members of the organization.
pub open spec fn creation_check(request: ScimGroupRequestView, facts: GroupFactsView) -> Result<
    (),
    PendingView,
> {
    let rest = match count_limit(listed(request.members).len()) {
        Ok(_) => resolution(listed(request.members), facts),
        Err(p) => Err(p),
    };
    match request.external_id {
        None => rest,
        Some(id) => if id.len() > SCIM_MAX_EXTERNAL_ID_LEN {
            Err(PendingView::Refused(too_long("externalId"@, SCIM_MAX_EXTERNAL_ID_LEN as nat)))
        } else {
            match facts.holder {
                None => Err(PendingView::Needs(GroupLookupView::FindHolder(id))),
                Some(found) => if found is Some {
                    Err(PendingView::Refused(group_id_taken()))
                } else {
                    rest
                },
            }
        },
    }
}

/// What a replacement of a group has to pass, before anything is written.
pub open spec fn replacement_check(
    group: GroupView,
    request: ScimGroupRequestView,
    facts: GroupFactsView,
) -> Result<(), PendingView> {
    let members = match request.members {
        None => Ok(()),
        Some(ids) => match count_limit(ids.len()) {
            Ok(_) => resolution(ids, facts),
            Err(p) => Err(p),
        },
    };
    match members {
        Err(p) => Err(p),
        Ok(_) => match external_id_change(group, request.external_id, facts) {
            Err(p) => Err(p),
            Ok(_) => match name_change(request.display_name) {
                Err(p) => Err(p),
                // On the group as the database has it: a new externalId in the same request
                // does not count.
                Ok(_) => match request.members {
                    None => Ok(()),
                    Some(ids) => additions_check(group, ids, facts),
                },
            },
        },
    }
}

/// What a patch of a group has to pass, before anything is written.
pub open spec fn patch_check(group: GroupView, patch: GroupPatchView, facts: GroupFactsView) -> Result<
    (),
    PendingView,
> {
    if patch.member_ops.len() > SCIM_MAX_GROUP_MEMBER_OPS {
        refusal("invalidValue"@, TOO_MANY_OPS@)
    } else {
        match count_limit(total_values(patch.member_ops)) {
            Err(p) => Err(p),
            Ok(_) => match external_id_change(group, patch.external_id, facts) {
                Err(p) => Err(p),
                Ok(_) => match name_change(patch.display_name) {
                    Err(p) => Err(p),
                    // On the group as the database has it: a new externalId in the same
                    // request does not count.
                    Ok(_) => member_ops_check(group, patch.member_ops, facts),
                },
            },
        }
    }
}

/// A group with another name and another externalId, where they are given.
pub open spec fn updated(
    group: GroupView,
    display_name: Option<Seq<char>>,
    external_id: Option<Seq<char>>,
) -> GroupView {
    let named = match display_name {
        Some(name) => GroupView { name, ..group },
        None => group,
    };
    match external_id {
        Some(id) => named.correlated(Some(id)),
        None => named,
    }
}

impl GroupChangeView {
    /// Asks for a piece of work.
    pub open spec fn ask(self, phase: GroupPhase, command: GroupCommandView) -> (
        Self,
        GroupStepView,
    ) {
        (GroupChangeView { phase, ..self }, GroupStepView::Ask(command))
    }

    /// Ends the change with an error.
    pub open spec fn refuse(self, e: ScimErrorView) -> (Self, GroupStepView) {
        (GroupChangeView { phase: GroupPhase::Finished, ..self }, GroupStepView::Done(Err(e)))
    }

    /// Ends the change for a reason that is not the client's.
    pub open spec fn fail(self) -> (Self, GroupStepView) {
        self.refuse(ScimErrorView::internal())
    }

    /// Either refuses, or asks for the fact that is missing.
    pub open spec fn pend(self, phase: GroupPhase, pending: PendingView) -> (Self, GroupStepView) {
        match pending {
            PendingView::Refused(e) => self.refuse(e),
            PendingView::Needs(lookup) => self.ask(phase, GroupCommandView::Lookup(lookup)),
        }
    }

    /// What the change has to pass before anything is written.
    pub open spec fn verdict(self) -> Result<(), PendingView> {
        match self.intent {
            GroupIntentView::Create(request) => creation_check(request, self.facts),
            GroupIntentView::Replace(request) => replacement_check(self.group, request, self.facts),
            GroupIntentView::Patch(patch) => patch_check(self.group, patch, self.facts),
        }
    }

    /// The group as it is to be written.
    pub open spec fn target(self) -> GroupView {
        match self.intent {
            GroupIntentView::Create(request) => self.group,
            GroupIntentView::Replace(request) => updated(
                self.group,
                request.display_name,
                request.external_id,
            ),
            GroupIntentView::Patch(patch) => updated(
                self.group,
                patch.display_name,
                patch.external_id,
            ),
        }
    }

    /// Whether the group itself is written: not where a patch is on members alone.
    pub open spec fn saves(self) -> bool {
        match self.intent {
            GroupIntentView::Patch(patch) => patch.display_name is Some || patch.external_id is Some,
            _ => true,
        }
    }

    /// First the checks, then the write of the group.
    pub open spec fn check(self) -> (Self, GroupStepView) {
        match self.verdict() {
            Err(p) => self.pend(GroupPhase::Checking, p),
            Ok(_) => {
                let ready = GroupChangeView { group: self.target(), ..self };
                if self.saves() {
                    ready.ask(GroupPhase::Saving, GroupCommandView::Save(ready.group))
                } else {
                    ready.plan()
                }
            },
        }
    }

    /// The member writes.
    pub open spec fn member_plan(self) -> Seq<MemberWriteView> {
        let current = current_members(self.facts);
        match self.intent {
            GroupIntentView::Create(request) => difference(listed(request.members), current),
            GroupIntentView::Replace(request) => match request.members {
                Some(ids) => difference(ids, current),
                None => Seq::empty(),
            },
            GroupIntentView::Patch(patch) => ops_writes(
                current,
                patch.member_ops,
                known_ids(self.facts),
            ),
        }
    }

    /// Then the members. Everything has been checked: what is left is to write.
    pub open spec fn plan(self) -> (Self, GroupStepView) {
        GroupChangeView { writes: self.member_plan(), written: 0, ..self }.write()
    }

    /// One member write after the other, and then the event log.
    pub open spec fn write(self) -> (Self, GroupStepView) {
        if self.written < self.writes.len() {
            self.ask(
                GroupPhase::Writing,
                match self.writes[self.written] {
                    MemberWriteView::Add(id) => GroupCommandView::AddMember(id),
                    MemberWriteView::Remove(id) => GroupCommandView::RemoveMember(id),
                },
            )
        } else {
            self.ask(
                GroupPhase::Logging,
                GroupCommandView::Log(
                    if self.intent is Create {
                        EventType::GroupCreated
                    } else {
                        EventType::GroupUpdated
                    },
                    self.group.uuid,
                ),
            )
        }
    }

    /// The answer, with the members as they are.
    pub open spec fn respond(self, members: Seq<Seq<char>>) -> (Self, GroupStepView) {
        let body = scim_group(self.group, self.site, Some(members));
        (
            GroupChangeView { phase: GroupPhase::Finished, ..self },
            GroupStepView::Done(
                Ok(
                    if self.intent is Create {
                        ScimResponseView::created(
                            location_url(
                                self.site.domain,
                                self.site.org_uuid,
                                "Groups"@,
                                self.group.uuid,
                            ),
                            body,
                        )
                    } else {
                        ScimResponseView::ok(body)
                    },
                ),
            ),
        )
    }

    /// What follows a reply. A reply that does not answer what was asked ends the
    /// change with an internal error.
    pub open spec fn resume(self, reply: GroupReplyView) -> (Self, GroupStepView) {
        match self.phase {
            GroupPhase::Checking => match learned(self.facts, reply) {
                Some(facts) => GroupChangeView { facts, ..self }.check(),
                None => self.fail(),
            },
            GroupPhase::Saving => match reply {
                GroupReplyView::Written(date) => GroupChangeView {
                    group: GroupView { revision_date: date, ..self.group },
                    ..self
                }.plan(),
                GroupReplyView::Duplicate => self.refuse(group_id_taken()),
                _ => self.fail(),
            },
            GroupPhase::Writing => if reply == GroupReplyView::Saved(true) && self.written
                < self.writes.len() {
                GroupChangeView { written: self.written + 1, ..self }.write()
            } else {
                self.fail()
            },
            GroupPhase::Logging => if reply is Noted {
                self.ask(
                    GroupPhase::Listing,
                    GroupCommandView::Lookup(GroupLookupView::ListMembers),
                )
            } else {
                self.fail()
            },
            GroupPhase::Listing => match reply {
                GroupReplyView::Members(ids) => self.respond(ids),
                _ => self.fail(),
            },
            GroupPhase::Finished => self.fail(),
        }
    }
}

/// What is known after a reply to a lookup.
pub open spec fn learned(facts: GroupFactsView, reply: GroupReplyView) -> Option<GroupFactsView> {
    match reply {
        GroupReplyView::Known(ids) => Some(GroupFactsView { known: Some(ids), ..facts }),
        GroupReplyView::Holder(found) => Some(GroupFactsView { holder: Some(found), ..facts }),
        GroupReplyView::Collections(b) => Some(
            GroupFactsView { has_collections: Some(b), ..facts },
        ),
        GroupReplyView::Members(ids) => Some(GroupFactsView { members: Some(ids), ..facts }),
        _ => None,
    }
}

/// The change that begins with an intent on a group.
pub open spec fn change_of(
    group: GroupView,
    intent: GroupIntentView,
    facts: GroupFactsView,
    site: SiteView,
) -> GroupChangeView {
    GroupChangeView {
        group,
        intent,
        facts,
        writes: Seq::empty(),
        written: 0,
        site,
        phase: GroupPhase::Finished,
    }
}

fn check_creation(request: &ScimGroupRequest, facts: &GroupFacts) -> (r: Result<(), Pending>)
    ensures
        crate::groups::checked(r) == creation_check(request@, facts@),
{
    if let Some(id) = &request.external_id {
        if let Err(e) = check_attribute_len("externalId", id.as_str(), SCIM_MAX_EXTERNAL_ID_LEN) {
            return Err(Pending::Refused(e));
        }
        match &facts.holder {
            None => return Err(Pending::Needs(GroupLookup::FindHolder(id.clone()))),
            Some(Some(_)) => {
                return Err(Pending::Refused(ScimError::conflict("uniqueness", GROUP_ID_TAKEN)));
            },
            Some(None) => {},
        }
    }
    match &request.members {
        Some(ids) => {
            assert(texts(ids@).len() == ids.len());
            if let Err(e) = check_member_count(ids.len()) {
                return Err(Pending::Refused(e));
            }
            resolve_members(ids, facts)
        },
        None => Ok(()),
    }
}

fn check_replacement(group: &Group, request: &ScimGroupRequest, facts: &GroupFacts) -> (r: Result<
    (),
    Pending,
>)
    ensures
        crate::groups::checked(r) == replacement_check(group@, request@, facts@),
{
    if let Some(ids) = &request.members {
        assert(texts(ids@).len() == ids.len());
        if let Err(e) = check_member_count(ids.len()) {
            return Err(Pending::Refused(e));
        }
        if let Err(p) = resolve_members(ids, facts) {
            return Err(p);
        }
    }
    if let Err(p) = crate::groups::check_external_id_change(group, &request.external_id, facts) {
        return Err(p);
    }
    if let Err(p) = crate::groups::check_name_change(&request.display_name) {
        return Err(p);
    }
    match &request.members {
        Some(ids) => reject_unmanaged_additions(group, ids, facts),
        None => Ok(()),
    }
}

fn check_patch(group: &Group, patch: &GroupPatch, facts: &GroupFacts) -> (r: Result<(), Pending>)
    ensures
        crate::groups::checked(r) == patch_check(group@, patch@, facts@),
{
    assert(patch@.member_ops.len() == patch.member_ops.len());
    if let Err(e) = check_member_op_count(patch.member_ops.len()) {
        return Err(Pending::Refused(e));
    }
    if let Err(e) = check_member_count(patch.member_count()) {
        return Err(Pending::Refused(e));
    }
    if let Err(p) = crate::groups::check_external_id_change(group, &patch.external_id, facts) {
        return Err(p);
    }
    if let Err(p) = crate::groups::check_name_change(&patch.display_name) {
        return Err(p);
    }
    precheck_member_ops(group, &patch.member_ops, facts)
}

fn update_group(group: &mut Group, display_name: &Option<String>, external_id: &Option<String>)
    ensures
        final(group)@ == updated(old(group)@, optional(*display_name), optional(*external_id)),
{
    if let Some(name) = display_name {
        group.name = name.clone();
    }
    if let Some(id) = external_id {
        group.set_external_id(Some(id.clone()));
    }
}

impl GroupChange {
    fn ask(&mut self, phase: GroupPhase, command: GroupCommand) -> (r: GroupStep)
        ensures
            (final(self)@, r@) == old(self)@.ask(phase, command@),
    {
        self.phase = phase;
        GroupStep::Ask(command)
    }

    fn refuse(&mut self, e: ScimError) -> (r: GroupStep)
        ensures
            (final(self)@, r@) == old(self)@.refuse(e@),
    {
        self.phase = GroupPhase::Finished;
        GroupStep::Done(Err(e))
    }

    fn fail(&mut self) -> (r: GroupStep)
        ensures
            (final(self)@, r@) == old(self)@.fail(),
    {
        self.refuse(ScimError::internal())
    }

    fn pend(&mut self, phase: GroupPhase, pending: Pending) -> (r: GroupStep)
        ensures
            (final(self)@, r@) == old(self)@.pend(phase, pending@),
    {
        match pending {
            Pending::Refused(e) => self.refuse(e),
            Pending::Needs(lookup) => self.ask(phase, GroupCommand::Lookup(lookup)),
        }
    }

    fn write(&mut self) -> (r: GroupStep)
        ensures
            (final(self)@, r@) == old(self)@.write(),
    {
        if self.written < self.writes.len() {
            let command = match &self.writes[self.written] {
                MemberWrite::Add(id) => GroupCommand::AddMember(id.clone()),
                MemberWrite::Remove(id) => GroupCommand::RemoveMember(id.clone()),
            };
            self.ask(GroupPhase::Writing, command)
        } else {
            let event = match &self.intent {
                GroupIntent::Create(_) => EventType::GroupCreated,
                _ => EventType::GroupUpdated,
            };
            let id = self.group.uuid.clone();
            self.ask(GroupPhase::Logging, GroupCommand::Log(event, id))
        }
    }

    fn plan(&mut self) -> (r: GroupStep)
        ensures
            (final(self)@, r@) == old(self)@.plan(),
    {
        let writes = match &self.intent {
            GroupIntent::Create(request) => match &request.members {
                Some(ids) => set_members(ids, &self.facts),
                None => {
                    let none: Vec<String> = Vec::new();
                    assert(texts(none@) =~= Seq::empty());
                    set_members(&none, &self.facts)
                },
            },
            GroupIntent::Replace(request) => match &request.members {
                Some(ids) => set_members(ids, &self.facts),
                None => {
                    let none: Vec<MemberWrite> = Vec::new();
                    assert(write_views(none@) =~= Seq::empty());
                    none
                },
            },
            GroupIntent::Patch(patch) => apply_member_ops(&patch.member_ops, &self.facts),
        };
        self.writes = writes;
        self.written = 0;
        self.write()
    }

    fn check(&mut self) -> (r: GroupStep)
        ensures
            (final(self)@, r@) == old(self)@.check(),
    {
        let verdict = match &self.intent {
            GroupIntent::Create(request) => check_creation(request, &self.facts),
            GroupIntent::Replace(request) => check_replacement(&self.group, request, &self.facts),
            GroupIntent::Patch(patch) => check_patch(&self.group, patch, &self.facts),
        };
        if let Err(p) = verdict {
            return self.pend(GroupPhase::Checking, p);
        }
        let saves = match &self.intent {
            GroupIntent::Create(_) => true,
            GroupIntent::Replace(request) => {
                update_group(&mut self.group, &request.display_name, &request.external_id);
                true
            },
            GroupIntent::Patch(patch) => {
                update_group(&mut self.group, &patch.display_name, &patch.external_id);
                patch.display_name.is_some() || patch.external_id.is_some()
            },
        };
        if saves {
            let group = self.group.copy();
            self.ask(GroupPhase::Saving, GroupCommand::Save(group))
        } else {
            self.plan()
        }
    }

    fn respond(&mut self, members: &Vec<String>) -> (r: GroupStep)
        ensures
            (final(self)@, r@) == old(self)@.respond(texts(members@)),
    {
        let body = scim_group_body(&self.group, &self.site, Some(members));
        let response = match &self.intent {
            GroupIntent::Create(_) => {
                let location = resource_location(
                    self.site.domain.as_str(),
                    self.site.org_uuid.as_str(),
                    "Groups",
                    self.group.uuid.as_str(),
                );
                ScimResponse::created(location, body)
            },
            _ => ScimResponse::ok(body),
        };
        self.phase = GroupPhase::Finished;
        GroupStep::Done(Ok(response))
    }

    fn learn(&mut self, reply: GroupReply) -> (r: bool)
        ensures
            match learned(old(self)@.facts, reply@) {
                Some(facts) => r && final(self)@ == (GroupChangeView { facts, ..old(self)@ }),
                None => !r && final(self)@ == old(self)@,
            },
    {
        match reply {
            GroupReply::Known(ids) => {
                self.facts.known = Some(ids);
                true
            },
            GroupReply::Holder(found) => {
                self.facts.holder = Some(found);
                true
            },
            GroupReply::Collections(b) => {
                self.facts.has_collections = Some(b);
                true
            },
            GroupReply::Members(ids) => {
                self.facts.members = Some(ids);
                true
            },
            _ => false,
        }
    }

    /// Goes on after a piece of work.
    pub fn resume(&mut self, reply: GroupReply) -> (r: GroupStep)
        ensures
            (final(self)@, r@) == old(self)@.resume(reply@),
    {
        match self.phase {
            GroupPhase::Checking => {
                if self.learn(reply) {
                    self.check()
                } else {
                    self.fail()
                }
            },
            GroupPhase::Saving => match reply {
                GroupReply::Written(date) => {
                    self.group.revision_date = date;
                    self.plan()
                },
                GroupReply::Duplicate => self.refuse(
                    ScimError::conflict("uniqueness", GROUP_ID_TAKEN),
                ),
                _ => self.fail(),
            },
            GroupPhase::Writing => match reply {
                GroupReply::Saved(true) => {
                    if self.written < self.writes.len() {
                        self.written = self.written + 1;
                        self.write()
                    } else {
                        self.fail()
                    }
                },
                _ => self.fail(),
            },
            GroupPhase::Logging => match reply {
                GroupReply::Noted => self.ask(
                    GroupPhase::Listing,
                    GroupCommand::Lookup(GroupLookup::ListMembers),
                ),
                _ => self.fail(),
            },
            GroupPhase::Listing => match reply {
                GroupReply::Members(ids) => self.respond(&ids),
                _ => self.fail(),
            },
            GroupPhase::Finished => self.fail(),
        }
    }

    fn start(group: Group, intent: GroupIntent, facts: GroupFacts, site: Site) -> (r: (
        GroupChange,
        GroupStep,
    ))
        ensures
            (r.0@, r.1@) == change_of(group@, intent@, facts@, site@).check(),
    {
        let mut change = GroupChange {
            group,
            intent,
            facts,
            writes: Vec::new(),
            written: 0,
            site,
            phase: GroupPhase::Finished,
        };
        assert(change@ =~= change_of(group@, intent@, facts@, site@));
        let step = change.check();
        (change, step)
    }
}

/// The name of a new group, or what is wrong with it.
pub open spec fn new_name(display_name: Option<Seq<char>>) -> Result<Seq<char>, ScimErrorView> {
    match display_name {
        None => Err(ScimErrorView::bad_request("invalidValue"@, NAME_REQUIRED@)),
        Some(name) => if is_blank_text(name) {
            Err(ScimErrorView::bad_request("invalidValue"@, NAME_REQUIRED@))
        } else if name.len() > SCIM_MAX_GROUP_NAME_LEN {
            Err(too_long("displayName"@, SCIM_MAX_GROUP_NAME_LEN as nat))
        } else {
            Ok(name)
        },
    }
}

/// A new group. It opens nothing, and has no members yet.
pub open spec fn new_group(
    uuid: Seq<char>,
    site: SiteView,
    name: Seq<char>,
    external_id: Option<Seq<char>>,
    now: Seq<char>,
) -> GroupView {
    GroupView {
        uuid,
        organizations_uuid: site.org_uuid,
        name,
        access_all: false,
        external_id: stored_group_id(external_id),
        creation_date: now,
        revision_date: now,
    }
}

/// Starts the creation of a group, under a fresh id.
pub fn post_group(
    enabled: bool,
    data: Result<ScimJson<ScimGroupRequest>, ScimError>,
    uuid: String,
    now: String,
    site: Site,
) -> (r: Result<(GroupChange, GroupStep), ScimError>)
    ensures
        if !enabled {
            r matches Err(e) && e@ == ScimErrorView::not_implemented(GROUPS_DISABLED@)
        } else {
            match data {
                Err(e) => r matches Err(refused) && refused@ == e@,
                Ok(body) => match new_name(body.0@.display_name) {
                    Err(e) => r matches Err(refused) && refused@ == e,
                    Ok(name) => r matches Ok((change, step)) && (change@, step@) == change_of(
                        new_group(uuid@, site@, name, body.0@.external_id, now@),
                        GroupIntentView::Create(body.0@),
                        GroupFactsView {
                            members: Some(Seq::empty()),
                            ..GroupFactsView::nothing()
                        },
                        site@,
                    ).check(),
                },
            }
        },
{
    if let Err(e) = check_groups_enabled(enabled) {
        return Err(e);
    }
    let request = match data {
        Err(e) => return Err(e),
        Ok(body) => body.0,
    };
    let name = match &request.display_name {
        Some(name) => {
            if is_blank(name.as_str()) {
                return Err(ScimError::bad_request("invalidValue", NAME_REQUIRED));
            }
            name.clone()
        },
        None => return Err(ScimError::bad_request("invalidValue", NAME_REQUIRED)),
    };
    if let Err(e) = check_attribute_len("displayName", name.as_str(), SCIM_MAX_GROUP_NAME_LEN) {
        return Err(e);
    }
    let external_id = match &request.external_id {
        Some(id) => Some(id.clone()),
        None => None,
    };
    let group = Group::new(uuid, site.org_uuid.clone(), name, false, external_id, now);
    let mut facts = GroupFacts::nothing();
    let none: Vec<String> = Vec::new();
    assert(texts(none@) =~= Seq::empty());
    facts.members = Some(none);
    Ok(GroupChange::start(group, GroupIntent::Create(request), facts, site))
}

/// Starts the replacement of a group's attributes, as far as the request carries them.
pub fn put_group(
    enabled: bool,
    group: Option<Group>,
    data: Result<ScimJson<ScimGroupRequest>, ScimError>,
    site: Site,
) -> (r: Result<(GroupChange, GroupStep), ScimError>)
    ensures
        if !enabled {
            r matches Err(e) && e@ == ScimErrorView::not_implemented(GROUPS_DISABLED@)
        } else {
            match group {
                None => r matches Err(e) && e@ == ScimErrorView::not_found(),
                Some(group) => match data {
                    Err(e) => r matches Err(refused) && refused@ == e@,
                    Ok(body) => r matches Ok((change, step)) && (change@, step@) == change_of(
                        group@,
                        GroupIntentView::Replace(body.0@),
                        GroupFactsView::nothing(),
                        site@,
                    ).check(),
                },
            }
        },
{
    if let Err(e) = check_groups_enabled(enabled) {
        return Err(e);
    }
    let Some(group) = group else {
        return Err(ScimError::not_found());
    };
    match data {
        Err(e) => Err(e),
        Ok(body) => Ok(
            GroupChange::start(group, GroupIntent::Replace(body.0), GroupFacts::nothing(), site),
        ),
    }
}

/// Starts a patch of a group.
pub fn patch_group(
    enabled: bool,
    group: Option<Group>,
    data: Result<ScimJson<PatchOp>, ScimError>,
    site: Site,
) -> (r: Result<(GroupChange, GroupStep), ScimError>)
    ensures
        if !enabled {
            r matches Err(e) && e@ == ScimErrorView::not_implemented(GROUPS_DISABLED@)
        } else {
            match group {
                None => r matches Err(e) && e@ == ScimErrorView::not_found(),
                Some(group) => match data {
                    Err(e) => r matches Err(refused) && refused@ == e@,
                    Ok(body) => match group_patch(body.0@) {
                        Err(e) => r matches Err(refused) && refused@ == e,
                        Ok(patch) => r matches Ok((change, step)) && (change@, step@) == change_of(
                            group@,
                            GroupIntentView::Patch(patch),
                            GroupFactsView::nothing(),
                            site@,
                        ).check(),
                    },
                },
            }
        },
{
    if let Err(e) = check_groups_enabled(enabled) {
        return Err(e);
    }
    let Some(group) = group else {
        return Err(ScimError::not_found());
    };
    match data {
        Err(e) => Err(e),
        Ok(body) => match parse_group_patch(&body.0) {
            Err(e) => Err(e),
            Ok(patch) => Ok(
                GroupChange::start(
                    group,
                    GroupIntent::Patch(patch),
                    GroupFacts::nothing(),
                    site,
                ),
            ),
        },
    }
}

// ---------------------------------------------------------------------------
// Deleting a group
// ---------------------------------------------------------------------------

/// A piece of work that the deletion of a group asks for.
#[derive(Debug)]
pub enum DeletionCommand {
    /// Look up whether collections are granted to the group.
    HasCollections,
    /// Delete the group.
    Delete(Group),
    /// Record an event of the group.
    Log(EventType, String),
}

/// What came of a piece of work.
#[derive(Debug)]
pub enum DeletionReply {
    /// Whether collections are granted to the group.
    Collections(bool),
    /// Whether the group was deleted.
    Deleted(bool),
    /// The work is done.
    Noted,
}

/// Either more work, or the answer.
#[derive(Debug)]
pub enum DeletionStep {
    Ask(DeletionCommand),
    Done(Result<ScimResponse, ScimError>),
}

/// The mathematical counterpart of [`DeletionCommand`].
pub ghost enum DeletionCommandView {
    HasCollections,
    Delete(GroupView),
    Log(EventType, Seq<char>),
}

/// The mathematical counterpart of [`DeletionStep`].
pub ghost enum DeletionStepView {
    Ask(DeletionCommandView),
    Done(Result<ScimResponseView, ScimErrorView>),
}

impl View for DeletionCommand {
    type V = DeletionCommandView;

    open spec fn view(&self) -> DeletionCommandView {
        match self {
            DeletionCommand::HasCollections => DeletionCommandView::HasCollections,
            DeletionCommand::Delete(group) => DeletionCommandView::Delete(group@),
            DeletionCommand::Log(event, id) => DeletionCommandView::Log(*event, id@),
        }
    }
}

impl View for DeletionStep {
    type V = DeletionStepView;

    open spec fn view(&self) -> DeletionStepView {
        match self {
            DeletionStep::Ask(command) => DeletionStepView::Ask(command@),
            DeletionStep::Done(Ok(response)) => DeletionStepView::Done(Ok(response@)),
            DeletionStep::Done(Err(e)) => DeletionStepView::Done(Err(e@)),
        }
    }
}

/// What a deletion is waiting for.
#[derive(Clone, Copy, Debug, PartialEq, Eq, Structural)]
pub enum DeletionPhase {
    Checking,
    Deleting,
    Logging,
    Finished,
}

/// The deletion of a group that is under way.
#[derive(Debug)]
pub struct GroupDeletion {
    group: Group,
    phase: DeletionPhase,
}

/// The mathematical counterpart of [`GroupDeletion`].
#[verifier::ext_equal]
pub ghost struct GroupDeletionView {
    pub group: GroupView,
    pub phase: DeletionPhase,
}

impl View for GroupDeletion {
    type V = GroupDeletionView;

    closed spec fn view(&self) -> GroupDeletionView {
        GroupDeletionView { group: self.group@, phase: self.phase }
    }
}

impl GroupDeletionView {
    /// Deletes the group, unless SCIM does not manage it. It is refused for exactly the
    /// groups that additions are refused for, because it destroys an administrator's
    /// configuration.
    pub open spec fn decide(self, facts: GroupFactsView) -> (Self, DeletionStepView) {
        match may_add(self.group, facts) {
            Err(_) => (
                GroupDeletionView { phase: DeletionPhase::Checking, ..self },
                DeletionStepView::Ask(DeletionCommandView::HasCollections),
            ),
            Ok(allowed) => if allowed {
                (
                    GroupDeletionView { phase: DeletionPhase::Deleting, ..self },
                    DeletionStepView::Ask(DeletionCommandView::Delete(self.group)),
                )
            } else {
                self.refuse(ScimErrorView::bad_request("mutability"@, UNMANAGED_DELETE@))
            },
        }
    }

    /// Ends the deletion with an error.
    pub open spec fn refuse(self, e: ScimErrorView) -> (Self, DeletionStepView) {
        (
            GroupDeletionView { phase: DeletionPhase::Finished, ..self },
            DeletionStepView::Done(Err(e)),
        )
    }

    /// What follows a reply. The event log is written only once the group is deleted. A
    /// reply that does not answer what was asked ends the deletion with an internal
    /// error.
    pub open spec fn resume(self, reply: DeletionReply) -> (Self, DeletionStepView) {
        match (self.phase, reply) {
            (DeletionPhase::Checking, DeletionReply::Collections(granted)) => self.decide(
                GroupFactsView { has_collections: Some(granted), ..GroupFactsView::nothing() },
            ),
            (DeletionPhase::Deleting, DeletionReply::Deleted(deleted)) => if deleted {
                (
                    GroupDeletionView { phase: DeletionPhase::Logging, ..self },
                    DeletionStepView::Ask(
                        DeletionCommandView::Log(EventType::GroupDeleted, self.group.uuid),
                    ),
                )
            } else {
                self.refuse(ScimErrorView::internal())
            },
            (DeletionPhase::Logging, DeletionReply::Noted) => (
                GroupDeletionView { phase: DeletionPhase::Finished, ..self },
                DeletionStepView::Done(Ok(ScimResponseView::no_content())),
            ),
            _ => self.refuse(ScimErrorView::internal()),
        }
    }
}

impl GroupDeletion {
    fn refuse(&mut self, e: ScimError) -> (r: DeletionStep)
        ensures
            (final(self)@, r@) == old(self)@.refuse(e@),
    {
        self.phase = DeletionPhase::Finished;
        DeletionStep::Done(Err(e))
    }

    fn decide(&mut self, facts: &GroupFacts) -> (r: DeletionStep)
        ensures
            (final(self)@, r@) == old(self)@.decide(facts@),
    {
        match scim_may_add_members(&self.group, facts) {
            Err(_) => {
                self.phase = DeletionPhase::Checking;
                DeletionStep::Ask(DeletionCommand::HasCollections)
            },
            Ok(allowed) => {
                if !allowed {
                    return self.refuse(ScimError::bad_request("mutability", UNMANAGED_DELETE));
                }
                self.phase = DeletionPhase::Deleting;
                DeletionStep::Ask(DeletionCommand::Delete(self.group.copy()))
            },
        }
    }

    /// Goes on after a piece of work.
    pub fn resume(&mut self, reply: DeletionReply) -> (r: DeletionStep)
        ensures
            (final(self)@, r@) == old(self)@.resume(reply),
    {
        match (self.phase, reply) {
            (DeletionPhase::Checking, DeletionReply::Collections(granted)) => {
                let mut facts = GroupFacts::nothing();
                facts.has_collections = Some(granted);
                self.decide(&facts)
            },
            (DeletionPhase::Deleting, DeletionReply::Deleted(deleted)) => {
                if !deleted {
                    return self.refuse(ScimError::internal());
                }
                self.phase = DeletionPhase::Logging;
                DeletionStep::Ask(
                    DeletionCommand::Log(EventType::GroupDeleted, self.group.uuid.clone()),
                )
            },
            (DeletionPhase::Logging, DeletionReply::Noted) => {
                self.phase = DeletionPhase::Finished;
                DeletionStep::Done(Ok(ScimResponse::no_content()))
            },
            _ => self.refuse(ScimError::internal()),
        }
    }
}

/// Starts the deletion of a group.
pub fn delete_group(enabled: bool, group: Option<Group>) -> (r: Result<
    (GroupDeletion, DeletionStep),
    ScimError,
>)
    ensures
        if !enabled {
            r matches Err(e) && e@ == ScimErrorView::not_implemented(GROUPS_DISABLED@)
        } else {
            match group {
                None => r matches Err(e) && e@ == ScimErrorView::not_found(),
                Some(group) => r matches Ok((deletion, step)) && (deletion@, step@)
                    == (GroupDeletionView {
                    group: group@,
                    phase: DeletionPhase::Finished,
                }).decide(GroupFactsView::nothing()),
            }
        },
{
    if let Err(e) = check_groups_enabled(enabled) {
        return Err(e);
    }
    let Some(group) = group else {
        return Err(ScimError::not_found());
    };
    let mut deletion = GroupDeletion { group, phase: DeletionPhase::Finished };
    let step = deletion.decide(&GroupFacts::nothing());
    Ok((deletion, step))
}

} // verus!
