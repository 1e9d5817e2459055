//! Groups, and lists of member ids taken as sets.

use vstd::prelude::*;
use vstd::string::*;

use crate::text::{is_blank, is_blank_text, optional, texts};

verus! {

/// A group of an organization.
#[derive(Debug)]
pub struct Group {
    pub uuid: String,
    pub organizations_uuid: String,
    pub name: String,
    /// The group opens every collection of the organization.
    pub access_all: bool,
    pub external_id: Option<String>,
    /// When the group was created, as SCIM shows it.
    pub creation_date: String,
    /// When the group was last written, as SCIM shows it.
    pub revision_date: String,
}

/// The mathematical counterpart of [`Group`].
#[verifier::ext_equal]
pub ghost struct GroupView {
    pub uuid: Seq<char>,
    pub organizations_uuid: Seq<char>,
    pub name: Seq<char>,
    pub access_all: bool,
    pub external_id: Option<Seq<char>>,
    pub creation_date: Seq<char>,
    pub revision_date: Seq<char>,
}

impl View for Group {
    type V = GroupView;

    open spec fn view(&self) -> GroupView {
        GroupView {
            uuid: self.uuid@,
            organizations_uuid: self.organizations_uuid@,
            name: self.name@,
            access_all: self.access_all,
            external_id: optional(self.external_id),
            creation_date: self.creation_date@,
            revision_date: self.revision_date@,
        }
    }
}

/// How a group's externalId is stored: a blank one is stored as absent.
pub open spec fn stored_group_id(external_id: Option<Seq<char>>) -> Option<Seq<char>> {
    match external_id {
        Some(id) => if is_blank_text(id) {
            None
        } else {
            Some(id)
        },
        None => None,
    }
}

impl GroupView {
    /// The group under another externalId.
    pub open spec fn correlated(self, external_id: Option<Seq<char>>) -> Self {
        GroupView { external_id: stored_group_id(external_id), ..self }
    }
}

impl Group {
    /// A new group.
    pub fn new(
        uuid: String,
        organizations_uuid: String,
        name: String,
        access_all: bool,
        external_id: Option<String>,
        now: String,
    ) -> (r: Self)
        ensures
            r@ == (GroupView {
                uuid: uuid@,
                organizations_uuid: organizations_uuid@,
                name: name@,
                access_all,
                external_id: stored_group_id(optional(external_id)),
                creation_date: now@,
                revision_date: now@,
            }),
    {
        let mut group = Group {
            uuid,
            organizations_uuid,
            name,
            access_all,
            external_id: None,
            creation_date: now.clone(),
            revision_date: now,
        };
        group.set_external_id(external_id);
        group
    }

    /// The same group once more.
    pub fn copy(&self) -> (r: Self)
        ensures
            r@ == self@,
    {
        Group {
            uuid: self.uuid.clone(),
            organizations_uuid: self.organizations_uuid.clone(),
            name: self.name.clone(),
            access_all: self.access_all,
            external_id: match &self.external_id {
                Some(id) => Some(id.clone()),
                None => None,
            },
            creation_date: self.creation_date.clone(),
            revision_date: self.revision_date.clone(),
        }
    }

    /// Sets the externalId. A blank one is stored as absent.
    pub fn set_external_id(&mut self, external_id: Option<String>)
        ensures
            final(self)@ == old(self)@.correlated(optional(external_id)),
    {
        self.external_id = match external_id {
            Some(id) => if is_blank(id.as_str()) {
                None
            } else {
                Some(id)
            },
            None => None,
        };
    }
}

/// The same list once more.
pub fn copy_ids(ids: &Vec<String>) -> (r: Vec<String>)
    ensures
        texts(r@) == texts(ids@),
{
    let ghost all = texts(ids@);
    let mut r: Vec<String> = Vec::new();
    let mut i: usize = 0;
    assert(texts(r@) =~= all.take(0));
    while i < ids.len()
        invariant
            i <= ids.len(),
            all == texts(ids@),
            texts(r@) == all.take(i as int),
        decreases ids.len() - i,
    {
        let ghost before = r@;
        r.push(ids[i].clone());
        assert(texts(r@) =~= texts(before).push(all[i as int]));
        assert(texts(r@) =~= all.take(i + 1));
        i += 1;
    }
    assert(all.take(i as int) =~= all);
    r
}

/// Whether an id is in a list.
pub fn is_listed(list: &Vec<String>, id: &String) -> (r: bool)
    ensures
        r == texts(list@).contains(id@),
{
    let ghost all = texts(list@);
    let mut i: usize = 0;
    while i < list.len()
        invariant
            i <= list.len(),
            all == texts(list@),
            forall|j: int| 0 <= j < i ==> #[trigger] all[j] != id@,
        decreases list.len() - i,
    {
        if list[i] == *id {
            assert(all[i as int] == id@);
            return true;
        }
        i += 1;
    }
    false
}

/// The ids of `values` that are not in `base`, each once, in the order in which they
/// first occur.
pub open spec fn fresh(values: Seq<Seq<char>>, base: Seq<Seq<char>>) -> Seq<Seq<char>>
    decreases values.len(),
{
    if values.len() == 0 {
        Seq::empty()
    } else {
        let earlier = fresh(values.drop_last(), base);
        if base.contains(values.last()) || earlier.contains(values.last()) {
            earlier
        } else {
            earlier.push(values.last())
        }
    }
}

/// Picks the ids of `values` that are not in `base`, each once.
pub fn fresh_ids(values: &Vec<String>, base: &Vec<String>) -> (r: Vec<String>)
    ensures
        texts(r@) == fresh(texts(values@), texts(base@)),
{
    let ghost all = texts(values@);
    let mut r: Vec<String> = Vec::new();
    let mut i: usize = 0;
    assert(texts(r@) =~= fresh(all.take(0), texts(base@)));
    while i < values.len()
        invariant
            i <= values.len(),
            all == texts(values@),
            texts(r@) == fresh(all.take(i as int), texts(base@)),
        decreases values.len() - i,
    {
        let ghost before = r@;
        proof {
            assert(all.take(i + 1).drop_last() =~= all.take(i as int));
            assert(all.take(i + 1).last() == all[i as int]);
        }
        if !is_listed(base, &values[i]) && !is_listed(&r, &values[i]) {
            r.push(values[i].clone());
            assert(texts(r@) =~= texts(before).push(all[i as int]));
        }
        i += 1;
    }
    assert(all.take(i as int) =~= all);
    r
}

/// The fresh ids are those of `values` outside `base`, without repetition.
pub proof fn lemma_fresh(values: Seq<Seq<char>>, base: Seq<Seq<char>>)
    ensures
        forall|id: Seq<char>|
            #[trigger] fresh(values, base).contains(id) <==> values.contains(id) && !base.contains(
                id,
            ),
        fresh(values, base).no_duplicates(),
        fresh(values, base).len() <= values.len(),
    decreases values.len(),
{
    if values.len() > 0 {
        let rest = values.drop_last();
        let last = values.last();
        let earlier = fresh(rest, base);
        let whole = fresh(values, base);
        lemma_fresh(rest, base);
        assert(values =~= rest.push(last));
        assert forall|id: Seq<char>| #[trigger] whole.contains(id) <==> values.contains(id)
            && !base.contains(id) by {
            assert(values.contains(id) <==> rest.contains(id) || id == last) by {
                if rest.contains(id) {
                    let i = choose|i: int| 0 <= i < rest.len() && rest[i] == id;
                    assert(values[i] == id);
                }
                assert(values[values.len() - 1] == last);
            }
            if whole != earlier {
                assert(whole == earlier.push(last));
                if earlier.contains(id) {
                    let i = choose|i: int| 0 <= i < earlier.len() && earlier[i] == id;
                    assert(whole[i] == id);
                }
                assert(whole[whole.len() - 1] == last);
            }
        }
    }
}

} // verus!
