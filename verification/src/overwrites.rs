//! Permission overwrites: what a category or a channel allows and denies to a role.

use vstd::prelude::*;
use crate::diff::{field_diff, push_field, Diff, DiffModel};
use crate::lookup::{distinct, first_index, lemma_first_index};
use crate::permission::{permissions_diff, Permission, PermissionsList};
use crate::role::{AwaitingRole, ExistingRole, LiveRoleModel, Role, RoleModel};
use crate::text::same_text;

verus! {

/// The permissions that are allowed and denied to one role. The overwrite owns a copy
/// of the role, in the state of the entity that the overwrite belongs to.
#[derive(Debug, PartialEq)]
pub struct PermissionsOverwrite<R: Role> {
    pub role: R,
    pub allow: PermissionsList,
    pub deny: PermissionsList,
}

/// Mathematical counterpart of [`PermissionsOverwrite`], over the model of its role.
pub struct OverwriteModel<M> {
    pub role: M,
    pub allow: Seq<Permission>,
    pub deny: Seq<Permission>,
}

/// What is compared of an overwrite: the name of its role, and the two lists.
pub struct OverwriteEntry {
    pub role: Seq<char>,
    pub allow: Seq<Permission>,
    pub deny: Seq<Permission>,
}

impl<R: Role> View for PermissionsOverwrite<R> {
    type V = OverwriteModel<R::V>;

    open spec fn view(&self) -> OverwriteModel<R::V> {
        OverwriteModel { role: self.role@, allow: self.allow@, deny: self.deny@ }
    }
}

impl<R: Role> Clone for PermissionsOverwrite<R> {
    fn clone(&self) -> (copy: Self)
        ensures
            copy@ == self@,
    {
        PermissionsOverwrite {
            role: self.role.duplicate(),
            allow: self.allow.clone(),
            deny: self.deny.clone(),
        }
    }
}

/// What is compared of one overwrite.
pub open spec fn entry_of<R: Role>(overwrite: OverwriteModel<R::V>) -> OverwriteEntry {
    OverwriteEntry {
        role: R::name_of(overwrite.role),
        allow: overwrite.allow,
        deny: overwrite.deny,
    }
}

/// What is compared of some overwrites, in the same order.
pub open spec fn entries<R: Role>(overwrites: Seq<OverwriteModel<R::V>>) -> Seq<OverwriteEntry> {
    overwrites.map_values(|overwrite: OverwriteModel<R::V>| entry_of::<R>(overwrite))
}

/// The role names of some entries, in the same order.
pub open spec fn entry_roles(entries: Seq<OverwriteEntry>) -> Seq<Seq<char>> {
    entries.map_values(|entry: OverwriteEntry| entry.role)
}

/// The differences between a live overwrite and the overwrite wanted for the same role.
pub open spec fn entry_diff(live: OverwriteEntry, wanted: OverwriteEntry) -> Seq<DiffModel> {
    field_diff("allow"@, permissions_diff(live.allow, wanted.allow)) + field_diff(
        "deny"@,
        permissions_diff(live.deny, wanted.deny),
    )
}

/// What the first `count` live overwrites contribute to the differences. Each is held
/// against the first wanted overwrite for the same role: where there is none, the role
/// changes to nothing; where the two differ, their differences are nested below the
/// role's name.
pub open spec fn live_overwrites_diff(
    live: Seq<OverwriteEntry>,
    wanted: Seq<OverwriteEntry>,
    count: nat,
) -> Seq<DiffModel>
    decreases count,
{
    if count == 0 {
        Seq::empty()
    } else {
        let entry = live[count - 1];
        let before = live_overwrites_diff(live, wanted, (count - 1) as nat);
        match first_index(entry_roles(wanted), entry.role) {
            Some(i) => before + field_diff(entry.role, entry_diff(entry, wanted[i])),
            None => before.push(DiffModel::Change(Some(entry.role), None)),
        }
    }
}

/// What the first `count` wanted overwrites contribute to the differences: a role with
/// no live overwrite changes from nothing.
pub open spec fn wanted_overwrites_diff(
    live: Seq<OverwriteEntry>,
    wanted: Seq<OverwriteEntry>,
    count: nat,
) -> Seq<DiffModel>
    decreases count,
{
    if count == 0 {
        Seq::empty()
    } else {
        let entry = wanted[count - 1];
        let before = wanted_overwrites_diff(live, wanted, (count - 1) as nat);
        match first_index(entry_roles(live), entry.role) {
            Some(_) => before,
            None => before.push(DiffModel::Change(None, Some(entry.role))),
        }
    }
}

/// The differences between the live overwrites of an entity and the wanted ones.
/// Overwrites are matched by the name of their role, so the order of either list
/// changes nothing but the order of the differences.
pub open spec fn overwrites_diff(
    live: Seq<OverwriteEntry>,
    wanted: Seq<OverwriteEntry>,
) -> Seq<DiffModel> {
    live_overwrites_diff(live, wanted, live.len()) + wanted_overwrites_diff(
        live,
        wanted,
        wanted.len(),
    )
}

impl<R: Role> PermissionsOverwrite<R> {
    /// Computes [`entry_diff`] against the overwrite that is wanted.
    pub fn diffs_with<T: Role>(&self, target: &PermissionsOverwrite<T>) -> (diffs: Vec<Diff>)
        ensures
            diffs.deep_view() == entry_diff(entry_of::<R>(self@), entry_of::<T>(target@)),
    {
        let mut all: Vec<Diff> = Vec::new();
        assert(all.deep_view() =~= Seq::empty());
        push_field(&mut all, "allow", self.allow.diffs_with(&target.allow));
        push_field(&mut all, "deny", self.deny.diffs_with(&target.deny));
        assert(all.deep_view() =~= entry_diff(entry_of::<R>(self@), entry_of::<T>(target@)));
        all
    }
}

/// The overwrites of a category or of a channel.
#[derive(Debug, PartialEq)]
pub struct PermissionsOverwritesList<R: Role> {
    pub items: Vec<PermissionsOverwrite<R>>,
}

impl<R: Role> View for PermissionsOverwritesList<R> {
    type V = Seq<OverwriteModel<R::V>>;

    open spec fn view(&self) -> Seq<OverwriteModel<R::V>> {
        self.items@.map_values(|overwrite: PermissionsOverwrite<R>| overwrite@)
    }
}

impl<R: Role> From<Vec<PermissionsOverwrite<R>>> for PermissionsOverwritesList<R> {
    fn from(items: Vec<PermissionsOverwrite<R>>) -> (list: PermissionsOverwritesList<R>) {
        PermissionsOverwritesList { items }
    }
}

impl<R: Role> vstd::std_specs::convert::FromSpecImpl<Vec<PermissionsOverwrite<R>>> for PermissionsOverwritesList<R> {
    open spec fn obeys_from_spec() -> bool {
        true
    }

    open spec fn from_spec(items: Vec<PermissionsOverwrite<R>>) -> PermissionsOverwritesList<R> {
        PermissionsOverwritesList { items }
    }
}

impl<R: Role> Clone for PermissionsOverwritesList<R> {
    fn clone(&self) -> (copy: Self)
        ensures
            copy@ == self@,
    {
        let mut items: Vec<PermissionsOverwrite<R>> = Vec::new();
        let mut i: usize = 0;
        while i < self.items.len()
            invariant
                i <= self.items@.len(),
                items@.len() == i,
                forall|j: int| 0 <= j < i ==> items@[j]@ == self.items@[j]@,
            decreases self.items@.len() - i,
        {
            items.push(self.items[i].clone());
            i += 1;
        }
        let copy = PermissionsOverwritesList { items };
        assert(copy@ =~= self@);
        copy
    }
}

impl<R: Role> PermissionsOverwritesList<R> {
    /// The overwrites of the list, in its order.
    pub fn items(&self) -> (items: &Vec<PermissionsOverwrite<R>>)
        ensures
            items == &self.items,
    {
        &self.items
    }

    /// The first overwrite for the role of a given name.
    pub fn find_by_role_name(&self, name: &str) -> (found: Option<&PermissionsOverwrite<R>>)
        ensures
            match first_index(entry_roles(entries::<R>(self@)), name@) {
                Some(i) => found == Some(&self.items@[i]),
                None => found.is_none(),
            },
    {
        let ghost roles = entry_roles(entries::<R>(self@));
        let mut i: usize = 0;
        while i < self.items.len()
            invariant
                roles == entry_roles(entries::<R>(self@)),
                i <= self.items@.len(),
                forall|j: int| 0 <= j < i ==> roles[j] != name@,
            decreases self.items@.len() - i,
        {
            let candidate = self.items[i].role.name();
            proof {
                assert(roles[i as int] == R::name_of(self.items@[i as int].role@));
            }
            if same_text(candidate.as_str(), name) {
                proof {
                    lemma_first_index(roles, name@);
                }
                return Some(&self.items[i]);
            }
            i += 1;
        }
        proof {
            lemma_first_index(roles, name@);
        }
        None
    }

    /// Computes [`overwrites_diff`] against the overwrites that are wanted.
    pub fn diffs_with<T: Role>(&self, target: &PermissionsOverwritesList<T>) -> (diffs: Vec<Diff>)
        ensures
            diffs.deep_view() == overwrites_diff(entries::<R>(self@), entries::<T>(target@)),
    {
        let ghost live = entries::<R>(self@);
        let ghost wanted = entries::<T>(target@);
        let mut all: Vec<Diff> = Vec::new();
        assert(all.deep_view() =~= Seq::empty());
        let mut i: usize = 0;
        while i < self.items.len()
            invariant
                live == entries::<R>(self@),
                wanted == entries::<T>(target@),
                i <= self.items@.len(),
                all.deep_view() == live_overwrites_diff(live, wanted, i as nat),
            decreases self.items@.len() - i,
        {
            let overwrite = &self.items[i];
            let role = overwrite.role.name();
            let ghost before = all.deep_view();
            proof {
                assert(live[i as int] == entry_of::<R>(overwrite@));
            }
            match target.find_by_role_name(role.as_str()) {
                Some(counterpart) => {
                    let ghost at = first_index(entry_roles(wanted), role@).unwrap();
                    proof {
                        lemma_first_index(entry_roles(wanted), role@);
                        assert(wanted[at] == entry_of::<T>(counterpart@));
                    }
                    push_field(&mut all, role.as_str(), overwrite.diffs_with(counterpart));
                },
                None => {
                    all.push(Diff::Change(Some(role), None));
                    assert(all.deep_view() =~= before.push(
                        DiffModel::Change(Some(live[i as int].role), None),
                    ));
                },
            }
            i += 1;
        }
        let ghost first = all.deep_view();
        let mut j: usize = 0;
        while j < target.items.len()
            invariant
                live == entries::<R>(self@),
                wanted == entries::<T>(target@),
                j <= target.items@.len(),
                all.deep_view() == first + wanted_overwrites_diff(live, wanted, j as nat),
            decreases target.items@.len() - j,
        {
            let role = target.items[j].role.name();
            let ghost before = all.deep_view();
            proof {
                assert(wanted[j as int] == entry_of::<T>(target.items@[j as int]@));
            }
            if self.find_by_role_name(role.as_str()).is_none() {
                all.push(Diff::Change(None, Some(role)));
                assert(all.deep_view() =~= before.push(
                    DiffModel::Change(None, Some(wanted[j as int].role)),
                ));
            }
            j += 1;
        }
        all
    }
}

impl PermissionsOverwrite<ExistingRole> {
    /// The wanted overwrite that asks for nothing but what this live overwrite already is.
    pub fn to_awaiting(&self) -> (awaiting: PermissionsOverwrite<AwaitingRole>)
        ensures
            awaiting@ == wanted_overwrite(self@),
    {
        PermissionsOverwrite {
            role: self.role.to_awaiting(),
            allow: self.allow.clone(),
            deny: self.deny.clone(),
        }
    }
}

impl PermissionsOverwritesList<ExistingRole> {
    /// The wanted overwrites that ask for nothing but what these live overwrites
    /// already are.
    pub fn to_awaiting(&self) -> (awaiting: PermissionsOverwritesList<AwaitingRole>)
        ensures
            awaiting@ == wanted_overwrites(self@),
    {
        let mut items: Vec<PermissionsOverwrite<AwaitingRole>> = Vec::new();
        let mut i: usize = 0;
        while i < self.items.len()
            invariant
                i <= self.items@.len(),
                items@.len() == i,
                forall|j: int| 0 <= j < i ==> items@[j]@ == wanted_overwrite(self.items@[j]@),
            decreases self.items@.len() - i,
        {
            items.push(self.items[i].to_awaiting());
            i += 1;
        }
        let awaiting = PermissionsOverwritesList { items };
        assert(awaiting@ =~= wanted_overwrites(self@));
        awaiting
    }
}

/// A live overwrite, taken as wanted: the same lists for the same role, without the
/// role's identifier.
pub open spec fn wanted_overwrite(
    live: OverwriteModel<LiveRoleModel>,
) -> OverwriteModel<RoleModel> {
    OverwriteModel { role: live.role.role, allow: live.allow, deny: live.deny }
}

/// Some live overwrites, taken as wanted, in the same order.
pub open spec fn wanted_overwrites(
    live: Seq<OverwriteModel<LiveRoleModel>>,
) -> Seq<OverwriteModel<RoleModel>> {
    live.map_values(|overwrite: OverwriteModel<LiveRoleModel>| wanted_overwrite(overwrite))
}

/// Whether no two overwrites of a list are for roles of the same name.
pub open spec fn distinct_overwrites<R: Role>(overwrites: Seq<OverwriteModel<R::V>>) -> bool {
    distinct(entry_roles(entries::<R>(overwrites)))
}

} // verus!
