//! Roles, as wanted and as found live, and lists of them indexed by name.

use vstd::prelude::*;
use crate::diff::{
    field_diff, flag_diff, flag_diffs, optional_text_diff, optional_text_diffs, push_field, Diff,
    DiffModel,
};
use crate::extra::ExtraRolesStrategyType;
use crate::lookup::{distinct, first_index, lemma_first_index};
use crate::permission::{permissions_diff, Permission, PermissionsList};
use crate::text::{copy_optional_text, same_text};

verus! {

/// A role as it is wanted. It carries no identifier: the server assigns one when the
/// role is created.
#[derive(Debug, PartialEq)]
pub struct AwaitingRole {
    pub name: String,
    pub permissions: PermissionsList,
    pub color: Option<String>,
    pub is_mentionable: bool,
    pub show_in_sidebar: bool,
}

/// A role as a snapshot of the server holds it, with the identifier that the server
/// assigned.
#[derive(Debug, PartialEq)]
pub struct ExistingRole {
    pub id: String,
    pub name: String,
    pub permissions: PermissionsList,
    pub color: Option<String>,
    pub is_mentionable: bool,
    pub show_in_sidebar: bool,
}

/// What a role is, whether wanted or live.
pub struct RoleModel {
    pub name: Seq<char>,
    pub permissions: Seq<Permission>,
    pub color: Option<Seq<char>>,
    pub is_mentionable: bool,
    pub show_in_sidebar: bool,
}

/// A live role: what the role is, and its identifier.
pub struct LiveRoleModel {
    pub id: Seq<char>,
    pub role: RoleModel,
}

impl View for AwaitingRole {
    type V = RoleModel;

    open spec fn view(&self) -> RoleModel {
        RoleModel {
            name: self.name@,
            permissions: self.permissions@,
            color: self.color.deep_view(),
            is_mentionable: self.is_mentionable,
            show_in_sidebar: self.show_in_sidebar,
        }
    }
}

impl View for ExistingRole {
    type V = LiveRoleModel;

    open spec fn view(&self) -> LiveRoleModel {
        LiveRoleModel {
            id: self.id@,
            role: RoleModel {
                name: self.name@,
                permissions: self.permissions@,
                color: self.color.deep_view(),
                is_mentionable: self.is_mentionable,
                show_in_sidebar: self.show_in_sidebar,
            },
        }
    }
}

/// What the two states of a role have in common: a name, by which a role is told
/// from the others of its list.
pub trait Role: View + Sized {
    /// The name that a role of this state carries.
    spec fn name_of(model: Self::V) -> Seq<char>;

    /// The name of the role.
    fn name(&self) -> (name: String)
        ensures
            name@ == Self::name_of(self@),
    ;

    /// A copy of the role.
    fn duplicate(&self) -> (copy: Self)
        ensures
            copy@ == self@,
    ;
}

impl Role for AwaitingRole {
    open spec fn name_of(model: RoleModel) -> Seq<char> {
        model.name
    }

    fn name(&self) -> (name: String) {
        self.name.clone()
    }

    fn duplicate(&self) -> (copy: Self) {
        AwaitingRole {
            name: self.name.clone(),
            permissions: self.permissions.clone(),
            color: copy_optional_text(&self.color),
            is_mentionable: self.is_mentionable,
            show_in_sidebar: self.show_in_sidebar,
        }
    }
}

impl Role for ExistingRole {
    open spec fn name_of(model: LiveRoleModel) -> Seq<char> {
        model.role.name
    }

    fn name(&self) -> (name: String) {
        self.name.clone()
    }

    fn duplicate(&self) -> (copy: Self) {
        ExistingRole {
            id: self.id.clone(),
            name: self.name.clone(),
            permissions: self.permissions.clone(),
            color: copy_optional_text(&self.color),
            is_mentionable: self.is_mentionable,
            show_in_sidebar: self.show_in_sidebar,
        }
    }
}

impl Clone for AwaitingRole {
    fn clone(&self) -> (copy: Self)
        ensures
            copy@ == self@,
    {
        self.duplicate()
    }
}

impl Clone for ExistingRole {
    fn clone(&self) -> (copy: Self)
        ensures
            copy@ == self@,
    {
        self.duplicate()
    }
}

/// The differences between a live role and the role that is wanted under the same
/// name, field by field. The identifier is no field of the comparison.
pub open spec fn role_diff(live: RoleModel, wanted: RoleModel) -> Seq<DiffModel> {
    field_diff("permissions"@, permissions_diff(live.permissions, wanted.permissions))
        + field_diff("color"@, optional_text_diff(live.color, wanted.color))
        + field_diff("is_mentionable"@, flag_diff(live.is_mentionable, wanted.is_mentionable))
        + field_diff("show_in_sidebar"@, flag_diff(live.show_in_sidebar, wanted.show_in_sidebar))
}

impl ExistingRole {
    /// Computes [`role_diff`] against the role that is wanted.
    pub fn diffs_with(&self, awaiting: &AwaitingRole) -> (diffs: Vec<Diff>)
        ensures
            diffs.deep_view() == role_diff(self@.role, awaiting@),
    {
        let mut all: Vec<Diff> = Vec::new();
        assert(all.deep_view() =~= Seq::empty());
        push_field(&mut all, "permissions", self.permissions.diffs_with(&awaiting.permissions));
        push_field(&mut all, "color", optional_text_diffs(&self.color, &awaiting.color));
        push_field(
            &mut all,
            "is_mentionable",
            flag_diffs(self.is_mentionable, awaiting.is_mentionable),
        );
        push_field(
            &mut all,
            "show_in_sidebar",
            flag_diffs(self.show_in_sidebar, awaiting.show_in_sidebar),
        );
        assert(all.deep_view() =~= role_diff(self@.role, awaiting@));
        all
    }

    /// The wanted role that asks for nothing but what this live role already is.
    pub fn to_awaiting(&self) -> (awaiting: AwaitingRole)
        ensures
            awaiting@ == self@.role,
    {
        AwaitingRole {
            name: self.name.clone(),
            permissions: self.permissions.clone(),
            color: copy_optional_text(&self.color),
            is_mentionable: self.is_mentionable,
            show_in_sidebar: self.show_in_sidebar,
        }
    }
}

/// A list of roles. A role is looked up by its name; the first role of that name is
/// the one found.
#[derive(Debug, PartialEq)]
pub struct RolesList<R: Role> {
    pub items: Vec<R>,
}

impl<R: Role> View for RolesList<R> {
    type V = Seq<R::V>;

    open spec fn view(&self) -> Seq<R::V> {
        self.items@.map_values(|role: R| role@)
    }
}

/// The names of some roles, in the same order.
pub open spec fn role_names<R: Role>(roles: Seq<R::V>) -> Seq<Seq<char>> {
    roles.map_values(|role: R::V| R::name_of(role))
}

/// The identifiers of some live roles, in the same order.
pub open spec fn role_ids(roles: Seq<LiveRoleModel>) -> Seq<Seq<char>> {
    roles.map_values(|role: LiveRoleModel| role.id)
}

impl<R: Role> From<Vec<R>> for RolesList<R> {
    fn from(items: Vec<R>) -> (list: RolesList<R>) {
        RolesList { items }
    }
}

impl<R: Role> vstd::std_specs::convert::FromSpecImpl<Vec<R>> for RolesList<R> {
    open spec fn obeys_from_spec() -> bool {
        true
    }

    open spec fn from_spec(items: Vec<R>) -> RolesList<R> {
        RolesList { items }
    }
}

impl<R: Role> RolesList<R> {
    /// The roles of the list, in its order.
    pub fn items(&self) -> (items: &Vec<R>)
        ensures
            items == &self.items,
    {
        &self.items
    }

    /// Adds a role at the end of the list.
    pub fn push(&mut self, role: R)
        ensures
            final(self)@ == old(self)@.push(role@),
    {
        self.items.push(role);
        assert(self@ =~= old(self)@.push(role@));
    }

    /// The first role of a given name.
    pub fn find_by_name(&self, name: &str) -> (found: Option<&R>)
        ensures
            match first_index(role_names::<R>(self@), name@) {
                Some(i) => found == Some(&self.items@[i]),
                None => found.is_none(),
            },
    {
        let mut i: usize = 0;
        while i < self.items.len()
            invariant
                i <= self.items@.len(),
                forall|j: int| 0 <= j < i ==> role_names::<R>(self@)[j] != name@,
            decreases self.items@.len() - i,
        {
            let candidate = self.items[i].name();
            if same_text(candidate.as_str(), name) {
                proof {
                    assert(role_names::<R>(self@)[i as int] == R::name_of(self.items@[i as int]@));
                    lemma_first_index(role_names::<R>(self@), name@);
                }
                return Some(&self.items[i]);
            }
            i += 1;
        }
        proof {
            lemma_first_index(role_names::<R>(self@), name@);
        }
        None
    }
}

impl RolesList<ExistingRole> {
    /// The first role that carries a given identifier.
    pub fn find_by_id(&self, id: &str) -> (found: Option<&ExistingRole>)
        ensures
            match first_index(role_ids(self@), id@) {
                Some(i) => found == Some(&self.items@[i]),
                None => found.is_none(),
            },
    {
        let mut i: usize = 0;
        while i < self.items.len()
            invariant
                i <= self.items@.len(),
                forall|j: int| 0 <= j < i ==> role_ids(self@)[j] != id@,
            decreases self.items@.len() - i,
        {
            if same_text(self.items[i].id.as_str(), id) {
                proof {
                    assert(role_ids(self@)[i as int] == self.items@[i as int].id@);
                    lemma_first_index(role_ids(self@), id@);
                }
                return Some(&self.items[i]);
            }
            i += 1;
        }
        proof {
            lemma_first_index(role_ids(self@), id@);
        }
        None
    }
}

/// The roles that are wanted, with what is to happen to live roles that are not
/// among them.
#[derive(Debug, PartialEq)]
pub struct AwaitingRolesList {
    pub items: RolesList<AwaitingRole>,
    pub extra_items_strategy: ExtraRolesStrategyType,
}

/// The wanted roles and the policy for the others.
pub struct RolesModel {
    pub items: Seq<RoleModel>,
    pub extra_items_strategy: ExtraRolesStrategyType,
}

impl View for AwaitingRolesList {
    type V = RolesModel;

    open spec fn view(&self) -> RolesModel {
        RolesModel { items: self.items@, extra_items_strategy: self.extra_items_strategy }
    }
}

/// Whether no two roles of a list carry the same name.
pub open spec fn distinct_roles<R: Role>(roles: Seq<R::V>) -> bool {
    distinct(role_names::<R>(roles))
}

} // verus!
