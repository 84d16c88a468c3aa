//! Channel categories, as wanted and as found live, and lists of them indexed by name.

use vstd::prelude::*;
use crate::diff::{field_diff, push_field, Diff, DiffModel};
use crate::extra::{ExtraCategoriesStrategyType, ExtraChannelsStrategyType};
use crate::lookup::{distinct, first_index, lemma_first_index};
use crate::overwrites::{
    entries, overwrites_diff, wanted_overwrites, OverwriteModel, PermissionsOverwritesList,
};
use crate::role::{AwaitingRole, ExistingRole, LiveRoleModel, RoleModel};
use crate::text::same_text;

verus! {

/// A category as it is wanted.
#[derive(Debug, PartialEq)]
pub struct AwaitingCategory {
    pub name: String,
    pub overwrites: PermissionsOverwritesList<AwaitingRole>,
    /// Whether the channels of the category are to take their overwrites from it.
    pub sync_permissions: bool,
    /// What is to happen to live channels of the category that are not wanted.
    pub extra_channels_strategy: ExtraChannelsStrategyType,
}

/// A category as a snapshot of the server holds it.
#[derive(Debug, PartialEq)]
pub struct ExistingCategory {
    pub id: String,
    pub name: String,
    pub overwrites: PermissionsOverwritesList<ExistingRole>,
}

/// Mathematical counterpart of [`AwaitingCategory`].
pub struct CategoryModel {
    pub name: Seq<char>,
    pub overwrites: Seq<OverwriteModel<RoleModel>>,
    pub sync_permissions: bool,
    pub extra_channels_strategy: ExtraChannelsStrategyType,
}

/// Mathematical counterpart of [`ExistingCategory`].
pub struct LiveCategoryModel {
    pub id: Seq<char>,
    pub name: Seq<char>,
    pub overwrites: Seq<OverwriteModel<LiveRoleModel>>,
}

impl View for AwaitingCategory {
    type V = CategoryModel;

    open spec fn view(&self) -> CategoryModel {
        CategoryModel {
            name: self.name@,
            overwrites: self.overwrites@,
            sync_permissions: self.sync_permissions,
            extra_channels_strategy: self.extra_channels_strategy,
        }
    }
}

impl View for ExistingCategory {
    type V = LiveCategoryModel;

    open spec fn view(&self) -> LiveCategoryModel {
        LiveCategoryModel { id: self.id@, name: self.name@, overwrites: self.overwrites@ }
    }
}

impl DeepView for AwaitingCategory {
    type V = CategoryModel;

    open spec fn deep_view(&self) -> CategoryModel {
        self@
    }
}

impl DeepView for ExistingCategory {
    type V = LiveCategoryModel;

    open spec fn deep_view(&self) -> LiveCategoryModel {
        self@
    }
}

/// What the two states of a category have in common: a name, by which a category is
/// told from the others of its list.
pub trait Category: View + Sized {
    /// The name that a category of this state carries.
    spec fn name_of(model: Self::V) -> Seq<char>;

    /// The name of the category.
    fn name(&self) -> (name: String)
        ensures
            name@ == Self::name_of(self@),
    ;
}

impl Category for AwaitingCategory {
    open spec fn name_of(model: CategoryModel) -> Seq<char> {
        model.name
    }

    fn name(&self) -> (name: String) {
        self.name.clone()
    }
}

impl Category for ExistingCategory {
    open spec fn name_of(model: LiveCategoryModel) -> Seq<char> {
        model.name
    }

    fn name(&self) -> (name: String) {
        self.name.clone()
    }
}

impl Clone for AwaitingCategory {
    fn clone(&self) -> (copy: Self)
        ensures
            copy@ == self@,
    {
        AwaitingCategory {
            name: self.name.clone(),
            overwrites: self.overwrites.clone(),
            sync_permissions: self.sync_permissions,
            extra_channels_strategy: self.extra_channels_strategy,
        }
    }
}

impl Clone for ExistingCategory {
    fn clone(&self) -> (copy: Self)
        ensures
            copy@ == self@,
    {
        ExistingCategory {
            id: self.id.clone(),
            name: self.name.clone(),
            overwrites: self.overwrites.clone(),
        }
    }
}

/// The differences between a live category and the category that is wanted under the
/// same name. Only the overwrites are compared: the identifier is none of the wanted
/// state, and the two settings of a wanted category are none of the live state.
pub open spec fn category_diff(live: LiveCategoryModel, wanted: CategoryModel) -> Seq<DiffModel> {
    field_diff(
        "overwrites"@,
        overwrites_diff(
            entries::<ExistingRole>(live.overwrites),
            entries::<AwaitingRole>(wanted.overwrites),
        ),
    )
}

/// A live category, taken as wanted: the same name and overwrites, no forced
/// permissions, and extra channels removed.
pub open spec fn wanted_category(live: LiveCategoryModel) -> CategoryModel {
    CategoryModel {
        name: live.name,
        overwrites: wanted_overwrites(live.overwrites),
        sync_permissions: false,
        extra_channels_strategy: ExtraChannelsStrategyType::Remove,
    }
}

impl AwaitingCategory {
    /// The text that stands for the category: its name.
    pub fn to_string(&self) -> (text: String)
        ensures
            text@ == self@.name,
    {
        self.name.clone()
    }
}

impl ExistingCategory {
    /// Computes [`category_diff`] against the category that is wanted.
    pub fn diffs_with(&self, awaiting: &AwaitingCategory) -> (diffs: Vec<Diff>)
        ensures
            diffs.deep_view() == category_diff(self@, awaiting@),
    {
        let mut all: Vec<Diff> = Vec::new();
        assert(all.deep_view() =~= Seq::empty());
        push_field(&mut all, "overwrites", self.overwrites.diffs_with(&awaiting.overwrites));
        assert(all.deep_view() =~= category_diff(self@, awaiting@));
        all
    }

    /// The wanted category that asks for nothing but what this live category already is.
    pub fn to_awaiting(&self) -> (awaiting: AwaitingCategory)
        ensures
            awaiting@ == wanted_category(self@),
    {
        AwaitingCategory {
            name: self.name.clone(),
            overwrites: self.overwrites.to_awaiting(),
            sync_permissions: false,
            extra_channels_strategy: ExtraChannelsStrategyType::Remove,
        }
    }
}

/// A list of categories. A category is looked up by its name; the first category of
/// that name is the one found.
#[derive(Debug, PartialEq)]
pub struct CategoriesList<C: Category> {
    pub items: Vec<C>,
}

impl<C: Category> View for CategoriesList<C> {
    type V = Seq<C::V>;

    open spec fn view(&self) -> Seq<C::V> {
        self.items@.map_values(|category: C| category@)
    }
}

/// The names of some categories, in the same order.
pub open spec fn category_names<C: Category>(categories: Seq<C::V>) -> Seq<Seq<char>> {
    categories.map_values(|category: C::V| C::name_of(category))
}

/// The identifiers of some live categories, in the same order.
pub open spec fn category_ids(categories: Seq<LiveCategoryModel>) -> Seq<Seq<char>> {
    categories.map_values(|category: LiveCategoryModel| category.id)
}

/// Whether no two categories of a list carry the same name.
pub open spec fn distinct_categories<C: Category>(categories: Seq<C::V>) -> bool {
    distinct(category_names::<C>(categories))
}

impl<C: Category> From<Vec<C>> for CategoriesList<C> {
    fn from(items: Vec<C>) -> (list: CategoriesList<C>) {
        CategoriesList { items }
    }
}

impl<C: Category> vstd::std_specs::convert::FromSpecImpl<Vec<C>> for CategoriesList<C> {
    open spec fn obeys_from_spec() -> bool {
        true
    }

    open spec fn from_spec(items: Vec<C>) -> CategoriesList<C> {
        CategoriesList { items }
    }
}

impl<C: Category> CategoriesList<C> {
    /// The categories of the list, in its order.
    pub fn items(&self) -> (items: &Vec<C>)
        ensures
            items == &self.items,
    {
        &self.items
    }

    /// Adds a category at the end of the list.
    pub fn push(&mut self, category: C)
        ensures
            final(self)@ == old(self)@.push(category@),
    {
        self.items.push(category);
        assert(self@ =~= old(self)@.push(category@));
    }

    /// The first category of a given name.
    pub fn find_by_name(&self, name: &str) -> (found: Option<&C>)
        ensures
            match first_index(category_names::<C>(self@), name@) {
                Some(i) => found == Some(&self.items@[i]),
                None => found.is_none(),
            },
    {
        let ghost names = category_names::<C>(self@);
        let mut i: usize = 0;
        while i < self.items.len()
            invariant
                names == category_names::<C>(self@),
                i <= self.items@.len(),
                forall|j: int| 0 <= j < i ==> names[j] != name@,
            decreases self.items@.len() - i,
        {
            let candidate = self.items[i].name();
            proof {
                assert(names[i as int] == C::name_of(self.items@[i as int]@));
            }
            if same_text(candidate.as_str(), name) {
                proof {
                    lemma_first_index(names, name@);
                }
                return Some(&self.items[i]);
            }
            i += 1;
        }
        proof {
            lemma_first_index(names, name@);
        }
        None
    }
}

impl CategoriesList<ExistingCategory> {
    /// The first category that carries a given identifier.
    pub fn find_by_id(&self, id: &str) -> (found: Option<&ExistingCategory>)
        ensures
            match first_index(category_ids(self@), id@) {
                Some(i) => found == Some(&self.items@[i]),
                None => found.is_none(),
            },
    {
        let mut i: usize = 0;
        while i < self.items.len()
            invariant
                i <= self.items@.len(),
                forall|j: int| 0 <= j < i ==> category_ids(self@)[j] != id@,
            decreases self.items@.len() - i,
        {
            if same_text(self.items[i].id.as_str(), id) {
                proof {
                    assert(category_ids(self@)[i as int] == self.items@[i as int].id@);
                    lemma_first_index(category_ids(self@), id@);
                }
                return Some(&self.items[i]);
            }
            i += 1;
        }
        proof {
            lemma_first_index(category_ids(self@), id@);
        }
        None
    }
}

/// The categories that are wanted, with what is to happen to live categories that
/// are not among them.
#[derive(Debug, PartialEq)]
pub struct AwaitingCategoriesList {
    pub items: CategoriesList<AwaitingCategory>,
    pub extra_items_strategy: ExtraCategoriesStrategyType,
}

/// The wanted categories and the policy for the others.
pub struct CategoriesModel {
    pub items: Seq<CategoryModel>,
    pub extra_items_strategy: ExtraCategoriesStrategyType,
}

impl View for AwaitingCategoriesList {
    type V = CategoriesModel;

    open spec fn view(&self) -> CategoriesModel {
        CategoriesModel { items: self.items@, extra_items_strategy: self.extra_items_strategy }
    }
}

} // verus!
