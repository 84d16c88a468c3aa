//! The parameters of a workspace's categories, as an application hands them over.
//!
//! Unlike the written form of a workspace, parameters say what is to happen to extra
//! entities, and name permissions by their flags.

use vstd::prelude::*;
use crate::category::{
    AwaitingCategoriesList, AwaitingCategory, CategoriesList, CategoriesModel, CategoryModel,
    ExistingCategory, LiveCategoryModel,
};
use crate::changes::wanted_role;
use crate::error::{Error, ErrorModel};
use crate::extra::{ExtraCategoriesStrategyType, ExtraChannelsStrategyType};
use crate::lookup::{
    first_index, lemma_first_index, lemma_try_map_fails, lemma_try_map_take, try_map,
};
use crate::overwrites::{OverwriteModel, PermissionsOverwrite, PermissionsOverwritesList};
use crate::permission::{Permission, PermissionsList};
use crate::role::{role_names, AwaitingRole, ExistingRole, Role, RoleModel, RolesList};

verus! {

/// What is to happen to live categories that the parameters do not mention.
#[allow(non_camel_case_types)]
#[derive(Clone, Copy, Debug, PartialEq, Eq, Structural)]
pub enum CategoryParamsExtraItemsStrategy {
    KEEP,
    REMOVE,
}

/// What is to happen to live channels that the parameters do not mention.
#[allow(non_camel_case_types)]
#[derive(Clone, Copy, Debug, PartialEq, Eq, Structural)]
pub enum ChannelParamsExtraItemsStrategy {
    KEEP,
    REMOVE,
    SYNC_PERMISSIONS,
}

impl Default for CategoryParamsExtraItemsStrategy {
    /// Extra categories are removed unless the parameters say otherwise.
    fn default() -> (strategy: Self)
        ensures
            strategy == CategoryParamsExtraItemsStrategy::REMOVE,
    {
        CategoryParamsExtraItemsStrategy::REMOVE
    }
}

impl Default for ChannelParamsExtraItemsStrategy {
    /// Extra channels are removed unless the parameters say otherwise.
    fn default() -> (strategy: Self)
        ensures
            strategy == ChannelParamsExtraItemsStrategy::REMOVE,
    {
        ChannelParamsExtraItemsStrategy::REMOVE
    }
}

impl CategoryParamsExtraItemsStrategy {
    /// The policy that the parameter stands for.
    pub open spec fn spec_strategy(self) -> ExtraCategoriesStrategyType {
        match self {
            CategoryParamsExtraItemsStrategy::KEEP => ExtraCategoriesStrategyType::Keep,
            CategoryParamsExtraItemsStrategy::REMOVE => ExtraCategoriesStrategyType::Remove,
        }
    }

    /// Computes [`CategoryParamsExtraItemsStrategy::spec_strategy`].
    pub fn strategy(self) -> (strategy: ExtraCategoriesStrategyType)
        ensures
            strategy == self.spec_strategy(),
    {
        match self {
            CategoryParamsExtraItemsStrategy::KEEP => ExtraCategoriesStrategyType::Keep,
            CategoryParamsExtraItemsStrategy::REMOVE => ExtraCategoriesStrategyType::Remove,
        }
    }
}

impl ChannelParamsExtraItemsStrategy {
    /// The policy that the parameter stands for.
    pub open spec fn spec_strategy(self) -> ExtraChannelsStrategyType {
        match self {
            ChannelParamsExtraItemsStrategy::KEEP => ExtraChannelsStrategyType::Keep,
            ChannelParamsExtraItemsStrategy::REMOVE => ExtraChannelsStrategyType::Remove,
            ChannelParamsExtraItemsStrategy::SYNC_PERMISSIONS =>
                ExtraChannelsStrategyType::OverwritePermissionsWithCategory,
        }
    }

    /// Computes [`ChannelParamsExtraItemsStrategy::spec_strategy`].
    pub fn strategy(self) -> (strategy: ExtraChannelsStrategyType)
        ensures
            strategy == self.spec_strategy(),
    {
        match self {
            ChannelParamsExtraItemsStrategy::KEEP => ExtraChannelsStrategyType::Keep,
            ChannelParamsExtraItemsStrategy::REMOVE => ExtraChannelsStrategyType::Remove,
            ChannelParamsExtraItemsStrategy::SYNC_PERMISSIONS =>
                ExtraChannelsStrategyType::OverwritePermissionsWithCategory,
        }
    }
}

/// The parameters of an overwrite: the name of a role, and the permissions that are
/// allowed and denied to it.
#[derive(Debug, PartialEq)]
pub struct PermissionsOverwriteParams {
    pub role: String,
    pub allow: Vec<Permission>,
    pub deny: Vec<Permission>,
}

/// The parameters of a category.
#[derive(Debug, PartialEq)]
pub struct CategoryParams {
    pub name: String,
    pub permissions_overwrites: Vec<PermissionsOverwriteParams>,
    pub sync_permissions: bool,
    pub extra_channels: ChannelParamsExtraItemsStrategy,
}

/// The parameters of the categories of a workspace.
#[derive(Debug, PartialEq)]
pub struct CategoriesParamsList {
    pub items: Vec<CategoryParams>,
    pub extra_items: CategoryParamsExtraItemsStrategy,
}

/// Mathematical counterpart of [`PermissionsOverwriteParams`].
pub struct OverwriteParamsModel {
    pub role: Seq<char>,
    pub allow: Seq<Permission>,
    pub deny: Seq<Permission>,
}

/// Mathematical counterpart of [`CategoryParams`].
pub struct CategoryParamsModel {
    pub name: Seq<char>,
    pub permissions_overwrites: Seq<OverwriteParamsModel>,
    pub sync_permissions: bool,
    pub extra_channels: ChannelParamsExtraItemsStrategy,
}

/// Mathematical counterpart of [`CategoriesParamsList`].
pub struct CategoriesParamsModel {
    pub items: Seq<CategoryParamsModel>,
    pub extra_items: CategoryParamsExtraItemsStrategy,
}

impl DeepView for PermissionsOverwriteParams {
    type V = OverwriteParamsModel;

    open spec fn deep_view(&self) -> OverwriteParamsModel {
        OverwriteParamsModel { role: self.role@, allow: self.allow@, deny: self.deny@ }
    }
}

impl View for PermissionsOverwriteParams {
    type V = OverwriteParamsModel;

    open spec fn view(&self) -> OverwriteParamsModel {
        self.deep_view()
    }
}

impl DeepView for CategoryParams {
    type V = CategoryParamsModel;

    open spec fn deep_view(&self) -> CategoryParamsModel {
        CategoryParamsModel {
            name: self.name@,
            permissions_overwrites: self.permissions_overwrites.deep_view(),
            sync_permissions: self.sync_permissions,
            extra_channels: self.extra_channels,
        }
    }
}

impl View for CategoryParams {
    type V = CategoryParamsModel;

    open spec fn view(&self) -> CategoryParamsModel {
        self.deep_view()
    }
}

impl View for CategoriesParamsList {
    type V = CategoriesParamsModel;

    open spec fn view(&self) -> CategoriesParamsModel {
        CategoriesParamsModel { items: self.items.deep_view(), extra_items: self.extra_items }
    }
}

impl Default for CategoriesParamsList {
    /// No category, and extra categories removed.
    fn default() -> (list: Self)
        ensures
            list@ == (CategoriesParamsModel {
                items: Seq::empty(),
                extra_items: CategoryParamsExtraItemsStrategy::REMOVE,
            }),
    {
        let list = CategoriesParamsList {
            items: Vec::new(),
            extra_items: CategoryParamsExtraItemsStrategy::REMOVE,
        };
        assert(list.items.deep_view() =~= Seq::empty());
        list
    }
}

/// The parameters that ask for an overwrite as it is.
pub open spec fn overwrite_params_of<R: Role>(
    overwrite: OverwriteModel<R::V>,
) -> OverwriteParamsModel {
    OverwriteParamsModel {
        role: R::name_of(overwrite.role),
        allow: overwrite.allow,
        deny: overwrite.deny,
    }
}

/// The parameters that ask for a live category as it is. They force no permissions
/// upon its channels, and have extra channels under it removed.
pub open spec fn category_params_of(category: LiveCategoryModel) -> CategoryParamsModel {
    CategoryParamsModel {
        name: category.name,
        permissions_overwrites: category.overwrites.map_values(
            |overwrite: OverwriteModel<<ExistingRole as View>::V>|
                overwrite_params_of::<ExistingRole>(overwrite),
        ),
        sync_permissions: false,
        extra_channels: ChannelParamsExtraItemsStrategy::REMOVE,
    }
}

/// The parameters that ask for some live categories as they are, and have extra
/// categories removed.
pub open spec fn categories_params_of(categories: Seq<LiveCategoryModel>) -> CategoriesParamsModel {
    CategoriesParamsModel {
        items: categories.map_values(|category: LiveCategoryModel| category_params_of(category)),
        extra_items: CategoryParamsExtraItemsStrategy::REMOVE,
    }
}

/// The wanted overwrite that some parameters ask for, among some wanted roles.
pub open spec fn overwrite_from_params(
    roles: Seq<RoleModel>,
    params: OverwriteParamsModel,
) -> Result<OverwriteModel<RoleModel>, ErrorModel> {
    match wanted_role(roles, params.role) {
        None => Err(ErrorModel::UnknownRole(params.role)),
        Some(role) => Ok(OverwriteModel { role, allow: params.allow, deny: params.deny }),
    }
}

/// The wanted category that some parameters ask for, among some wanted roles.
pub open spec fn category_from_params(
    roles: Seq<RoleModel>,
    params: CategoryParamsModel,
) -> Result<CategoryModel, ErrorModel> {
    match try_map(
        params.permissions_overwrites,
        |overwrite: OverwriteParamsModel| overwrite_from_params(roles, overwrite),
    ) {
        Err(error) => Err(error),
        Ok(overwrites) => Ok(
            CategoryModel {
                name: params.name,
                overwrites,
                sync_permissions: params.sync_permissions,
                extra_channels_strategy: params.extra_channels.spec_strategy(),
            },
        ),
    }
}

/// The wanted categories that some parameters ask for, among some wanted roles.
pub open spec fn categories_from_params(
    roles: Seq<RoleModel>,
    params: CategoriesParamsModel,
) -> Result<CategoriesModel, ErrorModel> {
    match try_map(
        params.items,
        |category: CategoryParamsModel| category_from_params(roles, category),
    ) {
        Err(error) => Err(error),
        Ok(items) => Ok(
            CategoriesModel { items, extra_items_strategy: params.extra_items.spec_strategy() },
        ),
    }
}

impl PermissionsOverwriteParams {
    /// Computes [`overwrite_params_of`].
    pub fn from<R: Role>(overwrite: &PermissionsOverwrite<R>) -> (params: Self)
        ensures
            params@ == overwrite_params_of::<R>(overwrite@),
    {
        PermissionsOverwriteParams {
            role: overwrite.role.name(),
            allow: overwrite.allow.items.clone(),
            deny: overwrite.deny.items.clone(),
        }
    }

    /// Computes [`overwrite_from_params`].
    pub fn to_overwrite(
        &self,
        roles: &RolesList<AwaitingRole>,
    ) -> (read: Result<PermissionsOverwrite<AwaitingRole>, Error>)
        ensures
            match overwrite_from_params(roles@, self@) {
                Ok(overwrite) => read matches Ok(found) && found@ == overwrite,
                Err(error) => read matches Err(e) && e@ == error,
            },
    {
        match roles.find_by_name(self.role.as_str()) {
            None => Err(Error::UnknownRole(self.role.clone())),
            Some(role) => {
                proof {
                    let names = role_names::<AwaitingRole>(roles@);
                    lemma_first_index(names, self.role@);
                    let at = first_index(names, self.role@).unwrap();
                    assert(roles@[at] == roles.items@[at]@);
                }
                Ok(
                    PermissionsOverwrite {
                        role: role.clone(),
                        allow: PermissionsList { items: self.allow.clone() },
                        deny: PermissionsList { items: self.deny.clone() },
                    },
                )
            },
        }
    }
}

impl CategoryParams {
    /// Computes [`category_params_of`].
    pub fn from(category: &ExistingCategory) -> (params: Self)
        ensures
            params@ == category_params_of(category@),
    {
        let mut permissions_overwrites: Vec<PermissionsOverwriteParams> = Vec::new();
        let mut i: usize = 0;
        while i < category.overwrites.items.len()
            invariant
                i <= category.overwrites.items@.len(),
                permissions_overwrites@.len() == i,
                forall|j: int|
                    0 <= j < i ==> permissions_overwrites@[j]@ == overwrite_params_of::<
                        ExistingRole,
                    >(category.overwrites.items@[j]@),
            decreases category.overwrites.items@.len() - i,
        {
            permissions_overwrites.push(
                PermissionsOverwriteParams::from(&category.overwrites.items[i]),
            );
            i += 1;
        }
        assert(permissions_overwrites.deep_view() =~= category_params_of(
            category@,
        ).permissions_overwrites);
        CategoryParams {
            name: category.name.clone(),
            permissions_overwrites,
            sync_permissions: false,
            extra_channels: ChannelParamsExtraItemsStrategy::REMOVE,
        }
    }

    /// Computes [`category_from_params`]. An overwrite for a role that is none of the
    /// wanted roles is a failure.
    pub fn to_category(
        &self,
        roles: &RolesList<AwaitingRole>,
    ) -> (read: Result<AwaitingCategory, Error>)
        ensures
            match category_from_params(roles@, self@) {
                Ok(category) => read matches Ok(found) && found@ == category,
                Err(error) => read matches Err(e) && e@ == error,
            },
    {
        let ghost written = self@.permissions_overwrites;
        let ghost convert = |overwrite: OverwriteParamsModel|
            overwrite_from_params(roles@, overwrite);
        let mut items: Vec<PermissionsOverwrite<AwaitingRole>> = Vec::new();
        let mut i: usize = 0;
        assert(written.take(0) =~= Seq::empty());
        assert(items@.map_values(|overwrite: PermissionsOverwrite<AwaitingRole>| overwrite@)
            =~= Seq::empty());
        while i < self.permissions_overwrites.len()
            invariant
                written == self@.permissions_overwrites,
                convert == |overwrite: OverwriteParamsModel|
                    overwrite_from_params(roles@, overwrite),
                i <= self.permissions_overwrites@.len(),
                try_map(written.take(i as int), convert) == Ok::<
                    Seq<OverwriteModel<RoleModel>>,
                    ErrorModel,
                >(items@.map_values(|overwrite: PermissionsOverwrite<AwaitingRole>| overwrite@)),
            decreases self.permissions_overwrites@.len() - i,
        {
            let ghost before = items@.map_values(
                |overwrite: PermissionsOverwrite<AwaitingRole>| overwrite@,
            );
            proof {
                lemma_try_map_take(written, i as int, convert);
                assert(written[i as int] == self.permissions_overwrites@[i as int]@);
            }
            match self.permissions_overwrites[i].to_overwrite(roles) {
                Ok(overwrite) => {
                    items.push(overwrite);
                    assert(items@.map_values(
                        |overwrite: PermissionsOverwrite<AwaitingRole>| overwrite@,
                    ) =~= before.push(overwrite@));
                },
                Err(error) => {
                    proof {
                        lemma_try_map_fails(written, i + 1, convert);
                    }
                    return Err(error);
                },
            }
            i += 1;
        }
        assert(written.take(i as int) =~= written);
        Ok(
            AwaitingCategory {
                name: self.name.clone(),
                overwrites: PermissionsOverwritesList { items },
                sync_permissions: self.sync_permissions,
                extra_channels_strategy: self.extra_channels.strategy(),
            },
        )
    }
}

impl CategoriesParamsList {
    /// Computes [`categories_params_of`].
    pub fn from(categories: &CategoriesList<ExistingCategory>) -> (params: Self)
        ensures
            params@ == categories_params_of(categories@),
    {
        let mut items: Vec<CategoryParams> = Vec::new();
        let mut i: usize = 0;
        while i < categories.items.len()
            invariant
                i <= categories.items@.len(),
                items@.len() == i,
                forall|j: int| 0 <= j < i ==> items@[j]@ ==
                    category_params_of(categories.items@[j]@),
            decreases categories.items@.len() - i,
        {
            items.push(CategoryParams::from(&categories.items[i]));
            i += 1;
        }
        assert(items.deep_view() =~= categories_params_of(categories@).items);
        CategoriesParamsList { items, extra_items: CategoryParamsExtraItemsStrategy::REMOVE }
    }

    /// Computes [`categories_from_params`].
    pub fn to_list(
        &self,
        roles: &RolesList<AwaitingRole>,
    ) -> (read: Result<AwaitingCategoriesList, Error>)
        ensures
            match categories_from_params(roles@, self@) {
                Ok(categories) => read matches Ok(found) && found@ == categories,
                Err(error) => read matches Err(e) && e@ == error,
            },
    {
        let ghost written = self@.items;
        let ghost convert = |category: CategoryParamsModel| category_from_params(roles@, category);
        let mut items: Vec<AwaitingCategory> = Vec::new();
        let mut i: usize = 0;
        assert(written.take(0) =~= Seq::empty());
        assert(items@.map_values(|category: AwaitingCategory| category@) =~= Seq::empty());
        while i < self.items.len()
            invariant
                written == self@.items,
                convert == |category: CategoryParamsModel| category_from_params(roles@, category),
                i <= self.items@.len(),
                try_map(written.take(i as int), convert) == Ok::<Seq<CategoryModel>, ErrorModel>(
                    items@.map_values(|category: AwaitingCategory| category@),
                ),
            decreases self.items@.len() - i,
        {
            let ghost before = items@.map_values(|category: AwaitingCategory| category@);
            proof {
                lemma_try_map_take(written, i as int, convert);
                assert(written[i as int] == self.items@[i as int]@);
            }
            match self.items[i].to_category(roles) {
                Ok(category) => {
                    items.push(category);
                    assert(items@.map_values(|category: AwaitingCategory| category@)
                        =~= before.push(category@));
                },
                Err(error) => {
                    proof {
                        lemma_try_map_fails(written, i + 1, convert);
                    }
                    return Err(error);
                },
            }
            i += 1;
        }
        assert(written.take(i as int) =~= written);
        Ok(
            AwaitingCategoriesList {
                items: CategoriesList { items },
                extra_items_strategy: self.extra_items.strategy(),
            },
        )
    }
}

} // verus!
