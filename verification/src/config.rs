//! The written form of a workspace, and its conversion from and to the entity model.
//!
//! A written workspace names roles and categories where the entity model holds copies
//! of them, writes permissions by their names, and leaves out what is empty. Reading
//! it resolves every name; a name that stands for nothing is a failure, never a
//! silent default.

use vstd::prelude::*;
use crate::category::{
    AwaitingCategoriesList, AwaitingCategory, CategoriesList, CategoriesModel, CategoryModel,
    ExistingCategory, LiveCategoryModel,
};
use crate::changes::{wanted_category_named, wanted_role};
use crate::channel::{
    AwaitingChannel, AwaitingChannelsList, ChannelModel, ChannelType, ChannelsList, ChannelsModel,
    ExistingChannel, LiveChannelModel,
};
use crate::error::{Error, ErrorModel};
use crate::extra::{
    ExtraCategoriesStrategyType, ExtraChannelsStrategyType, ExtraRolesStrategyType,
};
use crate::guild::{AwaitingGuild, ExistingGuild, GuildModel, LiveGuildModel};
use crate::lookup::{
    first_index, lemma_first_index, lemma_try_map_fails, lemma_try_map_take, try_map,
};
use crate::overwrites::{OverwriteModel, PermissionsOverwrite, PermissionsOverwritesList};
use crate::permission::{names_of, permissions_named, PermissionsList};
use crate::role::{
    role_names, AwaitingRole, AwaitingRolesList, ExistingRole, LiveRoleModel, Role, RoleModel,
    RolesList, RolesModel,
};
use crate::text::copy_optional_text;

verus! {

/// A sequence as it is written: left out when it is empty.
pub open spec fn compressed<T>(items: Seq<T>) -> Option<Seq<T>> {
    if items.len() == 0 {
        None
    } else {
        Some(items)
    }
}

/// A sequence as it is read: empty when it was left out.
pub open spec fn expanded<T>(items: Option<Seq<T>>) -> Seq<T> {
    match items {
        Some(items) => items,
        None => Seq::empty(),
    }
}

/// Leaves out a list that is empty.
pub fn compress<T>(items: Vec<T>) -> (written: Option<Vec<T>>)
    ensures
        written == if items@.len() == 0 {
            None::<Vec<T>>
        } else {
            Some(items)
        },
{
    if items.len() == 0 {
        None
    } else {
        Some(items)
    }
}

/// The written form of an overwrite: the name of a role, and the names of the
/// permissions that are allowed and denied to it.
#[derive(Debug, PartialEq)]
pub struct CategoryRolePermissionsConfig {
    pub role: String,
    pub allow: Option<Vec<String>>,
    pub deny: Option<Vec<String>>,
}

/// The written form of a category.
#[derive(Debug, PartialEq)]
pub struct CategoryConfig {
    pub name: String,
    pub permissions_overwrites: Option<Vec<CategoryRolePermissionsConfig>>,
}

/// The written form of a role.
#[derive(Debug, PartialEq)]
pub struct RoleConfig {
    pub name: String,
    pub permissions: Option<Vec<String>>,
    pub color: Option<String>,
    pub show_in_sidebar: bool,
    pub is_mentionable: bool,
}

/// The written form of a channel.
#[derive(Debug, PartialEq)]
pub struct ChannelConfig {
    pub name: String,
    pub topic: Option<String>,
    pub channel_type: ChannelType,
    pub category: Option<String>,
    pub permissions_overwrites: Option<Vec<CategoryRolePermissionsConfig>>,
}

/// The written form of a workspace.
#[derive(Debug, PartialEq)]
pub struct GuildConfig {
    pub roles: Option<Vec<RoleConfig>>,
    pub categories: Option<Vec<CategoryConfig>>,
    pub channels: Option<Vec<ChannelConfig>>,
}

/// Mathematical counterpart of [`CategoryRolePermissionsConfig`].
pub struct RolePermissionsConfigModel {
    pub role: Seq<char>,
    pub allow: Option<Seq<Seq<char>>>,
    pub deny: Option<Seq<Seq<char>>>,
}

/// Mathematical counterpart of [`CategoryConfig`].
pub struct CategoryConfigModel {
    pub name: Seq<char>,
    pub permissions_overwrites: Option<Seq<RolePermissionsConfigModel>>,
}

/// Mathematical counterpart of [`RoleConfig`].
pub struct RoleConfigModel {
    pub name: Seq<char>,
    pub permissions: Option<Seq<Seq<char>>>,
    pub color: Option<Seq<char>>,
    pub show_in_sidebar: bool,
    pub is_mentionable: bool,
}

/// Mathematical counterpart of [`ChannelConfig`].
pub struct ChannelConfigModel {
    pub name: Seq<char>,
    pub topic: Option<Seq<char>>,
    pub channel_type: ChannelType,
    pub category: Option<Seq<char>>,
    pub permissions_overwrites: Option<Seq<RolePermissionsConfigModel>>,
}

/// Mathematical counterpart of [`GuildConfig`].
pub struct GuildConfigModel {
    pub roles: Option<Seq<RoleConfigModel>>,
    pub categories: Option<Seq<CategoryConfigModel>>,
    pub channels: Option<Seq<ChannelConfigModel>>,
}

impl DeepView for CategoryRolePermissionsConfig {
    type V = RolePermissionsConfigModel;

    open spec fn deep_view(&self) -> RolePermissionsConfigModel {
        RolePermissionsConfigModel {
            role: self.role@,
            allow: self.allow.deep_view(),
            deny: self.deny.deep_view(),
        }
    }
}

impl View for CategoryRolePermissionsConfig {
    type V = RolePermissionsConfigModel;

    open spec fn view(&self) -> RolePermissionsConfigModel {
        self.deep_view()
    }
}

impl DeepView for CategoryConfig {
    type V = CategoryConfigModel;

    open spec fn deep_view(&self) -> CategoryConfigModel {
        CategoryConfigModel {
            name: self.name@,
            permissions_overwrites: self.permissions_overwrites.deep_view(),
        }
    }
}

impl View for CategoryConfig {
    type V = CategoryConfigModel;

    open spec fn view(&self) -> CategoryConfigModel {
        self.deep_view()
    }
}

impl DeepView for RoleConfig {
    type V = RoleConfigModel;

    open spec fn deep_view(&self) -> RoleConfigModel {
        RoleConfigModel {
            name: self.name@,
            permissions: self.permissions.deep_view(),
            color: self.color.deep_view(),
            show_in_sidebar: self.show_in_sidebar,
            is_mentionable: self.is_mentionable,
        }
    }
}

impl View for RoleConfig {
    type V = RoleConfigModel;

    open spec fn view(&self) -> RoleConfigModel {
        self.deep_view()
    }
}

impl DeepView for ChannelConfig {
    type V = ChannelConfigModel;

    open spec fn deep_view(&self) -> ChannelConfigModel {
        ChannelConfigModel {
            name: self.name@,
            topic: self.topic.deep_view(),
            channel_type: self.channel_type,
            category: self.category.deep_view(),
            permissions_overwrites: self.permissions_overwrites.deep_view(),
        }
    }
}

impl View for ChannelConfig {
    type V = ChannelConfigModel;

    open spec fn view(&self) -> ChannelConfigModel {
        self.deep_view()
    }
}

impl DeepView for GuildConfig {
    type V = GuildConfigModel;

    open spec fn deep_view(&self) -> GuildConfigModel {
        GuildConfigModel {
            roles: self.roles.deep_view(),
            categories: self.categories.deep_view(),
            channels: self.channels.deep_view(),
        }
    }
}

impl View for GuildConfig {
    type V = GuildConfigModel;

    open spec fn view(&self) -> GuildConfigModel {
        self.deep_view()
    }
}

/// How an overwrite is written.
pub open spec fn permissions_config_of<R: Role>(
    overwrite: OverwriteModel<R::V>,
) -> RolePermissionsConfigModel {
    RolePermissionsConfigModel {
        role: R::name_of(overwrite.role),
        allow: compressed(names_of(overwrite.allow)),
        deny: compressed(names_of(overwrite.deny)),
    }
}

/// How some overwrites are written.
pub open spec fn overwrites_config_of<R: Role>(
    overwrites: Seq<OverwriteModel<R::V>>,
) -> Option<Seq<RolePermissionsConfigModel>> {
    compressed(
        overwrites.map_values(
            |overwrite: OverwriteModel<R::V>| permissions_config_of::<R>(overwrite),
        ),
    )
}

/// How a live category is written.
pub open spec fn category_config_of(category: LiveCategoryModel) -> CategoryConfigModel {
    CategoryConfigModel {
        name: category.name,
        permissions_overwrites: overwrites_config_of::<ExistingRole>(category.overwrites),
    }
}

/// How a live role is written.
pub open spec fn role_config_of(role: LiveRoleModel) -> RoleConfigModel {
    RoleConfigModel {
        name: role.role.name,
        permissions: compressed(names_of(role.role.permissions)),
        color: role.role.color,
        show_in_sidebar: role.role.show_in_sidebar,
        is_mentionable: role.role.is_mentionable,
    }
}

/// How a live channel is written.
pub open spec fn channel_config_of(channel: LiveChannelModel) -> ChannelConfigModel {
    ChannelConfigModel {
        name: channel.name,
        topic: channel.topic,
        channel_type: channel.channel_type,
        category: channel.category_name(),
        permissions_overwrites: overwrites_config_of::<ExistingRole>(channel.overwrites),
    }
}

/// How a live workspace is written.
pub open spec fn guild_config_of(guild: LiveGuildModel) -> GuildConfigModel {
    GuildConfigModel {
        roles: compressed(guild.roles.map_values(|role: LiveRoleModel| role_config_of(role))),
        categories: compressed(
            guild.categories.map_values(
                |category: LiveCategoryModel| category_config_of(category),
            ),
        ),
        channels: compressed(
            guild.channels.map_values(|channel: LiveChannelModel| channel_config_of(channel)),
        ),
    }
}

/// The wanted overwrite that a written overwrite stands for, among some wanted roles.
/// The role is the first role of the written name; the overwrite owns a copy of it.
pub open spec fn overwrite_from_config(
    roles: Seq<RoleModel>,
    config: RolePermissionsConfigModel,
) -> Result<OverwriteModel<RoleModel>, ErrorModel> {
    match wanted_role(roles, config.role) {
        None => Err(ErrorModel::UnknownRole(config.role)),
        Some(role) => match permissions_named(expanded(config.allow)) {
            Err(error) => Err(error),
            Ok(allow) => match permissions_named(expanded(config.deny)) {
                Err(error) => Err(error),
                Ok(deny) => Ok(OverwriteModel { role, allow, deny }),
            },
        },
    }
}

/// The wanted overwrites that some written overwrites stand for.
pub open spec fn overwrites_from_config(
    roles: Seq<RoleModel>,
    configs: Option<Seq<RolePermissionsConfigModel>>,
) -> Result<Seq<OverwriteModel<RoleModel>>, ErrorModel> {
    try_map(
        expanded(configs),
        |config: RolePermissionsConfigModel| overwrite_from_config(roles, config),
    )
}

/// The wanted category that a written category stands for. Its permissions are not
/// forced upon its channels, and extra channels under it are removed.
pub open spec fn category_from_config(
    roles: Seq<RoleModel>,
    config: CategoryConfigModel,
) -> Result<CategoryModel, ErrorModel> {
    match overwrites_from_config(roles, config.permissions_overwrites) {
        Err(error) => Err(error),
        Ok(overwrites) => Ok(
            CategoryModel {
                name: config.name,
                overwrites,
                sync_permissions: false,
                extra_channels_strategy: ExtraChannelsStrategyType::Remove,
            },
        ),
    }
}

/// The wanted role that a written role stands for.
pub open spec fn role_from_config(config: RoleConfigModel) -> Result<RoleModel, ErrorModel> {
    match permissions_named(expanded(config.permissions)) {
        Err(error) => Err(error),
        Ok(permissions) => Ok(
            RoleModel {
                name: config.name,
                permissions,
                color: config.color,
                is_mentionable: config.is_mentionable,
                show_in_sidebar: config.show_in_sidebar,
            },
        ),
    }
}

/// The wanted category that a written channel stands under, if it names one.
pub open spec fn channel_category_from_config(
    categories: Seq<CategoryModel>,
    name: Option<Seq<char>>,
) -> Result<Option<CategoryModel>, ErrorModel> {
    match name {
        None => Ok(None),
        Some(name) => match wanted_category_named(categories, name) {
            Some(category) => Ok(Some(category)),
            None => Err(ErrorModel::UnknownCategory(name)),
        },
    }
}

/// Whether a channel under a category takes its overwrites from the category: it
/// does where the category forces its permissions upon its channels.
pub open spec fn takes_category_overwrites(category: Option<CategoryModel>) -> bool {
    category matches Some(category) && category.sync_permissions
}

/// The wanted channel that a written channel stands for, among some wanted roles and
/// categories. The category is resolved first. Where it forces its permissions upon
/// its channels, the channel gets the overwrites of the category, and what is written
/// for the channel is not read; else the written overwrites are read.
pub open spec fn channel_from_config(
    roles: Seq<RoleModel>,
    categories: Seq<CategoryModel>,
    config: ChannelConfigModel,
) -> Result<ChannelModel, ErrorModel> {
    match channel_category_from_config(categories, config.category) {
        Err(error) => Err(error),
        Ok(category) => if takes_category_overwrites(category) {
            Ok(
                ChannelModel {
                    name: config.name,
                    topic: config.topic,
                    channel_type: config.channel_type,
                    category,
                    overwrites: category->Some_0.overwrites,
                },
            )
        } else {
            match overwrites_from_config(roles, config.permissions_overwrites) {
                Err(error) => Err(error),
                Ok(overwrites) => Ok(
                    ChannelModel {
                        name: config.name,
                        topic: config.topic,
                        channel_type: config.channel_type,
                        category,
                        overwrites,
                    },
                ),
            }
        },
    }
}

/// The wanted workspace that a written workspace stands for. Roles are read first,
/// then categories, then channels, each in their order; the first failure is the
/// failure of the whole. Extra entities of every kind are removed.
pub open spec fn guild_from_config(config: GuildConfigModel) -> Result<GuildModel, ErrorModel> {
    match try_map(expanded(config.roles), |role: RoleConfigModel| role_from_config(role)) {
        Err(error) => Err(error),
        Ok(roles) => match try_map(
            expanded(config.categories),
            |category: CategoryConfigModel| category_from_config(roles, category),
        ) {
            Err(error) => Err(error),
            Ok(categories) => match try_map(
                expanded(config.channels),
                |channel: ChannelConfigModel| channel_from_config(roles, categories, channel),
            ) {
                Err(error) => Err(error),
                Ok(channels) => Ok(
                    GuildModel {
                        roles: RolesModel {
                            items: roles,
                            extra_items_strategy: ExtraRolesStrategyType::Remove,
                        },
                        categories: CategoriesModel {
                            items: categories,
                            extra_items_strategy: ExtraCategoriesStrategyType::Remove,
                        },
                        channels: ChannelsModel {
                            items: channels,
                            extra_items_strategy: ExtraChannelsStrategyType::Remove,
                        },
                    },
                ),
            },
        },
    }
}

fn names_written(permissions: &PermissionsList) -> (written: Option<Vec<String>>)
    ensures
        written.deep_view() == compressed(names_of(permissions@)),
{
    compress(permissions.names())
}

fn permissions_read(names: &Option<Vec<String>>) -> (read: Result<PermissionsList, Error>)
    ensures
        match permissions_named(expanded(names.deep_view())) {
            Ok(permissions) => read matches Ok(list) && list@ == permissions,
            Err(error) => read matches Err(e) && e@ == error,
        },
{
    match names {
        Some(names) => PermissionsList::from_names(names),
        None => {
            let none: Vec<String> = Vec::new();
            assert(none.deep_view() =~= Seq::empty());
            PermissionsList::from_names(&none)
        },
    }
}

fn overwrites_written<R: Role>(
    overwrites: &PermissionsOverwritesList<R>,
) -> (written: Option<Vec<CategoryRolePermissionsConfig>>)
    ensures
        written.deep_view() == overwrites_config_of::<R>(overwrites@),
{
    let mut configs: Vec<CategoryRolePermissionsConfig> = Vec::new();
    let mut i: usize = 0;
    while i < overwrites.items.len()
        invariant
            i <= overwrites.items@.len(),
            configs@.len() == i,
            forall|j: int|
                0 <= j < i ==> configs@[j]@ == permissions_config_of::<R>(overwrites.items@[j]@),
        decreases overwrites.items@.len() - i,
    {
        configs.push(CategoryRolePermissionsConfig::from(&overwrites.items[i]));
        i += 1;
    }
    assert(configs.deep_view() =~= overwrites@.map_values(
        |overwrite: OverwriteModel<R::V>| permissions_config_of::<R>(overwrite),
    ));
    compress(configs)
}

fn overwrites_read(
    configs: &Option<Vec<CategoryRolePermissionsConfig>>,
    roles: &RolesList<AwaitingRole>,
) -> (read: Result<PermissionsOverwritesList<AwaitingRole>, Error>)
    ensures
        match overwrites_from_config(roles@, configs.deep_view()) {
            Ok(overwrites) => read matches Ok(list) && list@ == overwrites,
            Err(error) => read matches Err(e) && e@ == error,
        },
{
    let ghost written = expanded(configs.deep_view());
    let ghost convert = |config: RolePermissionsConfigModel| overwrite_from_config(roles@, config);
    let mut items: Vec<PermissionsOverwrite<AwaitingRole>> = Vec::new();
    match configs {
        None => {},
        Some(list) => {
            let mut i: usize = 0;
            assert(written.take(0) =~= Seq::empty());
            assert(items@.map_values(|overwrite: PermissionsOverwrite<AwaitingRole>| overwrite@)
                =~= Seq::empty());
            while i < list.len()
                invariant
                    written == list.deep_view(),
                    configs.deep_view() == Some(written),
                    convert == |config: RolePermissionsConfigModel|
                        overwrite_from_config(roles@, config),
                    i <= list@.len(),
                    try_map(written.take(i as int), convert) == Ok::<
                        Seq<OverwriteModel<RoleModel>>,
                        ErrorModel,
                    >(items@.map_values(|overwrite: PermissionsOverwrite<AwaitingRole>| overwrite@)),
                decreases list@.len() - i,
            {
                let ghost before = items@.map_values(
                    |overwrite: PermissionsOverwrite<AwaitingRole>| overwrite@,
                );
                proof {
                    lemma_try_map_take(written, i as int, convert);
                    assert(written[i as int] == list@[i as int]@);
                }
                match list[i].to_overwrite(roles) {
                    Ok(overwrite) => {
                        items.push(overwrite);
                        assert(items@.map_values(
                            |overwrite: PermissionsOverwrite<AwaitingRole>| overwrite@,
                        ) =~= before.push(overwrite@));
                    },
                    Err(error) => {
                        proof {
                            lemma_try_map_fails(written, i + 1, convert);
                        }
                        return Err(error);
                    },
                }
                i += 1;
            }
            assert(written.take(i as int) =~= written);
        },
    }
    Ok(PermissionsOverwritesList { items })
}

impl CategoryRolePermissionsConfig {
    /// Writes an overwrite: computes [`permissions_config_of`].
    pub fn from<R: Role>(permissions: &PermissionsOverwrite<R>) -> (config: Self)
        ensures
            config@ == permissions_config_of::<R>(permissions@),
    {
        CategoryRolePermissionsConfig {
            role: permissions.role.name(),
            allow: names_written(&permissions.allow),
            deny: names_written(&permissions.deny),
        }
    }

    /// Reads an overwrite among some wanted roles: computes [`overwrite_from_config`].
    pub fn to_overwrite(
        &self,
        roles: &RolesList<AwaitingRole>,
    ) -> (read: Result<PermissionsOverwrite<AwaitingRole>, Error>)
        ensures
            match overwrite_from_config(roles@, self@) {
                Ok(overwrite) => read matches Ok(found) && found@ == overwrite,
                Err(error) => read matches Err(e) && e@ == error,
            },
    {
        match roles.find_by_name(self.role.as_str()) {
            None => Err(Error::UnknownRole(self.role.clone())),
            Some(role) => {
                proof {
                    let names = role_names::<AwaitingRole>(roles@);
                    lemma_first_index(names, self.role@);
                    let at = first_index(names, self.role@).unwrap();
                    assert(roles@[at] == roles.items@[at]@);
                }
                match permissions_read(&self.allow) {
                    Err(error) => Err(error),
                    Ok(allow) => match permissions_read(&self.deny) {
                        Err(error) => Err(error),
                        Ok(deny) => Ok(PermissionsOverwrite { role: role.clone(), allow, deny }),
                    },
                }
            },
        }
    }
}

impl CategoryConfig {
    /// Writes a live category: computes [`category_config_of`].
    pub fn from(category: &ExistingCategory) -> (config: Self)
        ensures
            config@ == category_config_of(category@),
    {
        CategoryConfig {
            name: category.name.clone(),
            permissions_overwrites: overwrites_written(&category.overwrites),
        }
    }

    /// Reads a category among some wanted roles: computes [`category_from_config`].
    /// An overwrite for a role that is none of the wanted roles is a failure, and so
    /// is a permission that is written by no known name.
    pub fn into(self, roles: &RolesList<AwaitingRole>) -> (read: Result<AwaitingCategory, Error>)
        ensures
            match category_from_config(roles@, self@) {
                Ok(category) => read matches Ok(found) && found@ == category,
                Err(error) => read matches Err(e) && e@ == error,
            },
    {
        self.to_category(roles)
    }

    /// Reads a category among some wanted roles, and leaves the written category as
    /// it is: computes [`category_from_config`].
    pub fn to_category(
        &self,
        roles: &RolesList<AwaitingRole>,
    ) -> (read: Result<AwaitingCategory, Error>)
        ensures
            match category_from_config(roles@, self@) {
                Ok(category) => read matches Ok(found) && found@ == category,
                Err(error) => read matches Err(e) && e@ == error,
            },
    {
        match overwrites_read(&self.permissions_overwrites, roles) {
            Err(error) => Err(error),
            Ok(overwrites) => Ok(
                AwaitingCategory {
                    name: self.name.clone(),
                    overwrites,
                    sync_permissions: false,
                    extra_channels_strategy: ExtraChannelsStrategyType::Remove,
                },
            ),
        }
    }
}

impl RoleConfig {
    /// Writes a live role: computes [`role_config_of`].
    pub fn from(role: &ExistingRole) -> (config: Self)
        ensures
            config@ == role_config_of(role@),
    {
        RoleConfig {
            name: role.name.clone(),
            permissions: names_written(&role.permissions),
            color: copy_optional_text(&role.color),
            show_in_sidebar: role.show_in_sidebar,
            is_mentionable: role.is_mentionable,
        }
    }

    /// Reads a role: computes [`role_from_config`].
    pub fn into(self) -> (read: Result<AwaitingRole, Error>)
        ensures
            match role_from_config(self@) {
                Ok(role) => read matches Ok(found) && found@ == role,
                Err(error) => read matches Err(e) && e@ == error,
            },
    {
        self.to_role()
    }

    /// Reads a role, and leaves the written role as it is: computes
    /// [`role_from_config`].
    pub fn to_role(&self) -> (read: Result<AwaitingRole, Error>)
        ensures
            match role_from_config(self@) {
                Ok(role) => read matches Ok(found) && found@ == role,
                Err(error) => read matches Err(e) && e@ == error,
            },
    {
        match permissions_read(&self.permissions) {
            Err(error) => Err(error),
            Ok(permissions) => Ok(
                AwaitingRole {
                    name: self.name.clone(),
                    permissions,
                    color: copy_optional_text(&self.color),
                    is_mentionable: self.is_mentionable,
                    show_in_sidebar: self.show_in_sidebar,
                },
            ),
        }
    }
}

impl ChannelConfig {
    /// Writes a live channel: computes [`channel_config_of`].
    pub fn from(channel: &ExistingChannel) -> (config: Self)
        ensures
            config@ == channel_config_of(channel@),
    {
        ChannelConfig {
            name: channel.name.clone(),
            topic: copy_optional_text(&channel.topic),
            channel_type: channel.channel_type,
            category: match &channel.category {
                Some(category) => Some(category.name.clone()),
                None => None,
            },
            permissions_overwrites: overwrites_written(&channel.overwrites),
        }
    }

    /// Reads a channel among some wanted roles and categories: computes
    /// [`channel_from_config`]. A category that is none of the wanted categories is a
    /// failure.
    pub fn into(
        self,
        roles: &RolesList<AwaitingRole>,
        categories: &CategoriesList<AwaitingCategory>,
    ) -> (read: Result<AwaitingChannel, Error>)
        ensures
            match channel_from_config(roles@, categories@, self@) {
                Ok(channel) => read matches Ok(found) && found@ == channel,
                Err(error) => read matches Err(e) && e@ == error,
            },
    {
        self.to_channel(roles, categories)
    }

    /// Reads a channel among some wanted roles and categories, and leaves the written
    /// channel as it is: computes [`channel_from_config`].
    pub fn to_channel(
        &self,
        roles: &RolesList<AwaitingRole>,
        categories: &CategoriesList<AwaitingCategory>,
    ) -> (read: Result<AwaitingChannel, Error>)
        ensures
            match channel_from_config(roles@, categories@, self@) {
                Ok(channel) => read matches Ok(found) && found@ == channel,
                Err(error) => read matches Err(e) && e@ == error,
            },
    {
        let category = match &self.category {
            None => None,
            Some(name) => match categories.find_by_name(name.as_str()) {
                Some(category) => {
                    proof {
                        let names = crate::category::category_names::<AwaitingCategory>(
                            categories@,
                        );
                        lemma_first_index(names, name@);
                        let at = first_index(names, name@).unwrap();
                        assert(categories@[at] == categories.items@[at]@);
                    }
                    Some(category.clone())
                },
                None => {
                    return Err(Error::UnknownCategory(name.clone()));
                },
            },
        };
        let synced = match &category {
            Some(category) => category.sync_permissions,
            None => false,
        };
        let overwrites = if synced {
            match &category {
                Some(category) => category.overwrites.clone(),
                None => PermissionsOverwritesList { items: Vec::new() },
            }
        } else {
            match overwrites_read(&self.permissions_overwrites, roles) {
                Ok(overwrites) => overwrites,
                Err(error) => {
                    return Err(error);
                },
            }
        };
        Ok(
            AwaitingChannel {
                name: self.name.clone(),
                topic: copy_optional_text(&self.topic),
                channel_type: self.channel_type,
                category,
                overwrites,
            },
        )
    }
}

impl GuildConfig {
    /// Writes a live workspace: computes [`guild_config_of`].
    pub fn from(guild: &ExistingGuild) -> (config: Self)
        ensures
            config@ == guild_config_of(guild@),
    {
        let mut roles: Vec<RoleConfig> = Vec::new();
        let mut i: usize = 0;
        while i < guild.roles.items.len()
            invariant
                i <= guild.roles.items@.len(),
                roles@.len() == i,
                forall|j: int| 0 <= j < i ==> roles@[j]@ == role_config_of(guild.roles.items@[j]@),
            decreases guild.roles.items@.len() - i,
        {
            roles.push(RoleConfig::from(&guild.roles.items[i]));
            i += 1;
        }
        let mut categories: Vec<CategoryConfig> = Vec::new();
        let mut i: usize = 0;
        while i < guild.categories.items.len()
            invariant
                i <= guild.categories.items@.len(),
                categories@.len() == i,
                forall|j: int|
                    0 <= j < i ==> categories@[j]@ == category_config_of(
                        guild.categories.items@[j]@,
                    ),
            decreases guild.categories.items@.len() - i,
        {
            categories.push(CategoryConfig::from(&guild.categories.items[i]));
            i += 1;
        }
        let mut channels: Vec<ChannelConfig> = Vec::new();
        let mut i: usize = 0;
        while i < guild.channels.items.len()
            invariant
                i <= guild.channels.items@.len(),
                channels@.len() == i,
                forall|j: int|
                    0 <= j < i ==> channels@[j]@ == channel_config_of(guild.channels.items@[j]@),
            decreases guild.channels.items@.len() - i,
        {
            channels.push(ChannelConfig::from(&guild.channels.items[i]));
            i += 1;
        }
        proof {
            assert(roles.deep_view() =~= guild@.roles.map_values(
                |role: LiveRoleModel| role_config_of(role),
            ));
            assert(categories.deep_view() =~= guild@.categories.map_values(
                |category: LiveCategoryModel| category_config_of(category),
            ));
            assert(channels.deep_view() =~= guild@.channels.map_values(
                |channel: LiveChannelModel| channel_config_of(channel),
            ));
        }
        GuildConfig {
            roles: compress(roles),
            categories: compress(categories),
            channels: compress(channels),
        }
    }

    /// Reads a workspace: computes [`guild_from_config`]. What is left out is read as
    /// empty.
    pub fn into(self) -> (read: Result<AwaitingGuild, Error>)
        ensures
            match guild_from_config(self@) {
                Ok(guild) => read matches Ok(found) && found@ == guild,
                Err(error) => read matches Err(e) && e@ == error,
            },
    {
        let roles = match roles_read(&self.roles) {
            Ok(roles) => roles,
            Err(error) => {
                return Err(error);
            },
        };
        let categories = match categories_read(&self.categories, &roles) {
            Ok(categories) => categories,
            Err(error) => {
                return Err(error);
            },
        };
        let channels = match channels_read(&self.channels, &roles, &categories) {
            Ok(channels) => channels,
            Err(error) => {
                return Err(error);
            },
        };
        Ok(
            AwaitingGuild {
                roles: AwaitingRolesList {
                    items: roles,
                    extra_items_strategy: ExtraRolesStrategyType::Remove,
                },
                categories: AwaitingCategoriesList {
                    items: categories,
                    extra_items_strategy: ExtraCategoriesStrategyType::Remove,
                },
                channels: AwaitingChannelsList {
                    items: channels,
                    extra_items_strategy: ExtraChannelsStrategyType::Remove,
                },
            },
        )
    }
}

fn roles_read(configs: &Option<Vec<RoleConfig>>) -> (read: Result<RolesList<AwaitingRole>, Error>)
    ensures
        match try_map(
            expanded(configs.deep_view()),
            |role: RoleConfigModel| role_from_config(role),
        ) {
            Ok(roles) => read matches Ok(list) && list@ == roles,
            Err(error) => read matches Err(e) && e@ == error,
        },
{
    let ghost written = expanded(configs.deep_view());
    let ghost convert = |role: RoleConfigModel| role_from_config(role);
    let mut items: Vec<AwaitingRole> = Vec::new();
    assert(items@.map_values(|role: AwaitingRole| role@) =~= Seq::empty());
    match configs {
        None => {},
        Some(list) => {
            let mut i: usize = 0;
            assert(written.take(0) =~= Seq::empty());
            while i < list.len()
                invariant
                    written == list.deep_view(),
                    configs.deep_view() == Some(written),
                    convert == |role: RoleConfigModel| role_from_config(role),
                    i <= list@.len(),
                    try_map(written.take(i as int), convert) == Ok::<Seq<RoleModel>, ErrorModel>(
                        items@.map_values(|role: AwaitingRole| role@),
                    ),
                decreases list@.len() - i,
            {
                let ghost before = items@.map_values(|role: AwaitingRole| role@);
                proof {
                    lemma_try_map_take(written, i as int, convert);
                    assert(written[i as int] == list@[i as int]@);
                }
                match list[i].to_role() {
                    Ok(role) => {
                        items.push(role);
                        assert(items@.map_values(|role: AwaitingRole| role@) =~= before.push(
                            role@,
                        ));
                    },
                    Err(error) => {
                        proof {
                            lemma_try_map_fails(written, i + 1, convert);
                        }
                        return Err(error);
                    },
                }
                i += 1;
            }
            assert(written.take(i as int) =~= written);
        },
    }
    Ok(RolesList { items })
}

fn categories_read(
    configs: &Option<Vec<CategoryConfig>>,
    roles: &RolesList<AwaitingRole>,
) -> (read: Result<CategoriesList<AwaitingCategory>, Error>)
    ensures
        match try_map(
            expanded(configs.deep_view()),
            |category: CategoryConfigModel| category_from_config(roles@, category),
        ) {
            Ok(categories) => read matches Ok(list) && list@ == categories,
            Err(error) => read matches Err(e) && e@ == error,
        },
{
    let ghost written = expanded(configs.deep_view());
    let ghost convert = |category: CategoryConfigModel| category_from_config(roles@, category);
    let mut items: Vec<AwaitingCategory> = Vec::new();
    assert(items@.map_values(|category: AwaitingCategory| category@) =~= Seq::empty());
    match configs {
        None => {},
        Some(list) => {
            let mut i: usize = 0;
            assert(written.take(0) =~= Seq::empty());
            while i < list.len()
                invariant
                    written == list.deep_view(),
                    configs.deep_view() == Some(written),
                    convert == |category: CategoryConfigModel|
                        category_from_config(roles@, category),
                    i <= list@.len(),
                    try_map(written.take(i as int), convert) == Ok::<
                        Seq<CategoryModel>,
                        ErrorModel,
                    >(items@.map_values(|category: AwaitingCategory| category@)),
                decreases list@.len() - i,
            {
                let ghost before = items@.map_values(|category: AwaitingCategory| category@);
                proof {
                    lemma_try_map_take(written, i as int, convert);
                    assert(written[i as int] == list@[i as int]@);
                }
                match list[i].to_category(roles) {
                    Ok(category) => {
                        items.push(category);
                        assert(items@.map_values(|category: AwaitingCategory| category@)
                            =~= before.push(category@));
                    },
                    Err(error) => {
                        proof {
                            lemma_try_map_fails(written, i + 1, convert);
                        }
                        return Err(error);
                    },
                }
                i += 1;
            }
            assert(written.take(i as int) =~= written);
        },
    }
    Ok(CategoriesList { items })
}

fn channels_read(
    configs: &Option<Vec<ChannelConfig>>,
    roles: &RolesList<AwaitingRole>,
    categories: &CategoriesList<AwaitingCategory>,
) -> (read: Result<ChannelsList<AwaitingChannel>, Error>)
    ensures
        match try_map(
            expanded(configs.deep_view()),
            |channel: ChannelConfigModel| channel_from_config(roles@, categories@, channel),
        ) {
            Ok(channels) => read matches Ok(list) && list@ == channels,
            Err(error) => read matches Err(e) && e@ == error,
        },
{
    let ghost written = expanded(configs.deep_view());
    let ghost convert = |channel: ChannelConfigModel|
        channel_from_config(roles@, categories@, channel);
    let mut items: Vec<AwaitingChannel> = Vec::new();
    assert(items@.map_values(|channel: AwaitingChannel| channel@) =~= Seq::empty());
    match configs {
        None => {},
        Some(list) => {
            let mut i: usize = 0;
            assert(written.take(0) =~= Seq::empty());
            while i < list.len()
                invariant
                    written == list.deep_view(),
                    configs.deep_view() == Some(written),
                    convert == |channel: ChannelConfigModel|
                        channel_from_config(roles@, categories@, channel),
                    i <= list@.len(),
                    try_map(written.take(i as int), convert) == Ok::<
                        Seq<ChannelModel>,
                        ErrorModel,
                    >(items@.map_values(|channel: AwaitingChannel| channel@)),
                decreases list@.len() - i,
            {
                let ghost before = items@.map_values(|channel: AwaitingChannel| channel@);
                proof {
                    lemma_try_map_take(written, i as int, convert);
                    assert(written[i as int] == list@[i as int]@);
                }
                match list[i].to_channel(roles, categories) {
                    Ok(channel) => {
                        items.push(channel);
                        assert(items@.map_values(|channel: AwaitingChannel| channel@)
                            =~= before.push(channel@));
                    },
                    Err(error) => {
                        proof {
                            lemma_try_map_fails(written, i + 1, convert);
                        }
                        return Err(error);
                    },
                }
                i += 1;
            }
            assert(written.take(i as int) =~= written);
        },
    }
    Ok(ChannelsList { items })
}

} // verus!
