//! A whole workspace: its roles, categories and channels, as wanted and as found live.

use vstd::prelude::*;
use crate::category::{
    category_names, distinct_categories, wanted_category, AwaitingCategoriesList,
    AwaitingCategory, CategoriesList, CategoriesModel, CategoryModel, ExistingCategory,
    LiveCategoryModel,
};
use crate::channel::{
    distinct_channels, wanted_channel, AwaitingChannel, AwaitingChannelsList, ChannelModel,
    ChannelsList, ChannelsModel, ExistingChannel, LiveChannelModel,
};
use crate::extra::{
    ExtraCategoriesStrategyType, ExtraChannelsStrategyType, ExtraRolesStrategyType,
};
use crate::overwrites::distinct_overwrites;
use crate::role::{
    distinct_roles, AwaitingRole, AwaitingRolesList, ExistingRole, LiveRoleModel, RoleModel,
    RolesList, RolesModel,
};

verus! {

/// The live state of a workspace: one snapshot of all that the server holds.
#[derive(Debug, PartialEq)]
pub struct ExistingGuild {
    pub roles: RolesList<ExistingRole>,
    pub categories: CategoriesList<ExistingCategory>,
    pub channels: ChannelsList<ExistingChannel>,
}

/// The state of a workspace that is asked for.
#[derive(Debug, PartialEq)]
pub struct AwaitingGuild {
    pub roles: AwaitingRolesList,
    pub categories: AwaitingCategoriesList,
    pub channels: AwaitingChannelsList,
}

/// Mathematical counterpart of [`ExistingGuild`].
pub struct LiveGuildModel {
    pub roles: Seq<LiveRoleModel>,
    pub categories: Seq<LiveCategoryModel>,
    pub channels: Seq<LiveChannelModel>,
}

/// Mathematical counterpart of [`AwaitingGuild`].
pub struct GuildModel {
    pub roles: RolesModel,
    pub categories: CategoriesModel,
    pub channels: ChannelsModel,
}

impl View for ExistingGuild {
    type V = LiveGuildModel;

    open spec fn view(&self) -> LiveGuildModel {
        LiveGuildModel {
            roles: self.roles@,
            categories: self.categories@,
            channels: self.channels@,
        }
    }
}

impl View for AwaitingGuild {
    type V = GuildModel;

    open spec fn view(&self) -> GuildModel {
        GuildModel { roles: self.roles@, categories: self.categories@, channels: self.channels@ }
    }
}

impl LiveGuildModel {
    /// Whether the snapshot is consistent: within each list no identity key occurs
    /// twice, no list of overwrites names a role twice, and the category of every
    /// channel is one of the snapshot's categories, by name.
    pub open spec fn well_formed(self) -> bool {
        &&& distinct_roles::<ExistingRole>(self.roles)
        &&& distinct_categories::<ExistingCategory>(self.categories)
        &&& distinct_channels::<ExistingChannel>(self.channels)
        &&& forall|i: int|
            0 <= i < self.categories.len() ==> distinct_overwrites::<ExistingRole>(
                (#[trigger] self.categories[i]).overwrites,
            )
        &&& forall|i: int|
            0 <= i < self.channels.len() ==> distinct_overwrites::<ExistingRole>(
                (#[trigger] self.channels[i]).overwrites,
            )
        &&& forall|i: int|
            0 <= i < self.channels.len() ==> match (#[trigger] self.channels[i]).category {
                Some(category) => category_names::<ExistingCategory>(self.categories).contains(
                    category.name,
                ),
                None => true,
            }
    }
}

/// Some live roles, taken as wanted, in the same order.
pub open spec fn wanted_roles(live: Seq<LiveRoleModel>) -> Seq<RoleModel> {
    live.map_values(|role: LiveRoleModel| role.role)
}

/// Some live categories, taken as wanted, in the same order.
pub open spec fn wanted_categories(live: Seq<LiveCategoryModel>) -> Seq<CategoryModel> {
    live.map_values(|category: LiveCategoryModel| wanted_category(category))
}

/// Some live channels, taken as wanted, in the same order.
pub open spec fn wanted_channels(live: Seq<LiveChannelModel>) -> Seq<ChannelModel> {
    live.map_values(|channel: LiveChannelModel| wanted_channel(channel))
}

/// A live workspace, taken as wanted: every live entity taken as wanted, in the same
/// order, with extra entities of every kind removed.
pub open spec fn wanted_guild(live: LiveGuildModel) -> GuildModel {
    GuildModel {
        roles: RolesModel {
            items: wanted_roles(live.roles),
            extra_items_strategy: ExtraRolesStrategyType::Remove,
        },
        categories: CategoriesModel {
            items: wanted_categories(live.categories),
            extra_items_strategy: ExtraCategoriesStrategyType::Remove,
        },
        channels: ChannelsModel {
            items: wanted_channels(live.channels),
            extra_items_strategy: ExtraChannelsStrategyType::Remove,
        },
    }
}

impl ExistingGuild {
    /// The live roles.
    pub fn roles(&self) -> (roles: &RolesList<ExistingRole>)
        ensures
            roles == &self.roles,
    {
        &self.roles
    }

    /// The live categories.
    pub fn categories(&self) -> (categories: &CategoriesList<ExistingCategory>)
        ensures
            categories == &self.categories,
    {
        &self.categories
    }

    /// The live channels.
    pub fn channels(&self) -> (channels: &ChannelsList<ExistingChannel>)
        ensures
            channels == &self.channels,
    {
        &self.channels
    }

    /// The wanted workspace that asks for nothing but what this live workspace
    /// already is.
    pub fn to_awaiting(&self) -> (awaiting: AwaitingGuild)
        ensures
            awaiting@ == wanted_guild(self@),
    {
        let mut roles: Vec<AwaitingRole> = Vec::new();
        let mut i: usize = 0;
        while i < self.roles.items.len()
            invariant
                i <= self.roles.items@.len(),
                roles@.len() == i,
                forall|j: int| 0 <= j < i ==> roles@[j]@ == self.roles.items@[j]@.role,
            decreases self.roles.items@.len() - i,
        {
            roles.push(self.roles.items[i].to_awaiting());
            i += 1;
        }
        let mut categories: Vec<AwaitingCategory> = Vec::new();
        let mut i: usize = 0;
        while i < self.categories.items.len()
            invariant
                i <= self.categories.items@.len(),
                categories@.len() == i,
                forall|j: int|
                    0 <= j < i ==> categories@[j]@ == wanted_category(
                        self.categories.items@[j]@,
                    ),
            decreases self.categories.items@.len() - i,
        {
            categories.push(self.categories.items[i].to_awaiting());
            i += 1;
        }
        let mut channels: Vec<AwaitingChannel> = Vec::new();
        let mut i: usize = 0;
        while i < self.channels.items.len()
            invariant
                i <= self.channels.items@.len(),
                channels@.len() == i,
                forall|j: int|
                    0 <= j < i ==> channels@[j]@ == wanted_channel(self.channels.items@[j]@),
            decreases self.channels.items@.len() - i,
        {
            channels.push(self.channels.items[i].to_awaiting());
            i += 1;
        }
        let awaiting = AwaitingGuild {
            roles: AwaitingRolesList {
                items: RolesList { items: roles },
                extra_items_strategy: ExtraRolesStrategyType::Remove,
            },
            categories: AwaitingCategoriesList {
                items: CategoriesList { items: categories },
                extra_items_strategy: ExtraCategoriesStrategyType::Remove,
            },
            channels: AwaitingChannelsList {
                items: ChannelsList { items: channels },
                extra_items_strategy: ExtraChannelsStrategyType::Remove,
            },
        };
        proof {
            assert(awaiting@.roles.items =~= wanted_guild(self@).roles.items);
            assert(awaiting@.categories.items =~= wanted_guild(self@).categories.items);
            assert(awaiting@.channels.items =~= wanted_guild(self@).channels.items);
        }
        awaiting
    }
}

} // verus!
