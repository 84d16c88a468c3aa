//! Change detection: one matcher per kind of entity.
//!
//! A matcher holds the live entities of one kind against the wanted ones, by identity
//! key. A key that only the wanted state holds calls for a creation. A key that both
//! hold calls for an update where the two entities differ, and for nothing where they
//! do not. A live entity whose key the wanted state lacks is extra, and is handed to
//! the policy for extra entities.
//!
//! Every matcher gives its creations first, then its updates, then what the policies
//! give for the extra entities, each in the order of the list that they stem from.

use vstd::prelude::*;
use crate::category::{
    category_diff, category_names, AwaitingCategory, CategoriesModel, CategoryModel,
    ExistingCategory, LiveCategoryModel,
};
use crate::channel::{
    channel_diff, channel_keys, AwaitingChannel, Channel, ChannelKey, ChannelModel,
    ExistingChannel, LiveChannelModel,
};
use crate::commands::{
    AddCategory, AddRole, ChannelChange, ChannelChangeModel, Command, CommandModel,
    UpdateCategory, UpdateRole,
};
use crate::error::{Error, ErrorModel};
use crate::extra::{
    extra_category_commands, extra_channel_changes, extra_role_commands,
    ExtraCategoriesStrategy, ExtraChannelsStrategy, ExtraChannelsStrategyType,
    ExtraRolesStrategy,
};
use crate::guild::{AwaitingGuild, ExistingGuild, GuildModel, LiveGuildModel};
use crate::lookup::{
    concat_map, first_index, lemma_concat_map_add, lemma_concat_map_push,
    lemma_concat_map_take, lemma_first_index,
};
use crate::role::{
    role_diff, role_names, AwaitingRole, ExistingRole, LiveRoleModel, RoleModel, RolesModel,
};

verus! {

/// The first live role of a given name.
pub open spec fn live_role(live: Seq<LiveRoleModel>, name: Seq<char>) -> Option<LiveRoleModel> {
    match first_index(role_names::<ExistingRole>(live), name) {
        Some(i) => Some(live[i]),
        None => None,
    }
}

/// The first wanted role of a given name.
pub open spec fn wanted_role(wanted: Seq<RoleModel>, name: Seq<char>) -> Option<RoleModel> {
    match first_index(role_names::<AwaitingRole>(wanted), name) {
        Some(i) => Some(wanted[i]),
        None => None,
    }
}

/// The creation that a wanted role calls for: one where no live role has its name.
pub open spec fn role_creation(live: Seq<LiveRoleModel>, wanted: RoleModel) -> Seq<CommandModel> {
    match live_role(live, wanted.name) {
        Some(_) => Seq::empty(),
        None => seq![CommandModel::AddRole(wanted)],
    }
}

/// The update that a wanted role calls for: one where a live role has its name and
/// differs from it.
pub open spec fn role_update(live: Seq<LiveRoleModel>, wanted: RoleModel) -> Seq<CommandModel> {
    match live_role(live, wanted.name) {
        Some(found) => if role_diff(found.role, wanted).len() > 0 {
            seq![CommandModel::UpdateRole(found, wanted, role_diff(found.role, wanted))]
        } else {
            Seq::empty()
        },
        None => Seq::empty(),
    }
}

/// A wanted role that calls for nothing: a live role has its name and does not differ.
pub open spec fn role_unchanged(live: Seq<LiveRoleModel>, wanted: RoleModel) -> Seq<RoleModel> {
    match live_role(live, wanted.name) {
        Some(found) => if role_diff(found.role, wanted).len() > 0 {
            Seq::empty()
        } else {
            seq![wanted]
        },
        None => Seq::empty(),
    }
}

/// A live role that is extra: no wanted role has its name.
pub open spec fn role_extra(wanted: Seq<RoleModel>, live: LiveRoleModel) -> Seq<LiveRoleModel> {
    match wanted_role(wanted, live.role.name) {
        Some(_) => Seq::empty(),
        None => seq![live],
    }
}

/// The creations that the wanted roles call for.
pub open spec fn role_creations(
    live: Seq<LiveRoleModel>,
    wanted: Seq<RoleModel>,
) -> Seq<CommandModel> {
    concat_map(wanted, |role: RoleModel| role_creation(live, role))
}

/// The updates that the wanted roles call for.
pub open spec fn role_updates(
    live: Seq<LiveRoleModel>,
    wanted: Seq<RoleModel>,
) -> Seq<CommandModel> {
    concat_map(wanted, |role: RoleModel| role_update(live, role))
}

/// The wanted roles that call for nothing.
pub open spec fn unchanged_roles(
    live: Seq<LiveRoleModel>,
    wanted: Seq<RoleModel>,
) -> Seq<RoleModel> {
    concat_map(wanted, |role: RoleModel| role_unchanged(live, role))
}

/// The live roles that are extra.
pub open spec fn extra_roles(
    live: Seq<LiveRoleModel>,
    wanted: Seq<RoleModel>,
) -> Seq<LiveRoleModel> {
    concat_map(live, |role: LiveRoleModel| role_extra(wanted, role))
}

/// What the policy for extra roles gives for the extra roles.
pub open spec fn role_deletions(live: Seq<LiveRoleModel>, wanted: RolesModel) -> Seq<CommandModel> {
    concat_map(
        extra_roles(live, wanted.items),
        |role: LiveRoleModel| extra_role_commands(wanted.extra_items_strategy, role),
    )
}

/// All that the matcher of roles gives.
pub open spec fn role_commands(live: Seq<LiveRoleModel>, wanted: RolesModel) -> Seq<CommandModel> {
    role_creations(live, wanted.items) + role_updates(live, wanted.items) + role_deletions(
        live,
        wanted,
    )
}

/// The first live category of a given name.
pub open spec fn live_category(
    live: Seq<LiveCategoryModel>,
    name: Seq<char>,
) -> Option<LiveCategoryModel> {
    match first_index(category_names::<ExistingCategory>(live), name) {
        Some(i) => Some(live[i]),
        None => None,
    }
}

/// The first wanted category of a given name.
pub open spec fn wanted_category_named(
    wanted: Seq<CategoryModel>,
    name: Seq<char>,
) -> Option<CategoryModel> {
    match first_index(category_names::<AwaitingCategory>(wanted), name) {
        Some(i) => Some(wanted[i]),
        None => None,
    }
}

/// The creation that a wanted category calls for: one where no live category has its name.
pub open spec fn category_creation(
    live: Seq<LiveCategoryModel>,
    wanted: CategoryModel,
) -> Seq<CommandModel> {
    match live_category(live, wanted.name) {
        Some(_) => Seq::empty(),
        None => seq![CommandModel::AddCategory(wanted)],
    }
}

/// The update that a wanted category calls for: one where a live category has its name and
/// differs from it.
pub open spec fn category_update(
    live: Seq<LiveCategoryModel>,
    wanted: CategoryModel,
) -> Seq<CommandModel> {
    match live_category(live, wanted.name) {
        Some(found) => if category_diff(found, wanted).len() > 0 {
            seq![CommandModel::UpdateCategory(found, wanted, category_diff(found, wanted))]
        } else {
            Seq::empty()
        },
        None => Seq::empty(),
    }
}

/// A wanted category that calls for nothing: a live category has its name and does not differ.
pub open spec fn category_unchanged(
    live: Seq<LiveCategoryModel>,
    wanted: CategoryModel,
) -> Seq<CategoryModel> {
    match live_category(live, wanted.name) {
        Some(found) => if category_diff(found, wanted).len() > 0 {
            Seq::empty()
        } else {
            seq![wanted]
        },
        None => Seq::empty(),
    }
}

/// A live category that is extra: no wanted category has its name.
pub open spec fn category_extra(
    wanted: Seq<CategoryModel>,
    live: LiveCategoryModel,
) -> Seq<LiveCategoryModel> {
    match wanted_category_named(wanted, live.name) {
        Some(_) => Seq::empty(),
        None => seq![live],
    }
}

/// The creations that the wanted categories call for.
pub open spec fn category_creations(
    live: Seq<LiveCategoryModel>,
    wanted: Seq<CategoryModel>,
) -> Seq<CommandModel> {
    concat_map(wanted, |category: CategoryModel| category_creation(live, category))
}

/// The updates that the wanted categories call for.
pub open spec fn category_updates(
    live: Seq<LiveCategoryModel>,
    wanted: Seq<CategoryModel>,
) -> Seq<CommandModel> {
    concat_map(wanted, |category: CategoryModel| category_update(live, category))
}

/// The wanted categories that call for nothing.
pub open spec fn unchanged_categories(
    live: Seq<LiveCategoryModel>,
    wanted: Seq<CategoryModel>,
) -> Seq<CategoryModel> {
    concat_map(wanted, |category: CategoryModel| category_unchanged(live, category))
}

/// The live categories that are extra.
pub open spec fn extra_categories(
    live: Seq<LiveCategoryModel>,
    wanted: Seq<CategoryModel>,
) -> Seq<LiveCategoryModel> {
    concat_map(live, |category: LiveCategoryModel| category_extra(wanted, category))
}

/// What the policy for extra categories gives for the extra categories.
pub open spec fn category_deletions(
    live: Seq<LiveCategoryModel>,
    wanted: CategoriesModel,
) -> Seq<CommandModel> {
    concat_map(
        extra_categories(live, wanted.items),
        |category: LiveCategoryModel|
            extra_category_commands(wanted.extra_items_strategy, category),
    )
}

/// All that the matcher of categories gives.
pub open spec fn category_commands(
    live: Seq<LiveCategoryModel>,
    wanted: CategoriesModel,
) -> Seq<CommandModel> {
    category_creations(live, wanted.items) + category_updates(live, wanted.items) + category_deletions(
        live,
        wanted,
    )
}

/// The first live channel that carries a given identity key.
pub open spec fn live_channel(
    live: Seq<LiveChannelModel>,
    key: ChannelKey,
) -> Option<LiveChannelModel> {
    match first_index(channel_keys::<ExistingChannel>(live), key) {
        Some(i) => Some(live[i]),
        None => None,
    }
}

/// The first wanted channel that carries a given identity key.
pub open spec fn wanted_channel_keyed(
    wanted: Seq<ChannelModel>,
    key: ChannelKey,
) -> Option<ChannelModel> {
    match first_index(channel_keys::<AwaitingChannel>(wanted), key) {
        Some(i) => Some(wanted[i]),
        None => None,
    }
}

/// The creation that a wanted channel calls for: one where no live channel has its key.
pub open spec fn channel_creation(
    live: Seq<LiveChannelModel>,
    wanted: ChannelModel,
) -> Seq<ChannelChangeModel> {
    match live_channel(live, wanted.key()) {
        Some(_) => Seq::empty(),
        None => seq![ChannelChangeModel::Create(wanted)],
    }
}

/// The update that a wanted channel calls for: one where a live channel has its key
/// and differs from it.
pub open spec fn channel_update(
    live: Seq<LiveChannelModel>,
    wanted: ChannelModel,
) -> Seq<ChannelChangeModel> {
    match live_channel(live, wanted.key()) {
        Some(found) => if channel_diff(found, wanted).len() > 0 {
            seq![ChannelChangeModel::Update(found, wanted, channel_diff(found, wanted))]
        } else {
            Seq::empty()
        },
        None => Seq::empty(),
    }
}

/// A wanted channel that calls for nothing: a live channel has its key and does not
/// differ.
pub open spec fn channel_unchanged(
    live: Seq<LiveChannelModel>,
    wanted: ChannelModel,
) -> Seq<ChannelModel> {
    match live_channel(live, wanted.key()) {
        Some(found) => if channel_diff(found, wanted).len() > 0 {
            Seq::empty()
        } else {
            seq![wanted]
        },
        None => Seq::empty(),
    }
}

/// A live channel that is extra: no wanted channel has its key.
pub open spec fn channel_extra(
    wanted: Seq<ChannelModel>,
    live: LiveChannelModel,
) -> Seq<LiveChannelModel> {
    match wanted_channel_keyed(wanted, live.key()) {
        Some(_) => Seq::empty(),
        None => seq![live],
    }
}

/// The creations that the wanted channels call for.
pub open spec fn channel_creations(
    live: Seq<LiveChannelModel>,
    wanted: Seq<ChannelModel>,
) -> Seq<ChannelChangeModel> {
    concat_map(wanted, |channel: ChannelModel| channel_creation(live, channel))
}

/// The updates that the wanted channels call for.
pub open spec fn channel_updates(
    live: Seq<LiveChannelModel>,
    wanted: Seq<ChannelModel>,
) -> Seq<ChannelChangeModel> {
    concat_map(wanted, |channel: ChannelModel| channel_update(live, channel))
}

/// The wanted channels that call for nothing.
pub open spec fn unchanged_channels(
    live: Seq<LiveChannelModel>,
    wanted: Seq<ChannelModel>,
) -> Seq<ChannelModel> {
    concat_map(wanted, |channel: ChannelModel| channel_unchanged(live, channel))
}

/// The live channels that are extra.
pub open spec fn extra_channels(
    live: Seq<LiveChannelModel>,
    wanted: Seq<ChannelModel>,
) -> Seq<LiveChannelModel> {
    concat_map(live, |channel: LiveChannelModel| channel_extra(wanted, channel))
}

/// The name of the category of the first wanted channel whose category is none of
/// the wanted categories, if there is such a channel.
pub open spec fn unresolved_category(
    categories: Seq<CategoryModel>,
    channels: Seq<ChannelModel>,
) -> Option<Seq<char>>
    decreases channels.len(),
{
    if channels.len() == 0 {
        None
    } else {
        match channels[0].category_name() {
            Some(name) => if wanted_category_named(categories, name).is_none() {
                Some(name)
            } else {
                unresolved_category(categories, channels.drop_first())
            },
            None => unresolved_category(categories, channels.drop_first()),
        }
    }
}

/// The wanted category that decides about an extra channel: the one that carries the
/// name of the channel's category. There is none where the channel stands under no
/// category, or under a category that is not wanted.
pub open spec fn owning_category(
    categories: Seq<CategoryModel>,
    extra: LiveChannelModel,
) -> Option<CategoryModel> {
    match extra.category_name() {
        Some(name) => wanted_category_named(categories, name),
        None => None,
    }
}

/// The policy that applies to an extra channel: that of the wanted category that
/// decides about it, and the policy of the workspace where no category does.
pub open spec fn extra_channel_policy(
    wanted: GuildModel,
    extra: LiveChannelModel,
) -> ExtraChannelsStrategyType {
    match owning_category(wanted.categories.items, extra) {
        Some(category) => category.extra_channels_strategy,
        None => wanted.channels.extra_items_strategy,
    }
}

/// What the policy that applies to an extra channel gives for it.
pub open spec fn handled_extra_channel(
    wanted: GuildModel,
    extra: LiveChannelModel,
) -> Result<Seq<ChannelChangeModel>, ErrorModel> {
    extra_channel_changes(
        extra_channel_policy(wanted, extra),
        extra,
        owning_category(wanted.categories.items, extra),
    )
}

/// What the policies give for some extra channels, one after the other. The first
/// failure, in the order of the channels, is the failure of the whole.
pub open spec fn handled_extra_channels(
    wanted: GuildModel,
    extras: Seq<LiveChannelModel>,
) -> Result<Seq<ChannelChangeModel>, ErrorModel>
    decreases extras.len(),
{
    if extras.len() == 0 {
        Ok(Seq::empty())
    } else {
        match handled_extra_channels(wanted, extras.drop_last()) {
            Err(error) => Err(error),
            Ok(before) => match handled_extra_channel(wanted, extras.last()) {
                Err(error) => Err(error),
                Ok(changes) => Ok(before + changes),
            },
        }
    }
}

/// All that the matcher of channels gives. A wanted channel whose category is none of
/// the wanted categories fails the whole, before any channel is matched.
pub open spec fn channel_changes(
    live: LiveGuildModel,
    wanted: GuildModel,
) -> Result<Seq<ChannelChangeModel>, ErrorModel> {
    match unresolved_category(wanted.categories.items, wanted.channels.items) {
        Some(name) => Err(ErrorModel::UnknownCategory(name)),
        None => match handled_extra_channels(
            wanted,
            extra_channels(live.channels, wanted.channels.items),
        ) {
            Err(error) => Err(error),
            Ok(extras) => Ok(
                channel_creations(live.channels, wanted.channels.items) + channel_updates(
                    live.channels,
                    wanted.channels.items,
                ) + extras,
            ),
        },
    }
}

/// The commands that carry out some changes of channels, in the same order.
pub open spec fn change_commands(changes: Seq<ChannelChangeModel>) -> Seq<CommandModel> {
    changes.map_values(|change: ChannelChangeModel| change.command())
}

/// The commands of the matcher of channels.
pub open spec fn channel_commands(
    live: LiveGuildModel,
    wanted: GuildModel,
) -> Result<Seq<CommandModel>, ErrorModel> {
    match channel_changes(live, wanted) {
        Ok(changes) => Ok(change_commands(changes)),
        Err(error) => Err(error),
    }
}

/// The batch of commands that brings a live workspace to the wanted one: the commands
/// for roles, then those for categories, then those for channels. A failure of the
/// matcher of channels leaves no batch at all.
pub open spec fn guild_commands(
    live: LiveGuildModel,
    wanted: GuildModel,
) -> Result<Seq<CommandModel>, ErrorModel> {
    match channel_commands(live, wanted) {
        Ok(channels) => Ok(
            role_commands(live.roles, wanted.roles) + category_commands(
                live.categories,
                wanted.categories,
            ) + channels,
        ),
        Err(error) => Err(error),
    }
}

/// What the policies give for two runs of extra channels, one after the other.
pub proof fn lemma_handled_extra_channels_add(
    wanted: GuildModel,
    first: Seq<LiveChannelModel>,
    second: Seq<LiveChannelModel>,
)
    ensures
        handled_extra_channels(wanted, first + second) == match handled_extra_channels(
            wanted,
            first,
        ) {
            Err(error) => Err(error),
            Ok(before) => match handled_extra_channels(wanted, second) {
                Err(error) => Err(error),
                Ok(after) => Ok(before + after),
            },
        },
    decreases second.len(),
{
    if second.len() == 0 {
        assert(first + second =~= first);
        match handled_extra_channels(wanted, first) {
            Ok(before) => {
                assert(before + Seq::<ChannelChangeModel>::empty() =~= before);
            },
            Err(_) => {},
        }
    } else {
        lemma_handled_extra_channels_add(wanted, first, second.drop_last());
        assert((first + second).drop_last() =~= first + second.drop_last());
        assert((first + second).last() == second.last());
        match handled_extra_channels(wanted, first) {
            Ok(before) => match handled_extra_channels(wanted, second.drop_last()) {
                Ok(middle) => match handled_extra_channel(wanted, second.last()) {
                    Ok(changes) => {
                        assert((before + middle) + changes =~= before + (middle + changes));
                    },
                    Err(_) => {},
                },
                Err(_) => {},
            },
            Err(_) => {},
        }
    }
}

/// Builds the commands that bring the live state of a workspace to the wanted one,
/// one kind of entity at a time.
#[derive(Debug, PartialEq)]
pub struct DiffCommandFactory {}

impl DiffCommandFactory {
    /// The matcher of roles: computes [`role_commands`].
    pub fn for_roles(
        &self,
        existing_guild: &ExistingGuild,
        awaiting_guild: &AwaitingGuild,
    ) -> (commands: Vec<Command>)
        ensures
            commands.deep_view() == role_commands(existing_guild@.roles, awaiting_guild@.roles),
    {
        let ghost live = existing_guild@.roles;
        let ghost wanted = awaiting_guild@.roles;
        let existing = &existing_guild.roles;
        let awaiting = &awaiting_guild.roles.items;
        let mut commands: Vec<Command> = Vec::new();
        assert(commands.deep_view() =~= Seq::empty());
        assert(wanted.items.take(0) =~= Seq::empty());

        let mut i: usize = 0;
        while i < awaiting.items.len()
            invariant
                live == existing@,
                wanted.items == awaiting@,
                i <= awaiting.items@.len(),
                commands.deep_view() == role_creations(live, wanted.items.take(i as int)),
            decreases awaiting.items@.len() - i,
        {
            let awaiting_role = &awaiting.items[i];
            let ghost before = commands.deep_view();
            proof {
                lemma_concat_map_take(
                    wanted.items,
                    i as int,
                    |role: RoleModel| role_creation(live, role),
                );
                assert(wanted.items[i as int] == awaiting_role@);
            }
            if existing.find_by_name(awaiting_role.name.as_str()).is_none() {
                commands.push(Command::AddRole(AddRole::new(awaiting_role.clone())));
                assert(commands.deep_view() =~= before + role_creation(live, awaiting_role@));
            } else {
                assert(commands.deep_view() =~= before + role_creation(live, awaiting_role@));
            }
            i += 1;
        }
        assert(wanted.items.take(i as int) =~= wanted.items);
        let ghost creations = commands.deep_view();

        let mut i: usize = 0;
        assert(commands.deep_view() =~= creations + Seq::empty());
        while i < awaiting.items.len()
            invariant
                live == existing@,
                wanted.items == awaiting@,
                i <= awaiting.items@.len(),
                commands.deep_view() == creations + role_updates(
                    live,
                    wanted.items.take(i as int),
                ),
            decreases awaiting.items@.len() - i,
        {
            let awaiting_role = &awaiting.items[i];
            let ghost before = commands.deep_view();
            proof {
                lemma_concat_map_take(
                    wanted.items,
                    i as int,
                    |role: RoleModel| role_update(live, role),
                );
                assert(wanted.items[i as int] == awaiting_role@);
            }
            match existing.find_by_name(awaiting_role.name.as_str()) {
                Some(existing_role) => {
                    proof {
                        let names = role_names::<ExistingRole>(live);
                        lemma_first_index(names, awaiting_role@.name);
                        let at = first_index(names, awaiting_role@.name).unwrap();
                        assert(live[at] == existing.items@[at]@);
                    }
                    let diffs = existing_role.diffs_with(awaiting_role);
                    assert(diffs.deep_view().len() == diffs@.len());
                    if diffs.len() > 0 {
                        let command = UpdateRole::new(
                            existing_role.clone(),
                            awaiting_role.clone(),
                            diffs,
                        );
                        commands.push(Command::UpdateRole(command));
                        assert(commands.deep_view() =~= before + role_update(
                            live,
                            awaiting_role@,
                        ));
                    } else {
                        assert(commands.deep_view() =~= before + role_update(
                            live,
                            awaiting_role@,
                        ));
                    }
                },
                None => {
                    assert(commands.deep_view() =~= before + role_update(live, awaiting_role@));
                },
            }
            i += 1;
        }
        assert(wanted.items.take(i as int) =~= wanted.items);
        let ghost matched = commands.deep_view();

        let mut i: usize = 0;
        assert(live.take(0) =~= Seq::empty());
        assert(commands.deep_view() =~= matched + Seq::empty());
        while i < existing.items.len()
            invariant
                live == existing@,
                wanted == awaiting_guild@.roles,
                wanted.items == awaiting@,
                i <= existing.items@.len(),
                commands.deep_view() == matched + role_deletions(live.take(i as int), wanted),
            decreases existing.items@.len() - i,
        {
            let existing_role = &existing.items[i];
            let ghost before = commands.deep_view();
            proof {
                lemma_concat_map_take(
                    live,
                    i as int,
                    |role: LiveRoleModel| role_extra(wanted.items, role),
                );
                lemma_concat_map_add(
                    extra_roles(live.take(i as int), wanted.items),
                    role_extra(wanted.items, live[i as int]),
                    |role: LiveRoleModel| extra_role_commands(wanted.extra_items_strategy, role),
                );
                assert(live[i as int] == existing_role@);
            }
            if awaiting.find_by_name(existing_role.name.as_str()).is_none() {
                proof {
                    lemma_concat_map_push(
                        Seq::empty(),
                        existing_role@,
                        |role: LiveRoleModel|
                            extra_role_commands(wanted.extra_items_strategy, role),
                    );
                    assert(seq![existing_role@] =~= Seq::empty().push(existing_role@));
                }
                awaiting_guild.roles.extra_items_strategy.handle_extra_role(
                    existing_role,
                    &mut commands,
                );
            }
            assert(commands.deep_view() =~= matched + role_deletions(
                live.take(i + 1),
                wanted,
            ));
            i += 1;
        }
        assert(live.take(i as int) =~= live);
        commands
    }

    /// The matcher of categories: computes [`category_commands`].
    pub fn for_categories(
        &self,
        existing_guild: &ExistingGuild,
        awaiting_guild: &AwaitingGuild,
    ) -> (commands: Vec<Command>)
        ensures
            commands.deep_view() ==
                category_commands(existing_guild@.categories, awaiting_guild@.categories),
    {
        let ghost live = existing_guild@.categories;
        let ghost wanted = awaiting_guild@.categories;
        let existing = &existing_guild.categories;
        let awaiting = &awaiting_guild.categories.items;
        let mut commands: Vec<Command> = Vec::new();
        assert(commands.deep_view() =~= Seq::empty());
        assert(wanted.items.take(0) =~= Seq::empty());

        let mut i: usize = 0;
        while i < awaiting.items.len()
            invariant
                live == existing@,
                wanted.items == awaiting@,
                i <= awaiting.items@.len(),
                commands.deep_view() == category_creations(live, wanted.items.take(i as int)),
            decreases awaiting.items@.len() - i,
        {
            let awaiting_category = &awaiting.items[i];
            let ghost before = commands.deep_view();
            proof {
                lemma_concat_map_take(
                    wanted.items,
                    i as int,
                    |category: CategoryModel| category_creation(live, category),
                );
                assert(wanted.items[i as int] == awaiting_category@);
            }
            if existing.find_by_name(awaiting_category.name.as_str()).is_none() {
                commands.push(Command::AddCategory(AddCategory::new(awaiting_category.clone())));
                assert(commands.deep_view() =~=
                    before + category_creation(live, awaiting_category@));
            } else {
                assert(commands.deep_view() =~=
                    before + category_creation(live, awaiting_category@));
            }
            i += 1;
        }
        assert(wanted.items.take(i as int) =~= wanted.items);
        let ghost creations = commands.deep_view();

        let mut i: usize = 0;
        assert(commands.deep_view() =~= creations + Seq::empty());
        while i < awaiting.items.len()
            invariant
                live == existing@,
                wanted.items == awaiting@,
                i <= awaiting.items@.len(),
                commands.deep_view() == creations + category_updates(
                    live,
                    wanted.items.take(i as int),
                ),
            decreases awaiting.items@.len() - i,
        {
            let awaiting_category = &awaiting.items[i];
            let ghost before = commands.deep_view();
            proof {
                lemma_concat_map_take(
                    wanted.items,
                    i as int,
                    |category: CategoryModel| category_update(live, category),
                );
                assert(wanted.items[i as int] == awaiting_category@);
            }
            match existing.find_by_name(awaiting_category.name.as_str()) {
                Some(existing_category) => {
                    proof {
                        let names = category_names::<ExistingCategory>(live);
                        lemma_first_index(names, awaiting_category@.name);
                        let at = first_index(names, awaiting_category@.name).unwrap();
                        assert(live[at] == existing.items@[at]@);
                    }
                    let diffs = existing_category.diffs_with(awaiting_category);
                    assert(diffs.deep_view().len() == diffs@.len());
                    if diffs.len() > 0 {
                        let command = UpdateCategory::new(
                            existing_category.clone(),
                            awaiting_category.clone(),
                            diffs,
                        );
                        commands.push(Command::UpdateCategory(command));
                        assert(commands.deep_view() =~= before + category_update(
                            live,
                            awaiting_category@,
                        ));
                    } else {
                        assert(commands.deep_view() =~= before + category_update(
                            live,
                            awaiting_category@,
                        ));
                    }
                },
                None => {
                    assert(commands.deep_view() =~=
                        before + category_update(live, awaiting_category@));
                },
            }
            i += 1;
        }
        assert(wanted.items.take(i as int) =~= wanted.items);
        let ghost matched = commands.deep_view();

        let mut i: usize = 0;
        assert(live.take(0) =~= Seq::empty());
        assert(commands.deep_view() =~= matched + Seq::empty());
        while i < existing.items.len()
            invariant
                live == existing@,
                wanted == awaiting_guild@.categories,
                wanted.items == awaiting@,
                i <= existing.items@.len(),
                commands.deep_view() == matched + category_deletions(live.take(i as int), wanted),
            decreases existing.items@.len() - i,
        {
            let existing_category = &existing.items[i];
            let ghost before = commands.deep_view();
            proof {
                lemma_concat_map_take(
                    live,
                    i as int,
                    |category: LiveCategoryModel| category_extra(wanted.items, category),
                );
                lemma_concat_map_add(
                    extra_categories(live.take(i as int), wanted.items),
                    category_extra(wanted.items, live[i as int]),
                    |category: LiveCategoryModel|
                        extra_category_commands(wanted.extra_items_strategy, category),
                );
                assert(live[i as int] == existing_category@);
            }
            if awaiting.find_by_name(existing_category.name.as_str()).is_none() {
                proof {
                    lemma_concat_map_push(
                        Seq::empty(),
                        existing_category@,
                        |category: LiveCategoryModel|
                            extra_category_commands(wanted.extra_items_strategy, category),
                    );
                    assert(seq![existing_category@] =~= Seq::empty().push(existing_category@));
                }
                awaiting_guild.categories.extra_items_strategy.handle_extra_category(
                    existing_category,
                    &mut commands,
                );
            }
            assert(commands.deep_view() =~= matched + category_deletions(
                live.take(i + 1),
                wanted,
            ));
            i += 1;
        }
        assert(live.take(i as int) =~= live);
        commands
    }

    /// The matcher of channels, as commands: computes [`channel_commands`].
    pub fn for_channels(
        &self,
        existing_guild: &ExistingGuild,
        awaiting_guild: &AwaitingGuild,
    ) -> (found: Result<Vec<Command>, Error>)
        ensures
            match channel_commands(existing_guild@, awaiting_guild@) {
                Ok(commands) => found matches Ok(list) && list.deep_view() == commands,
                Err(error) => found matches Err(e) && e@ == error,
            },
    {
        let service = ChannelChangesService {  };
        match service.list_changes(existing_guild, awaiting_guild) {
            Ok(changes) => {
                let mut commands: Vec<Command> = Vec::new();
                let mut i: usize = 0;
                while i < changes.len()
                    invariant
                        i <= changes@.len(),
                        commands@.len() == i,
                        forall|j: int| 0 <= j < i ==> commands@[j]@ == changes@[j]@.command(),
                    decreases changes@.len() - i,
                {
                    commands.push(changes[i].to_command());
                    i += 1;
                }
                assert(commands.deep_view() =~= change_commands(changes.deep_view()));
                Ok(commands)
            },
            Err(error) => Err(error),
        }
    }
}

/// The matcher of channels.
#[derive(Debug, PartialEq)]
pub struct ChannelChangesService {}

impl ChannelChangesService {
    /// Computes [`channel_changes`].
    pub fn list_changes(
        &self,
        existing_guild: &ExistingGuild,
        awaiting_guild: &AwaitingGuild,
    ) -> (found: Result<Vec<ChannelChange>, Error>)
        ensures
            match channel_changes(existing_guild@, awaiting_guild@) {
                Ok(changes) => found matches Ok(list) && list.deep_view() == changes,
                Err(error) => found matches Err(e) && e@ == error,
            },
    {
        let ghost live = existing_guild@.channels;
        let ghost wanted = awaiting_guild@.channels.items;
        let ghost categories = awaiting_guild@.categories.items;
        let existing = &existing_guild.channels;
        let awaiting = &awaiting_guild.channels.items;

        let mut i: usize = 0;
        assert(wanted.skip(0) =~= wanted);
        while i < awaiting.items.len()
            invariant
                wanted == awaiting@,
                wanted == awaiting_guild@.channels.items,
                categories == awaiting_guild@.categories.items,
                i <= awaiting.items@.len(),
                unresolved_category(categories, wanted) == unresolved_category(
                    categories,
                    wanted.skip(i as int),
                ),
            decreases awaiting.items@.len() - i,
        {
            proof {
                assert(wanted.skip(i as int)[0] == awaiting.items@[i as int]@);
                assert(wanted.skip(i as int).drop_first() =~= wanted.skip(i + 1));
            }
            match &awaiting.items[i].category {
                Some(category) => {
                    if awaiting_guild.categories.items.find_by_name(
                        category.name.as_str(),
                    ).is_none() {
                        proof {
                            assert(wanted.skip(i as int)[0].category_name() == Some(
                                category.name@,
                            ));
                            assert(wanted_category_named(categories, category.name@).is_none());
                            assert(unresolved_category(categories, wanted.skip(i as int)) == Some(
                                category.name@,
                            ));
                        }
                        return Err(Error::UnknownCategory(category.name.clone()));
                    }
                },
                None => {},
            }
            i += 1;
        }
        assert(unresolved_category(categories, wanted).is_none());

        let mut changes: Vec<ChannelChange> = Vec::new();
        assert(changes.deep_view() =~= Seq::empty());
        assert(wanted.take(0) =~= Seq::empty());
        let mut i: usize = 0;
        while i < awaiting.items.len()
            invariant
                live == existing@,
                wanted == awaiting@,
                i <= awaiting.items@.len(),
                changes.deep_view() == channel_creations(live, wanted.take(i as int)),
            decreases awaiting.items@.len() - i,
        {
            let awaiting_channel = &awaiting.items[i];
            let ghost before = changes.deep_view();
            proof {
                lemma_concat_map_take(
                    wanted,
                    i as int,
                    |channel: ChannelModel| channel_creation(live, channel),
                );
                assert(wanted[i as int] == awaiting_channel@);
            }
            let found = existing.find(
                awaiting_channel.name.as_str(),
                awaiting_channel.channel_type,
                awaiting_channel.category_name(),
            );
            if found.is_none() {
                changes.push(ChannelChange::Create(awaiting_channel.clone()));
                assert(changes.deep_view() =~= before + channel_creation(live, awaiting_channel@));
            } else {
                assert(changes.deep_view() =~= before + channel_creation(live, awaiting_channel@));
            }
            i += 1;
        }
        assert(wanted.take(i as int) =~= wanted);
        let ghost creations = changes.deep_view();

        let mut i: usize = 0;
        assert(changes.deep_view() =~= creations + Seq::empty());
        while i < awaiting.items.len()
            invariant
                live == existing@,
                wanted == awaiting@,
                i <= awaiting.items@.len(),
                changes.deep_view() == creations + channel_updates(live, wanted.take(i as int)),
            decreases awaiting.items@.len() - i,
        {
            let awaiting_channel = &awaiting.items[i];
            let ghost before = changes.deep_view();
            proof {
                lemma_concat_map_take(
                    wanted,
                    i as int,
                    |channel: ChannelModel| channel_update(live, channel),
                );
                assert(wanted[i as int] == awaiting_channel@);
            }
            let found = existing.find(
                awaiting_channel.name.as_str(),
                awaiting_channel.channel_type,
                awaiting_channel.category_name(),
            );
            match found {
                Some(existing_channel) => {
                    proof {
                        let keys = channel_keys::<ExistingChannel>(live);
                        lemma_first_index(keys, awaiting_channel@.key());
                        let at = first_index(keys, awaiting_channel@.key()).unwrap();
                        assert(live[at] == existing.items@[at]@);
                    }
                    let diffs = existing_channel.diffs_with(awaiting_channel);
                    assert(diffs.deep_view().len() == diffs@.len());
                    if diffs.len() > 0 {
                        changes.push(
                            ChannelChange::Update(
                                existing_channel.clone(),
                                awaiting_channel.clone(),
                                diffs,
                            ),
                        );
                        assert(changes.deep_view() =~= before + channel_update(
                            live,
                            awaiting_channel@,
                        ));
                    } else {
                        assert(changes.deep_view() =~= before + channel_update(
                            live,
                            awaiting_channel@,
                        ));
                    }
                },
                None => {
                    assert(changes.deep_view() =~= before + channel_update(
                        live,
                        awaiting_channel@,
                    ));
                },
            }
            i += 1;
        }
        assert(wanted.take(i as int) =~= wanted);
        let ghost matched = changes.deep_view();

        let mut i: usize = 0;
        let ghost mut extras: Seq<ChannelChangeModel> = Seq::empty();
        assert(live.take(0) =~= Seq::empty());
        assert(changes.deep_view() =~= matched + extras);
        while i < existing.items.len()
            invariant
                live == existing@,
                live == existing_guild@.channels,
                wanted == awaiting@,
                wanted == awaiting_guild@.channels.items,
                categories == awaiting_guild@.categories.items,
                unresolved_category(categories, wanted).is_none(),
                i <= existing.items@.len(),
                handled_extra_channels(
                    awaiting_guild@,
                    extra_channels(live.take(i as int), wanted),
                ) == Ok::<Seq<ChannelChangeModel>, ErrorModel>(extras),
                changes.deep_view() == matched + extras,
            decreases existing.items@.len() - i,
        {
            let existing_channel = &existing.items[i];
            let ghost seen = extra_channels(live.take(i as int), wanted);
            let ghost here = channel_extra(wanted, live[i as int]);
            proof {
                lemma_concat_map_take(
                    live,
                    i as int,
                    |channel: LiveChannelModel| channel_extra(wanted, channel),
                );
                lemma_handled_extra_channels_add(awaiting_guild@, seen, here);
                assert(live[i as int] == existing_channel@);
                assert(live =~= live.take(i + 1) + live.skip(i + 1));
                lemma_concat_map_add(
                    live.take(i + 1),
                    live.skip(i + 1),
                    |channel: LiveChannelModel| channel_extra(wanted, channel),
                );
                lemma_handled_extra_channels_add(
                    awaiting_guild@,
                    extra_channels(live.take(i + 1), wanted),
                    extra_channels(live.skip(i + 1), wanted),
                );
            }
            let counterpart = awaiting.find(
                existing_channel.name.as_str(),
                existing_channel.channel_type,
                existing_channel.category_name(),
            );
            if counterpart.is_none() {
                proof {
                    assert(here =~= Seq::empty().push(existing_channel@));
                    assert(here.drop_last() =~= Seq::empty());
                    assert(here.last() == existing_channel@);
                }
                let awaiting_category = match &existing_channel.category {
                    Some(category) => awaiting_guild.categories.items.find_by_name(
                        category.name.as_str(),
                    ),
                    None => None,
                };
                proof {
                    match existing_channel@.category_name() {
                        Some(name) => {
                            let names = category_names::<AwaitingCategory>(categories);
                            lemma_first_index(names, name);
                            if first_index(names, name).is_some() {
                                let at = first_index(names, name).unwrap();
                                assert(categories[at] ==
                                    awaiting_guild.categories.items.items@[at]@);
                            }
                        },
                        None => {},
                    }
                    assert(awaiting_category.deep_view() == owning_category(
                        categories,
                        existing_channel@,
                    ));
                }
                let strategy = match awaiting_category {
                    Some(category) => category.extra_channels_strategy,
                    None => awaiting_guild.channels.extra_items_strategy,
                };
                let ghost before = changes.deep_view();
                proof {
                    assert(strategy == extra_channel_policy(awaiting_guild@, existing_channel@));
                    assert(handled_extra_channels(
                        awaiting_guild@,
                        Seq::<LiveChannelModel>::empty(),
                    ) == Ok::<Seq<ChannelChangeModel>, ErrorModel>(Seq::empty()));
                    assert(handled_extra_channels(awaiting_guild@, here)
                        == match handled_extra_channel(awaiting_guild@, existing_channel@) {
                        Err(error) => Err(error),
                        Ok(added) => Ok(Seq::empty() + added),
                    });
                }
                match strategy.handle_extra_channel(
                    existing_channel,
                    &mut changes,
                    awaiting_category,
                ) {
                    Ok(()) => {
                        proof {
                            let added = handled_extra_channel(
                                awaiting_guild@,
                                existing_channel@,
                            )->Ok_0;
                            assert(Seq::<ChannelChangeModel>::empty() + added =~= added);
                            assert(changes.deep_view() =~= matched + (extras + added));
                            extras = extras + added;
                        }
                    },
                    Err(error) => {
                        return Err(error);
                    },
                }
            } else {
                proof {
                    assert(here =~= Seq::empty());
                    assert(seen + here =~= seen);
                    assert(extras + Seq::<ChannelChangeModel>::empty() =~= extras);
                }
            }
            i += 1;
        }
        assert(live.take(i as int) =~= live);
        Ok(changes)
    }
}

/// Computes the whole batch of commands of a reconciliation run.
#[derive(Debug, PartialEq)]
pub struct DiffCalculator {
    pub factory: DiffCommandFactory,
}

impl DiffCalculator {
    pub fn new(factory: DiffCommandFactory) -> (calculator: Self)
        ensures
            calculator.factory == factory,
    {
        DiffCalculator { factory }
    }

    /// Lists the changes that bring the live workspace to the wanted one: computes
    /// [`guild_commands`]. The three matchers run in the order of roles, categories
    /// and channels, and their commands stand in the batch in that order.
    pub fn create_commands(
        &self,
        existing_guild: ExistingGuild,
        awaiting_guild: AwaitingGuild,
    ) -> (found: Result<Vec<Command>, Error>)
        ensures
            match guild_commands(existing_guild@, awaiting_guild@) {
                Ok(commands) => found matches Ok(list) && list.deep_view() == commands,
                Err(error) => found matches Err(e) && e@ == error,
            },
    {
        let mut commands = self.factory.for_roles(&existing_guild, &awaiting_guild);
        let mut categories = self.factory.for_categories(&existing_guild, &awaiting_guild);
        match self.factory.for_channels(&existing_guild, &awaiting_guild) {
            Ok(channels) => {
                let mut channels = channels;
                let ghost first = commands.deep_view();
                let ghost second = categories.deep_view();
                let ghost third = channels.deep_view();
                commands.append(&mut categories);
                assert(commands.deep_view() =~= first + second);
                commands.append(&mut channels);
                assert(commands.deep_view() =~= first + second + third);
                Ok(commands)
            },
            Err(error) => Err(error),
        }
    }
}

} // verus!
