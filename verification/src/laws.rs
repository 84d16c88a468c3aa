//! What holds of change detection, whatever the workspace.

use vstd::prelude::*;
use crate::apply::{ActionModel, EventModel, RunModel, Stage};
use crate::category::{
    category_diff, category_names, distinct_categories, wanted_category, AwaitingCategory,
    CategoriesModel, CategoryModel, ExistingCategory, LiveCategoryModel,
};
use crate::changes::{
    category_commands, category_creation, category_creations, category_deletions, category_extra,
    category_unchanged, category_update, category_updates, change_commands, channel_changes,
    channel_commands, channel_creation, channel_creations, channel_extra, channel_unchanged,
    channel_update, channel_updates, extra_categories, extra_channel_policy, extra_channels,
    extra_roles, guild_commands, handled_extra_channels, live_category, live_channel, live_role,
    role_commands, role_creation, role_creations, role_deletions, role_extra, role_unchanged,
    role_update, role_updates, unchanged_categories, unchanged_channels, unchanged_roles,
    unresolved_category, wanted_category_named, wanted_channel_keyed, wanted_role,
};
use crate::channel::{
    channel_diff, channel_keys, distinct_channels, wanted_channel, AwaitingChannel, ChannelKey,
    ChannelModel, ExistingChannel, LiveChannelModel,
};
use crate::commands::{
    ChannelChangeModel, CommandEntity, CommandModel, EntityKey, MutationModel,
};
use crate::diff::{field_diff, DiffModel};
use crate::error::ErrorModel;
use crate::extra::{
    extra_category_commands, extra_role_commands, ExtraCategoriesStrategyType,
    ExtraChannelsStrategyType, ExtraRolesStrategyType,
};
use crate::guild::{
    wanted_categories, wanted_channels, wanted_guild, wanted_roles, GuildModel, LiveGuildModel,
};
use crate::lookup::{
    concat_map, distinct, first_index, lemma_concat_map_add, lemma_concat_map_contains,
    lemma_concat_map_empty, lemma_concat_map_singletons, lemma_first_index,
    lemma_first_index_distinct,
};
use crate::overwrites::{
    distinct_overwrites, entries, entry_diff, entry_roles, live_overwrites_diff, overwrites_diff,
    wanted_overwrites, wanted_overwrites_diff, OverwriteEntry, OverwriteModel,
};
use crate::permission::{
    lemma_no_diff_same_permissions, lemma_same_permissions_no_diff, permissions_diff,
};
use crate::role::{
    distinct_roles, role_diff, role_names, AwaitingRole, ExistingRole, LiveRoleModel, RoleModel,
    RolesModel,
};

verus! {

/// A live role and a wanted role differ exactly where they do not hold the same set
/// of permissions, or not the same color, or not the same two flags. So the absence
/// of differences means that nothing of the role is to change.
pub proof fn lemma_role_differs(live: RoleModel, wanted: RoleModel)
    ensures
        role_diff(live, wanted).len() == 0 <==> {
            &&& live.permissions.to_set() == wanted.permissions.to_set()
            &&& live.color == wanted.color
            &&& live.is_mentionable == wanted.is_mentionable
            &&& live.show_in_sidebar == wanted.show_in_sidebar
        },
{
    if live.permissions.to_set() == wanted.permissions.to_set() {
        lemma_same_permissions_no_diff(live.permissions, wanted.permissions);
    }
    if permissions_diff(live.permissions, wanted.permissions).len() == 0 {
        lemma_no_diff_same_permissions(live.permissions, wanted.permissions);
    }
}

/// A role does not differ from itself.
pub proof fn lemma_same_role_no_diff(role: RoleModel)
    ensures
        role_diff(role, role) == Seq::<DiffModel>::empty(),
{
    lemma_same_permissions_no_diff(role.permissions, role.permissions);
    assert(role_diff(role, role) =~= Seq::<DiffModel>::empty());
}

/// Whether two overwrites are for roles of the same name, and allow and deny the same
/// sets of permissions.
pub open spec fn same_entry(live: OverwriteEntry, wanted: OverwriteEntry) -> bool {
    &&& live.role == wanted.role
    &&& live.allow.to_set() == wanted.allow.to_set()
    &&& live.deny.to_set() == wanted.deny.to_set()
}

/// Whether an overwrite has its like among some overwrites.
pub open spec fn has_like(entry: OverwriteEntry, among: Seq<OverwriteEntry>) -> bool {
    exists|j: int| 0 <= j < among.len() && same_entry(entry, #[trigger] among[j])
}

/// An overwrite does not differ from an overwrite that allows and denies the same.
pub proof fn lemma_same_entry_no_diff(live: OverwriteEntry, wanted: OverwriteEntry)
    requires
        same_entry(live, wanted),
    ensures
        entry_diff(live, wanted) == Seq::<DiffModel>::empty(),
{
    lemma_same_permissions_no_diff(live.allow, wanted.allow);
    lemma_same_permissions_no_diff(live.deny, wanted.deny);
    assert(entry_diff(live, wanted) =~= Seq::<DiffModel>::empty());
}

/// Two lists of overwrites that hold the same overwrites do not differ, in whatever
/// order each list holds them: it is enough that every live overwrite has its like
/// among the wanted ones, that the role of every wanted overwrite is the role of a
/// live one, and that the wanted list names no role twice.
pub proof fn lemma_same_overwrites_no_diff(live: Seq<OverwriteEntry>, wanted: Seq<OverwriteEntry>)
    requires
        distinct(entry_roles(wanted)),
        forall|i: int| 0 <= i < live.len() ==> has_like(#[trigger] live[i], wanted),
        forall|j: int|
            0 <= j < wanted.len() ==> entry_roles(live).contains((#[trigger] wanted[j]).role),
    ensures
        overwrites_diff(live, wanted) == Seq::<DiffModel>::empty(),
{
    lemma_live_overwrites_no_diff(live, wanted, live.len());
    lemma_wanted_overwrites_no_diff(live, wanted, wanted.len());
    assert(overwrites_diff(live, wanted) =~= Seq::<DiffModel>::empty());
}

proof fn lemma_live_overwrites_no_diff(
    live: Seq<OverwriteEntry>,
    wanted: Seq<OverwriteEntry>,
    count: nat,
)
    requires
        count <= live.len(),
        distinct(entry_roles(wanted)),
        forall|i: int| 0 <= i < live.len() ==> has_like(#[trigger] live[i], wanted),
    ensures
        live_overwrites_diff(live, wanted, count) == Seq::<DiffModel>::empty(),
    decreases count,
{
    if count > 0 {
        lemma_live_overwrites_no_diff(live, wanted, (count - 1) as nat);
        let entry = live[count - 1];
        let j = choose|j: int| 0 <= j < wanted.len() && same_entry(entry, #[trigger] wanted[j]);
        let roles = entry_roles(wanted);
        assert(roles[j] == entry.role);
        lemma_first_index_distinct(roles, j);
        lemma_same_entry_no_diff(entry, wanted[j]);
        assert(field_diff(entry.role, entry_diff(entry, wanted[j])) =~= Seq::<DiffModel>::empty());
        assert(live_overwrites_diff(live, wanted, count) =~= Seq::<DiffModel>::empty());
    }
}

proof fn lemma_wanted_overwrites_no_diff(
    live: Seq<OverwriteEntry>,
    wanted: Seq<OverwriteEntry>,
    count: nat,
)
    requires
        count <= wanted.len(),
        forall|j: int|
            0 <= j < wanted.len() ==> entry_roles(live).contains((#[trigger] wanted[j]).role),
    ensures
        wanted_overwrites_diff(live, wanted, count) == Seq::<DiffModel>::empty(),
    decreases count,
{
    if count > 0 {
        lemma_wanted_overwrites_no_diff(live, wanted, (count - 1) as nat);
        let entry = wanted[count - 1];
        assert(entry_roles(live).contains(entry.role));
        lemma_first_index(entry_roles(live), entry.role);
    }
}

/// Diff minimality. A live category and a wanted category whose overwrites are the
/// same but for their order do not differ, so no update is called for.
pub proof fn lemma_reordered_overwrites_no_update(live: LiveCategoryModel, wanted: CategoryModel)
    requires
        distinct_overwrites::<AwaitingRole>(wanted.overwrites),
        entries::<ExistingRole>(live.overwrites).to_multiset() == entries::<AwaitingRole>(
            wanted.overwrites,
        ).to_multiset(),
    ensures
        category_diff(live, wanted) == Seq::<DiffModel>::empty(),
{
    let from = entries::<ExistingRole>(live.overwrites);
    let to = entries::<AwaitingRole>(wanted.overwrites);
    from.to_multiset_ensures();
    to.to_multiset_ensures();
    assert forall|i: int| 0 <= i < from.len() implies has_like(#[trigger] from[i], to) by {
        assert(from.contains(from[i]));
        assert(from.to_multiset().count(from[i]) > 0);
        assert(to.to_multiset().count(from[i]) > 0);
        let j = choose|j: int| 0 <= j < to.len() && to[j] == from[i];
        assert(same_entry(from[i], to[j]));
    }
    assert forall|j: int| 0 <= j < to.len() implies entry_roles(from).contains(
        (#[trigger] to[j]).role,
    ) by {
        assert(to.contains(to[j]));
        assert(to.to_multiset().count(to[j]) > 0);
        assert(from.to_multiset().count(to[j]) > 0);
        let i = choose|i: int| 0 <= i < from.len() && from[i] == to[j];
        assert(entry_roles(from)[i] == to[j].role);
    }
    lemma_same_overwrites_no_diff(from, to);
}

/// Live overwrites do not differ from themselves taken as wanted.
pub proof fn lemma_wanted_overwrites_no_diff_from_live(live: Seq<OverwriteModel<LiveRoleModel>>)
    requires
        distinct_overwrites::<ExistingRole>(live),
    ensures
        overwrites_diff(
            entries::<ExistingRole>(live),
            entries::<AwaitingRole>(wanted_overwrites(live)),
        ) == Seq::<DiffModel>::empty(),
{
    let from = entries::<ExistingRole>(live);
    let to = entries::<AwaitingRole>(wanted_overwrites(live));
    assert(from =~= to);
    assert forall|i: int| 0 <= i < from.len() implies has_like(#[trigger] from[i], to) by {
        assert(same_entry(from[i], to[i]));
    }
    assert forall|j: int| 0 <= j < to.len() implies entry_roles(from).contains(
        (#[trigger] to[j]).role,
    ) by {
        assert(entry_roles(from)[j] == to[j].role);
    }
    lemma_same_overwrites_no_diff(from, to);
}

/// A live category does not differ from itself taken as wanted.
pub proof fn lemma_wanted_category_no_diff(live: LiveCategoryModel)
    requires
        distinct_overwrites::<ExistingRole>(live.overwrites),
    ensures
        category_diff(live, wanted_category(live)) == Seq::<DiffModel>::empty(),
{
    lemma_wanted_overwrites_no_diff_from_live(live.overwrites);
}

/// A live channel does not differ from itself taken as wanted, and carries the same
/// identity key.
pub proof fn lemma_wanted_channel_no_diff(live: LiveChannelModel)
    requires
        distinct_overwrites::<ExistingRole>(live.overwrites),
    ensures
        channel_diff(live, wanted_channel(live)) == Seq::<DiffModel>::empty(),
        wanted_channel(live).key() == live.key(),
{
    lemma_wanted_overwrites_no_diff_from_live(live.overwrites);
    assert(wanted_channel(live).category_name() == live.category_name());
    assert(channel_diff(live, wanted_channel(live)) =~= Seq::<DiffModel>::empty());
}

/// A list of live roles with distinct names calls for no command when the same roles,
/// taken as wanted, are what is wanted.
pub proof fn lemma_roles_idempotence(live: Seq<LiveRoleModel>, policy: ExtraRolesStrategyType)
    requires
        distinct_roles::<ExistingRole>(live),
    ensures
        role_commands(
            live,
            RolesModel {
                items: wanted_roles(live),
                extra_items_strategy: policy,
            },
        ) == Seq::<CommandModel>::empty(),
{
    let wanted = wanted_roles(live);
    let model = RolesModel { items: wanted, extra_items_strategy: policy };
    let live_names = role_names::<ExistingRole>(live);
    let wanted_names = role_names::<AwaitingRole>(wanted);
    assert(live_names =~= wanted_names);
    assert forall|i: int| 0 <= i < wanted.len() implies (#[trigger] role_creation(
        live,
        wanted[i],
    )).len() == 0 by {
        assert(live_names[i] == wanted[i].name);
        lemma_first_index_distinct(live_names, i);
    }
    assert forall|i: int| 0 <= i < wanted.len() implies (#[trigger] role_update(
        live,
        wanted[i],
    )).len() == 0 by {
        assert(live_names[i] == wanted[i].name);
        lemma_first_index_distinct(live_names, i);
        lemma_same_role_no_diff(wanted[i]);
    }
    assert forall|i: int| 0 <= i < live.len() implies (#[trigger] role_extra(wanted, live[i])).len()
        == 0 by {
        assert(wanted_names[i] == live[i].role.name);
        lemma_first_index_distinct(wanted_names, i);
    }
    lemma_concat_map_empty(wanted, |role: RoleModel| role_creation(live, role));
    lemma_concat_map_empty(wanted, |role: RoleModel| role_update(live, role));
    lemma_concat_map_empty(live, |role: LiveRoleModel| role_extra(wanted, role));
    assert(role_deletions(live, model) =~= Seq::<CommandModel>::empty());
    assert(role_commands(live, model) =~= Seq::<CommandModel>::empty());
}

/// A list of live categories with distinct names, none of which names a role twice in
/// its overwrites, calls for no command when the same categories, taken as wanted,
/// are what is wanted.
pub proof fn lemma_categories_idempotence(
    live: Seq<LiveCategoryModel>,
    policy: ExtraCategoriesStrategyType,
)
    requires
        distinct_categories::<ExistingCategory>(live),
        forall|i: int|
            0 <= i < live.len() ==> distinct_overwrites::<ExistingRole>(
                (#[trigger] live[i]).overwrites,
            ),
    ensures
        category_commands(
            live,
            CategoriesModel {
                items: wanted_categories(live),
                extra_items_strategy: policy,
            },
        ) == Seq::<CommandModel>::empty(),
{
    let wanted = wanted_categories(live);
    let model = CategoriesModel { items: wanted, extra_items_strategy: policy };
    let live_names = category_names::<ExistingCategory>(live);
    let wanted_names = category_names::<AwaitingCategory>(wanted);
    assert(live_names =~= wanted_names);
    assert forall|i: int| 0 <= i < wanted.len() implies (#[trigger] category_creation(
        live,
        wanted[i],
    )).len() == 0 by {
        assert(live_names[i] == wanted[i].name);
        lemma_first_index_distinct(live_names, i);
    }
    assert forall|i: int| 0 <= i < wanted.len() implies (#[trigger] category_update(
        live,
        wanted[i],
    )).len() == 0 by {
        assert(live_names[i] == wanted[i].name);
        lemma_first_index_distinct(live_names, i);
        lemma_wanted_category_no_diff(live[i]);
    }
    assert forall|i: int| 0 <= i < live.len() implies (#[trigger] category_extra(
        wanted,
        live[i],
    )).len() == 0 by {
        assert(wanted_names[i] == live[i].name);
        lemma_first_index_distinct(wanted_names, i);
    }
    lemma_concat_map_empty(wanted, |category: CategoryModel| category_creation(live, category));
    lemma_concat_map_empty(wanted, |category: CategoryModel| category_update(live, category));
    lemma_concat_map_empty(live, |category: LiveCategoryModel| category_extra(wanted, category));
    assert(category_deletions(live, model) =~= Seq::<CommandModel>::empty());
    assert(category_commands(live, model) =~= Seq::<CommandModel>::empty());
}

/// Where the category of every wanted channel is one of the wanted categories, no
/// category is unresolved.
pub proof fn lemma_resolved_categories(categories: Seq<CategoryModel>, channels: Seq<ChannelModel>)
    requires
        forall|i: int|
            0 <= i < channels.len() ==> match (#[trigger] channels[i]).category_name() {
                Some(name) => wanted_category_named(categories, name).is_some(),
                None => true,
            },
    ensures
        unresolved_category(categories, channels).is_none(),
    decreases channels.len(),
{
    if channels.len() > 0 {
        let rest = channels.drop_first();
        assert forall|i: int| 0 <= i < rest.len() implies match (#[trigger] rest[i]).category_name() {
            Some(name) => wanted_category_named(categories, name).is_some(),
            None => true,
        } by {
            assert(rest[i] == channels[i + 1]);
        }
        lemma_resolved_categories(categories, rest);
    }
}

proof fn lemma_wanted_channel_keys(live: Seq<LiveChannelModel>)
    requires
        forall|i: int|
            0 <= i < live.len() ==> distinct_overwrites::<ExistingRole>(
                (#[trigger] live[i]).overwrites,
            ),
    ensures
        channel_keys::<AwaitingChannel>(
            wanted_channels(live),
        ) == channel_keys::<ExistingChannel>(live),
{
    let wanted = wanted_channels(live);
    let live_keys = channel_keys::<ExistingChannel>(live);
    let wanted_keys = channel_keys::<AwaitingChannel>(wanted);
    assert forall|i: int| 0 <= i < live.len() implies live_keys[i] == wanted_keys[i] by {
        lemma_wanted_channel_no_diff(live[i]);
    }
    assert(live_keys =~= wanted_keys);
}

proof fn lemma_wanted_channels_resolved(live: LiveGuildModel)
    requires
        live.well_formed(),
    ensures
        unresolved_category(
            wanted_guild(live).categories.items,
            wanted_guild(live).channels.items,
        ).is_none(),
{
    let wanted = wanted_guild(live);
    let channels = wanted.channels.items;
    let categories = wanted.categories.items;
    let names = category_names::<AwaitingCategory>(categories);
    assert(names =~= category_names::<ExistingCategory>(live.categories));
    assert forall|i: int| 0 <= i < channels.len() implies match (
    #[trigger] channels[i]).category_name() {
        Some(name) => wanted_category_named(categories, name).is_some(),
        None => true,
    } by {
        assert(channels[i] == wanted_channel(live.channels[i]));
        match live.channels[i].category {
            Some(category) => {
                assert(channels[i].category_name() == Some(category.name));
                lemma_first_index(names, category.name);
            },
            None => {},
        }
    }
    lemma_resolved_categories(categories, channels);
}

/// A list of live channels with distinct identity keys, none of which names a role
/// twice in its overwrites, calls for no creation and no update, and has no extra
/// channel, when the same channels, taken as wanted, are what is wanted.
pub proof fn lemma_channels_idempotence(live: Seq<LiveChannelModel>)
    requires
        distinct_channels::<ExistingChannel>(live),
        forall|i: int|
            0 <= i < live.len() ==> distinct_overwrites::<ExistingRole>(
                (#[trigger] live[i]).overwrites,
            ),
    ensures
        ({
            let wanted = wanted_channels(live);
            &&& channel_creations(live, wanted) == Seq::<ChannelChangeModel>::empty()
            &&& channel_updates(live, wanted) == Seq::<ChannelChangeModel>::empty()
            &&& extra_channels(live, wanted) == Seq::<LiveChannelModel>::empty()
        }),
{
    let wanted = wanted_channels(live);
    let live_keys = channel_keys::<ExistingChannel>(live);
    let wanted_keys = channel_keys::<AwaitingChannel>(wanted);
    lemma_wanted_channel_keys(live);
    assert forall|i: int| 0 <= i < wanted.len() implies (#[trigger] channel_creation(
        live,
        wanted[i],
    )).len() == 0 by {
        assert(wanted_keys[i] == wanted[i].key());
        lemma_first_index_distinct(live_keys, i);
    }
    assert forall|i: int| 0 <= i < wanted.len() implies (#[trigger] channel_update(
        live,
        wanted[i],
    )).len() == 0 by {
        assert(wanted_keys[i] == wanted[i].key());
        lemma_first_index_distinct(live_keys, i);
        lemma_wanted_channel_no_diff(live[i]);
    }
    assert forall|i: int| 0 <= i < live.len() implies (#[trigger] channel_extra(
        wanted,
        live[i],
    )).len() == 0 by {
        assert(live_keys[i] == live[i].key());
        lemma_first_index_distinct(wanted_keys, i);
    }
    lemma_concat_map_empty(wanted, |channel: ChannelModel| channel_creation(live, channel));
    lemma_concat_map_empty(wanted, |channel: ChannelModel| channel_update(live, channel));
    lemma_concat_map_empty(live, |channel: LiveChannelModel| channel_extra(wanted, channel));
}

/// The matcher of channels finds no change in a consistent live workspace when the
/// same workspace, taken as wanted, is what is wanted.
pub proof fn lemma_channel_changes_idempotence(live: LiveGuildModel)
    requires
        live.well_formed(),
    ensures
        channel_changes(live, wanted_guild(live)) == Ok::<Seq<ChannelChangeModel>, ErrorModel>(
            Seq::empty(),
        ),
{
    let wanted = wanted_guild(live);
    lemma_wanted_channels_resolved(live);
    lemma_channels_idempotence(live.channels);
    assert(handled_extra_channels(wanted, Seq::<LiveChannelModel>::empty()) == Ok::<
        Seq<ChannelChangeModel>,
        ErrorModel,
    >(Seq::empty()));
    assert(Seq::<ChannelChangeModel>::empty() + Seq::empty() + Seq::empty() =~= Seq::empty());
}

/// Idempotence. A consistent live workspace calls for no command when the same
/// workspace, taken as wanted, is what is wanted.
pub proof fn lemma_idempotence(live: LiveGuildModel)
    requires
        live.well_formed(),
    ensures
        guild_commands(live, wanted_guild(live)) == Ok::<Seq<CommandModel>, ErrorModel>(
            Seq::empty(),
        ),
{
    lemma_roles_idempotence(live.roles, ExtraRolesStrategyType::Remove);
    lemma_categories_idempotence(live.categories, ExtraCategoriesStrategyType::Remove);
    lemma_channel_changes_idempotence(live);
    assert(change_commands(Seq::empty()) =~= Seq::<CommandModel>::empty());
    assert(Seq::<CommandModel>::empty() + Seq::empty() + Seq::empty() =~= Seq::empty());
}

/// The identity keys of the entities that some commands are about.
pub open spec fn command_keys(commands: Seq<CommandModel>) -> Set<EntityKey> {
    commands.map_values(|command: CommandModel| command.key()).to_set()
}

/// The identity keys of the roles of some names.
pub open spec fn role_keys(names: Seq<Seq<char>>) -> Set<EntityKey> {
    names.map_values(|name: Seq<char>| EntityKey::Role(name)).to_set()
}

/// The identity keys of the categories of some names.
pub open spec fn category_keys(names: Seq<Seq<char>>) -> Set<EntityKey> {
    names.map_values(|name: Seq<char>| EntityKey::Category(name)).to_set()
}

/// The identity keys of some channels, as keys of entities.
pub open spec fn channel_entity_keys(keys: Seq<ChannelKey>) -> Set<EntityKey> {
    keys.map_values(|key: ChannelKey| EntityKey::Channel(key)).to_set()
}

/// What change detection makes of an identity key.
pub enum Outcome {
    /// Only the wanted state holds the key: the entity is created.
    Create,
    /// Both states hold the key and the entities differ: the entity is updated.
    Update,
    /// Both states hold the key and the entities do not differ: nothing is done.
    Unchanged,
    /// Only the live state holds the key: the entity is a candidate for deletion.
    Extra,
}

/// What the matcher of roles makes of a name, and nothing for a name that neither
/// state holds.
pub open spec fn role_outcome(
    live: Seq<LiveRoleModel>,
    wanted: Seq<RoleModel>,
    name: Seq<char>,
) -> Option<Outcome> {
    match wanted_role(wanted, name) {
        Some(role) => match live_role(live, name) {
            None => Some(Outcome::Create),
            Some(found) => if role_diff(found.role, role).len() > 0 {
                Some(Outcome::Update)
            } else {
                Some(Outcome::Unchanged)
            },
        },
        None => match live_role(live, name) {
            Some(_) => Some(Outcome::Extra),
            None => None,
        },
    }
}

proof fn lemma_role_key_created(live: Seq<LiveRoleModel>, wanted: Seq<RoleModel>, name: Seq<char>)
    requires
        distinct_roles::<AwaitingRole>(wanted),
    ensures
        command_keys(role_creations(live, wanted)).contains(EntityKey::Role(name))
            <==> role_outcome(live, wanted, name) == Some(Outcome::Create),
{
    let part = role_creations(live, wanted);
    let emit = |role: RoleModel| role_creation(live, role);
    let keys = part.map_values(|command: CommandModel| command.key());
    let names = role_names::<AwaitingRole>(wanted);
    lemma_first_index(names, name);
    if command_keys(part).contains(EntityKey::Role(name)) {
        let at = choose|at: int| 0 <= at < keys.len() && keys[at] == EntityKey::Role(name);
        assert(part.contains(part[at]));
        lemma_concat_map_contains(wanted, emit, part[at]);
        let i = choose|i: int|
            0 <= i < wanted.len() && #[trigger] emit(wanted[i]).contains(part[at]);
        assert(names[i] == wanted[i].name);
        lemma_first_index_distinct(names, i);
    }
    if role_outcome(live, wanted, name) == Some(Outcome::Create) {
        let i = first_index(names, name).unwrap();
        assert(names[i] == wanted[i].name);
        let command = CommandModel::AddRole(wanted[i]);
        assert(emit(wanted[i])[0] == command);
        assert(emit(wanted[i]).contains(command));
        lemma_concat_map_contains(wanted, emit, command);
        let at = choose|at: int| 0 <= at < part.len() && part[at] == command;
        assert(keys[at] == EntityKey::Role(name));
        assert(keys.contains(EntityKey::Role(name)));
    }
}

proof fn lemma_role_key_updated(live: Seq<LiveRoleModel>, wanted: Seq<RoleModel>, name: Seq<char>)
    requires
        distinct_roles::<AwaitingRole>(wanted),
    ensures
        command_keys(role_updates(live, wanted)).contains(EntityKey::Role(name)) <==> role_outcome(
            live,
            wanted,
            name,
        ) == Some(Outcome::Update),
{
    let part = role_updates(live, wanted);
    let emit = |role: RoleModel| role_update(live, role);
    let keys = part.map_values(|command: CommandModel| command.key());
    let names = role_names::<AwaitingRole>(wanted);
    let live_names = role_names::<ExistingRole>(live);
    lemma_first_index(names, name);
    lemma_first_index(live_names, name);
    if command_keys(part).contains(EntityKey::Role(name)) {
        let at = choose|at: int| 0 <= at < keys.len() && keys[at] == EntityKey::Role(name);
        assert(part.contains(part[at]));
        lemma_concat_map_contains(wanted, emit, part[at]);
        let i = choose|i: int|
            0 <= i < wanted.len() && #[trigger] emit(wanted[i]).contains(part[at]);
        assert(names[i] == wanted[i].name);
        lemma_first_index_distinct(names, i);
        lemma_first_index(live_names, wanted[i].name);
    }
    if role_outcome(live, wanted, name) == Some(Outcome::Update) {
        let i = first_index(names, name).unwrap();
        assert(names[i] == wanted[i].name);
        let found = live_role(live, name).unwrap();
        let command = CommandModel::UpdateRole(found, wanted[i], role_diff(found.role, wanted[i]));
        assert(emit(wanted[i])[0] == command);
        assert(emit(wanted[i]).contains(command));
        lemma_concat_map_contains(wanted, emit, command);
        let at = choose|at: int| 0 <= at < part.len() && part[at] == command;
        assert(live_names[first_index(live_names, name).unwrap()] == found.role.name);
        assert(keys[at] == EntityKey::Role(name));
        assert(keys.contains(EntityKey::Role(name)));
    }
}

proof fn lemma_role_key_unchanged(
    live: Seq<LiveRoleModel>,
    wanted: Seq<RoleModel>,
    name: Seq<char>,
)
    requires
        distinct_roles::<AwaitingRole>(wanted),
    ensures
        role_keys(role_names::<AwaitingRole>(unchanged_roles(live, wanted))).contains(
            EntityKey::Role(name),
        ) <==> role_outcome(live, wanted, name) == Some(Outcome::Unchanged),
{
    let part = unchanged_roles(live, wanted);
    let emit = |role: RoleModel| role_unchanged(live, role);
    let part_names = role_names::<AwaitingRole>(part);
    let keys = part_names.map_values(|name: Seq<char>| EntityKey::Role(name));
    let names = role_names::<AwaitingRole>(wanted);
    lemma_first_index(names, name);
    if role_keys(part_names).contains(EntityKey::Role(name)) {
        let at = choose|at: int| 0 <= at < keys.len() && keys[at] == EntityKey::Role(name);
        assert(part_names[at] == part[at].name);
        assert(part.contains(part[at]));
        lemma_concat_map_contains(wanted, emit, part[at]);
        let i = choose|i: int|
            0 <= i < wanted.len() && #[trigger] emit(wanted[i]).contains(part[at]);
        assert(names[i] == wanted[i].name);
        lemma_first_index_distinct(names, i);
    }
    if role_outcome(live, wanted, name) == Some(Outcome::Unchanged) {
        let i = first_index(names, name).unwrap();
        assert(names[i] == wanted[i].name);
        assert(emit(wanted[i])[0] == wanted[i]);
        assert(emit(wanted[i]).contains(wanted[i]));
        lemma_concat_map_contains(wanted, emit, wanted[i]);
        let at = choose|at: int| 0 <= at < part.len() && part[at] == wanted[i];
        assert(part_names[at] == name);
        assert(keys[at] == EntityKey::Role(name));
        assert(keys.contains(EntityKey::Role(name)));
    }
}

proof fn lemma_role_key_extra(live: Seq<LiveRoleModel>, wanted: Seq<RoleModel>, name: Seq<char>)
    ensures
        role_keys(role_names::<ExistingRole>(extra_roles(live, wanted))).contains(
            EntityKey::Role(name),
        ) <==> role_outcome(live, wanted, name) == Some(Outcome::Extra),
{
    let part = extra_roles(live, wanted);
    let emit = |role: LiveRoleModel| role_extra(wanted, role);
    let part_names = role_names::<ExistingRole>(part);
    let keys = part_names.map_values(|name: Seq<char>| EntityKey::Role(name));
    let names = role_names::<ExistingRole>(live);
    lemma_first_index(names, name);
    if role_keys(part_names).contains(EntityKey::Role(name)) {
        let at = choose|at: int| 0 <= at < keys.len() && keys[at] == EntityKey::Role(name);
        assert(part_names[at] == part[at].role.name);
        assert(part.contains(part[at]));
        lemma_concat_map_contains(live, emit, part[at]);
        let i = choose|i: int| 0 <= i < live.len() && #[trigger] emit(live[i]).contains(part[at]);
        assert(names[i] == live[i].role.name);
    }
    if role_outcome(live, wanted, name) == Some(Outcome::Extra) {
        let i = first_index(names, name).unwrap();
        assert(names[i] == live[i].role.name);
        assert(emit(live[i])[0] == live[i]);
        assert(emit(live[i]).contains(live[i]));
        lemma_concat_map_contains(live, emit, live[i]);
        let at = choose|at: int| 0 <= at < part.len() && part[at] == live[i];
        assert(part_names[at] == name);
        assert(keys[at] == EntityKey::Role(name));
        assert(keys.contains(EntityKey::Role(name)));
    }
}

/// Partition completeness, for roles. Where no two wanted roles carry the same name,
/// the names of the roles to create, of the roles to update, of the extra live roles
/// and of the unchanged roles are four sets of which no two share a name, and which
/// together hold every name of a live or a wanted role and no other.
pub proof fn lemma_roles_partition(live: Seq<LiveRoleModel>, wanted: Seq<RoleModel>)
    requires
        distinct_roles::<AwaitingRole>(wanted),
    ensures
        ({
            let created = command_keys(role_creations(live, wanted));
            let updated = command_keys(role_updates(live, wanted));
            let extra = role_keys(role_names::<ExistingRole>(extra_roles(live, wanted)));
            let unchanged = role_keys(role_names::<AwaitingRole>(unchanged_roles(live, wanted)));
            &&& created.disjoint(updated)
            &&& created.disjoint(extra)
            &&& created.disjoint(unchanged)
            &&& updated.disjoint(extra)
            &&& updated.disjoint(unchanged)
            &&& extra.disjoint(unchanged)
            &&& created + updated + extra + unchanged == role_keys(
                role_names::<ExistingRole>(live),
            ) + role_keys(role_names::<AwaitingRole>(wanted))
        }),
{
    let created = command_keys(role_creations(live, wanted));
    let updated = command_keys(role_updates(live, wanted));
    let extra = role_keys(role_names::<ExistingRole>(extra_roles(live, wanted)));
    let unchanged = role_keys(role_names::<AwaitingRole>(unchanged_roles(live, wanted)));
    let live_names = role_names::<ExistingRole>(live);
    let wanted_names = role_names::<AwaitingRole>(wanted);
    let all = role_keys(live_names) + role_keys(wanted_names);
    assert forall|key: EntityKey|
        (created.contains(key) || updated.contains(key) || extra.contains(key)
            || unchanged.contains(key) || all.contains(key)) implies (key matches EntityKey::Role(
        name,
    ) && {
        &&& created.contains(key) <==> role_outcome(live, wanted, name) == Some(Outcome::Create)
        &&& updated.contains(key) <==> role_outcome(live, wanted, name) == Some(Outcome::Update)
        &&& extra.contains(key) <==> role_outcome(live, wanted, name) == Some(Outcome::Extra)
        &&& unchanged.contains(key) <==> role_outcome(live, wanted, name) == Some(
            Outcome::Unchanged,
        )
        &&& all.contains(key) <==> role_outcome(live, wanted, name).is_some()
    }) by {
        lemma_role_key_is_role(live, wanted, key);
        let name = key->Role_0;
        lemma_role_key_created(live, wanted, name);
        lemma_role_key_updated(live, wanted, name);
        lemma_role_key_extra(live, wanted, name);
        lemma_role_key_unchanged(live, wanted, name);
        lemma_role_key_known(live, wanted, name);
    }
    assert(created.disjoint(updated));
    assert(created.disjoint(extra));
    assert(created.disjoint(unchanged));
    assert(updated.disjoint(extra));
    assert(updated.disjoint(unchanged));
    assert(extra.disjoint(unchanged));
    assert(created + updated + extra + unchanged =~= all);
}

proof fn lemma_role_key_is_role(live: Seq<LiveRoleModel>, wanted: Seq<RoleModel>, key: EntityKey)
    requires
        command_keys(role_creations(live, wanted)).contains(key) || command_keys(
            role_updates(live, wanted),
        ).contains(key) || role_keys(
            role_names::<ExistingRole>(extra_roles(live, wanted)),
        ).contains(key) || role_keys(
            role_names::<AwaitingRole>(unchanged_roles(live, wanted)),
        ).contains(key) || role_keys(role_names::<ExistingRole>(live)).contains(key) || role_keys(
            role_names::<AwaitingRole>(wanted),
        ).contains(key),
    ensures
        key is Role,
{
    let creations = role_creations(live, wanted);
    let updates = role_updates(live, wanted);
    if command_keys(creations).contains(key) {
        let keys = creations.map_values(|command: CommandModel| command.key());
        let at = choose|at: int| 0 <= at < keys.len() && keys[at] == key;
        assert(creations.contains(creations[at]));
        lemma_concat_map_contains(
            wanted,
            |role: RoleModel| role_creation(live, role),
            creations[at],
        );
    } else if command_keys(updates).contains(key) {
        let keys = updates.map_values(|command: CommandModel| command.key());
        let at = choose|at: int| 0 <= at < keys.len() && keys[at] == key;
        assert(updates.contains(updates[at]));
        lemma_concat_map_contains(wanted, |role: RoleModel| role_update(live, role), updates[at]);
    }
}

proof fn lemma_role_key_known(live: Seq<LiveRoleModel>, wanted: Seq<RoleModel>, name: Seq<char>)
    ensures
        (role_keys(role_names::<ExistingRole>(live)) + role_keys(
            role_names::<AwaitingRole>(wanted),
        )).contains(EntityKey::Role(name)) <==> role_outcome(live, wanted, name).is_some(),
{
    let live_names = role_names::<ExistingRole>(live);
    let wanted_names = role_names::<AwaitingRole>(wanted);
    let live_keys = live_names.map_values(|name: Seq<char>| EntityKey::Role(name));
    let wanted_keys = wanted_names.map_values(|name: Seq<char>| EntityKey::Role(name));
    lemma_first_index(live_names, name);
    lemma_first_index(wanted_names, name);
    if role_keys(live_names).contains(EntityKey::Role(name)) {
        let at = choose|at: int|
            0 <= at < live_keys.len() && live_keys[at] == EntityKey::Role(name);
        assert(live_names[at] == name);
    }
    if role_keys(wanted_names).contains(EntityKey::Role(name)) {
        let at = choose|at: int|
            0 <= at < wanted_keys.len() && wanted_keys[at] == EntityKey::Role(name);
        assert(wanted_names[at] == name);
    }
    if first_index(live_names, name).is_some() {
        let at = first_index(live_names, name).unwrap();
        assert(live_keys[at] == EntityKey::Role(name));
        assert(live_keys.contains(EntityKey::Role(name)));
    }
    if first_index(wanted_names, name).is_some() {
        let at = first_index(wanted_names, name).unwrap();
        assert(wanted_keys[at] == EntityKey::Role(name));
        assert(wanted_keys.contains(EntityKey::Role(name)));
    }
}

/// What the matcher of categories makes of a name, and nothing for a name that neither
/// state holds.
pub open spec fn category_outcome(
    live: Seq<LiveCategoryModel>,
    wanted: Seq<CategoryModel>,
    name: Seq<char>,
) -> Option<Outcome> {
    match wanted_category_named(wanted, name) {
        Some(category) => match live_category(live, name) {
            None => Some(Outcome::Create),
            Some(found) => if category_diff(found, category).len() > 0 {
                Some(Outcome::Update)
            } else {
                Some(Outcome::Unchanged)
            },
        },
        None => match live_category(live, name) {
            Some(_) => Some(Outcome::Extra),
            None => None,
        },
    }
}

proof fn lemma_category_key_created(
    live: Seq<LiveCategoryModel>,
    wanted: Seq<CategoryModel>,
    name: Seq<char>,
)
    requires
        distinct_categories::<AwaitingCategory>(wanted),
    ensures
        command_keys(category_creations(live, wanted)).contains(EntityKey::Category(name))
            <==> category_outcome(live, wanted, name) == Some(Outcome::Create),
{
    let part = category_creations(live, wanted);
    let emit = |category: CategoryModel| category_creation(live, category);
    let keys = part.map_values(|command: CommandModel| command.key());
    let names = category_names::<AwaitingCategory>(wanted);
    lemma_first_index(names, name);
    if command_keys(part).contains(EntityKey::Category(name)) {
        let at = choose|at: int| 0 <= at < keys.len() && keys[at] == EntityKey::Category(name);
        assert(part.contains(part[at]));
        lemma_concat_map_contains(wanted, emit, part[at]);
        let i = choose|i: int|
            0 <= i < wanted.len() && #[trigger] emit(wanted[i]).contains(part[at]);
        assert(names[i] == wanted[i].name);
        lemma_first_index_distinct(names, i);
    }
    if category_outcome(live, wanted, name) == Some(Outcome::Create) {
        let i = first_index(names, name).unwrap();
        assert(names[i] == wanted[i].name);
        let command = CommandModel::AddCategory(wanted[i]);
        assert(emit(wanted[i])[0] == command);
        assert(emit(wanted[i]).contains(command));
        lemma_concat_map_contains(wanted, emit, command);
        let at = choose|at: int| 0 <= at < part.len() && part[at] == command;
        assert(keys[at] == EntityKey::Category(name));
        assert(keys.contains(EntityKey::Category(name)));
    }
}

proof fn lemma_category_key_updated(
    live: Seq<LiveCategoryModel>,
    wanted: Seq<CategoryModel>,
    name: Seq<char>,
)
    requires
        distinct_categories::<AwaitingCategory>(wanted),
    ensures
        command_keys(category_updates(live, wanted)).contains(EntityKey::Category(name)) <==> category_outcome(
            live,
            wanted,
            name,
        ) == Some(Outcome::Update),
{
    let part = category_updates(live, wanted);
    let emit = |category: CategoryModel| category_update(live, category);
    let keys = part.map_values(|command: CommandModel| command.key());
    let names = category_names::<AwaitingCategory>(wanted);
    let live_names = category_names::<ExistingCategory>(live);
    lemma_first_index(names, name);
    lemma_first_index(live_names, name);
    if command_keys(part).contains(EntityKey::Category(name)) {
        let at = choose|at: int| 0 <= at < keys.len() && keys[at] == EntityKey::Category(name);
        assert(part.contains(part[at]));
        lemma_concat_map_contains(wanted, emit, part[at]);
        let i = choose|i: int|
            0 <= i < wanted.len() && #[trigger] emit(wanted[i]).contains(part[at]);
        assert(names[i] == wanted[i].name);
        lemma_first_index_distinct(names, i);
        lemma_first_index(live_names, wanted[i].name);
    }
    if category_outcome(live, wanted, name) == Some(Outcome::Update) {
        let i = first_index(names, name).unwrap();
        assert(names[i] == wanted[i].name);
        let found = live_category(live, name).unwrap();
        let command =
            CommandModel::UpdateCategory(found, wanted[i], category_diff(found, wanted[i]));
        assert(emit(wanted[i])[0] == command);
        assert(emit(wanted[i]).contains(command));
        lemma_concat_map_contains(wanted, emit, command);
        let at = choose|at: int| 0 <= at < part.len() && part[at] == command;
        assert(live_names[first_index(live_names, name).unwrap()] == found.name);
        assert(keys[at] == EntityKey::Category(name));
        assert(keys.contains(EntityKey::Category(name)));
    }
}

proof fn lemma_category_key_unchanged(
    live: Seq<LiveCategoryModel>,
    wanted: Seq<CategoryModel>,
    name: Seq<char>,
)
    requires
        distinct_categories::<AwaitingCategory>(wanted),
    ensures
        category_keys(category_names::<AwaitingCategory>(unchanged_categories(live, wanted))).contains(
            EntityKey::Category(name),
        ) <==> category_outcome(live, wanted, name) == Some(Outcome::Unchanged),
{
    let part = unchanged_categories(live, wanted);
    let emit = |category: CategoryModel| category_unchanged(live, category);
    let part_names = category_names::<AwaitingCategory>(part);
    let keys = part_names.map_values(|name: Seq<char>| EntityKey::Category(name));
    let names = category_names::<AwaitingCategory>(wanted);
    lemma_first_index(names, name);
    if category_keys(part_names).contains(EntityKey::Category(name)) {
        let at = choose|at: int| 0 <= at < keys.len() && keys[at] == EntityKey::Category(name);
        assert(part_names[at] == part[at].name);
        assert(part.contains(part[at]));
        lemma_concat_map_contains(wanted, emit, part[at]);
        let i = choose|i: int|
            0 <= i < wanted.len() && #[trigger] emit(wanted[i]).contains(part[at]);
        assert(names[i] == wanted[i].name);
        lemma_first_index_distinct(names, i);
    }
    if category_outcome(live, wanted, name) == Some(Outcome::Unchanged) {
        let i = first_index(names, name).unwrap();
        assert(names[i] == wanted[i].name);
        assert(emit(wanted[i])[0] == wanted[i]);
        assert(emit(wanted[i]).contains(wanted[i]));
        lemma_concat_map_contains(wanted, emit, wanted[i]);
        let at = choose|at: int| 0 <= at < part.len() && part[at] == wanted[i];
        assert(part_names[at] == name);
        assert(keys[at] == EntityKey::Category(name));
        assert(keys.contains(EntityKey::Category(name)));
    }
}

proof fn lemma_category_key_extra(
    live: Seq<LiveCategoryModel>,
    wanted: Seq<CategoryModel>,
    name: Seq<char>,
)
    ensures
        category_keys(category_names::<ExistingCategory>(extra_categories(live, wanted))).contains(
            EntityKey::Category(name),
        ) <==> category_outcome(live, wanted, name) == Some(Outcome::Extra),
{
    let part = extra_categories(live, wanted);
    let emit = |category: LiveCategoryModel| category_extra(wanted, category);
    let part_names = category_names::<ExistingCategory>(part);
    let keys = part_names.map_values(|name: Seq<char>| EntityKey::Category(name));
    let names = category_names::<ExistingCategory>(live);
    lemma_first_index(names, name);
    if category_keys(part_names).contains(EntityKey::Category(name)) {
        let at = choose|at: int| 0 <= at < keys.len() && keys[at] == EntityKey::Category(name);
        assert(part_names[at] == part[at].name);
        assert(part.contains(part[at]));
        lemma_concat_map_contains(live, emit, part[at]);
        let i = choose|i: int| 0 <= i < live.len() && #[trigger] emit(live[i]).contains(part[at]);
        assert(names[i] == live[i].name);
    }
    if category_outcome(live, wanted, name) == Some(Outcome::Extra) {
        let i = first_index(names, name).unwrap();
        assert(names[i] == live[i].name);
        assert(emit(live[i])[0] == live[i]);
        assert(emit(live[i]).contains(live[i]));
        lemma_concat_map_contains(live, emit, live[i]);
        let at = choose|at: int| 0 <= at < part.len() && part[at] == live[i];
        assert(part_names[at] == name);
        assert(keys[at] == EntityKey::Category(name));
        assert(keys.contains(EntityKey::Category(name)));
    }
}

/// Partition completeness, for categories. Where no two wanted categories carry the same name,
/// the names of the categories to create, of the categories to update, of the extra
/// live categories and of the unchanged categories are four sets of which no two share
/// a name, and which
/// together hold every name of a live or a wanted category and no other.
pub proof fn lemma_categories_partition(live: Seq<LiveCategoryModel>, wanted: Seq<CategoryModel>)
    requires
        distinct_categories::<AwaitingCategory>(wanted),
    ensures
        ({
            let created = command_keys(category_creations(live, wanted));
            let updated = command_keys(category_updates(live, wanted));
            let extra =
                category_keys(category_names::<ExistingCategory>(extra_categories(live, wanted)));
            let unchanged =
                category_keys(category_names::<AwaitingCategory>(unchanged_categories(live, wanted)));
            &&& created.disjoint(updated)
            &&& created.disjoint(extra)
            &&& created.disjoint(unchanged)
            &&& updated.disjoint(extra)
            &&& updated.disjoint(unchanged)
            &&& extra.disjoint(unchanged)
            &&& created + updated + extra + unchanged == category_keys(
                category_names::<ExistingCategory>(live),
            ) + category_keys(category_names::<AwaitingCategory>(wanted))
        }),
{
    let created = command_keys(category_creations(live, wanted));
    let updated = command_keys(category_updates(live, wanted));
    let extra = category_keys(category_names::<ExistingCategory>(extra_categories(live, wanted)));
    let unchanged =
        category_keys(category_names::<AwaitingCategory>(unchanged_categories(live, wanted)));
    let live_names = category_names::<ExistingCategory>(live);
    let wanted_names = category_names::<AwaitingCategory>(wanted);
    let all = category_keys(live_names) + category_keys(wanted_names);
    assert forall|key: EntityKey|
        (created.contains(key) || updated.contains(key) || extra.contains(key)
            || unchanged.contains(key) || all.contains(key)) implies (key matches EntityKey::Category(
        name,
    ) && {
        &&& created.contains(key) <==> category_outcome(live, wanted, name) == Some(Outcome::Create)
        &&& updated.contains(key) <==> category_outcome(live, wanted, name) == Some(Outcome::Update)
        &&& extra.contains(key) <==> category_outcome(live, wanted, name) == Some(Outcome::Extra)
        &&& unchanged.contains(key) <==> category_outcome(live, wanted, name) == Some(
            Outcome::Unchanged,
        )
        &&& all.contains(key) <==> category_outcome(live, wanted, name).is_some()
    }) by {
        lemma_category_key_is_category(live, wanted, key);
        let name = key->Category_0;
        lemma_category_key_created(live, wanted, name);
        lemma_category_key_updated(live, wanted, name);
        lemma_category_key_extra(live, wanted, name);
        lemma_category_key_unchanged(live, wanted, name);
        lemma_category_key_known(live, wanted, name);
    }
    assert(created.disjoint(updated));
    assert(created.disjoint(extra));
    assert(created.disjoint(unchanged));
    assert(updated.disjoint(extra));
    assert(updated.disjoint(unchanged));
    assert(extra.disjoint(unchanged));
    assert(created + updated + extra + unchanged =~= all);
}

proof fn lemma_category_key_is_category(
    live: Seq<LiveCategoryModel>,
    wanted: Seq<CategoryModel>,
    key: EntityKey,
)
    requires
        command_keys(category_creations(live, wanted)).contains(key) || command_keys(
            category_updates(live, wanted),
        ).contains(key) || category_keys(
            category_names::<ExistingCategory>(extra_categories(live, wanted)),
        ).contains(key) || category_keys(
            category_names::<AwaitingCategory>(unchanged_categories(live, wanted)),
        ).contains(key) || category_keys(category_names::<ExistingCategory>(live)).contains(key) || category_keys(
            category_names::<AwaitingCategory>(wanted),
        ).contains(key),
    ensures
        key is Category,
{
    let creations = category_creations(live, wanted);
    let updates = category_updates(live, wanted);
    if command_keys(creations).contains(key) {
        let keys = creations.map_values(|command: CommandModel| command.key());
        let at = choose|at: int| 0 <= at < keys.len() && keys[at] == key;
        assert(creations.contains(creations[at]));
        lemma_concat_map_contains(
            wanted,
            |category: CategoryModel| category_creation(live, category),
            creations[at],
        );
    } else if command_keys(updates).contains(key) {
        let keys = updates.map_values(|command: CommandModel| command.key());
        let at = choose|at: int| 0 <= at < keys.len() && keys[at] == key;
        assert(updates.contains(updates[at]));
        lemma_concat_map_contains(wanted, |category: CategoryModel| category_update(live, category), updates[at]);
    }
}

proof fn lemma_category_key_known(
    live: Seq<LiveCategoryModel>,
    wanted: Seq<CategoryModel>,
    name: Seq<char>,
)
    ensures
        (category_keys(category_names::<ExistingCategory>(live)) + category_keys(
            category_names::<AwaitingCategory>(wanted),
        )).contains(EntityKey::Category(name)) <==> category_outcome(live, wanted, name).is_some(),
{
    let live_names = category_names::<ExistingCategory>(live);
    let wanted_names = category_names::<AwaitingCategory>(wanted);
    let live_keys = live_names.map_values(|name: Seq<char>| EntityKey::Category(name));
    let wanted_keys = wanted_names.map_values(|name: Seq<char>| EntityKey::Category(name));
    lemma_first_index(live_names, name);
    lemma_first_index(wanted_names, name);
    if category_keys(live_names).contains(EntityKey::Category(name)) {
        let at = choose|at: int|
            0 <= at < live_keys.len() && live_keys[at] == EntityKey::Category(name);
        assert(live_names[at] == name);
    }
    if category_keys(wanted_names).contains(EntityKey::Category(name)) {
        let at = choose|at: int|
            0 <= at < wanted_keys.len() && wanted_keys[at] == EntityKey::Category(name);
        assert(wanted_names[at] == name);
    }
    if first_index(live_names, name).is_some() {
        let at = first_index(live_names, name).unwrap();
        assert(live_keys[at] == EntityKey::Category(name));
        assert(live_keys.contains(EntityKey::Category(name)));
    }
    if first_index(wanted_names, name).is_some() {
        let at = first_index(wanted_names, name).unwrap();
        assert(wanted_keys[at] == EntityKey::Category(name));
        assert(wanted_keys.contains(EntityKey::Category(name)));
    }
}

/// What the matcher of channels makes of an identity key, and nothing for a key that
/// neither state holds.
pub open spec fn channel_outcome(
    live: Seq<LiveChannelModel>,
    wanted: Seq<ChannelModel>,
    key: ChannelKey,
) -> Option<Outcome> {
    match wanted_channel_keyed(wanted, key) {
        Some(channel) => match live_channel(live, key) {
            None => Some(Outcome::Create),
            Some(found) => if channel_diff(found, channel).len() > 0 {
                Some(Outcome::Update)
            } else {
                Some(Outcome::Unchanged)
            },
        },
        None => match live_channel(live, key) {
            Some(_) => Some(Outcome::Extra),
            None => None,
        },
    }
}

proof fn lemma_channel_key_created(
    live: Seq<LiveChannelModel>,
    wanted: Seq<ChannelModel>,
    key: ChannelKey,
)
    requires
        distinct_channels::<AwaitingChannel>(wanted),
    ensures
        command_keys(change_commands(channel_creations(live, wanted))).contains(
            EntityKey::Channel(key),
        ) <==> channel_outcome(live, wanted, key) == Some(Outcome::Create),
{
    let part = channel_creations(live, wanted);
    let emit = |channel: ChannelModel| channel_creation(live, channel);
    let keys = change_commands(part).map_values(|command: CommandModel| command.key());
    let wanted_keys = channel_keys::<AwaitingChannel>(wanted);
    lemma_first_index(wanted_keys, key);
    if command_keys(change_commands(part)).contains(EntityKey::Channel(key)) {
        let at = choose|at: int| 0 <= at < keys.len() && keys[at] == EntityKey::Channel(key);
        assert(keys[at] == part[at].command().key());
        assert(part.contains(part[at]));
        lemma_concat_map_contains(wanted, emit, part[at]);
        let i = choose|i: int|
            0 <= i < wanted.len() && #[trigger] emit(wanted[i]).contains(part[at]);
        assert(wanted_keys[i] == wanted[i].key());
        lemma_first_index_distinct(wanted_keys, i);
    }
    if channel_outcome(live, wanted, key) == Some(Outcome::Create) {
        let i = first_index(wanted_keys, key).unwrap();
        assert(wanted_keys[i] == wanted[i].key());
        let change = ChannelChangeModel::Create(wanted[i]);
        assert(emit(wanted[i])[0] == change);
        assert(emit(wanted[i]).contains(change));
        lemma_concat_map_contains(wanted, emit, change);
        let at = choose|at: int| 0 <= at < part.len() && part[at] == change;
        assert(keys[at] == EntityKey::Channel(key));
        assert(keys.contains(EntityKey::Channel(key)));
    }
}

proof fn lemma_channel_key_updated(
    live: Seq<LiveChannelModel>,
    wanted: Seq<ChannelModel>,
    key: ChannelKey,
)
    requires
        distinct_channels::<AwaitingChannel>(wanted),
    ensures
        command_keys(change_commands(channel_updates(live, wanted))).contains(
            EntityKey::Channel(key),
        ) <==> channel_outcome(live, wanted, key) == Some(Outcome::Update),
{
    let part = channel_updates(live, wanted);
    let emit = |channel: ChannelModel| channel_update(live, channel);
    let keys = change_commands(part).map_values(|command: CommandModel| command.key());
    let wanted_keys = channel_keys::<AwaitingChannel>(wanted);
    let live_keys = channel_keys::<ExistingChannel>(live);
    lemma_first_index(wanted_keys, key);
    lemma_first_index(live_keys, key);
    if command_keys(change_commands(part)).contains(EntityKey::Channel(key)) {
        let at = choose|at: int| 0 <= at < keys.len() && keys[at] == EntityKey::Channel(key);
        assert(keys[at] == part[at].command().key());
        assert(part.contains(part[at]));
        lemma_concat_map_contains(wanted, emit, part[at]);
        let i = choose|i: int|
            0 <= i < wanted.len() && #[trigger] emit(wanted[i]).contains(part[at]);
        assert(wanted_keys[i] == wanted[i].key());
        lemma_first_index_distinct(wanted_keys, i);
        lemma_first_index(live_keys, wanted[i].key());
        let found = live_channel(live, wanted[i].key()).unwrap();
        assert(live_keys[first_index(live_keys, wanted[i].key()).unwrap()] == found.key());
    }
    if channel_outcome(live, wanted, key) == Some(Outcome::Update) {
        let i = first_index(wanted_keys, key).unwrap();
        assert(wanted_keys[i] == wanted[i].key());
        let found = live_channel(live, key).unwrap();
        let change = ChannelChangeModel::Update(found, wanted[i], channel_diff(found, wanted[i]));
        assert(emit(wanted[i])[0] == change);
        assert(emit(wanted[i]).contains(change));
        lemma_concat_map_contains(wanted, emit, change);
        let at = choose|at: int| 0 <= at < part.len() && part[at] == change;
        assert(live_keys[first_index(live_keys, key).unwrap()] == found.key());
        assert(keys[at] == EntityKey::Channel(key));
        assert(keys.contains(EntityKey::Channel(key)));
    }
}

proof fn lemma_channel_key_unchanged(
    live: Seq<LiveChannelModel>,
    wanted: Seq<ChannelModel>,
    key: ChannelKey,
)
    requires
        distinct_channels::<AwaitingChannel>(wanted),
    ensures
        channel_entity_keys(
            channel_keys::<AwaitingChannel>(unchanged_channels(live, wanted)),
        ).contains(EntityKey::Channel(key)) <==> channel_outcome(live, wanted, key) == Some(
            Outcome::Unchanged,
        ),
{
    let part = unchanged_channels(live, wanted);
    let emit = |channel: ChannelModel| channel_unchanged(live, channel);
    let part_keys = channel_keys::<AwaitingChannel>(part);
    let keys = part_keys.map_values(|key: ChannelKey| EntityKey::Channel(key));
    let wanted_keys = channel_keys::<AwaitingChannel>(wanted);
    lemma_first_index(wanted_keys, key);
    if channel_entity_keys(part_keys).contains(EntityKey::Channel(key)) {
        let at = choose|at: int| 0 <= at < keys.len() && keys[at] == EntityKey::Channel(key);
        assert(part_keys[at] == part[at].key());
        assert(part.contains(part[at]));
        lemma_concat_map_contains(wanted, emit, part[at]);
        let i = choose|i: int|
            0 <= i < wanted.len() && #[trigger] emit(wanted[i]).contains(part[at]);
        assert(wanted_keys[i] == wanted[i].key());
        lemma_first_index_distinct(wanted_keys, i);
    }
    if channel_outcome(live, wanted, key) == Some(Outcome::Unchanged) {
        let i = first_index(wanted_keys, key).unwrap();
        assert(wanted_keys[i] == wanted[i].key());
        assert(emit(wanted[i])[0] == wanted[i]);
        assert(emit(wanted[i]).contains(wanted[i]));
        lemma_concat_map_contains(wanted, emit, wanted[i]);
        let at = choose|at: int| 0 <= at < part.len() && part[at] == wanted[i];
        assert(part_keys[at] == key);
        assert(keys[at] == EntityKey::Channel(key));
        assert(keys.contains(EntityKey::Channel(key)));
    }
}

proof fn lemma_channel_key_extra(
    live: Seq<LiveChannelModel>,
    wanted: Seq<ChannelModel>,
    key: ChannelKey,
)
    ensures
        channel_entity_keys(
            channel_keys::<ExistingChannel>(extra_channels(live, wanted)),
        ).contains(EntityKey::Channel(key)) <==> channel_outcome(live, wanted, key) == Some(
            Outcome::Extra,
        ),
{
    let part = extra_channels(live, wanted);
    let emit = |channel: LiveChannelModel| channel_extra(wanted, channel);
    let part_keys = channel_keys::<ExistingChannel>(part);
    let keys = part_keys.map_values(|key: ChannelKey| EntityKey::Channel(key));
    let live_keys = channel_keys::<ExistingChannel>(live);
    lemma_first_index(live_keys, key);
    if channel_entity_keys(part_keys).contains(EntityKey::Channel(key)) {
        let at = choose|at: int| 0 <= at < keys.len() && keys[at] == EntityKey::Channel(key);
        assert(part_keys[at] == part[at].key());
        assert(part.contains(part[at]));
        lemma_concat_map_contains(live, emit, part[at]);
        let i = choose|i: int| 0 <= i < live.len() && #[trigger] emit(live[i]).contains(part[at]);
        assert(live_keys[i] == live[i].key());
    }
    if channel_outcome(live, wanted, key) == Some(Outcome::Extra) {
        let i = first_index(live_keys, key).unwrap();
        assert(live_keys[i] == live[i].key());
        assert(emit(live[i])[0] == live[i]);
        assert(emit(live[i]).contains(live[i]));
        lemma_concat_map_contains(live, emit, live[i]);
        let at = choose|at: int| 0 <= at < part.len() && part[at] == live[i];
        assert(part_keys[at] == key);
        assert(keys[at] == EntityKey::Channel(key));
        assert(keys.contains(EntityKey::Channel(key)));
    }
}

proof fn lemma_channel_key_is_channel(
    live: Seq<LiveChannelModel>,
    wanted: Seq<ChannelModel>,
    key: EntityKey,
)
    requires
        command_keys(change_commands(channel_creations(live, wanted))).contains(key)
            || command_keys(change_commands(channel_updates(live, wanted))).contains(key)
            || channel_entity_keys(
            channel_keys::<ExistingChannel>(extra_channels(live, wanted)),
        ).contains(key) || channel_entity_keys(
            channel_keys::<AwaitingChannel>(unchanged_channels(live, wanted)),
        ).contains(key) || channel_entity_keys(channel_keys::<ExistingChannel>(live)).contains(key)
            || channel_entity_keys(channel_keys::<AwaitingChannel>(wanted)).contains(key),
    ensures
        key is Channel,
{
    let creations = change_commands(channel_creations(live, wanted));
    let updates = change_commands(channel_updates(live, wanted));
    if command_keys(creations).contains(key) {
        let keys = creations.map_values(|command: CommandModel| command.key());
        let at = choose|at: int| 0 <= at < keys.len() && keys[at] == key;
        assert(keys[at] == channel_creations(live, wanted)[at].command().key());
    } else if command_keys(updates).contains(key) {
        let keys = updates.map_values(|command: CommandModel| command.key());
        let at = choose|at: int| 0 <= at < keys.len() && keys[at] == key;
        assert(keys[at] == channel_updates(live, wanted)[at].command().key());
    }
}

proof fn lemma_channel_key_known(
    live: Seq<LiveChannelModel>,
    wanted: Seq<ChannelModel>,
    key: ChannelKey,
)
    ensures
        (channel_entity_keys(channel_keys::<ExistingChannel>(live)) + channel_entity_keys(
            channel_keys::<AwaitingChannel>(wanted),
        )).contains(EntityKey::Channel(key)) <==> channel_outcome(live, wanted, key).is_some(),
{
    let live_keys = channel_keys::<ExistingChannel>(live);
    let wanted_keys = channel_keys::<AwaitingChannel>(wanted);
    let live_entities = live_keys.map_values(|key: ChannelKey| EntityKey::Channel(key));
    let wanted_entities = wanted_keys.map_values(|key: ChannelKey| EntityKey::Channel(key));
    lemma_first_index(live_keys, key);
    lemma_first_index(wanted_keys, key);
    if channel_entity_keys(live_keys).contains(EntityKey::Channel(key)) {
        let at = choose|at: int|
            0 <= at < live_entities.len() && live_entities[at] == EntityKey::Channel(key);
        assert(live_keys[at] == key);
    }
    if channel_entity_keys(wanted_keys).contains(EntityKey::Channel(key)) {
        let at = choose|at: int|
            0 <= at < wanted_entities.len() && wanted_entities[at] == EntityKey::Channel(key);
        assert(wanted_keys[at] == key);
    }
    if first_index(live_keys, key).is_some() {
        let at = first_index(live_keys, key).unwrap();
        assert(live_entities[at] == EntityKey::Channel(key));
        assert(live_entities.contains(EntityKey::Channel(key)));
    }
    if first_index(wanted_keys, key).is_some() {
        let at = first_index(wanted_keys, key).unwrap();
        assert(wanted_entities[at] == EntityKey::Channel(key));
        assert(wanted_entities.contains(EntityKey::Channel(key)));
    }
}

/// Partition completeness, for channels. Where no two wanted channels carry the same
/// identity key, the keys of the channels to create, of the channels to update, of the
/// extra live channels and of the unchanged channels are four sets of which no two
/// share a key, and which together hold every key of a live or a wanted channel and no
/// other. The updates meant are those that matching calls for: what a policy makes of
/// an extra channel leaves the channel among the extra ones.
pub proof fn lemma_channels_partition(live: Seq<LiveChannelModel>, wanted: Seq<ChannelModel>)
    requires
        distinct_channels::<AwaitingChannel>(wanted),
    ensures
        ({
            let created = command_keys(change_commands(channel_creations(live, wanted)));
            let updated = command_keys(change_commands(channel_updates(live, wanted)));
            let extra = channel_entity_keys(
                channel_keys::<ExistingChannel>(extra_channels(live, wanted)),
            );
            let unchanged = channel_entity_keys(
                channel_keys::<AwaitingChannel>(unchanged_channels(live, wanted)),
            );
            &&& created.disjoint(updated)
            &&& created.disjoint(extra)
            &&& created.disjoint(unchanged)
            &&& updated.disjoint(extra)
            &&& updated.disjoint(unchanged)
            &&& extra.disjoint(unchanged)
            &&& created + updated + extra + unchanged == channel_entity_keys(
                channel_keys::<ExistingChannel>(live),
            ) + channel_entity_keys(channel_keys::<AwaitingChannel>(wanted))
        }),
{
    let created = command_keys(change_commands(channel_creations(live, wanted)));
    let updated = command_keys(change_commands(channel_updates(live, wanted)));
    let extra = channel_entity_keys(channel_keys::<ExistingChannel>(extra_channels(live, wanted)));
    let unchanged = channel_entity_keys(
        channel_keys::<AwaitingChannel>(unchanged_channels(live, wanted)),
    );
    let all = channel_entity_keys(channel_keys::<ExistingChannel>(live)) + channel_entity_keys(
        channel_keys::<AwaitingChannel>(wanted),
    );
    assert forall|key: EntityKey|
        (created.contains(key) || updated.contains(key) || extra.contains(key)
            || unchanged.contains(key) || all.contains(key)) implies (
    key matches EntityKey::Channel(id) && {
        &&& created.contains(key) <==> channel_outcome(live, wanted, id) == Some(Outcome::Create)
        &&& updated.contains(key) <==> channel_outcome(live, wanted, id) == Some(Outcome::Update)
        &&& extra.contains(key) <==> channel_outcome(live, wanted, id) == Some(Outcome::Extra)
        &&& unchanged.contains(key) <==> channel_outcome(live, wanted, id) == Some(
            Outcome::Unchanged,
        )
        &&& all.contains(key) <==> channel_outcome(live, wanted, id).is_some()
    }) by {
        lemma_channel_key_is_channel(live, wanted, key);
        let id = key->Channel_0;
        lemma_channel_key_created(live, wanted, id);
        lemma_channel_key_updated(live, wanted, id);
        lemma_channel_key_extra(live, wanted, id);
        lemma_channel_key_unchanged(live, wanted, id);
        lemma_channel_key_known(live, wanted, id);
    }
    assert(created.disjoint(updated));
    assert(created.disjoint(extra));
    assert(created.disjoint(unchanged));
    assert(updated.disjoint(extra));
    assert(updated.disjoint(unchanged));
    assert(extra.disjoint(unchanged));
    assert(created + updated + extra + unchanged =~= all);
}

/// The deletions among some commands, in the same order.
pub open spec fn deletions_among(commands: Seq<CommandModel>) -> Seq<CommandModel> {
    concat_map(
        commands,
        |command: CommandModel|
            if command.is_delete() {
                seq![command]
            } else {
                Seq::empty()
            },
    )
}

proof fn lemma_no_deletions_among(commands: Seq<CommandModel>)
    requires
        forall|i: int| 0 <= i < commands.len() ==> !(#[trigger] commands[i]).is_delete(),
    ensures
        deletions_among(commands) == Seq::<CommandModel>::empty(),
{
    let emit = |command: CommandModel|
        if command.is_delete() {
            seq![command]
        } else {
            Seq::empty()
        };
    assert forall|i: int| 0 <= i < commands.len() implies (#[trigger] emit(commands[i])).len()
        == 0 by {
        assert(!commands[i].is_delete());
    }
    lemma_concat_map_empty(commands, emit);
}

proof fn lemma_all_deletions_among(commands: Seq<CommandModel>)
    requires
        forall|i: int| 0 <= i < commands.len() ==> (#[trigger] commands[i]).is_delete(),
    ensures
        deletions_among(commands) == commands,
{
    let emit = |command: CommandModel|
        if command.is_delete() {
            seq![command]
        } else {
            Seq::empty()
        };
    let each = |command: CommandModel| command;
    assert forall|i: int| 0 <= i < commands.len() implies #[trigger] emit(commands[i]) == seq![
        each(commands[i]),
    ] by {
        assert(commands[i].is_delete());
    }
    lemma_concat_map_singletons(commands, emit, each);
    assert(commands.map_values(each) =~= commands);
}

proof fn lemma_deletions_among_parts(
    first: Seq<CommandModel>,
    second: Seq<CommandModel>,
    third: Seq<CommandModel>,
)
    ensures
        deletions_among(first + second + third) == deletions_among(first) + deletions_among(second)
            + deletions_among(third),
{
    let emit = |command: CommandModel|
        if command.is_delete() {
            seq![command]
        } else {
            Seq::empty()
        };
    lemma_concat_map_add(first, second, emit);
    lemma_concat_map_add(first + second, third, emit);
}

/// What the matcher of roles gives, part by part: creations are creations of roles,
/// updates are updates of roles, and what the policy gives is deletions of roles.
pub proof fn lemma_role_commands_shape(live: Seq<LiveRoleModel>, wanted: RolesModel)
    ensures
        forall|i: int|
            0 <= i < role_creations(live, wanted.items).len() ==> (#[trigger] role_creations(
                live,
                wanted.items,
            )[i]) is AddRole,
        forall|i: int|
            0 <= i < role_updates(live, wanted.items).len() ==> (#[trigger] role_updates(
                live,
                wanted.items,
            )[i]) is UpdateRole,
        forall|i: int|
            0 <= i < role_deletions(live, wanted).len() ==> (#[trigger] role_deletions(
                live,
                wanted,
            )[i]) is DeleteRole,
{
    let creations = role_creations(live, wanted.items);
    let updates = role_updates(live, wanted.items);
    let deletions = role_deletions(live, wanted);
    assert forall|i: int| 0 <= i < creations.len() implies (#[trigger] creations[i]) is AddRole by {
        assert(creations.contains(creations[i]));
        lemma_concat_map_contains(
            wanted.items,
            |role: RoleModel| role_creation(live, role),
            creations[i],
        );
    }
    assert forall|i: int| 0 <= i < updates.len() implies (#[trigger] updates[i]) is UpdateRole by {
        assert(updates.contains(updates[i]));
        lemma_concat_map_contains(
            wanted.items,
            |role: RoleModel| role_update(live, role),
            updates[i],
        );
    }
    assert forall|i: int| 0 <= i < deletions.len() implies (#[trigger] deletions[i]) is DeleteRole by {
        assert(deletions.contains(deletions[i]));
        lemma_concat_map_contains(
            extra_roles(live, wanted.items),
            |role: LiveRoleModel| extra_role_commands(wanted.extra_items_strategy, role),
            deletions[i],
        );
    }
}

/// Policy correctness, for roles. Where extra roles are kept, no command deletes a
/// role. Where they are removed, the deletions are one for each extra live role, in
/// the order of the live roles, and no other.
pub proof fn lemma_roles_policy(live: Seq<LiveRoleModel>, wanted: RolesModel)
    ensures
        wanted.extra_items_strategy == ExtraRolesStrategyType::Keep ==> deletions_among(
            role_commands(live, wanted),
        ) == Seq::<CommandModel>::empty(),
        wanted.extra_items_strategy == ExtraRolesStrategyType::Remove ==> deletions_among(
            role_commands(live, wanted),
        ) == extra_roles(live, wanted.items).map_values(
            |role: LiveRoleModel| CommandModel::DeleteRole(role),
        ),
{
    let creations = role_creations(live, wanted.items);
    let updates = role_updates(live, wanted.items);
    let deletions = role_deletions(live, wanted);
    let extras = extra_roles(live, wanted.items);
    let emit = |role: LiveRoleModel| extra_role_commands(wanted.extra_items_strategy, role);
    lemma_role_commands_shape(live, wanted);
    lemma_no_deletions_among(creations);
    lemma_no_deletions_among(updates);
    lemma_all_deletions_among(deletions);
    lemma_deletions_among_parts(creations, updates, deletions);
    assert(Seq::<CommandModel>::empty() + Seq::<CommandModel>::empty() + deletions =~= deletions);
    if wanted.extra_items_strategy == ExtraRolesStrategyType::Keep {
        assert forall|i: int| 0 <= i < extras.len() implies (#[trigger] emit(extras[i])).len()
            == 0 by {}
        lemma_concat_map_empty(extras, emit);
    } else {
        let each = |role: LiveRoleModel| CommandModel::DeleteRole(role);
        assert forall|i: int| 0 <= i < extras.len() implies #[trigger] emit(extras[i]) == seq![
            each(extras[i]),
        ] by {}
        lemma_concat_map_singletons(extras, emit, each);
    }
}

/// What the matcher of categories gives, part by part: creations are creations of
/// categories, updates are updates of categories, and what the policy gives is
/// deletions of categories.
pub proof fn lemma_category_commands_shape(live: Seq<LiveCategoryModel>, wanted: CategoriesModel)
    ensures
        forall|i: int|
            0 <= i < category_creations(live, wanted.items).len() ==> (
            #[trigger] category_creations(live, wanted.items)[i]) is AddCategory,
        forall|i: int|
            0 <= i < category_updates(live, wanted.items).len() ==> (#[trigger] category_updates(
                live,
                wanted.items,
            )[i]) is UpdateCategory,
        forall|i: int|
            0 <= i < category_deletions(live, wanted).len() ==> (#[trigger] category_deletions(
                live,
                wanted,
            )[i]) is DeleteCategory,
{
    let creations = category_creations(live, wanted.items);
    let updates = category_updates(live, wanted.items);
    let deletions = category_deletions(live, wanted);
    assert forall|i: int| 0 <= i < creations.len() implies (
    #[trigger] creations[i]) is AddCategory by {
        assert(creations.contains(creations[i]));
        lemma_concat_map_contains(
            wanted.items,
            |category: CategoryModel| category_creation(live, category),
            creations[i],
        );
    }
    assert forall|i: int| 0 <= i < updates.len() implies (
    #[trigger] updates[i]) is UpdateCategory by {
        assert(updates.contains(updates[i]));
        lemma_concat_map_contains(
            wanted.items,
            |category: CategoryModel| category_update(live, category),
            updates[i],
        );
    }
    assert forall|i: int| 0 <= i < deletions.len() implies (
    #[trigger] deletions[i]) is DeleteCategory by {
        assert(deletions.contains(deletions[i]));
        lemma_concat_map_contains(
            extra_categories(live, wanted.items),
            |category: LiveCategoryModel|
                extra_category_commands(wanted.extra_items_strategy, category),
            deletions[i],
        );
    }
}

/// Policy correctness, for categories. Where extra categories are kept, no command
/// deletes a category. Where they are removed, the deletions are one for each extra
/// live category, in the order of the live categories, and no other.
pub proof fn lemma_categories_policy(live: Seq<LiveCategoryModel>, wanted: CategoriesModel)
    ensures
        wanted.extra_items_strategy == ExtraCategoriesStrategyType::Keep ==> deletions_among(
            category_commands(live, wanted),
        ) == Seq::<CommandModel>::empty(),
        wanted.extra_items_strategy == ExtraCategoriesStrategyType::Remove ==> deletions_among(
            category_commands(live, wanted),
        ) == extra_categories(live, wanted.items).map_values(
            |category: LiveCategoryModel| CommandModel::DeleteCategory(category),
        ),
{
    let creations = category_creations(live, wanted.items);
    let updates = category_updates(live, wanted.items);
    let deletions = category_deletions(live, wanted);
    let extras = extra_categories(live, wanted.items);
    let emit = |category: LiveCategoryModel|
        extra_category_commands(wanted.extra_items_strategy, category);
    lemma_category_commands_shape(live, wanted);
    lemma_no_deletions_among(creations);
    lemma_no_deletions_among(updates);
    lemma_all_deletions_among(deletions);
    lemma_deletions_among_parts(creations, updates, deletions);
    assert(Seq::<CommandModel>::empty() + Seq::<CommandModel>::empty() + deletions =~= deletions);
    if wanted.extra_items_strategy == ExtraCategoriesStrategyType::Keep {
        assert forall|i: int| 0 <= i < extras.len() implies (#[trigger] emit(extras[i])).len()
            == 0 by {}
        lemma_concat_map_empty(extras, emit);
    } else {
        let each = |category: LiveCategoryModel| CommandModel::DeleteCategory(category);
        assert forall|i: int| 0 <= i < extras.len() implies #[trigger] emit(extras[i]) == seq![
            each(extras[i]),
        ] by {}
        lemma_concat_map_singletons(extras, emit, each);
    }
}

/// Whether one policy decides about every extra channel: it is the policy of the
/// workspace and of every wanted category.
pub open spec fn every_channel_policy(
    wanted: GuildModel,
    policy: ExtraChannelsStrategyType,
) -> bool {
    &&& wanted.channels.extra_items_strategy == policy
    &&& forall|i: int|
        0 <= i < wanted.categories.items.len() ==> (
        #[trigger] wanted.categories.items[i]).extra_channels_strategy == policy
}

proof fn lemma_every_channel_policy(
    wanted: GuildModel,
    policy: ExtraChannelsStrategyType,
    extra: LiveChannelModel,
)
    requires
        every_channel_policy(wanted, policy),
    ensures
        extra_channel_policy(wanted, extra) == policy,
{
    match extra.category_name() {
        Some(name) => {
            lemma_first_index(category_names::<AwaitingCategory>(wanted.categories.items), name);
        },
        None => {},
    }
}

proof fn lemma_kept_extra_channels(wanted: GuildModel, extras: Seq<LiveChannelModel>)
    requires
        every_channel_policy(wanted, ExtraChannelsStrategyType::Keep),
    ensures
        handled_extra_channels(wanted, extras) == Ok::<Seq<ChannelChangeModel>, ErrorModel>(
            Seq::empty(),
        ),
    decreases extras.len(),
{
    if extras.len() > 0 {
        lemma_kept_extra_channels(wanted, extras.drop_last());
        lemma_every_channel_policy(wanted, ExtraChannelsStrategyType::Keep, extras.last());
        assert(Seq::<ChannelChangeModel>::empty() + Seq::<ChannelChangeModel>::empty()
            =~= Seq::<ChannelChangeModel>::empty());
    }
}

proof fn lemma_removed_extra_channels(wanted: GuildModel, extras: Seq<LiveChannelModel>)
    requires
        every_channel_policy(wanted, ExtraChannelsStrategyType::Remove),
    ensures
        handled_extra_channels(wanted, extras) == Ok::<Seq<ChannelChangeModel>, ErrorModel>(
            extras.map_values(|channel: LiveChannelModel| ChannelChangeModel::Delete(channel)),
        ),
    decreases extras.len(),
{
    let each = |channel: LiveChannelModel| ChannelChangeModel::Delete(channel);
    if extras.len() == 0 {
        assert(extras.map_values(each) =~= Seq::<ChannelChangeModel>::empty());
    } else {
        lemma_removed_extra_channels(wanted, extras.drop_last());
        lemma_every_channel_policy(wanted, ExtraChannelsStrategyType::Remove, extras.last());
        assert(extras.drop_last().map_values(each) + seq![
            ChannelChangeModel::Delete(extras.last()),
        ] =~= extras.map_values(each));
    }
}

/// What the matcher of channels gives by matching: creations are creations, and
/// updates are updates.
pub proof fn lemma_channel_changes_shape(live: Seq<LiveChannelModel>, wanted: Seq<ChannelModel>)
    ensures
        forall|i: int|
            0 <= i < channel_creations(live, wanted).len() ==> (#[trigger] channel_creations(
                live,
                wanted,
            )[i]) is Create,
        forall|i: int|
            0 <= i < channel_updates(live, wanted).len() ==> (#[trigger] channel_updates(
                live,
                wanted,
            )[i]) is Update,
{
    let creations = channel_creations(live, wanted);
    let updates = channel_updates(live, wanted);
    assert forall|i: int| 0 <= i < creations.len() implies (#[trigger] creations[i]) is Create by {
        assert(creations.contains(creations[i]));
        lemma_concat_map_contains(
            wanted,
            |channel: ChannelModel| channel_creation(live, channel),
            creations[i],
        );
    }
    assert forall|i: int| 0 <= i < updates.len() implies (#[trigger] updates[i]) is Update by {
        assert(updates.contains(updates[i]));
        lemma_concat_map_contains(
            wanted,
            |channel: ChannelModel| channel_update(live, channel),
            updates[i],
        );
    }
}

/// Policy correctness, for channels. Where extra channels are kept, whatever their
/// category, no command deletes a channel. Where they are removed, whatever their
/// category, the deletions are one for each extra live channel, in the order of the
/// live channels, and no other.
pub proof fn lemma_channels_policy(live: LiveGuildModel, wanted: GuildModel)
    ensures
        every_channel_policy(wanted, ExtraChannelsStrategyType::Keep) ==> (channel_commands(
            live,
            wanted,
        ) matches Ok(commands) ==> deletions_among(commands) == Seq::<CommandModel>::empty()),
        every_channel_policy(wanted, ExtraChannelsStrategyType::Remove) ==> (channel_commands(
            live,
            wanted,
        ) matches Ok(commands) ==> deletions_among(commands) == extra_channels(
            live.channels,
            wanted.channels.items,
        ).map_values(|channel: LiveChannelModel| CommandModel::DeleteChannel(channel))),
{
    let creations = channel_creations(live.channels, wanted.channels.items);
    let updates = channel_updates(live.channels, wanted.channels.items);
    let extras = extra_channels(live.channels, wanted.channels.items);
    lemma_channel_changes_shape(live.channels, wanted.channels.items);
    let first = change_commands(creations);
    let second = change_commands(updates);
    lemma_no_deletions_among(first);
    lemma_no_deletions_among(second);
    if channel_commands(live, wanted) is Ok {
        let handled = handled_extra_channels(wanted, extras)->Ok_0;
        let third = change_commands(handled);
        assert(change_commands(creations + updates + handled) =~= first + second + third);
        lemma_deletions_among_parts(first, second, third);
        if every_channel_policy(wanted, ExtraChannelsStrategyType::Keep) {
            lemma_kept_extra_channels(wanted, extras);
            assert(third =~= Seq::<CommandModel>::empty());
            lemma_no_deletions_among(third);
            assert(Seq::<CommandModel>::empty() + Seq::<CommandModel>::empty() + Seq::<
                CommandModel,
            >::empty() =~= Seq::<CommandModel>::empty());
        }
        if every_channel_policy(wanted, ExtraChannelsStrategyType::Remove) {
            lemma_removed_extra_channels(wanted, extras);
            assert(third =~= extras.map_values(
                |channel: LiveChannelModel| CommandModel::DeleteChannel(channel),
            ));
            lemma_all_deletions_among(third);
            assert(Seq::<CommandModel>::empty() + Seq::<CommandModel>::empty() + third =~= third);
        }
    }
}

/// Ordering. In the batch of a reconciliation run no command for a role stands after
/// a command for a category or a channel, and no command for a category stands after
/// a command for a channel, however each matcher orders its own commands.
pub proof fn lemma_batch_order(live: LiveGuildModel, wanted: GuildModel)
    ensures
        guild_commands(live, wanted) matches Ok(batch) ==> forall|i: int, j: int|
            0 <= i <= j < batch.len() ==> batch[i].entity().rank() <= batch[j].entity().rank(),
{
    if guild_commands(live, wanted) is Ok {
        let batch = guild_commands(live, wanted)->Ok_0;
        let roles = role_commands(live.roles, wanted.roles);
        let categories = category_commands(live.categories, wanted.categories);
        let channels = channel_commands(live, wanted)->Ok_0;
        lemma_role_commands_shape(live.roles, wanted.roles);
        lemma_category_commands_shape(live.categories, wanted.categories);
        assert forall|i: int| 0 <= i < roles.len() implies (#[trigger] roles[i]).entity()
            == CommandEntity::Role by {
            let creations = role_creations(live.roles, wanted.roles.items);
            let updates = role_updates(live.roles, wanted.roles.items);
            if i < creations.len() {
                assert(roles[i] == creations[i]);
            } else if i < creations.len() + updates.len() {
                assert(roles[i] == updates[i - creations.len()]);
            } else {
                assert(roles[i] == role_deletions(live.roles, wanted.roles)[i - creations.len()
                    - updates.len()]);
            }
        }
        assert forall|i: int| 0 <= i < categories.len() implies (#[trigger] categories[i]).entity()
            == CommandEntity::Category by {
            let creations = category_creations(live.categories, wanted.categories.items);
            let updates = category_updates(live.categories, wanted.categories.items);
            if i < creations.len() {
                assert(categories[i] == creations[i]);
            } else if i < creations.len() + updates.len() {
                assert(categories[i] == updates[i - creations.len()]);
            } else {
                assert(categories[i] == category_deletions(live.categories, wanted.categories)[i
                    - creations.len() - updates.len()]);
            }
        }
        assert forall|i: int| 0 <= i < channels.len() implies (#[trigger] channels[i]).entity()
            == CommandEntity::Channel by {
            let changes = channel_changes(live, wanted)->Ok_0;
            assert(channels[i] == changes[i].command());
        }
        assert forall|i: int, j: int| 0 <= i <= j < batch.len() implies batch[i].entity().rank()
            <= batch[j].entity().rank() by {
            if i < roles.len() {
                assert(batch[i] == roles[i]);
            } else if i < roles.len() + categories.len() {
                assert(batch[i] == categories[i - roles.len()]);
            } else {
                assert(batch[i] == channels[i - roles.len() - categories.len()]);
            }
            if j < roles.len() {
                assert(batch[j] == roles[j]);
            } else if j < roles.len() + categories.len() {
                assert(batch[j] == categories[j - roles.len()]);
            } else {
                assert(batch[j] == channels[j - roles.len() - categories.len()]);
            }
        }
    }
}

/// One step of a run: where the run stands after an event, and what it asks for.
#[verifier::opaque]
pub open spec fn stepped(run: RunModel, event: EventModel) -> (RunModel, ActionModel) {
    run.step(event)
}

/// Where a run stands after some events, one after the other.
pub open spec fn run_after(run: RunModel, events: Seq<EventModel>) -> RunModel
    decreases events.len(),
{
    if events.len() == 0 {
        run
    } else {
        stepped(run_after(run, events.drop_last()), events.last()).0
    }
}

/// The operations that a run asked to send in the course of some events, in the order
/// in which it asked.
pub open spec fn sent_during(run: RunModel, events: Seq<EventModel>) -> Seq<MutationModel>
    decreases events.len(),
{
    if events.len() == 0 {
        Seq::empty()
    } else {
        let before = sent_during(run, events.drop_last());
        match stepped(run_after(run, events.drop_last()), events.last()).1 {
            ActionModel::Execute(mutation) => before.push(mutation),
            _ => before,
        }
    }
}

/// How many commands of its batch a run has asked to send, by where it stands.
pub open spec fn sent_count(run: RunModel) -> nat {
    match run.stage {
        Stage::Applying => run.applied + 1,
        Stage::Failed => if run.commands.len() == 0 {
            0
        } else {
            run.applied + 1
        },
        Stage::Done => run.applied,
        _ => 0,
    }
}

/// The operations that carry out the commands of a batch, in the order of the batch.
pub open spec fn batch_mutations(batch: Seq<CommandModel>) -> Seq<MutationModel> {
    batch.map_values(|command: CommandModel| command.mutation())
}

spec fn orderly(run: RunModel) -> bool {
    match run.stage {
        Stage::Idle => run.commands.len() == 0,
        Stage::Diffing => run.commands.len() == 0,
        Stage::AwaitingConfirmation => run.applied == 0,
        Stage::Applying => run.applied < run.commands.len(),
        Stage::Failed => run.commands.len() == 0 || run.applied < run.commands.len(),
        Stage::Done => run.applied == 0 || run.applied == run.commands.len(),
        Stage::Aborted => true,
    }
}

spec fn orderly_step(before: RunModel, after: RunModel, action: ActionModel) -> bool {
    &&& orderly(after)
    &&& sent_count(after) <= after.commands.len()
    &&& match action {
        ActionModel::Execute(mutation) => {
            &&& after.stage == Stage::Applying
            &&& after.applied == sent_count(before)
            &&& mutation == after.commands[after.applied as int].mutation()
            &&& after.commands == before.commands || sent_count(before) == 0
        },
        _ => if after.commands == before.commands {
            sent_count(after) == sent_count(before)
        } else {
            sent_count(after) == 0 && sent_count(before) == 0
        },
    }
}

proof fn lemma_orderly_listed(before: RunModel, batch: Seq<CommandModel>)
    requires
        before.stage == Stage::Diffing,
        orderly(before),
    ensures
        orderly_step(before, before.listed(batch).0, before.listed(batch).1),
{
}

proof fn lemma_orderly_step(before: RunModel, event: EventModel)
    requires
        orderly(before),
        sent_count(before) <= before.commands.len(),
    ensures
        orderly_step(before, stepped(before, event).0, stepped(before, event).1),
{
    reveal(stepped);
    match (before.stage, event) {
        (Stage::Diffing, EventModel::Fetched(live, wanted)) => {
            match guild_commands(live, wanted) {
                Ok(batch) => {
                    lemma_orderly_listed(before, batch);
                },
                Err(_) => {},
            }
        },
        _ => {},
    }
}

/// Ordering, in the course of a run. Whatever happens outside, the operations that a
/// run asks to send are those of its batch, from the first on, in the order of the
/// batch and each once: none is passed over, and none is sent after a failure.
pub proof fn lemma_commands_sent_in_order(dry_run: bool, force: bool, events: Seq<EventModel>)
    ensures
        ({
            let run = run_after(RunModel::idle(dry_run, force), events);
            &&& sent_count(run) <= run.commands.len()
            &&& sent_during(RunModel::idle(dry_run, force), events) == batch_mutations(
                run.commands,
            ).take(sent_count(run) as int)
        }),
{
    lemma_orderly_run(dry_run, force, events);
}

proof fn lemma_orderly_run(dry_run: bool, force: bool, events: Seq<EventModel>)
    ensures
        ({
            let run = run_after(RunModel::idle(dry_run, force), events);
            &&& orderly(run)
            &&& sent_count(run) <= run.commands.len()
            &&& sent_during(RunModel::idle(dry_run, force), events) == batch_mutations(
                run.commands,
            ).take(sent_count(run) as int)
        }),
    decreases events.len(),
{
    let start = RunModel::idle(dry_run, force);
    if events.len() == 0 {
        assert(batch_mutations(start.commands).take(0) =~= Seq::<MutationModel>::empty());
    } else {
        lemma_orderly_run(dry_run, force, events.drop_last());
        let before = run_after(start, events.drop_last());
        let sent = sent_during(start, events.drop_last());
        lemma_orderly_step(before, events.last());
        let after = stepped(before, events.last()).0;
        let action = stepped(before, events.last()).1;
        let all = batch_mutations(after.commands);
        match action {
            ActionModel::Execute(mutation) => {
                assert(mutation == all[after.applied as int]);
                assert(sent =~= all.take(after.applied as int));
                assert(sent.push(mutation) =~= all.take(after.applied as int + 1));
            },
            _ => {
                if after.commands != before.commands {
                    assert(sent =~= Seq::<MutationModel>::empty());
                    assert(all.take(0) =~= Seq::<MutationModel>::empty());
                }
            },
        }
    }
}

} // verus!
