//! Commands: one executable unit per detected change.
//!
//! A command knows what it is about, for display before anything is changed, and
//! which operation of the remote workspace carries it out. It performs nothing
//! itself: whoever runs a batch of commands sends each command's mutation, in order.

use vstd::prelude::*;
use crate::category::{AwaitingCategory, CategoryModel, ExistingCategory, LiveCategoryModel};
use crate::channel::{
    unique_name_of, AwaitingChannel, Channel, ChannelKey, ChannelModel, ExistingChannel,
    LiveChannelModel,
};
use crate::diff::{copy_diffs, Diff, DiffModel};
use crate::role::{AwaitingRole, ExistingRole, LiveRoleModel, RoleModel};

verus! {

/// The kinds of entity that a command may be about.
#[derive(Clone, Copy, Debug, PartialEq, Eq, Structural)]
pub enum CommandEntity {
    Role,
    Category,
    Channel,
}

impl CommandEntity {
    /// The place of the kind in a batch: roles come before categories, and categories
    /// before channels, since an entity is named by those that come after it.
    pub open spec fn rank(self) -> nat {
        match self {
            CommandEntity::Role => 0,
            CommandEntity::Category => 1,
            CommandEntity::Channel => 2,
        }
    }
}

/// What a command is about: the action, the kind of entity, the entity's name, and
/// for an update the differences that call for it.
#[derive(Debug, PartialEq)]
pub enum CommandDescription {
    Create(CommandEntity, String),
    Delete(CommandEntity, String),
    Update(CommandEntity, String, Vec<Diff>),
}

/// Mathematical counterpart of [`CommandDescription`].
pub enum DescriptionModel {
    Create(CommandEntity, Seq<char>),
    Delete(CommandEntity, Seq<char>),
    Update(CommandEntity, Seq<char>, Seq<DiffModel>),
}

impl View for CommandDescription {
    type V = DescriptionModel;

    open spec fn view(&self) -> DescriptionModel {
        match self {
            CommandDescription::Create(entity, name) => DescriptionModel::Create(*entity, name@),
            CommandDescription::Delete(entity, name) => DescriptionModel::Delete(*entity, name@),
            CommandDescription::Update(entity, name, diffs) => DescriptionModel::Update(
                *entity,
                name@,
                diffs.deep_view(),
            ),
        }
    }
}

impl DeepView for CommandDescription {
    type V = DescriptionModel;

    open spec fn deep_view(&self) -> DescriptionModel {
        self@
    }
}

/// An operation of the remote workspace. An entity is added from its wanted state;
/// it is updated or deleted under the identifier of its live state. An update carries
/// the whole wanted state, which replaces the live one.
#[derive(Debug, PartialEq)]
pub enum Mutation {
    AddRole(AwaitingRole),
    UpdateRole(String, AwaitingRole),
    DeleteRole(String),
    AddCategory(AwaitingCategory),
    UpdateCategory(String, AwaitingCategory),
    DeleteCategory(String),
    AddChannel(AwaitingChannel),
    UpdateChannel(String, AwaitingChannel),
    DeleteChannel(String),
}

/// Mathematical counterpart of [`Mutation`].
pub enum MutationModel {
    AddRole(RoleModel),
    UpdateRole(Seq<char>, RoleModel),
    DeleteRole(Seq<char>),
    AddCategory(CategoryModel),
    UpdateCategory(Seq<char>, CategoryModel),
    DeleteCategory(Seq<char>),
    AddChannel(ChannelModel),
    UpdateChannel(Seq<char>, ChannelModel),
    DeleteChannel(Seq<char>),
}

impl View for Mutation {
    type V = MutationModel;

    open spec fn view(&self) -> MutationModel {
        match self {
            Mutation::AddRole(role) => MutationModel::AddRole(role@),
            Mutation::UpdateRole(id, role) => MutationModel::UpdateRole(id@, role@),
            Mutation::DeleteRole(id) => MutationModel::DeleteRole(id@),
            Mutation::AddCategory(category) => MutationModel::AddCategory(category@),
            Mutation::UpdateCategory(id, category) => MutationModel::UpdateCategory(
                id@,
                category@,
            ),
            Mutation::DeleteCategory(id) => MutationModel::DeleteCategory(id@),
            Mutation::AddChannel(channel) => MutationModel::AddChannel(channel@),
            Mutation::UpdateChannel(id, channel) => MutationModel::UpdateChannel(id@, channel@),
            Mutation::DeleteChannel(id) => MutationModel::DeleteChannel(id@),
        }
    }
}

/// Mathematical counterpart of [`Command`]: a creation holds the wanted entity, an
/// update the live entity, the wanted one and their differences, a deletion the live
/// entity.
pub enum CommandModel {
    AddRole(RoleModel),
    UpdateRole(LiveRoleModel, RoleModel, Seq<DiffModel>),
    DeleteRole(LiveRoleModel),
    AddCategory(CategoryModel),
    UpdateCategory(LiveCategoryModel, CategoryModel, Seq<DiffModel>),
    DeleteCategory(LiveCategoryModel),
    AddChannel(ChannelModel),
    UpdateChannel(LiveChannelModel, ChannelModel, Seq<DiffModel>),
    DeleteChannel(LiveChannelModel),
}

/// The identity key of an entity of any kind.
pub enum EntityKey {
    Role(Seq<char>),
    Category(Seq<char>),
    Channel(ChannelKey),
}

impl CommandModel {
    /// The identity key of the entity that the command is about.
    pub open spec fn key(self) -> EntityKey {
        match self {
            CommandModel::AddRole(role) => EntityKey::Role(role.name),
            CommandModel::UpdateRole(live, _, _) => EntityKey::Role(live.role.name),
            CommandModel::DeleteRole(live) => EntityKey::Role(live.role.name),
            CommandModel::AddCategory(category) => EntityKey::Category(category.name),
            CommandModel::UpdateCategory(live, _, _) => EntityKey::Category(live.name),
            CommandModel::DeleteCategory(live) => EntityKey::Category(live.name),
            CommandModel::AddChannel(channel) => EntityKey::Channel(channel.key()),
            CommandModel::UpdateChannel(live, _, _) => EntityKey::Channel(live.key()),
            CommandModel::DeleteChannel(live) => EntityKey::Channel(live.key()),
        }
    }

    /// The kind of entity that the command is about.
    pub open spec fn entity(self) -> CommandEntity {
        match self {
            CommandModel::AddRole(_) => CommandEntity::Role,
            CommandModel::UpdateRole(_, _, _) => CommandEntity::Role,
            CommandModel::DeleteRole(_) => CommandEntity::Role,
            CommandModel::AddCategory(_) => CommandEntity::Category,
            CommandModel::UpdateCategory(_, _, _) => CommandEntity::Category,
            CommandModel::DeleteCategory(_) => CommandEntity::Category,
            CommandModel::AddChannel(_) => CommandEntity::Channel,
            CommandModel::UpdateChannel(_, _, _) => CommandEntity::Channel,
            CommandModel::DeleteChannel(_) => CommandEntity::Channel,
        }
    }

    /// Whether the command creates an entity.
    pub open spec fn is_create(self) -> bool {
        self is AddRole || self is AddCategory || self is AddChannel
    }

    /// Whether the command updates an entity.
    pub open spec fn is_update(self) -> bool {
        self is UpdateRole || self is UpdateCategory || self is UpdateChannel
    }

    /// Whether the command deletes an entity.
    pub open spec fn is_delete(self) -> bool {
        self is DeleteRole || self is DeleteCategory || self is DeleteChannel
    }

    /// What the command says of itself. A role or a category goes by its name, a
    /// channel by the name that tells it from all other channels.
    pub open spec fn description(self) -> DescriptionModel {
        match self {
            CommandModel::AddRole(role) => DescriptionModel::Create(CommandEntity::Role, role.name),
            CommandModel::UpdateRole(live, _, diffs) => DescriptionModel::Update(
                CommandEntity::Role,
                live.role.name,
                diffs,
            ),
            CommandModel::DeleteRole(live) => DescriptionModel::Delete(
                CommandEntity::Role,
                live.role.name,
            ),
            CommandModel::AddCategory(category) => DescriptionModel::Create(
                CommandEntity::Category,
                category.name,
            ),
            CommandModel::UpdateCategory(live, _, diffs) => DescriptionModel::Update(
                CommandEntity::Category,
                live.name,
                diffs,
            ),
            CommandModel::DeleteCategory(live) => DescriptionModel::Delete(
                CommandEntity::Category,
                live.name,
            ),
            CommandModel::AddChannel(channel) => DescriptionModel::Create(
                CommandEntity::Channel,
                unique_name_of(channel.key()),
            ),
            CommandModel::UpdateChannel(live, _, diffs) => DescriptionModel::Update(
                CommandEntity::Channel,
                unique_name_of(live.key()),
                diffs,
            ),
            CommandModel::DeleteChannel(live) => DescriptionModel::Delete(
                CommandEntity::Channel,
                unique_name_of(live.key()),
            ),
        }
    }

    /// The operation that carries the command out.
    pub open spec fn mutation(self) -> MutationModel {
        match self {
            CommandModel::AddRole(role) => MutationModel::AddRole(role),
            CommandModel::UpdateRole(live, wanted, _) => MutationModel::UpdateRole(live.id, wanted),
            CommandModel::DeleteRole(live) => MutationModel::DeleteRole(live.id),
            CommandModel::AddCategory(category) => MutationModel::AddCategory(category),
            CommandModel::UpdateCategory(live, wanted, _) => MutationModel::UpdateCategory(
                live.id,
                wanted,
            ),
            CommandModel::DeleteCategory(live) => MutationModel::DeleteCategory(live.id),
            CommandModel::AddChannel(channel) => MutationModel::AddChannel(channel),
            CommandModel::UpdateChannel(live, wanted, _) => MutationModel::UpdateChannel(
                live.id,
                wanted,
            ),
            CommandModel::DeleteChannel(live) => MutationModel::DeleteChannel(live.id),
        }
    }
}

/// What every command offers: a description of itself, and the operation that
/// carries it out.
pub trait GuildCommand {
    /// What the command stands for.
    spec fn model(&self) -> CommandModel;

    /// Describes the command for display. Nothing is changed by describing.
    fn describe(&self) -> (description: CommandDescription)
        ensures
            description@ == self.model().description(),
    ;

    /// The operation of the remote workspace that carries the command out.
    fn mutation(&self) -> (mutation: Mutation)
        ensures
            mutation@ == self.model().mutation(),
    ;
}

/// Creates a role from its wanted state.
#[derive(Debug, PartialEq)]
pub struct AddRole {
    pub role: AwaitingRole,
}

impl AddRole {
    pub fn new(role: AwaitingRole) -> (command: Self)
        ensures
            command.model() == CommandModel::AddRole(role@),
    {
        AddRole { role }
    }
}

impl GuildCommand for AddRole {
    open spec fn model(&self) -> CommandModel {
        CommandModel::AddRole(self.role@)
    }

    fn describe(&self) -> (description: CommandDescription) {
        CommandDescription::Create(CommandEntity::Role, self.role.name.clone())
    }

    fn mutation(&self) -> (mutation: Mutation) {
        Mutation::AddRole(self.role.clone())
    }
}

/// Replaces a live role by its wanted state. The differences that call for the update
/// are kept for display; they are not computed anew.
#[derive(Debug, PartialEq)]
pub struct UpdateRole {
    pub existing: ExistingRole,
    pub awaiting: AwaitingRole,
    pub diffs: Vec<Diff>,
}

impl UpdateRole {
    pub fn new(existing: ExistingRole, awaiting: AwaitingRole, diffs: Vec<Diff>) -> (command: Self)
        ensures
            command.model() == CommandModel::UpdateRole(existing@, awaiting@, diffs.deep_view()),
    {
        UpdateRole { existing, awaiting, diffs }
    }
}

impl GuildCommand for UpdateRole {
    open spec fn model(&self) -> CommandModel {
        CommandModel::UpdateRole(self.existing@, self.awaiting@, self.diffs.deep_view())
    }

    fn describe(&self) -> (description: CommandDescription) {
        CommandDescription::Update(
            CommandEntity::Role,
            self.existing.name.clone(),
            copy_diffs(&self.diffs),
        )
    }

    fn mutation(&self) -> (mutation: Mutation) {
        Mutation::UpdateRole(self.existing.id.clone(), self.awaiting.clone())
    }
}

/// Deletes a live role.
#[derive(Debug, PartialEq)]
pub struct DeleteRole {
    pub role: ExistingRole,
}

impl DeleteRole {
    pub fn new(role: ExistingRole) -> (command: Self)
        ensures
            command.model() == CommandModel::DeleteRole(role@),
    {
        DeleteRole { role }
    }
}

impl GuildCommand for DeleteRole {
    open spec fn model(&self) -> CommandModel {
        CommandModel::DeleteRole(self.role@)
    }

    fn describe(&self) -> (description: CommandDescription) {
        CommandDescription::Delete(CommandEntity::Role, self.role.name.clone())
    }

    fn mutation(&self) -> (mutation: Mutation) {
        Mutation::DeleteRole(self.role.id.clone())
    }
}

/// Creates a category from its wanted state.
#[derive(Debug, PartialEq)]
pub struct AddCategory {
    pub category: AwaitingCategory,
}

impl AddCategory {
    pub fn new(category: AwaitingCategory) -> (command: Self)
        ensures
            command.model() == CommandModel::AddCategory(category@),
    {
        AddCategory { category }
    }
}

impl GuildCommand for AddCategory {
    open spec fn model(&self) -> CommandModel {
        CommandModel::AddCategory(self.category@)
    }

    fn describe(&self) -> (description: CommandDescription) {
        CommandDescription::Create(CommandEntity::Category, self.category.name.clone())
    }

    fn mutation(&self) -> (mutation: Mutation) {
        Mutation::AddCategory(self.category.clone())
    }
}

/// Replaces a live category by its wanted state. The differences that call for the update
/// are kept for display; they are not computed anew.
#[derive(Debug, PartialEq)]
pub struct UpdateCategory {
    pub existing: ExistingCategory,
    pub awaiting: AwaitingCategory,
    pub diffs: Vec<Diff>,
}

impl UpdateCategory {
    pub fn new(
        existing: ExistingCategory,
        awaiting: AwaitingCategory,
        diffs: Vec<Diff>,
    ) -> (command: Self)
        ensures
            command.model() ==
                CommandModel::UpdateCategory(existing@, awaiting@, diffs.deep_view()),
    {
        UpdateCategory { existing, awaiting, diffs }
    }
}

impl GuildCommand for UpdateCategory {
    open spec fn model(&self) -> CommandModel {
        CommandModel::UpdateCategory(self.existing@, self.awaiting@, self.diffs.deep_view())
    }

    fn describe(&self) -> (description: CommandDescription) {
        CommandDescription::Update(
            CommandEntity::Category,
            self.existing.name.clone(),
            copy_diffs(&self.diffs),
        )
    }

    fn mutation(&self) -> (mutation: Mutation) {
        Mutation::UpdateCategory(self.existing.id.clone(), self.awaiting.clone())
    }
}

/// Deletes a live category.
#[derive(Debug, PartialEq)]
pub struct DeleteCategory {
    pub category: ExistingCategory,
}

impl DeleteCategory {
    pub fn new(category: ExistingCategory) -> (command: Self)
        ensures
            command.model() == CommandModel::DeleteCategory(category@),
    {
        DeleteCategory { category }
    }
}

impl GuildCommand for DeleteCategory {
    open spec fn model(&self) -> CommandModel {
        CommandModel::DeleteCategory(self.category@)
    }

    fn describe(&self) -> (description: CommandDescription) {
        CommandDescription::Delete(CommandEntity::Category, self.category.name.clone())
    }

    fn mutation(&self) -> (mutation: Mutation) {
        Mutation::DeleteCategory(self.category.id.clone())
    }
}

/// Creates a channel from its wanted state.
#[derive(Debug, PartialEq)]
pub struct AddChannel {
    pub channel: AwaitingChannel,
}

impl AddChannel {
    pub fn new(channel: AwaitingChannel) -> (command: Self)
        ensures
            command.model() == CommandModel::AddChannel(channel@),
    {
        AddChannel { channel }
    }
}

impl GuildCommand for AddChannel {
    open spec fn model(&self) -> CommandModel {
        CommandModel::AddChannel(self.channel@)
    }

    fn describe(&self) -> (description: CommandDescription) {
        CommandDescription::Create(CommandEntity::Channel, self.channel.unique_name())
    }

    fn mutation(&self) -> (mutation: Mutation) {
        Mutation::AddChannel(self.channel.clone())
    }
}

/// Replaces a live channel by its wanted state. The differences that call for the update
/// are kept for display; they are not computed anew.
#[derive(Debug, PartialEq)]
pub struct UpdateChannel {
    pub existing: ExistingChannel,
    pub awaiting: AwaitingChannel,
    pub diffs: Vec<Diff>,
}

impl UpdateChannel {
    pub fn new(
        existing: ExistingChannel,
        awaiting: AwaitingChannel,
        diffs: Vec<Diff>,
    ) -> (command: Self)
        ensures
            command.model() == CommandModel::UpdateChannel(existing@, awaiting@, diffs.deep_view()),
    {
        UpdateChannel { existing, awaiting, diffs }
    }
}

impl GuildCommand for UpdateChannel {
    open spec fn model(&self) -> CommandModel {
        CommandModel::UpdateChannel(self.existing@, self.awaiting@, self.diffs.deep_view())
    }

    fn describe(&self) -> (description: CommandDescription) {
        CommandDescription::Update(
            CommandEntity::Channel,
            self.existing.unique_name(),
            copy_diffs(&self.diffs),
        )
    }

    fn mutation(&self) -> (mutation: Mutation) {
        Mutation::UpdateChannel(self.existing.id.clone(), self.awaiting.clone())
    }
}

/// Deletes a live channel.
#[derive(Debug, PartialEq)]
pub struct DeleteChannel {
    pub channel: ExistingChannel,
}

impl DeleteChannel {
    pub fn new(channel: ExistingChannel) -> (command: Self)
        ensures
            command.model() == CommandModel::DeleteChannel(channel@),
    {
        DeleteChannel { channel }
    }
}

impl GuildCommand for DeleteChannel {
    open spec fn model(&self) -> CommandModel {
        CommandModel::DeleteChannel(self.channel@)
    }

    fn describe(&self) -> (description: CommandDescription) {
        CommandDescription::Delete(CommandEntity::Channel, self.channel.unique_name())
    }

    fn mutation(&self) -> (mutation: Mutation) {
        Mutation::DeleteChannel(self.channel.id.clone())
    }
}

/// Any command, so that commands of all shapes stand in one batch.
#[derive(Debug, PartialEq)]
pub enum Command {
    AddRole(AddRole),
    UpdateRole(UpdateRole),
    DeleteRole(DeleteRole),
    AddCategory(AddCategory),
    UpdateCategory(UpdateCategory),
    DeleteCategory(DeleteCategory),
    AddChannel(AddChannel),
    UpdateChannel(UpdateChannel),
    DeleteChannel(DeleteChannel),
}

impl GuildCommand for Command {
    open spec fn model(&self) -> CommandModel {
        match self {
            Command::AddRole(command) => command.model(),
            Command::UpdateRole(command) => command.model(),
            Command::DeleteRole(command) => command.model(),
            Command::AddCategory(command) => command.model(),
            Command::UpdateCategory(command) => command.model(),
            Command::DeleteCategory(command) => command.model(),
            Command::AddChannel(command) => command.model(),
            Command::UpdateChannel(command) => command.model(),
            Command::DeleteChannel(command) => command.model(),
        }
    }

    fn describe(&self) -> (description: CommandDescription) {
        match self {
            Command::AddRole(command) => command.describe(),
            Command::UpdateRole(command) => command.describe(),
            Command::DeleteRole(command) => command.describe(),
            Command::AddCategory(command) => command.describe(),
            Command::UpdateCategory(command) => command.describe(),
            Command::DeleteCategory(command) => command.describe(),
            Command::AddChannel(command) => command.describe(),
            Command::UpdateChannel(command) => command.describe(),
            Command::DeleteChannel(command) => command.describe(),
        }
    }

    fn mutation(&self) -> (mutation: Mutation) {
        match self {
            Command::AddRole(command) => command.mutation(),
            Command::UpdateRole(command) => command.mutation(),
            Command::DeleteRole(command) => command.mutation(),
            Command::AddCategory(command) => command.mutation(),
            Command::UpdateCategory(command) => command.mutation(),
            Command::DeleteCategory(command) => command.mutation(),
            Command::AddChannel(command) => command.mutation(),
            Command::UpdateChannel(command) => command.mutation(),
            Command::DeleteChannel(command) => command.mutation(),
        }
    }
}

impl View for Command {
    type V = CommandModel;

    open spec fn view(&self) -> CommandModel {
        self.model()
    }
}

impl DeepView for Command {
    type V = CommandModel;

    open spec fn deep_view(&self) -> CommandModel {
        self.model()
    }
}

/// A change that was detected for a channel.
#[derive(Debug, PartialEq)]
pub enum ChannelChange {
    Create(AwaitingChannel),
    Update(ExistingChannel, AwaitingChannel, Vec<Diff>),
    Delete(ExistingChannel),
}

/// Mathematical counterpart of [`ChannelChange`].
pub enum ChannelChangeModel {
    Create(ChannelModel),
    Update(LiveChannelModel, ChannelModel, Seq<DiffModel>),
    Delete(LiveChannelModel),
}

impl ChannelChangeModel {
    /// The command that carries the change out.
    pub open spec fn command(self) -> CommandModel {
        match self {
            ChannelChangeModel::Create(channel) => CommandModel::AddChannel(channel),
            ChannelChangeModel::Update(live, wanted, diffs) => CommandModel::UpdateChannel(
                live,
                wanted,
                diffs,
            ),
            ChannelChangeModel::Delete(live) => CommandModel::DeleteChannel(live),
        }
    }
}

impl View for ChannelChange {
    type V = ChannelChangeModel;

    open spec fn view(&self) -> ChannelChangeModel {
        match self {
            ChannelChange::Create(channel) => ChannelChangeModel::Create(channel@),
            ChannelChange::Update(live, wanted, diffs) => ChannelChangeModel::Update(
                live@,
                wanted@,
                diffs.deep_view(),
            ),
            ChannelChange::Delete(live) => ChannelChangeModel::Delete(live@),
        }
    }
}

impl DeepView for ChannelChange {
    type V = ChannelChangeModel;

    open spec fn deep_view(&self) -> ChannelChangeModel {
        self@
    }
}

impl ChannelChange {
    /// The command that carries the change out, built from copies of what the change
    /// holds.
    pub fn to_command(&self) -> (command: Command)
        ensures
            command@ == self@.command(),
    {
        match self {
            ChannelChange::Create(channel) => Command::AddChannel(AddChannel::new(channel.clone())),
            ChannelChange::Update(live, wanted, diffs) => Command::UpdateChannel(
                UpdateChannel::new(live.clone(), wanted.clone(), copy_diffs(diffs)),
            ),
            ChannelChange::Delete(live) => Command::DeleteChannel(
                DeleteChannel::new(live.clone()),
            ),
        }
    }

    /// The command that carries the change out.
    pub fn into_command(self) -> (command: Command)
        ensures
            command@ == self@.command(),
    {
        match self {
            ChannelChange::Create(channel) => Command::AddChannel(AddChannel::new(channel)),
            ChannelChange::Update(live, wanted, diffs) => Command::UpdateChannel(
                UpdateChannel::new(live, wanted, diffs),
            ),
            ChannelChange::Delete(live) => Command::DeleteChannel(DeleteChannel::new(live)),
        }
    }
}

} // verus!
