//! What happens to live entities that the wanted state does not mention.
//!
//! Such an entity is never deleted out of hand. It is handed to a policy, and each
//! policy is a stateless strategy: one to remove the entity, one to keep it, and, for
//! channels only, one to bring its permissions in line with its category.

use vstd::prelude::*;
use crate::category::{AwaitingCategory, CategoryModel, ExistingCategory, LiveCategoryModel};
use crate::channel::{
    channel_diff, AwaitingChannel, Channel, ChannelModel, ExistingChannel, LiveChannelModel,
};
use crate::commands::{
    ChannelChange, ChannelChangeModel, Command, CommandModel, DeleteCategory, DeleteRole,
};
use crate::error::{Error, ErrorModel};
use crate::role::{ExistingRole, LiveRoleModel};
use crate::text::copy_optional_text;

verus! {

/// The policies for a live role without a wanted counterpart.
#[derive(Clone, Copy, Debug, PartialEq, Eq, Structural)]
pub enum ExtraRolesStrategyType {
    Keep,
    Remove,
}

/// The policies for a live category without a wanted counterpart.
#[derive(Clone, Copy, Debug, PartialEq, Eq, Structural)]
pub enum ExtraCategoriesStrategyType {
    Keep,
    Remove,
}

/// The policies for a live channel without a wanted counterpart.
#[derive(Clone, Copy, Debug, PartialEq, Eq, Structural)]
pub enum ExtraChannelsStrategyType {
    Keep,
    Remove,
    OverwritePermissionsWithCategory,
}

/// The commands that a policy gives for one extra role.
pub open spec fn extra_role_commands(
    policy: ExtraRolesStrategyType,
    extra: LiveRoleModel,
) -> Seq<CommandModel> {
    match policy {
        ExtraRolesStrategyType::Keep => Seq::empty(),
        ExtraRolesStrategyType::Remove => seq![CommandModel::DeleteRole(extra)],
    }
}

/// The commands that a policy gives for one extra category.
pub open spec fn extra_category_commands(
    policy: ExtraCategoriesStrategyType,
    extra: LiveCategoryModel,
) -> Seq<CommandModel> {
    match policy {
        ExtraCategoriesStrategyType::Keep => Seq::empty(),
        ExtraCategoriesStrategyType::Remove => seq![CommandModel::DeleteCategory(extra)],
    }
}

/// The channel that an extra channel is to become when its permissions are taken from
/// a wanted category: the name, topic and kind of the live channel, under that
/// category and with the category's overwrites.
pub open spec fn synced_channel(extra: LiveChannelModel, category: CategoryModel) -> ChannelModel {
    ChannelModel {
        name: extra.name,
        topic: extra.topic,
        channel_type: extra.channel_type,
        category: Some(category),
        overwrites: category.overwrites,
    }
}

/// The changes that a policy gives for one extra channel, given the wanted category
/// that the channel stands under, if there is one. To take the permissions from a
/// category that cannot be told is a failure, never a silent omission.
pub open spec fn extra_channel_changes(
    policy: ExtraChannelsStrategyType,
    extra: LiveChannelModel,
    category: Option<CategoryModel>,
) -> Result<Seq<ChannelChangeModel>, ErrorModel> {
    match policy {
        ExtraChannelsStrategyType::Keep => Ok(Seq::empty()),
        ExtraChannelsStrategyType::Remove => Ok(seq![ChannelChangeModel::Delete(extra)]),
        ExtraChannelsStrategyType::OverwritePermissionsWithCategory => match category {
            Some(category) => Ok(
                seq![
                    ChannelChangeModel::Update(
                        extra,
                        synced_channel(extra, category),
                        channel_diff(extra, synced_channel(extra, category)),
                    ),
                ],
            ),
            None => Err(ErrorModel::MissingCategory(extra.name)),
        },
    }
}

/// A policy for extra roles.
pub trait ExtraRolesStrategy {
    /// Which policy this is.
    spec fn kind(&self) -> ExtraRolesStrategyType;

    /// Tells which policy this is.
    fn _type(&self) -> (kind: ExtraRolesStrategyType)
        ensures
            kind == self.kind(),
    ;

    /// Appends to `commands` what the policy gives for one extra role.
    fn handle_extra_role(&self, extra_role: &ExistingRole, commands: &mut Vec<Command>)
        ensures
            final(commands).deep_view() == old(commands).deep_view() + extra_role_commands(
                self.kind(),
                extra_role@,
            ),
    ;
}

/// The policy that deletes every extra role.
#[derive(Debug, PartialEq)]
pub struct RemoveExtraRoles {}

/// The policy that leaves every extra role alone.
#[derive(Debug, PartialEq)]
pub struct KeepExtraRoles {}

impl ExtraRolesStrategy for RemoveExtraRoles {
    open spec fn kind(&self) -> ExtraRolesStrategyType {
        ExtraRolesStrategyType::Remove
    }

    fn _type(&self) -> (kind: ExtraRolesStrategyType) {
        ExtraRolesStrategyType::Remove
    }

    fn handle_extra_role(&self, extra_role: &ExistingRole, commands: &mut Vec<Command>) {
        let command = DeleteRole::new(extra_role.clone());
        commands.push(Command::DeleteRole(command));
        assert(commands.deep_view() =~= old(commands).deep_view() + extra_role_commands(
            self.kind(),
            extra_role@,
        ));
    }
}

impl ExtraRolesStrategy for KeepExtraRoles {
    open spec fn kind(&self) -> ExtraRolesStrategyType {
        ExtraRolesStrategyType::Keep
    }

    fn _type(&self) -> (kind: ExtraRolesStrategyType) {
        ExtraRolesStrategyType::Keep
    }

    fn handle_extra_role(&self, _extra_role: &ExistingRole, commands: &mut Vec<Command>) {
        assert(commands.deep_view() =~= commands.deep_view() + Seq::empty());
    }
}

impl ExtraRolesStrategy for ExtraRolesStrategyType {
    open spec fn kind(&self) -> ExtraRolesStrategyType {
        *self
    }

    fn _type(&self) -> (kind: ExtraRolesStrategyType) {
        *self
    }

    fn handle_extra_role(&self, extra_role: &ExistingRole, commands: &mut Vec<Command>) {
        match self {
            ExtraRolesStrategyType::Keep => (KeepExtraRoles {  }).handle_extra_role(
                extra_role,
                commands,
            ),
            ExtraRolesStrategyType::Remove => (RemoveExtraRoles {  }).handle_extra_role(
                extra_role,
                commands,
            ),
        }
    }
}

/// A policy for extra categories.
pub trait ExtraCategoriesStrategy {
    /// Which policy this is.
    spec fn kind(&self) -> ExtraCategoriesStrategyType;

    /// Tells which policy this is.
    fn _type(&self) -> (kind: ExtraCategoriesStrategyType)
        ensures
            kind == self.kind(),
    ;

    /// Appends to `commands` what the policy gives for one extra category.
    fn handle_extra_category(&self, extra_category: &ExistingCategory, commands: &mut Vec<Command>)
        ensures
            final(commands).deep_view() == old(commands).deep_view() + extra_category_commands(
                self.kind(),
                extra_category@,
            ),
    ;
}

/// The policy that deletes every extra category.
#[derive(Debug, PartialEq)]
pub struct RemoveExtraCategories {}

/// The policy that leaves every extra category alone.
#[derive(Debug, PartialEq)]
pub struct KeepExtraCategories {}

impl ExtraCategoriesStrategy for RemoveExtraCategories {
    open spec fn kind(&self) -> ExtraCategoriesStrategyType {
        ExtraCategoriesStrategyType::Remove
    }

    fn _type(&self) -> (kind: ExtraCategoriesStrategyType) {
        ExtraCategoriesStrategyType::Remove
    }

    fn handle_extra_category(
        &self,
        extra_category: &ExistingCategory,
        commands: &mut Vec<Command>,
    ) {
        let command = DeleteCategory::new(extra_category.clone());
        commands.push(Command::DeleteCategory(command));
        assert(commands.deep_view() =~= old(commands).deep_view() + extra_category_commands(
            self.kind(),
            extra_category@,
        ));
    }
}

impl ExtraCategoriesStrategy for KeepExtraCategories {
    open spec fn kind(&self) -> ExtraCategoriesStrategyType {
        ExtraCategoriesStrategyType::Keep
    }

    fn _type(&self) -> (kind: ExtraCategoriesStrategyType) {
        ExtraCategoriesStrategyType::Keep
    }

    fn handle_extra_category(
        &self,
        _extra_category: &ExistingCategory,
        commands: &mut Vec<Command>,
    ) {
        assert(commands.deep_view() =~= commands.deep_view() + Seq::empty());
    }
}

impl ExtraCategoriesStrategy for ExtraCategoriesStrategyType {
    open spec fn kind(&self) -> ExtraCategoriesStrategyType {
        *self
    }

    fn _type(&self) -> (kind: ExtraCategoriesStrategyType) {
        *self
    }

    fn handle_extra_category(
        &self,
        extra_category: &ExistingCategory,
        commands: &mut Vec<Command>,
    ) {
        match self {
            ExtraCategoriesStrategyType::Keep => (KeepExtraCategories {  }).handle_extra_category(
                extra_category,
                commands,
            ),
            ExtraCategoriesStrategyType::Remove => (RemoveExtraCategories {
            }).handle_extra_category(extra_category, commands),
        }
    }
}

/// A policy for extra channels.
pub trait ExtraChannelsStrategy {
    /// Which policy this is.
    spec fn kind(&self) -> ExtraChannelsStrategyType;

    /// Tells which policy this is.
    fn _type(&self) -> (kind: ExtraChannelsStrategyType)
        ensures
            kind == self.kind(),
    ;

    /// Appends to `commands` what the policy gives for one extra channel, given the
    /// wanted category that the channel stands under, if there is one. On failure
    /// nothing is appended.
    fn handle_extra_channel(
        &self,
        extra_channel: &ExistingChannel,
        commands: &mut Vec<ChannelChange>,
        awaiting_category: Option<&AwaitingCategory>,
    ) -> (handled: Result<(), Error>)
        ensures
            match extra_channel_changes(
                self.kind(),
                extra_channel@,
                awaiting_category.deep_view(),
            ) {
                Ok(changes) => {
                    &&& handled.is_ok()
                    &&& final(commands).deep_view() == old(commands).deep_view() + changes
                },
                Err(error) => {
                    &&& handled matches Err(e)
                    &&& e@ == error
                    &&& final(commands).deep_view() == old(commands).deep_view()
                },
            },
    ;
}

/// The policy that deletes every extra channel.
#[derive(Debug, PartialEq)]
pub struct RemoveExtraChannels {}

/// The policy that leaves every extra channel alone.
#[derive(Debug, PartialEq)]
pub struct KeepExtraChannels {}

/// The policy that gives every extra channel the overwrites of its category.
#[derive(Debug, PartialEq)]
pub struct SyncExtraChannelsPermissions {}

impl ExtraChannelsStrategy for RemoveExtraChannels {
    open spec fn kind(&self) -> ExtraChannelsStrategyType {
        ExtraChannelsStrategyType::Remove
    }

    fn _type(&self) -> (kind: ExtraChannelsStrategyType) {
        ExtraChannelsStrategyType::Remove
    }

    fn handle_extra_channel(
        &self,
        extra_channel: &ExistingChannel,
        commands: &mut Vec<ChannelChange>,
        _awaiting_category: Option<&AwaitingCategory>,
    ) -> (handled: Result<(), Error>) {
        commands.push(ChannelChange::Delete(extra_channel.clone()));
        assert(commands.deep_view() =~= old(commands).deep_view().push(
            ChannelChangeModel::Delete(extra_channel@),
        ));
        Ok(())
    }
}

impl ExtraChannelsStrategy for KeepExtraChannels {
    open spec fn kind(&self) -> ExtraChannelsStrategyType {
        ExtraChannelsStrategyType::Keep
    }

    fn _type(&self) -> (kind: ExtraChannelsStrategyType) {
        ExtraChannelsStrategyType::Keep
    }

    fn handle_extra_channel(
        &self,
        _extra_channel: &ExistingChannel,
        commands: &mut Vec<ChannelChange>,
        _awaiting_category: Option<&AwaitingCategory>,
    ) -> (handled: Result<(), Error>) {
        assert(commands.deep_view() =~= commands.deep_view() + Seq::empty());
        Ok(())
    }
}

impl ExtraChannelsStrategy for SyncExtraChannelsPermissions {
    open spec fn kind(&self) -> ExtraChannelsStrategyType {
        ExtraChannelsStrategyType::OverwritePermissionsWithCategory
    }

    fn _type(&self) -> (kind: ExtraChannelsStrategyType) {
        ExtraChannelsStrategyType::OverwritePermissionsWithCategory
    }

    fn handle_extra_channel(
        &self,
        extra_channel: &ExistingChannel,
        commands: &mut Vec<ChannelChange>,
        awaiting_category: Option<&AwaitingCategory>,
    ) -> (handled: Result<(), Error>) {
        match awaiting_category {
            Some(category) => {
                let awaiting_channel = AwaitingChannel {
                    name: extra_channel.name(),
                    topic: copy_optional_text(&extra_channel.topic),
                    channel_type: extra_channel.channel_type,
                    category: Some(category.clone()),
                    overwrites: category.overwrites.clone(),
                };
                let diffs = extra_channel.diffs_with(&awaiting_channel);
                let change = ChannelChange::Update(extra_channel.clone(), awaiting_channel, diffs);
                commands.push(change);
                assert(commands.deep_view() =~= old(commands).deep_view().push(
                    ChannelChangeModel::Update(
                        extra_channel@,
                        synced_channel(extra_channel@, category@),
                        channel_diff(extra_channel@, synced_channel(extra_channel@, category@)),
                    ),
                ));
                Ok(())
            },
            None => Err(Error::MissingCategory(extra_channel.name())),
        }
    }
}

impl ExtraChannelsStrategy for ExtraChannelsStrategyType {
    open spec fn kind(&self) -> ExtraChannelsStrategyType {
        *self
    }

    fn _type(&self) -> (kind: ExtraChannelsStrategyType) {
        *self
    }

    fn handle_extra_channel(
        &self,
        extra_channel: &ExistingChannel,
        commands: &mut Vec<ChannelChange>,
        awaiting_category: Option<&AwaitingCategory>,
    ) -> (handled: Result<(), Error>) {
        match self {
            ExtraChannelsStrategyType::Keep => (KeepExtraChannels {  }).handle_extra_channel(
                extra_channel,
                commands,
                awaiting_category,
            ),
            ExtraChannelsStrategyType::Remove => (RemoveExtraChannels {  }).handle_extra_channel(
                extra_channel,
                commands,
                awaiting_category,
            ),
            ExtraChannelsStrategyType::OverwritePermissionsWithCategory => (
            SyncExtraChannelsPermissions {  }).handle_extra_channel(
                extra_channel,
                commands,
                awaiting_category,
            ),
        }
    }
}

} // verus!
