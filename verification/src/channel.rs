//! Channels, as wanted and as found live, and lists of them indexed by identity key.
//!
//! A channel is not told from the others by its name alone: the same name may stand
//! under different categories, or for channels of different kinds. The identity key
//! of a channel is the name of its category, if it has one, its own name and its kind.

use vstd::prelude::*;
use crate::category::{
    wanted_category, AwaitingCategory, CategoryModel, ExistingCategory, LiveCategoryModel,
};
use crate::diff::{
    field_diff, optional_text_diff, optional_text_diffs, push_field, text_diff, text_diffs, Diff,
    DiffModel,
};
use crate::error::{Error, ErrorModel};
use crate::extra::ExtraChannelsStrategyType;
use crate::lookup::{distinct, first_index, lemma_first_index};
use crate::overwrites::{
    entries, overwrites_diff, wanted_overwrites, OverwriteModel, PermissionsOverwritesList,
};
use crate::role::{AwaitingRole, ExistingRole, LiveRoleModel, RoleModel};
use crate::text::{copy_optional_text, same_optional_text, same_text};

verus! {

/// The kinds of channel.
#[allow(non_camel_case_types)]
#[derive(Clone, Copy, Debug, PartialEq, Eq, Structural)]
pub enum ChannelType {
    TEXT,
    VOICE,
}

impl ChannelType {
    /// The name under which the kind is written.
    pub open spec fn spec_name(self) -> Seq<char> {
        match self {
            ChannelType::TEXT => "TEXT"@,
            ChannelType::VOICE => "VOICE"@,
        }
    }

    /// The name of the kind.
    pub fn to_string(&self) -> (name: String)
        ensures
            name@ == self.spec_name(),
    {
        match self {
            ChannelType::TEXT => "TEXT".to_owned(),
            ChannelType::VOICE => "VOICE".to_owned(),
        }
    }

    /// Reads a kind from its name. A text that names no kind is refused.
    pub fn from_str(name: &str) -> (parsed: Result<ChannelType, Error>)
        ensures
            match parsed {
                Ok(kind) => kind.spec_name() == name@,
                Err(error) => {
                    &&& error@ == ErrorModel::UnknownChannelType(name@)
                    &&& forall|kind: ChannelType| kind.spec_name() != name@
                },
            },
    {
        if same_text(name, "TEXT") {
            Ok(ChannelType::TEXT)
        } else if same_text(name, "VOICE") {
            Ok(ChannelType::VOICE)
        } else {
            Err(Error::UnknownChannelType(name.to_owned()))
        }
    }
}

/// The two kinds are written differently, so a kind is read back from its name.
pub proof fn lemma_channel_type_names_differ(a: ChannelType, b: ChannelType)
    requires
        a != b,
    ensures
        a.spec_name() != b.spec_name(),
{
    reveal_strlit("TEXT");
    reveal_strlit("VOICE");
    assert("TEXT"@.len() == 4);
    assert("VOICE"@.len() == 5);
}

/// The identity key of a channel.
pub struct ChannelKey {
    pub category: Option<Seq<char>>,
    pub name: Seq<char>,
    pub channel_type: ChannelType,
}

/// A channel as it is wanted. It owns a copy of its category.
#[derive(Debug, PartialEq)]
pub struct AwaitingChannel {
    pub name: String,
    pub topic: Option<String>,
    pub channel_type: ChannelType,
    pub category: Option<AwaitingCategory>,
    pub overwrites: PermissionsOverwritesList<AwaitingRole>,
}

/// A channel as a snapshot of the server holds it.
#[derive(Debug, PartialEq)]
pub struct ExistingChannel {
    pub id: String,
    pub name: String,
    pub topic: Option<String>,
    pub channel_type: ChannelType,
    pub category: Option<ExistingCategory>,
    pub overwrites: PermissionsOverwritesList<ExistingRole>,
}

/// Mathematical counterpart of [`AwaitingChannel`].
pub struct ChannelModel {
    pub name: Seq<char>,
    pub topic: Option<Seq<char>>,
    pub channel_type: ChannelType,
    pub category: Option<CategoryModel>,
    pub overwrites: Seq<OverwriteModel<RoleModel>>,
}

/// Mathematical counterpart of [`ExistingChannel`].
pub struct LiveChannelModel {
    pub id: Seq<char>,
    pub name: Seq<char>,
    pub topic: Option<Seq<char>>,
    pub channel_type: ChannelType,
    pub category: Option<LiveCategoryModel>,
    pub overwrites: Seq<OverwriteModel<LiveRoleModel>>,
}

impl View for AwaitingChannel {
    type V = ChannelModel;

    open spec fn view(&self) -> ChannelModel {
        ChannelModel {
            name: self.name@,
            topic: self.topic.deep_view(),
            channel_type: self.channel_type,
            category: self.category.deep_view(),
            overwrites: self.overwrites@,
        }
    }
}

impl View for ExistingChannel {
    type V = LiveChannelModel;

    open spec fn view(&self) -> LiveChannelModel {
        LiveChannelModel {
            id: self.id@,
            name: self.name@,
            topic: self.topic.deep_view(),
            channel_type: self.channel_type,
            category: self.category.deep_view(),
            overwrites: self.overwrites@,
        }
    }
}

impl ChannelModel {
    /// The name of the category that the channel stands under, if any.
    pub open spec fn category_name(self) -> Option<Seq<char>> {
        match self.category {
            Some(category) => Some(category.name),
            None => None,
        }
    }

    /// The identity key of the channel.
    pub open spec fn key(self) -> ChannelKey {
        ChannelKey {
            category: self.category_name(),
            name: self.name,
            channel_type: self.channel_type,
        }
    }
}

impl LiveChannelModel {
    /// The name of the category that the channel stands under, if any.
    pub open spec fn category_name(self) -> Option<Seq<char>> {
        match self.category {
            Some(category) => Some(category.name),
            None => None,
        }
    }

    /// The identity key of the channel.
    pub open spec fn key(self) -> ChannelKey {
        ChannelKey {
            category: self.category_name(),
            name: self.name,
            channel_type: self.channel_type,
        }
    }
}

/// The name that tells a channel from all others in a message: the name of its
/// category, a colon, its own name, and its kind in brackets.
pub open spec fn unique_name_of(key: ChannelKey) -> Seq<char> {
    (match key.category {
        Some(category) => category,
        None => Seq::empty(),
    }) + ":"@ + key.name + " ("@ + key.channel_type.spec_name() + ")"@
}

/// What the two states of a channel have in common: the parts of the identity key.
pub trait Channel: View + Sized {
    /// The identity key that a channel of this state carries.
    spec fn key_of(model: Self::V) -> ChannelKey;

    /// The name of the channel.
    fn name(&self) -> (name: String)
        ensures
            name@ == Self::key_of(self@).name,
    ;

    /// The name of the category that the channel stands under, if any.
    fn category_name(&self) -> (name: Option<String>)
        ensures
            name.deep_view() == Self::key_of(self@).category,
    ;

    /// The kind of the channel.
    fn channel_type(&self) -> (kind: ChannelType)
        ensures
            kind == Self::key_of(self@).channel_type,
    ;

    /// Computes [`unique_name_of`].
    fn unique_name(&self) -> (text: String)
        ensures
            text@ == unique_name_of(Self::key_of(self@)),
    {
        let category = match self.category_name() {
            Some(name) => name,
            None => String::new(),
        };
        let name = self.name();
        let kind = self.channel_type().to_string();
        let text = category.concat(":").concat(name.as_str()).concat(" (").concat(
            kind.as_str(),
        ).concat(")");
        text
    }
}

impl Channel for AwaitingChannel {
    open spec fn key_of(model: ChannelModel) -> ChannelKey {
        model.key()
    }

    fn name(&self) -> (name: String) {
        self.name.clone()
    }

    fn category_name(&self) -> (name: Option<String>) {
        match &self.category {
            Some(category) => Some(category.name.clone()),
            None => None,
        }
    }

    fn channel_type(&self) -> (kind: ChannelType) {
        self.channel_type
    }
}

impl Channel for ExistingChannel {
    open spec fn key_of(model: LiveChannelModel) -> ChannelKey {
        model.key()
    }

    fn name(&self) -> (name: String) {
        self.name.clone()
    }

    fn category_name(&self) -> (name: Option<String>) {
        match &self.category {
            Some(category) => Some(category.name.clone()),
            None => None,
        }
    }

    fn channel_type(&self) -> (kind: ChannelType) {
        self.channel_type
    }
}

impl Clone for AwaitingChannel {
    fn clone(&self) -> (copy: Self)
        ensures
            copy@ == self@,
    {
        AwaitingChannel {
            name: self.name.clone(),
            topic: copy_optional_text(&self.topic),
            channel_type: self.channel_type,
            category: match &self.category {
                Some(category) => Some(category.clone()),
                None => None,
            },
            overwrites: self.overwrites.clone(),
        }
    }
}

impl Clone for ExistingChannel {
    fn clone(&self) -> (copy: Self)
        ensures
            copy@ == self@,
    {
        ExistingChannel {
            id: self.id.clone(),
            name: self.name.clone(),
            topic: copy_optional_text(&self.topic),
            channel_type: self.channel_type,
            category: match &self.category {
                Some(category) => Some(category.clone()),
                None => None,
            },
            overwrites: self.overwrites.clone(),
        }
    }
}

/// The differences between a live channel and the channel that is wanted, field by
/// field. Neither the name nor the identifier is a field of the comparison.
pub open spec fn channel_diff(live: LiveChannelModel, wanted: ChannelModel) -> Seq<DiffModel> {
    field_diff("topic"@, optional_text_diff(live.topic, wanted.topic)) + field_diff(
        "channel_type"@,
        text_diff(live.channel_type.spec_name(), wanted.channel_type.spec_name()),
    ) + field_diff("category"@, optional_text_diff(live.category_name(), wanted.category_name()))
        + field_diff(
        "overwrites"@,
        overwrites_diff(
            entries::<ExistingRole>(live.overwrites),
            entries::<AwaitingRole>(wanted.overwrites),
        ),
    )
}

/// A live channel, taken as wanted: the same fields, with every live entity below it
/// taken as wanted too.
pub open spec fn wanted_channel(live: LiveChannelModel) -> ChannelModel {
    ChannelModel {
        name: live.name,
        topic: live.topic,
        channel_type: live.channel_type,
        category: match live.category {
            Some(category) => Some(wanted_category(category)),
            None => None,
        },
        overwrites: wanted_overwrites(live.overwrites),
    }
}

impl ExistingChannel {
    /// Computes [`channel_diff`] against the channel that is wanted.
    pub fn diffs_with(&self, awaiting: &AwaitingChannel) -> (diffs: Vec<Diff>)
        ensures
            diffs.deep_view() == channel_diff(self@, awaiting@),
    {
        let mut all: Vec<Diff> = Vec::new();
        assert(all.deep_view() =~= Seq::empty());
        push_field(&mut all, "topic", optional_text_diffs(&self.topic, &awaiting.topic));
        let live_kind = self.channel_type.to_string();
        let wanted_kind = awaiting.channel_type.to_string();
        push_field(&mut all, "channel_type", text_diffs(live_kind.as_str(), wanted_kind.as_str()));
        let live_category = self.category_name();
        let wanted_category = awaiting.category_name();
        push_field(&mut all, "category", optional_text_diffs(&live_category, &wanted_category));
        push_field(&mut all, "overwrites", self.overwrites.diffs_with(&awaiting.overwrites));
        assert(all.deep_view() =~= channel_diff(self@, awaiting@));
        all
    }

    /// Whether the live channel is the wanted one already: the same name, and no
    /// difference in any field.
    pub fn same_as(&self, awaiting: &AwaitingChannel) -> (same: bool)
        ensures
            same == (self@.name == awaiting@.name && channel_diff(self@, awaiting@).len() == 0),
    {
        let diffs = self.diffs_with(awaiting);
        self.name == awaiting.name && diffs.len() == 0
    }

    /// The wanted channel that asks for nothing but what this live channel already is.
    pub fn to_awaiting(&self) -> (awaiting: AwaitingChannel)
        ensures
            awaiting@ == wanted_channel(self@),
    {
        AwaitingChannel {
            name: self.name.clone(),
            topic: copy_optional_text(&self.topic),
            channel_type: self.channel_type,
            category: match &self.category {
                Some(category) => Some(category.to_awaiting()),
                None => None,
            },
            overwrites: self.overwrites.to_awaiting(),
        }
    }
}

/// A list of channels. A channel is looked up by its identity key; the first channel
/// that carries the key is the one found.
#[derive(Debug, PartialEq)]
pub struct ChannelsList<C: Channel> {
    pub items: Vec<C>,
}

impl<C: Channel> View for ChannelsList<C> {
    type V = Seq<C::V>;

    open spec fn view(&self) -> Seq<C::V> {
        self.items@.map_values(|channel: C| channel@)
    }
}

/// The identity keys of some channels, in the same order.
pub open spec fn channel_keys<C: Channel>(channels: Seq<C::V>) -> Seq<ChannelKey> {
    channels.map_values(|channel: C::V| C::key_of(channel))
}

/// Whether no two channels of a list carry the same identity key.
pub open spec fn distinct_channels<C: Channel>(channels: Seq<C::V>) -> bool {
    distinct(channel_keys::<C>(channels))
}

impl<C: Channel> From<Vec<C>> for ChannelsList<C> {
    fn from(items: Vec<C>) -> (list: ChannelsList<C>) {
        ChannelsList { items }
    }
}

impl<C: Channel> vstd::std_specs::convert::FromSpecImpl<Vec<C>> for ChannelsList<C> {
    open spec fn obeys_from_spec() -> bool {
        true
    }

    open spec fn from_spec(items: Vec<C>) -> ChannelsList<C> {
        ChannelsList { items }
    }
}

impl<C: Channel> ChannelsList<C> {
    /// The first channel of a given name and kind under the category of a given name,
    /// or under no category.
    pub fn find(
        &self,
        name: &str,
        _type: ChannelType,
        category_name: Option<String>,
    ) -> (found: Option<&C>)
        ensures
            match first_index(
                channel_keys::<C>(self@),
                ChannelKey {
                    category: category_name.deep_view(),
                    name: name@,
                    channel_type: _type,
                },
            ) {
                Some(i) => found == Some(&self.items@[i]),
                None => found.is_none(),
            },
    {
        let ghost keys = channel_keys::<C>(self@);
        let ghost key = ChannelKey {
            category: category_name.deep_view(),
            name: name@,
            channel_type: _type,
        };
        let mut i: usize = 0;
        while i < self.items.len()
            invariant
                keys == channel_keys::<C>(self@),
                key == (ChannelKey {
                    category: category_name.deep_view(),
                    name: name@,
                    channel_type: _type,
                }),
                i <= self.items@.len(),
                forall|j: int| 0 <= j < i ==> keys[j] != key,
            decreases self.items@.len() - i,
        {
            let channel = &self.items[i];
            let channel_name = channel.name();
            let channel_category = channel.category_name();
            proof {
                assert(keys[i as int] == C::key_of(self.items@[i as int]@));
            }
            if same_text(channel_name.as_str(), name) && channel.channel_type() == _type
                && same_optional_text(&channel_category, &category_name) {
                proof {
                    lemma_first_index(keys, key);
                }
                return Some(channel);
            }
            i += 1;
        }
        proof {
            lemma_first_index(keys, key);
        }
        None
    }

    /// The channels of the list, in its order.
    pub fn items(&self) -> (items: &Vec<C>)
        ensures
            items == &self.items,
    {
        &self.items
    }

    /// Adds a channel at the end of the list.
    pub fn push(&mut self, channel: C)
        ensures
            final(self)@ == old(self)@.push(channel@),
    {
        self.items.push(channel);
        assert(self@ =~= old(self)@.push(channel@));
    }
}

/// The channels that are wanted, with what is to happen to live channels that are
/// not among them and that no wanted category decides about.
#[derive(Debug, PartialEq)]
pub struct AwaitingChannelsList {
    pub items: ChannelsList<AwaitingChannel>,
    pub extra_items_strategy: ExtraChannelsStrategyType,
}

/// The wanted channels and the default policy for the others.
pub struct ChannelsModel {
    pub items: Seq<ChannelModel>,
    pub extra_items_strategy: ExtraChannelsStrategyType,
}

impl View for AwaitingChannelsList {
    type V = ChannelsModel;

    open spec fn view(&self) -> ChannelsModel {
        ChannelsModel { items: self.items@, extra_items_strategy: self.extra_items_strategy }
    }
}

} // verus!
