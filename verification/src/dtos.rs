//! Entities as the remote workspace exchanges them: identifiers in place of the
//! entities that are named, permission codes in place of lists of flags, and numbers
//! in place of colors and kinds.

use vstd::prelude::*;
use crate::category::{
    category_ids, category_names, AwaitingCategory, CategoriesList, CategoryModel,
    ExistingCategory, LiveCategoryModel,
};
use crate::changes::{live_category, live_role};
use crate::channel::{
    AwaitingChannel, ChannelModel, ChannelType, ChannelsList, ExistingChannel, LiveChannelModel,
};
use crate::error::{Error, ErrorModel};
use crate::guild::{ExistingGuild, LiveGuildModel};
use crate::lookup::{
    concat_map, first_index, lemma_concat_map_take, lemma_first_index, lemma_try_map_fails,
    lemma_try_map_take, try_map,
};
use crate::overwrites::{OverwriteModel, PermissionsOverwrite, PermissionsOverwritesList};
use crate::permission::{flags_upto, mask, Permission, PermissionsList, PERMISSIONS};
use crate::role::{
    role_ids, role_names, AwaitingRole, ExistingRole, LiveRoleModel, RoleModel, RolesList,
};
use crate::text::{
    copy_optional_text, decimal_digits, digits_value, hex_value, hexadecimal,
    hexadecimal_digits, is_hex_number, is_number, parse_hexadecimal,
};

verus! {

/// What an overwrite is attached to. Only overwrites attached to a role are handled.
#[derive(Clone, Copy, Debug, PartialEq, Eq, Structural)]
pub enum PermissionOverwriteType {
    Role,
}

impl PermissionOverwriteType {
    /// The number that the remote workspace writes for the kind.
    pub open spec fn spec_code(self) -> u8 {
        0
    }

    /// Computes [`PermissionOverwriteType::spec_code`].
    pub fn code(self) -> (code: u8)
        ensures
            code == self.spec_code(),
    {
        0
    }
}

/// An overwrite as it is sent to the remote workspace.
#[derive(Debug, PartialEq)]
pub struct PermissionOverwritesRequest {
    pub role_or_member_id: String,
    pub _type: PermissionOverwriteType,
    pub allow: String,
    pub deny: String,
}

/// An overwrite as the remote workspace answers it.
#[derive(Debug, PartialEq)]
pub struct PermissionOverwritesResponse {
    pub role_or_member_id: String,
    pub _type: u8,
    pub allow: String,
    pub deny: String,
}

/// Mathematical counterpart of [`PermissionOverwritesRequest`].
pub struct OverwriteRequestModel {
    pub role_or_member_id: Seq<char>,
    pub _type: PermissionOverwriteType,
    pub allow: Seq<char>,
    pub deny: Seq<char>,
}

/// Mathematical counterpart of [`PermissionOverwritesResponse`].
pub struct OverwriteResponseModel {
    pub role_or_member_id: Seq<char>,
    pub _type: u8,
    pub allow: Seq<char>,
    pub deny: Seq<char>,
}

impl View for PermissionOverwritesRequest {
    type V = OverwriteRequestModel;

    open spec fn view(&self) -> OverwriteRequestModel {
        OverwriteRequestModel {
            role_or_member_id: self.role_or_member_id@,
            _type: self._type,
            allow: self.allow@,
            deny: self.deny@,
        }
    }
}

impl DeepView for PermissionOverwritesRequest {
    type V = OverwriteRequestModel;

    open spec fn deep_view(&self) -> OverwriteRequestModel {
        self@
    }
}

impl DeepView for PermissionOverwritesResponse {
    type V = OverwriteResponseModel;

    open spec fn deep_view(&self) -> OverwriteResponseModel {
        self@
    }
}

impl View for PermissionOverwritesResponse {
    type V = OverwriteResponseModel;

    open spec fn view(&self) -> OverwriteResponseModel {
        OverwriteResponseModel {
            role_or_member_id: self.role_or_member_id@,
            _type: self._type,
            allow: self.allow@,
            deny: self.deny@,
        }
    }
}

/// The first live role that carries a given identifier.
pub open spec fn live_role_with_id(
    roles: Seq<LiveRoleModel>,
    id: Seq<char>,
) -> Option<LiveRoleModel> {
    match first_index(role_ids(roles), id) {
        Some(i) => Some(roles[i]),
        None => None,
    }
}

/// The overwrite that is sent for a wanted overwrite: it goes under the identifier of
/// the first live role that carries the name of the overwrite's role, with the codes
/// of the two lists. Without such a live role there is nothing to send.
pub open spec fn overwrite_request(
    overwrite: OverwriteModel<RoleModel>,
    roles: Seq<LiveRoleModel>,
) -> Result<OverwriteRequestModel, ErrorModel> {
    match live_role(roles, overwrite.role.name) {
        None => Err(ErrorModel::UnknownRole(overwrite.role.name)),
        Some(role) => Ok(
            OverwriteRequestModel {
                role_or_member_id: role.id,
                _type: PermissionOverwriteType::Role,
                allow: decimal_digits(mask(overwrite.allow)),
                deny: decimal_digits(mask(overwrite.deny)),
            },
        ),
    }
}

/// The flags that a permission code writes, and a failure for a text that is no
/// decimal number of 64 bits.
pub open spec fn code_permissions(
    code: Seq<char>,
) -> Result<Seq<crate::permission::Permission>, ErrorModel> {
    if is_number(code) && digits_value(code) <= u64::MAX {
        Ok(flags_upto(digits_value(code), PERMISSIONS as nat))
    } else {
        Err(ErrorModel::InvalidPermissionsCode(code))
    }
}

/// The live overwrite that an answered overwrite stands for. It must be attached to a
/// role, the role must be one of the live roles, by its identifier, and both codes
/// must be numbers; the first of these that fails, in this order, with the code of the
/// allowed permissions before that of the denied ones, is the failure.
pub open spec fn overwrite_of_response(
    response: OverwriteResponseModel,
    roles: Seq<LiveRoleModel>,
) -> Result<OverwriteModel<LiveRoleModel>, ErrorModel> {
    if response._type != 0 {
        Err(ErrorModel::UnsupportedOverwriteType(response._type))
    } else {
        match live_role_with_id(roles, response.role_or_member_id) {
            None => Err(ErrorModel::UnknownRoleId(response.role_or_member_id)),
            Some(role) => match code_permissions(response.allow) {
                Err(error) => Err(error),
                Ok(allow) => match code_permissions(response.deny) {
                    Err(error) => Err(error),
                    Ok(deny) => Ok(OverwriteModel { role, allow, deny }),
                },
            },
        }
    }
}

impl PermissionOverwritesRequest {
    /// Computes [`overwrite_request`].
    pub fn from(
        overwrites: &PermissionsOverwrite<AwaitingRole>,
        roles: &RolesList<ExistingRole>,
    ) -> (request: Result<Self, Error>)
        ensures
            match overwrite_request(overwrites@, roles@) {
                Ok(wanted) => request matches Ok(found) && found@ == wanted,
                Err(error) => request matches Err(e) && e@ == error,
            },
    {
        match roles.find_by_name(overwrites.role.name.as_str()) {
            None => Err(Error::UnknownRole(overwrites.role.name.clone())),
            Some(role) => {
                proof {
                    let names = role_names::<ExistingRole>(roles@);
                    lemma_first_index(names, overwrites@.role.name);
                    let at = first_index(names, overwrites@.role.name).unwrap();
                    assert(roles@[at] == roles.items@[at]@);
                }
                Ok(
                    PermissionOverwritesRequest {
                        _type: PermissionOverwriteType::Role,
                        role_or_member_id: role.id.clone(),
                        allow: overwrites.allow.code(),
                        deny: overwrites.deny.code(),
                    },
                )
            },
        }
    }
}

impl PermissionOverwritesResponse {
    /// Computes [`overwrite_of_response`].
    pub fn _try_into(
        &self,
        roles: &RolesList<ExistingRole>,
    ) -> (overwrite: Result<PermissionsOverwrite<ExistingRole>, Error>)
        ensures
            match overwrite_of_response(self@, roles@) {
                Ok(wanted) => overwrite matches Ok(found) && found@ == wanted,
                Err(error) => overwrite matches Err(e) && e@ == error,
            },
    {
        if self._type != 0 {
            return Err(Error::UnsupportedOverwriteType(self._type));
        }
        match roles.find_by_id(self.role_or_member_id.as_str()) {
            None => Err(Error::UnknownRoleId(self.role_or_member_id.clone())),
            Some(role) => {
                proof {
                    let ids = role_ids(roles@);
                    lemma_first_index(ids, self.role_or_member_id@);
                    let at = first_index(ids, self.role_or_member_id@).unwrap();
                    assert(roles@[at] == roles.items@[at]@);
                }
                match PermissionsList::from_code(self.allow.as_str()) {
                    Err(error) => Err(error),
                    Ok(allow) => match PermissionsList::from_code(self.deny.as_str()) {
                        Err(error) => Err(error),
                        Ok(deny) => Ok(PermissionsOverwrite { role: role.clone(), allow, deny }),
                    },
                }
            },
        }
    }
}

/// The number that the remote workspace writes for a channel of text.
pub const TEXT_CHANNEL: u8 = 0;

/// The number that the remote workspace writes for a channel of voice.
pub const VOICE_CHANNEL: u8 = 2;

/// The number that the remote workspace writes for a category, which it holds as a
/// channel of a kind of its own.
pub const CATEGORY_CHANNEL: u8 = 4;

/// A role as it is sent to the remote workspace.
#[derive(Debug, PartialEq)]
pub struct RoleRequest {
    pub name: String,
    pub permissions: String,
    pub color: Option<u32>,
    pub hoist: bool,
    pub mentionable: bool,
}

/// A role as the remote workspace answers it.
#[derive(Debug, PartialEq)]
pub struct RoleResponse {
    pub id: String,
    pub name: String,
    pub permissions: String,
    pub color: u32,
    pub hoist: bool,
    pub mentionable: bool,
}

/// A channel or a category as it is sent to the remote workspace.
#[derive(Debug, PartialEq)]
pub struct ChannelRequest {
    pub name: String,
    pub _type: u8,
    pub topic: Option<String>,
    pub parent_id: Option<String>,
    pub permission_overwrites: Vec<PermissionOverwritesRequest>,
}

/// A channel or a category as the remote workspace answers it.
#[derive(Debug, PartialEq)]
pub struct ChannelResponse {
    pub id: String,
    pub name: String,
    pub _type: u8,
    pub topic: Option<String>,
    pub parent_id: Option<String>,
    pub permission_overwrites: Vec<PermissionOverwritesResponse>,
}

/// Mathematical counterpart of [`RoleRequest`].
pub struct RoleRequestModel {
    pub name: Seq<char>,
    pub permissions: Seq<char>,
    pub color: Option<u32>,
    pub hoist: bool,
    pub mentionable: bool,
}

/// Mathematical counterpart of [`RoleResponse`].
pub struct RoleResponseModel {
    pub id: Seq<char>,
    pub name: Seq<char>,
    pub permissions: Seq<char>,
    pub color: u32,
    pub hoist: bool,
    pub mentionable: bool,
}

/// Mathematical counterpart of [`ChannelRequest`].
pub struct ChannelRequestModel {
    pub name: Seq<char>,
    pub _type: u8,
    pub topic: Option<Seq<char>>,
    pub parent_id: Option<Seq<char>>,
    pub permission_overwrites: Seq<OverwriteRequestModel>,
}

/// Mathematical counterpart of [`ChannelResponse`].
pub struct ChannelResponseModel {
    pub id: Seq<char>,
    pub name: Seq<char>,
    pub _type: u8,
    pub topic: Option<Seq<char>>,
    pub parent_id: Option<Seq<char>>,
    pub permission_overwrites: Seq<OverwriteResponseModel>,
}

impl View for RoleRequest {
    type V = RoleRequestModel;

    open spec fn view(&self) -> RoleRequestModel {
        RoleRequestModel {
            name: self.name@,
            permissions: self.permissions@,
            color: self.color,
            hoist: self.hoist,
            mentionable: self.mentionable,
        }
    }
}

impl DeepView for RoleResponse {
    type V = RoleResponseModel;

    open spec fn deep_view(&self) -> RoleResponseModel {
        RoleResponseModel {
            id: self.id@,
            name: self.name@,
            permissions: self.permissions@,
            color: self.color,
            hoist: self.hoist,
            mentionable: self.mentionable,
        }
    }
}

impl View for RoleResponse {
    type V = RoleResponseModel;

    open spec fn view(&self) -> RoleResponseModel {
        self.deep_view()
    }
}

impl View for ChannelRequest {
    type V = ChannelRequestModel;

    open spec fn view(&self) -> ChannelRequestModel {
        ChannelRequestModel {
            name: self.name@,
            _type: self._type,
            topic: self.topic.deep_view(),
            parent_id: self.parent_id.deep_view(),
            permission_overwrites: self.permission_overwrites.deep_view(),
        }
    }
}

impl DeepView for ChannelResponse {
    type V = ChannelResponseModel;

    open spec fn deep_view(&self) -> ChannelResponseModel {
        ChannelResponseModel {
            id: self.id@,
            name: self.name@,
            _type: self._type,
            topic: self.topic.deep_view(),
            parent_id: self.parent_id.deep_view(),
            permission_overwrites: self.permission_overwrites.deep_view(),
        }
    }
}

impl View for ChannelResponse {
    type V = ChannelResponseModel;

    open spec fn view(&self) -> ChannelResponseModel {
        self.deep_view()
    }
}

/// The digits of a color as it is written: what follows the hash sign, where the color
/// begins with one.
pub open spec fn color_digits(text: Seq<char>) -> Seq<char> {
    if text.len() > 0 && text[0] == '#' {
        text.subrange(1, text.len() as int)
    } else {
        text
    }
}

/// The number of a color: none for no color, and the value of its one to six
/// hexadecimal digits else. A color that is written otherwise is a failure.
pub open spec fn color_code(color: Option<Seq<char>>) -> Result<Option<u32>, ErrorModel> {
    match color {
        None => Ok(None),
        Some(text) => if is_hex_number(color_digits(text)) {
            Ok(Some(hex_value(color_digits(text)) as u32))
        } else {
            Err(ErrorModel::InvalidColor(text))
        },
    }
}

/// The color of a number: no color for zero, which the remote workspace writes for a
/// role without one, and six hexadecimal digits else.
pub open spec fn color_text(code: u32) -> Option<Seq<char>> {
    if code == 0 {
        None
    } else {
        Some(hexadecimal_digits(code as nat, 6))
    }
}

/// The role that is sent for a wanted role.
pub open spec fn role_request(role: RoleModel) -> Result<RoleRequestModel, ErrorModel> {
    match color_code(role.color) {
        Err(error) => Err(error),
        Ok(color) => Ok(
            RoleRequestModel {
                name: role.name,
                permissions: decimal_digits(mask(role.permissions)),
                color,
                hoist: role.show_in_sidebar,
                mentionable: role.is_mentionable,
            },
        ),
    }
}

/// The live role that an answered role stands for.
pub open spec fn role_of_response(
    response: RoleResponseModel,
) -> Result<LiveRoleModel, ErrorModel> {
    match code_permissions(response.permissions) {
        Err(error) => Err(error),
        Ok(permissions) => Ok(
            LiveRoleModel {
                id: response.id,
                role: RoleModel {
                    name: response.name,
                    permissions,
                    color: color_text(response.color),
                    is_mentionable: response.mentionable,
                    show_in_sidebar: response.hoist,
                },
            },
        ),
    }
}

/// The overwrites that are sent for some wanted overwrites.
pub open spec fn overwrite_requests(
    overwrites: Seq<OverwriteModel<RoleModel>>,
    roles: Seq<LiveRoleModel>,
) -> Result<Seq<OverwriteRequestModel>, ErrorModel> {
    try_map(overwrites, |overwrite: OverwriteModel<RoleModel>| overwrite_request(overwrite, roles))
}

/// The live overwrites that some answered overwrites stand for.
pub open spec fn overwrites_of_responses(
    responses: Seq<OverwriteResponseModel>,
    roles: Seq<LiveRoleModel>,
) -> Result<Seq<OverwriteModel<LiveRoleModel>>, ErrorModel> {
    try_map(
        responses,
        |response: OverwriteResponseModel| overwrite_of_response(response, roles),
    )
}

/// The number that the remote workspace writes for a kind of channel.
pub open spec fn channel_type_code(kind: ChannelType) -> u8 {
    match kind {
        ChannelType::TEXT => TEXT_CHANNEL,
        ChannelType::VOICE => VOICE_CHANNEL,
    }
}

/// The category that is sent for a wanted category.
pub open spec fn category_request(
    category: CategoryModel,
    roles: Seq<LiveRoleModel>,
) -> Result<ChannelRequestModel, ErrorModel> {
    match overwrite_requests(category.overwrites, roles) {
        Err(error) => Err(error),
        Ok(permission_overwrites) => Ok(
            ChannelRequestModel {
                name: category.name,
                _type: CATEGORY_CHANNEL,
                topic: None,
                parent_id: None,
                permission_overwrites,
            },
        ),
    }
}

/// The identifier under which a wanted channel names its category: that of the first
/// live category of the same name.
pub open spec fn parent_id_of(
    category: Option<CategoryModel>,
    categories: Seq<LiveCategoryModel>,
) -> Result<Option<Seq<char>>, ErrorModel> {
    match category {
        None => Ok(None),
        Some(category) => match live_category(categories, category.name) {
            Some(found) => Ok(Some(found.id)),
            None => Err(ErrorModel::UnknownCategory(category.name)),
        },
    }
}

/// The channel that is sent for a wanted channel. Its category is resolved first,
/// then its overwrites.
pub open spec fn channel_request(
    channel: ChannelModel,
    roles: Seq<LiveRoleModel>,
    categories: Seq<LiveCategoryModel>,
) -> Result<ChannelRequestModel, ErrorModel> {
    match parent_id_of(channel.category, categories) {
        Err(error) => Err(error),
        Ok(parent_id) => match overwrite_requests(channel.overwrites, roles) {
            Err(error) => Err(error),
            Ok(permission_overwrites) => Ok(
                ChannelRequestModel {
                    name: channel.name,
                    _type: channel_type_code(channel.channel_type),
                    topic: channel.topic,
                    parent_id,
                    permission_overwrites,
                },
            ),
        },
    }
}

/// The live category that an answered category stands for.
pub open spec fn category_of_response(
    response: ChannelResponseModel,
    roles: Seq<LiveRoleModel>,
) -> Result<LiveCategoryModel, ErrorModel> {
    match overwrites_of_responses(response.permission_overwrites, roles) {
        Err(error) => Err(error),
        Ok(overwrites) => Ok(
            LiveCategoryModel { id: response.id, name: response.name, overwrites },
        ),
    }
}

/// The first live category that carries a given identifier.
pub open spec fn live_category_with_id(
    categories: Seq<LiveCategoryModel>,
    id: Seq<char>,
) -> Option<LiveCategoryModel> {
    match first_index(category_ids(categories), id) {
        Some(i) => Some(categories[i]),
        None => None,
    }
}

/// The live category that an answered channel stands under.
pub open spec fn parent_of(
    parent_id: Option<Seq<char>>,
    categories: Seq<LiveCategoryModel>,
) -> Result<Option<LiveCategoryModel>, ErrorModel> {
    match parent_id {
        None => Ok(None),
        Some(id) => match live_category_with_id(categories, id) {
            Some(category) => Ok(Some(category)),
            None => Err(ErrorModel::UnknownCategoryId(id)),
        },
    }
}

/// The live channel that an answered channel stands for: one of voice where the
/// remote workspace says so, and one of text else. Its category is resolved first,
/// then its overwrites.
pub open spec fn channel_of_response(
    response: ChannelResponseModel,
    roles: Seq<LiveRoleModel>,
    categories: Seq<LiveCategoryModel>,
) -> Result<LiveChannelModel, ErrorModel> {
    match parent_of(response.parent_id, categories) {
        Err(error) => Err(error),
        Ok(category) => match overwrites_of_responses(response.permission_overwrites, roles) {
            Err(error) => Err(error),
            Ok(overwrites) => Ok(
                LiveChannelModel {
                    id: response.id,
                    name: response.name,
                    topic: response.topic,
                    channel_type: if response._type == VOICE_CHANNEL {
                        ChannelType::VOICE
                    } else {
                        ChannelType::TEXT
                    },
                    category,
                    overwrites,
                },
            ),
        },
    }
}

/// The categories among some answered channels, in the same order.
pub open spec fn categories_among(
    responses: Seq<ChannelResponseModel>,
) -> Seq<ChannelResponseModel> {
    concat_map(
        responses,
        |response: ChannelResponseModel|
            if response._type == CATEGORY_CHANNEL {
                seq![response]
            } else {
                Seq::empty()
            },
    )
}

/// The channels of text and of voice among some answered channels, in the same order.
/// What is of another kind is none of the workspace's layout.
pub open spec fn channels_among(responses: Seq<ChannelResponseModel>) -> Seq<ChannelResponseModel> {
    concat_map(
        responses,
        |response: ChannelResponseModel|
            if response._type == TEXT_CHANNEL || response._type == VOICE_CHANNEL {
                seq![response]
            } else {
                Seq::empty()
            },
    )
}

/// The live workspace that the answers of the remote workspace stand for. Roles are
/// read first, then categories, then channels, each in their order; the first failure
/// is the failure of the whole.
pub open spec fn guild_of_responses(
    roles: Seq<RoleResponseModel>,
    channels: Seq<ChannelResponseModel>,
) -> Result<LiveGuildModel, ErrorModel> {
    match try_map(roles, |role: RoleResponseModel| role_of_response(role)) {
        Err(error) => Err(error),
        Ok(roles) => match try_map(
            categories_among(channels),
            |category: ChannelResponseModel| category_of_response(category, roles),
        ) {
            Err(error) => Err(error),
            Ok(categories) => match try_map(
                channels_among(channels),
                |channel: ChannelResponseModel| channel_of_response(channel, roles, categories),
            ) {
                Err(error) => Err(error),
                Ok(channels) => Ok(LiveGuildModel { roles, categories, channels }),
            },
        },
    }
}

/// Computes [`color_code`].
pub fn color_number(color: &Option<String>) -> (code: Result<Option<u32>, Error>)
    ensures
        match color_code(color.deep_view()) {
            Ok(wanted) => code == Ok::<Option<u32>, Error>(wanted),
            Err(error) => code matches Err(e) && e@ == error,
        },
{
    match color {
        None => Ok(None),
        Some(text) => {
            let len: usize = text.as_str().unicode_len();
            let digits = if len > 0 && text.as_str().get_char(0) == '#' {
                text.as_str().substring_char(1, len)
            } else {
                text.as_str()
            };
            match parse_hexadecimal(digits) {
                Some(value) => Ok(Some(value)),
                None => Err(Error::InvalidColor(text.clone())),
            }
        },
    }
}

/// Computes [`color_text`].
pub fn color_string(code: u32) -> (color: Option<String>)
    ensures
        color.deep_view() == color_text(code),
{
    if code == 0 {
        None
    } else {
        Some(hexadecimal(code, 6))
    }
}

fn overwrites_sent(
    overwrites: &PermissionsOverwritesList<AwaitingRole>,
    roles: &RolesList<ExistingRole>,
) -> (sent: Result<Vec<PermissionOverwritesRequest>, Error>)
    ensures
        match overwrite_requests(overwrites@, roles@) {
            Ok(wanted) => sent matches Ok(list) && list.deep_view() == wanted,
            Err(error) => sent matches Err(e) && e@ == error,
        },
{
    let ghost all = overwrites@;
    let ghost convert = |overwrite: OverwriteModel<RoleModel>| overwrite_request(overwrite, roles@);
    let mut requests: Vec<PermissionOverwritesRequest> = Vec::new();
    let mut i: usize = 0;
    assert(all.take(0) =~= Seq::empty());
    assert(requests.deep_view() =~= Seq::empty());
    while i < overwrites.items.len()
        invariant
            all == overwrites@,
            convert == |overwrite: OverwriteModel<RoleModel>| overwrite_request(overwrite, roles@),
            i <= overwrites.items@.len(),
            try_map(all.take(i as int), convert) == Ok::<Seq<OverwriteRequestModel>, ErrorModel>(
                requests.deep_view(),
            ),
        decreases overwrites.items@.len() - i,
    {
        let ghost before = requests.deep_view();
        proof {
            lemma_try_map_take(all, i as int, convert);
            assert(all[i as int] == overwrites.items@[i as int]@);
        }
        match PermissionOverwritesRequest::from(&overwrites.items[i], roles) {
            Ok(request) => {
                requests.push(request);
                assert(requests.deep_view() =~= before.push(request@));
            },
            Err(error) => {
                proof {
                    lemma_try_map_fails(all, i + 1, convert);
                }
                return Err(error);
            },
        }
        i += 1;
    }
    assert(all.take(i as int) =~= all);
    Ok(requests)
}

fn overwrites_answered(
    responses: &Vec<PermissionOverwritesResponse>,
    roles: &RolesList<ExistingRole>,
) -> (read: Result<PermissionsOverwritesList<ExistingRole>, Error>)
    ensures
        match overwrites_of_responses(responses.deep_view(), roles@) {
            Ok(wanted) => read matches Ok(list) && list@ == wanted,
            Err(error) => read matches Err(e) && e@ == error,
        },
{
    let ghost all = responses.deep_view();
    let ghost convert = |response: OverwriteResponseModel| overwrite_of_response(response, roles@);
    let mut items: Vec<PermissionsOverwrite<ExistingRole>> = Vec::new();
    let mut i: usize = 0;
    assert(all.take(0) =~= Seq::empty());
    assert(items@.map_values(|overwrite: PermissionsOverwrite<ExistingRole>| overwrite@)
        =~= Seq::empty());
    while i < responses.len()
        invariant
            all == responses.deep_view(),
            convert == |response: OverwriteResponseModel| overwrite_of_response(response, roles@),
            i <= responses@.len(),
            try_map(all.take(i as int), convert) == Ok::<
                Seq<OverwriteModel<LiveRoleModel>>,
                ErrorModel,
            >(items@.map_values(|overwrite: PermissionsOverwrite<ExistingRole>| overwrite@)),
        decreases responses@.len() - i,
    {
        let ghost before = items@.map_values(
            |overwrite: PermissionsOverwrite<ExistingRole>| overwrite@,
        );
        proof {
            lemma_try_map_take(all, i as int, convert);
            assert(all[i as int] == responses@[i as int]@);
        }
        match responses[i]._try_into(roles) {
            Ok(overwrite) => {
                items.push(overwrite);
                assert(items@.map_values(
                    |overwrite: PermissionsOverwrite<ExistingRole>| overwrite@,
                ) =~= before.push(overwrite@));
            },
            Err(error) => {
                proof {
                    lemma_try_map_fails(all, i + 1, convert);
                }
                return Err(error);
            },
        }
        i += 1;
    }
    assert(all.take(i as int) =~= all);
    Ok(PermissionsOverwritesList { items })
}

impl RoleRequest {
    /// Computes [`role_request`]. A color that is no hexadecimal number is refused.
    pub fn from(role: &AwaitingRole) -> (request: Result<Self, Error>)
        ensures
            match role_request(role@) {
                Ok(wanted) => request matches Ok(found) && found@ == wanted,
                Err(error) => request matches Err(e) && e@ == error,
            },
    {
        match color_number(&role.color) {
            Err(error) => Err(error),
            Ok(color) => Ok(
                RoleRequest {
                    name: role.name.clone(),
                    permissions: role.permissions.code(),
                    color,
                    hoist: role.show_in_sidebar,
                    mentionable: role.is_mentionable,
                },
            ),
        }
    }
}

impl RoleResponse {
    /// Computes [`role_of_response`]. A permission code that is no number is refused.
    pub fn _try_into(&self) -> (role: Result<ExistingRole, Error>)
        ensures
            match role_of_response(self@) {
                Ok(wanted) => role matches Ok(found) && found@ == wanted,
                Err(error) => role matches Err(e) && e@ == error,
            },
    {
        match PermissionsList::from_code(self.permissions.as_str()) {
            Err(error) => Err(error),
            Ok(permissions) => Ok(
                ExistingRole {
                    id: self.id.clone(),
                    name: self.name.clone(),
                    permissions,
                    color: color_string(self.color),
                    is_mentionable: self.mentionable,
                    show_in_sidebar: self.hoist,
                },
            ),
        }
    }
}

impl ChannelRequest {
    /// Computes [`category_request`].
    pub fn from_category(
        category: &AwaitingCategory,
        roles: &RolesList<ExistingRole>,
    ) -> (request: Result<Self, Error>)
        ensures
            match category_request(category@, roles@) {
                Ok(wanted) => request matches Ok(found) && found@ == wanted,
                Err(error) => request matches Err(e) && e@ == error,
            },
    {
        match overwrites_sent(&category.overwrites, roles) {
            Err(error) => Err(error),
            Ok(permission_overwrites) => Ok(
                ChannelRequest {
                    name: category.name.clone(),
                    _type: CATEGORY_CHANNEL,
                    topic: None,
                    parent_id: None,
                    permission_overwrites,
                },
            ),
        }
    }

    /// Computes [`channel_request`]. A category that is not live is refused, and so is
    /// an overwrite for a role that is not live.
    pub fn from_channel(
        channel: &AwaitingChannel,
        roles: &RolesList<ExistingRole>,
        categories: &CategoriesList<ExistingCategory>,
    ) -> (request: Result<Self, Error>)
        ensures
            match channel_request(channel@, roles@, categories@) {
                Ok(wanted) => request matches Ok(found) && found@ == wanted,
                Err(error) => request matches Err(e) && e@ == error,
            },
    {
        let parent_id = match &channel.category {
            None => None,
            Some(category) => match categories.find_by_name(category.name.as_str()) {
                Some(found) => {
                    proof {
                        let names = category_names::<ExistingCategory>(categories@);
                        lemma_first_index(names, category@.name);
                        let at = first_index(names, category@.name).unwrap();
                        assert(categories@[at] == categories.items@[at]@);
                    }
                    Some(found.id.clone())
                },
                None => {
                    return Err(Error::UnknownCategory(category.name.clone()));
                },
            },
        };
        match overwrites_sent(&channel.overwrites, roles) {
            Err(error) => Err(error),
            Ok(permission_overwrites) => Ok(
                ChannelRequest {
                    name: channel.name.clone(),
                    _type: match channel.channel_type {
                        ChannelType::TEXT => TEXT_CHANNEL,
                        ChannelType::VOICE => VOICE_CHANNEL,
                    },
                    topic: copy_optional_text(&channel.topic),
                    parent_id,
                    permission_overwrites,
                },
            ),
        }
    }
}

impl ChannelResponse {
    /// Computes [`category_of_response`].
    pub fn to_category(
        &self,
        roles: &RolesList<ExistingRole>,
    ) -> (category: Result<ExistingCategory, Error>)
        ensures
            match category_of_response(self@, roles@) {
                Ok(wanted) => category matches Ok(found) && found@ == wanted,
                Err(error) => category matches Err(e) && e@ == error,
            },
    {
        match overwrites_answered(&self.permission_overwrites, roles) {
            Err(error) => Err(error),
            Ok(overwrites) => Ok(
                ExistingCategory { id: self.id.clone(), name: self.name.clone(), overwrites },
            ),
        }
    }

    /// Computes [`channel_of_response`]. A category that is none of the live
    /// categories, by its identifier, is refused.
    pub fn to_channel(
        &self,
        roles: &RolesList<ExistingRole>,
        categories: &CategoriesList<ExistingCategory>,
    ) -> (channel: Result<ExistingChannel, Error>)
        ensures
            match channel_of_response(self@, roles@, categories@) {
                Ok(wanted) => channel matches Ok(found) && found@ == wanted,
                Err(error) => channel matches Err(e) && e@ == error,
            },
    {
        let category = match &self.parent_id {
            None => None,
            Some(id) => match categories.find_by_id(id.as_str()) {
                Some(found) => {
                    proof {
                        let ids = category_ids(categories@);
                        lemma_first_index(ids, id@);
                        let at = first_index(ids, id@).unwrap();
                        assert(categories@[at] == categories.items@[at]@);
                    }
                    Some(found.clone())
                },
                None => {
                    return Err(Error::UnknownCategoryId(id.clone()));
                },
            },
        };
        match overwrites_answered(&self.permission_overwrites, roles) {
            Err(error) => Err(error),
            Ok(overwrites) => Ok(
                ExistingChannel {
                    id: self.id.clone(),
                    name: self.name.clone(),
                    topic: copy_optional_text(&self.topic),
                    channel_type: if self._type == VOICE_CHANNEL {
                        ChannelType::VOICE
                    } else {
                        ChannelType::TEXT
                    },
                    category,
                    overwrites,
                },
            ),
        }
    }
}

fn roles_answered(responses: &Vec<RoleResponse>) -> (read: Result<RolesList<ExistingRole>, Error>)
    ensures
        match try_map(
            responses.deep_view(),
            |role: RoleResponseModel| role_of_response(role),
        ) {
            Ok(wanted) => read matches Ok(list) && list@ == wanted,
            Err(error) => read matches Err(e) && e@ == error,
        },
{
    let ghost all = responses.deep_view();
    let ghost convert = |role: RoleResponseModel| role_of_response(role);
    let mut items: Vec<ExistingRole> = Vec::new();
    let mut i: usize = 0;
    assert(all.take(0) =~= Seq::empty());
    assert(items@.map_values(|role: ExistingRole| role@) =~= Seq::empty());
    while i < responses.len()
        invariant
            all == responses.deep_view(),
            convert == |role: RoleResponseModel| role_of_response(role),
            i <= responses@.len(),
            try_map(all.take(i as int), convert) == Ok::<Seq<LiveRoleModel>, ErrorModel>(
                items@.map_values(|role: ExistingRole| role@),
            ),
        decreases responses@.len() - i,
    {
        let ghost before = items@.map_values(|role: ExistingRole| role@);
        proof {
            lemma_try_map_take(all, i as int, convert);
            assert(all[i as int] == responses@[i as int]@);
        }
        match responses[i]._try_into() {
            Ok(role) => {
                items.push(role);
                assert(items@.map_values(|role: ExistingRole| role@) =~= before.push(role@));
            },
            Err(error) => {
                proof {
                    lemma_try_map_fails(all, i + 1, convert);
                }
                return Err(error);
            },
        }
        i += 1;
    }
    assert(all.take(i as int) =~= all);
    Ok(RolesList { items })
}

fn categories_answered(
    responses: &Vec<ChannelResponse>,
    roles: &RolesList<ExistingRole>,
) -> (read: Result<CategoriesList<ExistingCategory>, Error>)
    ensures
        match try_map(
            categories_among(responses.deep_view()),
            |category: ChannelResponseModel| category_of_response(category, roles@),
        ) {
            Ok(wanted) => read matches Ok(list) && list@ == wanted,
            Err(error) => read matches Err(e) && e@ == error,
        },
{
    let ghost all = responses.deep_view();
    let ghost pick = |response: ChannelResponseModel|
        if response._type == CATEGORY_CHANNEL {
            seq![response]
        } else {
            Seq::empty()
        };
    let mut picked: Vec<&ChannelResponse> = Vec::new();
    let mut i: usize = 0;
    assert(all.take(0) =~= Seq::empty());
    assert(picked.deep_view() =~= Seq::empty());
    while i < responses.len()
        invariant
            all == responses.deep_view(),
            pick == |response: ChannelResponseModel|
                if response._type == CATEGORY_CHANNEL {
                    seq![response]
                } else {
                    Seq::empty()
                },
            i <= responses@.len(),
            picked.deep_view() == concat_map(all.take(i as int), pick),
        decreases responses@.len() - i,
    {
        let ghost before = picked.deep_view();
        proof {
            lemma_concat_map_take(all, i as int, pick);
            assert(all[i as int] == responses@[i as int]@);
        }
        if responses[i]._type == CATEGORY_CHANNEL {
            picked.push(&responses[i]);
            assert(picked.deep_view() =~= before + seq![responses@[i as int]@]);
        } else {
            assert(picked.deep_view() =~= before + Seq::empty());
        }
        i += 1;
    }
    assert(all.take(i as int) =~= all);

    let ghost chosen = picked.deep_view();
    let ghost convert = |category: ChannelResponseModel| category_of_response(category, roles@);
    let mut items: Vec<ExistingCategory> = Vec::new();
    let mut i: usize = 0;
    assert(chosen.take(0) =~= Seq::empty());
    assert(items@.map_values(|category: ExistingCategory| category@) =~= Seq::empty());
    while i < picked.len()
        invariant
            chosen == picked.deep_view(),
            chosen == categories_among(responses.deep_view()),
            convert == |category: ChannelResponseModel| category_of_response(category, roles@),
            i <= picked@.len(),
            try_map(chosen.take(i as int), convert) == Ok::<Seq<LiveCategoryModel>, ErrorModel>(
                items@.map_values(|category: ExistingCategory| category@),
            ),
        decreases picked@.len() - i,
    {
        let ghost before = items@.map_values(|category: ExistingCategory| category@);
        proof {
            lemma_try_map_take(chosen, i as int, convert);
            assert(chosen[i as int] == picked@[i as int]@);
        }
        match picked[i].to_category(roles) {
            Ok(category) => {
                items.push(category);
                assert(items@.map_values(|category: ExistingCategory| category@) =~= before.push(
                    category@,
                ));
            },
            Err(error) => {
                proof {
                    lemma_try_map_fails(chosen, i + 1, convert);
                }
                return Err(error);
            },
        }
        i += 1;
    }
    assert(chosen.take(i as int) =~= chosen);
    Ok(CategoriesList { items })
}

fn channels_answered(
    responses: &Vec<ChannelResponse>,
    roles: &RolesList<ExistingRole>,
    categories: &CategoriesList<ExistingCategory>,
) -> (read: Result<ChannelsList<ExistingChannel>, Error>)
    ensures
        match try_map(
            channels_among(responses.deep_view()),
            |channel: ChannelResponseModel| channel_of_response(channel, roles@, categories@),
        ) {
            Ok(wanted) => read matches Ok(list) && list@ == wanted,
            Err(error) => read matches Err(e) && e@ == error,
        },
{
    let ghost all = responses.deep_view();
    let ghost pick = |response: ChannelResponseModel|
        if response._type == TEXT_CHANNEL || response._type == VOICE_CHANNEL {
            seq![response]
        } else {
            Seq::empty()
        };
    let mut picked: Vec<&ChannelResponse> = Vec::new();
    let mut i: usize = 0;
    assert(all.take(0) =~= Seq::empty());
    assert(picked.deep_view() =~= Seq::empty());
    while i < responses.len()
        invariant
            all == responses.deep_view(),
            pick == |response: ChannelResponseModel|
                if response._type == TEXT_CHANNEL || response._type == VOICE_CHANNEL {
                    seq![response]
                } else {
                    Seq::empty()
                },
            i <= responses@.len(),
            picked.deep_view() == concat_map(all.take(i as int), pick),
        decreases responses@.len() - i,
    {
        let ghost before = picked.deep_view();
        proof {
            lemma_concat_map_take(all, i as int, pick);
            assert(all[i as int] == responses@[i as int]@);
        }
        if responses[i]._type == TEXT_CHANNEL || responses[i]._type == VOICE_CHANNEL {
            picked.push(&responses[i]);
            assert(picked.deep_view() =~= before + seq![responses@[i as int]@]);
        } else {
            assert(picked.deep_view() =~= before + Seq::empty());
        }
        i += 1;
    }
    assert(all.take(i as int) =~= all);

    let ghost chosen = picked.deep_view();
    let ghost convert = |channel: ChannelResponseModel|
        channel_of_response(channel, roles@, categories@);
    let mut items: Vec<ExistingChannel> = Vec::new();
    let mut i: usize = 0;
    assert(chosen.take(0) =~= Seq::empty());
    assert(items@.map_values(|channel: ExistingChannel| channel@) =~= Seq::empty());
    while i < picked.len()
        invariant
            chosen == picked.deep_view(),
            chosen == channels_among(responses.deep_view()),
            convert == |channel: ChannelResponseModel|
                channel_of_response(channel, roles@, categories@),
            i <= picked@.len(),
            try_map(chosen.take(i as int), convert) == Ok::<Seq<LiveChannelModel>, ErrorModel>(
                items@.map_values(|channel: ExistingChannel| channel@),
            ),
        decreases picked@.len() - i,
    {
        let ghost before = items@.map_values(|channel: ExistingChannel| channel@);
        proof {
            lemma_try_map_take(chosen, i as int, convert);
            assert(chosen[i as int] == picked@[i as int]@);
        }
        match picked[i].to_channel(roles, categories) {
            Ok(channel) => {
                items.push(channel);
                assert(items@.map_values(|channel: ExistingChannel| channel@) =~= before.push(
                    channel@,
                ));
            },
            Err(error) => {
                proof {
                    lemma_try_map_fails(chosen, i + 1, convert);
                }
                return Err(error);
            },
        }
        i += 1;
    }
    assert(chosen.take(i as int) =~= chosen);
    Ok(ChannelsList { items })
}

/// Assembles the snapshot of a live workspace from what the remote workspace answers
/// for its roles and for its channels: computes [`guild_of_responses`].
pub fn guild_from_responses(
    roles: &Vec<RoleResponse>,
    channels: &Vec<ChannelResponse>,
) -> (guild: Result<ExistingGuild, Error>)
    ensures
        match guild_of_responses(roles.deep_view(), channels.deep_view()) {
            Ok(wanted) => guild matches Ok(found) && found@ == wanted,
            Err(error) => guild matches Err(e) && e@ == error,
        },
{
    let roles = match roles_answered(roles) {
        Ok(roles) => roles,
        Err(error) => {
            return Err(error);
        },
    };
    let categories = match categories_answered(channels, &roles) {
        Ok(categories) => categories,
        Err(error) => {
            return Err(error);
        },
    };
    let channels = match channels_answered(channels, &roles, &categories) {
        Ok(channels) => channels,
        Err(error) => {
            return Err(error);
        },
    };
    Ok(ExistingGuild { roles, categories, channels })
}

} // verus!
