use disma::api::{ApiRequest, DiscordApi, HttpMethod};
use disma::category::{AwaitingCategory, CategoriesList, ExistingCategory};
use disma::channel::{AwaitingChannel, ChannelType};
use disma::commands::{
    Command, CommandDescription, CommandEntity, DeleteCategory, GuildCommand, Mutation,
};
use disma::dtos::{
    color_number, color_string, guild_from_responses, ChannelRequest, ChannelResponse,
    PermissionOverwriteType, PermissionOverwritesRequest, PermissionOverwritesResponse,
    RoleRequest, RoleResponse,
};
use disma::error::Error;
use disma::extra::{
    ExtraCategoriesStrategy, ExtraCategoriesStrategyType, ExtraChannelsStrategy,
    ExtraChannelsStrategyType, ExtraRolesStrategy, ExtraRolesStrategyType, KeepExtraCategories,
    KeepExtraChannels, KeepExtraRoles, RemoveExtraCategories, RemoveExtraChannels,
    RemoveExtraRoles, SyncExtraChannelsPermissions,
};
use disma::overwrites::{PermissionsOverwrite, PermissionsOverwritesList};
use disma::permission::{Permission, PermissionsList};
use disma::role::{AwaitingRole, ExistingRole, RolesList};

fn live_role(id: &str, name: &str) -> ExistingRole {
    ExistingRole {
        id: id.to_string(),
        name: name.to_string(),
        permissions: PermissionsList::from(vec![]),
        color: None,
        is_mentionable: false,
        show_in_sidebar: false,
    }
}

fn wanted_role(name: &str) -> AwaitingRole {
    AwaitingRole {
        name: name.to_string(),
        permissions: PermissionsList::from(vec![]),
        color: None,
        is_mentionable: false,
        show_in_sidebar: false,
    }
}

fn request(method: HttpMethod, path: &str) -> ApiRequest {
    ApiRequest { method, path: path.to_string() }
}

#[test]
fn requests_are_planned_for_the_resources_of_a_workspace() {
    let api = DiscordApi {};

    assert_eq!(api.list_roles("42"), request(HttpMethod::Get, "/guilds/42/roles"));
    assert_eq!(api.add_role("42"), request(HttpMethod::Post, "/guilds/42/roles"));
    assert_eq!(api.update_role("42", "7"), request(HttpMethod::Patch, "/guilds/42/roles/7"));
    assert_eq!(api.delete_role("42", "7"), request(HttpMethod::Delete, "/guilds/42/roles/7"));
    assert_eq!(api.list_guilds(), request(HttpMethod::Get, "/users/@me/guilds"));
    assert_eq!(api.list_channels("42"), request(HttpMethod::Get, "/guilds/42/channels"));
    assert_eq!(api._add_channel("42"), request(HttpMethod::Post, "/guilds/42/channels"));
    assert_eq!(
        api._update_channel("42", "9"),
        request(HttpMethod::Patch, "/guilds/42/channels/9")
    );
    assert_eq!(
        api._delete_channel("42", "9"),
        request(HttpMethod::Delete, "/guilds/42/channels/9")
    );
}

#[test]
fn wanted_overwrite_is_sent_under_the_identifier_of_the_live_role() {
    let roles = RolesList::from(vec![live_role("1", "Guest"), live_role("2", "Team01")]);
    let overwrite = PermissionsOverwrite {
        role: wanted_role("Team01"),
        allow: PermissionsList::from(vec![Permission::ADMINISTRATOR, Permission::SEND_MESSAGES]),
        deny: PermissionsList::from(vec![]),
    };

    let sent = PermissionOverwritesRequest::from(&overwrite, &roles);

    assert_eq!(
        sent,
        Ok(PermissionOverwritesRequest {
            role_or_member_id: "2".to_string(),
            _type: PermissionOverwriteType::Role,
            allow: "2056".to_string(),
            deny: "0".to_string(),
        })
    );
    assert_eq!(PermissionOverwriteType::Role.code(), 0);
}

#[test]
fn wanted_overwrite_for_a_role_that_is_not_live_cannot_be_sent() {
    let roles = RolesList::from(vec![live_role("1", "Guest")]);
    let overwrite = PermissionsOverwrite {
        role: wanted_role("Team01"),
        allow: PermissionsList::from(vec![]),
        deny: PermissionsList::from(vec![]),
    };

    assert_eq!(
        PermissionOverwritesRequest::from(&overwrite, &roles),
        Err(Error::UnknownRole("Team01".to_string()))
    );
}

#[test]
fn answered_overwrite_is_resolved_against_the_live_roles() {
    let roles = RolesList::from(vec![live_role("1", "Guest"), live_role("2", "Team01")]);
    let response = PermissionOverwritesResponse {
        role_or_member_id: "2".to_string(),
        _type: 0,
        allow: "8".to_string(),
        deny: "2048".to_string(),
    };

    assert_eq!(
        response._try_into(&roles),
        Ok(PermissionsOverwrite {
            role: live_role("2", "Team01"),
            allow: PermissionsList::from(vec![Permission::ADMINISTRATOR]),
            deny: PermissionsList::from(vec![Permission::SEND_MESSAGES]),
        })
    );
}

#[test]
fn answered_overwrite_that_cannot_be_resolved_is_refused() {
    let roles = RolesList::from(vec![live_role("1", "Guest")]);
    let response = |id: &str, kind: u8, allow: &str, deny: &str| PermissionOverwritesResponse {
        role_or_member_id: id.to_string(),
        _type: kind,
        allow: allow.to_string(),
        deny: deny.to_string(),
    };

    assert_eq!(
        response("9", 1, "x", "y")._try_into(&roles),
        Err(Error::UnsupportedOverwriteType(1))
    );
    assert_eq!(
        response("9", 0, "x", "y")._try_into(&roles),
        Err(Error::UnknownRoleId("9".to_string()))
    );
    assert_eq!(
        response("1", 0, "x", "y")._try_into(&roles),
        Err(Error::InvalidPermissionsCode("x".to_string()))
    );
    assert_eq!(
        response("1", 0, "8", "y")._try_into(&roles),
        Err(Error::InvalidPermissionsCode("y".to_string()))
    );
}

#[test]
fn deletion_of_a_category_goes_under_its_identifier() {
    let command = DeleteCategory::new(ExistingCategory {
        id: "20".to_string(),
        name: "Team".to_string(),
        overwrites: PermissionsOverwritesList::from(vec![]),
    });

    assert_eq!(
        command.describe(),
        CommandDescription::Delete(CommandEntity::Category, "Team".to_string())
    );
    assert_eq!(command.mutation(), Mutation::DeleteCategory("20".to_string()));
}

#[test]
fn policies_tell_which_they_are() {
    assert_eq!(KeepExtraRoles {}._type(), ExtraRolesStrategyType::Keep);
    assert_eq!(RemoveExtraRoles {}._type(), ExtraRolesStrategyType::Remove);
    assert_eq!(KeepExtraCategories {}._type(), ExtraCategoriesStrategyType::Keep);
    assert_eq!(RemoveExtraCategories {}._type(), ExtraCategoriesStrategyType::Remove);
    assert_eq!(KeepExtraChannels {}._type(), ExtraChannelsStrategyType::Keep);
    assert_eq!(RemoveExtraChannels {}._type(), ExtraChannelsStrategyType::Remove);
    assert_eq!(
        SyncExtraChannelsPermissions {}._type(),
        ExtraChannelsStrategyType::OverwritePermissionsWithCategory
    );
}

#[test]
fn policies_for_extra_categories_delete_or_do_nothing() {
    let category = ExistingCategory {
        id: "20".to_string(),
        name: "Team".to_string(),
        overwrites: PermissionsOverwritesList::from(vec![]),
    };
    let mut commands: Vec<Command> = vec![];

    KeepExtraCategories {}.handle_extra_category(&category, &mut commands);
    assert_eq!(commands.len(), 0);

    RemoveExtraCategories {}.handle_extra_category(&category, &mut commands);
    assert_eq!(commands.len(), 1);
    assert_eq!(commands[0].mutation(), Mutation::DeleteCategory("20".to_string()));
}

#[test]
fn colors_are_exchanged_as_numbers() {
    assert_eq!(color_number(&None), Ok(None));
    assert_eq!(color_number(&Some("ff0000".to_string())), Ok(Some(0xff0000)));
    assert_eq!(color_number(&Some("#00FF7f".to_string())), Ok(Some(0x00ff7f)));
    assert_eq!(color_number(&Some("1".to_string())), Ok(Some(1)));
    assert_eq!(
        color_number(&Some("red".to_string())),
        Err(Error::InvalidColor("red".to_string()))
    );
    assert_eq!(
        color_number(&Some("#".to_string())),
        Err(Error::InvalidColor("#".to_string()))
    );
    assert_eq!(
        color_number(&Some("1234567".to_string())),
        Err(Error::InvalidColor("1234567".to_string()))
    );
    assert_eq!(color_string(0), None);
    assert_eq!(color_string(0xff0000), Some("ff0000".to_string()));
    assert_eq!(color_string(0x2a), Some("00002a".to_string()));
    assert_eq!(
        Error::InvalidColor("red".to_string()).message(),
        "Invalid color red"
    );
}

#[test]
fn wanted_role_is_sent_with_codes_in_place_of_names() {
    let mut role = wanted_role("Team01");
    role.permissions = PermissionsList::from(vec![Permission::ADMINISTRATOR]);
    role.color = Some("0000ff".to_string());
    role.show_in_sidebar = true;

    assert_eq!(
        RoleRequest::from(&role),
        Ok(RoleRequest {
            name: "Team01".to_string(),
            permissions: "8".to_string(),
            color: Some(255),
            hoist: true,
            mentionable: false,
        })
    );
}

#[test]
fn snapshot_is_assembled_from_the_answers() {
    let roles = vec![RoleResponse {
        id: "1".to_string(),
        name: "Team01".to_string(),
        permissions: "2048".to_string(),
        color: 0,
        hoist: false,
        mentionable: true,
    }];
    let channel = |id: &str, name: &str, kind: u8, parent: Option<&str>| ChannelResponse {
        id: id.to_string(),
        name: name.to_string(),
        _type: kind,
        topic: None,
        parent_id: parent.map(str::to_string),
        permission_overwrites: vec![PermissionOverwritesResponse {
            role_or_member_id: "1".to_string(),
            _type: 0,
            allow: "8".to_string(),
            deny: "0".to_string(),
        }],
    };
    let channels = vec![
        channel("10", "general", 0, Some("20")),
        channel("11", "news", 5, None),
        channel("20", "Team", 4, None),
        channel("12", "lobby", 2, None),
    ];

    let guild = guild_from_responses(&roles, &channels).unwrap();

    assert_eq!(guild.roles.items.len(), 1);
    assert_eq!(
        guild.roles.items[0].permissions,
        PermissionsList::from(vec![Permission::SEND_MESSAGES])
    );
    assert!(guild.roles.items[0].is_mentionable);
    assert_eq!(guild.categories.items.len(), 1);
    assert_eq!(guild.categories.items[0].name, "Team");
    assert_eq!(guild.channels.items.len(), 2);
    assert_eq!(guild.channels.items[0].name, "general");
    assert_eq!(guild.channels.items[0].channel_type, ChannelType::TEXT);
    assert_eq!(
        guild.channels.items[0].category,
        Some(guild.categories.items[0].clone())
    );
    assert_eq!(guild.channels.items[1].name, "lobby");
    assert_eq!(guild.channels.items[1].channel_type, ChannelType::VOICE);
    assert_eq!(guild.channels.items[1].category, None);
    assert_eq!(
        guild.channels.items[1].overwrites.items[0].allow,
        PermissionsList::from(vec![Permission::ADMINISTRATOR])
    );

    let orphan = vec![channel("10", "general", 0, Some("99"))];
    assert_eq!(
        guild_from_responses(&roles, &orphan),
        Err(Error::UnknownCategoryId("99".to_string()))
    );
    assert_eq!(
        Error::UnknownCategoryId("99".to_string()).message(),
        "No category found with id 99"
    );
}

#[test]
fn wanted_channel_is_sent_under_the_identifier_of_its_live_category() {
    let roles = RolesList::from(vec![live_role("1", "Team01")]);
    let categories = CategoriesList::from(vec![ExistingCategory {
        id: "20".to_string(),
        name: "Team".to_string(),
        overwrites: PermissionsOverwritesList::from(vec![]),
    }]);
    let category = AwaitingCategory {
        name: "Team".to_string(),
        overwrites: PermissionsOverwritesList::from(vec![PermissionsOverwrite {
            role: wanted_role("Team01"),
            allow: PermissionsList::from(vec![Permission::SEND_MESSAGES]),
            deny: PermissionsList::from(vec![]),
        }]),
        sync_permissions: false,
        extra_channels_strategy: ExtraChannelsStrategyType::Remove,
    };
    let channel = AwaitingChannel {
        name: "lobby".to_string(),
        topic: Some("Talk".to_string()),
        channel_type: ChannelType::VOICE,
        category: Some(category.clone()),
        overwrites: PermissionsOverwritesList::from(vec![]),
    };

    assert_eq!(
        ChannelRequest::from_category(&category, &roles),
        Ok(ChannelRequest {
            name: "Team".to_string(),
            _type: 4,
            topic: None,
            parent_id: None,
            permission_overwrites: vec![PermissionOverwritesRequest {
                role_or_member_id: "1".to_string(),
                _type: PermissionOverwriteType::Role,
                allow: "2048".to_string(),
                deny: "0".to_string(),
            }],
        })
    );
    assert_eq!(
        ChannelRequest::from_channel(&channel, &roles, &categories),
        Ok(ChannelRequest {
            name: "lobby".to_string(),
            _type: 2,
            topic: Some("Talk".to_string()),
            parent_id: Some("20".to_string()),
            permission_overwrites: vec![],
        })
    );
    assert_eq!(
        ChannelRequest::from_channel(&channel, &roles, &CategoriesList::from(vec![])),
        Err(Error::UnknownCategory("Team".to_string()))
    );
}
