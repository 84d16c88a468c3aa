use disma::category::{
    AwaitingCategoriesList, AwaitingCategory, CategoriesList, ExistingCategory,
};
use disma::channel::{
    AwaitingChannel, AwaitingChannelsList, ChannelType, ChannelsList, ExistingChannel,
};
use disma::config::{
    CategoryConfig, CategoryRolePermissionsConfig, ChannelConfig, GuildConfig, RoleConfig,
};
use disma::error::Error;
use disma::extra::{
    ExtraCategoriesStrategyType, ExtraChannelsStrategyType, ExtraRolesStrategyType,
};
use disma::guild::{AwaitingGuild, ExistingGuild};
use disma::overwrites::{PermissionsOverwrite, PermissionsOverwritesList};
use disma::permission::{Permission, PermissionsList};
use disma::role::{AwaitingRole, AwaitingRolesList, ExistingRole, RolesList};

fn given_awaiting_roles(names: Vec<&str>) -> RolesList<AwaitingRole> {
    let roles: Vec<AwaitingRole> = names.iter().map(|name| given_awaiting_role(name)).collect();
    RolesList::from(roles)
}

fn given_awaiting_role(name: &str) -> AwaitingRole {
    let permissions: Vec<String> = vec![];
    AwaitingRole {
        name: name.to_string(),
        permissions: PermissionsList::from_names(&permissions).unwrap(),
        color: None,
        is_mentionable: true,
        show_in_sidebar: false,
    }
}

fn given_existing_role(id: &str, name: &str) -> ExistingRole {
    let permissions: Vec<String> = vec![];
    ExistingRole {
        id: id.to_string(),
        name: name.to_string(),
        permissions: PermissionsList::from_names(&permissions).unwrap(),
        color: None,
        is_mentionable: true,
        show_in_sidebar: false,
    }
}

fn empty_awaiting_guild() -> AwaitingGuild {
    AwaitingGuild {
        roles: AwaitingRolesList {
            items: RolesList::from(vec![]),
            extra_items_strategy: ExtraRolesStrategyType::Remove,
        },
        categories: AwaitingCategoriesList {
            items: CategoriesList::from(vec![]),
            extra_items_strategy: ExtraCategoriesStrategyType::Remove,
        },
        channels: AwaitingChannelsList {
            items: ChannelsList::from(vec![]),
            extra_items_strategy: ExtraChannelsStrategyType::Remove,
        },
    }
}

#[test]
fn can_convert_config_to_awaiting_entity() {
    let category_name = "presto".to_string();
    let role_name = "Team01";
    let roles = given_awaiting_roles(vec![role_name]);
    let role = given_awaiting_role(role_name);

    let config = CategoryConfig {
        name: category_name.clone(),
        permissions_overwrites: Some(vec![CategoryRolePermissionsConfig {
            role: role_name.to_string(),
            allow: Some(vec!["ADMINISTRATOR".to_string()]),
            deny: Some(vec!["ADMINISTRATOR".to_string()]),
        }]),
    };

    let entity: AwaitingCategory = config.into(&roles).unwrap();

    let expected_entity = AwaitingCategory {
        name: category_name.clone(),
        overwrites: PermissionsOverwritesList::from(vec![PermissionsOverwrite {
            role,
            allow: PermissionsList::from(vec![Permission::ADMINISTRATOR]),
            deny: PermissionsList::from(vec![Permission::ADMINISTRATOR]),
        }]),
        sync_permissions: false,
        extra_channels_strategy: ExtraChannelsStrategyType::Remove,
    };
    assert_eq!(entity, expected_entity);
}

#[test]
fn can_convert_config_to_awaiting_entity_with_optionals() {
    let category_name = "presto".to_string();

    let config = CategoryConfig {
        name: category_name.clone(),
        permissions_overwrites: None,
    };

    let entity: AwaitingCategory = config.into(&RolesList::from(vec![])).unwrap();

    let expected_entity = AwaitingCategory {
        name: category_name.clone(),
        overwrites: PermissionsOverwritesList::from(vec![]),
        sync_permissions: false,
        extra_channels_strategy: ExtraChannelsStrategyType::Remove,
    };
    assert_eq!(entity, expected_entity);
}

#[test]
fn can_convert_existing_entity_to_config() {
    let category_name = "presto".to_string();
    let role_id = "kgj399sd";
    let role_name = "Team01";
    let role = given_existing_role(role_id, role_name);

    let entity = ExistingCategory {
        id: "some".to_string(),
        name: category_name.clone(),
        overwrites: PermissionsOverwritesList::from(vec![PermissionsOverwrite {
            role,
            allow: PermissionsList::from(vec![Permission::ADMINISTRATOR]),
            deny: PermissionsList::from(vec![Permission::ADMINISTRATOR]),
        }]),
    };

    let config = CategoryConfig::from(&entity);

    let expected_config = CategoryConfig {
        name: category_name.clone(),
        permissions_overwrites: Some(vec![CategoryRolePermissionsConfig {
            role: role_name.to_string(),
            allow: Some(vec!["ADMINISTRATOR".to_string()]),
            deny: Some(vec!["ADMINISTRATOR".to_string()]),
        }]),
    };
    assert_eq!(config, expected_config);
}

#[test]
fn can_convert_existing_entity_to_config_with_optionals() {
    let category_name = "presto".to_string();

    let entity = ExistingCategory {
        id: "some".to_string(),
        name: category_name.clone(),
        overwrites: PermissionsOverwritesList::from(vec![]),
    };

    let config = CategoryConfig::from(&entity);

    let expected_config = CategoryConfig {
        name: category_name.clone(),
        permissions_overwrites: None,
    };
    assert_eq!(config, expected_config);
}

#[test]
pub fn nones_are_converted_to_empty_arrays() {
    let config = GuildConfig {
        roles: None,
        categories: None,
        channels: None,
    };

    let entity: AwaitingGuild = config.into().unwrap();

    let expected_entity = empty_awaiting_guild();
    assert_eq!(entity, expected_entity);
}

#[test]
pub fn empty_arrays_are_converted_to_nones() {
    let entity = ExistingGuild {
        roles: RolesList::from(vec![]),
        categories: CategoriesList::from(vec![]),
        channels: ChannelsList::from(vec![]),
    };

    let config = GuildConfig::from(&entity);

    let expected_config = GuildConfig {
        roles: None,
        categories: None,
        channels: None,
    };
    assert_eq!(config, expected_config);
}

#[test]
fn overwrite_for_an_unknown_role_is_refused() {
    let config = CategoryConfig {
        name: "presto".to_string(),
        permissions_overwrites: Some(vec![CategoryRolePermissionsConfig {
            role: "Team02".to_string(),
            allow: None,
            deny: None,
        }]),
    };

    let read = config.into(&given_awaiting_roles(vec!["Team01"]));

    assert_eq!(read, Err(Error::UnknownRole("Team02".to_string())));
}

#[test]
fn permission_of_an_unknown_name_is_refused() {
    let config = RoleConfig {
        name: "Team01".to_string(),
        permissions: Some(vec!["ADMINISTRATOR".to_string(), "FLY".to_string()]),
        color: None,
        show_in_sidebar: false,
        is_mentionable: false,
    };

    assert_eq!(config.into(), Err(Error::UnknownPermission("FLY".to_string())));
}

#[test]
fn channel_under_an_unknown_category_is_refused() {
    let config = GuildConfig {
        roles: None,
        categories: None,
        channels: Some(vec![ChannelConfig {
            name: "general".to_string(),
            topic: None,
            channel_type: ChannelType::TEXT,
            category: Some("Team".to_string()),
            permissions_overwrites: None,
        }]),
    };

    assert_eq!(config.into(), Err(Error::UnknownCategory("Team".to_string())));
}

#[test]
fn written_workspace_is_read_with_its_references_resolved() {
    let config = GuildConfig {
        roles: Some(vec![RoleConfig {
            name: "Team01".to_string(),
            permissions: Some(vec!["SEND_MESSAGES".to_string()]),
            color: Some("ff0000".to_string()),
            show_in_sidebar: true,
            is_mentionable: false,
        }]),
        categories: Some(vec![CategoryConfig {
            name: "Team".to_string(),
            permissions_overwrites: Some(vec![CategoryRolePermissionsConfig {
                role: "Team01".to_string(),
                allow: Some(vec!["VIEW_CHANNEL".to_string()]),
                deny: None,
            }]),
        }]),
        channels: Some(vec![ChannelConfig {
            name: "general".to_string(),
            topic: Some("All things".to_string()),
            channel_type: ChannelType::VOICE,
            category: Some("Team".to_string()),
            permissions_overwrites: None,
        }]),
    };

    let guild = config.into().unwrap();

    let role = AwaitingRole {
        name: "Team01".to_string(),
        permissions: PermissionsList::from(vec![Permission::SEND_MESSAGES]),
        color: Some("ff0000".to_string()),
        is_mentionable: false,
        show_in_sidebar: true,
    };
    let category = AwaitingCategory {
        name: "Team".to_string(),
        overwrites: PermissionsOverwritesList::from(vec![PermissionsOverwrite {
            role: role.clone(),
            allow: PermissionsList::from(vec![Permission::VIEW_CHANNEL]),
            deny: PermissionsList::from(vec![]),
        }]),
        sync_permissions: false,
        extra_channels_strategy: ExtraChannelsStrategyType::Remove,
    };
    let channel = AwaitingChannel {
        name: "general".to_string(),
        topic: Some("All things".to_string()),
        channel_type: ChannelType::VOICE,
        category: Some(category.clone()),
        overwrites: PermissionsOverwritesList::from(vec![]),
    };
    assert_eq!(guild.roles.items, RolesList::from(vec![role]));
    assert_eq!(guild.categories.items, CategoriesList::from(vec![category]));
    assert_eq!(guild.channels.items, ChannelsList::from(vec![channel]));
}

#[test]
fn live_workspace_is_written_with_names_in_place_of_entities() {
    let role = given_existing_role("1", "Team01");
    let category = ExistingCategory {
        id: "2".to_string(),
        name: "Team".to_string(),
        overwrites: PermissionsOverwritesList::from(vec![]),
    };
    let channel = ExistingChannel {
        id: "3".to_string(),
        name: "general".to_string(),
        topic: None,
        channel_type: ChannelType::TEXT,
        category: Some(category.clone()),
        overwrites: PermissionsOverwritesList::from(vec![PermissionsOverwrite {
            role: role.clone(),
            allow: PermissionsList::from(vec![]),
            deny: PermissionsList::from(vec![Permission::SPEAK, Permission::CONNECT]),
        }]),
    };
    let guild = ExistingGuild {
        roles: RolesList::from(vec![role]),
        categories: CategoriesList::from(vec![category]),
        channels: ChannelsList::from(vec![channel]),
    };

    let config = GuildConfig::from(&guild);

    let expected = GuildConfig {
        roles: Some(vec![RoleConfig {
            name: "Team01".to_string(),
            permissions: None,
            color: None,
            show_in_sidebar: false,
            is_mentionable: true,
        }]),
        categories: Some(vec![CategoryConfig {
            name: "Team".to_string(),
            permissions_overwrites: None,
        }]),
        channels: Some(vec![ChannelConfig {
            name: "general".to_string(),
            topic: None,
            channel_type: ChannelType::TEXT,
            category: Some("Team".to_string()),
            permissions_overwrites: Some(vec![CategoryRolePermissionsConfig {
                role: "Team01".to_string(),
                allow: None,
                deny: Some(vec!["SPEAK".to_string(), "CONNECT".to_string()]),
            }]),
        }]),
    };
    assert_eq!(config, expected);
}

#[test]
fn channel_takes_the_overwrites_of_a_category_that_forces_them() {
    let forcing = AwaitingCategory {
        name: "Team".to_string(),
        overwrites: PermissionsOverwritesList::from(vec![PermissionsOverwrite {
            role: given_awaiting_role("Team01"),
            allow: PermissionsList::from(vec![Permission::SEND_MESSAGES]),
            deny: PermissionsList::from(vec![]),
        }]),
        sync_permissions: true,
        extra_channels_strategy: ExtraChannelsStrategyType::Keep,
    };
    let config = ChannelConfig {
        name: "general".to_string(),
        topic: None,
        channel_type: ChannelType::TEXT,
        category: Some("Team".to_string()),
        permissions_overwrites: Some(vec![CategoryRolePermissionsConfig {
            role: "Nobody".to_string(),
            allow: Some(vec!["SPEAK".to_string()]),
            deny: None,
        }]),
    };

    let channel = config
        .into(
            &given_awaiting_roles(vec!["Team01"]),
            &CategoriesList::from(vec![forcing.clone()]),
        )
        .unwrap();

    assert_eq!(channel.overwrites, forcing.overwrites);
    assert_eq!(channel.category, Some(forcing));
}
