use disma::category::{
    AwaitingCategoriesList, AwaitingCategory, CategoriesList, ExistingCategory,
};
use disma::changes::{ChannelChangesService, DiffCalculator, DiffCommandFactory};
use disma::channel::{
    AwaitingChannel, AwaitingChannelsList, ChannelType, ChannelsList, ExistingChannel,
};
use disma::commands::{
    ChannelChange, Command, CommandDescription, CommandEntity, GuildCommand, Mutation,
};
use disma::diff::Diff;
use disma::error::Error;
use disma::extra::{
    ExtraCategoriesStrategyType, ExtraChannelsStrategyType, ExtraRolesStrategyType,
};
use disma::guild::{AwaitingGuild, ExistingGuild};
use disma::overwrites::{PermissionsOverwrite, PermissionsOverwritesList};
use disma::permission::{Permission, PermissionsList};
use disma::role::{AwaitingRole, AwaitingRolesList, ExistingRole, RolesList};

fn wanted_role(name: &str, permissions: Vec<Permission>) -> AwaitingRole {
    AwaitingRole {
        name: name.to_string(),
        permissions: PermissionsList::from(permissions),
        color: None,
        is_mentionable: false,
        show_in_sidebar: false,
    }
}

fn live_role(id: &str, name: &str, permissions: Vec<Permission>) -> ExistingRole {
    ExistingRole {
        id: id.to_string(),
        name: name.to_string(),
        permissions: PermissionsList::from(permissions),
        color: None,
        is_mentionable: false,
        show_in_sidebar: false,
    }
}

fn wanted_overwrite(
    role: &str,
    allow: Vec<Permission>,
    deny: Vec<Permission>,
) -> PermissionsOverwrite<AwaitingRole> {
    PermissionsOverwrite {
        role: wanted_role(role, vec![]),
        allow: PermissionsList::from(allow),
        deny: PermissionsList::from(deny),
    }
}

fn live_overwrite(
    role: &str,
    allow: Vec<Permission>,
    deny: Vec<Permission>,
) -> PermissionsOverwrite<ExistingRole> {
    PermissionsOverwrite {
        role: live_role(role, role, vec![]),
        allow: PermissionsList::from(allow),
        deny: PermissionsList::from(deny),
    }
}

fn wanted_category(
    name: &str,
    overwrites: Vec<PermissionsOverwrite<AwaitingRole>>,
    policy: ExtraChannelsStrategyType,
) -> AwaitingCategory {
    AwaitingCategory {
        name: name.to_string(),
        overwrites: PermissionsOverwritesList::from(overwrites),
        sync_permissions: false,
        extra_channels_strategy: policy,
    }
}

fn live_category(
    id: &str,
    name: &str,
    overwrites: Vec<PermissionsOverwrite<ExistingRole>>,
) -> ExistingCategory {
    ExistingCategory {
        id: id.to_string(),
        name: name.to_string(),
        overwrites: PermissionsOverwritesList::from(overwrites),
    }
}

fn live_channel(id: &str, name: &str, category: Option<ExistingCategory>) -> ExistingChannel {
    ExistingChannel {
        id: id.to_string(),
        name: name.to_string(),
        topic: None,
        channel_type: ChannelType::TEXT,
        category,
        overwrites: PermissionsOverwritesList::from(vec![]),
    }
}

fn wanted_channel(name: &str, category: Option<AwaitingCategory>) -> AwaitingChannel {
    AwaitingChannel {
        name: name.to_string(),
        topic: None,
        channel_type: ChannelType::TEXT,
        category,
        overwrites: PermissionsOverwritesList::from(vec![]),
    }
}

fn wanted(
    roles: Vec<AwaitingRole>,
    categories: Vec<AwaitingCategory>,
    channels: Vec<AwaitingChannel>,
) -> AwaitingGuild {
    AwaitingGuild {
        roles: AwaitingRolesList {
            items: RolesList::from(roles),
            extra_items_strategy: ExtraRolesStrategyType::Remove,
        },
        categories: AwaitingCategoriesList {
            items: CategoriesList::from(categories),
            extra_items_strategy: ExtraCategoriesStrategyType::Remove,
        },
        channels: AwaitingChannelsList {
            items: ChannelsList::from(channels),
            extra_items_strategy: ExtraChannelsStrategyType::Remove,
        },
    }
}

fn live(
    roles: Vec<ExistingRole>,
    categories: Vec<ExistingCategory>,
    channels: Vec<ExistingChannel>,
) -> ExistingGuild {
    ExistingGuild {
        roles: RolesList::from(roles),
        categories: CategoriesList::from(categories),
        channels: ChannelsList::from(channels),
    }
}

fn list_changes(live: ExistingGuild, wanted: AwaitingGuild) -> Vec<Command> {
    DiffCalculator::new(DiffCommandFactory {})
        .create_commands(live, wanted)
        .unwrap()
}

fn describe(commands: &Vec<Command>) -> Vec<CommandDescription> {
    commands.iter().map(|command| command.describe()).collect()
}

fn create(entity: CommandEntity, name: &str) -> CommandDescription {
    CommandDescription::Create(entity, name.to_string())
}

fn delete(entity: CommandEntity, name: &str) -> CommandDescription {
    CommandDescription::Delete(entity, name.to_string())
}

fn change(from: Option<&str>, to: Option<&str>) -> Diff {
    Diff::Change(from.map(str::to_string), to.map(str::to_string))
}

fn update(field: &str, nested: Vec<Diff>) -> Diff {
    Diff::Update(field.to_string(), nested)
}

#[test]
fn wanted_role_without_live_counterpart_is_created() {
    let admin = wanted_role("Admin", vec![Permission::ADMINISTRATOR]);

    let commands = list_changes(live(vec![], vec![], vec![]), wanted(vec![admin], vec![], vec![]));

    assert_eq!(describe(&commands), vec![create(CommandEntity::Role, "Admin")]);
    assert_eq!(
        commands[0].mutation(),
        Mutation::AddRole(wanted_role("Admin", vec![Permission::ADMINISTRATOR]))
    );
}

#[test]
fn extra_role_is_deleted_when_extras_are_removed() {
    let admin = live_role("11", "Admin", vec![Permission::ADMINISTRATOR]);

    let commands = list_changes(live(vec![admin], vec![], vec![]), wanted(vec![], vec![], vec![]));

    assert_eq!(describe(&commands), vec![delete(CommandEntity::Role, "Admin")]);
    assert_eq!(commands[0].mutation(), Mutation::DeleteRole("11".to_string()));
}

#[test]
fn extra_role_is_left_alone_when_extras_are_kept() {
    let admin = live_role("11", "Admin", vec![Permission::ADMINISTRATOR]);
    let mut wanted = wanted(vec![], vec![], vec![]);
    wanted.roles.extra_items_strategy = ExtraRolesStrategyType::Keep;

    let commands = list_changes(live(vec![admin], vec![], vec![]), wanted);

    assert_eq!(describe(&commands), vec![]);
}

#[test]
fn empty_wanted_state_deletes_every_live_entity_when_extras_are_removed() {
    let team = live_category("20", "Team", vec![]);
    let guild = live(
        vec![live_role("11", "Admin", vec![]), live_role("12", "Guest", vec![])],
        vec![team.clone(), live_category("21", "Staff", vec![])],
        vec![
            live_channel("30", "general", Some(team)),
            live_channel("31", "lobby", None),
        ],
    );

    let commands = list_changes(guild, wanted(vec![], vec![], vec![]));

    assert_eq!(
        describe(&commands),
        vec![
            delete(CommandEntity::Role, "Admin"),
            delete(CommandEntity::Role, "Guest"),
            delete(CommandEntity::Category, "Team"),
            delete(CommandEntity::Category, "Staff"),
            delete(CommandEntity::Channel, "Team:general (TEXT)"),
            delete(CommandEntity::Channel, ":lobby (TEXT)"),
        ]
    );
}

#[test]
fn kept_extras_of_every_kind_are_never_deleted() {
    let team = live_category("20", "Team", vec![]);
    let guild = live(
        vec![live_role("11", "Admin", vec![])],
        vec![team.clone()],
        vec![
            live_channel("30", "general", Some(team)),
            live_channel("31", "lobby", None),
        ],
    );
    let mut wanted = wanted(vec![], vec![], vec![]);
    wanted.roles.extra_items_strategy = ExtraRolesStrategyType::Keep;
    wanted.categories.extra_items_strategy = ExtraCategoriesStrategyType::Keep;
    wanted.channels.extra_items_strategy = ExtraChannelsStrategyType::Keep;

    let commands = list_changes(guild, wanted);

    assert_eq!(describe(&commands), vec![]);
}

#[test]
fn live_state_taken_as_wanted_calls_for_no_change() {
    let team = live_category(
        "20",
        "Team",
        vec![
            live_overwrite("Admin", vec![Permission::SEND_MESSAGES], vec![]),
            live_overwrite("Guest", vec![], vec![Permission::SEND_MESSAGES]),
        ],
    );
    let mut general = live_channel("30", "general", Some(team.clone()));
    general.topic = Some("All things".to_string());
    general.overwrites = PermissionsOverwritesList::from(vec![live_overwrite(
        "Guest",
        vec![Permission::VIEW_CHANNEL],
        vec![Permission::ATTACH_FILES],
    )]);
    let mut voice = live_channel("31", "general", Some(team.clone()));
    voice.channel_type = ChannelType::VOICE;
    let mut admin = live_role("11", "Admin", vec![Permission::ADMINISTRATOR]);
    admin.color = Some("00ff00".to_string());
    admin.is_mentionable = true;
    let guild = live(
        vec![admin, live_role("12", "Guest", vec![])],
        vec![team, live_category("21", "Staff", vec![])],
        vec![general, voice, live_channel("32", "general", None)],
    );

    let wanted = guild.to_awaiting();
    let commands = list_changes(guild, wanted);

    assert_eq!(describe(&commands), vec![]);
}

#[test]
fn every_identity_key_falls_under_exactly_one_outcome() {
    let guild = live(
        vec![
            live_role("11", "Same", vec![Permission::SPEAK]),
            live_role("12", "Changed", vec![Permission::SPEAK]),
            live_role("13", "Extra", vec![]),
        ],
        vec![],
        vec![],
    );
    let wanted = wanted(
        vec![
            wanted_role("New", vec![]),
            wanted_role("Changed", vec![Permission::CONNECT]),
            wanted_role("Same", vec![Permission::SPEAK]),
        ],
        vec![],
        vec![],
    );

    let commands = list_changes(guild, wanted);

    assert_eq!(
        describe(&commands),
        vec![
            create(CommandEntity::Role, "New"),
            CommandDescription::Update(
                CommandEntity::Role,
                "Changed".to_string(),
                vec![update(
                    "permissions",
                    vec![change(Some("SPEAK"), None), change(None, Some("CONNECT"))]
                )]
            ),
            delete(CommandEntity::Role, "Extra"),
        ]
    );
}

#[test]
fn update_replaces_the_live_entity_by_the_whole_wanted_one() {
    let mut role = wanted_role("Admin", vec![Permission::ADMINISTRATOR]);
    role.color = Some("ff0000".to_string());
    role.is_mentionable = true;
    role.show_in_sidebar = true;
    let guild = live(vec![live_role("11", "Admin", vec![Permission::ADMINISTRATOR])], vec![], vec![]);

    let commands = list_changes(guild, wanted(vec![role.clone()], vec![], vec![]));

    assert_eq!(
        describe(&commands),
        vec![CommandDescription::Update(
            CommandEntity::Role,
            "Admin".to_string(),
            vec![
                update("color", vec![change(None, Some("ff0000"))]),
                update("is_mentionable", vec![change(Some("false"), Some("true"))]),
                update("show_in_sidebar", vec![change(Some("false"), Some("true"))]),
            ]
        )]
    );
    assert_eq!(commands[0].mutation(), Mutation::UpdateRole("11".to_string(), role));
}

#[test]
fn extra_channel_takes_the_permissions_of_its_category() {
    let overwrites = vec![wanted_overwrite("X", vec![Permission::SEND_MESSAGES], vec![])];
    let team = wanted_category(
        "Team",
        overwrites.clone(),
        ExtraChannelsStrategyType::OverwritePermissionsWithCategory,
    );
    let live_team = live_category(
        "20",
        "Team",
        vec![live_overwrite("X", vec![Permission::SEND_MESSAGES], vec![])],
    );
    let guild = live(
        vec![live_role("11", "X", vec![])],
        vec![live_team.clone()],
        vec![live_channel("30", "general", Some(live_team))],
    );
    let wanted = wanted(vec![wanted_role("X", vec![])], vec![team.clone()], vec![]);

    let commands = list_changes(guild, wanted);

    assert_eq!(commands.len(), 1);
    match &commands[0] {
        Command::UpdateChannel(command) => {
            assert_eq!(command.existing.name, "general");
            assert_eq!(command.awaiting.name, "general");
            assert_eq!(command.awaiting.category, Some(team));
            assert_eq!(
                command.awaiting.overwrites,
                PermissionsOverwritesList::from(overwrites)
            );
            assert_eq!(
                command.diffs,
                vec![update("overwrites", vec![change(None, Some("X"))])]
            );
        }
        other => panic!("an update of the channel was expected, and not {:?}", other),
    }
    assert_eq!(
        describe(&commands),
        vec![CommandDescription::Update(
            CommandEntity::Channel,
            "Team:general (TEXT)".to_string(),
            vec![update("overwrites", vec![change(None, Some("X"))])]
        )]
    );
}

#[test]
fn permissions_cannot_be_taken_from_a_category_that_is_not_wanted() {
    let live_team = live_category("20", "Team", vec![]);
    let guild = live(
        vec![],
        vec![live_team.clone()],
        vec![live_channel("30", "general", Some(live_team))],
    );
    let mut wanted = wanted(vec![], vec![], vec![]);
    wanted.channels.extra_items_strategy =
        ExtraChannelsStrategyType::OverwritePermissionsWithCategory;

    let listed = DiffCalculator::new(DiffCommandFactory {}).create_commands(guild, wanted);

    assert_eq!(listed, Err(Error::MissingCategory("general".to_string())));
}

#[test]
fn extra_channel_goes_by_the_policy_of_its_wanted_category() {
    let kept = live_category("20", "Kept", vec![]);
    let removed = live_category("21", "Removed", vec![]);
    let gone = live_category("22", "Gone", vec![]);
    let guild = live(
        vec![],
        vec![kept.clone(), removed.clone(), gone.clone()],
        vec![
            live_channel("30", "a", Some(kept)),
            live_channel("31", "b", Some(removed)),
            live_channel("32", "c", Some(gone)),
            live_channel("33", "d", None),
        ],
    );
    let mut wanted = wanted(
        vec![],
        vec![
            wanted_category("Kept", vec![], ExtraChannelsStrategyType::Keep),
            wanted_category("Removed", vec![], ExtraChannelsStrategyType::Remove),
        ],
        vec![],
    );
    wanted.channels.extra_items_strategy = ExtraChannelsStrategyType::Keep;

    let changes = ChannelChangesService {}.list_changes(&guild, &wanted).unwrap();

    assert_eq!(changes.len(), 1);
    match &changes[0] {
        ChannelChange::Delete(channel) => assert_eq!(channel.id, "31"),
        other => panic!("a deletion was expected, and not {:?}", other),
    }
}

#[test]
fn wanted_channel_under_a_category_that_is_not_wanted_is_refused() {
    let team = wanted_category("Team", vec![], ExtraChannelsStrategyType::Remove);
    let wanted = wanted(vec![], vec![], vec![wanted_channel("general", Some(team))]);

    let listed = ChannelChangesService {}.list_changes(&live(vec![], vec![], vec![]), &wanted);

    assert_eq!(listed, Err(Error::UnknownCategory("Team".to_string())));
}

#[test]
fn channels_are_matched_by_category_name_and_kind() {
    let team = live_category("20", "Team", vec![]);
    let mut topic = live_channel("31", "general", None);
    topic.topic = Some("old".to_string());
    let guild = live(
        vec![],
        vec![team.clone()],
        vec![live_channel("30", "general", Some(team)), topic],
    );
    let wanted_team = wanted_category("Team", vec![], ExtraChannelsStrategyType::Remove);
    let mut voice = wanted_channel("general", Some(wanted_team.clone()));
    voice.channel_type = ChannelType::VOICE;
    let mut renewed = wanted_channel("general", None);
    renewed.topic = Some("new".to_string());
    let wanted = wanted(
        vec![],
        vec![wanted_team.clone()],
        vec![voice, wanted_channel("general", Some(wanted_team)), renewed],
    );

    let commands = DiffCommandFactory {}.for_channels(&guild, &wanted).unwrap();

    assert_eq!(
        describe(&commands),
        vec![
            create(CommandEntity::Channel, "Team:general (VOICE)"),
            CommandDescription::Update(
                CommandEntity::Channel,
                ":general (TEXT)".to_string(),
                vec![update("topic", vec![change(Some("old"), Some("new"))])]
            ),
        ]
    );
}

#[test]
fn commands_for_roles_come_before_those_for_categories_and_channels() {
    let staff = live_category("20", "Staff", vec![]);
    let guild = live(
        vec![live_role("11", "X", vec![])],
        vec![staff],
        vec![live_channel("30", "old", None)],
    );
    let wanted = wanted(
        vec![wanted_role("X", vec![]), wanted_role("New", vec![])],
        vec![wanted_category(
            "Staff",
            vec![wanted_overwrite("X", vec![Permission::SPEAK], vec![])],
            ExtraChannelsStrategyType::Remove,
        )],
        vec![],
    );

    let commands = list_changes(guild, wanted);

    assert_eq!(
        describe(&commands),
        vec![
            create(CommandEntity::Role, "New"),
            CommandDescription::Update(
                CommandEntity::Category,
                "Staff".to_string(),
                vec![update("overwrites", vec![change(None, Some("X"))])]
            ),
            delete(CommandEntity::Channel, ":old (TEXT)"),
        ]
    );
}

#[test]
fn reordered_overwrites_call_for_no_update() {
    let live_team = live_category(
        "20",
        "Team",
        vec![
            live_overwrite("A", vec![Permission::SPEAK], vec![Permission::CONNECT]),
            live_overwrite("B", vec![Permission::STREAM], vec![]),
            live_overwrite("C", vec![], vec![Permission::USE_VAD]),
        ],
    );
    let team = wanted_category(
        "Team",
        vec![
            wanted_overwrite("C", vec![], vec![Permission::USE_VAD]),
            wanted_overwrite("A", vec![Permission::SPEAK], vec![Permission::CONNECT]),
            wanted_overwrite("B", vec![Permission::STREAM], vec![]),
        ],
        ExtraChannelsStrategyType::Remove,
    );

    assert_eq!(live_team.diffs_with(&team), vec![]);

    let guild = live(vec![], vec![live_team], vec![]);
    let commands = DiffCommandFactory {}.for_categories(&guild, &wanted(vec![], vec![team], vec![]));
    assert_eq!(describe(&commands), vec![]);
}

#[test]
fn differing_overwrites_are_told_role_by_role() {
    let live_team = live_category(
        "20",
        "Team",
        vec![
            live_overwrite("A", vec![Permission::SPEAK], vec![Permission::CONNECT]),
            live_overwrite("B", vec![Permission::STREAM], vec![]),
        ],
    );
    let team = wanted_category(
        "Team",
        vec![
            wanted_overwrite("C", vec![], vec![]),
            wanted_overwrite("A", vec![Permission::SPEAK, Permission::STREAM], vec![]),
        ],
        ExtraChannelsStrategyType::Remove,
    );

    assert_eq!(
        live_team.diffs_with(&team),
        vec![update(
            "overwrites",
            vec![
                update(
                    "A",
                    vec![
                        update("allow", vec![change(None, Some("STREAM"))]),
                        update("deny", vec![change(Some("CONNECT"), None)]),
                    ]
                ),
                change(Some("B"), None),
                change(None, Some("C")),
            ]
        )]
    );
}

#[test]
fn first_entity_of_a_name_is_the_one_matched() {
    let guild = live(
        vec![
            live_role("11", "Twin", vec![Permission::SPEAK]),
            live_role("12", "Twin", vec![Permission::CONNECT]),
        ],
        vec![],
        vec![],
    );
    let wanted = wanted(vec![wanted_role("Twin", vec![Permission::SPEAK])], vec![], vec![]);

    let commands = DiffCommandFactory {}.for_roles(&guild, &wanted);

    assert_eq!(describe(&commands), vec![]);
    assert_eq!(guild.roles.find_by_name("Twin").unwrap().id, "11");
    assert_eq!(guild.roles.find_by_id("12").unwrap().permissions.items, vec![Permission::CONNECT]);
    assert!(guild.roles.find_by_name("Other").is_none());
}
