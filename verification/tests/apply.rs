use disma::apply::{Action, ApplyChanges, Event, Outcome, Stage};
use disma::category::{AwaitingCategoriesList, AwaitingCategory, CategoriesList, ExistingCategory};
use disma::channel::{AwaitingChannelsList, ChannelType, ChannelsList, ExistingChannel};
use disma::commands::{CommandDescription, CommandEntity, Mutation};
use disma::error::Error;
use disma::extra::{
    ExtraCategoriesStrategyType, ExtraChannelsStrategyType, ExtraRolesStrategyType,
};
use disma::guild::{AwaitingGuild, ExistingGuild};
use disma::overwrites::{PermissionsOverwrite, PermissionsOverwritesList};
use disma::permission::{Permission, PermissionsList};
use disma::role::{AwaitingRole, AwaitingRolesList, RolesList};
use disma::save::SaveExistingGuild;
use disma::config::GuildConfig;

fn role(name: &str) -> AwaitingRole {
    AwaitingRole {
        name: name.to_string(),
        permissions: PermissionsList::from(vec![]),
        color: None,
        is_mentionable: false,
        show_in_sidebar: false,
    }
}

fn staff() -> AwaitingCategory {
    AwaitingCategory {
        name: "Staff".to_string(),
        overwrites: PermissionsOverwritesList::from(vec![PermissionsOverwrite {
            role: role("New"),
            allow: PermissionsList::from(vec![Permission::SPEAK]),
            deny: PermissionsList::from(vec![]),
        }]),
        sync_permissions: false,
        extra_channels_strategy: ExtraChannelsStrategyType::Remove,
    }
}

fn live() -> ExistingGuild {
    ExistingGuild {
        roles: RolesList::from(vec![]),
        categories: CategoriesList::from(vec![ExistingCategory {
            id: "20".to_string(),
            name: "Staff".to_string(),
            overwrites: PermissionsOverwritesList::from(vec![]),
        }]),
        channels: ChannelsList::from(vec![ExistingChannel {
            id: "30".to_string(),
            name: "old".to_string(),
            topic: None,
            channel_type: ChannelType::TEXT,
            category: None,
            overwrites: PermissionsOverwritesList::from(vec![]),
        }]),
    }
}

fn nothing_live() -> ExistingGuild {
    ExistingGuild {
        roles: RolesList::from(vec![]),
        categories: CategoriesList::from(vec![]),
        channels: ChannelsList::from(vec![]),
    }
}

fn wanted(roles: Vec<AwaitingRole>, categories: Vec<AwaitingCategory>) -> AwaitingGuild {
    AwaitingGuild {
        roles: AwaitingRolesList {
            items: RolesList::from(roles),
            extra_items_strategy: ExtraRolesStrategyType::Remove,
        },
        categories: AwaitingCategoriesList {
            items: CategoriesList::from(categories),
            extra_items_strategy: ExtraCategoriesStrategyType::Remove,
        },
        channels: AwaitingChannelsList {
            items: ChannelsList::from(vec![]),
            extra_items_strategy: ExtraChannelsStrategyType::Remove,
        },
    }
}

fn three_changes() -> (ExistingGuild, AwaitingGuild) {
    (live(), wanted(vec![role("New")], vec![staff()]))
}

#[test]
fn run_applies_the_batch_in_order_after_confirmation() {
    let (live, wanted) = three_changes();
    let mut run = ApplyChanges::new(false, false);
    assert_eq!(run.stage(), Stage::Idle);

    assert_eq!(run.step(Event::Started), Action::Fetch);
    assert_eq!(run.stage(), Stage::Diffing);

    assert_eq!(run.step(Event::Fetched(live, wanted)), Action::Confirm);
    assert_eq!(run.stage(), Stage::AwaitingConfirmation);
    assert_eq!(run.descriptions().len(), 3);

    assert_eq!(
        run.step(Event::Confirmed),
        Action::Execute(Mutation::AddRole(role("New")))
    );
    assert_eq!(run.stage(), Stage::Applying);
    assert_eq!(
        run.step(Event::Succeeded),
        Action::Execute(Mutation::UpdateCategory("20".to_string(), staff()))
    );
    assert_eq!(
        run.step(Event::Succeeded),
        Action::Execute(Mutation::DeleteChannel("30".to_string()))
    );
    assert!(!run.is_over());
    assert_eq!(run.step(Event::Succeeded), Action::Finish(Outcome::Applied));
    assert_eq!(run.stage(), Stage::Done);
    assert!(run.is_over());
    assert_eq!(run.step(Event::Succeeded), Action::Ignore);
}

#[test]
fn forced_run_applies_without_asking() {
    let (live, wanted) = three_changes();
    let mut run = ApplyChanges::new(false, true);
    run.step(Event::Started);

    assert_eq!(
        run.step(Event::Fetched(live, wanted)),
        Action::Execute(Mutation::AddRole(role("New")))
    );
    assert_eq!(run.stage(), Stage::Applying);
}

#[test]
fn dry_run_lists_the_changes_and_applies_none() {
    let (live, wanted) = three_changes();
    let mut run = ApplyChanges::new(true, true);
    run.step(Event::Started);

    assert_eq!(run.step(Event::Fetched(live, wanted)), Action::Finish(Outcome::DryRun));
    assert_eq!(run.stage(), Stage::Done);
    assert_eq!(
        run.descriptions()[0],
        CommandDescription::Create(CommandEntity::Role, "New".to_string())
    );
    assert_eq!(run.step(Event::Confirmed), Action::Ignore);
}

#[test]
fn run_without_changes_is_done_at_once() {
    let mut run = ApplyChanges::new(false, false);
    run.step(Event::Started);

    assert_eq!(
        run.step(Event::Fetched(nothing_live(), wanted(vec![], vec![]))),
        Action::Finish(Outcome::NoChange)
    );
    assert_eq!(run.stage(), Stage::Done);
}

#[test]
fn refused_run_is_aborted() {
    let (live, wanted) = three_changes();
    let mut run = ApplyChanges::new(false, false);
    run.step(Event::Started);
    run.step(Event::Fetched(live, wanted));

    assert_eq!(run.step(Event::Declined), Action::Finish(Outcome::Aborted));
    assert_eq!(run.stage(), Stage::Aborted);
    assert_eq!(run.step(Event::Confirmed), Action::Ignore);
}

#[test]
fn failed_command_ends_the_run_before_the_later_commands() {
    let (live, wanted) = three_changes();
    let mut run = ApplyChanges::new(false, true);
    run.step(Event::Started);
    run.step(Event::Fetched(live, wanted));
    run.step(Event::Succeeded);

    let action = run.step(Event::Failed);

    match action {
        Action::Finish(Outcome::Failed(CommandDescription::Update(entity, name, _))) => {
            assert_eq!(entity, CommandEntity::Category);
            assert_eq!(name, "Staff");
        }
        other => panic!("a failed update was expected, and not {:?}", other),
    }
    assert_eq!(run.stage(), Stage::Failed);
    assert_eq!(run.step(Event::Succeeded), Action::Ignore);
}

#[test]
fn changes_that_cannot_be_listed_fail_the_run() {
    let mut guild = live();
    guild.channels.items[0].category = Some(ExistingCategory {
        id: "21".to_string(),
        name: "Unwanted".to_string(),
        overwrites: PermissionsOverwritesList::from(vec![]),
    });
    let mut wanted = wanted(vec![], vec![]);
    wanted.channels.extra_items_strategy =
        ExtraChannelsStrategyType::OverwritePermissionsWithCategory;
    let mut run = ApplyChanges::new(false, false);
    run.step(Event::Started);

    assert_eq!(
        run.step(Event::Fetched(guild, wanted)),
        Action::Finish(Outcome::Invalid(Error::MissingCategory("old".to_string())))
    );
    assert_eq!(run.stage(), Stage::Failed);
}

#[test]
fn events_out_of_turn_are_ignored() {
    let mut run = ApplyChanges::new(false, false);

    assert_eq!(run.step(Event::Confirmed), Action::Ignore);
    assert_eq!(run.step(Event::Succeeded), Action::Ignore);
    assert_eq!(run.stage(), Stage::Idle);
    run.step(Event::Started);
    assert_eq!(run.step(Event::Started), Action::Ignore);
    assert_eq!(run.stage(), Stage::Diffing);
}

#[test]
fn saving_asks_before_overwriting_unless_forced() {
    assert!(SaveExistingGuild::new(false).needs_confirmation(true));
    assert!(!SaveExistingGuild::new(false).needs_confirmation(false));
    assert!(!SaveExistingGuild::new(true).needs_confirmation(true));
    assert_eq!(
        SaveExistingGuild::new(true).config(&nothing_live()),
        GuildConfig { roles: None, categories: None, channels: None }
    );
}
