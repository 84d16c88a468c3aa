use disma::category::{CategoriesList, ExistingCategory};
use disma::error::Error;
use disma::extra::{ExtraCategoriesStrategyType, ExtraChannelsStrategyType};
use disma::overwrites::{PermissionsOverwrite, PermissionsOverwritesList};
use disma::params::{
    CategoriesParamsList, CategoryParams, CategoryParamsExtraItemsStrategy,
    ChannelParamsExtraItemsStrategy, PermissionsOverwriteParams,
};
use disma::permission::{Permission, PermissionsList};
use disma::role::{AwaitingRole, ExistingRole, RolesList};

fn given_matching_existing_and_params(
    name: &str,
    role: &ExistingRole,
) -> (ExistingCategory, CategoryParams) {
    let existing = ExistingCategory {
        id: "some".to_string(),
        name: name.to_string(),
        overwrites: PermissionsOverwritesList::from(vec![PermissionsOverwrite {
            role: role.clone(),
            allow: PermissionsList::from(vec![Permission::ADMINISTRATOR]),
            deny: PermissionsList::from(vec![Permission::ADMINISTRATOR]),
        }]),
    };

    let params = CategoryParams {
        name: name.to_string(),
        permissions_overwrites: vec![PermissionsOverwriteParams {
            role: role.name.clone(),
            allow: vec![Permission::ADMINISTRATOR],
            deny: vec![Permission::ADMINISTRATOR],
        }],
        sync_permissions: false,
        extra_channels: ChannelParamsExtraItemsStrategy::REMOVE,
    };

    (existing, params)
}

fn given_matching_existing_list_and_params_list(
    name: &str,
    role: &ExistingRole,
) -> (CategoriesList<ExistingCategory>, CategoriesParamsList) {
    let (existing, params) = given_matching_existing_and_params(name, role);

    let existing_list = CategoriesList::from(vec![existing]);

    let params_list = CategoriesParamsList {
        items: vec![params],
        ..Default::default()
    };

    (existing_list, params_list)
}

fn given_existing_role(id: &str, name: &str) -> ExistingRole {
    ExistingRole {
        id: id.to_string(),
        name: name.to_string(),
        permissions: PermissionsList::from(vec![]),
        color: None,
        is_mentionable: true,
        show_in_sidebar: false,
    }
}

fn given_awaiting_role(name: &str) -> AwaitingRole {
    AwaitingRole {
        name: name.to_string(),
        permissions: PermissionsList::from(vec![]),
        color: None,
        is_mentionable: true,
        show_in_sidebar: false,
    }
}

#[test]
fn can_convert_existing_entity_to_params() {
    let name = "presto";
    let role = given_existing_role("kgj399sd", "Team01");
    let (existing, expected_params) = given_matching_existing_and_params(name, &role);

    let params = CategoryParams::from(&existing);

    assert_eq!(params, expected_params);
}

#[test]
fn can_convert_existing_entities_list_to_params_list() {
    let name = "presto";
    let role = given_existing_role("kgj399sd", "Team01");
    let (existing_list, expected_params_list) =
        given_matching_existing_list_and_params_list(name, &role);

    let params = CategoriesParamsList::from(&existing_list);

    assert_eq!(params, expected_params_list);
}

#[test]
fn extra_items_are_removed_by_default() {
    assert_eq!(
        CategoryParamsExtraItemsStrategy::default(),
        CategoryParamsExtraItemsStrategy::REMOVE
    );
    assert_eq!(
        ChannelParamsExtraItemsStrategy::default(),
        ChannelParamsExtraItemsStrategy::REMOVE
    );
    assert_eq!(
        CategoriesParamsList::default(),
        CategoriesParamsList {
            items: vec![],
            extra_items: CategoryParamsExtraItemsStrategy::REMOVE
        }
    );
}

#[test]
fn parameters_choose_the_policies_for_extra_items() {
    let roles = RolesList::from(vec![given_awaiting_role("Team01")]);
    let params = CategoriesParamsList {
        items: vec![CategoryParams {
            name: "presto".to_string(),
            permissions_overwrites: vec![PermissionsOverwriteParams {
                role: "Team01".to_string(),
                allow: vec![Permission::SEND_MESSAGES],
                deny: vec![],
            }],
            sync_permissions: true,
            extra_channels: ChannelParamsExtraItemsStrategy::SYNC_PERMISSIONS,
        }],
        extra_items: CategoryParamsExtraItemsStrategy::KEEP,
    };

    let list = params.to_list(&roles).unwrap();

    assert_eq!(list.extra_items_strategy, ExtraCategoriesStrategyType::Keep);
    assert_eq!(list.items.items.len(), 1);
    let category = &list.items.items[0];
    assert_eq!(category.name, "presto");
    assert!(category.sync_permissions);
    assert_eq!(
        category.extra_channels_strategy,
        ExtraChannelsStrategyType::OverwritePermissionsWithCategory
    );
    assert_eq!(
        category.overwrites,
        PermissionsOverwritesList::from(vec![PermissionsOverwrite {
            role: given_awaiting_role("Team01"),
            allow: PermissionsList::from(vec![Permission::SEND_MESSAGES]),
            deny: PermissionsList::from(vec![]),
        }])
    );
}

#[test]
fn parameters_for_an_unknown_role_are_refused() {
    let roles = RolesList::from(vec![given_awaiting_role("Team01")]);
    let params = CategoryParams {
        name: "presto".to_string(),
        permissions_overwrites: vec![PermissionsOverwriteParams {
            role: "Team02".to_string(),
            allow: vec![],
            deny: vec![],
        }],
        sync_permissions: false,
        extra_channels: ChannelParamsExtraItemsStrategy::KEEP,
    };

    assert_eq!(
        params.to_category(&roles),
        Err(Error::UnknownRole("Team02".to_string()))
    );
}
