use disma::diff::Diff;
use disma::error::Error;
use disma::permission::{Permission, PermissionsList, PERMISSIONS};
use disma::text::{decimal, parse_decimal};

fn change(from: Option<&str>, to: Option<&str>) -> Diff {
    Diff::Change(from.map(str::to_string), to.map(str::to_string))
}

#[test]
fn permission_is_written_by_its_name() {
    assert_eq!(Permission::ADMINISTRATOR.to_string(), "ADMINISTRATOR");
    assert_eq!(Permission::MODERATE_MEMBERS.name(), "MODERATE_MEMBERS");
}

#[test]
fn permission_is_read_from_its_name() {
    assert_eq!(Permission::from_str("SEND_MESSAGES"), Ok(Permission::SEND_MESSAGES));
    assert_eq!(
        Permission::from_str("send_messages"),
        Err(Error::UnknownPermission("send_messages".to_string()))
    );
}

#[test]
fn every_permission_is_read_back_from_its_name_at_its_position() {
    for index in 0..PERMISSIONS {
        let permission = Permission::at(index);
        assert_eq!(permission.index(), index);
        assert_eq!(permission.flag(), 1u64 << index);
        assert_eq!(Permission::from_str(permission.name()), Ok(permission));
    }
}

#[test]
fn permission_weighs_two_to_the_power_of_its_position() {
    assert_eq!(Permission::CREATE_INSTANT_INVITE.flag(), 1);
    assert_eq!(Permission::ADMINISTRATOR.index(), 3);
    assert_eq!(Permission::ADMINISTRATOR.flag(), 8);
    assert_eq!(Permission::SEND_MESSAGES.flag(), 2048);
    assert_eq!(Permission::MODERATE_MEMBERS.flag(), 1099511627776);
}

#[test]
fn permission_code_is_the_sum_of_the_weights_of_the_flags() {
    assert_eq!(PermissionsList::from(vec![]).code(), "0");
    assert_eq!(PermissionsList::from(vec![Permission::ADMINISTRATOR]).code(), "8");
    assert_eq!(
        PermissionsList::from(vec![
            Permission::SEND_MESSAGES,
            Permission::ADMINISTRATOR,
            Permission::SEND_MESSAGES,
        ])
        .code(),
        "2056"
    );
    let all: Vec<Permission> = (0..PERMISSIONS).map(Permission::at).collect();
    assert_eq!(PermissionsList::from(all).code(), "2199023255551");
}

#[test]
fn permission_code_is_read_flag_by_flag() {
    assert_eq!(PermissionsList::from_code("0"), Ok(PermissionsList::from(vec![])));
    assert_eq!(
        PermissionsList::from_code("2056"),
        Ok(PermissionsList::from(vec![
            Permission::ADMINISTRATOR,
            Permission::SEND_MESSAGES
        ]))
    );
    assert_eq!(
        PermissionsList::from_code("4398046511112"),
        Ok(PermissionsList::from(vec![Permission::ADMINISTRATOR]))
    );
    assert_eq!(
        PermissionsList::from_code("8 "),
        Err(Error::InvalidPermissionsCode("8 ".to_string()))
    );
    assert_eq!(
        PermissionsList::from_code(""),
        Err(Error::InvalidPermissionsCode("".to_string()))
    );
}

#[test]
fn lists_are_compared_as_sets() {
    let one = PermissionsList::from(vec![Permission::SPEAK, Permission::CONNECT]);
    let other = PermissionsList::from(vec![
        Permission::CONNECT,
        Permission::SPEAK,
        Permission::CONNECT,
    ]);
    let third = PermissionsList::from(vec![Permission::CONNECT]);

    assert!(one.same_as(&other));
    assert!(!one.same_as(&third));
    assert!(one.contains(Permission::SPEAK));
    assert!(!third.contains(Permission::SPEAK));
    assert_eq!(one.diffs_with(&other), vec![]);
}

#[test]
fn differences_tell_what_left_and_then_what_joined() {
    let from = PermissionsList::from(vec![
        Permission::SPEAK,
        Permission::CONNECT,
        Permission::ADMINISTRATOR,
    ]);
    let to = PermissionsList::from(vec![
        Permission::STREAM,
        Permission::CONNECT,
        Permission::KICK_MEMBERS,
    ]);

    assert_eq!(
        from.diffs_with(&to),
        vec![
            change(Some("ADMINISTRATOR"), None),
            change(Some("SPEAK"), None),
            change(None, Some("KICK_MEMBERS")),
            change(None, Some("STREAM")),
        ]
    );
}

#[test]
fn names_are_read_and_written_in_the_order_given() {
    let names = vec!["SPEAK".to_string(), "CONNECT".to_string()];

    let list = PermissionsList::from_names(&names).unwrap();

    assert_eq!(list.items, vec![Permission::SPEAK, Permission::CONNECT]);
    assert_eq!(list.names(), names);
    assert_eq!(
        PermissionsList::from_names(&vec![
            "SPEAK".to_string(),
            "WALK".to_string(),
            "RUN".to_string()
        ]),
        Err(Error::UnknownPermission("WALK".to_string()))
    );
}

#[test]
fn numbers_are_written_in_decimal_notation() {
    assert_eq!(decimal(0), "0");
    assert_eq!(decimal(7), "7");
    assert_eq!(decimal(10), "10");
    assert_eq!(decimal(2056), "2056");
    assert_eq!(decimal(u64::MAX), "18446744073709551615");
}

#[test]
fn numbers_are_read_from_runs_of_digits_only() {
    assert_eq!(parse_decimal("0"), Some(0));
    assert_eq!(parse_decimal("007"), Some(7));
    assert_eq!(parse_decimal("2056"), Some(2056));
    assert_eq!(parse_decimal("18446744073709551615"), Some(u64::MAX));
    assert_eq!(parse_decimal("18446744073709551616"), None);
    assert_eq!(parse_decimal("99999999999999999999999"), None);
    assert_eq!(parse_decimal(""), None);
    assert_eq!(parse_decimal("+1"), None);
    assert_eq!(parse_decimal("-1"), None);
    assert_eq!(parse_decimal("12a"), None);
}

#[test]
fn failures_say_what_they_are_about() {
    assert_eq!(
        Error::UnknownRole("Team01".to_string()).message(),
        "No role found with name Team01"
    );
    assert_eq!(
        Error::UnknownCategory("Team".to_string()).message(),
        "No category found with name Team"
    );
    assert_eq!(
        Error::MissingCategory("general".to_string()).message(),
        "Category cannot be empty for overriding permissions overwrites of extra channel general"
    );
    assert_eq!(
        Error::UnsupportedOverwriteType(1).message(),
        "Unsupported permissions overwrite type 1"
    );
    assert_eq!(
        Error::UnknownRoleId("42".to_string()).message(),
        "No role found with id 42"
    );
    assert_eq!(
        Error::UnknownPermission("FLY".to_string()).message(),
        "No permission found with name FLY"
    );
    assert_eq!(
        Error::UnknownChannelType("STAGE".to_string()).message(),
        "No channel type found with name STAGE"
    );
    assert_eq!(
        Error::InvalidPermissionsCode("x".to_string()).message(),
        "Invalid permissions code x"
    );
}
