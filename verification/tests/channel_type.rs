use disma::channel::{
    AwaitingChannel, Channel, ChannelType, ChannelsList, ExistingChannel,
};
use disma::category::ExistingCategory;
use disma::error::Error;
use disma::overwrites::PermissionsOverwritesList;

fn channel(id: &str, name: &str, kind: ChannelType, category: Option<&str>) -> ExistingChannel {
    ExistingChannel {
        id: id.to_string(),
        name: name.to_string(),
        topic: None,
        channel_type: kind,
        category: category.map(|name| ExistingCategory {
            id: "c".to_string(),
            name: name.to_string(),
            overwrites: PermissionsOverwritesList::from(vec![]),
        }),
        overwrites: PermissionsOverwritesList::from(vec![]),
    }
}

#[test]
fn can_format_to_string() {
    let formatted = ChannelType::TEXT.to_string();
    assert_eq!(formatted, "TEXT");
}

#[test]
fn can_be_parsed_from_string() {
    let parsed = ChannelType::from_str("TEXT").unwrap();
    assert_eq!(parsed, ChannelType::TEXT);
}

#[test]
fn given_invalid_string_it_cannot_parse_from_string() {
    let parsed = ChannelType::from_str("bullshit");
    assert!(parsed.is_err());
}

#[test]
fn voice_is_written_and_read_too() {
    assert_eq!(ChannelType::VOICE.to_string(), "VOICE");
    assert_eq!(ChannelType::from_str("VOICE"), Ok(ChannelType::VOICE));
    assert_eq!(
        ChannelType::from_str("text"),
        Err(Error::UnknownChannelType("text".to_string()))
    );
}

#[test]
fn unique_name_tells_category_name_and_kind() {
    assert_eq!(
        channel("1", "general", ChannelType::TEXT, Some("Team")).unique_name(),
        "Team:general (TEXT)"
    );
    assert_eq!(
        channel("2", "lobby", ChannelType::VOICE, None).unique_name(),
        ":lobby (VOICE)"
    );
}

#[test]
fn channel_is_found_by_name_kind_and_category() {
    let channels = ChannelsList::from(vec![
        channel("1", "general", ChannelType::TEXT, None),
        channel("2", "general", ChannelType::VOICE, None),
        channel("3", "general", ChannelType::TEXT, Some("Team")),
        channel("4", "general", ChannelType::TEXT, Some("Team")),
    ]);

    assert_eq!(channels.find("general", ChannelType::TEXT, None).unwrap().id, "1");
    assert_eq!(channels.find("general", ChannelType::VOICE, None).unwrap().id, "2");
    assert_eq!(
        channels
            .find("general", ChannelType::TEXT, Some("Team".to_string()))
            .unwrap()
            .id,
        "3"
    );
    assert!(channels
        .find("general", ChannelType::VOICE, Some("Team".to_string()))
        .is_none());
    assert!(channels.find("other", ChannelType::TEXT, None).is_none());
    assert_eq!(channels.items().len(), 4);
}

#[test]
fn live_channel_taken_as_wanted_is_the_same_channel() {
    let live = channel("1", "general", ChannelType::TEXT, Some("Team"));
    let wanted: AwaitingChannel = live.to_awaiting();

    assert!(live.same_as(&wanted));
    assert_eq!(live.diffs_with(&wanted), vec![]);
    assert_eq!(wanted.unique_name(), live.unique_name());
}
