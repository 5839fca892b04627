use chat_bridge::config::{ChannelBinding, Config};

fn binding(guilded: &str, discord: &str) -> ChannelBinding {
    ChannelBinding { guilded: guilded.to_owned(), discord: discord.to_owned() }
}

#[test]
fn configured_pair_is_found_from_both_sides() {
    let config = Config::new(vec![binding("G1", "C1"), binding("G2", "C2")]);
    assert_eq!(config.discord_channel("G1"), Some("C1"));
    assert_eq!(config.guilded_channel("C1"), Some("G1"));
    assert_eq!(config.discord_channel("G2"), Some("C2"));
    assert_eq!(config.guilded_channel("C2"), Some("G2"));
}

#[test]
fn unconfigured_channel_has_no_link() {
    let config = Config::new(vec![binding("G1", "C1")]);
    assert_eq!(config.discord_channel("C1"), None);
    assert_eq!(config.guilded_channel("G1"), None);
    assert_eq!(config.discord_channel("nope"), None);
    assert_eq!(config.guilded_channel("nope"), None);
}

#[test]
fn later_binding_of_a_channel_counts() {
    let config = Config::new(vec![binding("G1", "C1"), binding("G1", "C2")]);
    assert_eq!(config.discord_channel("G1"), Some("C2"));
    assert_eq!(config.guilded_channel("C1"), Some("G1"));
    assert_eq!(config.guilded_channel("C2"), Some("G1"));
    assert_eq!(config.text_channel_bindings.len(), 2);
}

#[test]
fn configuration_is_read_from_text() {
    let text = r#"{"text_channel_bindings": [
        {"guilded": "G1", "discord": "C1"},
        {"discord": "C2", "guilded": "G2", "note": "extra members are passed over"}
    ]}"#;
    let config = Config::parse(text).expect("a configuration");
    assert_eq!(
        config.text_channel_bindings,
        vec![binding("G1", "C1"), binding("G2", "C2")]
    );
    assert_eq!(config.discord_channel("G2"), Some("C2"));
    assert_eq!(config.guilded_channel("C1"), Some("G1"));
}

#[test]
fn empty_list_of_bindings_is_a_configuration() {
    let config = Config::parse(r#"{"text_channel_bindings": []}"#).expect("a configuration");
    assert!(config.text_channel_bindings.is_empty());
    assert_eq!(config.discord_channel("G1"), None);
}

#[test]
fn malformed_configuration_is_refused() {
    assert!(Config::parse("").is_none());
    assert!(Config::parse("not json").is_none());
    assert!(Config::parse("[]").is_none());
    assert!(Config::parse("{}").is_none());
    assert!(Config::parse(r#"{"text_channel_bindings": {}}"#).is_none());
    assert!(Config::parse(r#"{"text_channel_bindings": [], "other": 1}"#).is_none());
    assert!(Config::parse(r#"{"text_channel_bindings": [{"guilded": "G1"}]}"#).is_none());
    assert!(Config::parse(r#"{"text_channel_bindings": [{"guilded": "G1", "discord": 5}]}"#)
        .is_none());
    assert!(Config::parse(r#"{"text_channel_bindings": ["G1"]}"#).is_none());
}
