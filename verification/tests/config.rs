use nwws_oi::{Channel, Config, RoomAddress, Server};

#[test]
fn server() {
    assert_eq!(Server::Primary, Default::default());

    // https://www.weather.gov/nwws/configuration
    assert_eq!(Server::Primary.hostname(), "nwws-oi.weather.gov");
    assert_eq!(Server::Backup.hostname(), "nwws-oi-md.weather.gov");
    assert_eq!(Server::Custom("foo".into()).hostname(), "foo");
}

#[test]
fn channel() {
    assert_eq!(Channel::Default, Default::default());

    assert_eq!(
        Channel::Default.jid("foo"),
        "NWWS@conference.nwws-oi.weather.gov/foo"
    );

    assert_eq!(
        Channel::Custom(RoomAddress {
            local: Some("bar".to_string()),
            domain: "baz".to_string(),
        })
        .jid("foo"),
        "bar@baz/foo"
    );

    assert_eq!(
        Channel::Custom(RoomAddress {
            local: None,
            domain: "baz".to_string(),
        })
        .jid("foo"),
        "baz/foo"
    );
}

#[test]
fn config_new_defaults() {
    let config = Config::new("user".to_string(), "pass".to_string());
    assert_eq!(config.username, "user");
    assert_eq!(config.password, "pass");
    assert_eq!(config.server, Server::Primary);
    assert_eq!(config.channel, Channel::Default);
    assert!(config.resource.starts_with("uuid/"));
    assert_eq!(config.resource.chars().count(), 41);
}

#[test]
fn config_new_resources_differ() {
    let a = Config::new("user".to_string(), "pass".to_string());
    let b = Config::new("user".to_string(), "pass".to_string());
    assert_ne!(a.resource, b.resource);
}

#[test]
fn config_jid_format() {
    let config = Config {
        username: "user".to_string(),
        password: "pass".to_string(),
        resource: "res".to_string(),
        server: Server::Primary,
        channel: Channel::Default,
    };
    assert_eq!(config.jid(), "user@nwws-oi.weather.gov/res");

    let config = Config {
        username: "user".to_string(),
        password: "pass".to_string(),
        resource: "res".to_string(),
        server: Server::Custom("example.org".to_string()),
        channel: Channel::Default,
    };
    assert_eq!(config.jid(), "user@example.org/res");
}
