use rust_server_for_multiplayer::config::{
    default_ice_servers, Account, Auth, Config, ConfigError, Http, IceServer, Log,
    MetaDataPubMax, MetaDataSubMax, PublishLeaveTimeout, ReforwardMaximumIdleTime, StreamInfo,
};

fn ice(urls: Vec<&str>, username: &str, credential: &str) -> IceServer {
    IceServer {
        urls: urls.into_iter().map(|u| u.to_string()).collect(),
        username: username.to_string(),
        credential: credential.to_string(),
        credential_type: String::new(),
    }
}

fn config_with(pub_max: u64, sub_max: u64, servers: Vec<IceServer>) -> Config {
    Config {
        http: Http::default(),
        ice_servers: servers,
        auth: Auth::default(),
        log: Log::default(),
        stream_info: StreamInfo {
            pub_max: MetaDataPubMax(pub_max),
            sub_max: MetaDataSubMax(sub_max),
            reforward_close_sub: false,
            publish_leave_timeout: PublishLeaveTimeout::default(),
        },
    }
}

#[test]
fn default_config_is_valid() {
    let c = Config::default();
    assert!(c.validate().is_ok());
    assert_eq!(c.stream_info.pub_max.0, u64::MAX);
    assert_eq!(c.stream_info.sub_max.0, u64::MAX);
    assert_eq!(c.stream_info.publish_leave_timeout.0, 15000);
    assert_eq!(c.log.level, "info");
    assert_eq!(c.http.listen, "0.0.0.0:7777");
    assert!(!c.http.cors);
}

#[test]
fn default_ice_server_list() {
    let servers = default_ice_servers();
    assert_eq!(servers.len(), 1);
    assert_eq!(servers[0].urls, vec!["stun:stun.l.google.com:19302".to_string()]);
    assert!(servers[0].username.is_empty());
    assert!(servers[0].credential.is_empty());
}

#[test]
fn other_defaults() {
    assert_eq!(PublishLeaveTimeout::default().0, 15000);
    assert_eq!(MetaDataPubMax::default().0, u64::MAX);
    assert_eq!(MetaDataSubMax::default().0, u64::MAX);
    assert_eq!(ReforwardMaximumIdleTime::default().0, 60000);
}

#[test]
fn pub_max_zero_rejected() {
    let c = config_with(0, 10, vec![]);
    assert_eq!(c.validate(), Err(ConfigError::PubMaxZero));
}

#[test]
fn sub_max_zero_rejected() {
    let c = config_with(1, 0, vec![]);
    assert_eq!(c.validate(), Err(ConfigError::SubMaxZero));
}

#[test]
fn pub_max_above_sub_max_rejected() {
    let c = config_with(5, 2, vec![]);
    assert_eq!(c.validate(), Err(ConfigError::PubMaxExceedsSubMax));
}

#[test]
fn turn_url_without_credentials_rejected() {
    let c = config_with(1, 10, vec![ice(vec!["turn:turn.example.org:3478?transport=udp"], "", "")]);
    assert_eq!(c.validate(), Err(ConfigError::NoTurnCredentials));
    let c = config_with(1, 10, vec![ice(vec!["turns:turn.example.org:5349"], "user", "")]);
    assert_eq!(c.validate(), Err(ConfigError::NoTurnCredentials));
}

#[test]
fn turn_url_with_credentials_accepted() {
    let c = config_with(
        1,
        10,
        vec![ice(vec!["turn:turn.example.org:3478?transport=udp"], "user", "pass")],
    );
    assert!(c.validate().is_ok());
}

#[test]
fn invalid_ice_url_rejected() {
    let c = config_with(1, 10, vec![ice(vec!["no scheme here"], "", "")]);
    assert_eq!(c.validate(), Err(ConfigError::InvalidIceUrl));
    let c = config_with(1, 10, vec![ice(vec!["http://example.org"], "", "")]);
    assert_eq!(c.validate(), Err(ConfigError::InvalidIceUrl));
}

#[test]
fn stun_urls_accepted_without_credentials() {
    let c = config_with(1, 10, vec![ice(vec!["stun:stun.example.org:3478"], "", "")]);
    assert!(c.validate().is_ok());
}

#[test]
fn basic_authorization_encoding() {
    let account = Account { username: "user".to_string(), password: "pass".to_string() };
    assert_eq!(account.to_authorization(), "Basic dXNlcjpwYXNz");
}

#[test]
fn empty_account_authorization() {
    let account = Account { username: String::new(), password: String::new() };
    // base64 of ":" alone
    assert_eq!(account.to_authorization(), "Basic Og==");
}

#[test]
fn authorizations_accounts_then_tokens() {
    let auth = Auth {
        accounts: vec![
            Account { username: "admin".to_string(), password: "secret".to_string() },
        ],
        tokens: vec!["tok123".to_string(), "tok456".to_string()],
    };
    let lines = auth.to_authorizations();
    assert_eq!(
        lines,
        vec![
            "Basic YWRtaW46c2VjcmV0".to_string(),
            "Bearer tok123".to_string(),
            "Bearer tok456".to_string(),
        ]
    );
}

#[test]
fn no_auth_configured_yields_no_lines() {
    let auth = Auth::default();
    assert!(auth.to_authorizations().is_empty());
}
