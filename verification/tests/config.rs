use animus_trigger_webhook::config::{
    auth_token_setting, channel_buffer_setting, listen_addr_setting, parse_usize, ConfigError,
    ListenAddr, WebhookConfig, DEFAULT_CHANNEL_BUFFER, DEFAULT_LISTEN_ADDR,
};

#[test]
fn defaults_when_env_unset() {
    assert_eq!(listen_addr_setting(None), DEFAULT_LISTEN_ADDR);
    let addr = ListenAddr::V4 { octets: [127, 0, 0, 1], port: 7878 };
    let config = WebhookConfig::from_settings(addr, None, None).expect("default config should parse");
    assert_eq!(config.listen_addr, addr);
    assert_eq!(config.auth_token, None);
    assert_eq!(config.channel_buffer, DEFAULT_CHANNEL_BUFFER);
    assert_eq!(DEFAULT_CHANNEL_BUFFER, 256);
}

#[test]
fn listen_addr_setting_keeps_given_text() {
    assert_eq!(listen_addr_setting(Some("0.0.0.0:9000".to_string())), "0.0.0.0:9000");
}

#[test]
fn empty_token_disables_auth() {
    assert_eq!(auth_token_setting(Some(String::new())), None);
    assert_eq!(auth_token_setting(None), None);
    assert_eq!(auth_token_setting(Some("t".to_string())), Some("t".to_string()));
}

#[test]
fn channel_buffer_parsing() {
    assert_eq!(channel_buffer_setting(None).ok(), Some(256));
    assert_eq!(channel_buffer_setting(Some("10".to_string())).ok(), Some(10));
    assert_eq!(channel_buffer_setting(Some("0".to_string())).ok(), Some(1));
    assert_eq!(channel_buffer_setting(Some("+7".to_string())).ok(), Some(7));
    match channel_buffer_setting(Some("ten".to_string())) {
        Err(ConfigError::InvalidChannelBuffer(t)) => assert_eq!(t, "ten"),
        other => panic!("unexpected {other:?}"),
    }
}

#[test]
fn parse_usize_matches_std() {
    let cases = [
        "0", "7", "+7", "007", "", "+", "-1", "-0", "++1", " 1", "1 ", "1_000", "12a",
        "18446744073709551615", "18446744073709551616", "99999999999999999999999", "٣",
    ];
    for c in cases {
        assert_eq!(parse_usize(c), c.parse::<usize>().ok(), "case {c:?}");
    }
}

#[test]
fn for_testing_configs() {
    let addr = ListenAddr::V6 { segments: [0, 0, 0, 0, 0, 0, 0, 1], port: 0, flowinfo: 0, scope_id: 0 };
    let c = WebhookConfig::for_testing(addr);
    assert_eq!(c.listen_addr, addr);
    assert_eq!(c.auth_token, None);
    assert_eq!(c.channel_buffer, 32);
    let c = WebhookConfig::for_testing_with_auth(addr, "s3cret".to_string());
    assert_eq!(c.auth_token.as_deref(), Some("s3cret"));
    assert_eq!(c.channel_buffer, 32);
    match WebhookConfig::from_settings(addr, Some("tok".to_string()), Some("x".to_string())) {
        Err(ConfigError::InvalidChannelBuffer(t)) => assert_eq!(t, "x"),
        Ok(_) => panic!("expected an error"),
    }
}
