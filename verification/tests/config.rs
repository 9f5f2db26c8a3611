use chatbot::{Config, ConfigError};

fn settings(app_id: &str, allows: &str, forums: &str) -> Result<Config, ConfigError> {
    Config::from_settings(
        "SECRET-REDACTED".to_string(),
        app_id,
        "ws://localhost:18080/".to_string(),
        "key".to_string(),
        allows,
        forums,
    )
}

#[test]
fn settings_are_read() {
    let c = settings("123456789123456789", "1,2", "30").unwrap();
    assert_eq!(c.application_id, 123456789123456789);
    assert_eq!(c.chatgpt_allows, vec![1, 2]);
    assert_eq!(c.chatgpt_forums, vec![30]);
    assert_eq!(c.token, "SECRET-REDACTED");
    assert_eq!(c.llama_url, "ws://localhost:18080/");
    assert_eq!(c.openai_key, "key");
}

#[test]
fn first_unreadable_setting_is_reported() {
    assert_eq!(settings("x", "a", "b"), Err(ConfigError::ChatgptAllows));
    assert_eq!(settings("x", "1", "b"), Err(ConfigError::ChatgptForums));
    assert_eq!(settings("x", "1", "2"), Err(ConfigError::ApplicationId));
    assert_eq!(settings("-1", "1", "2"), Err(ConfigError::ApplicationId));
}

#[test]
fn allowed_users_and_forums() {
    let c = settings("7", "5,-1", "9").unwrap();
    assert!(c.allows(5));
    assert!(!c.allows(6));
    // ids are compared as i64, so u64::MAX reads as -1
    assert!(c.allows(u64::MAX));
    assert!(c.is_chatgpt_forum(9));
    assert!(!c.is_chatgpt_forum(5));
}

#[test]
fn mention_text() {
    let c = settings("123456789123456789", "1", "2").unwrap();
    assert_eq!(c.mention(), "<@123456789123456789>");
    assert_eq!(c.mention(), format!("<@{}>", c.application_id));
}
