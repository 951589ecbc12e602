use spamwatch_api::settings::{
    DatabaseCfg, General, ServerCfg, Settings, DEFAULT_ANTIFLOOD_WINDOW, DEFAULT_MASTER_ID,
    DEFAULT_TOKEN_SIZE,
};

#[test]
fn defaults_are_the_documented_ones() {
    assert_eq!(
        Settings::default(),
        Settings {
            database: DatabaseCfg {
                host: "127.0.0.1".to_string(),
                port: 5432,
                name: "SpamWatchAPI".to_string(),
                username: "SpamWatchAPI".to_string(),
                password: String::new(),
            },
            server: ServerCfg { host: "127.0.0.1".to_string(), port: 6345 },
            general: General {
                masterid: 777000,
                token_size: 64,
                staging: false,
                antiflood_window: 300,
            },
        }
    );
}

#[test]
fn default_constants() {
    assert_eq!(DEFAULT_MASTER_ID, 777000);
    assert_eq!(DEFAULT_TOKEN_SIZE, 64);
    assert_eq!(DEFAULT_ANTIFLOOD_WINDOW, 300);
}

#[test]
fn unset_master_is_noticed() {
    let mut settings = Settings::default();
    assert!(settings.master_is_default());
    settings.general.masterid = 12345;
    assert!(!settings.master_is_default());
}
