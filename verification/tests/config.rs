use uttt_matchmaking::config::{config_path, ConfigStruct, KeepaliveParams, DEFAULT_CONFIG_PATH};

fn args(words: &[&str]) -> Vec<String> {
    words.iter().map(|word| word.to_string()).collect()
}

#[test]
fn default_config_path_is_used_without_an_argument() {
    assert_eq!(DEFAULT_CONFIG_PATH, "config.json");
    assert_eq!(config_path(&args(&["server"])), "config.json");
    assert_eq!(config_path(&args(&[])), "config.json");
}

#[test]
fn first_argument_names_the_config_file() {
    assert_eq!(config_path(&args(&["server", "/etc/uttt.json"])), "/etc/uttt.json");
    assert_eq!(config_path(&args(&["server", "a", "b"])), "a");
    assert_eq!(config_path(&args(&["server", ""])), "");
}

#[test]
fn keepalive_interval_serves_twice() {
    let config = ConfigStruct {
        listen_addr: "0.0.0.0".to_string(),
        listen_port: 3000,
        listen_backlog: 128,
        keepalive_interval: 10,
        keepalive_retries: 3,
    };
    assert_eq!(
        config.keepalive_params(),
        KeepaliveParams { time: 10, interval: 10, retries: 3 }
    );
}
