use wait::config::{config_from_env, deprecated_names_in_use};
use wait::env_reader::{env_var, env_var_exists};

fn set_env(
    hosts: &str,
    timeout: &str,
    before: &str,
    after: &str,
    sleep: &str,
    tcp_timeout: &str,
    command: &str,
) -> Vec<(String, String)> {
    vec![
        ("WAIT_BEFORE_HOSTS".to_string(), before.to_string()),
        ("WAIT_AFTER_HOSTS".to_string(), after.to_string()),
        ("WAIT_HOSTS_TIMEOUT".to_string(), timeout.to_string()),
        ("WAIT_HOST_CONNECT_TIMEOUT".to_string(), tcp_timeout.to_string()),
        ("WAIT_HOSTS".to_string(), hosts.to_string()),
        ("WAIT_SLEEP_INTERVAL".to_string(), sleep.to_string()),
        ("WAIT_COMMAND".to_string(), command.to_string()),
    ]
}

fn pair(key: &str, value: &str) -> (String, String) {
    (key.to_string(), value.to_string())
}

#[test]
fn should_return_an_env_variable() {
    let env = vec![pair("HOME", "/root"), pair("EMPTY", ""), pair("PATH", "/bin")];
    assert!(env_var_exists(&env, "PATH"));
    assert_eq!("/bin", env_var(&env, "PATH", String::from("")));
    assert!(env_var_exists(&env, "EMPTY"));
    assert_eq!("", env_var(&env, "EMPTY", String::from("x")));
}

#[test]
fn should_return_the_default_value_if_env_variable_not_present() {
    let env = vec![pair("HOME", "/root")];
    let env_key = "-4387326718365473264";
    assert!(!env_var_exists(&env, env_key));
    assert_eq!("-4387326718365473254", env_var(&env, env_key, "-4387326718365473254".to_string()));
}

#[test]
fn env_var_takes_the_first_of_two_entries() {
    let env = vec![pair("A", "1"), pair("A", "2")];
    assert_eq!("1", env_var(&env, "A", String::new()));
}

#[test]
fn config_should_use_default_values() {
    let env = set_env("", "", "10o", "10", "", "abc", "");
    let config = config_from_env(&env).unwrap();
    assert_eq!("".to_string(), config.hosts);
    assert_eq!(30, config.global_timeout);
    assert_eq!(5, config.tcp_connection_timeout);
    assert_eq!(0, config.wait_before);
    assert_eq!(10, config.wait_after);
}

#[test]
fn should_get_config_values_from_env() {
    let env = set_env("localhost:1234", "20", "2", "3", "4", "23", "");
    let config = config_from_env(&env).unwrap();
    assert_eq!("localhost:1234".to_string(), config.hosts);
    assert_eq!(20, config.global_timeout);
    assert_eq!(23, config.tcp_connection_timeout);
    assert_eq!(2, config.wait_before);
    assert_eq!(3, config.wait_after);
    assert_eq!(4, config.wait_sleep_interval);
}

#[test]
fn should_get_default_config_values() {
    let env = set_env("localhost:1234", "", "", "", "", "", "");
    let config = config_from_env(&env).unwrap();
    assert_eq!("localhost:1234".to_string(), config.hosts);
    assert_eq!(30, config.global_timeout);
    assert_eq!(5, config.tcp_connection_timeout);
    assert_eq!(0, config.wait_before);
    assert_eq!(0, config.wait_after);
    assert_eq!(1, config.wait_sleep_interval);
}

#[test]
fn config_of_an_empty_environment_has_every_default() {
    let config = config_from_env(&Vec::new()).unwrap();
    assert_eq!("", config.hosts);
    assert_eq!("", config.paths);
    assert!(config.command.is_none());
    assert_eq!(30, config.global_timeout);
    assert_eq!(5, config.tcp_connection_timeout);
    assert_eq!(0, config.wait_before);
    assert_eq!(0, config.wait_after);
    assert_eq!(1, config.wait_sleep_interval);
}

#[test]
#[should_panic]
fn should_panic_when_given_an_invalid_command() {
    let env = set_env("", "", "", "", "", "", "a 'b");
    config_from_env(&env).expect("failed to parse command value from environment");
}

#[test]
fn config_reports_an_invalid_command() {
    let env = set_env("", "", "", "", "", "", "a 'b");
    assert!(config_from_env(&env).is_err());
}

#[test]
fn config_reads_paths_and_command() {
    let env = vec![
        pair("WAIT_PATHS", "/var/run/a, /tmp/b"),
        pair("WAIT_COMMAND", "  app --port 80 "),
    ];
    let config = config_from_env(&env).unwrap();
    assert_eq!("/var/run/a, /tmp/b", config.paths);
    let (command, line) = config.command.unwrap();
    assert_eq!("app --port 80", line);
    assert_eq!("app", command.program);
    assert_eq!(vec!["--port", "80"], command.argv);
}

#[test]
fn primary_names_win_over_legacy_names() {
    let env = vec![
        pair("WAIT_HOSTS_TIMEOUT", "11"),
        pair("WAIT_TIMEOUT", "12"),
        pair("WAIT_BEFORE_HOSTS", "21"),
        pair("WAIT_BEFORE", "22"),
        pair("WAIT_AFTER", "32"),
        pair("WAIT_AFTER_HOSTS", "31"),
    ];
    let config = config_from_env(&env).unwrap();
    assert_eq!(12, config.global_timeout);
    assert_eq!(22, config.wait_before);
    assert_eq!(32, config.wait_after);
}

#[test]
fn legacy_names_apply_alone() {
    let env = vec![
        pair("WAIT_HOSTS_TIMEOUT", "11"),
        pair("WAIT_BEFORE_HOSTS", "21"),
        pair("WAIT_AFTER_HOSTS", "31"),
    ];
    let config = config_from_env(&env).unwrap();
    assert_eq!(11, config.global_timeout);
    assert_eq!(21, config.wait_before);
    assert_eq!(31, config.wait_after);
}

#[test]
fn an_empty_primary_value_still_wins() {
    let env = vec![pair("WAIT_TIMEOUT", ""), pair("WAIT_HOSTS_TIMEOUT", "11")];
    let config = config_from_env(&env).unwrap();
    assert_eq!(30, config.global_timeout);
}

#[test]
fn deprecated_names_are_reported_beside_their_replacements() {
    let env = vec![pair("WAIT_AFTER_HOSTS", "1"), pair("WAIT_HOSTS_TIMEOUT", "2"), pair("WAIT_BEFORE", "3")];
    assert_eq!(
        vec![
            ("WAIT_HOSTS_TIMEOUT".to_string(), "WAIT_TIMEOUT".to_string()),
            ("WAIT_AFTER_HOSTS".to_string(), "WAIT_AFTER".to_string()),
        ],
        deprecated_names_in_use(&env)
    );
    assert!(deprecated_names_in_use(&vec![pair("WAIT_TIMEOUT", "5")]).is_empty());
}
