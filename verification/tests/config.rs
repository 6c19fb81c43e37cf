use haut_network_guard::config::{decode_password, encode_password, probe_event, AppConfig};
use haut_network_guard::status::{parse_status, NetworkStatus};
use haut_network_guard::supervisor::Event;

fn config(username: &str, password: &str, has_configured: bool) -> AppConfig {
    AppConfig {
        username: username.to_string(),
        password: password.to_string(),
        has_configured,
        ..AppConfig::default()
    }
}

#[test]
fn default_config_is_empty() {
    let config = AppConfig::default();
    assert_eq!(config.username, "");
    assert_eq!(config.password, "");
    assert!(!config.auto_save);
    assert!(!config.auto_launch);
    assert!(!config.has_configured);
    assert_eq!(config.skipped_version, "");
    assert!(!config.credentials_ready());
}

#[test]
fn credentials_are_ready_only_when_entered_and_both_present() {
    assert!(config("alice", "secret", true).credentials_ready());
    assert!(!config("alice", "secret", false).credentials_ready());
    assert!(!config("", "secret", true).credentials_ready());
    assert!(!config("alice", "", true).credentials_ready());
    assert!(!config("", "", true).credentials_ready());
}

#[test]
fn probe_event_reports_status_and_credentials() {
    let offline = NetworkStatus::default();
    let online = parse_status("alice,120,10.0.0.5,2048");
    assert_eq!(
        probe_event(&offline, &config("alice", "secret", true)),
        Event::Probed { online: false, credentials_ready: true }
    );
    assert_eq!(
        probe_event(&offline, &config("alice", "", true)),
        Event::Probed { online: false, credentials_ready: false }
    );
    assert_eq!(
        probe_event(&online, &config("alice", "secret", true)),
        Event::Probed { online: true, credentials_ready: true }
    );
}

#[test]
fn stored_password_is_masked_byte_by_byte() {
    // 'a' ^ 0x5a = ';', 'Z' ^ 0x5a = NUL, '1' ^ 0x5a = 'k'
    assert_eq!(encode_password("aZ1"), ";\u{0}k");
    assert_eq!(decode_password(";\u{0}k"), "aZ1");
    assert_eq!(encode_password(""), "");
    for password in ["secret", "P@ssw0rd!", "~ ~", "0123456789"] {
        assert_eq!(decode_password(&encode_password(password)), password);
    }
    // A byte above ASCII becomes the character with the masked byte's code point.
    assert_eq!(encode_password("\u{e9}"), "\u{99}\u{f3}");
}
