use cfddns::config::{Config, NotificationConfig, DEFAULT_INTERVAL};

fn bare() -> Config {
    Config { token: "SECRET-REDACTED".to_string(), interval: None, endpoint: None, notification: None }
}

fn mail(enabled: bool) -> NotificationConfig {
    NotificationConfig {
        enabled,
        from: "ddns@example.com".to_string(),
        to: "ops@example.com".to_string(),
    }
}

#[test]
fn interval_defaults_to_ten_minutes() {
    assert_eq!(DEFAULT_INTERVAL, 600);
    assert_eq!(bare().interval_seconds(), 600);
}

#[test]
fn configured_interval_is_used() {
    let mut config = bare();
    config.interval = Some(30);
    assert_eq!(config.interval_seconds(), 30);
    config.interval = Some(0);
    assert_eq!(config.interval_seconds(), 0);
    config.interval = Some(u64::MAX);
    assert_eq!(config.interval_seconds(), u64::MAX);
}

#[test]
fn endpoint_defaults_to_ipify() {
    assert_eq!(bare().endpoint_url(), "https://api.ipify.org");
}

#[test]
fn configured_endpoint_is_used() {
    let mut config = bare();
    config.endpoint = Some("https://ip.example.net/".to_string());
    assert_eq!(config.endpoint_url(), "https://ip.example.net/");
    config.endpoint = Some(String::new());
    assert_eq!(config.endpoint_url(), "");
}

#[test]
fn no_mail_without_notification_settings() {
    assert_eq!(bare().mail_for(true), None);
    assert_eq!(bare().mail_for(false), None);
}

#[test]
fn no_mail_when_notifications_are_disabled() {
    let mut config = bare();
    config.notification = Some(mail(false));
    assert_eq!(config.mail_for(true), None);
    assert_eq!(config.mail_for(false), None);
}

#[test]
fn mail_only_for_notable_passes() {
    let mut config = bare();
    config.notification = Some(mail(true));
    assert_eq!(config.mail_for(true), Some(&mail(true)));
    assert_eq!(config.mail_for(false), None);
}
