use netpolicy::config::default_config;
use netpolicy::models::LogSeverity;

#[test]
fn default_config_values() {
    let c = default_config();
    assert_eq!(c.server_port, 8080);
    assert_eq!(c.scripts_dir, "scripts");
    assert_eq!(c.log_dir, "logs");
    assert_eq!(c.retention_days, 365);
    assert_eq!(c.admin_email, "admin@example.com");
    assert_eq!(c.smtp.server, "smtp.example.com");
    assert_eq!(c.smtp.port, 587);
    assert_eq!(c.smtp.username, "notify@example.com");
    assert_eq!(c.smtp.password, "change-me");
    assert!(c.smtp.use_tls);
    assert!(!c.ad_integration.enabled);
    assert_eq!(c.ad_integration.server, "ldap://ad.example.com");
    assert_eq!(c.ad_integration.domain, "EXAMPLE");
    assert_eq!(c.ad_integration.bind_dn, "cn=siem,ou=Service Accounts,dc=example,dc=com");
    assert_eq!(c.ad_integration.bind_password, "change-me");
}

#[test]
fn severity_labels() {
    assert_eq!(LogSeverity::Debug.label(), "DEBUG");
    assert_eq!(LogSeverity::Info.label(), "INFO");
    assert_eq!(LogSeverity::Warning.label(), "WARNING");
    assert_eq!(LogSeverity::Error.label(), "ERROR");
    assert_eq!(LogSeverity::Critical.label(), "CRITICAL");
}
