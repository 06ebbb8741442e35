//! Service configuration: the top-level settings record, its mail and
//! directory-integration sections, and the built-in defaults.

use vstd::prelude::*;

verus! {

/// Mail-notification settings.
#[derive(Debug, Clone)]
pub struct SmtpConfig {
    pub server: String,
    pub port: u16,
    pub username: String,
    pub password: String,
    pub use_tls: bool,
}

/// Directory-integration settings.
#[derive(Debug, Clone)]
pub struct ActiveDirectoryConfig {
    pub enabled: bool,
    pub server: String,
    pub domain: String,
    pub bind_dn: String,
    pub bind_password: String,
}

/// The service's top-level settings.
#[derive(Debug, Clone)]
pub struct Config {
    pub server_port: u16,
    pub scripts_dir: String,
    pub log_dir: String,
    pub retention_days: u32,
    pub admin_email: String,
    pub smtp: SmtpConfig,
    pub ad_integration: ActiveDirectoryConfig,
}

/// The built-in default configuration, used when no settings file exists.
pub fn default_config() -> (r: Config)
    ensures
        r.server_port == 8080,
        r.scripts_dir@ == "scripts"@,
        r.log_dir@ == "logs"@,
        r.retention_days == 365,
        r.admin_email@ == "admin@example.com"@,
        r.smtp.server@ == "smtp.example.com"@,
        r.smtp.port == 587,
        r.smtp.username@ == "notify@example.com"@,
        r.smtp.password@ == "change-me"@,
        r.smtp.use_tls == true,
        r.ad_integration.enabled == false,
        r.ad_integration.server@ == "ldap://ad.example.com"@,
        r.ad_integration.domain@ == "EXAMPLE"@,
        r.ad_integration.bind_dn@ == "cn=siem,ou=Service Accounts,dc=example,dc=com"@,
        r.ad_integration.bind_password@ == "change-me"@,
{
    Config {
        server_port: 8080,
        scripts_dir: "scripts".to_owned(),
        log_dir: "logs".to_owned(),
        retention_days: 365,
        admin_email: "admin@example.com".to_owned(),
        smtp: SmtpConfig {
            server: "smtp.example.com".to_owned(),
            port: 587,
            username: "notify@example.com".to_owned(),
            password: "change-me".to_owned(),
            use_tls: true,
        },
        ad_integration: ActiveDirectoryConfig {
            enabled: false,
            server: "ldap://ad.example.com".to_owned(),
            domain: "EXAMPLE".to_owned(),
            bind_dn: "cn=siem,ou=Service Accounts,dc=example,dc=com".to_owned(),
            bind_password: "change-me".to_owned(),
        },
    }
}

} // verus!
