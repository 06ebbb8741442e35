use netpolicy::access::AccessControl;

#[test]
fn default_roles_hold_their_permissions() {
    let ac = AccessControl::new();
    assert!(ac.check_permission("admin", "script:write"));
    assert!(ac.check_permission("admin", "user:write"));
    assert!(ac.check_permission("technician", "script:execute"));
    assert!(ac.check_permission("technician", "printer:read"));
    assert!(ac.check_permission("user", "ticket:create"));
    assert!(ac.check_permission("user", "ticket:read_own"));
}

#[test]
fn default_roles_lack_foreign_permissions() {
    let ac = AccessControl::new();
    assert!(!ac.check_permission("technician", "script:write"));
    assert!(!ac.check_permission("user", "ticket:read"));
    assert!(!ac.check_permission("admin", "ticket:create"));
}

#[test]
fn unknown_role_has_no_permissions() {
    let ac = AccessControl::new();
    assert!(!ac.check_permission("guest", "ticket:read"));
}

#[test]
fn add_permission_to_existing_role() {
    let mut ac = AccessControl::new();
    ac.add_permission("user", "printer:read");
    assert!(ac.check_permission("user", "printer:read"));
    assert!(ac.check_permission("user", "ticket:create"));
    assert!(!ac.check_permission("technician", "user:write"));
}

#[test]
fn add_permission_creates_missing_role() {
    let mut ac = AccessControl::new();
    ac.add_permission("auditor", "ticket:read");
    assert!(ac.check_permission("auditor", "ticket:read"));
    assert!(!ac.check_permission("auditor", "ticket:write"));
}

#[test]
fn remove_permission_revokes_it() {
    let mut ac = AccessControl::new();
    ac.remove_permission("technician", "ticket:write");
    assert!(!ac.check_permission("technician", "ticket:write"));
    assert!(ac.check_permission("technician", "ticket:read"));
}

#[test]
fn remove_permission_on_unknown_role_changes_nothing() {
    let mut ac = AccessControl::new();
    ac.remove_permission("guest", "ticket:read");
    assert!(ac.check_permission("admin", "script:read"));
    assert!(!ac.check_permission("guest", "ticket:read"));
}
