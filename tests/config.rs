use conduit::admin::{unix_secs_from_duration, AdminError};
use conduit::config::{default_attribute_mapping, default_ldap_enabled, default_user_filter};
use conduit::ldap::LdapUser;

#[test]
fn ldap_defaults() {
    assert!(!default_ldap_enabled());
    assert_eq!(default_user_filter(), "(uid=%u)");
    let m = default_attribute_mapping();
    assert_eq!(m.len(), 3);
    assert_eq!(m.get("localpart").map(String::as_str), Some("uid"));
    assert_eq!(m.get("displayname").map(String::as_str), Some("cn"));
    assert_eq!(m.get("email").map(String::as_str), Some("mail"));
}

#[test]
fn ldap_user_holds_its_fields() {
    let u = LdapUser {
        dn: "uid=a,dc=x".to_owned(),
        localpart: "a".to_owned(),
        displayname: "A".to_owned(),
        email: "a@x".to_owned(),
    };
    assert_eq!(u.localpart, "a");
}

#[test]
fn timeframe_start_in_seconds() {
    let now = 1_700_000_000_500_000_000u128;
    assert_eq!(unix_secs_from_duration(now, 3_600_000_000_000), Ok(1_699_996_400));
    assert_eq!(unix_secs_from_duration(now, 0), Ok(1_700_000_000));
    assert_eq!(unix_secs_from_duration(now, now), Ok(0));
    assert_eq!(
        unix_secs_from_duration(now, now + 1),
        Err(AdminError::TimeframeNotRepresentable)
    );
    assert_eq!(
        unix_secs_from_duration(u128::MAX, 0),
        Err(AdminError::TimeframeNotRepresentable)
    );
}
