use ddns_core::client::{authorize_hostnames, validate, Client, HostnameUpdate, User};
use ddns_core::error::ResponseError;
use ddns_core::ipv4::Ipv4Addr;
use ddns_core::store::{AttributeValue, Item};
use ddns_core::zones::ZoneGroup;

fn names(v: &[&str]) -> Vec<String> {
    v.iter().map(|s| s.to_string()).collect()
}

fn stored_user(username: &str, password: &str, domains: &[&str]) -> Item {
    User::new(username, password, names(domains)).unwrap().into_item()
}

#[test]
fn new_user_verifies_its_password() {
    let user = User::new("alice1234", "secret99", names(&["alice.example.com"])).unwrap();
    assert_eq!(user.username(), "alice1234");
    assert_ne!(user.password(), "secret99");
    assert!(user.password().starts_with("$argon2id$"));
    assert_eq!(user.compare_password("secret99").unwrap(), true);
    assert_eq!(user.compare_password("secret98").unwrap(), false);
    assert_eq!(user.compare_password("").unwrap(), false);
}

#[test]
fn new_user_keeps_each_hostname_once() {
    let user = User::new("alice1234", "secret99", names(&["a.com", "b.com", "a.com"])).unwrap();
    assert_eq!(user.domains(), &names(&["a.com", "b.com"]));
    assert!(user.has_domain("a.com"));
    assert!(user.has_domain("b.com"));
    assert!(!user.has_domain("c.com"));
}

#[test]
fn set_password_replaces_the_hash() {
    let mut user = User::new("alice1234", "secret99", names(&["a.com"])).unwrap();
    let before = user.password().clone();
    user.set_password("another77").unwrap();
    assert_ne!(user.password(), &before);
    assert_eq!(user.compare_password("another77").unwrap(), true);
    assert_eq!(user.compare_password("secret99").unwrap(), false);
    assert_eq!(user.username(), "alice1234");
    assert!(user.has_domain("a.com"));
}

#[test]
fn a_user_with_a_malformed_hash_cannot_be_compared() {
    let user = User::with_password_hash("alice1234", "not a hash".to_string(), names(&["a.com"]));
    assert!(matches!(user.compare_password("secret99"), Err(ResponseError::Argon(_))));
}

#[test]
fn has_domain_is_exact_membership() {
    let user = User::new("alice1234", "secret99", names(&["example.com"])).unwrap();
    assert!(user.has_domain("example.com"));
    assert!(!user.has_domain("host.example.com"));
    assert!(!user.has_domain("Example.com"));
    assert!(!user.has_domain("example.com."));
    assert!(!user.has_domain(""));
}

#[test]
fn a_subdomain_of_an_authorized_name_is_not_authorized() {
    // The zone `example.com` would take `host.example.com`, and still the
    // user may not update it: only `example.com` itself was granted.
    let user = User::new("alice1234", "secret99", names(&["example.com"])).unwrap();
    let zones = vec![("example.com".to_string(), "Z1".to_string())];
    let hostnames = names(&["host.example.com"]);
    let plan = ddns_core::zones::resolve(&hostnames, &Ipv4Addr::new(198, 51, 100, 7), &zones);
    assert_eq!(plan.groups.len(), 1);
    assert_eq!(plan.groups[0].zone_id, "Z1");
    match authorize_hostnames(&user, &hostnames) {
        Err(ResponseError::HostnameValidation(h)) => assert_eq!(h, "host.example.com"),
        other => panic!("{:?}", other),
    }
    assert!(authorize_hostnames(&user, &names(&["example.com"])).is_ok());
}

#[test]
fn an_authorized_name_without_a_zone_is_still_authorized() {
    let user = User::new("alice1234", "secret99", names(&["host.nowhere.test"])).unwrap();
    let zones = vec![("example.com".to_string(), "Z1".to_string())];
    let hostnames = names(&["host.nowhere.test"]);
    assert!(authorize_hostnames(&user, &hostnames).is_ok());
    let plan = ddns_core::zones::resolve(&hostnames, &Ipv4Addr::new(198, 51, 100, 7), &zones);
    assert!(plan.groups.is_empty());
}

#[test]
fn the_first_unauthorized_hostname_is_named() {
    let user = User::new("alice1234", "secret99", names(&["a.com", "c.com"])).unwrap();
    match authorize_hostnames(&user, &names(&["a.com", "b.com", "c.com", "d.com"])) {
        Err(ResponseError::HostnameValidation(h)) => assert_eq!(h, "b.com"),
        other => panic!("{:?}", other),
    }
    assert!(authorize_hostnames(&user, &Vec::new()).is_ok());
}

#[test]
fn a_wrong_password_counts_before_an_unauthorized_hostname() {
    let user = User::new("alice1234", "secret99", names(&["a.com"])).unwrap();
    assert!(matches!(
        validate(&user, false, &names(&["b.com"])),
        Err(ResponseError::InvalidCredentials)
    ));
    assert!(matches!(
        validate(&user, true, &names(&["b.com"])),
        Err(ResponseError::HostnameValidation(_))
    ));
    assert!(validate(&user, true, &names(&["a.com"])).is_ok());
}

#[test]
fn a_user_is_read_back_as_it_was_written() {
    let user = User::new("alice1234", "secret99", names(&["a.com", "b.com"])).unwrap();
    let hash = user.password().clone();
    let item = user.into_item();
    assert_eq!(item.entries.len(), 3);
    assert_eq!(item.entries[0].0, "username");
    assert_eq!(item.entries[0].1.s.as_deref(), Some("alice1234"));
    assert_eq!(item.entries[1].0, "password_hash");
    assert_eq!(item.entries[1].1.s.as_deref(), Some(hash.as_str()));
    assert_eq!(item.entries[2].0, "domains");
    assert_eq!(item.entries[2].1.ss, Some(names(&["a.com", "b.com"])));
    assert!(item.entries[2].1.s.is_none());
    let back = User::from_item(&item).unwrap();
    assert_eq!(back.username(), "alice1234");
    assert_eq!(back.password(), &hash);
    assert_eq!(back.domains(), &names(&["a.com", "b.com"]));
}

fn db_error(r: Result<User, ResponseError>) -> String {
    match r {
        Err(ResponseError::DbError(text)) => text,
        Err(e) => panic!("{:?}", e),
        Ok(_) => panic!("a user where an error was expected"),
    }
}

#[test]
fn an_item_without_an_attribute_is_a_store_error() {
    let mut item = Item::new();
    assert_eq!(db_error(User::from_item(&item)), "username not in map");
    item.insert("username".into(), AttributeValue::from_string("alice1234".into()));
    assert_eq!(db_error(User::from_item(&item)), "password_hash not in map");
    item.insert("password_hash".into(), AttributeValue::from_string("x".into()));
    assert_eq!(db_error(User::from_item(&item)), "domains not in map");
}

#[test]
fn an_attribute_of_the_wrong_type_is_a_store_error() {
    let mut item = Item::new();
    item.insert("username".into(), AttributeValue::from_string_set(names(&["a"])));
    assert_eq!(db_error(User::from_item(&item)), "not of type string");
    let mut item = Item::new();
    item.insert("username".into(), AttributeValue::from_string("alice1234".into()));
    item.insert("password_hash".into(), AttributeValue::from_string("x".into()));
    item.insert("domains".into(), AttributeValue::from_string("a.com".into()));
    assert_eq!(db_error(User::from_item(&item)), "not of type string set");
}

#[test]
fn get_user_reads_what_the_store_answered() {
    let client = Client::new("users".to_string());
    let input = client.get_user_input("alice1234");
    assert_eq!(input.table_name, "users");
    assert_eq!(input.key.entries.len(), 1);
    assert_eq!(input.key.entries[0].0, "username");
    assert_eq!(input.key.entries[0].1.s.as_deref(), Some("alice1234"));
    assert!(input.key.entries[0].1.ss.is_none());

    let item = stored_user("alice1234", "secret99", &["a.com"]);
    let user = client.get_user("alice1234", Ok(Some(item))).unwrap();
    assert_eq!(user.username(), "alice1234");

    match client.get_user("alice1234", Ok(None)) {
        Err(e @ ResponseError::NotFound(_)) => {
            assert_eq!(e.status(), 404);
            assert!(matches!(e, ResponseError::NotFound(text) if text == "alice1234 user"));
        }
        _ => panic!("NotFound was expected"),
    }
    match client.get_user("alice1234", Err("timeout".to_string())) {
        Err(ResponseError::DbError(text)) => assert_eq!(text, "timeout"),
        _ => panic!("DbError was expected"),
    }
}

#[test]
fn put_user_writes_the_users_item() {
    let client = Client::new("users".to_string());
    let user = User::new("alice1234", "secret99", names(&["a.com"])).unwrap();
    let input = client.put_user_input(user);
    assert_eq!(input.table_name, "users");
    assert_eq!(User::from_item(&input.item).unwrap().username(), "alice1234");
    assert!(client.put_user(Ok(())).is_ok());
    match client.put_user(Err("throttled".to_string())) {
        Err(ResponseError::DbError(text)) => assert_eq!(text, "throttled"),
        _ => panic!("DbError was expected"),
    }
}

#[test]
fn validate_user_checks_user_then_password_then_hostnames() {
    let client = Client::new("users".to_string());
    let hostnames = names(&["a.com"]);
    let item = || Ok(Some(stored_user("alice1234", "secret99", &["a.com"])));
    assert!(client.validate_user("alice1234", "secret99", "agent", &hostnames, item()).is_ok());
    assert!(matches!(
        client.validate_user("alice1234", "wrong", "agent", &hostnames, item()),
        Err(ResponseError::InvalidCredentials)
    ));
    assert!(matches!(
        client.validate_user("alice1234", "wrong", "agent", &names(&["b.com"]), item()),
        Err(ResponseError::InvalidCredentials)
    ));
    match client.validate_user("alice1234", "secret99", "agent", &names(&["a.com", "b.com"]), item())
    {
        Err(ResponseError::HostnameValidation(h)) => assert_eq!(h, "b.com"),
        other => panic!("{:?}", other),
    }
    assert!(matches!(
        client.validate_user("alice1234", "secret99", "agent", &hostnames, Ok(None)),
        Err(ResponseError::NotFound(_))
    ));
    assert!(matches!(
        client.validate_user("alice1234", "secret99", "agent", &hostnames, Err("down".into())),
        Err(ResponseError::DbError(_))
    ));
}

fn group(zone_id: &str, hosts: &[&str]) -> ZoneGroup {
    ZoneGroup {
        zone_id: zone_id.to_string(),
        records: hosts.iter().map(|h| (h.to_string(), Ipv4Addr::new(198, 51, 100, 7))).collect(),
    }
}

fn sending(update: &HostnameUpdate) -> (&str, usize) {
    match update {
        HostnameUpdate::Sending { request, later } => (request.hosted_zone_id.as_str(), later.len()),
        HostnameUpdate::Done(_) => panic!("the update is done"),
    }
}

#[test]
fn an_update_writes_its_zones_in_order() {
    let update = HostnameUpdate::begin(vec![group("Z1", &["a.com"]), group("Z2", &["b.org"])]);
    assert_eq!(sending(&update), ("Z1", 1));
    let update = update.accept(Ok(()));
    assert_eq!(sending(&update), ("Z2", 0));
    let update = update.accept(Ok(()));
    assert!(matches!(update, HostnameUpdate::Done(Ok(()))));
    assert!(matches!(update.accept(Err("late".into())), HostnameUpdate::Done(Ok(()))));
}

#[test]
fn an_update_without_zones_is_done_at_once() {
    assert!(matches!(HostnameUpdate::begin(Vec::new()), HostnameUpdate::Done(Ok(()))));
}

#[test]
fn an_update_stops_at_the_first_failure_and_names_the_zone() {
    let update = HostnameUpdate::begin(vec![
        group("Z1", &["a.com"]),
        group("Z2", &["b.org"]),
        group("Z3", &["c.net"]),
    ]);
    let update = update.accept(Ok(()));
    let update = update.accept(Err("access denied".to_string()));
    match &update {
        HostnameUpdate::Done(Err(ResponseError::Route53Error(text))) => {
            assert_eq!(text, "Z2: access denied")
        }
        _ => panic!("a failure of Z2 was expected"),
    }
    match update.accept(Ok(())) {
        HostnameUpdate::Done(Err(e)) => assert_eq!(e.status(), 500),
        _ => panic!("the failure was expected to stay"),
    }
}

#[test]
fn update_hostnames_starts_with_the_first_zone_of_the_plan() {
    let client = Client::new("users".to_string());
    let zones = vec![
        ("example.com".to_string(), "Z1".to_string()),
        ("example.org".to_string(), "Z2".to_string()),
    ];
    let hostnames = names(&["b.example.org", "a.example.com", "c.example.org", "x.test"]);
    let update = client.update_hostnames(&hostnames, &Ipv4Addr::new(198, 51, 100, 7), &zones);
    match &update {
        HostnameUpdate::Sending { request, later } => {
            assert_eq!(request.hosted_zone_id, "Z2");
            let changed: Vec<&str> = request
                .change_batch
                .changes
                .iter()
                .map(|c| c.resource_record_set.name.as_str())
                .collect();
            assert_eq!(changed, vec!["b.example.org", "c.example.org"]);
            assert_eq!(later.len(), 1);
            assert_eq!(later[0].zone_id, "Z1");
        }
        _ => panic!("a request was expected"),
    }
}

#[test]
fn two_salts_give_two_hashes_that_hold_their_salts() {
    let mut first = User::with_password_hash("alice1234", String::new(), names(&["a.com"]));
    let mut second = User::with_password_hash("alice1234", String::new(), names(&["a.com"]));
    first.set_password_with_salt("secret99", &[1u8; 64]).unwrap();
    second.set_password_with_salt("secret99", &[2u8; 64]).unwrap();
    assert_ne!(first.password(), second.password());
    for (user, salt) in [(&first, [1u8; 64]), (&second, [2u8; 64])] {
        let encoded = user.password();
        assert!(encoded.starts_with("$argon2id$v=19$m=4096,t=3,p=1$"));
        let field = encoded.split('$').nth(4).unwrap();
        assert_eq!(base64::decode_config(field, base64::STANDARD_NO_PAD).unwrap(), salt.to_vec());
        assert_eq!(user.compare_password("secret99").unwrap(), true);
    }
}

#[test]
fn a_salt_that_is_too_short_leaves_the_user_unchanged() {
    let mut user = User::new("alice1234", "secret99", names(&["a.com"])).unwrap();
    let before = user.password().clone();
    assert!(matches!(
        user.set_password_with_salt("another77", b"short"),
        Err(ResponseError::Argon(_))
    ));
    assert_eq!(user.password(), &before);
    assert_eq!(user.compare_password("secret99").unwrap(), true);
}

#[test]
fn a_new_user_under_a_given_salt_holds_the_hash_under_that_salt() {
    let user =
        User::new_with_salt("alice1234", "secret99", names(&["a.com", "a.com"]), &[3u8; 64]).unwrap();
    assert_eq!(user.username(), "alice1234");
    assert_eq!(user.domains(), &names(&["a.com"]));
    assert_eq!(
        user.password(),
        &ddns_core::password::hash_with_salt("secret99", &[3u8; 64]).unwrap()
    );
    assert!(matches!(
        User::new_with_salt("alice1234", "secret99", names(&["a.com"]), b"short"),
        Err(ResponseError::Argon(_))
    ));
}
