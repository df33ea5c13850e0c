use channel_relay::registry::ChannelRegistry;

#[test]
fn created_ids_are_distinct() {
    let mut reg = ChannelRegistry::new();
    let id1 = reg.create("pw1".to_string());
    let id2 = reg.create("pw2".to_string());
    let id3 = reg.create("pw1".to_string());
    assert_ne!(id1, id2);
    assert_ne!(id1, id3);
    assert_ne!(id2, id3);
}

#[test]
fn created_id_has_uuid_shape() {
    let mut reg = ChannelRegistry::new();
    let id = reg.create("pw".to_string());
    assert_eq!(id.len(), 36);
}

#[test]
fn lookup_with_correct_password_succeeds() {
    let mut reg = ChannelRegistry::new();
    let id = reg.create("secret".to_string());
    let r = reg.lookup_and_authorize(&id, &"secret".to_string());
    let i = r.expect("join with the creation password must be authorized");
    assert_eq!(reg.channel(i).id(), &id);
}

#[test]
fn lookup_with_wrong_password_is_unauthorized() {
    let mut reg = ChannelRegistry::new();
    let id = reg.create("secret".to_string());
    let r = reg.lookup_and_authorize(&id, &"wrong".to_string());
    assert!(r.is_none());
}

#[test]
fn lookup_of_never_created_id_is_unauthorized() {
    let mut reg = ChannelRegistry::new();
    let _ = reg.create("secret".to_string());
    let r = reg.lookup_and_authorize(&"bogus".to_string(), &"anything".to_string());
    assert!(r.is_none());
}

#[test]
fn lookup_with_empty_password_matches_only_empty() {
    let mut reg = ChannelRegistry::new();
    let id = reg.create(String::new());
    assert!(reg.lookup_and_authorize(&id, &String::new()).is_some());
    assert!(reg.lookup_and_authorize(&id, &"x".to_string()).is_none());
}

#[test]
fn channels_with_equal_passwords_stay_separate() {
    let mut reg = ChannelRegistry::new();
    let id1 = reg.create("same".to_string());
    let id2 = reg.create("same".to_string());
    let i1 = reg.lookup_and_authorize(&id1, &"same".to_string()).unwrap();
    let i2 = reg.lookup_and_authorize(&id2, &"same".to_string()).unwrap();
    assert_ne!(i1, i2);
}
