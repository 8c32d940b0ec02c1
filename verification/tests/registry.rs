use cryptopet_badges::{AuditEvent, BadgeInfo, CryptoPetBadges, Error, Principal};

fn who(key: &str) -> Principal {
    Principal::new(String::from(key))
}

fn text(s: &str) -> String {
    String::from(s)
}

fn ready() -> (CryptoPetBadges, Principal, Principal) {
    let mut registry = CryptoPetBadges::new();
    let admin = who("GADMIN");
    let minter = who("GMINTER");
    assert_eq!(registry.initialize(admin.clone(), minter.clone()), Ok(()));
    (registry, admin, minter)
}

#[test]
fn test_initialize() {
    let mut registry = CryptoPetBadges::new();

    let admin = who("GADMIN");
    let minter = who("GMINTER");

    assert_eq!(registry.initialize(admin.clone(), minter.clone()), Ok(()));

    assert_eq!(registry.get_admin(), Ok(admin));
    assert_eq!(registry.get_minter(), Ok(minter));
    assert_eq!(registry.get_total_minted(), 0);
}

#[test]
fn test_mint_badge() {
    let mut registry = CryptoPetBadges::new();

    let admin = who("GADMIN");
    let minter = who("GMINTER");
    let user = who("GUSER");

    assert_eq!(registry.initialize(admin.clone(), minter.clone()), Ok(()));

    assert_eq!(
        registry.register_badge(
            &admin,
            1,
            text("Wallet Master"),
            text("wallet-basics"),
            text("ipfs://badge1"),
        ),
        Ok(())
    );

    assert!(registry.mint_badge(&minter, user.clone(), 1, 1000).is_ok());

    assert!(registry.has_badge(&user, 1));
    assert_eq!(registry.get_total_minted(), 1);
    assert_eq!(registry.get_holder_count(1), 1);

    let badges = registry.get_badges(&user);
    assert_eq!(badges.len(), 1);
    assert_eq!(badges.get(0).unwrap().id, 1);
    assert_eq!(badges.get(0).unwrap().earned_at, 1000);
}

#[test]
#[should_panic(expected = "User already has this badge")]
fn test_cannot_mint_duplicate() {
    let mut registry = CryptoPetBadges::new();

    let admin = who("GADMIN");
    let minter = who("GMINTER");
    let user = who("GUSER");

    registry.initialize(admin.clone(), minter.clone()).unwrap();
    registry
        .register_badge(&admin, 1, text("Test Badge"), text("test"), text("ipfs://test"))
        .unwrap();

    registry.mint_badge(&minter, user.clone(), 1, 0).unwrap();
    if let Err(e) = registry.mint_badge(&minter, user.clone(), 1, 0) {
        panic!("{}", e.message());
    }
}

#[test]
fn mint_then_revoke_scenario() {
    let (mut registry, admin, minter) = ready();
    let user = who("GUSER");
    registry
        .register_badge(
            &admin,
            1,
            text("Wallet Master"),
            text("wallet-basics"),
            text("ipfs://badge1"),
        )
        .unwrap();

    let minted = registry.mint_badge(&minter, user.clone(), 1, 1000);
    assert_eq!(
        minted,
        Ok(AuditEvent::Minted { user: user.clone(), badge_id: 1, timestamp: 1000 })
    );
    assert!(registry.has_badge(&user, 1));
    assert_eq!(registry.get_total_minted(), 1);
    assert_eq!(registry.get_holder_count(1), 1);
    assert_eq!(
        registry.get_badges(&user),
        vec![BadgeInfo {
            id: 1,
            name: text("Wallet Master"),
            module_id: text("wallet-basics"),
            image_uri: text("ipfs://badge1"),
            earned_at: 1000,
        }]
    );

    let revoked = registry.revoke_badge(&admin, user.clone(), 1, text("fraud"));
    assert_eq!(
        revoked,
        Ok(AuditEvent::Revoked { user: user.clone(), badge_id: 1, reason: text("fraud") })
    );
    assert!(!registry.has_badge(&user, 1));
    assert_eq!(registry.get_holder_count(1), 0);
    assert_eq!(registry.get_total_minted(), 1);
    assert_eq!(registry.get_badges(&user), Vec::<BadgeInfo>::new());
}

#[test]
fn new_registry_is_empty() {
    let registry = CryptoPetBadges::new();
    assert_eq!(registry.config, None);
    assert!(registry.templates.is_empty());
    assert!(registry.holder_counts.is_empty());
    assert!(registry.records.is_empty());
    assert_eq!(registry.get_total_minted(), 0);
    assert_eq!(registry.get_holder_count(1), 0);
    assert_eq!(registry.get_badge_info(1), None);
    assert_eq!(registry.get_badges(&who("GUSER")), Vec::<BadgeInfo>::new());
    assert!(!registry.has_badge(&who("GUSER"), 1));
}

#[test]
fn initialize_twice_is_refused() {
    let (mut registry, admin, minter) = ready();
    let before = registry.config.clone();
    assert_eq!(
        registry.initialize(who("GOTHER"), who("GOTHER2")),
        Err(Error::AlreadyInitialized)
    );
    assert_eq!(registry.config, before);
    assert_eq!(registry.get_admin(), Ok(admin));
    assert_eq!(registry.get_minter(), Ok(minter));
}

#[test]
fn uninitialized_registry_refuses_everything_gated() {
    let mut registry = CryptoPetBadges::new();
    let anyone = who("GANY");
    assert_eq!(registry.get_admin(), Err(Error::NotInitialized));
    assert_eq!(registry.get_minter(), Err(Error::NotInitialized));
    assert_eq!(registry.set_minter(&anyone, who("GNEW")), Err(Error::NotInitialized));
    assert_eq!(
        registry.register_badge(&anyone, 1, text("n"), text("m"), text("i")),
        Err(Error::NotInitialized)
    );
    assert_eq!(registry.mint_badge(&anyone, who("GUSER"), 1, 5), Err(Error::NotInitialized));
    assert_eq!(
        registry.revoke_badge(&anyone, who("GUSER"), 1, text("why")),
        Err(Error::NotInitialized)
    );
    assert_eq!(registry.config, None);
    assert!(registry.templates.is_empty());
    assert!(registry.records.is_empty());
}

#[test]
fn set_minter_moves_the_minting_right() {
    let (mut registry, admin, minter) = ready();
    let next = who("GNEXT");
    registry.register_badge(&admin, 4, text("n"), text("m"), text("i")).unwrap();
    assert_eq!(registry.set_minter(&admin, next.clone()), Ok(()));
    assert_eq!(registry.get_minter(), Ok(next.clone()));
    assert_eq!(registry.get_admin(), Ok(admin.clone()));
    assert_eq!(registry.get_total_minted(), 0);
    assert_eq!(registry.mint_badge(&minter, who("GUSER"), 4, 1), Err(Error::Unauthorized));
    assert!(registry.mint_badge(&next, who("GUSER"), 4, 1).is_ok());
    // the administrator may also name itself
    assert_eq!(registry.set_minter(&admin, admin.clone()), Ok(()));
    assert_eq!(registry.get_minter(), Ok(admin));
}

#[test]
fn register_badge_stores_a_template() {
    let (mut registry, admin, _minter) = ready();
    assert_eq!(registry.get_badge_info(9), None);
    registry.register_badge(&admin, 9, text("Name"), text("module"), text("uri")).unwrap();
    assert_eq!(
        registry.get_badge_info(9),
        Some(BadgeInfo {
            id: 9,
            name: text("Name"),
            module_id: text("module"),
            image_uri: text("uri"),
            earned_at: 0,
        })
    );
    assert_eq!(registry.get_badge_info(8), None);
    // registering again overwrites
    registry.register_badge(&admin, 9, text("Other"), text("m2"), text("u2")).unwrap();
    assert_eq!(
        registry.get_badge_info(9),
        Some(BadgeInfo {
            id: 9,
            name: text("Other"),
            module_id: text("m2"),
            image_uri: text("u2"),
            earned_at: 0,
        })
    );
    assert_eq!(registry.templates.len(), 1);
}

#[test]
fn mint_without_template_is_refused() {
    let (mut registry, _admin, minter) = ready();
    let user = who("GUSER");
    assert_eq!(
        registry.mint_badge(&minter, user.clone(), 7, 10),
        Err(Error::BadgeTemplateNotFound)
    );
    assert_eq!(registry.get_total_minted(), 0);
    assert_eq!(registry.get_holder_count(7), 0);
    assert!(registry.records.is_empty());
    assert!(registry.holder_counts.is_empty());
}

#[test]
fn the_caller_is_looked_at_before_anything_else() {
    let (mut registry, admin, minter) = ready();
    let user = who("GUSER");
    // no template and a wrong caller: the caller is what is reported
    assert_eq!(registry.mint_badge(&admin, user.clone(), 7, 10), Err(Error::Unauthorized));
    // a badge not held and a wrong caller: the caller is what is reported
    assert_eq!(
        registry.revoke_badge(&minter, user.clone(), 7, text("r")),
        Err(Error::Unauthorized)
    );
    // a missing template is reported before a duplicate could be
    assert_eq!(
        registry.mint_badge(&minter, user.clone(), 7, 10),
        Err(Error::BadgeTemplateNotFound)
    );
}

#[test]
fn records_keep_mint_order_and_revoke_keeps_the_rest() {
    let (mut registry, admin, minter) = ready();
    let user = who("GUSER");
    for id in [3u32, 1, 2] {
        registry.register_badge(&admin, id, text("n"), text("m"), text("i")).unwrap();
    }
    registry.mint_badge(&minter, user.clone(), 3, 10).unwrap();
    registry.mint_badge(&minter, user.clone(), 1, 20).unwrap();
    registry.mint_badge(&minter, user.clone(), 2, 30).unwrap();
    let ids: Vec<(u32, u64)> =
        registry.get_badges(&user).iter().map(|b| (b.id, b.earned_at)).collect();
    assert_eq!(ids, vec![(3, 10), (1, 20), (2, 30)]);

    registry.revoke_badge(&admin, user.clone(), 1, text("r")).unwrap();
    let ids: Vec<(u32, u64)> =
        registry.get_badges(&user).iter().map(|b| (b.id, b.earned_at)).collect();
    assert_eq!(ids, vec![(3, 10), (2, 30)]);

    // a badge minted again goes to the end
    registry.mint_badge(&minter, user.clone(), 1, 40).unwrap();
    let ids: Vec<(u32, u64)> =
        registry.get_badges(&user).iter().map(|b| (b.id, b.earned_at)).collect();
    assert_eq!(ids, vec![(3, 10), (2, 30), (1, 40)]);
    assert_eq!(registry.get_total_minted(), 4);
}

#[test]
fn revoke_with_a_zero_count_is_an_underflow() {
    let (mut registry, admin, minter) = ready();
    let user = who("GUSER");
    registry.register_badge(&admin, 1, text("n"), text("m"), text("i")).unwrap();
    registry.mint_badge(&minter, user.clone(), 1, 10).unwrap();
    // a stored count that does not match the records
    registry.holder_counts.insert(1, 0);
    let before = registry.clone();
    assert_eq!(
        registry.revoke_badge(&admin, user.clone(), 1, text("r")),
        Err(Error::CounterUnderflow)
    );
    assert_eq!(registry.records, before.records);
    assert_eq!(registry.holder_counts, before.holder_counts);
    assert!(registry.has_badge(&user, 1));
    // and one that is missing counts as zero
    registry.holder_counts.clear();
    assert_eq!(
        registry.revoke_badge(&admin, user.clone(), 1, text("r")),
        Err(Error::CounterUnderflow)
    );
    assert!(registry.has_badge(&user, 1));
}

#[test]
fn minted_instance_takes_the_id_it_was_minted_under() {
    let (mut registry, _admin, minter) = ready();
    // a catalog entry whose own id differs from its key
    registry.templates.insert(
        5,
        BadgeInfo {
            id: 77,
            name: text("n"),
            module_id: text("m"),
            image_uri: text("i"),
            earned_at: 123,
        },
    );
    let user = who("GUSER");
    registry.mint_badge(&minter, user.clone(), 5, 9).unwrap();
    assert_eq!(
        registry.get_badges(&user),
        vec![BadgeInfo {
            id: 5,
            name: text("n"),
            module_id: text("m"),
            image_uri: text("i"),
            earned_at: 9,
        }]
    );
    assert!(registry.has_badge(&user, 5));
    assert!(!registry.has_badge(&user, 77));
}

#[test]
fn events_name_their_topic() {
    let minted = AuditEvent::Minted { user: who("GUSER"), badge_id: 1, timestamp: 2 };
    let revoked = AuditEvent::Revoked { user: who("GUSER"), badge_id: 1, reason: text("r") };
    assert_eq!(minted.topic(), "minted");
    assert_eq!(revoked.topic(), "revoked");
}

#[test]
fn errors_have_messages() {
    assert_eq!(Error::AlreadyInitialized.message(), "Already initialized");
    assert_eq!(Error::NotInitialized.message(), "Not initialized");
    assert_eq!(Error::Unauthorized.message(), "Caller is not authorized");
    assert_eq!(Error::BadgeTemplateNotFound.message(), "Badge type not registered");
    assert_eq!(Error::DuplicateBadge.message(), "User already has this badge");
    assert_eq!(Error::BadgeNotFound.message(), "User does not have this badge");
    assert_eq!(Error::CounterUnderflow.message(), "Holder count is already zero");
}
