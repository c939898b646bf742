use trustup::{
    CreditLineContract, EscrowContract, Identity, PoolContract, ReputationContract,
    ReputationError,
};

fn id(name: &str) -> Identity {
    Identity::new(name.as_bytes().to_vec())
}

/// A ledger with administrator `admin` and one updater, `updater`.
fn with_updater() -> (ReputationContract, Identity, Identity) {
    let mut client = ReputationContract::new();
    let admin = id("admin");
    let updater = id("updater");
    client.set_admin(&admin, true).unwrap();
    client.set_updater(&admin, true, &updater, true).unwrap();
    (client, admin, updater)
}

#[test]
fn lib_test_version() {
    assert_eq!(ReputationContract::version(), "trustup-v1.0");
    assert_eq!(CreditLineContract::version(), "trustup-v1.0");
    assert_eq!(EscrowContract::version(), "trustup-v1.0");
    assert_eq!(PoolContract::version(), "trustup-v1.0");
}

#[test]
fn it_sets_admin() {
    let mut client = ReputationContract::new();
    let admin = id("admin");
    client.set_admin(&admin, true).unwrap();

    let retrieved_admin = client.get_admin().unwrap();
    assert_eq!(retrieved_admin, admin);
}

#[test]
fn it_gets_admin() {
    let mut client = ReputationContract::new();
    let admin = id("admin");
    client.set_admin(&admin, true).unwrap();

    let retrieved = client.get_admin().unwrap();
    assert_eq!(retrieved, admin);
}

#[test]
fn it_sets_updater() {
    let mut client = ReputationContract::new();
    let admin = id("admin");
    client.set_admin(&admin, true).unwrap();

    let updater = id("updater");
    client.set_updater(&admin, true, &updater, true).unwrap();

    assert_eq!(client.is_updater(&updater), true);
}

#[test]
fn it_checks_updater() {
    let mut client = ReputationContract::new();
    let admin = id("admin");
    client.set_admin(&admin, true).unwrap();

    let updater = id("updater");
    let non_updater = id("non_updater");

    client.set_updater(&admin, true, &updater, true).unwrap();

    assert_eq!(client.is_updater(&updater), true);
    assert_eq!(client.is_updater(&non_updater), false);
}

#[test]
fn it_gets_score() {
    let (mut client, _admin, updater) = with_updater();
    let user = id("user");

    assert_eq!(client.get_score(&user), 0);

    client.set_score(&updater, true, &user, 50).unwrap();
    assert_eq!(client.get_score(&user), 50);
}

#[test]
fn it_increases_score() {
    let (mut client, _admin, updater) = with_updater();
    let user = id("user");

    client.set_score(&updater, true, &user, 50).unwrap();
    client.increase_score(&updater, true, &user, 20).unwrap();

    assert_eq!(client.get_score(&user), 70);
}

#[test]
fn it_decreases_score() {
    let (mut client, _admin, updater) = with_updater();
    let user = id("user");

    client.set_score(&updater, true, &user, 50).unwrap();
    client.decrease_score(&updater, true, &user, 20).unwrap();

    assert_eq!(client.get_score(&user), 30);
}

#[test]
fn it_sets_score() {
    let (mut client, _admin, updater) = with_updater();
    let user = id("user");

    client.set_score(&updater, true, &user, 75).unwrap();
    assert_eq!(client.get_score(&user), 75);

    client.set_score(&updater, true, &user, 25).unwrap();
    assert_eq!(client.get_score(&user), 25);
}

#[test]
fn it_prevents_unauthorized_updates() {
    let mut client = ReputationContract::new();
    let admin = id("admin");
    client.set_admin(&admin, true).unwrap();

    let user = id("user");
    let unauthorized = id("unauthorized");

    let r = client.set_score(&unauthorized, true, &user, 50);
    assert_eq!(r, Err(ReputationError::NotUpdater));
    assert_eq!(client.get_score(&user), 0);
}

#[test]
fn it_enforces_score_bounds() {
    let (mut client, _admin, updater) = with_updater();
    let user = id("user");

    let r = client.set_score(&updater, true, &user, 101);
    assert_eq!(r, Err(ReputationError::OutOfBounds));
    assert_eq!(client.get_score(&user), 0);
}

#[test]
fn it_gets_version() {
    assert_eq!(ReputationContract::get_version(), "v1_0_0");
}
