use school_points::{AchievementBadges, Address, Env, Error};

fn setup() -> (AchievementBadges, Env, Address) {
    let mut env = Env::new(10, 1_700_000_000);
    env.mock_all_auths();
    let mut client = AchievementBadges::new();
    let admin = Address::new(1);
    client.initialize(admin).unwrap();
    (client, env, admin)
}

#[test]
fn test_test_initialize() {
    let (client, _env, admin) = setup();
    assert_eq!(client.admin(), Ok(admin));
    assert_eq!(client.badge_count(), 0);
}

#[test]
fn badges_double_initialize_fails() {
    let (mut client, _env, admin) = setup();
    assert_eq!(client.initialize(Address::new(5)), Err(Error::AlreadyInitialized));
    assert_eq!(client.admin(), Ok(admin));
}

#[test]
fn test_issue_and_get_badge() {
    let (mut client, env, admin) = setup();
    let student = Address::new(2);
    let hash = [0u8; 32];

    let badge_id = client
        .issue_badge(
            &env,
            student,
            1_u64,
            String::from("Taller de Robotica"),
            String::from("https://universidad.edu/badges/robotica.png"),
            100_i128,
            hash,
        )
        .unwrap();

    assert_eq!(badge_id, 0);
    assert_eq!(client.badge_count(), 1);

    let badge = client.get_badge(0_u64).unwrap();
    assert_eq!(badge.badge_id, 0);
    assert_eq!(badge.student, student);
    assert_eq!(badge.activity_id, 1);
    assert_eq!(badge.points_awarded, 100);
    assert_eq!(badge.description_hash, hash);
    assert_eq!(badge.activity_title, "Taller de Robotica");
    assert_eq!(badge.image_uri, "https://universidad.edu/badges/robotica.png");
    assert_eq!(badge.reviewer, admin);
    assert_eq!(badge.issued_at, 1_700_000_000);
}

#[test]
fn test_multiple_badges_increment_correctly() {
    let (mut client, env, _) = setup();
    let student = Address::new(2);
    let hash = [0u8; 32];

    let id0 = client
        .issue_badge(
            &env,
            student,
            1_u64,
            String::from("Actividad A"),
            String::from("https://universidad.edu/badges/actividad-a.png"),
            50_i128,
            hash,
        )
        .unwrap();
    let id1 = client
        .issue_badge(
            &env,
            student,
            2_u64,
            String::from("Actividad B"),
            String::from("https://universidad.edu/badges/actividad-b.png"),
            75_i128,
            hash,
        )
        .unwrap();

    assert_eq!(id0, 0);
    assert_eq!(id1, 1);
    assert_eq!(client.badge_count(), 2);
}

#[test]
fn test_get_student_badges() {
    let (mut client, env, _) = setup();
    let s1 = Address::new(2);
    let s2 = Address::new(3);
    let hash = [0u8; 32];

    let img = String::from("https://universidad.edu/badges/default.png");
    client.issue_badge(&env, s1, 1_u64, String::from("Act A"), img.clone(), 50_i128, hash).unwrap();
    client.issue_badge(&env, s2, 2_u64, String::from("Act B"), img.clone(), 60_i128, hash).unwrap();
    client.issue_badge(&env, s1, 3_u64, String::from("Act C"), img.clone(), 70_i128, hash).unwrap();

    let s1_badges = client.get_student_badges(s1);
    let s2_badges = client.get_student_badges(s2);

    assert_eq!(s1_badges.len(), 2);
    assert_eq!(s2_badges.len(), 1);
    assert_eq!(s1_badges[0], 0_u64);
    assert_eq!(s1_badges[1], 2_u64);
    assert_eq!(s2_badges[0], 1_u64);
}

#[test]
fn test_get_student_badges_empty() {
    let (client, _env, _) = setup();
    let badges = client.get_student_badges(Address::new(2));
    assert_eq!(badges.len(), 0);
}

#[test]
fn test_get_nonexistent_badge() {
    let (client, _env, _) = setup();
    assert_eq!(client.get_badge(999_u64).unwrap_err(), Error::BadgeNotFound);
}

#[test]
fn issue_badge_needs_admin() {
    let env = Env::new(10, 0);
    let mut client = AchievementBadges::new();
    let h = [1u8; 32];
    assert_eq!(
        client.issue_badge(&env, Address::new(2), 1, String::new(), String::new(), 5, h).unwrap_err(),
        Error::NotInitialized
    );
    client.initialize(Address::new(1)).unwrap();
    assert_eq!(
        client.issue_badge(&env, Address::new(2), 1, String::new(), String::new(), 5, h).unwrap_err(),
        Error::Unauthorized
    );
    assert_eq!(client.badge_count(), 0);
}
