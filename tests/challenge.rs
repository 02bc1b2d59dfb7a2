use pve_rs::challenge::{
    challenge_data_path, challenge_dirs, challenge_open_action, ChallengeOpen, Product,
    StoredChallenge,
};

#[test]
fn challenge_paths_per_product() {
    assert_eq!(
        challenge_data_path("root@pam", Product::Pve, false),
        "/run/pve-private/tfa-challenges/root@pam"
    );
    assert_eq!(
        challenge_data_path("root@pam", Product::Pmg, false),
        "/run/pmg-private/tfa-challenges/root@pam"
    );
    assert_eq!(challenge_data_path("a", Product::Pve, true), "./local-tfa-challenges/a");
    assert_eq!(challenge_dirs(Product::Pve, false), vec!["/run/pve-private", "/run/pve-private/tfa-challenges"]);
    assert_eq!(challenge_dirs(Product::Pmg, true), vec!["./local-tfa-challenges"]);
}

#[test]
fn opening_without_create_for_a_user_without_challenges_gives_no_handle() {
    assert_eq!(challenge_open_action(StoredChallenge::Missing, false), ChallengeOpen::NoHandle);
    assert_eq!(challenge_open_action(StoredChallenge::Missing, true), ChallengeOpen::Fresh { warn: false });
}

#[test]
fn unreadable_challenge_data_counts_as_empty_with_a_warning() {
    assert_eq!(challenge_open_action(StoredChallenge::Empty, true), ChallengeOpen::Fresh { warn: false });
    assert_eq!(challenge_open_action(StoredChallenge::Corrupt, false), ChallengeOpen::Fresh { warn: true });
    assert_eq!(challenge_open_action(StoredChallenge::Valid, false), ChallengeOpen::Stored);
}
