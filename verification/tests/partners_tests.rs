use boop_client::partners::{
    get_partners_payload, BoopPartner, PartnerOnlineStatus, PresenceTracker,
};

fn partner(nick: &str, key: &str) -> BoopPartner {
    BoopPartner::new(String::from(nick), String::from(key))
}

fn payload_of(tracker: &PresenceTracker) -> Vec<(String, String, i8)> {
    get_partners_payload(tracker)
        .into_iter()
        .map(|o| (o.nickname, o.user_key, o.online))
        .collect()
}

#[test]
fn partner_getters() {
    let p = partner("Alice", "alice");
    assert_eq!(p.nickname(), "Alice");
    assert_eq!(p.user_key(), "alice");
}

#[test]
fn status_codes() {
    assert_eq!(PartnerOnlineStatus::Afk.status_code(), -1);
    assert_eq!(PartnerOnlineStatus::Unknown.status_code(), 0);
    assert_eq!(PartnerOnlineStatus::Online.status_code(), 1);
}

#[test]
fn new_partner_starts_unknown() {
    let mut t = PresenceTracker::new();
    assert_eq!(t.insert_partner(partner("Alice", "alice")), None);
    assert!(t.has_partner("alice"));
    assert_eq!(payload_of(&t), vec![(String::from("Alice"), String::from("alice"), 0)]);
}

#[test]
fn insert_replaces_and_resets_status() {
    let mut t = PresenceTracker::new();
    t.insert_partner(partner("Alice", "alice"));
    assert!(t.set_status("alice", PartnerOnlineStatus::Online));
    let prior = t.insert_partner(partner("Alicia", "alice")).expect("entry was replaced");
    assert_eq!(prior.partner.nickname(), "Alice");
    assert_eq!(prior.status, PartnerOnlineStatus::Online);
    assert_eq!(payload_of(&t), vec![(String::from("Alicia"), String::from("alice"), 0)]);
}

#[test]
fn set_status_updates_only_named_partner() {
    let mut t = PresenceTracker::new();
    t.insert_partner(partner("Alice", "alice"));
    t.insert_partner(partner("Bob", "bob"));
    assert!(t.set_status("alice", PartnerOnlineStatus::Online));
    assert_eq!(
        payload_of(&t),
        vec![
            (String::from("Alice"), String::from("alice"), 1),
            (String::from("Bob"), String::from("bob"), 0),
        ]
    );
}

#[test]
fn set_status_unknown_key_changes_nothing() {
    let mut t = PresenceTracker::new();
    t.insert_partner(partner("Alice", "alice"));
    assert!(!t.set_status("bob", PartnerOnlineStatus::Online));
    assert_eq!(payload_of(&t), vec![(String::from("Alice"), String::from("alice"), 0)]);
}

#[test]
fn failed_add_rolls_back_to_prior_roster() {
    let mut t = PresenceTracker::new();
    t.insert_partner(partner("Alice", "alice"));
    let before = payload_of(&t);

    // A fresh add whose persist failed: undo restores the exact roster.
    let prior = t.insert_partner(partner("Bob", "bob"));
    assert_eq!(prior, None);
    t.restore("bob", prior);
    assert_eq!(payload_of(&t), before);
    assert!(!t.has_partner("bob"));
}

#[test]
fn failed_replace_rolls_back_to_prior_entry() {
    let mut t = PresenceTracker::new();
    t.insert_partner(partner("Alice", "alice"));
    t.set_status("alice", PartnerOnlineStatus::Afk);
    let before = payload_of(&t);

    let prior = t.insert_partner(partner("Alicia", "alice"));
    assert!(prior.is_some());
    t.restore("alice", prior);
    assert_eq!(payload_of(&t), before);
}

#[test]
fn failed_delete_rolls_back_to_prior_entry() {
    let mut t = PresenceTracker::new();
    t.insert_partner(partner("Alice", "alice"));
    t.set_status("alice", PartnerOnlineStatus::Online);
    let before = payload_of(&t);

    let prior = t.remove_partner("alice");
    assert!(prior.is_some());
    assert!(!t.has_partner("alice"));
    t.restore("alice", prior);
    assert_eq!(payload_of(&t), before);
}

#[test]
fn delete_of_absent_key_is_a_no_op() {
    let mut t = PresenceTracker::new();
    t.insert_partner(partner("Alice", "alice"));
    assert_eq!(t.remove_partner("bob"), None);
    assert_eq!(payload_of(&t), vec![(String::from("Alice"), String::from("alice"), 0)]);
}

#[test]
fn from_roster_keeps_later_duplicate() {
    let roster = vec![
        partner("Alice", "alice"),
        partner("Bob", "bob"),
        partner("Alicia", "alice"),
    ];
    let t = PresenceTracker::from_roster(roster);
    assert!(t.has_partner("alice"));
    assert!(t.has_partner("bob"));
    let rows = payload_of(&t);
    assert_eq!(rows.len(), 2);
    assert!(rows.contains(&(String::from("Alicia"), String::from("alice"), 0)));
    assert!(rows.contains(&(String::from("Bob"), String::from("bob"), 0)));
}

#[test]
fn keys_and_partner_snapshot_follow_entry_order() {
    let mut t = PresenceTracker::new();
    t.insert_partner(partner("Alice", "alice"));
    t.insert_partner(partner("Bob", "bob"));
    assert_eq!(t.keys(), vec![String::from("alice"), String::from("bob")]);
    let snapshot: Vec<String> = t.partners_vec().into_iter().map(|p| p.user_key()).collect();
    assert_eq!(snapshot, vec![String::from("alice"), String::from("bob")]);
}

#[test]
fn empty_tracker_has_nothing() {
    let t = PresenceTracker::new();
    assert!(!t.has_partner("alice"));
    assert!(t.keys().is_empty());
    assert!(get_partners_payload(&t).is_empty());
}
