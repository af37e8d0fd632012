use azoth::data::{GitLink, SaveData};

#[test]
fn git_link_new_holds_both_fields() {
    let link = GitLink::new(42, "octocat".to_string());
    assert_eq!(link.discord_id, 42);
    assert_eq!(link.github_username, "octocat");
}

#[test]
fn empty_save_data_has_nothing() {
    let data = SaveData::empty();
    assert!(data.github_users.is_empty());
    assert!(data.quiz_scores.is_empty());
}

#[test]
fn track_appends_at_the_end() {
    let mut data = SaveData::empty();
    data.track_github(1, "alice".to_string());
    data.track_github(2, "bob".to_string());
    data.track_github(1, "alice2".to_string());
    let names: Vec<&str> = data.github_users.iter().map(|l| l.github_username.as_str()).collect();
    assert_eq!(names, vec!["alice", "bob", "alice2"]);
}

#[test]
fn untrack_removes_every_link_of_the_user() {
    let mut data = SaveData::empty();
    data.track_github(1, "alice".to_string());
    data.track_github(2, "bob".to_string());
    data.track_github(1, "alice2".to_string());
    data.track_github(3, "carol".to_string());
    let removed = data.untrack_github(1).expect("user 1 is tracked");
    assert_eq!(removed.github_username, "alice");
    let names: Vec<&str> = data.github_users.iter().map(|l| l.github_username.as_str()).collect();
    assert_eq!(names, vec!["bob", "carol"]);
    assert!(data.untrack_github(1).is_none());
}

#[test]
fn untrack_of_untracked_user_changes_nothing() {
    let mut data = SaveData::empty();
    data.track_github(1, "alice".to_string());
    assert!(data.untrack_github(7).is_none());
    assert_eq!(data.github_users.len(), 1);
}

#[test]
fn track_then_untrack_round_trip() {
    let mut data = SaveData::empty();
    data.track_github(5, "carol".to_string());
    data.track_github(9, "dave".to_string());
    let removed = data.untrack_github(9).unwrap();
    assert_eq!(removed.discord_id, 9);
    assert_eq!(removed.github_username, "dave");
    assert_eq!(data.github_users.len(), 1);
    assert_eq!(data.github_users[0].github_username, "carol");
}

#[test]
fn quiz_wins_add_one_point_each() {
    let mut data = SaveData::empty();
    assert_eq!(data.quiz_score(3), 0);
    data.record_quiz_win(3);
    data.record_quiz_win(3);
    data.record_quiz_win(4);
    assert_eq!(data.quiz_score(3), 2);
    assert_eq!(data.quiz_score(4), 1);
    assert_eq!(data.quiz_score(5), 0);
}
