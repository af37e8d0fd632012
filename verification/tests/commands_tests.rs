use azoth::commands::{
    after, before, command_usage, github, github_remove, ping, scoreboard_fields, scoreboard_line_text,
    settle_quiz,
};
use azoth::counter::CommandCounter;
use azoth::data::SaveData;

#[test]
fn ping_answers_pong() {
    assert_eq!(ping(), "Pong!");
}

#[test]
fn github_without_username_asks_for_one() {
    let mut data = SaveData::empty();
    let reply = github(&mut data, 1, None);
    assert_eq!(reply.text, "I need a username");
    assert!(!reply.save);
    assert!(data.github_users.is_empty());
}

#[test]
fn github_with_username_starts_tracking() {
    let mut data = SaveData::empty();
    let reply = github(&mut data, 11, Some("octocat".to_string()));
    assert_eq!(reply.text, "Now tracking octocat's commits");
    assert!(reply.save);
    assert_eq!(data.github_users.len(), 1);
    assert_eq!(data.github_users[0].discord_id, 11);
    assert_eq!(data.github_users[0].github_username, "octocat");
}

#[test]
fn github_remove_without_link_says_so() {
    let mut data = SaveData::empty();
    let reply = github_remove(&mut data, 11);
    assert_eq!(reply.text, "You do not have a github username assigned!");
    assert!(!reply.save);
}

#[test]
fn github_remove_stops_tracking() {
    let mut data = SaveData::empty();
    github(&mut data, 11, Some("octocat".to_string()));
    let reply = github_remove(&mut data, 11);
    assert_eq!(reply.text, "No longer tracking octocat");
    assert!(reply.save);
    assert!(data.github_users.is_empty());
}

#[test]
fn command_usage_without_name() {
    let counter = CommandCounter::new();
    assert_eq!(command_usage(&counter, None), "I require an argument to run this command.");
}

#[test]
fn command_usage_of_unused_command() {
    let counter = CommandCounter::new();
    assert_eq!(
        command_usage(&counter, Some("quiz")),
        "The command `quiz` has not yet been used."
    );
}

#[test]
fn before_counts_each_run() {
    let mut counter = CommandCounter::new();
    assert!(before(&mut counter, "ping"));
    assert!(before(&mut counter, "ping"));
    assert!(before(&mut counter, "quiz"));
    assert_eq!(counter.usage("ping"), 2);
    assert_eq!(counter.usage("quiz"), 1);
    assert_eq!(counter.usage("github"), 0);
    assert_eq!(
        command_usage(&counter, Some("ping")),
        "The command `ping` has been used 2 time/s this session!"
    );
}

#[test]
fn after_reports_only_failures() {
    assert_eq!(after(true), None);
    assert_eq!(after(false), Some("Command failed, check logs"));
}

#[test]
fn scoreboard_line_texts() {
    let (name, score) = scoreboard_line_text("alice", 1234);
    assert_eq!(name, "name: alice");
    assert_eq!(score, "score: 1234");
}

#[test]
fn settle_quiz_credits_only_correct_answers() {
    let mut data = SaveData::empty();
    assert!(!settle_quiz(&mut data, 8, false));
    assert_eq!(data.quiz_score(8), 0);
    assert!(settle_quiz(&mut data, 8, true));
    assert_eq!(data.quiz_score(8), 1);
}

#[test]
fn usage_reports_every_run() {
    let mut counter = CommandCounter::new();
    let runs = ["quiz", "ping", "quiz", "github", "quiz"];
    for name in runs {
        assert!(before(&mut counter, name));
    }
    assert_eq!(
        command_usage(&counter, Some("quiz")),
        "The command `quiz` has been used 3 time/s this session!"
    );
    assert_eq!(
        command_usage(&counter, Some("github")),
        "The command `github` has been used 1 time/s this session!"
    );
}

#[test]
fn github_remove_drops_all_links_of_the_author() {
    let mut data = SaveData::empty();
    github(&mut data, 11, Some("first".to_string()));
    github(&mut data, 12, Some("other".to_string()));
    github(&mut data, 11, Some("second".to_string()));
    let reply = github_remove(&mut data, 11);
    assert_eq!(reply.text, "No longer tracking first");
    assert!(reply.save);
    assert_eq!(data.github_users.len(), 1);
    assert_eq!(data.github_users[0].github_username, "other");
}

#[test]
fn scoreboard_has_one_line_per_player() {
    let players = vec![("alice".to_string(), 3u64), ("bob".to_string(), 0u64)];
    let lines = scoreboard_fields(&players);
    assert_eq!(
        lines,
        vec![
            ("name: alice".to_string(), "score: 3".to_string()),
            ("name: bob".to_string(), "score: 0".to_string()),
        ]
    );
    assert!(scoreboard_fields(&Vec::new()).is_empty());
}
