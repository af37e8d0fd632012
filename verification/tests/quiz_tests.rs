use azoth::azoth::cache_ready;
use azoth::github::{
    activity_age_days, activity_age_days_at, events_url_text, latest_activity_time,
    roast_from_events, roast_from_events_at, roast_message, roast_message_at, roast_reply_text,
    tracking_message_text, whole_days_between, ActivityTimeError,
};
use azoth::quiz::{
    choice_reply_text, outcome_message_text, question_prompt_text, quiz_api_url, Question,
    QuizJsonError, QuizQuestion, QuizResponse, QuizRound,
};

fn sample_response(kind: &str, incorrect: &[&str], correct: &str) -> QuizQuestion {
    QuizQuestion {
        question: "\"Is water wet?\"".to_string(),
        kind: kind.to_string(),
        correct_answer: correct.to_string(),
        incorrect_answers: incorrect.iter().map(|s| s.to_string()).collect(),
    }
}

#[test]
fn question_labels_values_and_indices() {
    let all = [Question::A1, Question::A2, Question::A3, Question::A4];
    for (i, q) in all.iter().enumerate() {
        assert_eq!(q.index(), i);
        assert_eq!(Question::at(i), *q);
        assert_eq!(q.value(), q.label().to_ascii_lowercase());
        assert_eq!(Question::from_str(q.value()).unwrap(), *q);
    }
    assert_eq!(Question::A3.label(), "A3");
}

#[test]
fn from_str_reads_prefixes_and_rejects_others() {
    assert_eq!(Question::from_str("a2-extra").unwrap(), Question::A2);
    let err = Question::from_str("b1").unwrap_err();
    assert_eq!(err.0, "b1");
    assert!(Question::from_str("A1").is_err());
}

#[test]
fn menu_option_texts() {
    let opt = Question::A2.menu_option("\"Paris\"");
    assert_eq!(opt.label, "A2: \"Paris\"");
    assert_eq!(opt.value, "a2");
}

#[test]
fn quiz_url_defaults_to_easy() {
    assert_eq!(quiz_api_url(None), "https://opentdb.com/api.php?amount=1&difficulty=easy");
    assert_eq!(quiz_api_url(Some("hard")), "https://opentdb.com/api.php?amount=1&difficulty=hard");
}

#[test]
fn prepare_true_false_round() {
    let round = QuizRound::prepare(sample_response("\"boolean\"", &["\"False\""], "\"True\""));
    assert!(round.is_true_false);
    assert_eq!(round.question, "\"Is water wet?\"");
    let mut answers = round.answers.clone();
    answers.sort();
    assert_eq!(answers, vec!["\"False\"".to_string(), "\"True\"".to_string()]);
    let menu = round.menu_options();
    assert_eq!(menu.len(), 2);
    assert_eq!(menu[0].label, format!("A1: {}", round.answers[0]));
    assert_eq!(menu[1].value, "a2");
}

#[test]
fn prepare_multiple_choice_round_and_resolve() {
    let round = QuizRound::prepare(sample_response(
        "\"multiple\"",
        &["\"Lyon\"", "\"Nice\"", "\"Lille\""],
        "\"Paris\"",
    ));
    assert!(!round.is_true_false);
    assert_eq!(round.answers.len(), 4);
    assert!(round.answers.contains(&"\"Paris\"".to_string()));
    let menu = round.menu_options();
    assert_eq!(menu.len(), 4);
    for (i, opt) in menu.iter().enumerate() {
        let q = Question::from_str(&opt.value).unwrap();
        let pick = round.resolve(q);
        assert_eq!(pick.chosen, round.answers[i]);
        assert_eq!(pick.correct, round.answers[i] == "\"Paris\"");
    }
}

#[test]
fn reply_texts() {
    assert_eq!(question_prompt_text("\"Q?\""), "QUESTION: \"Q?\"");
    assert_eq!(choice_reply_text(Question::A4, "\"Paris\""), "You chose: **A4 - \"Paris\"**");
    assert_eq!(outcome_message_text(true, "<@1>"), "Correct Answer! Good Job! <@1>");
    assert_eq!(outcome_message_text(false, "<@1>"), "Ya screwed up <@1>");
}

#[test]
fn github_texts() {
    assert_eq!(events_url_text("octocat"), "https://api.github.com/users/octocat/events");
    assert_eq!(tracking_message_text(3), "I am tracking 3 github users");
    assert_eq!(
        roast_reply_text("<@1>", 2),
        "Good job <@1>! 2 days your last public commit! <:zwidepeepoL:967238704395587664><:zwidepeepoR:967238704462704640>"
    );
    assert_eq!(
        roast_reply_text("<@1>", 3),
        "<@1> EYYYYOOOOO its been 3 since your last public commit, get working o3o"
    );
    assert_eq!(
        roast_reply_text("<@1>", -1),
        "<@1> EYYYYOOOOO its been -1 since your last public commit, get working o3o"
    );
}

#[test]
fn activity_age_reads_github_times() {
    let days = activity_age_days("\"2020-01-01T00:00:00Z\"").unwrap();
    assert!(days > 365);
    assert_eq!(activity_age_days("2020-01-01T00:00:00Z"), Err(ActivityTimeError::Unparsable));
    assert_eq!(activity_age_days("\"yesterday\""), Err(ActivityTimeError::Unparsable));
    let msg = roast_message("\"2020-01-01T00:00:00Z\"", "<@5>").unwrap();
    assert!(msg.starts_with("<@5> EYYYYOOOOO its been "));
    assert!(roast_message("nonsense", "<@5>").is_err());
}

#[test]
fn loops_start_once() {
    let (flag, start) = cache_ready(false);
    assert!(flag && start);
    let (flag2, start2) = cache_ready(flag);
    assert!(flag2 && !start2);
}

#[test]
fn first_question_reads_the_first_entry() {
    let reply = QuizResponse {
        response_code: 0,
        results: vec![
            r#"{"type":"multiple","difficulty":"easy","question":"Capital of France?","correct_answer":"Paris","incorrect_answers":["Lyon","Nice","Lille"]}"#.to_string(),
            r#"{"type":"boolean"}"#.to_string(),
        ],
    };
    let q = reply.first_question().unwrap();
    assert_eq!(q.question, "\"Capital of France?\"");
    assert_eq!(q.kind, "\"multiple\"");
    assert_eq!(q.correct_answer, "\"Paris\"");
    assert_eq!(q.incorrect_answers, vec!["\"Lyon\"", "\"Nice\"", "\"Lille\""]);
    let round = QuizRound::prepare(q);
    assert!(!round.is_true_false);
    assert_eq!(round.answers.len(), 4);
}

#[test]
fn first_question_missing_fields_print_null() {
    let reply = QuizResponse {
        response_code: 0,
        results: vec![r#"{"incorrect_answers":[]}"#.to_string()],
    };
    let q = reply.first_question().unwrap();
    assert_eq!(q.question, "null");
    assert_eq!(q.kind, "null");
    assert_eq!(q.correct_answer, "null");
    assert!(q.incorrect_answers.is_empty());
}

#[test]
fn first_question_errors() {
    let empty = QuizResponse { response_code: 0, results: vec![] };
    assert_eq!(empty.first_question().unwrap_err(), QuizJsonError::EmptyResults);
    let not_json = QuizResponse { response_code: 0, results: vec!["{".to_string()] };
    assert_eq!(not_json.first_question().unwrap_err(), QuizJsonError::EntryNotJson);
    let no_list = QuizResponse {
        response_code: 0,
        results: vec![r#"{"question":"q","incorrect_answers":"none"}"#.to_string()],
    };
    assert_eq!(no_list.first_question().unwrap_err(), QuizJsonError::AnswersNotList);
}

#[test]
fn clock_reading_fixes_the_reminder() {
    let then = 1577836800i64; // 2020-01-01T00:00:00Z
    let t = "\"2020-01-01T00:00:00Z\"";
    assert_eq!(activity_age_days_at(t, then + 2 * 86400 + 5, 0), Ok(2));
    assert_eq!(activity_age_days_at(t, then - 86400, 1), Ok(0));
    assert_eq!(activity_age_days_at("2020", then, 0), Err(ActivityTimeError::Unparsable));
    assert_eq!(
        roast_message_at(t, "<@1>", then + 86400, 0).unwrap(),
        "Good job <@1>! 1 days your last public commit! <:zwidepeepoL:967238704395587664><:zwidepeepoR:967238704462704640>"
    );
    let body = r#"[{"created_at":"2020-01-01T00:00:00Z"}]"#;
    assert_eq!(
        roast_from_events_at(body, "<@1>", then + 10 * 86400, 0).unwrap(),
        "<@1> EYYYYOOOOO its been 10 since your last public commit, get working o3o"
    );
    assert_eq!(roast_from_events_at("x", "<@1>", then, 0), Err(ActivityTimeError::NotJson));
}

#[test]
fn latest_activity_time_reads_created_at() {
    let body = r#"[{"id":"1","created_at":"2020-01-01T00:00:00Z"},{"created_at":"2019-01-01T00:00:00Z"}]"#;
    assert_eq!(latest_activity_time(body).unwrap(), "\"2020-01-01T00:00:00Z\"");
    assert_eq!(latest_activity_time("[]").unwrap(), "null");
    assert!(latest_activity_time("<html>").is_none());
}

#[test]
fn roast_from_events_outcomes() {
    let body = r#"[{"created_at":"2020-01-01T00:00:00Z"}]"#;
    let msg = roast_from_events(body, "<@5>").unwrap();
    assert!(msg.starts_with("<@5> EYYYYOOOOO its been "));
    assert_eq!(roast_from_events("oops", "<@5>"), Err(ActivityTimeError::NotJson));
    assert_eq!(roast_from_events("[]", "<@5>"), Err(ActivityTimeError::Unparsable));
}

#[test]
fn whole_days_count_like_chrono() {
    assert_eq!(whole_days_between(86400 * 3, 0, 0), 3);
    assert_eq!(whole_days_between(86400 * 3 - 1, 999, 0), 2);
    assert_eq!(whole_days_between(0, 0, 86400), -1);
    assert_eq!(whole_days_between(0, 5, 86400), 0);
    assert_eq!(whole_days_between(-86399, 0, 0), 0);
    assert_eq!(whole_days_between(i64::MIN, 0, i64::MAX), (-(u64::MAX as i128) / 86400) as i64);
}
