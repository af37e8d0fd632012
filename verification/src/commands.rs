//! What each chat command does to the bot's state and what it answers.

use crate::counter::{counts_after, lemma_counts_after_runs, uses_of, CommandCounter};
use crate::data::{score_of, untracked, GitLink, SaveData};
use crate::text::{decimal, decimal_value, is_digits, lemma_decimal_reads_back, push_text, u64_to_decimal};
use vstd::prelude::*;
use vstd::string::*;

verus! {

/// The answer to a command, and whether the saved state changed and must be
/// written out.
#[derive(Debug)]
pub struct CommandReply {
    pub text: String,
    pub save: bool,
}

/// The reply to `~ping`.
pub open spec fn ping_reply() -> Seq<char> {
    "Pong!"@
}

/// The reply when `~github` names no account.
pub open spec fn missing_username_reply() -> Seq<char> {
    "I need a username"@
}

/// The reply when tracking of `username` starts.
pub open spec fn tracking_started_reply(username: Seq<char>) -> Seq<char> {
    "Now tracking "@ + username + "'s commits"@
}

/// The reply to `~github_remove` from a user with no linked account.
pub open spec fn not_tracked_reply() -> Seq<char> {
    "You do not have a github username assigned!"@
}

/// The reply when tracking of `username` stops.
pub open spec fn tracking_stopped_reply(username: Seq<char>) -> Seq<char> {
    "No longer tracking "@ + username
}

/// The reply when `~command_usage` names no command.
pub open spec fn missing_command_reply() -> Seq<char> {
    "I require an argument to run this command."@
}

/// The reply to `~command_usage name` when `name` ran `amount` times.
pub open spec fn usage_reply(name: Seq<char>, amount: nat) -> Seq<char> {
    if amount == 0 {
        "The command `"@ + name + "` has not yet been used."@
    } else {
        "The command `"@ + name + "` has been used "@ + decimal(amount)
            + " time/s this session!"@
    }
}

/// The reply sent when a command ended in an error.
pub open spec fn command_failed_reply() -> Seq<char> {
    "Command failed, check logs"@
}

/// The two texts of a scoreboard line: the player's name and score.
pub open spec fn scoreboard_line(username: Seq<char>, score: nat) -> (Seq<char>, Seq<char>) {
    ("name: "@ + username, "score: "@ + decimal(score))
}

/// The reply to `~ping`.
pub fn ping() -> (s: &'static str)
    ensures
        s@ == ping_reply(),
{
    "Pong!"
}

/// `~github username`: the author starts being tracked under `username`
/// (`None` when the command named no account, which changes nothing).
pub fn github(data: &mut SaveData, author: u64, username: Option<String>) -> (reply: CommandReply)
    ensures
        match username {
            None => {
                &&& reply.text@ == missing_username_reply()
                &&& !reply.save
                &&& final(data).github_users@ == old(data).github_users@
                &&& final(data).quiz_scores@ == old(data).quiz_scores@
            },
            Some(name) => {
                &&& reply.text@ == tracking_started_reply(name@)
                &&& reply.save
                &&& final(data).github_users@ == old(data).github_users@.push(
                    GitLink { discord_id: author, github_username: name },
                )
                &&& final(data).quiz_scores@ == old(data).quiz_scores@
            },
        },
{
    match username {
        None => CommandReply { text: "I need a username".to_owned(), save: false },
        Some(name) => {
            let mut text = "Now tracking ".to_owned();
            push_text(&mut text, name.as_str());
            push_text(&mut text, "'s commits");
            data.track_github(author, name);
            CommandReply { text, save: true }
        },
    }
}

/// `~github_remove`: every account linked to the author stops being tracked;
/// the reply names the first of them.
pub fn github_remove(data: &mut SaveData, author: u64) -> (reply: CommandReply)
    ensures
        ({
            let (rest, removed) = untracked(old(data).github_users@, author);
            &&& final(data).github_users@ == rest
            &&& final(data).quiz_scores@ == old(data).quiz_scores@
            &&& match removed {
                None => reply.text@ == not_tracked_reply() && !reply.save,
                Some(link) => reply.text@ == tracking_stopped_reply(link.github_username@)
                    && reply.save,
            }
        }),
{
    match data.untrack_github(author) {
        None => CommandReply {
            text: "You do not have a github username assigned!".to_owned(),
            save: false,
        },
        Some(link) => {
            let mut text = "No longer tracking ".to_owned();
            push_text(&mut text, link.github_username.as_str());
            CommandReply { text, save: true }
        },
    }
}

/// `~command_usage name`: how often `name` ran this session (`None` when the
/// command named nothing).
pub fn command_usage(counter: &CommandCounter, name: Option<&str>) -> (s: String)
    ensures
        s@ == match name {
            None => missing_command_reply(),
            Some(n) => usage_reply(n@, uses_of(counter@, n@) as nat),
        },
{
    match name {
        None => "I require an argument to run this command.".to_owned(),
        Some(n) => {
            let amount = counter.usage(n);
            let mut s = "The command `".to_owned();
            push_text(&mut s, n);
            if amount == 0 {
                push_text(&mut s, "` has not yet been used.");
            } else {
                push_text(&mut s, "` has been used ");
                let digits = u64_to_decimal(amount);
                push_text(&mut s, digits.as_str());
                push_text(&mut s, " time/s this session!");
            }
            s
        },
    }
}

/// Runs before every command: counts one more run of `command_name` and
/// lets the command go ahead.
pub fn before(counter: &mut CommandCounter, command_name: &str) -> (proceed: bool)
    requires
        uses_of(old(counter)@, command_name@) < u64::MAX,
    ensures
        proceed,
        final(counter)@ == old(counter)@.insert(
            command_name@,
            (uses_of(old(counter)@, command_name@) + 1) as u64,
        ),
{
    counter.record(command_name);
    true
}

/// Runs after every command: a failed command is answered with a notice.
pub fn after(succeeded: bool) -> (reply: Option<&'static str>)
    ensures
        match reply {
            None => succeeded,
            Some(s) => !succeeded && s@ == command_failed_reply(),
        },
{
    if succeeded {
        None
    } else {
        Some("Command failed, check logs")
    }
}

/// The two texts of the scoreboard line of `username` with `score` points.
pub fn scoreboard_line_text(username: &str, score: u64) -> (line: (String, String))
    ensures
        (line.0@, line.1@) == scoreboard_line(username@, score as nat),
{
    let mut name = "name: ".to_owned();
    push_text(&mut name, username);
    let mut points = "score: ".to_owned();
    let digits = u64_to_decimal(score);
    push_text(&mut points, digits.as_str());
    (name, points)
}

/// The end of a quiz for `user`: a correct answer earns one point (and the
/// state must be saved); a wrong one changes nothing.
pub fn settle_quiz(data: &mut SaveData, user: u64, correct: bool) -> (save: bool)
    requires
        correct ==> score_of(old(data).quiz_scores@, user) < u64::MAX,
    ensures
        save == correct,
        final(data).github_users@ == old(data).github_users@,
        final(data).quiz_scores@ == if correct {
            old(data).quiz_scores@.insert(user, (score_of(old(data).quiz_scores@, user) + 1) as u64)
        } else {
            old(data).quiz_scores@
        },
{
    if !correct {
        return false;
    }
    data.record_quiz_win(user);
    true
}

/// The scoreboard: one line per player, in the order given.
pub fn scoreboard_fields(players: &Vec<(String, u64)>) -> (lines: Vec<(String, String)>)
    ensures
        lines@.len() == players@.len(),
        forall|i: int|
            0 <= i < lines@.len() ==> (#[trigger] lines@[i].0@, lines@[i].1@) == scoreboard_line(
                players@[i].0@,
                players@[i].1 as nat,
            ),
{
    let mut lines: Vec<(String, String)> = Vec::new();
    let n = players.len();
    let mut i: usize = 0;
    while i < n
        invariant
            i <= n,
            n == players@.len(),
            lines@.len() == i,
            forall|j: int|
                0 <= j < i ==> (#[trigger] lines@[j].0@, lines@[j].1@) == scoreboard_line(
                    players@[j].0@,
                    players@[j].1 as nat,
                ),
        decreases n - i,
    {
        let line = scoreboard_line_text(players[i].0.as_str(), players[i].1);
        lines.push(line);
        i += 1;
    }
    lines
}

/// The usage reply reports the whole count: for a command that ran `n > 0`
/// times it names the command and carries a run of digits reading back as
/// exactly `n`; for a command that never ran it says so.
pub proof fn lemma_usage_reply_reports_count(name: Seq<char>, n: nat)
    ensures
        n > 0 ==> exists|digits: Seq<char>|
            #![trigger decimal_value(digits)]
            usage_reply(name, n) == "The command `"@ + name + "` has been used "@ + digits
                + " time/s this session!"@ && is_digits(digits) && decimal_value(digits) == n,
        n == 0 ==> usage_reply(name, n) == "The command `"@ + name + "` has not yet been used."@,
{
    lemma_decimal_reads_back(n);
    if n > 0 {
        assert(decimal_value(decimal(n)) == n);
    }
}

/// Counting: one run of `before` for `next` turns the counts after `names`
/// into the counts after `names` then `next`; and once `before` ran for the
/// commands `names` from a new counter, `~command_usage name` reports the
/// number of times `name` occurs in `names`.
pub proof fn lemma_usage_reports_runs(names: Seq<Seq<char>>, name: Seq<char>, next: Seq<char>)
    requires
        names.len() < u64::MAX,
    ensures
        counts_after(names.push(next)) == counts_after(names).insert(
            next,
            (uses_of(counts_after(names), next) + 1) as u64,
        ),
        usage_reply(name, uses_of(counts_after(names), name) as nat) == usage_reply(
            name,
            names.to_multiset().count(name),
        ),
{
    lemma_counts_after_runs(names, name);
    assert(names.push(next).drop_last() =~= names);
}

} // verus!
