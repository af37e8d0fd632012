//! Nagging tracked users about their latest public GitHub activity.

use crate::text::{
    decimal, decimal_value, digit_char, i64_to_decimal, is_digits, lemma_decimal_reads_back,
    push_text, signed_decimal, u64_to_decimal,
};
use vstd::prelude::*;
use vstd::string::*;

verus! {

/// The error chrono reports for text that does not match a format.
#[verifier::external_type_specification]
#[verifier::external_body]
pub struct ExChronoParseError(chrono::ParseError);

/// The instant chrono reads from `text` under `format`, in whole seconds
/// since the Unix epoch taken as UTC; `None` when the text does not match.
pub uninterp spec fn parsed_timestamp(text: Seq<char>, format: Seq<char>) -> Option<i64>;

/// Calls `chrono::NaiveDateTime::parse_from_str(text, format)` and reads
/// the parsed date and time, taken as UTC, as whole seconds since the Unix
/// epoch. Claimed: the outcome is `parsed_timestamp(text, format)`, a
/// function of the two texts alone.
#[verifier::external_body]
fn parse_timestamp(text: &str, format: &str) -> (r: Result<i64, chrono::ParseError>)
    ensures
        match r {
            Ok(t) => parsed_timestamp(text@, format@) == Some(t),
            Err(_) => parsed_timestamp(text@, format@) is None,
        },
{
    match chrono::NaiveDateTime::parse_from_str(text, format) {
        Ok(d) => Ok(d.and_utc().timestamp()),
        Err(e) => Err(e),
    }
}

/// Reads the clock with `chrono::Utc::now()`: whole seconds since the Unix
/// epoch and the nanoseconds past that second. Nothing is claimed of the
/// values, which depend on when it is called.
#[verifier::external_body]
fn utc_now() -> (now: (i64, u32)) {
    let now = chrono::Utc::now();
    (now.timestamp(), now.timestamp_subsec_nanos())
}

/// Whole days from the instant `then` (whole seconds) to the instant `now`
/// (`now_secs` seconds and `now_nanos` nanoseconds): the elapsed seconds
/// rounded toward zero, then divided by 86400 rounding toward zero.
pub open spec fn whole_days(now_secs: int, now_nanos: int, then: int) -> int {
    let secs = now_secs - then;
    let whole_secs = if secs < 0 && now_nanos > 0 {
        secs + 1
    } else {
        secs
    };
    if whole_secs >= 0 {
        whole_secs / 86400
    } else {
        -((-whole_secs) / 86400)
    }
}

/// Whole days from `then` to `now`, as chrono's `num_days` counts them on
/// the difference of the two instants.
pub fn whole_days_between(now_secs: i64, now_nanos: u32, then: i64) -> (days: i64)
    ensures
        days == whole_days(now_secs as int, now_nanos as int, then as int),
{
    let secs: i128 = now_secs as i128 - then as i128;
    let whole_secs: i128 = if secs < 0 && now_nanos > 0 {
        secs + 1
    } else {
        secs
    };
    let days: i128 = if whole_secs >= 0 {
        whole_secs / 86400
    } else {
        -((-whole_secs) / 86400)
    };
    assert(-0x1_0000_0000_0000_0000 <= whole_secs <= 0x1_0000_0000_0000_0000);
    assert(-0x1_0000_0000_0000 <= days <= 0x1_0000_0000_0000);
    days as i64
}

/// The `created_at` text (JSON, quotes included) of the first entry of the
/// JSON array `body`, as serde_json reads and prints it; `None` when `body`
/// is not JSON.
pub uninterp spec fn first_event_created_at(body: Seq<char>) -> Option<Seq<char>>;

/// Calls `serde_json::from_str::<serde_json::Value>(body)` and prints the
/// value at `[0]["created_at"]` with `Value::to_string` (indexing a value
/// that lacks the entry gives `null`). Claimed: the outcome is
/// `first_event_created_at(body)`, a function of the text alone.
#[verifier::external_body]
fn parse_first_event_created_at(body: &str) -> (r: Option<String>)
    ensures
        match r {
            Some(s) => first_event_created_at(body@) == Some(s@),
            None => first_event_created_at(body@) is None,
        },
{
    match serde_json::from_str::<serde_json::Value>(body) {
        Ok(v) => Some(v[0]["created_at"].to_string()),
        Err(_) => None,
    }
}

/// Why no reminder could be made from a user's event list.
#[derive(Debug, Clone, Copy, PartialEq, Eq, Structural)]
pub enum ActivityTimeError {
    /// The event list was not JSON.
    NotJson,
    /// The latest event's time did not have the expected form.
    Unparsable,
}

/// The form of the `created_at` field of a GitHub event, taken as JSON
/// text and so quoted.
pub open spec fn activity_time_format() -> Seq<char> {
    "\"%Y-%m-%dT%H:%M:%SZ\""@
}

/// The GitHub address listing the public events of `username`.
pub open spec fn events_url(username: Seq<char>) -> Seq<char> {
    "https://api.github.com/users/"@ + username + "/events"@
}

/// The message announcing how many users are tracked.
pub open spec fn tracking_message(count: nat) -> Seq<char> {
    "I am tracking "@ + decimal(count) + " github users"@
}

/// The left half of the celebration emote.
pub open spec fn emote_left() -> Seq<char> {
    "<:zwidepeepoL:967238704395587664>"@
}

/// The right half of the celebration emote.
pub open spec fn emote_right() -> Seq<char> {
    "<:zwidepeepoR:967238704462704640>"@
}

/// The message for a user whose last public activity was `days` whole days
/// ago: praise for 0 to 2 days, a jab otherwise.
pub open spec fn roast_reply(mention: Seq<char>, days: int) -> Seq<char> {
    if 0 <= days <= 2 {
        "Good job "@ + mention + "! "@ + signed_decimal(days)
            + " days your last public commit! "@ + emote_left() + emote_right()
    } else {
        mention + " EYYYYOOOOO its been "@ + signed_decimal(days)
            + " since your last public commit, get working o3o"@
    }
}

/// The address listing the public events of `username`.
pub fn events_url_text(username: &str) -> (url: String)
    ensures
        url@ == events_url(username@),
{
    let mut url = "https://api.github.com/users/".to_owned();
    push_text(&mut url, username);
    push_text(&mut url, "/events");
    url
}

/// The message announcing how many users are tracked.
pub fn tracking_message_text(count: usize) -> (s: String)
    ensures
        s@ == tracking_message(count as nat),
{
    let mut s = "I am tracking ".to_owned();
    let n = u64_to_decimal(count as u64);
    push_text(&mut s, n.as_str());
    push_text(&mut s, " github users");
    s
}

/// The message for `mention` whose last activity was `days` days ago.
pub fn roast_reply_text(mention: &str, days: i64) -> (s: String)
    ensures
        s@ == roast_reply(mention@, days as int),
{
    let d = i64_to_decimal(days);
    if 0 <= days && days <= 2 {
        let mut s = "Good job ".to_owned();
        push_text(&mut s, mention);
        push_text(&mut s, "! ");
        push_text(&mut s, d.as_str());
        push_text(&mut s, " days your last public commit! ");
        push_text(&mut s, "<:zwidepeepoL:967238704395587664>");
        push_text(&mut s, "<:zwidepeepoR:967238704462704640>");
        s
    } else {
        let mut s = mention.to_owned();
        push_text(&mut s, " EYYYYOOOOO its been ");
        push_text(&mut s, d.as_str());
        push_text(&mut s, " since your last public commit, get working o3o");
        s
    }
}

/// What a reminder from the activity time `created_at` comes to when the
/// clock reads `now_secs` seconds and `now_nanos` nanoseconds: the whole
/// days since then, or `Unparsable`.
pub open spec fn activity_age(created_at: Seq<char>, now_secs: int, now_nanos: int) -> Result<
    int,
    ActivityTimeError,
> {
    match parsed_timestamp(created_at, activity_time_format()) {
        Some(then) => Ok(whole_days(now_secs, now_nanos, then as int)),
        None => Err(ActivityTimeError::Unparsable),
    }
}

/// The reminder for `mention` from the activity time `created_at` when the
/// clock reads `now_secs` seconds and `now_nanos` nanoseconds.
pub open spec fn roast_at(created_at: Seq<char>, mention: Seq<char>, now_secs: int, now_nanos: int) -> Result<
    Seq<char>,
    ActivityTimeError,
> {
    match activity_age(created_at, now_secs, now_nanos) {
        Ok(days) => Ok(roast_reply(mention, days)),
        Err(e) => Err(e),
    }
}

/// The reminder for `mention` from the GitHub event list `body` when the
/// clock reads `now_secs` seconds and `now_nanos` nanoseconds.
pub open spec fn roast_events_at(body: Seq<char>, mention: Seq<char>, now_secs: int, now_nanos: int) -> Result<
    Seq<char>,
    ActivityTimeError,
> {
    match first_event_created_at(body) {
        None => Err(ActivityTimeError::NotJson),
        Some(t) => roast_at(t, mention, now_secs, now_nanos),
    }
}

/// A day count as a mathematical outcome.
pub open spec fn age_outcome(r: Result<i64, ActivityTimeError>) -> Result<int, ActivityTimeError> {
    match r {
        Ok(d) => Ok(d as int),
        Err(e) => Err(e),
    }
}

/// `r` is the outcome `o`, texts compared by their characters.
pub open spec fn same_outcome(r: Result<String, ActivityTimeError>, o: Result<Seq<char>, ActivityTimeError>) -> bool {
    match r {
        Ok(s) => o == Ok::<Seq<char>, ActivityTimeError>(s@),
        Err(e) => o == Err::<Seq<char>, ActivityTimeError>(e),
    }
}

/// Whole days from the activity time `created_at` (the JSON text of the
/// event's `created_at` field) to the clock reading `now_secs` seconds and
/// `now_nanos` nanoseconds.
pub fn activity_age_days_at(created_at: &str, now_secs: i64, now_nanos: u32) -> (r: Result<
    i64,
    ActivityTimeError,
>)
    ensures
        age_outcome(r) == activity_age(created_at@, now_secs as int, now_nanos as int),
{
    match parse_timestamp(created_at, "\"%Y-%m-%dT%H:%M:%SZ\"") {
        Ok(then) => Ok(whole_days_between(now_secs, now_nanos, then)),
        Err(_) => Err(ActivityTimeError::Unparsable),
    }
}

/// Whole days since the activity time `created_at`, counted against the
/// clock; an error when the time does not have the form
/// `activity_time_format()`.
pub fn activity_age_days(created_at: &str) -> (r: Result<i64, ActivityTimeError>)
    ensures
        exists|now_secs: i64, now_nanos: u32|
            age_outcome(r) == #[trigger] activity_age(created_at@, now_secs as int, now_nanos as int),
{
    let (now_secs, now_nanos) = utc_now();
    activity_age_days_at(created_at, now_secs, now_nanos)
}

/// The reminder for `mention` from the activity time `created_at` when the
/// clock reads `now_secs` seconds and `now_nanos` nanoseconds.
pub fn roast_message_at(created_at: &str, mention: &str, now_secs: i64, now_nanos: u32) -> (r: Result<
    String,
    ActivityTimeError,
>)
    ensures
        same_outcome(r, roast_at(created_at@, mention@, now_secs as int, now_nanos as int)),
{
    match activity_age_days_at(created_at, now_secs, now_nanos) {
        Ok(days) => Ok(roast_reply_text(mention, days)),
        Err(e) => Err(e),
    }
}

/// The reminder for the tracked user `mention` whose latest event happened
/// at `created_at`, counted against the clock; an error when the time
/// cannot be read.
pub fn roast_message(created_at: &str, mention: &str) -> (r: Result<String, ActivityTimeError>)
    ensures
        exists|now_secs: i64, now_nanos: u32|
            same_outcome(r, #[trigger] roast_at(created_at@, mention@, now_secs as int, now_nanos as int)),
{
    let (now_secs, now_nanos) = utc_now();
    roast_message_at(created_at, mention, now_secs, now_nanos)
}

/// The JSON text of the `created_at` field of the latest event in the
/// GitHub event list `body`; `None` when `body` is not JSON.
pub fn latest_activity_time(body: &str) -> (r: Option<String>)
    ensures
        match r {
            Some(s) => first_event_created_at(body@) == Some(s@),
            None => first_event_created_at(body@) is None,
        },
{
    parse_first_event_created_at(body)
}

/// The reminder for `mention` from their GitHub event list `body` when the
/// clock reads `now_secs` seconds and `now_nanos` nanoseconds.
pub fn roast_from_events_at(body: &str, mention: &str, now_secs: i64, now_nanos: u32) -> (r: Result<
    String,
    ActivityTimeError,
>)
    ensures
        same_outcome(r, roast_events_at(body@, mention@, now_secs as int, now_nanos as int)),
{
    match latest_activity_time(body) {
        None => Err(ActivityTimeError::NotJson),
        Some(created_at) => roast_message_at(created_at.as_str(), mention, now_secs, now_nanos),
    }
}

/// The reminder for the tracked user `mention` from their GitHub event list
/// `body`, counted against the clock: the reply for the whole days since
/// their latest event; an error when the list is not JSON or the event's
/// time cannot be read.
pub fn roast_from_events(body: &str, mention: &str) -> (r: Result<String, ActivityTimeError>)
    ensures
        exists|now_secs: i64, now_nanos: u32|
            same_outcome(r, #[trigger] roast_events_at(body@, mention@, now_secs as int, now_nanos as int)),
{
    let (now_secs, now_nanos) = utc_now();
    roast_from_events_at(body, mention, now_secs, now_nanos)
}

/// The conversion letters of a strftime-style format read from position
/// `i` on, in order: each character that follows a `%`.
pub open spec fn directives_from(format: Seq<char>, i: nat) -> Seq<char>
    decreases format.len() - i,
{
    if i + 1 >= format.len() {
        Seq::empty()
    } else if format[i as int] == '%' {
        seq![format[i + 1 as int]] + directives_from(format, i + 2)
    } else {
        directives_from(format, i + 1)
    }
}

/// An activity time is read as year, month, day, hour, minute, second, in
/// that order, between the quotes of its JSON text and with the UTC mark
/// `Z`; and the day count for any time and clock is the whole days from the
/// instant so read.
pub proof fn lemma_activity_time_is_year_month_day(created_at: Seq<char>, now_secs: int, now_nanos: int)
    ensures
        directives_from(activity_time_format(), 0) == seq!['Y', 'm', 'd', 'H', 'M', 'S'],
        activity_time_format()[0] == '"',
        activity_time_format().last() == '"',
        activity_time_format()[activity_time_format().len() - 2] == 'Z',
        activity_age(created_at, now_secs, now_nanos) == match parsed_timestamp(
            created_at,
            activity_time_format(),
        ) {
            Some(then) => Ok::<int, ActivityTimeError>(whole_days(now_secs, now_nanos, then as int)),
            None => Err::<int, ActivityTimeError>(ActivityTimeError::Unparsable),
        },
{
    reveal_strlit("\"%Y-%m-%dT%H:%M:%SZ\"");
    let f = activity_time_format();
    assert(f.len() == 20);
    reveal_with_fuel(directives_from, 4);
    assert(directives_from(f, 18) =~= Seq::<char>::empty());
    assert(directives_from(f, 16) =~= seq!['S']);
    assert(directives_from(f, 13) =~= seq!['M', 'S']);
    assert(directives_from(f, 10) =~= seq!['H', 'M', 'S']);
    assert(directives_from(f, 7) =~= seq!['d', 'H', 'M', 'S']);
    assert(directives_from(f, 4) =~= seq!['m', 'd', 'H', 'M', 'S']);
    assert(directives_from(f, 1) =~= seq!['Y', 'm', 'd', 'H', 'M', 'S']);
    assert(directives_from(f, 0) =~= seq!['Y', 'm', 'd', 'H', 'M', 'S']);
}

/// Recent activity is praised and older (or future-dated) activity draws a
/// jab: for 0 to 2 days the reply is the praise naming the user and the
/// single digit of the day count; otherwise it is the jab naming the user
/// and a day count that reads back as `days` (with a minus sign when
/// negative).
pub proof fn lemma_roast_reply_by_age(mention: Seq<char>, days: int)
    ensures
        0 <= days <= 2 ==> roast_reply(mention, days) == "Good job "@ + mention + "! "@ + seq![
            digit_char(days as nat),
        ] + " days your last public commit! "@ + "<:zwidepeepoL:967238704395587664>"@
            + "<:zwidepeepoR:967238704462704640>"@,
        days > 2 ==> exists|digits: Seq<char>|
            #![trigger decimal_value(digits)]
            roast_reply(mention, days) == mention + " EYYYYOOOOO its been "@ + digits
                + " since your last public commit, get working o3o"@ && is_digits(digits)
                && decimal_value(digits) == days,
        days < 0 ==> exists|digits: Seq<char>|
            #![trigger decimal_value(digits)]
            roast_reply(mention, days) == mention + " EYYYYOOOOO its been "@ + seq!['-'] + digits
                + " since your last public commit, get working o3o"@ && is_digits(digits)
                && decimal_value(digits) == -days,
{
    if 0 <= days <= 2 {
        lemma_decimal_reads_back(days as nat);
    } else if days > 2 {
        lemma_decimal_reads_back(days as nat);
        assert(decimal_value(decimal(days as nat)) == days);
    } else {
        lemma_decimal_reads_back((-days) as nat);
        assert(decimal_value(decimal((-days) as nat)) == -days);
        let digits = decimal((-days) as nat);
        assert(mention + " EYYYYOOOOO its been "@ + (seq!['-'] + digits)
            + " since your last public commit, get working o3o"@ =~= mention
            + " EYYYYOOOOO its been "@ + seq!['-'] + digits
            + " since your last public commit, get working o3o"@);
    }
}

} // verus!
