//! The trivia quiz: the answer choices offered to the player, how a picked
//! choice is read back, and whether it was the right one.

use crate::text::{contains_text, has_prefix, has_substring, push_text, starts_with};
use rand::seq::SliceRandom;
use vstd::prelude::*;
use vstd::string::*;

verus! {

/// One of the (up to four) answer slots of a quiz question.
#[derive(Debug, Clone, Copy, PartialEq, Eq, Structural)]
pub enum Question {
    A1,
    A2,
    A3,
    A4,
}

/// The text that a selection did not name any answer slot; it holds the text.
#[derive(Debug)]
pub struct ParseComponentError(pub String);

/// The name of an answer slot as the player sees it.
pub open spec fn question_label(q: Question) -> Seq<char> {
    match q {
        Question::A1 => "A1"@,
        Question::A2 => "A2"@,
        Question::A3 => "A3"@,
        Question::A4 => "A4"@,
    }
}

/// The zero-based position of an answer slot: the slot's number minus one.
pub open spec fn question_index(q: Question) -> int {
    match q {
        Question::A1 => 0,
        Question::A2 => 1,
        Question::A3 => 2,
        Question::A4 => 3,
    }
}

/// The answer slot at zero-based position `i` (0..=3).
pub open spec fn question_at(i: int) -> Question {
    if i == 0 {
        Question::A1
    } else if i == 1 {
        Question::A2
    } else if i == 2 {
        Question::A3
    } else {
        Question::A4
    }
}

/// `c` with ASCII upper-case letters turned to lower case.
pub open spec fn ascii_lower_char(c: char) -> char {
    if 'A' <= c && c <= 'Z' {
        ((c as int) + 32) as char
    } else {
        c
    }
}

/// `s` with every ASCII upper-case letter turned to lower case.
pub open spec fn ascii_lowercase(s: Seq<char>) -> Seq<char> {
    s.map_values(|c: char| ascii_lower_char(c))
}

/// The value a menu option of slot `q` reports when picked: its label in
/// lower case.
pub open spec fn option_value(q: Question) -> Seq<char> {
    ascii_lowercase(question_label(q))
}

/// The text of the menu option of slot `q` offering `answer`.
pub open spec fn option_label(q: Question, answer: Seq<char>) -> Seq<char> {
    question_label(q) + ": "@ + answer
}

/// The slot named by a picked menu value: the first slot whose lower-case
/// label the value begins with.
pub open spec fn parse_answer(s: Seq<char>) -> Option<Question> {
    if has_prefix(s, "a1"@) {
        Some(Question::A1)
    } else if has_prefix(s, "a2"@) {
        Some(Question::A2)
    } else if has_prefix(s, "a3"@) {
        Some(Question::A3)
    } else if has_prefix(s, "a4"@) {
        Some(Question::A4)
    } else {
        None
    }
}

/// One option of the answer menu.
#[derive(Debug)]
pub struct MenuOption {
    pub label: String,
    pub value: String,
}

impl Question {
    /// The slot's name, "A1" to "A4".
    pub fn label(&self) -> (s: &'static str)
        ensures
            s@ == question_label(*self),
    {
        match self {
            Question::A1 => "A1",
            Question::A2 => "A2",
            Question::A3 => "A3",
            Question::A4 => "A4",
        }
    }

    /// The slot's zero-based position among the answers.
    pub fn index(&self) -> (i: usize)
        ensures
            i == question_index(*self),
    {
        match self {
            Question::A1 => 0,
            Question::A2 => 1,
            Question::A3 => 2,
            Question::A4 => 3,
        }
    }

    /// The slot at zero-based position `i`.
    pub fn at(i: usize) -> (q: Question)
        requires
            i < 4,
        ensures
            q == question_at(i as int),
            question_index(q) == i,
    {
        if i == 0 {
            Question::A1
        } else if i == 1 {
            Question::A2
        } else if i == 2 {
            Question::A3
        } else {
            Question::A4
        }
    }

    /// Reads a picked menu value back as a slot: the value must begin with
    /// "a1", "a2", "a3" or "a4"; otherwise the error holds the value.
    pub fn from_str(s: &str) -> (r: Result<Question, ParseComponentError>)
        ensures
            match r {
                Ok(q) => parse_answer(s@) == Some(q),
                Err(e) => parse_answer(s@) is None && e.0@ == s@,
            },
    {
        if starts_with(s, "a1") {
            Ok(Question::A1)
        } else if starts_with(s, "a2") {
            Ok(Question::A2)
        } else if starts_with(s, "a3") {
            Ok(Question::A3)
        } else if starts_with(s, "a4") {
            Ok(Question::A4)
        } else {
            Err(ParseComponentError(s.to_owned()))
        }
    }

    /// The value reported when this slot's menu option is picked.
    pub fn value(&self) -> (s: &'static str)
        ensures
            s@ == option_value(*self),
    {
        proof {
            reveal_strlit("A1");
            reveal_strlit("A2");
            reveal_strlit("A3");
            reveal_strlit("A4");
            reveal_strlit("a1");
            reveal_strlit("a2");
            reveal_strlit("a3");
            reveal_strlit("a4");
        }
        match self {
            Question::A1 => {
                assert(ascii_lowercase("A1"@) =~= "a1"@);
                "a1"
            },
            Question::A2 => {
                assert(ascii_lowercase("A2"@) =~= "a2"@);
                "a2"
            },
            Question::A3 => {
                assert(ascii_lowercase("A3"@) =~= "a3"@);
                "a3"
            },
            Question::A4 => {
                assert(ascii_lowercase("A4"@) =~= "a4"@);
                "a4"
            },
        }
    }

    /// The menu option of this slot offering the answer text `custom`.
    pub fn menu_option(&self, custom: &str) -> (opt: MenuOption)
        ensures
            opt.label@ == option_label(*self, custom@),
            opt.value@ == option_value(*self),
    {
        let mut label = self.label().to_owned();
        push_text(&mut label, ": ");
        push_text(&mut label, custom);
        MenuOption { label, value: self.value().to_owned() }
    }
}

/// A menu option of slot `q` reports a value that reads back as `q`, and
/// the option at position `i` of the menu is the slot whose index is `i`.
pub proof fn lemma_menu_value_round_trip(i: int)
    requires
        0 <= i < 4,
    ensures
        parse_answer(option_value(question_at(i))) == Some(question_at(i)),
        question_index(question_at(i)) == i,
{
    reveal_strlit("A1");
    reveal_strlit("A2");
    reveal_strlit("A3");
    reveal_strlit("A4");
    reveal_strlit("a1");
    reveal_strlit("a2");
    reveal_strlit("a3");
    reveal_strlit("a4");
    assert(ascii_lowercase("A1"@) =~= "a1"@);
    assert(ascii_lowercase("A2"@) =~= "a2"@);
    assert(ascii_lowercase("A3"@) =~= "a3"@);
    assert(ascii_lowercase("A4"@) =~= "a4"@);
    assert("a1"@.subrange(0, 2) =~= "a1"@);
    assert("a2"@.subrange(0, 2) =~= "a2"@);
    assert("a3"@.subrange(0, 2) =~= "a3"@);
    assert("a4"@.subrange(0, 2) =~= "a4"@);
    assert("a2"@.subrange(0, 2)[1] != "a1"@[1]);
    assert("a3"@.subrange(0, 2)[1] != "a1"@[1]);
    assert("a3"@.subrange(0, 2)[1] != "a2"@[1]);
    assert("a4"@.subrange(0, 2)[1] != "a1"@[1]);
    assert("a4"@.subrange(0, 2)[1] != "a2"@[1]);
    assert("a4"@.subrange(0, 2)[1] != "a3"@[1]);
}

/// One question of the trivia service's reply. Each field holds the JSON
/// text of the field of the same name ("type" for `kind`), quotes included.
#[derive(Debug, Clone)]
pub struct QuizQuestion {
    pub question: String,
    pub kind: String,
    pub correct_answer: String,
    pub incorrect_answers: Vec<String>,
}

/// The trivia service's reply. Each entry of `results` is kept as the JSON
/// text it was sent as.
#[derive(Debug, Clone)]
pub struct QuizResponse {
    pub response_code: i32,
    pub results: Vec<String>,
}

/// One entry of the trivia service's `results`, as plain texts: the JSON
/// texts of `question`, `type` and `correct_answer`, and the JSON texts of
/// the items of `incorrect_answers` (`None` when that field is no array).
pub type QuizEntryText = (Seq<char>, Seq<char>, Seq<char>, Option<Seq<Seq<char>>>);

/// The entry `text` as serde_json reads it; `None` when it is not JSON.
pub uninterp spec fn quiz_entry_json(text: Seq<char>) -> Option<QuizEntryText>;

/// One entry as the reader hands it over.
pub type RawQuizEntry = (String, String, String, Option<Vec<String>>);

/// The plain texts of a raw entry.
pub open spec fn raw_entry_view(e: RawQuizEntry) -> QuizEntryText {
    (e.0@, e.1@, e.2@, match e.3 {
        Some(v) => Some(v@.map_values(|s: String| s@)),
        None => None,
    })
}

/// Calls `serde_json::from_str::<serde_json::Value>(text)` and reads the
/// entry: its `question`, `type` and `correct_answer` printed with
/// `Value::to_string` (a missing field prints as `null`), and its
/// `incorrect_answers` with `Value::as_array`, each item printed. Claimed:
/// the outcome is `quiz_entry_json(text)`, a function of the text alone.
#[verifier::external_body]
fn read_quiz_entry(text: &str) -> (r: Option<RawQuizEntry>)
    ensures
        match r {
            Some(e) => quiz_entry_json(text@) == Some(raw_entry_view(e)),
            None => quiz_entry_json(text@) is None,
        },
{
    match serde_json::from_str::<serde_json::Value>(text) {
        Ok(e) => Some((
            e["question"].to_string(),
            e["type"].to_string(),
            e["correct_answer"].to_string(),
            e["incorrect_answers"].as_array().map(|a| a.iter().map(|x| x.to_string()).collect()),
        )),
        Err(_) => None,
    }
}

/// Why the trivia service's reply gave no question.
#[derive(Debug, Clone, Copy, PartialEq, Eq, Structural)]
pub enum QuizJsonError {
    /// `results` is empty.
    EmptyResults,
    /// The first entry is not JSON.
    EntryNotJson,
    /// The first entry's `incorrect_answers` is not an array.
    AnswersNotList,
}

/// What the reply `results` give: the error, or the first question's texts.
pub open spec fn quiz_outcome(results: Seq<String>) -> Result<QuizEntryText, QuizJsonError> {
    if results.len() == 0 {
        Err(QuizJsonError::EmptyResults)
    } else {
        match quiz_entry_json(results[0]@) {
            None => Err(QuizJsonError::EntryNotJson),
            Some(e) => if e.3 is None {
                Err(QuizJsonError::AnswersNotList)
            } else {
                Ok(e)
            },
        }
    }
}

/// The plain texts of a question.
pub open spec fn question_view(q: QuizQuestion) -> QuizEntryText {
    (q.question@, q.kind@, q.correct_answer@, Some(q.incorrect_answers@.map_values(|s: String| s@)))
}

impl QuizResponse {
    /// The first question of the reply.
    pub fn first_question(&self) -> (r: Result<QuizQuestion, QuizJsonError>)
        ensures
            match r {
                Ok(q) => quiz_outcome(self.results@) == Ok::<QuizEntryText, QuizJsonError>(
                    question_view(q),
                ),
                Err(e) => quiz_outcome(self.results@) == Err::<QuizEntryText, QuizJsonError>(e),
            },
    {
        if self.results.len() == 0 {
            return Err(QuizJsonError::EmptyResults);
        }
        match read_quiz_entry(self.results[0].as_str()) {
            None => Err(QuizJsonError::EntryNotJson),
            Some((question, kind, correct_answer, incorrect)) => match incorrect {
                None => Err(QuizJsonError::AnswersNotList),
                Some(incorrect_answers) => Ok(
                    QuizQuestion { question, kind, correct_answer, incorrect_answers },
                ),
            },
        }
    }
}

/// A question ready to be asked: its answers in the order the menu offers
/// them.
#[derive(Debug)]
pub struct QuizRound {
    pub question: String,
    pub answers: Vec<String>,
    pub correct_answer: String,
    pub is_true_false: bool,
}

/// What the player picked, and whether it was right.
#[derive(Debug)]
pub struct Pick {
    pub chosen: String,
    pub correct: bool,
}

/// `opt` is the menu option of slot `q` offering `answer`.
pub open spec fn offers(opt: MenuOption, q: Question, answer: Seq<char>) -> bool {
    opt.label@ == option_label(q, answer) && opt.value@ == option_value(q)
}

/// How many options the menu offers: two for a true/false question, four
/// otherwise.
pub open spec fn option_count(is_true_false: bool) -> int {
    if is_true_false {
        2
    } else {
        4
    }
}

/// The trivia service's address for one question of the given difficulty.
pub open spec fn quiz_url(difficulty: Seq<char>) -> Seq<char> {
    "https://opentdb.com/api.php?amount=1&difficulty="@ + difficulty
}

/// The reply telling the player which answer they picked.
pub open spec fn choice_reply(q: Question, chosen: Seq<char>) -> Seq<char> {
    "You chose: **"@ + question_label(q) + " - "@ + chosen + "**"@
}

/// The announcement after a quiz answer, addressed to `mention`.
pub open spec fn outcome_message(correct: bool, mention: Seq<char>) -> Seq<char> {
    (if correct {
        "Correct Answer! Good Job!"@
    } else {
        "Ya screwed up"@
    }) + " "@ + mention
}

/// Shuffles the answers in place with a thread-local random generator.
#[verifier::external_body]
fn shuffle_answers(answers: &mut Vec<String>)
    ensures
        final(answers)@.len() == old(answers)@.len(),
        final(answers)@.to_multiset() == old(answers)@.to_multiset(),
{
    answers.shuffle(&mut rand::thread_rng());
}

/// The address to fetch a question from: the requested difficulty, or
/// "easy" when the command named none.
pub fn quiz_api_url(difficulty: Option<&str>) -> (url: String)
    ensures
        url@ == quiz_url(
            match difficulty {
                Some(d) => d@,
                None => "easy"@,
            },
        ),
{
    let mut url = "https://opentdb.com/api.php?amount=1&difficulty=".to_owned();
    match difficulty {
        Some(d) => push_text(&mut url, d),
        None => push_text(&mut url, "easy"),
    }
    url
}

impl QuizRound {
    /// Readies the question `q`: its incorrect answers with the correct one
    /// added, shuffled; a true/false question is one whose
    /// type names "boolean".
    pub fn prepare(q: QuizQuestion) -> (round: QuizRound)
        ensures
            round.question == q.question,
            round.correct_answer == q.correct_answer,
            round.answers@.to_multiset() == q.incorrect_answers@.push(q.correct_answer).to_multiset(),
            round.answers@.len() == q.incorrect_answers@.len() + 1,
            round.is_true_false == has_substring(q.kind@, "boolean"@),
    {
        let QuizQuestion { question, kind, correct_answer, incorrect_answers } = q;
        let mut answers = incorrect_answers;
        answers.push(correct_answer.clone());
        shuffle_answers(&mut answers);
        let is_true_false = contains_text(kind.as_str(), "boolean");
        QuizRound { question, answers, correct_answer, is_true_false }
    }

    /// The answer menu: slots A1 and A2 for a true/false question, A1 to
    /// A4 otherwise, each offering the answer at its position.
    pub fn menu_options(&self) -> (options: Vec<MenuOption>)
        requires
            self.answers@.len() >= option_count(self.is_true_false),
        ensures
            options@.len() == option_count(self.is_true_false),
            forall|i: int|
                0 <= i < options@.len() ==> offers(
                    #[trigger] options@[i],
                    question_at(i),
                    self.answers@[i]@,
                ),
    {
        let count: usize = if self.is_true_false {
            2
        } else {
            4
        };
        let mut options: Vec<MenuOption> = Vec::new();
        let mut i: usize = 0;
        while i < count
            invariant
                i <= count,
                count == option_count(self.is_true_false),
                self.answers@.len() >= count,
                options@.len() == i,
                forall|j: int|
                    0 <= j < i ==> offers(#[trigger] options@[j], question_at(j), self.answers@[j]@),
            decreases count - i,
        {
            let q = Question::at(i);
            let opt = q.menu_option(self.answers[i].as_str());
            options.push(opt);
            i += 1;
        }
        options
    }

    /// The answer behind the picked slot, and whether it holds the correct
    /// answer's text.
    pub fn resolve(&self, picked: Question) -> (pick: Pick)
        requires
            question_index(picked) < self.answers@.len(),
        ensures
            pick.chosen@ == self.answers@[question_index(picked)]@,
            pick.correct == has_substring(
                self.answers@[question_index(picked)]@,
                self.correct_answer@,
            ),
    {
        let i = picked.index();
        let chosen = self.answers[i].clone();
        let correct = contains_text(chosen.as_str(), self.correct_answer.as_str());
        Pick { chosen, correct }
    }
}

/// The message that asks the question.
pub open spec fn question_prompt(question: Seq<char>) -> Seq<char> {
    "QUESTION: "@ + question
}

/// The message that asks the question.
pub fn question_prompt_text(question: &str) -> (s: String)
    ensures
        s@ == question_prompt(question@),
{
    let mut s = "QUESTION: ".to_owned();
    push_text(&mut s, question);
    s
}

/// The question address carries the requested difficulty verbatim: it is
/// the service's base address followed by exactly the difficulty text.
pub proof fn lemma_quiz_url_carries_difficulty(difficulty: Seq<char>)
    ensures
        has_prefix(quiz_url(difficulty), "https://opentdb.com/api.php?amount=1&difficulty="@),
        quiz_url(difficulty).len() == "https://opentdb.com/api.php?amount=1&difficulty="@.len()
            + difficulty.len(),
        quiz_url(difficulty).skip("https://opentdb.com/api.php?amount=1&difficulty="@.len() as int)
            == difficulty,
{
    let base = "https://opentdb.com/api.php?amount=1&difficulty="@;
    assert(quiz_url(difficulty).subrange(0, base.len() as int) =~= base);
    assert(quiz_url(difficulty).skip(base.len() as int) =~= difficulty);
}

/// The reply naming the picked slot and the answer behind it.
pub fn choice_reply_text(picked: Question, chosen: &str) -> (s: String)
    ensures
        s@ == choice_reply(picked, chosen@),
{
    let mut s = "You chose: **".to_owned();
    push_text(&mut s, picked.label());
    push_text(&mut s, " - ");
    push_text(&mut s, chosen);
    push_text(&mut s, "**");
    s
}

/// The announcement after the answer: praise or a jab, then the mention.
pub fn outcome_message_text(correct: bool, mention: &str) -> (s: String)
    ensures
        s@ == outcome_message(correct, mention@),
{
    let mut s = if correct {
        "Correct Answer! Good Job!".to_owned()
    } else {
        "Ya screwed up".to_owned()
    };
    push_text(&mut s, " ");
    push_text(&mut s, mention);
    s
}

/// The correct answer is always among the shuffled answers.
pub proof fn lemma_correct_answer_offered(
    incorrect: Seq<String>,
    correct: String,
    shuffled: Seq<String>,
)
    requires
        shuffled.to_multiset() == incorrect.push(correct).to_multiset(),
    ensures
        shuffled.contains(correct),
{
    broadcast use vstd::seq_lib::group_to_multiset_ensures;

    assert(incorrect.push(correct)[incorrect.len() as int] == correct);
    assert(incorrect.push(correct).contains(correct));
    assert(incorrect.push(correct).to_multiset().count(correct) > 0);
    assert(shuffled.to_multiset().count(correct) > 0);
}

/// Picking the slot whose answer is the correct one is judged correct.
pub proof fn lemma_right_pick_is_correct(answer: Seq<char>)
    ensures
        has_substring(answer, answer),
{
    assert(answer.subrange(0, answer.len() as int) =~= answer);
    assert(crate::text::occurs_at(answer, answer, 0));
}

/// When the menu offers every answer, the correct answer is on it, and the
/// player who picks its option gets back that very slot and is judged
/// correct.
pub proof fn lemma_correct_answer_winnable(answers: Seq<String>, correct: String, is_true_false: bool)
    requires
        answers.contains(correct),
        answers.len() == option_count(is_true_false),
    ensures
        exists|i: int|
            0 <= i < answers.len() && answers[i] == correct && parse_answer(
                option_value(question_at(i)),
            ) == Some(question_at(i)) && question_index(question_at(i)) == i && has_substring(
                #[trigger] answers[i]@,
                correct@,
            ),
{
    let i = choose|i: int| 0 <= i < answers.len() && answers[i] == correct;
    lemma_menu_value_round_trip(i);
    lemma_right_pick_is_correct(correct@);
    assert(has_substring(answers[i]@, correct@));
}

} // verus!
