//! The bot's persistent state: the GitHub accounts it tracks for each
//! Discord user, and the quiz score of each Discord user.

use std::collections::HashMap;
use vstd::prelude::*;

verus! {

broadcast use vstd::std_specs::hash::group_hash_axioms;

/// A Discord user tied to the GitHub account whose activity is tracked.
#[derive(Debug, Clone)]
pub struct GitLink {
    pub discord_id: u64,
    pub github_username: String,
}

/// Everything the bot keeps between runs.
#[derive(Debug, Clone)]
pub struct SaveData {
    pub github_users: Vec<GitLink>,
    pub quiz_scores: HashMap<u64, u64>,
}

impl GitLink {
    /// Links the Discord user `id` to the GitHub account `username`.
    pub fn new(id: u64, username: String) -> (link: Self)
        ensures
            link.discord_id == id,
            link.github_username == username,
    {
        Self { discord_id: id, github_username: username }
    }
}

/// The first position at or after `start` whose link belongs to `id`,
/// or `links.len()` when there is none.
pub open spec fn first_link_from(links: Seq<GitLink>, id: u64, start: nat) -> int
    decreases links.len() - start,
{
    if start >= links.len() {
        links.len() as int
    } else if links[start as int].discord_id == id {
        start as int
    } else {
        first_link_from(links, id, start + 1)
    }
}

/// The first position whose link belongs to `id`, or `links.len()`.
pub open spec fn link_position(links: Seq<GitLink>, id: u64) -> int {
    first_link_from(links, id, 0)
}

/// Some link in `links` belongs to `id`.
pub open spec fn is_tracked(links: Seq<GitLink>, id: u64) -> bool {
    exists|j: int| 0 <= j < links.len() && links[j].discord_id == id
}

/// The links that do not belong to `id`, in their order.
pub open spec fn without_user(links: Seq<GitLink>, id: u64) -> Seq<GitLink>
    decreases links.len(),
{
    if links.len() == 0 {
        links
    } else {
        let rest = without_user(links.drop_last(), id);
        if links.last().discord_id == id {
            rest
        } else {
            rest.push(links.last())
        }
    }
}

/// The links once every link of `id` is taken out, and the first link of
/// `id` (nothing when `id` has none).
pub open spec fn untracked(links: Seq<GitLink>, id: u64) -> (Seq<GitLink>, Option<GitLink>) {
    let i = link_position(links, id);
    (without_user(links, id), if i < links.len() {
        Some(links[i])
    } else {
        None
    })
}

/// The quiz score of `user`: zero until the first correct answer.
pub open spec fn score_of(scores: Map<u64, u64>, user: u64) -> int {
    if scores.contains_key(user) {
        scores[user] as int
    } else {
        0
    }
}

/// `first_link_from` is the first match at or after `start`, or the end.
pub proof fn lemma_first_link_from(links: Seq<GitLink>, id: u64, start: nat)
    requires
        start <= links.len(),
    ensures
        start <= first_link_from(links, id, start) <= links.len(),
        first_link_from(links, id, start) < links.len() ==> links[first_link_from(
            links,
            id,
            start,
        )].discord_id == id,
        forall|j: int|
            start <= j < first_link_from(links, id, start) ==> links[j].discord_id != id,
    decreases links.len() - start,
{
    if start < links.len() && links[start as int].discord_id != id {
        lemma_first_link_from(links, id, start + 1);
    }
}

/// Taking out the links of a user with none leaves the list as it is.
pub proof fn lemma_without_absent_user(links: Seq<GitLink>, id: u64)
    requires
        !is_tracked(links, id),
    ensures
        without_user(links, id) == links,
    decreases links.len(),
{
    if links.len() > 0 {
        let init = links.drop_last();
        assert(!is_tracked(init, id)) by {
            if is_tracked(init, id) {
                let j = choose|j: int| 0 <= j < init.len() && init[j].discord_id == id;
                assert(links[j] == init[j]);
            }
        }
        lemma_without_absent_user(init, id);
        assert(links.last() == links[links.len() - 1]);
        assert(init.push(links.last()) =~= links);
    }
}

/// No link of `id` is left once its links are taken out.
pub proof fn lemma_without_user_untracks(links: Seq<GitLink>, id: u64)
    ensures
        !is_tracked(without_user(links, id), id),
    decreases links.len(),
{
    if links.len() > 0 {
        lemma_without_user_untracks(links.drop_last(), id);
        let rest = without_user(links.drop_last(), id);
        if links.last().discord_id != id {
            assert forall|j: int| 0 <= j < rest.push(links.last()).len() implies #[trigger] rest.push(
                links.last(),
            )[j].discord_id != id by {
                if j < rest.len() {
                    assert(rest.push(links.last())[j] == rest[j]);
                }
            }
        }
    }
}

/// Taking out the links of a user who was not tracked before, once one link
/// was added for them, gives back that link and the list as it was before.
pub proof fn lemma_track_then_untrack(links: Seq<GitLink>, id: u64, username: String)
    requires
        !is_tracked(links, id),
    ensures
        untracked(links.push(GitLink { discord_id: id, github_username: username }), id) == (
        links,
        Some(GitLink { discord_id: id, github_username: username }),
        ),
{
    let link = GitLink { discord_id: id, github_username: username };
    let pushed = links.push(link);
    lemma_first_link_from(pushed, id, 0);
    let i = link_position(pushed, id);
    if i < links.len() {
        assert(pushed[i] == links[i]);
        assert(false);
    }
    assert(pushed[links.len() as int].discord_id == id);
    assert(i == links.len());
    assert(pushed.drop_last() =~= links);
    lemma_without_absent_user(links, id);
}

/// Untracking a user who has no link changes nothing and returns nothing.
pub proof fn lemma_untrack_absent(links: Seq<GitLink>, id: u64)
    requires
        !is_tracked(links, id),
    ensures
        untracked(links, id) == (links, None::<GitLink>),
{
    lemma_first_link_from(links, id, 0);
    if link_position(links, id) < links.len() {
        assert(links[link_position(links, id)].discord_id == id);
    }
    lemma_without_absent_user(links, id);
}

/// Untracking a tracked user returns their first link, and afterwards the
/// user is not tracked at all.
pub proof fn lemma_untrack_removes_user(links: Seq<GitLink>, id: u64)
    requires
        is_tracked(links, id),
    ensures
        untracked(links, id).1 is Some,
        untracked(links, id).1.unwrap().discord_id == id,
        forall|j: int|
            0 <= j < link_position(links, id) ==> links[j].discord_id != id,
        !is_tracked(untracked(links, id).0, id),
{
    lemma_first_link_from(links, id, 0);
    let w = choose|j: int| 0 <= j < links.len() && links[j].discord_id == id;
    assert(link_position(links, id) <= w);
    lemma_without_user_untracks(links, id);
}

/// A link that does not belong to `id`.
pub open spec fn not_of(id: u64) -> spec_fn(GitLink) -> bool {
    |l: GitLink| l.discord_id != id
}

/// Removing a user keeps every other user's links, in their order: the
/// list afterwards is the list before with exactly the links of `id`
/// filtered out; and the link handed back is the user's first one.
pub proof fn lemma_untrack_keeps_other_users(links: Seq<GitLink>, id: u64)
    ensures
        untracked(links, id).0 == links.filter(not_of(id)),
        untracked(links, id).1 is None <==> !is_tracked(links, id),
        untracked(links, id).1 matches Some(link) ==> exists|i: int|
            0 <= i < links.len() && links[i] == link && link.discord_id == id && forall|j: int|
                0 <= j < i ==> (#[trigger] links[j]).discord_id != id,
{
    lemma_without_user_is_filter(links, id);
    lemma_first_link_from(links, id, 0);
    let i = link_position(links, id);
    if is_tracked(links, id) {
        let w = choose|j: int| 0 <= j < links.len() && links[j].discord_id == id;
        assert(i <= w);
    }
}

/// `without_user` is the filter that keeps the links of other users.
proof fn lemma_without_user_is_filter(links: Seq<GitLink>, id: u64)
    ensures
        without_user(links, id) == links.filter(not_of(id)),
    decreases links.len(),
{
    reveal(Seq::filter);
    if links.len() > 0 {
        lemma_without_user_is_filter(links.drop_last(), id);
    }
}

/// A correct quiz answer raises the user's score by exactly one point and
/// leaves every other user's score as it was.
pub proof fn lemma_win_adds_one_point(scores: Map<u64, u64>, user: u64, other: u64)
    requires
        score_of(scores, user) < u64::MAX,
        other != user,
    ensures
        score_of(scores.insert(user, (score_of(scores, user) + 1) as u64), user) == score_of(
            scores,
            user,
        ) + 1,
        score_of(scores.insert(user, (score_of(scores, user) + 1) as u64), other) == score_of(
            scores,
            other,
        ),
{
}

impl SaveData {
    /// The state of a bot that has saved nothing yet.
    pub fn empty() -> (data: Self)
        ensures
            data.github_users@ == Seq::<GitLink>::empty(),
            data.quiz_scores@ == Map::<u64, u64>::empty(),
    {
        SaveData { github_users: Vec::new(), quiz_scores: HashMap::new() }
    }

    /// Starts tracking `username` for the Discord user `id`: the link goes
    /// to the end of the list, even when the user already has one.
    pub fn track_github(&mut self, id: u64, username: String)
        ensures
            final(self).github_users@ == old(self).github_users@.push(
                GitLink { discord_id: id, github_username: username },
            ),
            final(self).quiz_scores@ == old(self).quiz_scores@,
    {
        self.github_users.push(GitLink::new(id, username));
    }

    /// Stops tracking every GitHub account linked to the Discord user `id`
    /// and returns the first of those links; `None`, with nothing changed,
    /// when the user has none.
    pub fn untrack_github(&mut self, id: u64) -> (removed: Option<GitLink>)
        ensures
            (final(self).github_users@, removed) == untracked(old(self).github_users@, id),
            final(self).quiz_scores@ == old(self).quiz_scores@,
    {
        let ghost orig = self.github_users@;
        let mut links: Vec<GitLink> = Vec::new();
        std::mem::swap(&mut links, &mut self.github_users);
        let mut kept: Vec<GitLink> = Vec::new();
        let mut first: Option<GitLink> = None;
        let n = links.len();
        let mut i: usize = 0;
        proof {
            lemma_first_link_from(orig, id, 0);
        }
        while i < n
            invariant
                i <= n,
                n == orig.len(),
                links@ == orig.skip(i as int),
                kept@ == without_user(orig.take(i as int), id),
                link_position(orig, id) == first_link_from(orig, id, 0),
                first == (if link_position(orig, id) < i {
                    Some(orig[link_position(orig, id)])
                } else {
                    None
                }),
                link_position(orig, id) < i || link_position(orig, id) == first_link_from(
                    orig,
                    id,
                    i as nat,
                ),
                self.quiz_scores@ == old(self).quiz_scores@,
            decreases n - i,
        {
            proof {
                lemma_first_link_from(orig, id, 0);
            }
            let link = links.remove(0);
            assert(link == orig[i as int]);
            assert(orig.take(i + 1).drop_last() =~= orig.take(i as int));
            assert(orig.take(i + 1).last() == orig[i as int]);
            assert(links@ =~= orig.skip(i + 1));
            if link.discord_id == id {
                if first.is_none() {
                    first = Some(link);
                }
            } else {
                kept.push(link);
            }
            i += 1;
        }
        assert(orig.take(n as int) =~= orig);
        proof {
            lemma_first_link_from(orig, id, 0);
        }
        self.github_users = kept;
        first
    }

    /// The quiz score of `user`, zero when the user never answered right.
    pub fn quiz_score(&self, user: u64) -> (score: u64)
        ensures
            score == score_of(self.quiz_scores@, user),
    {
        match self.quiz_scores.get(&user) {
            Some(s) => *s,
            None => 0,
        }
    }

    /// Credits `user` with one more correct quiz answer.
    pub fn record_quiz_win(&mut self, user: u64)
        requires
            score_of(old(self).quiz_scores@, user) < u64::MAX,
        ensures
            final(self).quiz_scores@ == old(self).quiz_scores@.insert(
                user,
                (score_of(old(self).quiz_scores@, user) + 1) as u64,
            ),
            final(self).github_users@ == old(self).github_users@,
    {
        let old_score = self.quiz_score(user);
        self.quiz_scores.insert(user, old_score + 1);
    }
}

} // verus!
