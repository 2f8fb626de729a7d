//! The sweep over all users whose guild list is stale, one user at a time.

use crate::ops::{texts, Answer, Op, StaleUser};
use crate::services::guild_sync::{
    lemma_refresh_step_underway, other_tokens_kept, refresh_times_move_forward, refreshed_since,
    replace_user_guilds, statements, GuildRefresh, RefreshPhase,
};
use crate::store::{micros, Db, Store};
use crate::text::{decimal, parse_u64, parsed_u64, unsigned_decimal_reads_back};
use vstd::prelude::*;

verus! {

/// Every user's guild list is refreshed after this many hours: seven days.
pub const STALE_HOURS: i32 = 168;

/// Users to refresh in an hour, where nothing else is configured.
pub const DEFAULT_USERS_PER_HOUR: u64 = 600;

/// The pause before the first sweep, for the startup to settle.
pub const STARTUP_SECS: u64 = 10;

/// The pause when nobody's list is stale.
pub const IDLE_SECS: u64 = 60;

/// The pause after the database failed.
pub const RETRY_SECS: u64 = 5;

/// The configured rate, by the text of the setting.
pub open spec fn users_per_hour(setting: Option<&str>) -> u64 {
    match setting {
        None => DEFAULT_USERS_PER_HOUR,
        Some(text) => match parsed_u64(text@) {
            None => DEFAULT_USERS_PER_HOUR,
            Some(rate) => rate,
        },
    }
}

/// The number of users to refresh in an hour; a setting that is absent or
/// unreadable stands for the default.
pub fn max_users_per_hour(setting: Option<&str>) -> (res: u64)
    ensures
        res == users_per_hour(setting),
        setting is None ==> res == 600,
        setting matches Some(text) ==> res == (match parsed_u64(text@) {
            Some(rate) => rate,
            None => 600,
        }),
{
    match setting {
        None => DEFAULT_USERS_PER_HOUR,
        Some(text) => match parse_u64(text) {
            None => DEFAULT_USERS_PER_HOUR,
            Some(rate) => rate,
        },
    }
}

/// The pause after each user that makes for the rate, in whole seconds.
pub open spec fn pause_for(rate: u64) -> u64 {
    if rate > 0 {
        (3600u64 / rate) as u64
    } else {
        60
    }
}

/// That pause; a minute where the rate is zero.
pub fn sleep_secs(rate: u64) -> (res: u64)
    ensures
        res == pause_for(rate),
        rate > 0 ==> res == 3600u64 / rate,
        rate == 0 ==> res == 60,
{
    if rate > 0 {
        3600 / rate
    } else {
        60
    }
}

/// Where the worker stands.
pub enum WorkerPhase {
    Sleep { secs: u64 },
    /// Looking for the user whose list is the most stale.
    Pick,
    Refresh(GuildRefresh),
}

/// The worker. It never ends.
///
/// It sweeps the users whose lists are stale, the stalest first. A user whose
/// refresh fails makes way for the others, and comes up again in the next
/// sweep, when they have had their turn.
pub struct Worker {
    /// The pause after each user.
    pub sleep_secs: u64,
    /// The users whose refresh has failed in this sweep.
    pub tried: Vec<String>,
    pub phase: WorkerPhase,
}

impl Worker {
    /// The worker as it starts, by the text of the rate setting.
    pub fn start(setting: Option<&str>) -> (res: Worker)
        ensures
            res.sleep_secs == pause_for(users_per_hour(setting)),
            res.tried@.len() == 0,
            res.phase == (WorkerPhase::Sleep { secs: STARTUP_SECS }),
            res.phase == (WorkerPhase::Sleep { secs: 10 }),
    {
        Worker {
            sleep_secs: sleep_secs(max_users_per_hour(setting)),
            tried: Vec::new(),
            phase: WorkerPhase::Sleep { secs: STARTUP_SECS },
        }
    }

    /// The operation the worker waits for.
    pub open spec fn waits_for<'a>(&'a self) -> Option<Op<'a>> {
        match &self.phase {
            WorkerPhase::Sleep { secs } => Some(Op::Sleep { secs: *secs }),
            WorkerPhase::Pick => Some(
                Op::SelectStaleUser { stale_hours: STALE_HOURS, tried: &self.tried },
            ),
            WorkerPhase::Refresh(refresh) => refresh.waits_for(),
        }
    }

    /// Whether the refresh takes this worker to `after`: when it is over a
    /// pause follows, and if it failed the user is not tried again in this
    /// sweep.
    pub open spec fn after_refresh(self, refresh: GuildRefresh, after: Worker) -> bool {
        match refresh.phase {
            RefreshPhase::Finished(_) => after.tried@ == self.tried@ && after.phase == (
            WorkerPhase::Sleep { secs: self.sleep_secs }),
            RefreshPhase::Failed(_) => after.tried@ == self.tried@.push(refresh.discord_id)
                && after.phase == (WorkerPhase::Sleep { secs: self.sleep_secs }),
            _ => after.tried@ == self.tried@ && after.phase == WorkerPhase::Refresh(refresh),
        }
    }

    /// Whether `answer` takes this worker to `after`. When nobody is left to
    /// pick but users whose refresh failed, the next sweep begins with them.
    pub open spec fn stepped(self, answer: Answer, after: Worker) -> bool {
        &&& after.sleep_secs == self.sleep_secs
        &&& match (self.phase, answer) {
            (WorkerPhase::Refresh(refresh), _) => exists|next: GuildRefresh| #[trigger]
                refresh.stepped(answer, next) && self.after_refresh(next, after),
            (WorkerPhase::Sleep { .. }, Answer::Done) => after.tried@ == self.tried@
                && after.phase is Pick,
            (WorkerPhase::Pick, Answer::Stale(Some(user))) => after.tried@ == self.tried@
                && after.phase == WorkerPhase::Refresh(
                GuildRefresh {
                    discord_id: user.discord_id,
                    phase: RefreshPhase::RefreshToken { refresh_token: user.refresh_token },
                },
            ),
            (WorkerPhase::Pick, Answer::Stale(None)) => after.tried@.len() == 0 && after.phase == (
            if self.tried@.len() == 0 {
                WorkerPhase::Sleep { secs: IDLE_SECS }
            } else {
                WorkerPhase::Pick
            }),
            (WorkerPhase::Pick, Answer::Failed(_)) => after.tried@ == self.tried@ && after.phase
                == (WorkerPhase::Sleep { secs: RETRY_SECS }),
            _ => after.tried@ == self.tried@ && after.phase == self.phase,
        }
    }

    /// What to carry out next.
    pub fn next_op<'a>(&'a self) -> (res: Option<Op<'a>>)
        ensures
            res == self.waits_for(),
    {
        match &self.phase {
            WorkerPhase::Sleep { secs } => Some(Op::Sleep { secs: *secs }),
            WorkerPhase::Pick => Some(
                Op::SelectStaleUser { stale_hours: STALE_HOURS, tried: &self.tried },
            ),
            WorkerPhase::Refresh(refresh) => refresh.next_op(),
        }
    }

    /// Takes the answer.
    pub fn step(self, answer: Answer) -> (res: Worker)
        ensures
            self.stepped(answer, res),
    {
        let Worker { sleep_secs, mut tried, phase } = self;
        let next: WorkerPhase = match (phase, answer) {
            (WorkerPhase::Refresh(refresh), answer) => {
                let GuildRefresh { discord_id, phase } = refresh.step(answer);
                match phase {
                    RefreshPhase::Finished(_) => WorkerPhase::Sleep { secs: sleep_secs },
                    RefreshPhase::Failed(_) => {
                        tried.push(discord_id);
                        WorkerPhase::Sleep { secs: sleep_secs }
                    },
                    phase => WorkerPhase::Refresh(GuildRefresh { discord_id, phase }),
                }
            },
            (WorkerPhase::Sleep { .. }, Answer::Done) => WorkerPhase::Pick,
            (WorkerPhase::Pick, Answer::Stale(Some(user))) => WorkerPhase::Refresh(
                replace_user_guilds(user.discord_id, user.refresh_token),
            ),
            (WorkerPhase::Pick, Answer::Stale(None)) => {
                if tried.len() == 0 {
                    WorkerPhase::Sleep { secs: IDLE_SECS }
                } else {
                    tried = Vec::new();
                    WorkerPhase::Pick
                }
            },
            (WorkerPhase::Pick, Answer::Failed(_)) => WorkerPhase::Sleep { secs: RETRY_SECS },
            (phase, _) => phase,
        };
        Worker { sleep_secs, tried, phase: next }
    }
}

/// The worker never ends: whatever answer comes, there is something it waits
/// for next.
pub proof fn worker_never_ends(worker: Worker, answer: Answer, after: Worker)
    requires
        worker.waits_for() is Some,
        worker.stepped(answer, after),
    ensures
        after.waits_for() is Some,
{
}

// ---------------------------------------------------------------------
// Everybody gets a turn
// ---------------------------------------------------------------------

/// Seven days, in microseconds.
pub open spec fn week() -> int {
    micros(3600 * STALE_HOURS)
}

/// Whether the user's list is stale at the time `now`.
pub open spec fn stale(store: Store, user: Seq<char>, now: int) -> bool {
    store.tokens.contains_key(user) && store.tokens[user].refreshed_at < now - week()
}

impl Worker {
    /// Whether the operation, on this database, can come to this answer and
    /// take the flow to `after` and the database to `next`.
    pub open spec fn moves(self, db: Db, answer: Answer, after: Worker, next: Db) -> bool {
        &&& self.waits_for() is Some
        &&& db.performs(self.waits_for()->0, answer, next)
        &&& self.stepped(answer, after)
    }

    /// How the database stands in the midst of a user's turn that began at
    /// the time `from` on the tables `before`, with these users tried.
    pub open spec fn turn_underway(
        self,
        tried: Seq<String>,
        id: Seq<char>,
        before: Store,
        from: int,
        db: Db,
    ) -> bool {
        &&& before.tokens.contains_key(id)
        &&& from <= db.now
        &&& match self.phase {
            WorkerPhase::Refresh(refresh) => {
                &&& self.tried@ == tried
                &&& refresh.discord_id@ == id
                &&& !(refresh.phase is Claim)
                &&& exists|answers: Seq<Answer>| #[trigger]
                    refresh.underway(0, before, from, answers, db)
            },
            WorkerPhase::Sleep { .. } => {
                &&& db.pending is None
                &&& other_tokens_kept(before, db.committed, id)
                &&& (self.tried@ == tried && refreshed_since(
                    before,
                    db.committed,
                    id,
                    from,
                    db.now,
                )) || (self.tried@.len() == tried.len() + 1 && self.tried@.drop_last() == tried
                    && self.tried@.last()@ == id && time_after_failure(
                    before,
                    db.committed,
                    id,
                    from,
                ))
            },
            WorkerPhase::Pick => false,
        }
    }
}

/// How a failed refresh leaves the time of the user's last refresh: as it was,
/// if the token is still there; or as one that has succeeded, where it is not
/// known whether it was committed.
pub open spec fn time_after_failure(
    before: Store,
    after: Store,
    id: Seq<char>,
    from: int,
) -> bool {
    after.tokens.contains_key(id) ==> after.tokens[id].refreshed_at
        == before.tokens[id].refreshed_at || from <= after.tokens[id].refreshed_at
}

proof fn lemma_turn_step(
    worker: Worker,
    tried: Seq<String>,
    id: Seq<char>,
    before: Store,
    from: int,
    db: Db,
    answer: Answer,
    after: Worker,
    next: Db,
)
    requires
        worker.turn_underway(tried, id, before, from, db),
        worker.phase is Refresh,
        worker.moves(db, answer, after, next),
    ensures
        after.turn_underway(tried, id, before, from, next),
{
    if let WorkerPhase::Refresh(refresh) = worker.phase {
        let answers = choose|answers: Seq<Answer>| #[trigger]
            refresh.underway(0, before, from, answers, db);
        let moved = choose|moved: GuildRefresh| #[trigger]
            refresh.stepped(answer, moved) && worker.after_refresh(moved, after);
        assert(refresh.moves(db, answer, moved, next));
        lemma_refresh_step_underway(refresh, 0, before, from, answers, db, answer, moved, next);
        let given = answers.push(answer);
        assert(moved.underway(0, before, from, given, next));
        if moved.phase is Failed {
            assert(after.tried@.drop_last() =~= tried);
        }
    }
}

/// One turn of the worker, from one state to the next: it picks a user, and
/// ends with a pause.
pub open spec fn turn_run(workers: Seq<Worker>, dbs: Seq<Db>, answers: Seq<Answer>) -> bool {
    &&& workers.len() == answers.len() + 1
    &&& dbs.len() == answers.len() + 1
    &&& answers.len() >= 2
    &&& workers[0].phase is Pick
    &&& dbs[0].pending is None
    &&& answers[0] matches Answer::Stale(found) && found is Some
    &&& forall|i: int|
        #![trigger answers[i]]
        0 <= i < answers.len() ==> workers[i].moves(
            dbs[i],
            answers[i],
            workers[i + 1],
            dbs[i + 1],
        ) && (i > 0 ==> workers[i].phase is Refresh)
    &&& workers.last().phase is Sleep
}

/// Whose turn it is.
pub open spec fn picked(answers: Seq<Answer>) -> Seq<char> {
    match answers[0] {
        Answer::Stale(Some(user)) => user.discord_id@,
        _ => Seq::empty(),
    }
}

proof fn lemma_turn_so_far(workers: Seq<Worker>, dbs: Seq<Db>, answers: Seq<Answer>, i: int)
    requires
        turn_run(workers, dbs, answers),
        1 <= i <= answers.len(),
    ensures
        workers[i].turn_underway(
            workers[0].tried@,
            picked(answers),
            dbs[0].committed,
            dbs[0].now,
            dbs[i],
        ),
    decreases i,
{
    assert(answers[i - 1] == answers[i - 1]);
    assert(workers[i - 1].moves(dbs[i - 1], answers[i - 1], workers[i], dbs[i]));
    if i == 1 {
        if let WorkerPhase::Refresh(refresh) = workers[1].phase {
            let before = dbs[0].committed;
            assert(refresh.underway(0, before, dbs[0].now, Seq::empty(), dbs[1]));
        }
    } else {
        lemma_turn_so_far(workers, dbs, answers, i - 1);
        lemma_turn_step(
            workers[i - 1],
            workers[0].tried@,
            picked(answers),
            dbs[0].committed,
            dbs[0].now,
            dbs[i - 1],
            answers[i - 1],
            workers[i],
            dbs[i],
        );
    }
}

/// A turn of the worker, in short: the tables before and after it, the users
/// whose refresh had failed in the sweep before and after it, whose turn it
/// is, and when it begins.
pub struct Turn {
    pub before: Store,
    pub after: Store,
    pub tried: Seq<Seq<char>>,
    pub tried_after: Seq<Seq<char>>,
    pub id: Seq<char>,
    pub from: int,
}

impl Turn {
    /// Whether the worker can take this turn.
    pub open spec fn can_happen(self) -> bool {
        exists|workers: Seq<Worker>, dbs: Seq<Db>, answers: Seq<Answer>| #[trigger]
            turn_run(workers, dbs, answers) && self.sums_up(workers, dbs, answers)
    }

    /// Whether this is what the run comes to.
    pub open spec fn sums_up(
        self,
        workers: Seq<Worker>,
        dbs: Seq<Db>,
        answers: Seq<Answer>,
    ) -> bool {
        &&& self.before == dbs[0].committed
        &&& self.after == dbs.last().committed
        &&& self.tried == texts(workers[0].tried@)
        &&& self.tried_after == texts(workers.last().tried@)
        &&& self.id == picked(answers)
        &&& self.from == dbs[0].now
    }

    /// Whether the refresh failed.
    pub open spec fn failed(self) -> bool {
        self.tried_after == self.tried.push(self.id)
    }
}

/// A turn is the stalest user's, those aside whose refresh has failed in this
/// sweep. Either the refresh runs to its end, and then the user counts as
/// refreshed since; or it fails, and then the user is not picked again in this
/// sweep, and counts as refreshed when the user did before. (Where it failed
/// at the commit, the new time may have been written.) Nobody else's token
/// has changed.
pub proof fn turn_is_the_stalest_users(turn: Turn)
    requires
        turn.can_happen(),
    ensures
        stale(turn.before, turn.id, turn.from),
        turn.before.tokens.contains_key(turn.id),
        turn.before.tokens[turn.id].refreshed_at < turn.from - 604_800_000_000,
        !turn.tried.contains(turn.id),
        forall|other: Seq<char>| #[trigger]
            turn.before.tokens.contains_key(other) && !turn.tried.contains(other)
                ==> turn.before.tokens[turn.id].refreshed_at
                <= turn.before.tokens[other].refreshed_at,
        other_tokens_kept(turn.before, turn.after, turn.id),
        turn.failed() || (turn.tried_after == turn.tried && turn.after.tokens.contains_key(turn.id)
            && turn.from <= turn.after.tokens[turn.id].refreshed_at),
        turn.failed() ==> time_after_failure(turn.before, turn.after, turn.id, turn.from),
{
    let (workers, dbs, answers) = choose|
        workers: Seq<Worker>,
        dbs: Seq<Db>,
        answers: Seq<Answer>,
    | #[trigger] turn_run(workers, dbs, answers) && turn.sums_up(workers, dbs, answers);
    let n = answers.len() as int;
    lemma_turn_so_far(workers, dbs, answers, n);
    assert(answers[0] == answers[0]);
    assert(workers[0].moves(dbs[0], answers[0], workers[1], dbs[1]));
    let (was, is) = (workers[0].tried@, workers.last().tried@);
    if is.len() == was.len() + 1 {
        assert(texts(is) =~= texts(was).push(turn.id));
    }
}

/// A user whose refresh has failed makes way: so long as the sweep goes on, it
/// is somebody else who is picked.
pub proof fn failed_user_makes_way(
    turn: Turn,
    store: Store,
    tried: Vec<String>,
    now: int,
    user: StaleUser,
)
    requires
        turn.can_happen(),
        turn.failed(),
        texts(tried@) == turn.tried_after,
        store.can_answer(
            Op::SelectStaleUser { stale_hours: STALE_HOURS, tried: &tried },
            now,
            Answer::Stale(Some(user)),
        ),
    ensures
        user.discord_id@ != turn.id,
{
    assert(turn.tried_after[turn.tried.len() as int] == turn.id);
}

/// And comes up again: when there is nobody left to pick but users whose
/// refresh has failed, the worker goes on to pick among all of them at once,
/// and finds one.
pub proof fn failed_users_come_up_again(
    worker: Worker,
    after: Worker,
    failed: Seq<char>,
    store: Store,
    now: int,
    found: Option<StaleUser>,
)
    requires
        worker.phase is Pick,
        texts(worker.tried@).contains(failed),
        worker.stepped(Answer::Stale(None), after),
        stale(store, failed, now),
        store.can_answer(after.waits_for()->0, now, Answer::Stale(found)),
    ensures
        after.phase is Pick,
        after.tried@.len() == 0,
        found is Some,
{
    assert(worker.tried@.len() == texts(worker.tried@).len());
    assert(!texts(after.tried@).contains(failed));
}

/// What may happen to the tokens meanwhile, by other flows: users are only
/// moved back in the queue. A token's time is as it was, or later, or it is
/// one no earlier than `floor`; tokens may go, and come with such a time.
pub open spec fn only_moved_back(before: Store, after: Store, floor: int) -> bool {
    forall|u: Seq<char>| #[trigger]
        after.tokens.contains_key(u) ==> floor <= after.tokens[u].refreshed_at || (
        before.tokens.contains_key(u) && before.tokens[u].refreshed_at
            <= after.tokens[u].refreshed_at)
}

/// Statements that go by no earlier time than `floor`, of whatever flow, do no
/// more than that.
pub proof fn statements_only_move_users_back(
    stores: Seq<Store>,
    ops: Seq<Op<'_>>,
    times: Seq<int>,
    floor: int,
)
    requires
        statements(stores, ops, times),
        forall|j: int| 0 <= j < times.len() ==> floor <= #[trigger] times[j],
    ensures
        only_moved_back(stores[0], stores.last(), floor),
    decreases ops.len(),
{
    if ops.len() > 0 {
        let n = ops.len() - 1;
        let (some_stores, some_ops, some_times) = (
            stores.drop_last(),
            ops.drop_last(),
            times.drop_last(),
        );
        assert forall|i: int| #![trigger some_ops[i]] 0 <= i < some_ops.len() implies some_stores[i
            + 1] == some_stores[i].after_op(some_ops[i], some_times[i]) by {
            assert(ops[i] == some_ops[i]);
        }
        assert forall|j: int| 0 <= j < some_times.len() implies floor
            <= #[trigger] some_times[j] by {
            assert(times[j] == some_times[j]);
        }
        statements_only_move_users_back(some_stores, some_ops, some_times, floor);
        let (store, op, time) = (stores[n], ops[n], times[n]);
        assert(stores[n + 1] == store.after_op(op, time));
        assert forall|u: Seq<char>| #[trigger]
            stores[n + 1].tokens.contains_key(u) implies floor
            <= stores[n + 1].tokens[u].refreshed_at || (stores[0].tokens.contains_key(u)
            && stores[0].tokens[u].refreshed_at <= stores[n + 1].tokens[u].refreshed_at) by {
            if store.tokens.contains_key(u) {
                if !(op matches Op::DeleteRefreshToken { discord_id } && discord_id@ == u) {
                    refresh_times_move_forward(store, op, time, u);
                }
            }
        }
    }
}

/// A user whose refresh has run to its end is left alone for seven days.
pub proof fn refreshed_user_is_left_alone(turn: Turn, next: Turn)
    requires
        turn.can_happen(),
        !turn.failed(),
        next.can_happen(),
        only_moved_back(turn.after, next.before, turn.from),
        next.id == turn.id,
    ensures
        next.from > turn.from + week(),
        next.from > turn.from + 604_800_000_000,
{
    turn_is_the_stalest_users(turn);
    turn_is_the_stalest_users(next);
    assert(next.before.tokens.contains_key(turn.id));
}

/// Whether one turn can follow the other. In between other flows only move
/// users back. The sweep goes on, or it is over: then at some time in between
/// nobody was left to pick but users whose refresh had failed.
pub open spec fn can_follow(turn: Turn, next: Turn, floor: int) -> bool {
    &&& turn.from <= next.from
    &&& only_moved_back(turn.after, next.before, floor)
    &&& next.tried == turn.tried_after || (next.tried.len() == 0 && exists|
        store: Store,
        now: int,
    | #[trigger]
        store.can_pick(None, now - week(), turn.tried_after) && turn.from <= now && only_moved_back(
            store,
            next.before,
            floor,
        ))
}

/// The users who are picked before this one: those whose last refresh is no
/// later, but for those tried.
pub open spec fn ahead_of(store: Store, tried: Seq<Seq<char>>, user: Seq<char>) -> Set<Seq<char>> {
    store.tokens.dom().filter(
        |u: Seq<char>|
            u != user && !tried.contains(u) && store.tokens[u].refreshed_at
                <= store.tokens[user].refreshed_at,
    )
}

/// Nobody else's token has changed, spelt out.
proof fn lemma_others_kept(before: Store, after: Store, id: Seq<char>)
    requires
        other_tokens_kept(before, after, id),
    ensures
        forall|u: Seq<char>|
            u != id ==> #[trigger] after.tokens.contains_key(u) == before.tokens.contains_key(u),
        forall|u: Seq<char>|
            u != id && #[trigger] before.tokens.contains_key(u) ==> after.tokens[u]
                == before.tokens[u],
{
    assert forall|u: Seq<char>| u != id implies #[trigger] after.tokens.contains_key(u)
        == before.tokens.contains_key(u) by {
        assert(after.tokens.remove(id).contains_key(u) == before.tokens.remove(id).contains_key(u));
    }
    assert forall|u: Seq<char>| u != id && #[trigger] before.tokens.contains_key(u) implies
        after.tokens[u] == before.tokens[u] by {
        assert(after.tokens.remove(id)[u] == before.tokens.remove(id)[u]);
    }
}

/// Every turn of somebody else brings a stale user nearer to the head of the
/// queue: one user ahead is there no more, and nobody new is.
pub proof fn queue_moves_up(turn: Turn, user: Seq<char>)
    requires
        turn.can_happen(),
        stale(turn.before, user, turn.from),
        !turn.tried.contains(user),
        user != turn.id,
    ensures
        ahead_of(turn.before, turn.tried, user).contains(turn.id),
        ahead_of(turn.after, turn.tried_after, user) == ahead_of(
            turn.before,
            turn.tried,
            user,
        ).remove(turn.id),
        turn.after.tokens.contains_key(user),
        turn.after.tokens[user] == turn.before.tokens[user],
        !turn.tried_after.contains(user),
{
    turn_is_the_stalest_users(turn);
    lemma_others_kept(turn.before, turn.after, turn.id);
    let (before, after) = (turn.before, turn.after);
    assert(before.tokens.contains_key(user));
    assert(after.tokens.contains_key(user) == before.tokens.contains_key(user));
    assert forall|u: Seq<char>| #[trigger] turn.tried_after.contains(u) <==> turn.tried.contains(u)
        || (turn.failed() && u == turn.id) by {
        lemma_tried_after(turn, u);
    }
    assert(ahead_of(after, turn.tried_after, user) =~= ahead_of(before, turn.tried, user).remove(
        turn.id,
    )) by {
        assert forall|u: Seq<char>| ahead_of(after, turn.tried_after, user).contains(u)
            <==> ahead_of(before, turn.tried, user).remove(turn.id).contains(u) by {
            let _ = after.tokens.contains_key(u);
            let _ = turn.tried_after.contains(u);
        }
    }
}

/// Who has been tried after a turn.
proof fn lemma_tried_after(turn: Turn, u: Seq<char>)
    requires
        turn.failed() || turn.tried_after == turn.tried,
    ensures
        turn.tried_after.contains(u) <==> turn.tried.contains(u) || (turn.failed() && u == turn.id),
{
    let (was, is) = (turn.tried, turn.tried_after);
    if turn.failed() {
        assert(is[was.len() as int] == turn.id);
        if was.contains(u) {
            let i = choose|i: int| 0 <= i < was.len() && was[i] == u;
            assert(is[i] == u);
        }
    }
}

/// Turns, one after the other.
pub open spec fn turns_run(turns: Seq<Turn>, floor: int) -> bool {
    &&& forall|i: int| 0 <= i < turns.len() ==> (#[trigger] turns[i]).can_happen()
    &&& forall|i: int|
        #![trigger turns[i]]
        0 <= i < turns.len() - 1 ==> can_follow(turns[i], turns[i + 1], floor)
}

/// Everybody gets a turn. Take a user whose list is stale, who has not been
/// tried in this sweep, and is not refreshed otherwise. Of more turns than
/// there are users ahead, one is that user's: whatever becomes of the others'
/// turns, and whatever other flows do in between.
pub proof fn everybody_gets_a_turn(turns: Seq<Turn>, user: Seq<char>, time: int, floor: int)
    requires
        turns_run(turns, floor),
        turns.len() > ahead_of(turns[0].before, turns[0].tried, user).len(),
        ahead_of(turns[0].before, turns[0].tried, user).finite(),
        !turns[0].tried.contains(user),
        time < floor <= turns[0].from - week(),
        forall|i: int|
            0 <= i < turns.len() ==> (#[trigger] turns[i]).before.tokens.contains_key(user)
                && turns[i].before.tokens[user].refreshed_at == time,
    ensures
        exists|i: int| 0 <= i < turns.len() && (#[trigger] turns[i]).id == user,
    decreases turns.len(),
{
    let first = turns[0];
    if first.id != user {
        queue_moves_up(first, user);
        let ahead = ahead_of(first.before, first.tried, user);
        assert(turns.len() > 1);
        let next = turns[1];
        let later = turns.drop_first();
        assert(can_follow(turns[0], turns[1], floor));
        if next.tried != first.tried_after {
            let (store, now) = choose|store: Store, now: int| #[trigger]
                store.can_pick(None, now - week(), first.tried_after) && first.from <= now
                    && only_moved_back(store, next.before, floor);
            assert(next.before.tokens.contains_key(user));
            assert(store.tokens.contains_key(user));
            assert(false);
        }
        let (was, is) = (
            ahead_of(first.after, first.tried_after, user),
            ahead_of(next.before, next.tried, user),
        );
        assert forall|u: Seq<char>| #[trigger] is.contains(u) implies was.contains(u) by {
            assert(next.before.tokens.contains_key(u));
        }
        vstd::set_lib::lemma_len_subset(is, was);
        assert forall|i: int| 0 <= i < later.len() implies (#[trigger] later[i]).can_happen()
            && later[i].before.tokens.contains_key(user)
            && later[i].before.tokens[user].refreshed_at == time by {
            assert(later[i] == turns[i + 1]);
        }
        assert forall|i: int| #![trigger later[i]] 0 <= i < later.len() - 1 implies can_follow(
            later[i],
            later[i + 1],
            floor,
        ) by {
            assert(later[i] == turns[i + 1]);
        }
        everybody_gets_a_turn(later, user, time, floor);
        let i = choose|i: int| 0 <= i < later.len() && (#[trigger] later[i]).id == user;
        assert(turns[i + 1].id == user);
    }
}

/// Turns of one sweep, within seven days: other flows move users back, by
/// statements of that time.
pub open spec fn sweep(turns: Seq<Turn>) -> bool {
    &&& turns_run(turns, turns[0].from)
    &&& forall|i: int|
        #![trigger turns[i]]
        0 <= i < turns.len() - 1 ==> turns[i + 1].tried == turns[i].tried_after
    &&& forall|i: int|
        0 <= i < turns.len() ==> turns[0].from <= (#[trigger] turns[i]).from <= turns[0].from
            + week()
}

/// A user who has had a turn in the sweep is done with for the rest of it.
proof fn lemma_done_with(turns: Seq<Turn>, i: int, j: int)
    requires
        sweep(turns),
        0 <= i < j < turns.len(),
    ensures
        turns[j].tried.contains(turns[i].id) || (turns[j].before.tokens.contains_key(turns[i].id)
            ==> turns[0].from <= turns[j].before.tokens[turns[i].id].refreshed_at),
        turns[j].id != turns[i].id,
    decreases j,
{
    let floor = turns[0].from;
    let id = turns[i].id;
    let k = j - 1;
    let (last, next) = (turns[k], turns[k + 1]);
    turn_is_the_stalest_users(last);
    turn_is_the_stalest_users(next);
    assert(can_follow(last, next, floor));
    assert(next.tried == last.tried_after);
    lemma_tried_after(last, id);
    if i < k {
        lemma_done_with(turns, i, k);
        lemma_others_kept(last.before, last.after, last.id);
        let _ = last.after.tokens.contains_key(id);
    }
    let _ = next.before.tokens.contains_key(id);
}

/// Nobody is picked in a sweep who had no token when it began.
proof fn lemma_swept_users(turns: Seq<Turn>, i: int, u: Seq<char>)
    requires
        sweep(turns),
        0 <= i < turns.len(),
        turns[i].before.tokens.contains_key(u),
        turns[i].before.tokens[u].refreshed_at < turns[0].from,
    ensures
        turns[0].before.tokens.contains_key(u),
    decreases i,
{
    if i > 0 {
        let (last, next) = (turns[i - 1], turns[i]);
        assert(can_follow(turns[i - 1], turns[i - 1 + 1], turns[0].from));
        assert(last.after.tokens.contains_key(u) && last.after.tokens[u].refreshed_at
            < turns[0].from);
        turn_is_the_stalest_users(last);
        lemma_others_kept(last.before, last.after, last.id);
        if u != last.id {
            let _ = last.before.tokens.contains_key(u);
        }
        lemma_swept_users(turns, i - 1, u);
    }
}

/// A sweep takes each user once, so it comes to an end: it has no more turns
/// than there are users when it begins. After that those whose refresh failed
/// come up again ([`failed_users_come_up_again`]).
pub proof fn sweep_takes_each_user_once(turns: Seq<Turn>)
    requires
        turns.len() > 0,
        sweep(turns),
        turns[0].before.tokens.dom().finite(),
    ensures
        turns.map_values(|t: Turn| t.id).no_duplicates(),
        turns.len() <= turns[0].before.tokens.dom().len(),
{
    let ids = turns.map_values(|t: Turn| t.id);
    let users = turns[0].before.tokens.dom();
    assert forall|i: int, j: int| 0 <= i < ids.len() && 0 <= j < ids.len() && i != j implies ids[i]
        != ids[j] by {
        if i < j {
            lemma_done_with(turns, i, j);
        } else {
            lemma_done_with(turns, j, i);
        }
    }
    assert forall|u: Seq<char>| #[trigger] ids.to_set().contains(u) implies users.contains(u) by {
        let i = choose|i: int| 0 <= i < ids.len() && ids[i] == u;
        turn_is_the_stalest_users(turns[i]);
        assert(turns[i].from <= turns[0].from + week());
        lemma_swept_users(turns, i, u);
    }
    ids.unique_seq_to_set();
    vstd::set_lib::lemma_len_subset(ids.to_set(), users);
}

// ---------------------------------------------------------------------
// The rate
// ---------------------------------------------------------------------

/// The pauses of an hour's worth of users make up the hour, where the rate
/// divides it.
pub proof fn pauses_make_the_rate(rate: u64)
    requires
        rate > 0,
        3600u64 % rate == 0,
    ensures
        pause_for(rate) * rate == 3600,
{
    vstd::arithmetic::div_mod::lemma_fundamental_div_mod(3600, rate as int);
    assert(rate * pause_for(rate) == pause_for(rate) * rate) by (nonlinear_arith);
}

/// The pause that goes with any rate, in whole seconds: as long as the hour
/// allows for that many users, and no longer than that; a minute where the
/// rate is zero.
pub proof fn pause_fits_the_rate(rate: u64)
    ensures
        rate > 0 ==> pause_for(rate) * rate <= 3600 < (pause_for(rate) + 1) * rate,
        rate == 0 ==> pause_for(rate) == 60,
{
    if rate > 0 {
        vstd::arithmetic::div_mod::lemma_fundamental_div_mod(3600, rate as int);
        vstd::arithmetic::div_mod::lemma_mod_bound(3600, rate as int);
        let pause = pause_for(rate) as int;
        assert(3600 == rate * pause + 3600int % (rate as int));
        assert(pause * rate == rate * pause) by (nonlinear_arith);
        assert((pause + 1) * rate == rate * pause + rate) by (nonlinear_arith);
    }
}

/// The rate is the number that the setting says, in decimal notation, and 600
/// where it says nothing or no number.
pub proof fn rate_is_the_setting(text: &str, rate: u64)
    ensures
        text@ == decimal(rate as int) ==> users_per_hour(Some(text)) == rate,
        parsed_u64(text@) is None ==> users_per_hour(Some(text)) == 600,
        users_per_hour(None) == 600,
{
    unsigned_decimal_reads_back(rate);
}

/// What the worker does next, whatever comes. After a pause it looks for the
/// user whose list is the stalest, and more than 168 hours old, those aside
/// whose refresh has failed in this sweep. The token of the user who is found
/// is traded, and it is this user's list that is refreshed. If there is nobody
/// it looks again a minute later, or at once if there are users whose refresh
/// has failed; if the look fails, five seconds later; and
/// when a refresh is over, however it went, after the pause that makes the
/// rate.
pub proof fn worker_keeps_its_rhythm(worker: Worker, answer: Answer, after: Worker)
    requires
        worker.stepped(answer, after),
    ensures
        after.sleep_secs == worker.sleep_secs,
        worker.phase is Sleep && answer is Done ==> (after.waits_for() matches Some(
            Op::SelectStaleUser { stale_hours, tried },
        ) && stale_hours == 168 && tried@ == worker.tried@),
        worker.phase is Pick ==> (answer matches Answer::Stale(Some(user)) ==> (
        after.waits_for() matches Some(Op::RefreshAccessToken { refresh_token }) && refresh_token@
            == user.refresh_token@) && (after.phase matches WorkerPhase::Refresh(refresh)
            && refresh.discord_id@ == user.discord_id@)),
        worker.phase is Pick && answer == Answer::Stale(None) && worker.tried@.len() == 0 ==> (
        after.waits_for() matches Some(Op::Sleep { secs }) && secs == 60),
        worker.phase is Pick && answer == Answer::Stale(None) && worker.tried@.len() > 0 ==> (
        after.waits_for() matches Some(Op::SelectStaleUser { stale_hours, tried }) && stale_hours
            == 168 && tried@.len() == 0),
        worker.phase is Pick && answer is Failed ==> (after.waits_for() matches Some(
            Op::Sleep { secs },
        ) && secs == 5 && after.tried@ == worker.tried@),
        worker.phase is Refresh && after.phase is Sleep ==> (after.waits_for() matches Some(
            Op::Sleep { secs },
        ) && secs == worker.sleep_secs),
        worker.phase is Refresh ==> !(after.phase is Pick),
{
}

/// A refresh that the worker runs is a refresh like any other: it takes the
/// same answers to the same ends, and the worker goes on when it is over.
pub proof fn worker_runs_the_refresh(
    worker: Worker,
    refresh: GuildRefresh,
    answer: Answer,
    after: Worker,
)
    requires
        worker.phase == WorkerPhase::Refresh(refresh),
        worker.stepped(answer, after),
    ensures
        worker.waits_for() == refresh.waits_for(),
        exists|next: GuildRefresh| #[trigger]
            refresh.stepped(answer, next) && (if next.phase is Finished || next.phase is Failed {
                after.phase is Sleep && (next.phase is Finished ==> after.tried@ == worker.tried@)
                    && (next.phase is Failed ==> after.tried@ == worker.tried@.push(
                    refresh.discord_id,
                ))
            } else {
                after.phase == WorkerPhase::Refresh(next) && after.tried@ == worker.tried@
            }),
{
    let next = choose|next: GuildRefresh| #[trigger]
        refresh.stepped(answer, next) && worker.after_refresh(next, after);
    assert(refresh.stepped(answer, next));
}

} // verus!
