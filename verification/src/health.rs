//! Liveness and rolling delay history of an outbound proxy.

use std::collections::VecDeque;
use vstd::prelude::*;

use crate::timestamp::now_stamp;

verus! {

/// How many delay records a proxy keeps.
pub const MAX_HISTORY: usize = 10;

/// One delay measurement.
#[derive(Debug)]
pub struct DelayHistory {
    /// RFC 3339 / ISO 8601 string.
    pub time: String,
    pub delay: u16,
}

/// What a [`DelayHistory`] says.
pub struct DelayRecord {
    pub time: Seq<char>,
    pub delay: u16,
}

impl View for DelayHistory {
    type V = DelayRecord;

    open spec fn view(&self) -> DelayRecord {
        DelayRecord { time: self.time@, delay: self.delay }
    }
}

impl Clone for DelayHistory {
    fn clone(&self) -> (copy: Self)
        ensures
            copy == *self,
    {
        DelayHistory { time: self.time.clone(), delay: self.delay }
    }
}

/// What each of a sequence of records says.
pub open spec fn records(list: Seq<DelayHistory>) -> Seq<DelayRecord> {
    list.map_values(|h: DelayHistory| h@)
}

/// A snapshot of a proxy's health.
#[derive(Debug)]
pub struct ProxyState {
    pub alive: bool,
    pub history: Vec<DelayHistory>,
}

impl View for ProxyState {
    type V = Health;

    open spec fn view(&self) -> Health {
        Health { alive: self.alive, history: records(self.history@) }
    }
}

impl Clone for ProxyState {
    fn clone(&self) -> (copy: Self)
        ensures
            copy@ == self@,
    {
        let mut history: Vec<DelayHistory> = Vec::new();
        let mut i: usize = 0;
        while i < self.history.len()
            invariant
                i <= self.history@.len(),
                history@ == self.history@.take(i as int),
            decreases self.history@.len() - i,
        {
            history.push(self.history[i].clone());
            i = i + 1;
        }
        assert(history@ =~= self.history@);
        ProxyState { alive: self.alive, history }
    }
}

/// The health of a proxy: whether it is alive, and its delay records, the
/// oldest first.
#[verifier::ext_equal]
pub struct Health {
    pub alive: bool,
    pub history: Seq<DelayRecord>,
}

/// The last `n` elements of a sequence, or all where there are fewer.
pub open spec fn latest<A>(list: Seq<A>, n: nat) -> Seq<A> {
    if list.len() <= n {
        list
    } else {
        list.skip(list.len() - n)
    }
}

impl Health {
    /// A proxy that was never measured counts as alive.
    pub open spec fn fresh() -> Health {
        Health { alive: true, history: Seq::empty() }
    }

    /// The delay of the newest record, or 0.
    pub open spec fn last_delay(self) -> u16 {
        if self.history.len() == 0 {
            0
        } else {
            self.history.last().delay
        }
    }

    /// The health after one more measurement: the record comes last, the oldest
    /// ones go, and the proxy is alive exactly if the delay is not 0.
    pub open spec fn recorded(self, record: DelayRecord) -> Health {
        Health {
            alive: record.delay > 0,
            history: latest(self.history.push(record), MAX_HISTORY as nat),
        }
    }

    /// The health after these measurements, in order.
    pub open spec fn recorded_all(self, list: Seq<DelayRecord>) -> Health
        decreases list.len(),
    {
        if list.len() == 0 {
            self
        } else {
            self.recorded_all(list.drop_last()).recorded(list.last())
        }
    }
}

/// Per-adapter liveness and rolling delay history.
pub struct ProxyHealth {
    alive: bool,
    history: VecDeque<DelayHistory>,
    max_history: usize,
}

impl View for ProxyHealth {
    type V = Health;

    closed spec fn view(&self) -> Health {
        Health { alive: self.alive, history: records(self.history@) }
    }
}

impl ProxyHealth {
    /// The history holds no more records than the limit allows.
    pub closed spec fn wf(self) -> bool {
        &&& self.max_history == MAX_HISTORY
        &&& self.history@.len() <= self.max_history
    }

    pub fn new() -> (health: Self)
        ensures
            health.wf(),
            health@ == Health::fresh(),
    {
        let health = ProxyHealth { alive: true, history: VecDeque::new(), max_history: MAX_HISTORY };
        assert(health@.history =~= Seq::<DelayRecord>::empty());
        health
    }

    pub fn alive(&self) -> (r: bool)
        ensures
            r == self@.alive,
    {
        self.alive
    }

    pub fn set_alive(&mut self, alive: bool)
        ensures
            final(self)@ == (Health { alive, ..old(self)@ }),
            old(self).wf() ==> final(self).wf(),
    {
        self.alive = alive;
    }

    /// The delay of the newest record, or 0 if there is none.
    pub fn last_delay(&self) -> (delay: u16)
        ensures
            delay == self@.last_delay(),
    {
        let n: usize = self.history.len();
        if n == 0 {
            0
        } else {
            self.history[n - 1].delay
        }
    }

    /// The delay records, the oldest first.
    pub fn delay_history(&self) -> (list: Vec<DelayHistory>)
        ensures
            records(list@) == self@.history,
            list@.len() == self@.history.len(),
            forall|i: int|
                0 <= i < list@.len() ==> (#[trigger] list@[i]).time@ == self@.history[i].time
                    && list@[i].delay == self@.history[i].delay,
    {
        let mut list: Vec<DelayHistory> = Vec::new();
        let mut i: usize = 0;
        while i < self.history.len()
            invariant
                i <= self.history@.len(),
                list@ == self.history@.take(i as int),
            decreases self.history@.len() - i,
        {
            list.push(self.history[i].clone());
            i = i + 1;
        }
        assert(list@ =~= self.history@);
        assert forall|i: int| 0 <= i < list@.len() implies (#[trigger] list@[i]).time@
            == self@.history[i].time && list@[i].delay == self@.history[i].delay by {
            assert(records(list@)[i] == list@[i]@);
        }
        list
    }

    /// Records a measurement made at a given time.
    pub fn record_delay_at(&mut self, time: String, delay: u16)
        requires
            old(self).wf(),
        ensures
            final(self).wf(),
            final(self)@ == old(self)@.recorded(DelayRecord { time: time@, delay }),
    {
        let ghost before = self.history@;
        let entry = DelayHistory { time, delay };
        self.history.push_back(entry);
        let ghost grown = self.history@;
        assert(records(grown) =~= records(before).push(entry@));
        if self.history.len() > self.max_history {
            let _ = self.history.pop_front();
            assert(records(self.history@) =~= records(grown).skip(1));
        }
        self.alive = delay > 0;
    }

    /// Records a measurement made now.
    pub fn record_delay(&mut self, delay: u16)
        requires
            old(self).wf(),
        ensures
            final(self).wf(),
            exists|now: i128| #[trigger]
                crate::timestamp::clock_shows(now) && final(self)@ == old(self)@.recorded(
                    DelayRecord { time: crate::timestamp::stamp_at(now), delay },
                ),
            final(self)@.history.last().time.len() == 0 || crate::timestamp::is_utc_timestamp(
                final(self)@.history.last().time,
            ),
    {
        let time = now_stamp();
        let ghost stamp = time@;
        self.record_delay_at(time, delay);
        proof {
            let now = choose|now: i128| #[trigger]
                crate::timestamp::clock_shows(now) && stamp == crate::timestamp::stamp_at(now);
            assert(self@ == old(self)@.recorded(
                DelayRecord { time: crate::timestamp::stamp_at(now), delay },
            ));
        }
    }

    /// Liveness and history in one value.
    pub fn state(&self) -> (state: ProxyState)
        ensures
            state@ == self@,
    {
        ProxyState { alive: self.alive(), history: self.delay_history() }
    }
}

impl Default for ProxyHealth {
    fn default() -> (health: Self)
        ensures
            health.wf(),
            health@ == Health::fresh(),
    {
        Self::new()
    }
}

/// A well-formed history never holds more records than the limit.
pub proof fn lemma_history_bounded(health: ProxyHealth)
    requires
        health.wf(),
    ensures
        health@.history.len() <= 10,
{
}

/// What a measurement leaves behind is read back: the record is the newest one,
/// its delay is the last delay, and the proxy is alive exactly if the delay is
/// not 0. The records before it keep their order, and at most the oldest goes.
pub proof fn lemma_recorded(health: Health, record: DelayRecord)
    requires
        health.history.len() <= 10,
    ensures
        health.recorded(record).history.len() <= 10,
        health.recorded(record).history.len() == (if health.history.len() < 10 {
            health.history.len() + 1
        } else {
            10
        }),
        health.recorded(record).history.last() == record,
        health.recorded(record).last_delay() == record.delay,
        health.recorded(record).alive == (record.delay > 0),
        health.history.len() < 10 ==> health.recorded(record).history == health.history.push(
            record,
        ),
        health.history.len() == 10 ==> health.recorded(record).history
            == health.history.skip(1).push(record),
{
    if health.history.len() == MAX_HISTORY {
        assert(health.history.push(record).skip(1) =~= health.history.skip(1).push(record));
    }
}

/// After any number of measurements the history is the newest of all records
/// ever made, in the order in which they were made, and the newest measurement
/// alone says whether the proxy is alive.
pub proof fn lemma_recorded_all(health: Health, list: Seq<DelayRecord>)
    requires
        health.history.len() <= MAX_HISTORY,
    ensures
        health.recorded_all(list).history == latest(health.history + list, MAX_HISTORY as nat),
        list.len() > 0 ==> health.recorded_all(list).alive == (list.last().delay > 0),
        list.len() > 0 ==> health.recorded_all(list).last_delay() == list.last().delay,
        list.len() == 0 ==> health.recorded_all(list) == health,
    decreases list.len(),
{
    if list.len() == 0 {
        assert(health.history + list =~= health.history);
    } else {
        let init = list.drop_last();
        lemma_recorded_all(health, init);
        let all = health.history + init;
        assert(health.history + list =~= all.push(list.last()));
        let kept = latest(all, MAX_HISTORY as nat);
        assert(latest(kept.push(list.last()), MAX_HISTORY as nat) =~= latest(
            all.push(list.last()),
            MAX_HISTORY as nat,
        ));
    }
}

/// A proxy that was never measured is alive, and nothing is known of its delay.
pub proof fn lemma_fresh()
    ensures
        Health::fresh().alive,
        Health::fresh().history.len() == 0,
        Health::fresh().last_delay() == 0,
{
}

/// The last delay is that of the newest record; without any record it is 0.
pub proof fn lemma_last_delay(health: Health)
    ensures
        health.history.len() == 0 ==> health.last_delay() == 0,
        health.history.len() > 0 ==> health.last_delay() == health.history[health.history.len()
            - 1].delay,
{
}

/// What a list of records says, it says entry by entry and in the same order.
pub proof fn lemma_records(list: Seq<DelayHistory>)
    ensures
        records(list).len() == list.len(),
        forall|i: int|
            0 <= i < list.len() ==> (#[trigger] records(list)[i]).time == list[i].time@
                && records(list)[i].delay == list[i].delay,
{
}

/// A snapshot says what its fields say.
pub proof fn lemma_snapshot(state: ProxyState)
    ensures
        state@.alive == state.alive,
        state@.history.len() == state.history@.len(),
        forall|i: int|
            0 <= i < state.history@.len() ==> (#[trigger] state@.history[i]).time
                == state.history@[i].time@ && state@.history[i].delay == state.history@[i].delay,
{
    lemma_records(state.history@);
}

/// Entry by entry, the history after any number of measurements on a fresh
/// proxy: all of them while there are at most ten, else the newest ten, the
/// oldest of these first.
pub proof fn lemma_newest_ten(list: Seq<DelayRecord>)
    ensures
        ({
            let history = Health::fresh().recorded_all(list).history;
            let dropped = if list.len() <= 10 {
                0
            } else {
                list.len() - 10
            };
            &&& history.len() == list.len() - dropped
            &&& forall|i: int|
                0 <= i < history.len() ==> #[trigger] history[i] == list[dropped + i]
        }),
{
    lemma_recorded_all(Health::fresh(), list);
    assert(Health::fresh().history + list =~= list);
}

/// Measurements add up: making some and then others is making all of them.
pub proof fn lemma_recorded_all_concat(
    health: Health,
    first: Seq<DelayRecord>,
    second: Seq<DelayRecord>,
)
    ensures
        health.recorded_all(first + second) == health.recorded_all(first).recorded_all(second),
        health.recorded_all(Seq::empty()) == health,
    decreases second.len(),
{
    if second.len() == 0 {
        assert(first + second =~= first);
    } else {
        lemma_recorded_all_concat(health, first, second.drop_last());
        assert((first + second).drop_last() =~= first + second.drop_last());
        assert((first + second).last() == second.last());
    }
}

} // verus!
