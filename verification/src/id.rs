//! Identifiers that carry the time at which they were made.
//!
//! An identifier is 64 bits wide. Its upper 56 bits are a tick, a count of
//! milliseconds since the Unix epoch; its lowest 8 bits say what kind of thing
//! it names. A generator never reuses a tick, so the identifiers that it hands
//! out grow strictly, whatever the clock does.

use vstd::prelude::*;
use std::time::{Duration, SystemTime, UNIX_EPOCH};

verus! {

/// The largest tick that fits into an identifier.
pub const MAX_TICK: u64 = 0xFF_FFFF_FFFF_FFFF;

/// What an identifier names.
#[derive(Clone, Copy, Debug, PartialEq, Eq, Structural)]
pub enum IdKind {
    /// A participant.
    User,
    /// An envelope on the wire.
    Message,
}

/// A time of day, in UTC.
#[derive(Clone, Copy, Debug, PartialEq, Eq, Structural)]
pub struct ClockTime {
    pub hours: u8,
    pub minutes: u8,
    pub seconds: u8,
}

/// The number that stands for a kind in the lowest byte of an identifier.
pub open spec fn kind_code(kind: IdKind) -> u64 {
    match kind {
        IdKind::User => 1,
        IdKind::Message => 2,
    }
}

/// The identifier made of a tick and a kind.
pub open spec fn compose(tick: u64, kind: IdKind) -> u64
    recommends
        tick <= MAX_TICK,
{
    (tick * 256 + kind_code(kind)) as u64
}

/// The tick inside an identifier: milliseconds since the Unix epoch.
pub open spec fn timestamp_of(id: u64) -> u64 {
    id / 256
}

/// The kind inside an identifier, if its lowest byte names one.
pub open spec fn kind_of(id: u64) -> Option<IdKind> {
    if id % 256 == 1 {
        Some(IdKind::User)
    } else if id % 256 == 2 {
        Some(IdKind::Message)
    } else {
        None
    }
}

/// The tick of the identifier that follows `last`. It is the clock's reading
/// where there is one, it lies after the tick of `last` and it fits; if not,
/// it is the tick after that of `last`. Only when no tick is left does it
/// stay where it is.
pub open spec fn next_tick(last: u64, now: Option<u64>) -> u64 {
    let previous = timestamp_of(last);
    if now is Some && previous < now->0 <= MAX_TICK {
        now->0
    } else if previous < MAX_TICK {
        (previous + 1) as u64
    } else {
        MAX_TICK
    }
}

/// The identifier that a generator hands out after `last`, when the clock
/// reads `now` (`None`: the clock cannot be read).
pub open spec fn next_id(last: u64, now: Option<u64>, kind: IdKind) -> u64 {
    compose(next_tick(last, now), kind)
}

/// The identifiers handed out one after another, starting after `last`, for
/// the given clock readings and kinds.
pub open spec fn ids_after(last: u64, requests: Seq<(Option<u64>, IdKind)>) -> Seq<u64>
    decreases requests.len(),
{
    if requests.len() == 0 {
        seq![]
    } else {
        let first = next_id(last, requests[0].0, requests[0].1);
        seq![first] + ids_after(first, requests.drop_first())
    }
}

/// The time of day, in UTC, at `millis` milliseconds since the Unix epoch.
pub open spec fn clock_time_of(millis: u64) -> ClockTime {
    ClockTime {
        hours: (millis / 3_600_000 % 24) as u8,
        minutes: (millis / 60_000 % 60) as u8,
        seconds: (millis / 1000 % 60) as u8,
    }
}

/// A new identifier carries the tick and the kind that it was made of, and
/// its tick is never before that of the identifier before it.
pub proof fn lemma_next_id_embeds(last: u64, now: Option<u64>, kind: IdKind)
    ensures
        timestamp_of(next_id(last, now, kind)) == next_tick(last, now),
        kind_of(next_id(last, now, kind)) == Some(kind),
        timestamp_of(last) <= next_tick(last, now) <= MAX_TICK,
        now is Some && timestamp_of(last) < now->0 <= MAX_TICK ==> timestamp_of(
            next_id(last, now, kind),
        ) == now->0,
{
}

/// While a tick is left, a new identifier is greater than the one before it,
/// whatever the clock reads.
pub proof fn lemma_next_id_increases(last: u64, now: Option<u64>, kind: IdKind)
    requires
        timestamp_of(last) < MAX_TICK,
    ensures
        next_id(last, now, kind) > last,
        timestamp_of(next_id(last, now, kind)) > timestamp_of(last),
{
}

/// Identifiers handed out in order grow strictly: of any two, the later one
/// is the greater, as long as a tick was left when the later one was made.
pub proof fn lemma_ids_strictly_increase(
    last: u64,
    requests: Seq<(Option<u64>, IdKind)>,
    i: int,
    j: int,
)
    requires
        0 <= i < j < requests.len(),
        timestamp_of(ids_after(last, requests)[j - 1]) < MAX_TICK,
    ensures
        ids_after(last, requests).len() == requests.len(),
        ids_after(last, requests)[i] < ids_after(last, requests)[j],
    decreases requests.len(),
{
    let ids = ids_after(last, requests);
    let first = next_id(last, requests[0].0, requests[0].1);
    let rest = requests.drop_first();
    lemma_ids_len(last, requests);
    lemma_ids_len(first, rest);
    assert(forall|k: int| 1 <= k < ids.len() ==> ids[k] == ids_after(first, rest)[k - 1]);
    if i == 0 {
        lemma_ids_above(first, rest, j - 1);
    } else {
        lemma_ids_strictly_increase(first, rest, i - 1, j - 1);
    }
}

/// As many identifiers come out as were asked for.
pub proof fn lemma_ids_len(last: u64, requests: Seq<(Option<u64>, IdKind)>)
    ensures
        ids_after(last, requests).len() == requests.len(),
    decreases requests.len(),
{
    if requests.len() > 0 {
        lemma_ids_len(next_id(last, requests[0].0, requests[0].1), requests.drop_first());
    }
}

/// Every identifier handed out after `last` is greater than `last`, as long
/// as a tick was left when it was made.
proof fn lemma_ids_above(last: u64, requests: Seq<(Option<u64>, IdKind)>, j: int)
    requires
        0 <= j < requests.len(),
        j == 0 ==> timestamp_of(last) < MAX_TICK,
        j > 0 ==> timestamp_of(ids_after(last, requests)[j - 1]) < MAX_TICK,
    ensures
        ids_after(last, requests).len() == requests.len(),
        last < ids_after(last, requests)[j],
        timestamp_of(last) < MAX_TICK,
    decreases requests.len(),
{
    let ids = ids_after(last, requests);
    let first = next_id(last, requests[0].0, requests[0].1);
    let rest = requests.drop_first();
    lemma_ids_len(last, requests);
    lemma_ids_len(first, rest);
    assert(forall|k: int| 1 <= k < ids.len() ==> ids[k] == ids_after(first, rest)[k - 1]);
    if j > 0 {
        lemma_ids_above(first, rest, j - 1);
        lemma_next_id_embeds(last, requests[0].0, requests[0].1);
    }
}

/// Hands out identifiers that grow strictly.
#[derive(Debug)]
pub struct IdGenerator {
    last: u64,
}

impl View for IdGenerator {
    type V = u64;

    /// The identifier that was handed out last (0 before the first).
    closed spec fn view(&self) -> u64 {
        self.last
    }
}

impl IdGenerator {
    /// A generator that has handed out nothing yet.
    pub fn new() -> (ids: IdGenerator)
        ensures
            ids@ == 0,
    {
        IdGenerator { last: 0 }
    }

    /// A generator that goes on after `last`.
    pub fn resume(last: u64) -> (ids: IdGenerator)
        ensures
            ids@ == last,
    {
        IdGenerator { last }
    }

    /// The identifier that was handed out last.
    pub fn last_id(&self) -> (last: u64)
        ensures
            last == self@,
    {
        self.last
    }

    /// The next identifier, for a clock that reads `now` milliseconds since
    /// the Unix epoch (`None`: the clock cannot be read).
    pub fn generate_at(&mut self, now: Option<u64>, kind: IdKind) -> (id: u64)
        ensures
            id == next_id(old(self)@, now, kind),
            final(self)@ == id,
            kind_of(id) == Some(kind),
            timestamp_of(id) >= timestamp_of(old(self)@),
            timestamp_of(old(self)@) < MAX_TICK ==> id > old(self)@,
        no_unwind
    {
        let previous: u64 = self.last / 256;
        let tick: u64 = match now {
            Some(t) if previous < t && t <= MAX_TICK => t,
            _ => if previous < MAX_TICK {
                previous + 1
            } else {
                MAX_TICK
            },
        };
        let code: u64 = match kind {
            IdKind::User => 1,
            IdKind::Message => 2,
        };
        let id: u64 = tick * 256 + code;
        self.last = id;
        id
    }

    /// The next identifier, made of the current time. It is greater than
    /// every identifier that this generator handed out before, as long as a
    /// tick is left.
    pub fn generate(&mut self, kind: IdKind) -> (id: u64)
        ensures
            exists|now: Option<u64>| id == next_id(old(self)@, now, kind),
            final(self)@ == id,
            kind_of(id) == Some(kind),
            timestamp_of(id) >= timestamp_of(old(self)@),
            timestamp_of(old(self)@) < MAX_TICK ==> id > old(self)@,
    {
        let now = clock_millis();
        self.generate_at(now, kind)
    }
}

/// The time that an identifier was made at, in milliseconds since the Unix
/// epoch.
pub fn extract_timestamp(id: u64) -> (millis: u64)
    ensures
        millis == timestamp_of(id),
{
    id / 256
}

/// The kind of thing that an identifier names, if it names one.
pub fn extract_kind(id: u64) -> (kind: Option<IdKind>)
    ensures
        kind == kind_of(id),
{
    let code: u64 = id % 256;
    if code == 1 {
        Some(IdKind::User)
    } else if code == 2 {
        Some(IdKind::Message)
    } else {
        None
    }
}

/// The time of day, in UTC, at `millis` milliseconds since the Unix epoch.
pub fn clock_time_at(millis: u64) -> (time: ClockTime)
    ensures
        time == clock_time_of(millis),
{
    ClockTime {
        hours: (millis / 3_600_000 % 24) as u8,
        minutes: (millis / 60_000 % 60) as u8,
        seconds: (millis / 1000 % 60) as u8,
    }
}

/// The time of day, in UTC, that an identifier was made at.
pub fn clock_time(id: u64) -> (time: ClockTime)
    ensures
        time == clock_time_of(timestamp_of(id)),
{
    clock_time_at(extract_timestamp(id))
}

/// The clock's reading in milliseconds since the Unix epoch; `None` where
/// the clock stands before the epoch or the count does not fit.
///
/// What the clock reads is the machine's to decide; what is made of the
/// reading is said by `reading_of`.
pub(crate) fn clock_millis() -> (now: Option<u64>) {
    let moment = system_now();
    let elapsed: Option<u128> = match since_epoch(&moment) {
        Some(elapsed) => Some(whole_millis(&elapsed)),
        None => None,
    };
    reading_of(elapsed)
}

/// A clock's reading as a generator takes it: the milliseconds that have
/// passed since the Unix epoch where they were counted and fit 64 bits,
/// `None` in every other case.
pub open spec fn reading(elapsed: Option<u128>) -> Option<u64> {
    if elapsed is Some && elapsed->0 <= u64::MAX {
        Some(elapsed->0 as u64)
    } else {
        None
    }
}

/// Turns a count of milliseconds since the Unix epoch, or the lack of one,
/// into the reading that a generator takes.
pub fn reading_of(elapsed: Option<u128>) -> (now: Option<u64>)
    ensures
        now == reading(elapsed),
{
    match elapsed {
        Some(millis) => if millis <= 0xFFFF_FFFF_FFFF_FFFF {
            Some(millis as u64)
        } else {
            None
        },
        None => None,
    }
}

#[verifier::external_type_specification]
#[verifier::external_body]
pub struct ExSystemTime(std::time::SystemTime);

/// `SystemTime::now`: the system clock's current reading. Nothing is claimed
/// of it.
#[verifier::external_body]
fn system_now() -> SystemTime {
    SystemTime::now()
}

/// `SystemTime::duration_since`, from the Unix epoch: the time that has
/// passed since the epoch, `None` where `moment` lies before it. Nothing is
/// claimed of the result.
#[verifier::external_body]
fn since_epoch(moment: &SystemTime) -> Option<Duration> {
    moment.duration_since(UNIX_EPOCH).ok()
}

/// `Duration::as_millis`: the whole milliseconds in a duration. Nothing is
/// claimed of the result.
#[verifier::external_body]
fn whole_millis(elapsed: &Duration) -> u128 {
    elapsed.as_millis()
}

} // verus!
