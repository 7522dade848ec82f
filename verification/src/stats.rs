//! Daily play statistics: productive time and inputs per local calendar day.
use crate::bignat::{decimal, BigNat};
use crate::idmap::IdMap;
use crate::keyed::{Keyed, SortKey};
use vstd::prelude::*;
use vstd::string::{StrSliceExecFns, StringExecFns};

verus! {

/// Nanoseconds in a second.
pub const NANOS_PER_SECOND: u64 = 1_000_000_000;

/// Seconds in a day.
pub const SECONDS_PER_DAY: u32 = 86_400;

/// A local calendar date, `YYYY-MM-DD`, ordered as text.
#[derive(Clone, Debug, PartialEq, Eq)]
pub struct DateKey(String);

impl View for DateKey {
    type V = Seq<char>;

    closed spec fn view(&self) -> Seq<char> {
        self.0@
    }
}

impl DateKey {
    pub fn new(date: String) -> (r: Self)
        ensures
            r@ == date@,
    {
        DateKey(date)
    }

    pub fn as_str(&self) -> (r: &str)
        ensures
            r@ == self@,
    {
        self.0.as_str()
    }
}

impl SortKey for DateKey {
    open spec fn key(&self) -> Seq<char> {
        self@
    }
}

impl Keyed for DateKey {
    fn key_str(&self) -> (r: &str) {
        self.0.as_str()
    }

    fn dup(&self) -> (r: Self) {
        DateKey(self.0.clone())
    }
}

/// What one day recorded.
#[derive(Clone, Debug)]
pub struct DayStatistics {
    pub productive_nanos: u64,
    pub inputs: BigNat,
}

impl DayStatistics {
    pub fn zero() -> (r: Self)
        ensures
            r.productive_nanos == 0,
            r.inputs@ == 0,
    {
        DayStatistics { productive_nanos: 0, inputs: BigNat::zero() }
    }

    pub fn copy(&self) -> (r: Self)
        ensures
            r.productive_nanos == self.productive_nanos,
            r.inputs@ == self.inputs@,
    {
        DayStatistics { productive_nanos: self.productive_nanos, inputs: self.inputs.copy() }
    }
}

/// A moment on the local calendar.
#[derive(Clone, Debug, PartialEq, Eq)]
pub struct CalendarSample {
    pub date: String,
    pub seconds_since_midnight: u32,
}

impl CalendarSample {
    pub fn copy(&self) -> (r: Self)
        ensures
            r == *self,
    {
        CalendarSample { date: self.date.clone(), seconds_since_midnight: self.seconds_since_midnight }
    }
}

/// Daily statistics, the day last seen, and productive time below one second not yet
/// turned into production.
pub struct Statistics {
    current_local_date: String,
    production_subsecond_nanos: u32,
    days: IdMap<DateKey, DayStatistics>,
}

/// Productive nanoseconds recorded for `date`, zero if none.
pub open spec fn productive_of(m: Map<Seq<char>, DayStatistics>, date: Seq<char>) -> nat {
    if m.dom().contains(date) {
        m[date].productive_nanos as nat
    } else {
        0
    }
}

/// Inputs recorded for `date`, zero if none.
pub open spec fn inputs_of(m: Map<Seq<char>, DayStatistics>, date: Seq<char>) -> nat {
    if m.dom().contains(date) {
        m[date].inputs@
    } else {
        0
    }
}

/// Day records by date; a date given twice keeps its last record.
pub open spec fn days_of(es: Seq<(String, DayStatistics)>) -> Map<Seq<char>, DayStatistics>
    decreases es.len(),
{
    if es.len() == 0 {
        Map::empty()
    } else {
        days_of(es.drop_last()).insert(es.last().0@, es.last().1)
    }
}

/// `a + b`, capped at `u64::MAX`.
pub open spec fn sat_plus(a: nat, b: nat) -> nat {
    if a + b > u64::MAX {
        u64::MAX as nat
    } else {
        a + b
    }
}

impl Statistics {
    pub closed spec fn current(&self) -> Seq<char> {
        self.current_local_date@
    }

    pub closed spec fn subsecond(&self) -> u32 {
        self.production_subsecond_nanos
    }

    pub closed spec fn days_map(&self) -> Map<Seq<char>, DayStatistics> {
        self.days.as_map()
    }

    pub closed spec fn day_seq(&self) -> Seq<DayStatistics> {
        self.days.val_seq()
    }

    pub closed spec fn date_seq(&self) -> Seq<Seq<char>> {
        crate::idmap::key_view(self.days.key_seq())
    }

    /// The days are kept by date, each date once, in increasing order.
    pub closed spec fn wf(&self) -> bool {
        self.days.wf()
    }

    pub(crate) fn assert_wf(&self)
        ensures
            self.wf(),
    {
        proof {
            use_type_invariant(&self.days);
        }
    }

    /// No day recorded yet.
    pub fn new() -> (r: Self)
        ensures
            r.current() == Seq::<char>::empty(),
            r.subsecond() == 0,
            r.days_map() == Map::<Seq<char>, DayStatistics>::empty(),
            r.day_seq().len() == 0,
    {
        let r = Statistics {
            current_local_date: String::new(),
            production_subsecond_nanos: 0,
            days: IdMap::new(),
        };
        assert(r.days_map() =~= Map::<Seq<char>, DayStatistics>::empty());
        r
    }

    /// Statistics restored from saved parts; a remainder beyond a second is capped just
    /// below it, and a date given twice keeps its last record.
    pub fn from_parts(current_local_date: String, production_subsecond_nanos: u32, days: Vec<(String, DayStatistics)>) -> (r:
        Self)
        ensures
            r.current() == current_local_date@,
            r.subsecond() == if production_subsecond_nanos > 999_999_999 {
                999_999_999
            } else {
                production_subsecond_nanos
            },
            r.days_map().dom() == days_of(days@).dom(),
            forall|x: Seq<char>| #[trigger] productive_of(r.days_map(), x) == productive_of(days_of(days@), x),
            forall|x: Seq<char>| #[trigger] inputs_of(r.days_map(), x) == inputs_of(days_of(days@), x),
    {
        let mut map: IdMap<DateKey, DayStatistics> = IdMap::new();
        let mut i: usize = 0;
        assert(days@.take(0) =~= Seq::<(String, DayStatistics)>::empty());
        assert(map.as_map() =~= Map::<Seq<char>, DayStatistics>::empty());
        while i < days.len()
            invariant
                i <= days@.len(),
                map.as_map().dom() == days_of(days@.take(i as int)).dom(),
                forall|x: Seq<char>|
                    #[trigger] productive_of(map.as_map(), x) == productive_of(days_of(days@.take(i as int)), x),
                forall|x: Seq<char>| #[trigger] inputs_of(map.as_map(), x) == inputs_of(days_of(days@.take(i as int)), x),
            decreases days@.len() - i,
        {
            let (date, day) = &days[i];
            let ghost before = map.as_map();
            let record = day.copy();
            let key = DateKey::new(date.clone());
            map.insert(key, record);
            proof {
                let t = days@.take(i as int + 1);
                assert(t.drop_last() =~= days@.take(i as int));
                assert(t.last() == days@[i as int]);
                assert forall|x: Seq<char>|
                    #[trigger] productive_of(map.as_map(), x) == productive_of(days_of(t), x) by {
                    if x != date@ {
                        assert(productive_of(map.as_map(), x) == productive_of(before, x));
                    }
                }
                assert forall|x: Seq<char>| #[trigger] inputs_of(map.as_map(), x) == inputs_of(days_of(t), x) by {
                    if x != date@ {
                        assert(inputs_of(map.as_map(), x) == inputs_of(before, x));
                    }
                }
            }
            i = i + 1;
        }
        assert(days@.take(days@.len() as int) =~= days@);
        let sub = if production_subsecond_nanos > 999_999_999 {
            999_999_999
        } else {
            production_subsecond_nanos
        };
        Statistics { current_local_date, production_subsecond_nanos: sub, days: map }
    }

    pub fn current_local_date(&self) -> (r: &str)
        ensures
            r@ == self.current(),
    {
        self.current_local_date.as_str()
    }

    pub fn production_subsecond_nanos(&self) -> (r: u32)
        ensures
            r == self.subsecond(),
    {
        self.production_subsecond_nanos
    }

    /// The recorded days, in date order.
    pub fn days(&self) -> (r: Vec<(String, DayStatistics)>)
        ensures
            r@.len() == self.day_seq().len(),
            forall|k: int|
                0 <= k < r@.len() ==> #[trigger] r@[k].0@ == self.date_seq()[k] && r@[k].1.productive_nanos
                    == self.day_seq()[k].productive_nanos && r@[k].1.inputs@ == self.day_seq()[k].inputs@,
    {
        proof {
            use_type_invariant(&self.days);
        }
        let keys = self.days.keys();
        let vals = self.days.values();
        let mut out: Vec<(String, DayStatistics)> = Vec::new();
        let mut i: usize = 0;
        while i < keys.len()
            invariant
                keys@ == self.days.key_seq(),
                vals@ == self.days.val_seq(),
                keys@.len() == vals@.len(),
                i <= keys@.len(),
                out@.len() == i,
                forall|k: int|
                    0 <= k < i ==> #[trigger] out@[k].0@ == crate::idmap::key_view(keys@)[k]
                        && out@[k].1.productive_nanos == vals@[k].productive_nanos && out@[k].1.inputs@
                        == vals@[k].inputs@,
            decreases keys@.len() - i,
        {
            let date = keys[i].as_str();
            out.push((date.to_owned(), vals[i].copy()));
            i = i + 1;
        }
        out
    }
}

/// Dates increase along the recorded days; the record of the date at position `k` is the
/// day at position `k`, and the recorded dates are exactly those listed.
pub proof fn lemma_day_positions(s: Statistics)
    requires
        s.wf(),
    ensures
        s.date_seq().len() == s.day_seq().len(),
        crate::state::ids_increasing(s.date_seq()),
        forall|x: Seq<char>| #[trigger] s.days_map().dom().contains(x) <==> s.date_seq().contains(x),
        forall|k: int| 0 <= k < s.date_seq().len() ==> s.days_map()[#[trigger] s.date_seq()[k]] == s.day_seq()[k],
{
    crate::idmap::lemma_map_of_positions(s.days.key_seq(), s.days.val_seq());
    crate::state::lemma_key_view_facts(s.days.key_seq());
}

/// Adds productive time to a date's record, creating it if needed.
pub fn add_productive_nanos(statistics: &mut Statistics, date: &str, nanos: u64)
    ensures
        final(statistics).days_map().dom() == old(statistics).days_map().dom().insert(date@),
        forall|x: Seq<char>|
            x != date@ && #[trigger] old(statistics).days_map().dom().contains(x) ==> final(statistics).days_map()[x]
                == old(statistics).days_map()[x],
        forall|x: Seq<char>|
            x != date@ ==> #[trigger] inputs_of(final(statistics).days_map(), x) == inputs_of(old(statistics).days_map(), x),
        productive_of(final(statistics).days_map(), date@) == sat_plus(
            productive_of(old(statistics).days_map(), date@),
            nanos as nat,
        ),
        inputs_of(final(statistics).days_map(), date@) == inputs_of(old(statistics).days_map(), date@),
        final(statistics).current() == old(statistics).current(),
        final(statistics).subsecond() == old(statistics).subsecond(),
{
    let key = DateKey::new(date.to_owned());
    let day = match statistics.days.get(&key) {
        Some(d) => DayStatistics {
            productive_nanos: d.productive_nanos.saturating_add(nanos),
            inputs: d.inputs.copy(),
        },
        None => DayStatistics { productive_nanos: nanos, inputs: BigNat::zero() },
    };
    statistics.days.insert(key, day);
}

/// Adds inputs to a date's record, creating it if needed.
fn add_inputs(statistics: &mut Statistics, date: &str, count: u64)
    ensures
        final(statistics).days_map().dom() == old(statistics).days_map().dom().insert(date@),
        forall|x: Seq<char>|
            x != date@ && #[trigger] old(statistics).days_map().dom().contains(x) ==> final(statistics).days_map()[x]
                == old(statistics).days_map()[x],
        productive_of(final(statistics).days_map(), date@) == productive_of(old(statistics).days_map(), date@),
        inputs_of(final(statistics).days_map(), date@) == inputs_of(old(statistics).days_map(), date@)
            + count,
        final(statistics).current() == old(statistics).current(),
        final(statistics).subsecond() == old(statistics).subsecond(),
{
    let key = DateKey::new(date.to_owned());
    let add = BigNat::from_u64(count);
    let day = match statistics.days.get(&key) {
        Some(d) => DayStatistics { productive_nanos: d.productive_nanos, inputs: d.inputs.add(&add) },
        None => DayStatistics { productive_nanos: 0, inputs: add },
    };
    statistics.days.insert(key, day);
}

/// Counts `count` inputs for the day of `calendar`; without a calendar nothing is recorded.
pub fn record_inputs(statistics: &mut Statistics, calendar: Option<&CalendarSample>, count: u64)
    ensures
        calendar is None ==> final(statistics).days_map() == old(statistics).days_map()
            && final(statistics).current() == old(statistics).current(),
        calendar matches Some(c) ==> {
            &&& final(statistics).current() == c.date@
            &&& final(statistics).days_map().dom() == old(statistics).days_map().dom().insert(c.date@)
            &&& forall|x: Seq<char>|
                x != c.date@ && #[trigger] old(statistics).days_map().dom().contains(x)
                    ==> final(statistics).days_map()[x] == old(statistics).days_map()[x]
            &&& productive_of(final(statistics).days_map(), c.date@) == productive_of(
                old(statistics).days_map(),
                c.date@,
            )
            &&& inputs_of(final(statistics).days_map(), c.date@) == inputs_of(old(statistics).days_map(), c.date@)
                + count
        },
        forall|x: Seq<char>|
            #[trigger] inputs_of(final(statistics).days_map(), x) == inputs_of(old(statistics).days_map(), x) + (
            if calendar matches Some(c) && c.date@ == x {
                count as nat
            } else {
                0
            }),
        forall|x: Seq<char>|
            #[trigger] productive_of(final(statistics).days_map(), x) == productive_of(old(statistics).days_map(), x),
        final(statistics).subsecond() == old(statistics).subsecond(),
{
    match calendar {
        None => {},
        Some(c) => {
            statistics.current_local_date = c.date.clone();
            add_inputs(statistics, c.date.as_str(), count);
        },
    }
}

/// `min(max(86_400 - seconds, 0) * 10^9, u64::MAX)`: the productive time that still fits
/// in the day of a sample taken `seconds` after midnight.
pub open spec fn nanos_until_midnight(seconds: u32) -> nat {
    let left: nat = if seconds >= SECONDS_PER_DAY {
        0
    } else {
        (SECONDS_PER_DAY - seconds) as nat
    };
    left * (NANOS_PER_SECOND as nat)
}

/// The part of `nanos` booked on the previous sample's day, and the part on the current
/// day: the previous day takes what fits before its midnight when the day changed.
pub open spec fn midnight_split(previous: Option<CalendarSample>, current: CalendarSample, nanos: nat) -> (nat, nat) {
    if previous is Some && previous->0.date@ != current.date@ {
        let until = nanos_until_midnight(previous->0.seconds_since_midnight);
        let before = if nanos <= until {
            nanos
        } else {
            until
        };
        (before, (nanos - before) as nat)
    } else {
        (0, nanos)
    }
}

/// `new` is `old` after recording `nanos` of productive time observed at `current`, the
/// sample before being `previous`.
pub open spec fn productive_recorded(
    old: Statistics,
    new: Statistics,
    previous: Option<CalendarSample>,
    current: CalendarSample,
    nanos: nat,
) -> bool {
    let split = previous is Some && previous->0.date@ != current.date@;
    let parts = midnight_split(previous, current, nanos);
    &&& new.current() == current.date@
    &&& new.subsecond() == old.subsecond()
    &&& split ==> new.days_map().dom() == old.days_map().dom().insert(previous->0.date@).insert(current.date@)
    &&& !split ==> new.days_map().dom() == old.days_map().dom().insert(current.date@)
    &&& split ==> productive_of(new.days_map(), previous->0.date@) == sat_plus(
        productive_of(old.days_map(), previous->0.date@),
        parts.0,
    )
    &&& productive_of(new.days_map(), current.date@) == sat_plus(productive_of(old.days_map(), current.date@), parts.1)
    &&& forall|x: Seq<char>|
        x != current.date@ && (!split || x != previous->0.date@) && #[trigger] old.days_map().dom().contains(x)
            ==> new.days_map()[x] == old.days_map()[x]
    &&& forall|x: Seq<char>| #[trigger] inputs_of(new.days_map(), x) == inputs_of(old.days_map(), x)
}

/// The dates that have a record after booking productive time observed at `current`, the
/// sample before being `previous`.
pub open spec fn booked_dates(dom: Set<Seq<char>>, previous: Option<CalendarSample>, current: CalendarSample) -> Set<
    Seq<char>,
> {
    if previous is Some && previous->0.date@ != current.date@ {
        dom.insert(previous->0.date@).insert(current.date@)
    } else {
        dom.insert(current.date@)
    }
}

/// The productive time of `date` after booking `nanos` observed at `current`, the sample
/// before being `previous`.
pub open spec fn booked_productive(
    m: Map<Seq<char>, DayStatistics>,
    previous: Option<CalendarSample>,
    current: CalendarSample,
    nanos: nat,
    date: Seq<char>,
) -> nat {
    let parts = midnight_split(previous, current, nanos);
    if previous is Some && previous->0.date@ != current.date@ && date == previous->0.date@ {
        sat_plus(productive_of(m, date), parts.0)
    } else if date == current.date@ {
        sat_plus(productive_of(m, date), parts.1)
    } else {
        productive_of(m, date)
    }
}

/// Booking productive time, date by date.
pub proof fn lemma_productive_booked(
    old: Statistics,
    new: Statistics,
    previous: Option<CalendarSample>,
    current: CalendarSample,
    nanos: nat,
)
    requires
        productive_recorded(old, new, previous, current, nanos),
    ensures
        new.days_map().dom() == booked_dates(old.days_map().dom(), previous, current),
        forall|x: Seq<char>|
            #[trigger] productive_of(new.days_map(), x) == booked_productive(old.days_map(), previous, current, nanos, x),
        forall|x: Seq<char>| #[trigger] inputs_of(new.days_map(), x) == inputs_of(old.days_map(), x),
{
    let split = previous is Some && previous->0.date@ != current.date@;
    assert forall|x: Seq<char>|
        #[trigger] productive_of(new.days_map(), x) == booked_productive(old.days_map(), previous, current, nanos, x) by {
        if x != current.date@ && (!split || x != previous->0.date@) {
            if old.days_map().dom().contains(x) {
                assert(new.days_map()[x] == old.days_map()[x]);
            }
        }
    }
}

/// Splitting at midnight books all of the productive time, and the earlier day never gets
/// more than the time left in it.
pub proof fn law_midnight_split_conserves_time(previous: Option<CalendarSample>, current: CalendarSample, nanos: nat)
    ensures
        midnight_split(previous, current, nanos).0 + midnight_split(previous, current, nanos).1 == nanos,
        previous matches Some(p) ==> midnight_split(previous, current, nanos).0 <= nanos_until_midnight(
            p.seconds_since_midnight,
        ),
{
}

/// Records productive time for the day of `current`. When the previous sample fell on
/// another day, the part that fits before that day's midnight is booked there and the
/// rest on the current day.
pub fn record_productive(
    statistics: &mut Statistics,
    previous: &Option<CalendarSample>,
    current: &CalendarSample,
    productive_nanos: u64,
)
    ensures
        productive_recorded(*old(statistics), *final(statistics), *previous, *current, productive_nanos as nat),
        final(statistics).days_map().dom() == booked_dates(old(statistics).days_map().dom(), *previous, *current),
        forall|x: Seq<char>|
            #[trigger] productive_of(final(statistics).days_map(), x) == booked_productive(
                old(statistics).days_map(),
                *previous,
                *current,
                productive_nanos as nat,
                x,
            ),
{
    statistics.current_local_date = current.date.clone();
    let mut split = false;
    let mut before: u64 = 0;
    if let Some(p) = previous {
        if !(p.date == current.date) {
            split = true;
            let left: u64 = if p.seconds_since_midnight >= SECONDS_PER_DAY {
                0
            } else {
                (SECONDS_PER_DAY - p.seconds_since_midnight) as u64
            };
            let until = left * NANOS_PER_SECOND;
            before = if productive_nanos <= until {
                productive_nanos
            } else {
                until
            };
        }
    }
    if split {
        let p = previous.as_ref().unwrap();
        add_productive_nanos(statistics, p.date.as_str(), before);
        add_productive_nanos(statistics, current.date.as_str(), productive_nanos - before);
    } else {
        add_productive_nanos(statistics, current.date.as_str(), productive_nanos);
    }
    proof {
        lemma_productive_booked(*old(statistics), *statistics, *previous, *current, productive_nanos as nat);
    }
}

/// The productive time of all days, added with a cap at `u64::MAX`.
pub open spec fn capped_total(ds: Seq<DayStatistics>) -> nat
    decreases ds.len(),
{
    if ds.len() == 0 {
        0
    } else {
        sat_plus(capped_total(ds.drop_last()), ds.last().productive_nanos as nat)
    }
}

/// The number of days with at least one second of productive time.
pub open spec fn full_days(ds: Seq<DayStatistics>) -> nat
    decreases ds.len(),
{
    if ds.len() == 0 {
        0
    } else {
        full_days(ds.drop_last()) + if ds.last().productive_nanos >= NANOS_PER_SECOND {
            1nat
        } else {
            0nat
        }
    }
}

proof fn lemma_full_days_bound(ds: Seq<DayStatistics>)
    ensures
        full_days(ds) <= ds.len(),
    decreases ds.len(),
{
    if ds.len() > 0 {
        lemma_full_days_bound(ds.drop_last());
    }
}

impl Statistics {
    /// The productive time recorded for `date`, zero if none.
    pub fn productive_on(&self, date: &str) -> (r: u64)
        ensures
            r == productive_of(self.days_map(), date@),
    {
        match self.days.get(&DateKey::new(date.to_owned())) {
            Some(d) => d.productive_nanos,
            None => 0,
        }
    }

    /// The inputs recorded for `date`, zero if none.
    pub fn inputs_on(&self, date: &str) -> (r: BigNat)
        ensures
            r@ == inputs_of(self.days_map(), date@),
    {
        match self.days.get(&DateKey::new(date.to_owned())) {
            Some(d) => d.inputs.copy(),
            None => BigNat::zero(),
        }
    }

    /// The productive time of all days, capped at `u64::MAX`.
    pub fn lifetime_productive_nanos(&self) -> (r: u64)
        ensures
            r == capped_total(self.day_seq()),
    {
        let vals = self.days.values();
        let ghost ds = vals@;
        let mut total: u64 = 0;
        let mut i: usize = 0;
        assert(ds.take(0) =~= Seq::<DayStatistics>::empty());
        while i < vals.len()
            invariant
                ds == vals@,
                i <= ds.len(),
                total == capped_total(ds.take(i as int)),
            decreases ds.len() - i,
        {
            total = total.saturating_add(vals[i].productive_nanos);
            assert(ds.take(i as int + 1).drop_last() =~= ds.take(i as int));
            i = i + 1;
        }
        assert(ds.take(ds.len() as int) =~= ds);
        total
    }

    /// The number of days with at least one second of productive time.
    pub fn productive_day_count(&self) -> (r: usize)
        ensures
            r == full_days(self.day_seq()),
    {
        let vals = self.days.values();
        let ghost ds = vals@;
        let mut count: usize = 0;
        let mut i: usize = 0;
        assert(ds.take(0) =~= Seq::<DayStatistics>::empty());
        while i < vals.len()
            invariant
                ds == vals@,
                i <= ds.len(),
                count == full_days(ds.take(i as int)),
            decreases ds.len() - i,
        {
            proof {
                lemma_full_days_bound(ds.take(i as int));
            }
            assert(ds.take(i as int + 1).drop_last() =~= ds.take(i as int));
            if vals[i].productive_nanos >= NANOS_PER_SECOND {
                count = count + 1;
            }
            i = i + 1;
        }
        assert(ds.take(ds.len() as int) =~= ds);
        count
    }

    /// Sets the productive time below one second that is carried to the next sample.
    pub fn set_subsecond(&mut self, nanos: u32)
        ensures
            final(self).subsecond() == nanos,
            final(self).current() == old(self).current(),
            final(self).days_map() == old(self).days_map(),
            final(self).day_seq() == old(self).day_seq(),
            final(self).date_seq() == old(self).date_seq(),
    {
        self.production_subsecond_nanos = nanos;
    }
}

/// `n` as `{:0w}` writes an integer: a minus sign for a negative number, then zeros up to
/// a width of `w` in all, then the digits of its magnitude.
pub open spec fn zero_padded(n: int, w: nat) -> Seq<char> {
    let sign: Seq<char> = if n < 0 {
        seq!['-']
    } else {
        Seq::empty()
    };
    let digits = decimal(
        if n < 0 {
            (-n) as nat
        } else {
            n as nat
        },
    );
    let fill: int = w - sign.len() - digits.len();
    sign + Seq::new(
        if fill > 0 {
            fill as nat
        } else {
            0
        },
        |i: int| '0',
    ) + digits
}

fn padded_text(n: i32, width: usize) -> (r: String)
    ensures
        r@ == zero_padded(n as int, width as nat),
{
    proof {
        reveal_strlit("-");
        reveal_strlit("0");
        reveal_strlit("");
    }
    let negative = n < 0;
    let magnitude: u64 = if negative {
        (0 - (n as i64)) as u64
    } else {
        n as u64
    };
    let digits = BigNat::from_u64(magnitude).to_decimal_string();
    let mut r = if negative {
        String::from_str("-")
    } else {
        String::from_str("")
    };
    let ghost sign = r@;
    let shown = digits.as_str().unicode_len();
    let target: usize = if !negative {
        width
    } else if width > 0 {
        width - 1
    } else {
        0
    };
    let mut k: usize = shown;
    assert(sign + Seq::new(0, |i: int| '0') =~= sign);
    while k < target
        invariant
            shown <= k,
            k <= target || k == shown,
            r@ == sign + Seq::new((k - shown) as nat, |i: int| '0'),
        decreases target - k,
    {
        let ghost before = r@;
        r.append("0");
        proof {
            reveal_strlit("0");
        }
        assert(r@ == before + seq!['0']);
        assert(r@ =~= sign + Seq::new((k + 1 - shown) as nat, |i: int| '0'));
        k = k + 1;
    }
    r.append(digits.as_str());
    r
}

/// The date and the seconds since midnight of a local broken-down time, as the C
/// library gives it: years since 1900, months from zero. `None` when the year or month
/// overflows, or when the hour, minute or second is negative.
pub open spec fn calendar_of(tm_year: i32, tm_mon: i32, tm_mday: i32, tm_hour: i32, tm_min: i32, tm_sec: i32) -> Option<
    (Seq<char>, nat),
> {
    if tm_year + 1900 > i32::MAX || tm_mon + 1 > i32::MAX || tm_hour < 0 || tm_min < 0 || tm_sec < 0 {
        None
    } else {
        Some(
            (
                zero_padded(tm_year + 1900, 4) + seq!['-'] + zero_padded(tm_mon + 1, 2) + seq!['-']
                    + zero_padded(tm_mday as int, 2),
                (tm_hour * 3600 + tm_min * 60 + tm_sec) as nat,
            ),
        )
    }
}

/// The calendar sample of a local broken-down time: the date `YYYY-MM-DD` and the
/// seconds since midnight. The seconds must fit in `u32` as they are summed.
pub fn calendar_sample(tm_year: i32, tm_mon: i32, tm_mday: i32, tm_hour: i32, tm_min: i32, tm_sec: i32) -> (r: Option<
    CalendarSample,
>)
    requires
        tm_year + 1900 <= i32::MAX && tm_mon + 1 <= i32::MAX && tm_hour >= 0 ==> tm_hour * 3600 <= u32::MAX,
        tm_year + 1900 <= i32::MAX && tm_mon + 1 <= i32::MAX && tm_hour >= 0 && tm_min >= 0 ==> tm_hour * 3600
            + tm_min * 60 <= u32::MAX,
        tm_year + 1900 <= i32::MAX && tm_mon + 1 <= i32::MAX && tm_hour >= 0 && tm_min >= 0 && tm_sec >= 0
            ==> tm_hour * 3600 + tm_min * 60 + tm_sec <= u32::MAX,
    ensures
        match calendar_of(tm_year, tm_mon, tm_mday, tm_hour, tm_min, tm_sec) {
            None => r is None,
            Some(c) => r matches Some(s) && s.date@ == c.0 && s.seconds_since_midnight == c.1,
        },
{
    proof {
        reveal_strlit("-");
    }
    let year = match tm_year.checked_add(1900) {
        Some(y) => y,
        None => {
            return None;
        },
    };
    let month = match tm_mon.checked_add(1) {
        Some(m) => m,
        None => {
            return None;
        },
    };
    if tm_hour < 0 || tm_min < 0 || tm_sec < 0 {
        return None;
    }
    let seconds: u32 = (tm_hour as u32) * 3600 + (tm_min as u32) * 60 + (tm_sec as u32);
    let mut date = padded_text(year, 4);
    date.append("-");
    date.append(padded_text(month, 2).as_str());
    date.append("-");
    date.append(padded_text(tm_mday, 2).as_str());
    Some(CalendarSample { date, seconds_since_midnight: seconds })
}

} // verus!
