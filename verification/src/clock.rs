//! Named clocks that follow external time sources by an offset from the
//! system clock, a tick-driven clock, and the `Clockwork` that keeps the
//! clocks of a node and selects the active one.
//!
//! Time points and spans are whole nanoseconds held in wide integers, so that
//! the offset arithmetic never overflows: a time point is taken relative to
//! the Unix epoch and lies within what a `std::time::Duration` can express on
//! either side of it.

use vstd::prelude::*;

verus! {

/// Nanoseconds in one millisecond.
pub const NANOS_PER_MILLI: u128 = 1_000_000;
/// Nanoseconds in one second.
pub const NANOS_PER_SEC: u128 = 1_000_000_000;
/// The longest span that a `std::time::Duration` holds, in nanoseconds.
pub const MAX_SPAN_NANOS: u128 = 18_446_744_073_709_551_615 * 1_000_000_000 + 999_999_999;

/// A point in time: nanoseconds since the Unix epoch, negative before it.
#[derive(Clone, Copy, Debug, PartialEq, Eq, PartialOrd, Ord, Hash)]
pub struct TimePoint {
    pub nanos: i128,
}

/// A non-negative span of time, in nanoseconds.
#[derive(Clone, Copy, Debug, PartialEq, Eq, PartialOrd, Ord, Hash)]
pub struct TimeSpan {
    pub nanos: u128,
}

/// `t` lies within what a `Duration` can express on either side of the epoch.
pub open spec fn in_range(t: TimePoint) -> bool {
    -(MAX_SPAN_NANOS as int) <= t.nanos <= MAX_SPAN_NANOS
}

impl TimePoint {
    /// The Unix epoch.
    pub fn epoch() -> (r: TimePoint)
        ensures
            r.nanos == 0,
    {
        TimePoint { nanos: 0 }
    }

    /// How long after `earlier` this point lies; `None` when it lies before.
    pub fn duration_since(&self, earlier: TimePoint) -> (r: Option<TimeSpan>)
        requires
            in_range(*self),
            in_range(earlier),
        ensures
            self.nanos >= earlier.nanos ==> r == Some(TimeSpan { nanos: (self.nanos - earlier.nanos) as u128 }),
            self.nanos < earlier.nanos ==> r is None,
    {
        if self.nanos >= earlier.nanos {
            Some(TimeSpan { nanos: (self.nanos - earlier.nanos) as u128 })
        } else {
            None
        }
    }
}

impl TimeSpan {
    pub fn from_millis(ms: u64) -> (r: TimeSpan)
        ensures
            r.nanos == ms * NANOS_PER_MILLI,
    {
        TimeSpan { nanos: ms as u128 * NANOS_PER_MILLI }
    }

    pub fn from_secs(s: u64) -> (r: TimeSpan)
        ensures
            r.nanos == s * NANOS_PER_SEC,
    {
        TimeSpan { nanos: s as u128 * NANOS_PER_SEC }
    }

    /// Whole milliseconds in this span.
    pub fn as_millis(&self) -> (r: u128)
        ensures
            r == self.nanos / NANOS_PER_MILLI,
    {
        self.nanos / NANOS_PER_MILLI
    }
}

/// Declares `std::time::SystemTime`, a reading of the system clock.
#[verifier::external_type_specification]
#[verifier::external_body]
pub struct ExSystemTime(std::time::SystemTime);

/// Reads the system clock.
///
/// Calls `SystemTime::now()`. Nothing is claimed of the reading.
#[verifier::external_body]
fn system_time_now() -> (r: std::time::SystemTime) {
    std::time::SystemTime::now()
}

/// Expresses a system time relative to the Unix epoch, in nanoseconds.
///
/// Calls `SystemTime::duration_since(UNIX_EPOCH)`, whose error carries the
/// distance of a time before the epoch, and converts the `Duration` to
/// nanoseconds with the sign of the side it lies on. The contract claims
/// only that the result lies within what a `Duration` can hold on either
/// side of the epoch, which the `Duration` documentation gives.
#[verifier::external_body]
fn since_epoch(t: &std::time::SystemTime) -> (r: TimePoint)
    ensures
        in_range(r),
{
    match t.duration_since(std::time::UNIX_EPOCH) {
        Ok(d) => TimePoint { nanos: d.as_nanos() as i128 },
        Err(e) => TimePoint { nanos: -(e.duration().as_nanos() as i128) },
    }
}

/// The current time of the system clock.
pub(crate) fn system_now() -> (t: TimePoint)
    ensures
        in_range(t),
{
    let now = system_time_now();
    since_epoch(&now)
}

/// What a clock is: its name, its signed offset from the system clock, when
/// that offset was last set, and whether it was ever set.
pub struct ClockModel {
    pub name: Seq<char>,
    pub offset: int,
    pub last_update: int,
    pub initialized: bool,
}

/// A named clock with offset tracking relative to system time.
#[derive(Debug)]
pub struct Clock {
    m_name: String,
    m_offset: TimeSpan,
    m_offset_sign: bool,
    m_last_update: TimePoint,
    m_initialized: bool,
}

impl View for Clock {
    type V = ClockModel;

    closed spec fn view(&self) -> ClockModel {
        ClockModel {
            name: self.m_name@,
            offset: if self.m_offset_sign { self.m_offset.nanos as int } else { -(
            self.m_offset.nanos as int) },
            last_update: self.m_last_update.nanos as int,
            initialized: self.m_initialized,
        }
    }
}

impl Clone for Clock {
    fn clone(&self) -> (r: Clock)
        ensures
            r@ == self@,
    {
        proof {
            use_type_invariant(self);
        }
        Clock {
            m_name: self.m_name.clone(),
            m_offset: self.m_offset,
            m_offset_sign: self.m_offset_sign,
            m_last_update: self.m_last_update,
            m_initialized: self.m_initialized,
        }
    }
}

impl Clock {
    #[verifier::type_invariant]
    closed spec fn offset_in_range(self) -> bool {
        self.m_offset.nanos <= 2 * MAX_SPAN_NANOS
    }

    pub fn new(name: &str) -> (r: Clock)
        ensures
            r@.name == name@,
            r@.offset == 0,
            r@.last_update == 0,
            !r@.initialized,
    {
        Clock {
            m_name: name.to_owned(),
            m_offset: TimeSpan { nanos: 0 },
            m_offset_sign: true,
            m_last_update: TimePoint { nanos: 0 },
            m_initialized: false,
        }
    }

    pub fn name(&self) -> (r: &str)
        ensures
            r@ == self@.name,
    {
        self.m_name.as_str()
    }

    pub fn is_initialized(&self) -> (r: bool)
        ensures
            r == self@.initialized,
    {
        self.m_initialized
    }

    /// Sets the offset so that this clock reads `external_time` when the
    /// system clock reads `now`.
    pub fn set_offset_from_timestamp_at(&mut self, external_time: TimePoint, now: TimePoint)
        requires
            in_range(external_time),
            in_range(now),
        ensures
            final(self)@ == (ClockModel {
                name: old(self)@.name,
                offset: external_time.nanos - now.nanos,
                last_update: now.nanos as int,
                initialized: true,
            }),
    {
        if external_time.nanos >= now.nanos {
            self.m_offset = TimeSpan { nanos: (external_time.nanos - now.nanos) as u128 };
            self.m_offset_sign = true;
        } else {
            self.m_offset = TimeSpan { nanos: (now.nanos - external_time.nanos) as u128 };
            self.m_offset_sign = false;
        }
        self.m_last_update = now;
        self.m_initialized = true;
    }

    /// Set clock offset from an external timestamp, against the current
    /// system time.
    pub fn set_offset_from_timestamp(&mut self, external_time: TimePoint)
        requires
            in_range(external_time),
        ensures
            final(self)@.name == old(self)@.name,
            final(self)@.initialized,
            final(self)@.offset == external_time.nanos - final(self)@.last_update,
            -(MAX_SPAN_NANOS as int) <= final(self)@.last_update <= MAX_SPAN_NANOS,
    {
        let now = system_now();
        self.set_offset_from_timestamp_at(external_time, now);
    }

    /// The time this clock reads when the system clock reads `sys_now`.
    pub fn now_at(&self, sys_now: TimePoint) -> (r: TimePoint)
        requires
            in_range(sys_now),
        ensures
            r.nanos == sys_now.nanos + self@.offset,
    {
        proof {
            use_type_invariant(self);
        }
        if self.m_offset_sign {
            TimePoint { nanos: sys_now.nanos + self.m_offset.nanos as i128 }
        } else {
            TimePoint { nanos: sys_now.nanos - self.m_offset.nanos as i128 }
        }
    }

    /// Get the current time according to this clock.
    pub fn now(&self) -> (r: TimePoint)
        ensures
            exists|s: TimePoint| in_range(s) && r.nanos == s.nanos + self@.offset,
    {
        let s = system_now();
        let r = self.now_at(s);
        assert(in_range(s) && r.nanos == s.nanos + self@.offset);
        r
    }

    /// The signed offset of this clock from the system clock, in nanoseconds.
    pub fn offset_nanos(&self) -> (r: i128)
        ensures
            r == self@.offset,
    {
        proof {
            use_type_invariant(self);
        }
        if self.m_offset_sign {
            self.m_offset.nanos as i128
        } else {
            -(self.m_offset.nanos as i128)
        }
    }

    pub fn last_update(&self) -> (r: TimePoint)
        ensures
            r.nanos == self@.last_update,
    {
        self.m_last_update
    }
}

} // verus!

verus! {

/// A tick-based clock that increments by a fixed interval per tick.
#[derive(Debug)]
pub struct TickClock {
    m_name: String,
    m_tick_interval: TimeSpan,
    m_ticks: u64,
    m_base_time: TimePoint,
}

/// What a tick clock is: its name, interval, tick count and base time.
pub struct TickClockModel {
    pub name: Seq<char>,
    pub interval: int,
    pub ticks: int,
    pub base: int,
}

impl View for TickClock {
    type V = TickClockModel;

    closed spec fn view(&self) -> TickClockModel {
        TickClockModel {
            name: self.m_name@,
            interval: self.m_tick_interval.nanos as int,
            ticks: self.m_ticks as int,
            base: self.m_base_time.nanos as int,
        }
    }
}

impl TickClock {
    /// The interval and base time of a tick clock lie within what a
    /// `Duration` holds.
    pub open spec fn wf(&self) -> bool {
        &&& self@.interval <= MAX_SPAN_NANOS
        &&& -(MAX_SPAN_NANOS as int) <= self@.base <= MAX_SPAN_NANOS
    }

    /// A tick clock with no ticks, based at the current system time.
    pub fn new(name: &str, tick_interval: TimeSpan) -> (r: TickClock)
        requires
            tick_interval.nanos <= MAX_SPAN_NANOS,
        ensures
            r.wf(),
            r@.name == name@,
            r@.interval == tick_interval.nanos,
            r@.ticks == 0,
    {
        TickClock {
            m_name: name.to_owned(),
            m_tick_interval: tick_interval,
            m_ticks: 0,
            m_base_time: system_now(),
        }
    }

    pub fn tick(&mut self)
        requires
            old(self)@.ticks < u64::MAX,
        ensures
            final(self)@ == (TickClockModel { ticks: old(self)@.ticks + 1, ..old(self)@ }),
            old(self).wf() ==> final(self).wf(),
    {
        self.m_ticks = self.m_ticks + 1;
    }

    /// Restarts the count at the current system time.
    pub fn reset(&mut self)
        ensures
            final(self)@.name == old(self)@.name,
            final(self)@.interval == old(self)@.interval,
            final(self)@.ticks == 0,
            -(MAX_SPAN_NANOS as int) <= final(self)@.base <= MAX_SPAN_NANOS,
            old(self).wf() ==> final(self).wf(),
    {
        self.m_ticks = 0;
        self.m_base_time = system_now();
    }

    /// The base time plus the interval times the tick count taken modulo
    /// 2^32 (the count is narrowed to 32 bits before multiplying); the
    /// product must fit a `Duration`, as multiplying one panics otherwise.
    pub fn now(&self) -> (r: TimePoint)
        requires
            self.wf(),
            self@.interval * (self@.ticks % 0x1_0000_0000) <= MAX_SPAN_NANOS,
        ensures
            r.nanos == self@.base + self@.interval * (self@.ticks % 0x1_0000_0000),
    {
        let ticks: u64 = self.m_ticks;
        let t: u32 = #[verifier::truncate] (ticks as u32);
        assert(t == ticks % 0x1_0000_0000) by (bit_vector)
            requires
                t == #[verifier::truncate] (ticks as u32),
        ;
        let step: u128 = self.m_tick_interval.nanos;
        assert(step * (t as u128) <= MAX_SPAN_NANOS * 0xFFFF_FFFFu128) by (nonlinear_arith)
            requires
                step <= MAX_SPAN_NANOS,
                t <= 0xFFFF_FFFFu32,
        ;
        let span = step * (t as u128);
        TimePoint { nanos: self.m_base_time.nanos + span as i128 }
    }

    pub fn ticks(&self) -> (r: u64)
        ensures
            r == self@.ticks,
    {
        self.m_ticks
    }

    pub fn name(&self) -> (r: &str)
        ensures
            r@ == self@.name,
    {
        self.m_name.as_str()
    }
}

/// The clocks of `s` by name; a later clock shadows an earlier one of the
/// same name.
pub open spec fn clock_map(s: Seq<Clock>) -> Map<Seq<char>, ClockModel>
    decreases s.len(),
{
    if s.len() == 0 {
        Map::empty()
    } else {
        clock_map(s.drop_last()).insert(s.last()@.name, s.last()@)
    }
}

/// No two clocks of `s` share a name.
pub open spec fn names_unique(s: Seq<Clock>) -> bool {
    forall|i: int, j: int| 0 <= i < j < s.len() ==> s[i]@.name != s[j]@.name
}

/// The name of each clock of `s` is a key of its map, bound to that clock.
proof fn lemma_clock_map_lookup(s: Seq<Clock>)
    requires
        names_unique(s),
    ensures
        forall|i: int|
            0 <= i < s.len() ==> #[trigger] clock_map(s).contains_key(s[i]@.name)
                && clock_map(s)[s[i]@.name] == s[i]@,
        forall|n: Seq<char>|
            #[trigger] clock_map(s).contains_key(n) ==> exists|i: int|
                0 <= i < s.len() && s[i]@.name == n,
    decreases s.len(),
{
    if s.len() > 0 {
        let p = s.drop_last();
        assert forall|i: int, j: int| 0 <= i < j < p.len() implies p[i]@.name != p[j]@.name by {
            assert(p[i] == s[i] && p[j] == s[j]);
        }
        lemma_clock_map_lookup(p);
        assert forall|n: Seq<char>| #[trigger] clock_map(s).contains_key(n) implies exists|i: int|
            0 <= i < s.len() && s[i]@.name == n by {
            if n != s.last()@.name {
                assert(clock_map(s) == clock_map(p).insert(s.last()@.name, s.last()@));
                assert(clock_map(p).contains_key(n));
                let i = choose|i: int| 0 <= i < p.len() && p[i]@.name == n;
                assert(s[i] == p[i]);
            } else {
                assert(s[s.len() - 1]@.name == n);
            }
        }
        assert forall|i: int| 0 <= i < s.len() implies #[trigger] clock_map(s).contains_key(
            s[i]@.name,
        ) && clock_map(s)[s[i]@.name] == s[i]@ by {
            assert(clock_map(s) == clock_map(p).insert(s.last()@.name, s.last()@));
            if i < s.len() - 1 {
                assert(s[i] == p[i]);
                assert(s[i]@.name != s[s.len() - 1]@.name);
                assert(clock_map(p).contains_key(p[i]@.name));
            }
        }
    }
}

/// Replacing a clock by one of the same name rebinds that name in the map.
proof fn lemma_clock_map_update(s: Seq<Clock>, i: int, c: Clock)
    requires
        names_unique(s),
        0 <= i < s.len(),
        c@.name == s[i]@.name,
    ensures
        clock_map(s.update(i, c)) == clock_map(s).insert(c@.name, c@),
        names_unique(s.update(i, c)),
    decreases s.len(),
{
    let t = s.update(i, c);
    assert forall|a: int, b: int| 0 <= a < b < t.len() implies t[a]@.name != t[b]@.name by {}
    if i == s.len() - 1 {
        assert(t.drop_last() =~= s.drop_last());
        assert(t.last() == c);
        lemma_clock_map_lookup(s.drop_last());
        assert forall|a: int, b: int| 0 <= a < b < s.drop_last().len() implies s.drop_last()[a]@.name
            != s.drop_last()[b]@.name by {
            assert(s.drop_last()[a] == s[a] && s.drop_last()[b] == s[b]);
        }
        assert(clock_map(t) =~= clock_map(s).insert(c@.name, c@));
    } else {
        let p = s.drop_last();
        assert forall|a: int, b: int| 0 <= a < b < p.len() implies p[a]@.name != p[b]@.name by {
            assert(p[a] == s[a] && p[b] == s[b]);
        }
        lemma_clock_map_update(p, i, c);
        assert(t.drop_last() =~= p.update(i, c));
        assert(t.last() == s.last());
        assert(s.last()@.name != c@.name);
        assert(clock_map(t) =~= clock_map(s).insert(c@.name, c@));
    }
}

/// What a clockwork is: its clocks by name and the name of the active one.
pub struct ClockworkModel {
    pub clocks: Map<Seq<char>, ClockModel>,
    pub active: Option<Seq<char>>,
}

/// What a call on a clockwork does to it: `add_clock` adds (or replaces) a
/// clock, `set_active` asks to activate a name, and `update_clock` or a
/// change through `get_clock_mut` sets the clock under a name.
pub enum ClockworkOp {
    Add(ClockModel),
    SetActive(Seq<char>),
    Replace(Seq<char>, ClockModel),
}

/// The clockwork after one operation.
pub open spec fn clockwork_step(m: ClockworkModel, op: ClockworkOp) -> ClockworkModel {
    match op {
        ClockworkOp::Add(c) => ClockworkModel {
            clocks: m.clocks.insert(c.name, c),
            active: match m.active {
                Some(n) => Some(n),
                None => Some(c.name),
            },
        },
        ClockworkOp::SetActive(n) => if m.clocks.contains_key(n) {
            ClockworkModel { clocks: m.clocks, active: Some(n) }
        } else {
            m
        },
        ClockworkOp::Replace(n, c) => ClockworkModel { clocks: m.clocks.insert(n, c), active: m.active },
    }
}

/// The clockwork that `Clockwork::new` makes, after the operations `ops`.
pub open spec fn clockwork_run(ops: Seq<ClockworkOp>) -> ClockworkModel
    decreases ops.len(),
{
    if ops.len() == 0 {
        ClockworkModel { clocks: Map::empty(), active: None }
    } else {
        clockwork_step(clockwork_run(ops.drop_last()), ops.last())
    }
}

/// The operation makes some clock active when applied to `m`: an added
/// clock, or the activation of a name that is a clock.
pub open spec fn activates(m: ClockworkModel, op: ClockworkOp) -> bool {
    ||| op is Add
    ||| (op matches ClockworkOp::SetActive(n) && m.clocks.contains_key(n))
}

/// Over any sequence of calls from a new clockwork, a clock is active
/// exactly when some call added a clock or activated an existing one, and
/// the active name is always that of a clock.
pub proof fn law_active_clock_exists(ops: Seq<ClockworkOp>)
    ensures
        clockwork_run(ops).active is Some <==> exists|i: int|
            0 <= i < ops.len() && #[trigger] activates(clockwork_run(ops.take(i)), ops[i]),
        clockwork_run(ops).active matches Some(n) ==> clockwork_run(ops).clocks.contains_key(n),
    decreases ops.len(),
{
    if ops.len() > 0 {
        let prev = ops.drop_last();
        law_active_clock_exists(prev);
        let k = ops.len() - 1;
        assert(ops.take(k) =~= prev);
        assert forall|i: int| 0 <= i < k implies ops.take(i) =~= prev.take(i) && ops[i] == prev[i] by {}
        if clockwork_run(ops).active is Some {
            if !activates(clockwork_run(prev), ops[k]) {
                assert(clockwork_run(prev).active is Some);
                let i = choose|i: int|
                    0 <= i < prev.len() && #[trigger] activates(clockwork_run(prev.take(i)), prev[i]);
                assert(activates(clockwork_run(ops.take(i)), ops[i]));
            } else {
                assert(activates(clockwork_run(ops.take(k)), ops[k]));
            }
        }
        if exists|i: int| 0 <= i < ops.len() && #[trigger] activates(clockwork_run(ops.take(i)), ops[i]) {
            let i = choose|i: int| 0 <= i < ops.len() && #[trigger] activates(clockwork_run(ops.take(i)), ops[i]);
            if i < k {
                assert(activates(clockwork_run(prev.take(i)), prev[i]));
            }
        }
    }
}

/// Manages multiple named clocks and selects the active one.
#[derive(Debug)]
pub struct Clockwork {
    m_clocks: Vec<Clock>,
    m_active_clock: Option<String>,
}

impl View for Clockwork {
    type V = ClockworkModel;

    closed spec fn view(&self) -> ClockworkModel {
        ClockworkModel {
            clocks: clock_map(self.m_clocks@),
            active: match self.m_active_clock {
                Some(n) => Some(n@),
                None => None,
            },
        }
    }
}

impl Clockwork {
    /// Clock names are unique and the active clock, when there is one, is
    /// one of the clocks.
    pub closed spec fn wf(&self) -> bool {
        &&& names_unique(self.m_clocks@)
        &&& self.m_active_clock matches Some(n) ==> clock_map(self.m_clocks@).contains_key(n@)
    }

    pub fn new() -> (r: Clockwork)
        ensures
            r@ == clockwork_run(seq![]),
            r.wf(),
            r@.clocks == Map::<Seq<char>, ClockModel>::empty(),
            r@.active is None,
    {
        Clockwork { m_clocks: Vec::new(), m_active_clock: None }
    }

    fn find(&self, name: &str) -> (r: Option<usize>)
        requires
            self.wf(),
        ensures
            match r {
                Some(i) => i < self.m_clocks@.len() && self.m_clocks@[i as int]@.name == name@,
                None => !self@.clocks.contains_key(name@),
            },
    {
        let mut i: usize = 0;
        while i < self.m_clocks.len()
            invariant
                i <= self.m_clocks@.len(),
                forall|j: int| 0 <= j < i ==> self.m_clocks@[j]@.name != name@,
            decreases self.m_clocks.len() - i,
        {
            if crate::text::str_equals(self.m_clocks[i].name(), name) {
                return Some(i);
            }
            i = i + 1;
        }
        proof {
            lemma_clock_map_lookup(self.m_clocks@);
        }
        None
    }

    /// Adds a clock, replacing one of the same name; the first clock added
    /// becomes the active one.
    pub fn add_clock(&mut self, clock: Clock)
        requires
            old(self).wf(),
        ensures
            final(self).wf(),
            final(self)@.clocks == old(self)@.clocks.insert(clock@.name, clock@),
            final(self)@.active == match old(self)@.active {
                Some(n) => Some(n),
                None => Some(clock@.name),
            },
            final(self)@ == clockwork_step(old(self)@, ClockworkOp::Add(clock@)),
    {
        let name = clock.name().to_owned();
        let ghost c = clock@;
        proof {
            lemma_clock_map_lookup(self.m_clocks@);
        }
        match self.find(name.as_str()) {
            Some(i) => {
                proof {
                    lemma_clock_map_update(self.m_clocks@, i as int, clock);
                }
                self.m_clocks.set(i, clock);
            },
            None => {
                let ghost before = self.m_clocks@;
                self.m_clocks.push(clock);
                proof {
                    assert(self.m_clocks@.drop_last() =~= before);
                    assert forall|a: int, b: int|
                        0 <= a < b < self.m_clocks@.len() implies self.m_clocks@[a]@.name
                        != self.m_clocks@[b]@.name by {
                        if b == before.len() {
                            assert(self.m_clocks@[a] == before[a]);
                        } else {
                            assert(self.m_clocks@[a] == before[a] && self.m_clocks@[b] == before[b]);
                        }
                    }
                }
            },
        }
        proof {
            lemma_clock_map_lookup(self.m_clocks@);
        }
        if self.m_active_clock.is_none() {
            self.m_active_clock = Some(name);
        }
    }

    pub fn get_clock(&self, name: &str) -> (r: Option<&Clock>)
        requires
            self.wf(),
        ensures
            match r {
                Some(c) => self@.clocks.contains_key(name@) && self@.clocks[name@] == c@,
                None => !self@.clocks.contains_key(name@),
            },
    {
        proof {
            lemma_clock_map_lookup(self.m_clocks@);
        }
        match self.find(name) {
            Some(i) => {
                assert(clock_map(self.m_clocks@).contains_key(self.m_clocks@[i as int]@.name));
                Some(&self.m_clocks[i])
            },
            None => None,
        }
    }

    /// Mutable access to the clock named `name`. The clockwork stays
    /// well formed as long as the clock keeps its name.
    pub fn get_clock_mut(&mut self, name: &str) -> (r: Option<&mut Clock>)
        requires
            old(self).wf(),
        ensures
            match r {
                Some(c) => {
                    &&& old(self)@.clocks.contains_key(name@)
                    &&& old(self)@.clocks[name@] == (*c)@
                    &&& final(c)@.name == name@ ==> {
                        &&& final(self).wf()
                        &&& final(self)@.clocks == old(self)@.clocks.insert(name@, final(c)@)
                        &&& final(self)@.active == old(self)@.active
                        &&& final(self)@ == clockwork_step(old(self)@, ClockworkOp::Replace(name@, final(c)@))
                    }
                },
                None => {
                    &&& !old(self)@.clocks.contains_key(name@)
                    &&& final(self)@ == old(self)@
                    &&& final(self).wf()
                },
            },
    {
        proof {
            lemma_clock_map_lookup(self.m_clocks@);
        }
        match self.find(name) {
            Some(i) => {
                assert(clock_map(self.m_clocks@).contains_key(self.m_clocks@[i as int]@.name));
                let ghost before = self.m_clocks@;
                let c = &mut self.m_clocks[i];
                proof {
                    assert forall|d: Clock| d@.name == name@ implies #[trigger] clock_map(
                        before.update(i as int, d),
                    ) == clock_map(before).insert(name@, d@) && names_unique(
                        before.update(i as int, d),
                    ) by {
                        lemma_clock_map_update(before, i as int, d);
                    }
                }
                Some(c)
            },
            None => None,
        }
    }

    /// Makes `name` the active clock when there is a clock of that name.
    pub fn set_active(&mut self, name: &str) -> (r: bool)
        requires
            old(self).wf(),
        ensures
            final(self).wf(),
            r == old(self)@.clocks.contains_key(name@),
            final(self)@.clocks == old(self)@.clocks,
            final(self)@.active == if r { Some(name@) } else { old(self)@.active },
            final(self)@ == clockwork_step(old(self)@, ClockworkOp::SetActive(name@)),
    {
        match self.find(name) {
            Some(i) => {
                proof {
                    lemma_clock_map_lookup(self.m_clocks@);
                }
                self.m_active_clock = Some(name.to_owned());
                true
            },
            None => false,
        }
    }

    pub fn active_clock(&self) -> (r: Option<&Clock>)
        requires
            self.wf(),
        ensures
            match self@.active {
                Some(n) => r matches Some(c) && c@ == self@.clocks[n],
                None => r is None,
            },
    {
        match &self.m_active_clock {
            Some(n) => {
                let c = self.get_clock(n.as_str());
                c
            },
            None => None,
        }
    }

    /// The time of the active clock when the system clock reads `sys_now`, or
    /// `sys_now` itself when there is no active clock or it was never set.
    pub fn now_at(&self, sys_now: TimePoint) -> (r: TimePoint)
        requires
            self.wf(),
            in_range(sys_now),
        ensures
            r.nanos == match self@.active {
                Some(n) => if self@.clocks[n].initialized {
                    sys_now.nanos + self@.clocks[n].offset
                } else {
                    sys_now.nanos as int
                },
                None => sys_now.nanos as int,
            },
    {
        match self.active_clock() {
            Some(clock) => {
                if clock.is_initialized() {
                    clock.now_at(sys_now)
                } else {
                    sys_now
                }
            },
            None => sys_now,
        }
    }

    /// Get current time from the active clock, or system time if none.
    pub fn now(&self) -> (r: TimePoint)
        requires
            self.wf(),
        ensures
            exists|s: TimePoint| in_range(s) && r.nanos == match self@.active {
                Some(n) => if self@.clocks[n].initialized {
                    s.nanos + self@.clocks[n].offset
                } else {
                    s.nanos as int
                },
                None => s.nanos as int,
            },
    {
        let s = system_now();
        self.now_at(s)
    }

    /// Update a clock from an incoming data timestamp, as seen when the
    /// system clock reads `now`; a clock of that name is created when there
    /// is none.
    pub fn update_clock_at(&mut self, clock_name: &str, external_time: TimePoint, now: TimePoint)
        requires
            old(self).wf(),
            in_range(external_time),
            in_range(now),
        ensures
            final(self).wf(),
            final(self)@.active == old(self)@.active,
            final(self)@.clocks == old(self)@.clocks.insert(
                clock_name@,
                ClockModel {
                    name: clock_name@,
                    offset: external_time.nanos - now.nanos,
                    last_update: now.nanos as int,
                    initialized: true,
                },
            ),
            final(self)@ == clockwork_step(
                old(self)@,
                ClockworkOp::Replace(
                    clock_name@,
                    ClockModel {
                        name: clock_name@,
                        offset: external_time.nanos - now.nanos,
                        last_update: now.nanos as int,
                        initialized: true,
                    },
                ),
            ),
    {
        proof {
            lemma_clock_map_lookup(self.m_clocks@);
        }
        match self.find(clock_name) {
            Some(i) => {
                let mut clock = self.m_clocks[i].clone();
                clock.set_offset_from_timestamp_at(external_time, now);
                proof {
                    lemma_clock_map_update(self.m_clocks@, i as int, clock);
                }
                self.m_clocks.set(i, clock);
            },
            None => {
                let mut clock = Clock::new(clock_name);
                clock.set_offset_from_timestamp_at(external_time, now);
                let ghost before = self.m_clocks@;
                self.m_clocks.push(clock);
                proof {
                    assert(self.m_clocks@.drop_last() =~= before);
                    assert forall|a: int, b: int|
                        0 <= a < b < self.m_clocks@.len() implies self.m_clocks@[a]@.name
                        != self.m_clocks@[b]@.name by {
                        if b == before.len() {
                            assert(self.m_clocks@[a] == before[a]);
                        } else {
                            assert(self.m_clocks@[a] == before[a] && self.m_clocks@[b] == before[b]);
                        }
                    }
                }
            },
        }
        proof {
            lemma_clock_map_lookup(self.m_clocks@);
        }
    }

    /// Update a clock from an incoming data timestamp.
    pub fn update_clock(&mut self, clock_name: &str, external_time: TimePoint)
        requires
            old(self).wf(),
            in_range(external_time),
        ensures
            final(self).wf(),
            final(self)@.active == old(self)@.active,
            exists|now: TimePoint|
                in_range(now) && final(self)@.clocks == old(self)@.clocks.insert(
                    clock_name@,
                    ClockModel {
                        name: clock_name@,
                        offset: external_time.nanos - now.nanos,
                        last_update: now.nanos as int,
                        initialized: true,
                    },
                ) && final(self)@ == clockwork_step(
                    old(self)@,
                    ClockworkOp::Replace(
                        clock_name@,
                        ClockModel {
                            name: clock_name@,
                            offset: external_time.nanos - now.nanos,
                            last_update: now.nanos as int,
                            initialized: true,
                        },
                    ),
                ),
    {
        let now = system_now();
        self.update_clock_at(clock_name, external_time, now);
    }

    /// The names of all clocks, each once.
    pub fn clock_names(&self) -> (r: Vec<&str>)
        requires
            self.wf(),
        ensures
            forall|n: Seq<char>|
                self@.clocks.contains_key(n) <==> exists|i: int| 0 <= i < r@.len() && r@[i]@ == n,
            forall|i: int, j: int| 0 <= i < j < r@.len() ==> r@[i]@ != r@[j]@,
    {
        let mut r: Vec<&str> = Vec::new();
        let mut i: usize = 0;
        while i < self.m_clocks.len()
            invariant
                i <= self.m_clocks@.len(),
                names_unique(self.m_clocks@),
                r@.len() == i,
                forall|j: int| 0 <= j < i ==> r@[j]@ == self.m_clocks@[j]@.name,
            decreases self.m_clocks.len() - i,
        {
            r.push(self.m_clocks[i].name());
            i = i + 1;
        }
        proof {
            lemma_clock_map_lookup(self.m_clocks@);
            assert forall|n: Seq<char>| self@.clocks.contains_key(n) implies exists|i: int|
                0 <= i < r@.len() && r@[i]@ == n by {
                let k = choose|k: int| 0 <= k < self.m_clocks@.len() && self.m_clocks@[k]@.name == n;
                assert(r@[k]@ == n);
            }
            assert forall|n: Seq<char>| (exists|i: int| 0 <= i < r@.len() && r@[i]@ == n) implies self@.clocks.contains_key(n) by {
                let k = choose|k: int| 0 <= k < r@.len() && r@[k]@ == n;
                assert(clock_map(self.m_clocks@).contains_key(self.m_clocks@[k]@.name));
            }
        }
        r
    }
}


impl Default for Clockwork {
    /// A clockwork without clocks.
    fn default() -> (r: Self)
        ensures
            r.wf(),
            r@.clocks == Map::<Seq<char>, ClockModel>::empty(),
            r@.active is None,
    {
        Clockwork::new()
    }
}

/// Nanoseconds from the epoch to `tp`, zero for a point before the epoch,
/// cut to 64 bits as an `as i64` cast does.
pub fn timepoint_to_nanos(tp: TimePoint) -> (r: i64)
    requires
        in_range(tp),
    ensures
        r == (if tp.nanos >= 0 {
            tp.nanos as i64
        } else {
            0i64
        }),
{
    if tp.nanos >= 0 {
        tp.nanos as i64
    } else {
        0
    }
}

/// The point `nanos` nanoseconds after the epoch; negative counts give the
/// epoch itself.
pub fn nanos_to_timepoint(nanos: i64) -> (r: TimePoint)
    ensures
        r.nanos == (if nanos >= 0 {
            nanos as int
        } else {
            0
        }),
        in_range(r),
{
    if nanos >= 0 {
        TimePoint { nanos: nanos as i128 }
    } else {
        TimePoint { nanos: 0 }
    }
}


/// The time a clock with model `m` reads when the system clock reads `sys`.
pub open spec fn clock_reading(m: ClockModel, sys: int) -> int {
    sys + m.offset
}

/// A clock set from a timestamp reads that timestamp at the moment it was
/// set, and from then on runs at the pace of the system clock.
pub proof fn law_clock_reads_back(name: Seq<char>, external: TimePoint, now: TimePoint, s1: int, s2: int)
    requires
        in_range(external),
        in_range(now),
    ensures
        ({
            let m = ClockModel {
                name,
                offset: external.nanos - now.nanos,
                last_update: now.nanos as int,
                initialized: true,
            };
            &&& clock_reading(m, now.nanos as int) == external.nanos
            &&& clock_reading(m, s2) - clock_reading(m, s1) == s2 - s1
        }),
{
}

/// After `k` ticks from its base a tick clock reads its base time plus `k`
/// intervals (for fewer than 2^32 ticks); each tick moves it on by one
/// interval.
pub proof fn law_tick_clock_advances(m: TickClockModel, k: int)
    requires
        0 <= k < 0x1_0000_0000 - 1,
        m.ticks == k,
    ensures
        m.base + m.interval * (m.ticks % 0x1_0000_0000) == m.base + m.interval * k,
        (m.base + m.interval * ((m.ticks + 1) % 0x1_0000_0000)) - (m.base + m.interval * (m.ticks
            % 0x1_0000_0000)) == m.interval,
{
    assert(m.ticks % 0x1_0000_0000 == k);
    assert((m.ticks + 1) % 0x1_0000_0000 == k + 1);
    assert(m.interval * (k + 1) == m.interval * k + m.interval) by (nonlinear_arith);
}


/// A clockwork whose clock `name` was updated from the timestamp
/// `external` when the system clock read `now` reads `external` at that
/// moment once that clock is active, and other clocks keep what they held.
pub proof fn law_clockwork_update_reads_back(
    cw: ClockworkModel,
    name: Seq<char>,
    other: Seq<char>,
    external: TimePoint,
    now: TimePoint,
)
    requires
        in_range(external),
        in_range(now),
        other != name,
    ensures
        ({
            let clocks = cw.clocks.insert(
                name,
                ClockModel {
                    name,
                    offset: external.nanos - now.nanos,
                    last_update: now.nanos as int,
                    initialized: true,
                },
            );
            &&& clocks.contains_key(name)
            &&& clocks[name].initialized
            &&& clock_reading(clocks[name], now.nanos as int) == external.nanos
            &&& clocks.contains_key(other) == cw.clocks.contains_key(other)
            &&& cw.clocks.contains_key(other) ==> clocks[other] == cw.clocks[other]
        }),
{
}


/// In a well-formed clockwork every clock is kept under its own name, and
/// the active clock, when there is one, is one of its clocks.
pub proof fn lemma_clockwork_names(cw: &Clockwork)
    requires
        cw.wf(),
    ensures
        forall|n: Seq<char>| #[trigger] cw@.clocks.contains_key(n) ==> cw@.clocks[n].name == n,
        cw@.active matches Some(a) ==> cw@.clocks.contains_key(a),
{
    lemma_clock_map_lookup(cw.m_clocks@);
    assert forall|n: Seq<char>| #[trigger] cw@.clocks.contains_key(n) implies cw@.clocks[n].name == n by {
        let i = choose|i: int| 0 <= i < cw.m_clocks@.len() && cw.m_clocks@[i]@.name == n;
    }
}

/// After a successful `set_active(n)` the active clock is the clock named
/// `n`; and whenever a clock is active its name is among the clock names.
pub proof fn law_active_clock_is_a_clock(cw: &Clockwork, n: Seq<char>)
    requires
        cw.wf(),
        cw@.active == Some(n),
    ensures
        cw@.clocks.contains_key(n),
        cw@.clocks[n].name == n,
{
    lemma_clockwork_names(cw);
}

} // verus!
