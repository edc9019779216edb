use vstd::prelude::*;
use crate::savestate::{
    be_u16_at, bool_byte, byte_at, child_appended, contains_named, cursor_after, fits, found,
    lemma_found_appended, lemma_read_back_u16, missing, read_from, u16_be_bytes, Save,
    SaveStateError, Section,
};

verus! {

/// A down-counting divider: it counts from `period` down to zero and
/// reloads, reporting a clock pulse each time it reloads.
pub struct Timer {
    pub counter: u16,
    pub period: u16,
}

impl Default for Timer {
    fn default() -> (t: Timer)
        ensures
            t.counter == 0,
            t.period == 0,
    {
        Timer { counter: 0, period: 0 }
    }
}

impl Timer {
    /// Clocks the divider once; returns `true` when it wrapped and reloaded.
    #[inline]
    pub fn step(&mut self) -> (clocked: bool)
        ensures
            clocked == (old(self).counter == 0),
            *final(self) == timer_stepped(*old(self)),
            final(self).period == old(self).period,
            final(self).counter == if old(self).counter == 0 {
                old(self).period as int
            } else {
                old(self).counter - 1
            },
    {
        if self.counter == 0 {
            self.counter = self.period;
            true
        } else {
            self.counter -= 1;
            false
        }
    }
}

/// Length-counter reload values, indexed by the 5-bit value written to a
/// channel's length register.
pub const LENGTH_LOOKUP: [u8; 32] = [
    10, 254, 20, 2, 40, 4, 80, 6,
    160, 8, 60, 10, 14, 12, 26, 14,
    12, 16, 24, 18, 48, 20, 96, 22,
    192, 24, 72, 26, 16, 28, 32, 30,
];

/// The timer after one clock.
pub open spec fn timer_stepped(t: Timer) -> Timer {
    if t.counter == 0 {
        Timer { counter: t.period, ..t }
    } else {
        Timer { counter: (t.counter - 1) as u16, ..t }
    }
}

/// The timer after `n` clocks.
pub open spec fn timer_after(t: Timer, n: nat) -> Timer
    decreases n,
{
    if n == 0 {
        t
    } else {
        timer_stepped(timer_after(t, (n - 1) as nat))
    }
}

/// Where the counter stands after `i` clocks, counting down from `c` to 0
/// and then from the period.
proof fn lemma_timer_after(t: Timer, i: nat)
    requires
        t.counter <= t.period,
        i <= t.period + 1,
    ensures
        timer_after(t, i).period == t.period,
        timer_after(t, i).counter == if i <= t.counter {
            t.counter - i
        } else {
            t.period - (i - t.counter - 1)
        },
    decreases i,
{
    if i > 0 {
        lemma_timer_after(t, (i - 1) as nat);
    }
}

/// A timer whose counter is at most its period wraps exactly once in any
/// `period + 1` consecutive clocks: `step` returns `true` on the clock
/// numbered by the counter (from 0), when the counter has run down to 0,
/// and on no other; the period never changes.
pub proof fn law_timer_wraps_once(t: Timer)
    requires
        t.counter <= t.period,
    ensures
        forall|i: nat| i <= t.period ==> (#[trigger] timer_after(t, i).counter == 0 <==> i == t.counter),
        forall|i: nat| #[trigger] timer_after(t, i).period == t.period,
{
    assert forall|i: nat| i <= t.period implies (#[trigger] timer_after(t, i).counter == 0 <==> i == t.counter) by {
        lemma_timer_after(t, i);
    }
    assert forall|i: nat| #[trigger] timer_after(t, i).period == t.period by {
        lemma_timer_period(t, i);
    }
}

proof fn lemma_timer_period(t: Timer, i: nat)
    ensures
        timer_after(t, i).period == t.period,
    decreases i,
{
    if i > 0 {
        lemma_timer_period(t, (i - 1) as nat);
    }
}

/// The length counter after one half-frame clock.
pub open spec fn length_stepped(l: LengthCounter) -> LengthCounter {
    if l.enabled && l.counter > 0 {
        LengthCounter { counter: (l.counter - 1) as u8, ..l }
    } else {
        l
    }
}

/// Silences a channel once a programmed number of half-frames has elapsed.
pub struct LengthCounter {
    pub enabled: bool,
    pub counter: u8,
}

impl Default for LengthCounter {
    fn default() -> (l: LengthCounter)
        ensures
            !l.enabled,
            l.counter == 0,
    {
        LengthCounter { enabled: false, counter: 0 }
    }
}

impl LengthCounter {
    #[inline]
    pub fn reset_to_zero(&mut self)
        ensures
            final(self).counter == 0,
            final(self).enabled == old(self).enabled,
    {
        self.counter = 0;
    }

    /// Counts down by one when enabled (not halted) and not yet at zero.
    #[inline]
    pub fn step(&mut self)
        ensures
            *final(self) == length_stepped(*old(self)),
            final(self).enabled == old(self).enabled,
            final(self).counter == if old(self).enabled && old(self).counter > 0 {
                old(self).counter - 1
            } else {
                old(self).counter as int
            },
    {
        if self.enabled && self.counter > 0 {
            self.counter -= 1;
        }
    }

    /// Loads the counter from the lookup table; only the low five bits of
    /// `val` select the entry.
    #[inline]
    pub fn set(&mut self, val: u8)
        requires
            val < 32,
        ensures
            final(self).counter == LENGTH_LOOKUP@[val as int],
            final(self).enabled == old(self).enabled,
    {
        self.counter = LENGTH_LOOKUP[val as usize];
    }

    #[inline]
    pub fn set_enabled(&mut self, enabled: bool)
        ensures
            final(self).enabled == enabled,
            final(self).counter == old(self).counter,
    {
        self.enabled = enabled;
    }

    #[inline]
    pub fn is_zero(&self) -> (z: bool)
        ensures
            z == (self.counter == 0),
    {
        self.counter == 0
    }
}

/// Volume envelope shared by the pulse and noise channels: either a constant
/// volume or a decaying level that restarts at 15.
pub struct Envelope {
    pub constant_mode: bool,
    pub looping: bool,
    pub start: bool,
    pub constant_volume: u8,
    pub period: u8,
    pub divider: u8,
    pub decay: u8,
}

impl Default for Envelope {
    fn default() -> (e: Envelope)
        ensures
            !e.constant_mode && !e.looping && !e.start,
            e.constant_volume == 0 && e.period == 0 && e.divider == 0 && e.decay == 0,
    {
        Envelope {
            constant_mode: false,
            looping: false,
            start: false,
            constant_volume: 0,
            period: 0,
            divider: 0,
            decay: 0,
        }
    }
}

/// The envelope after one quarter-frame clock.
pub open spec fn envelope_stepped(e: Envelope) -> Envelope {
    if e.start {
        Envelope { start: false, decay: 15, divider: e.period, ..e }
    } else if e.divider == 0 {
        let decay: u8 = if e.decay > 0 {
            (e.decay - 1) as u8
        } else if e.looping {
            15
        } else {
            e.decay
        };
        Envelope { decay, divider: e.period, ..e }
    } else {
        Envelope { divider: (e.divider - 1) as u8, ..e }
    }
}

/// The volume an envelope outputs.
pub open spec fn envelope_volume(e: Envelope) -> u8 {
    if e.constant_mode {
        e.constant_volume
    } else {
        e.decay
    }
}

/// The envelope after `n` clocks.
pub open spec fn envelope_after(e: Envelope, n: nat) -> Envelope
    decreases n,
{
    if n == 0 {
        e
    } else {
        envelope_stepped(envelope_after(e, (n - 1) as nat))
    }
}

/// The envelope's decay only falls, one step per `period + 1` clocks, except
/// that a restart raises it to 15 and a looping envelope wraps from 0 to
/// 15; a constant-volume envelope plays its constant volume whatever the
/// clocks. Between two decay steps the divider counts down by one per clock.
pub proof fn law_envelope_decay(e: Envelope, n: nat)
    ensures
        envelope_stepped(e).decay <= e.decay || e.start || (e.decay == 0 && e.looping),
        !e.start && e.divider > 0 ==> envelope_stepped(e).decay == e.decay
            && envelope_stepped(e).divider == e.divider - 1,
        !e.start && e.divider == 0 && e.decay > 0 ==> envelope_stepped(e).decay == e.decay - 1
            && envelope_stepped(e).divider == e.period,
        e.start ==> envelope_stepped(e).decay == 15 && !envelope_stepped(e).start,
        e.constant_mode ==> envelope_volume(envelope_after(e, n)) == e.constant_volume,
{
    lemma_envelope_settings_kept(e, n);
}

proof fn lemma_envelope_settings_kept(e: Envelope, n: nat)
    ensures
        envelope_after(e, n).constant_mode == e.constant_mode,
        envelope_after(e, n).constant_volume == e.constant_volume,
    decreases n,
{
    if n > 0 {
        lemma_envelope_settings_kept(e, (n - 1) as nat);
    }
}

/// Stepping keeps the decay level within 0..=15, and the volume of an
/// envelope whose levels are in that range is in that range too.
pub proof fn lemma_envelope_bounded(e: Envelope)
    requires
        e.wf(),
    ensures
        envelope_stepped(e).wf(),
        envelope_volume(e) <= 15,
{
}

impl Envelope {
    /// Volumes are four-bit values.
    pub open spec fn wf(&self) -> bool {
        self.decay <= 15 && self.constant_volume <= 15
    }

    pub fn step(&mut self)
        ensures
            *final(self) == envelope_stepped(*old(self)),
    {
        if self.start {
            self.start = false;
            self.decay = 15;
            self.divider = self.period;
        } else if self.divider == 0 {
            if self.decay > 0 {
                self.decay -= 1;
            } else if self.looping {
                self.decay = 15;
            }
            self.divider = self.period;
        } else {
            self.divider -= 1;
        }
    }

    #[inline]
    pub fn output(&self) -> (v: u8)
        ensures
            v == envelope_volume(*self),
    {
        if self.constant_mode {
            self.constant_volume
        } else {
            self.decay
        }
    }
}


impl Save for Timer {
    /// A child section "timer" holding the counter and the period.
    open spec fn saved(&self, before: Section, after: Section) -> bool {
        child_appended(before, after, "timer"@, u16_be_bytes(self.counter) + u16_be_bytes(self.period))
    }

    /// Each field is read back in turn from the section "timer" as long as
    /// its bytes are there.
    open spec fn loaded(
        &self,
        before: Section,
        r: Result<(), SaveStateError>,
        value: Timer,
        after: Section,
    ) -> bool {
        if !contains_named(before, "timer"@) {
            missing(before, "timer"@, r, after) && value == *self
        } else {
            let s = found(before, "timer"@);
            let b = s.data.data@;
            let i = s.data.read_index as int;
            &&& value.counter == if fits(s, 2) { be_u16_at(b, i) } else { self.counter }
            &&& value.period == if fits(s, 4) { be_u16_at(b, i + 2) } else { self.period }
            &&& read_from(before, "timer"@, 4, r, after, cursor_after(s, 4))
        }
    }

    fn save(&self, parent: &mut Section) {
        proof {
            reveal_strlit("timer");
        }
        let ghost before = *parent;
        let s = parent.create_child("timer");
        s.data.write_u16(self.counter);
        s.data.write_u16(self.period);
        assert(parent.children@.drop_last() == before.children@);
    }

    fn load(&mut self, parent: &mut Section) -> (r: Result<(), SaveStateError>) {
        let s = match parent.get("timer") {
            Ok(s) => s,
            Err(e) => return Err(e),
        };
        self.counter = match s.data.read_u16() {
            Ok(v) => v,
            Err(e) => return Err(e),
        };
        self.period = match s.data.read_u16() {
            Ok(v) => v,
            Err(e) => return Err(e),
        };
        Ok(())
    }
}


/// Loading a timer from what saving one appended gives that timer back,
/// whatever the timer loaded into held, where no section of that name came
/// before.
pub proof fn law_timer_save_load(
    t: Timer,
    u: Timer,
    p: Section,
    q: Section,
    r: Result<(), SaveStateError>,
    v: Timer,
    q2: Section,
)
    requires
        !contains_named(p, "timer"@),
        t.saved(p, q),
        u.loaded(q, r, v, q2),
    ensures
        r is Ok,
        v == t,
{
    let bytes = u16_be_bytes(t.counter) + u16_be_bytes(t.period);
    lemma_found_appended(p, q, "timer"@, bytes);
    lemma_read_back_u16(Seq::empty(), t.counter, u16_be_bytes(t.period));
    lemma_read_back_u16(u16_be_bytes(t.counter), t.period, Seq::empty());
    assert(Seq::<u8>::empty() + u16_be_bytes(t.counter) + u16_be_bytes(t.period) == bytes);
    assert(u16_be_bytes(t.counter) + u16_be_bytes(t.period) + Seq::<u8>::empty() == bytes);
}


impl Save for LengthCounter {
    /// A child section "length_counter" holding the enable flag and the
    /// counter.
    open spec fn saved(&self, before: Section, after: Section) -> bool {
        child_appended(before, after, "length_counter"@, seq![bool_byte(self.enabled), self.counter])
    }

    /// Each field is read back in turn from the section "length_counter" as
    /// long as its byte is there.
    open spec fn loaded(
        &self,
        before: Section,
        r: Result<(), SaveStateError>,
        value: LengthCounter,
        after: Section,
    ) -> bool {
        if !contains_named(before, "length_counter"@) {
            missing(before, "length_counter"@, r, after) && value == *self
        } else {
            let s = found(before, "length_counter"@);
            &&& value.enabled == if fits(s, 1) { byte_at(s, 0) != 0 } else { self.enabled }
            &&& value.counter == if fits(s, 2) { byte_at(s, 1) } else { self.counter }
            &&& read_from(before, "length_counter"@, 2, r, after, cursor_after(s, 2))
        }
    }

    fn save(&self, parent: &mut Section) {
        proof {
            reveal_strlit("length_counter");
        }
        let ghost before = *parent;
        let s = parent.create_child("length_counter");
        s.data.write_bool(self.enabled);
        s.data.write_u8(self.counter);
        assert(s.data.data@ == seq![bool_byte(self.enabled), self.counter]);
        assert(parent.children@.drop_last() == before.children@);
    }

    fn load(&mut self, parent: &mut Section) -> (r: Result<(), SaveStateError>) {
        let s = match parent.get("length_counter") {
            Ok(s) => s,
            Err(e) => return Err(e),
        };
        self.enabled = match s.data.read_bool() {
            Ok(v) => v,
            Err(e) => return Err(e),
        };
        self.counter = match s.data.read_u8() {
            Ok(v) => v,
            Err(e) => return Err(e),
        };
        Ok(())
    }
}

/// Loading a length counter from what saving one appended gives it back,
/// where no section of that name came before.
pub proof fn law_length_counter_save_load(
    t: LengthCounter,
    u: LengthCounter,
    p: Section,
    q: Section,
    r: Result<(), SaveStateError>,
    v: LengthCounter,
    q2: Section,
)
    requires
        !contains_named(p, "length_counter"@),
        t.saved(p, q),
        u.loaded(q, r, v, q2),
    ensures
        r is Ok,
        v == t,
{
    lemma_found_appended(p, q, "length_counter"@, seq![bool_byte(t.enabled), t.counter]);
}

impl Save for Envelope {
    /// A child section "envelope" holding the three flags, then the
    /// constant volume, the period, the divider and the decay level.
    open spec fn saved(&self, before: Section, after: Section) -> bool {
        child_appended(
            before,
            after,
            "envelope"@,
            seq![
                bool_byte(self.constant_mode),
                bool_byte(self.looping),
                bool_byte(self.start),
                self.constant_volume,
                self.period,
                self.divider,
                self.decay,
            ],
        )
    }

    /// Each field is read back in turn from the section "envelope" as long
    /// as its byte is there.
    open spec fn loaded(
        &self,
        before: Section,
        r: Result<(), SaveStateError>,
        value: Envelope,
        after: Section,
    ) -> bool {
        if !contains_named(before, "envelope"@) {
            missing(before, "envelope"@, r, after) && value == *self
        } else {
            let s = found(before, "envelope"@);
            &&& value.constant_mode == if fits(s, 1) { byte_at(s, 0) != 0 } else { self.constant_mode }
            &&& value.looping == if fits(s, 2) { byte_at(s, 1) != 0 } else { self.looping }
            &&& value.start == if fits(s, 3) { byte_at(s, 2) != 0 } else { self.start }
            &&& value.constant_volume == if fits(s, 4) { byte_at(s, 3) } else { self.constant_volume }
            &&& value.period == if fits(s, 5) { byte_at(s, 4) } else { self.period }
            &&& value.divider == if fits(s, 6) { byte_at(s, 5) } else { self.divider }
            &&& value.decay == if fits(s, 7) { byte_at(s, 6) } else { self.decay }
            &&& read_from(before, "envelope"@, 7, r, after, cursor_after(s, 7))
        }
    }

    fn save(&self, parent: &mut Section) {
        proof {
            reveal_strlit("envelope");
        }
        let ghost before = *parent;
        let s = parent.create_child("envelope");
        s.data.write_bool(self.constant_mode);
        s.data.write_bool(self.looping);
        s.data.write_bool(self.start);
        s.data.write_u8(self.constant_volume);
        s.data.write_u8(self.period);
        s.data.write_u8(self.divider);
        s.data.write_u8(self.decay);
        assert(s.data.data@ == seq![
            bool_byte(self.constant_mode),
            bool_byte(self.looping),
            bool_byte(self.start),
            self.constant_volume,
            self.period,
            self.divider,
            self.decay,
        ]);
        assert(parent.children@.drop_last() == before.children@);
    }

    fn load(&mut self, parent: &mut Section) -> (r: Result<(), SaveStateError>) {
        let s = match parent.get("envelope") {
            Ok(s) => s,
            Err(e) => return Err(e),
        };
        self.constant_mode = match s.data.read_bool() {
            Ok(v) => v,
            Err(e) => return Err(e),
        };
        self.looping = match s.data.read_bool() {
            Ok(v) => v,
            Err(e) => return Err(e),
        };
        self.start = match s.data.read_bool() {
            Ok(v) => v,
            Err(e) => return Err(e),
        };
        self.constant_volume = match s.data.read_u8() {
            Ok(v) => v,
            Err(e) => return Err(e),
        };
        self.period = match s.data.read_u8() {
            Ok(v) => v,
            Err(e) => return Err(e),
        };
        self.divider = match s.data.read_u8() {
            Ok(v) => v,
            Err(e) => return Err(e),
        };
        self.decay = match s.data.read_u8() {
            Ok(v) => v,
            Err(e) => return Err(e),
        };
        Ok(())
    }
}

/// Loading an envelope from what saving one appended gives it back, where
/// no section of that name came before.
pub proof fn law_envelope_save_load(
    t: Envelope,
    u: Envelope,
    p: Section,
    q: Section,
    r: Result<(), SaveStateError>,
    v: Envelope,
    q2: Section,
)
    requires
        !contains_named(p, "envelope"@),
        t.saved(p, q),
        u.loaded(q, r, v, q2),
    ensures
        r is Ok,
        v == t,
{
    lemma_found_appended(
        p,
        q,
        "envelope"@,
        seq![
            bool_byte(t.constant_mode),
            bool_byte(t.looping),
            bool_byte(t.start),
            t.constant_volume,
            t.period,
            t.divider,
            t.decay,
        ],
    );
}

} // verus!
