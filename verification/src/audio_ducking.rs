//! Output attenuation while recording: the settings, the status shown to
//! the user, which recordings hold the attenuation, and when the engine
//! may touch the output device. The device levels themselves are handled
//! by the platform engine.
use crate::text::chars_of;
use vstd::prelude::*;

verus! {

/// How output is attenuated while recording.
#[derive(Clone, Copy, Debug, PartialEq, Eq, Structural)]
pub enum Mode {
    Off,
    Reduce,
    Mute,
}

impl Default for Mode {
    fn default() -> (r: Self)
        ensures
            r == Mode::Off,
    {
        Mode::Off
    }
}

/// The volume, in percent of the original, that Reduce keeps by default.
pub fn default_volume_percent() -> (r: u8)
    ensures
        r == 20,
{
    20
}

/// The stored settings.
#[derive(Clone, Copy, Debug, PartialEq, Eq, Structural)]
pub struct Config {
    pub mode: Mode,
    pub volume_percent: u8,
}

impl Default for Config {
    /// The settings used when none are stored or they cannot be read.
    fn default() -> (r: Self)
        ensures
            r.mode == Mode::Off,
            r.volume_percent == 20,
    {
        Config { mode: Mode::Off, volume_percent: default_volume_percent() }
    }
}

/// What the settings screen shows.
pub struct Status {
    pub mode: Mode,
    pub volume_percent: u8,
    pub active: bool,
    pub warning: Option<String>,
    pub recovery_pending: bool,
}

/// The status at start-up: the stored mode and volume, the volume capped at
/// 100, nothing active yet.
pub fn initial_status(config: Config) -> (r: Status)
    ensures
        r.mode == config.mode,
        r.volume_percent == if config.volume_percent > 100 {
            100
        } else {
            config.volume_percent
        },
        !r.active,
        r.warning is None,
        !r.recovery_pending,
{
    Status {
        mode: config.mode,
        volume_percent: if config.volume_percent > 100 {
            100
        } else {
            config.volume_percent
        },
        active: false,
        warning: None,
        recovery_pending: false,
    }
}

/// Records the outcome of an engine operation: whether attenuation is now
/// active, and the warning to show. A success clears any warning; a
/// failure replaces it.
pub fn update_status(status: &mut Status, active: bool, result: Result<(), String>)
    ensures
        final(status).active == active,
        final(status).mode == old(status).mode,
        final(status).volume_percent == old(status).volume_percent,
        final(status).recovery_pending == old(status).recovery_pending,
        result is Ok ==> final(status).warning is None,
        result matches Err(e) ==> final(status).warning == Some(e),
{
    status.active = active;
    match result {
        Ok(()) => {
            status.warning = None;
        },
        Err(error) => {
            status.warning = Some(error);
        },
    }
}

pub open spec fn volume_range_message() -> Seq<char> {
    "Volume percentage must be between 0 and 100"@
}

/// New settings from the settings screen. A missing volume keeps the
/// current one; a volume above 100 is refused.
pub fn settings_change(current: &Status, mode: Mode, volume_percent: Option<u8>) -> (r: Result<
    Config,
    String,
>)
    ensures
        ({
            let v = match volume_percent {
                Some(v) => v,
                None => current.volume_percent,
            };
            &&& v > 100 ==> (r matches Err(m) && m@ == volume_range_message())
            &&& v <= 100 ==> r == Ok::<Config, String>(Config { mode, volume_percent: v })
        }),
{
    let v = match volume_percent {
        Some(v) => v,
        None => current.volume_percent,
    };
    if v > 100 {
        return Err(String::from_str("Volume percentage must be between 0 and 100"));
    }
    Ok(Config { mode, volume_percent: v })
}

/// Applies accepted settings to the status; the result says whether the
/// engine must be told to stop attenuating now.
pub fn apply_settings(status: &mut Status, config: Config) -> (disable: bool)
    ensures
        final(status).mode == config.mode,
        final(status).volume_percent == config.volume_percent,
        final(status).active == old(status).active,
        final(status).warning == old(status).warning,
        final(status).recovery_pending == old(status).recovery_pending,
        disable == (config.mode == Mode::Off),
{
    status.mode = config.mode;
    status.volume_percent = config.volume_percent;
    config.mode == Mode::Off
}

/// The recordings that currently want attenuation. Attenuation starts
/// with the first and ends with the last. The names are kept in a vector
/// viewed as a set: vstd gives `HashSet<String>` no key model, so nothing
/// could be proved of its `insert` or `remove`.
pub struct Owners {
    names: Vec<String>,
}

pub open spec fn names_of(v: Seq<String>) -> Set<Seq<char>> {
    Set::new(|n: Seq<char>| exists|i: int| 0 <= i < v.len() && #[trigger] v[i]@ == n)
}

impl View for Owners {
    type V = Set<Seq<char>>;

    closed spec fn view(&self) -> Set<Seq<char>> {
        names_of(self.names@)
    }
}

fn index_of(names: &Vec<String>, owner: &str) -> (r: Option<usize>)
    ensures
        r matches Some(i) ==> i < names@.len() && names@[i as int]@ == owner@,
        r is None ==> !names_of(names@).contains(owner@),
{
    let o = chars_of(owner);
    let mut i: usize = 0;
    while i < names.len()
        invariant
            o@ == owner@,
            i <= names@.len(),
            forall|k: int| 0 <= k < i ==> names@[k]@ != owner@,
        decreases names@.len() - i,
    {
        let c = chars_of(names[i].as_str());
        if crate::text::eq_lit(&c, owner) {
            return Some(i);
        }
        i = i + 1;
    }
    None
}

impl Owners {
    pub fn new() -> (r: Self)
        ensures
            r@ == Set::<Seq<char>>::empty(),
    {
        let r = Owners { names: Vec::new() };
        assert(r@ =~= Set::<Seq<char>>::empty());
        r
    }

    /// Adds `owner`; the result says whether it is the first.
    pub fn begin(&mut self, owner: &str) -> (first: bool)
        ensures
            final(self)@ == old(self)@.insert(owner@),
            first == (old(self)@ == Set::<Seq<char>>::empty()),
    {
        let first = self.names.len() == 0;
        proof {
            if self.names@.len() > 0 {
                assert(self@.contains(self.names@[0]@));
            } else {
                assert(self@ =~= Set::<Seq<char>>::empty());
            }
        }
        match index_of(&self.names, owner) {
            Some(_) => {
                assert(self@.insert(owner@) =~= self@);
            },
            None => {
                let ghost before = self.names@;
                self.names.push(String::from_str(owner));
                proof {
                    assert forall|n: Seq<char>| #[trigger]
                        self@.contains(n) == names_of(before).insert(owner@).contains(n) by {
                        if names_of(before).contains(n) {
                            let i = choose|i: int| 0 <= i < before.len() && #[trigger] before[i]@ == n;
                            assert(self.names@[i]@ == n);
                        }
                        if n == owner@ {
                            assert(self.names@[before.len() as int]@ == n);
                        }
                        if self@.contains(n) {
                            let i = choose|i: int|
                                0 <= i < self.names@.len() && #[trigger] self.names@[i]@ == n;
                            if i < before.len() {
                                assert(before[i]@ == n);
                            }
                        }
                    }
                    assert(self@ =~= names_of(before).insert(owner@));
                }
            },
        }
        first
    }

    /// Removes `owner`; the result says whether none is left.
    pub fn end(&mut self, owner: &str) -> (last: bool)
        ensures
            final(self)@ == old(self)@.remove(owner@),
            last == (final(self)@ == Set::<Seq<char>>::empty()),
    {
        let ghost before = self.names@;
        let mut kept: Vec<String> = Vec::new();
        let o = chars_of(owner);
        let mut i: usize = 0;
        while i < self.names.len()
            invariant
                o@ == owner@,
                self.names@ == before,
                i <= before.len(),
                names_of(kept@) == names_of(before.subrange(0, i as int)).remove(owner@),
            decreases before.len() - i,
        {
            let c = chars_of(self.names[i].as_str());
            let same = crate::text::eq_lit(&c, owner);
            let ghost prev = kept@;
            if !same {
                kept.push(self.names[i].clone());
            }
            proof {
                let sub = before.subrange(0, i + 1);
                assert forall|n: Seq<char>| #[trigger]
                    names_of(kept@).contains(n) == names_of(sub).remove(owner@).contains(n) by {
                    if names_of(sub).contains(n) && n != owner@ {
                        let j = choose|j: int| 0 <= j < sub.len() && #[trigger] sub[j]@ == n;
                        if j < i {
                            assert(before.subrange(0, i as int)[j] == sub[j]);
                            assert(names_of(before.subrange(0, i as int)).contains(n));
                            assert(names_of(prev).contains(n));
                            let k = choose|k: int| 0 <= k < prev.len() && #[trigger] prev[k]@ == n;
                            assert(kept@[k] == prev[k]);
                        } else {
                            assert(!same);
                            assert(kept@[prev.len() as int]@ == n);
                        }
                    }
                    if names_of(kept@).contains(n) {
                        let k = choose|k: int| 0 <= k < kept@.len() && #[trigger] kept@[k]@ == n;
                        if k < prev.len() {
                            assert(prev[k] == kept@[k]);
                            assert(names_of(prev).contains(n));
                            let j = choose|j: int|
                                0 <= j < i && #[trigger] before.subrange(0, i as int)[j]@ == n;
                            assert(sub[j] == before.subrange(0, i as int)[j]);
                        } else {
                            assert(sub[i as int] == before[i as int]);
                        }
                    }
                }
                assert(names_of(kept@) =~= names_of(sub).remove(owner@));
            }
            i = i + 1;
        }
        assert(before.subrange(0, before.len() as int) =~= before);
        self.names = kept;
        let last = self.names.len() == 0;
        proof {
            if self.names@.len() > 0 {
                assert(self@.contains(self.names@[0]@));
            } else {
                assert(self@ =~= Set::<Seq<char>>::empty());
            }
        }
        last
    }
}

/// The engine's control state: the active mode, the volume it reduces to,
/// whether a recovery record is pending, and how many automatic restore
/// attempts remain.
#[derive(Clone, Copy, Debug, PartialEq, Eq, Structural)]
pub struct Schedule {
    pub mode: Mode,
    pub volume_percent: u8,
    pub pending: bool,
    pub restore_retries: u8,
}

/// What a request to start attenuating leads to.
#[derive(Clone, Copy, Debug, PartialEq, Eq, Structural)]
pub enum BeginStep {
    /// The volume is out of range; nothing is touched.
    Reject,
    /// Attenuation is already active; a second start never compounds it.
    AlreadyActive,
    /// Attenuation is switched off; the device is not touched.
    Disabled,
    /// Recover any previous change, then attenuate.
    Recover,
}

/// What an idle tick does.
#[derive(Clone, Copy, Debug, PartialEq, Eq, Structural)]
pub enum TickPlan {
    /// Nothing to do.
    Idle,
    /// Try once more to restore the recorded levels.
    RetryRestore,
    /// Attenuating: follow the default output device.
    Follow,
}

/// Automatic restore attempts granted after a recovery or an end.
pub const RESTORE_RETRIES: u8 = 4;

pub open spec fn tick_spec(s: Schedule) -> (Schedule, TickPlan) {
    if s.mode == Mode::Off {
        if s.pending && s.restore_retries > 0 {
            (Schedule { restore_retries: (s.restore_retries - 1) as u8, ..s }, TickPlan::RetryRestore)
        } else {
            (s, TickPlan::Idle)
        }
    } else {
        (s, TickPlan::Follow)
    }
}

pub open spec fn has_work(s: Schedule) -> bool {
    s.mode != Mode::Off || (s.pending && s.restore_retries > 0)
}

/// Idle ticks after which restoring keeps failing: the pending record stays.
pub open spec fn failed_ticks(s: Schedule, n: nat) -> Schedule
    decreases n,
{
    if n == 0 {
        s
    } else {
        tick_spec(failed_ticks(s, (n - 1) as nat)).0
    }
}

impl Schedule {
    pub fn new() -> (r: Self)
        ensures
            r == (Schedule { mode: Mode::Off, volume_percent: 20, pending: false, restore_retries: 0 }),
    {
        Schedule { mode: Mode::Off, volume_percent: 20, pending: false, restore_retries: 0 }
    }

    /// Decides a request to start attenuating; only `Recover` lets the
    /// engine touch the device.
    pub fn begin(&self, mode: Mode, volume_percent: u8) -> (r: BeginStep)
        ensures
            volume_percent > 100 ==> r == BeginStep::Reject,
            volume_percent <= 100 && self.mode != Mode::Off ==> r == BeginStep::AlreadyActive,
            volume_percent <= 100 && self.mode == Mode::Off && mode == Mode::Off ==> r
                == BeginStep::Disabled,
            volume_percent <= 100 && self.mode == Mode::Off && mode != Mode::Off ==> r
                == BeginStep::Recover,
    {
        if volume_percent > 100 {
            BeginStep::Reject
        } else if self.mode != Mode::Off {
            BeginStep::AlreadyActive
        } else if mode == Mode::Off {
            BeginStep::Disabled
        } else {
            BeginStep::Recover
        }
    }

    /// A recovery starts with a fresh allowance of restore attempts.
    pub fn recovering(&mut self)
        ensures
            *final(self) == (Schedule { restore_retries: RESTORE_RETRIES, ..*old(self) }),
    {
        self.restore_retries = RESTORE_RETRIES;
    }

    /// Recovery succeeded and attenuation starts in `mode`.
    pub fn started(&mut self, mode: Mode, volume_percent: u8)
        ensures
            *final(self) == (Schedule { mode, volume_percent, ..*old(self) }),
    {
        self.mode = mode;
        self.volume_percent = volume_percent;
    }

    /// A recovery record was written before the device was changed.
    pub fn journaled(&mut self)
        ensures
            *final(self) == (Schedule { pending: true, ..*old(self) }),
    {
        self.pending = true;
    }

    /// The recorded levels were restored, or the record was left behind for
    /// another output device: nothing is pending and no retry remains.
    pub fn restored(&mut self)
        ensures
            *final(self) == (Schedule { pending: false, restore_retries: 0, ..*old(self) }),
    {
        self.pending = false;
        self.restore_retries = 0;
    }

    /// Recording ended: attenuation stops and restoring may be retried.
    pub fn end(&mut self)
        ensures
            *final(self) == (Schedule {
                mode: Mode::Off,
                restore_retries: RESTORE_RETRIES,
                ..*old(self)
            }),
    {
        self.mode = Mode::Off;
        self.restore_retries = RESTORE_RETRIES;
    }

    /// A failed tick stops attenuating.
    pub fn failed(&mut self)
        ensures
            *final(self) == (Schedule { mode: Mode::Off, ..*old(self) }),
    {
        self.mode = Mode::Off;
    }

    pub fn has_tick_work(&self) -> (r: bool)
        ensures
            r == has_work(*self),
    {
        self.mode != Mode::Off || (self.pending && self.restore_retries > 0)
    }

    /// A recovery record waits while attenuation is off.
    pub fn recovery_pending(&self) -> (r: bool)
        ensures
            r == (self.mode == Mode::Off && self.pending),
    {
        self.mode == Mode::Off && self.pending
    }

    /// Plans an idle tick, spending one restore attempt when it retries.
    pub fn tick(&mut self) -> (r: TickPlan)
        ensures
            (*final(self), r) == tick_spec(*old(self)),
    {
        if self.mode == Mode::Off {
            if self.pending && self.restore_retries > 0 {
                self.restore_retries = self.restore_retries - 1;
                TickPlan::RetryRestore
            } else {
                TickPlan::Idle
            }
        } else {
            TickPlan::Follow
        }
    }
}

/// Once attenuation is off, a restore that keeps failing is retried at most
/// as many times as attempts remain; then ticks have no work, while the
/// recovery record stays pending for the next recovery.
pub proof fn lemma_restore_retries_are_bounded(s: Schedule, n: nat)
    requires
        s.mode == Mode::Off,
        n <= s.restore_retries,
    ensures
        s.pending ==> failed_ticks(s, n) == (Schedule {
            restore_retries: (s.restore_retries - n) as u8,
            ..s
        }),
        !s.pending ==> failed_ticks(s, n) == s,
        n == s.restore_retries ==> !has_work(failed_ticks(s, n)),
        s.pending && n < s.restore_retries ==> tick_spec(failed_ticks(s, n)).1
            == TickPlan::RetryRestore,
    decreases n,
{
    if n > 0 {
        lemma_restore_retries_are_bounded(s, (n - 1) as nat);
    }
}

/// After an end, exactly the granted number of retries are attempted.
pub proof fn lemma_end_grants_bounded_retries(s: Schedule)
    requires
        s.pending,
    ensures
        ({
            let e = Schedule { mode: Mode::Off, restore_retries: RESTORE_RETRIES, ..s };
            &&& has_work(e)
            &&& !has_work(failed_ticks(e, RESTORE_RETRIES as nat))
            &&& failed_ticks(e, RESTORE_RETRIES as nat).pending
        }),
{
    let e = Schedule { mode: Mode::Off, restore_retries: RESTORE_RETRIES, ..s };
    lemma_restore_retries_are_bounded(e, RESTORE_RETRIES as nat);
}


/// The output devices already attenuated during the current recording: a
/// device is changed at most once per recording, also after a manual
/// adjustment or a switch away and back.
pub struct Visited {
    ids: Vec<String>,
}

impl View for Visited {
    type V = Set<Seq<char>>;

    closed spec fn view(&self) -> Set<Seq<char>> {
        names_of(self.ids@)
    }
}

impl Visited {
    pub fn new() -> (r: Self)
        ensures
            r@ == Set::<Seq<char>>::empty(),
    {
        let r = Visited { ids: Vec::new() };
        assert(r@ =~= Set::<Seq<char>>::empty());
        r
    }

    /// A new recording starts with no device visited.
    pub fn clear(&mut self)
        ensures
            final(self)@ == Set::<Seq<char>>::empty(),
    {
        self.ids = Vec::new();
        assert(self@ =~= Set::<Seq<char>>::empty());
    }

    /// Records a visit to `id`; the result says whether it is the first in
    /// this recording, the only visit on which the device is changed.
    pub fn first_visit(&mut self, id: &str) -> (first: bool)
        ensures
            final(self)@ == old(self)@.insert(id@),
            first == !old(self)@.contains(id@),
    {
        match index_of(&self.ids, id) {
            Some(i) => {
                assert(self@.contains(self.ids@[i as int]@));
                assert(self@.insert(id@) =~= self@);
                false
            },
            None => {
                let ghost before = self.ids@;
                self.ids.push(String::from_str(id));
                proof {
                    assert forall|n: Seq<char>| #[trigger]
                        self@.contains(n) == names_of(before).insert(id@).contains(n) by {
                        if names_of(before).contains(n) {
                            let i = choose|i: int| 0 <= i < before.len() && #[trigger] before[i]@ == n;
                            assert(self.ids@[i]@ == n);
                        }
                        if n == id@ {
                            assert(self.ids@[before.len() as int]@ == n);
                        }
                        if self@.contains(n) {
                            let i = choose|i: int| 0 <= i < self.ids@.len() && #[trigger] self.ids@[i]@ == n;
                            if i < before.len() {
                                assert(before[i]@ == n);
                            }
                        }
                    }
                    assert(self@ =~= names_of(before).insert(id@));
                }
                true
            },
        }
    }
}

/// The devices visited after `ids`, starting from `seen`.
pub open spec fn seen_after(seen: Set<Seq<char>>, ids: Seq<Seq<char>>) -> Set<Seq<char>>
    decreases ids.len(),
{
    if ids.len() == 0 {
        seen
    } else {
        seen_after(seen, ids.drop_last()).insert(ids.last())
    }
}

/// What `first_visit` answers for each of the visits `ids`, starting from
/// `seen`.
pub open spec fn visit_answers(seen: Set<Seq<char>>, ids: Seq<Seq<char>>) -> Seq<bool>
    decreases ids.len(),
{
    if ids.len() == 0 {
        Seq::empty()
    } else {
        visit_answers(seen, ids.drop_last()).push(
            !seen_after(seen, ids.drop_last()).contains(ids.last()),
        )
    }
}

proof fn lemma_seen_after(seen: Set<Seq<char>>, ids: Seq<Seq<char>>, x: Seq<char>)
    ensures
        seen_after(seen, ids).contains(x) <==> (seen.contains(x) || exists|i: int|
            0 <= i < ids.len() && ids[i] == x),
    decreases ids.len(),
{
    if ids.len() > 0 {
        lemma_seen_after(seen, ids.drop_last(), x);
        if exists|i: int| 0 <= i < ids.len() && ids[i] == x {
            let i = choose|i: int| 0 <= i < ids.len() && ids[i] == x;
            if i < ids.len() - 1 {
                assert(ids.drop_last()[i] == x);
            }
        }
        if exists|i: int| 0 <= i < ids.len() - 1 && ids.drop_last()[i] == x {
            let i = choose|i: int| 0 <= i < ids.len() - 1 && ids.drop_last()[i] == x;
            assert(ids[i] == x);
        }
    }
}

/// During one recording, which starts with no device visited, a visit is
/// the first, and the device is changed, exactly when no earlier visit of
/// the recording was to the same device: each device is changed at most
/// once per recording.
pub proof fn lemma_device_changed_once(ids: Seq<Seq<char>>)
    ensures
        visit_answers(Set::empty(), ids).len() == ids.len(),
        forall|j: int|
            0 <= j < ids.len() ==> (#[trigger] visit_answers(Set::empty(), ids)[j] <==> forall|i: int|
                0 <= i < j ==> ids[i] != ids[j]),
        forall|i: int, j: int|
            #![trigger ids[i], visit_answers(Set::empty(), ids)[j]]
            0 <= i < j < ids.len() && ids[i] == ids[j] ==> !visit_answers(Set::empty(), ids)[j],
    decreases ids.len(),
{
    if ids.len() > 0 {
        let prev = ids.drop_last();
        lemma_device_changed_once(prev);
        let n = ids.len() - 1;
        lemma_seen_after(Set::empty(), prev, ids[n]);
        assert forall|j: int| 0 <= j < ids.len() implies (#[trigger] visit_answers(
            Set::empty(),
            ids,
        )[j] <==> forall|i: int| 0 <= i < j ==> ids[i] != ids[j]) by {
            if j < n {
                assert(visit_answers(Set::empty(), ids)[j] == visit_answers(Set::empty(), prev)[j]);
                assert forall|i: int| 0 <= i < j implies ids[i] == prev[i] by {}
                assert(ids[j] == prev[j]);
            } else {
                if exists|i: int| 0 <= i < n && prev[i] == ids[n] {
                    let i = choose|i: int| 0 <= i < n && prev[i] == ids[n];
                    assert(ids[i] == prev[i]);
                }
                if exists|i: int| 0 <= i < n && ids[i] == ids[n] {
                    let i = choose|i: int| 0 <= i < n && ids[i] == ids[n];
                    assert(prev[i] == ids[i]);
                }
            }
        }
    }
}

/// Whether the single-precision value with these bits is a NaN.
pub open spec fn is_nan_bits(bits: u32) -> bool {
    bits & 0x7FFF_FFFF > 0x7F80_0000
}

/// Whether the single-precision value with these bits is +0 or -0.
pub open spec fn is_zero_bits(bits: u32) -> bool {
    bits & 0x7FFF_FFFF == 0
}

/// IEEE-754 equality of the single-precision values with these bits: NaN
/// equals nothing, and +0 equals -0.
pub open spec fn float_eq_bits(a: u32, b: u32) -> bool {
    (a == b && !is_nan_bits(a)) || (is_zero_bits(a) && is_zero_bits(b))
}

/// A valid scalar volume: a finite value from 0 to 1, that is +0 up to
/// 1.0 (`0x3F80_0000`), or -0.
pub open spec fn volume_valid_bits(bits: u32) -> bool {
    bits <= 0x3F80_0000 || bits == 0x8000_0000
}

/// A device property written through the audio HAL: a scalar volume given
/// by the bits of its single-precision value, or the mute switch.
#[derive(Clone, Copy, Debug, PartialEq, Eq, Structural)]
pub enum PropertyValue {
    Volume(u32),
    Mute(u32),
}

pub open spec fn property_valid(v: PropertyValue) -> bool {
    match v {
        PropertyValue::Volume(b) => volume_valid_bits(b),
        PropertyValue::Mute(m) => m <= 1,
    }
}

pub open spec fn property_eq(a: PropertyValue, b: PropertyValue) -> bool {
    match (a, b) {
        (PropertyValue::Volume(x), PropertyValue::Volume(y)) => float_eq_bits(x, y),
        (PropertyValue::Mute(x), PropertyValue::Mute(y)) => x == y,
        _ => false,
    }
}

fn float_eq(a: u32, b: u32) -> (r: bool)
    ensures
        r == float_eq_bits(a, b),
{
    let nan = (a & 0x7FFF_FFFF) > 0x7F80_0000;
    (a == b && !nan) || ((a & 0x7FFF_FFFF) == 0 && (b & 0x7FFF_FFFF) == 0)
}

/// A write is complete only after a change notification and once the
/// readback is valid and differs from the value before the write; the
/// observed value (the hardware's own step) is then what was applied.
/// Before that, a cached readback of the old value proves nothing.
pub fn completed_value(observed: PropertyValue, previous: PropertyValue, notified: bool) -> (r:
    Option<PropertyValue>)
    ensures
        (property_valid(observed) && notified && !property_eq(observed, previous)) ==> r == Some(
            observed,
        ),
        !(property_valid(observed) && notified && !property_eq(observed, previous)) ==> r is None,
{
    let valid = match observed {
        PropertyValue::Volume(b) => b <= 0x3F80_0000 || b == 0x8000_0000,
        PropertyValue::Mute(m) => m <= 1,
    };
    let same = match (observed, previous) {
        (PropertyValue::Volume(x), PropertyValue::Volume(y)) => float_eq(x, y),
        (PropertyValue::Mute(x), PropertyValue::Mute(y)) => x == y,
        _ => false,
    };
    if valid && notified && !same {
        Some(observed)
    } else {
        None
    }
}

/// New macOS sessions attenuate with the volume, never the hardware mute
/// switch (kept only for recovering older sessions).
pub fn mac_prefers_volume_for_mute() -> (r: bool)
    ensures
        r,
{
    true
}
} // verus!
