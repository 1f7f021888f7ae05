//! Statistics that carry timed or permanent buffs, and the vitals built on them.
use vstd::prelude::*;

verus! {

/// Thousandths in one unit of a statistic.
pub const MILLI: i64 = 1000;

/// A modifier of a statistic.
///
/// `expiry` is an absolute game time in milliseconds, `0` meaning "never".
/// `percentage` is in thousandths (`500` is +50%), `amount` in thousandths of
/// a unit. Percentages add up (they do not compound); amounts are added after
/// the percentage-scaled base.
#[derive(Clone, Copy, Debug, PartialEq, Eq)]
pub struct Buff {
    pub expiry: i64,
    pub percentage: i32,
    pub amount: i32,
}

/// Whether `b` has run out at game time `now`.
pub open spec fn is_expired(b: Buff, now: int) -> bool {
    b.expiry != 0 && b.expiry < now
}

/// The buffs of `buffs` that are still running at `now`, in their order.
pub open spec fn kept_buffs(buffs: Seq<Buff>, now: int) -> Seq<Buff>
    decreases buffs.len(),
{
    if buffs.len() == 0 {
        buffs
    } else {
        let rest = kept_buffs(buffs.drop_last(), now);
        if is_expired(buffs.last(), now) {
            rest
        } else {
            rest.push(buffs.last())
        }
    }
}

pub open spec fn sum_percentage(buffs: Seq<Buff>) -> int
    decreases buffs.len(),
{
    if buffs.len() == 0 {
        0
    } else {
        sum_percentage(buffs.drop_last()) + buffs.last().percentage
    }
}

pub open spec fn sum_amount(buffs: Seq<Buff>) -> int
    decreases buffs.len(),
{
    if buffs.len() == 0 {
        0
    } else {
        sum_amount(buffs.drop_last()) + buffs.last().amount
    }
}

/// `floor(base * (1 + Σ percentage)) + Σ amount`, in thousandths: the floor
/// is taken in whole units and only of the scaled base.
pub open spec fn exact_value(base: int, buffs: Seq<Buff>) -> int {
    (base * (MILLI + sum_percentage(buffs))) / (MILLI * MILLI) * MILLI + sum_amount(buffs)
}

/// `v`, held within the range of `i64`.
pub open spec fn saturate(v: int) -> int {
    if v > i64::MAX {
        i64::MAX as int
    } else if v < i64::MIN {
        i64::MIN as int
    } else {
        v
    }
}

/// The value a statistic with this base and these buffs shows.
pub open spec fn stat_value(base: int, buffs: Seq<Buff>) -> int {
    saturate(exact_value(base, buffs))
}

/// `|Σ percentage|` and `|Σ amount|` grow by at most one `i32` per buff.
pub proof fn lemma_sums_bounded(buffs: Seq<Buff>)
    ensures
        -(buffs.len() * 0x8000_0000) <= sum_percentage(buffs) <= buffs.len() * 0x8000_0000,
        -(buffs.len() * 0x8000_0000) <= sum_amount(buffs) <= buffs.len() * 0x8000_0000,
    decreases buffs.len(),
{
    if buffs.len() > 0 {
        lemma_sums_bounded(buffs.drop_last());
    }
}

/// A statistic of an actor that buffs can raise or lower for a while or for good.
#[derive(Debug)]
pub struct BuffableStatistic {
    pub base_value: i32,
    pub value: i64,
    pub buffs: Vec<Buff>,
}

impl BuffableStatistic {
    /// The cached `value` agrees with the base and the buffs, or the
    /// statistic is as `new` made it: no buffs, and the base as its value.
    pub open spec fn wf(&self) -> bool {
        ||| self.value == stat_value(self.base_value as int, self.buffs@)
        ||| (self.buffs@.len() == 0 && self.value == self.base_value)
    }

    pub fn new(base_value: i32) -> (r: Self)
        ensures
            r.wf(),
            r.base_value == base_value,
            r.value == base_value,
            r.buffs@ == Seq::<Buff>::empty(),
    {
        BuffableStatistic { base_value, value: base_value as i64, buffs: Vec::new() }
    }

    /// Replaces the base value and recomputes the value.
    pub fn set_base(&mut self, new_base: i32)
        ensures
            final(self).wf(),
            final(self).value == stat_value(new_base as int, old(self).buffs@),
            final(self).base_value == new_base,
            final(self).buffs@ == old(self).buffs@,
    {
        self.base_value = new_base;
        self.recalculate();
    }

    /// Appends a buff and recomputes the value at once.
    pub fn add_buff(&mut self, buff: Buff)
        ensures
            final(self).wf(),
            final(self).value == stat_value(old(self).base_value as int, final(self).buffs@),
            final(self).base_value == old(self).base_value,
            final(self).buffs@ == old(self).buffs@.push(buff),
    {
        self.buffs.push(buff);
        self.recalculate();
    }

    /// Appends a buff, then sweeps what has expired at `now`, so that the
    /// value shown reflects both at once.
    pub fn apply_buff(&mut self, buff: Buff, now: i64)
        requires
            old(self).wf(),
        ensures
            final(self).wf(),
            final(self).base_value == old(self).base_value,
            final(self).buffs@ == kept_buffs(old(self).buffs@.push(buff), now as int),
            final(self).value == stat_value(old(self).base_value as int, final(self).buffs@),
    {
        self.add_buff(buff);
        self.update(now);
    }

    /// Drops the buffs that have expired at `game_time`; says whether any went.
    pub fn update(&mut self, game_time: i64) -> (changed: bool)
        requires
            old(self).wf(),
        ensures
            final(self).wf(),
            final(self).base_value == old(self).base_value,
            final(self).buffs@ == kept_buffs(old(self).buffs@, game_time as int),
            changed <==> final(self).buffs@.len() != old(self).buffs@.len(),
            changed ==> final(self).value == stat_value(
                old(self).base_value as int,
                final(self).buffs@,
            ),
            !changed ==> final(self).value == old(self).value,
    {
        let len = self.buffs.len();
        if len == 0 {
            return false;
        }
        let mut kept: Vec<Buff> = Vec::new();
        let mut i: usize = 0;
        while i < len
            invariant
                len == self.buffs.len(),
                i <= len,
                kept@ == kept_buffs(self.buffs@.take(i as int), game_time as int),
                kept@.len() <= i,
            decreases len - i,
        {
            let b = self.buffs[i];
            proof {
                assert(self.buffs@.take(i + 1).drop_last() == self.buffs@.take(i as int));
            }
            if !(b.expiry != 0 && b.expiry < game_time) {
                kept.push(b);
            }
            i += 1;
        }
        proof {
            assert(self.buffs@.take(len as int) == self.buffs@);
        }
        if kept.len() != len {
            self.buffs = kept;
            self.recalculate();
            return true;
        }
        proof {
            lemma_kept_same_len(self.buffs@, game_time as int);
        }
        false
    }

    /// Recomputes `value` from the base and the buffs.
    fn recalculate(&mut self)
        ensures
            final(self).value == stat_value(old(self).base_value as int, old(self).buffs@),
            final(self).base_value == old(self).base_value,
            final(self).buffs@ == old(self).buffs@,
    {
        let mut perc: i128 = 0;
        let mut abs: i128 = 0;
        let n = self.buffs.len();
        let mut i: usize = 0;
        while i < n
            invariant
                n == self.buffs.len(),
                i <= n,
                perc == sum_percentage(self.buffs@.take(i as int)),
                abs == sum_amount(self.buffs@.take(i as int)),
            decreases n - i,
        {
            proof {
                assert(self.buffs@.take(i + 1).drop_last() == self.buffs@.take(i as int));
                lemma_sums_bounded(self.buffs@.take(i as int));
                assert(i <= usize::MAX);
            }
            perc = perc + self.buffs[i].percentage as i128;
            abs = abs + self.buffs[i].amount as i128;
            i += 1;
        }
        proof {
            assert(self.buffs@.take(n as int) == self.buffs@);
            lemma_sums_bounded(self.buffs@);
        }
        let base = self.base_value as i128;
        let factor: i128 = 1000 + perc;
        proof {
            let bound: int = 0x8000_0000_0000_0000_0000_0000;
            assert(n <= 0xFFFF_FFFF_FFFF_FFFF);
            assert(-bound <= perc <= bound) by (nonlinear_arith)
                requires
                    -(n * 0x8000_0000) <= perc <= n * 0x8000_0000,
                    n <= 0xFFFF_FFFF_FFFF_FFFF,
                    bound == 0x8000_0000_0000_0000_0000_0000int;
            assert(-0x8000_0000 * (bound + 1000) <= base * factor <= 0x8000_0000 * (bound + 1000))
                by (nonlinear_arith)
                requires
                    -0x8000_0000 <= base <= 0x8000_0000,
                    -(bound + 1000) <= factor <= bound + 1000;
            assert(base * factor == self.base_value * (MILLI + sum_percentage(self.buffs@)));
        }
        let scaled = floor_div(base * factor, 1_000_000) * 1000;
        let exact = scaled + abs;
        self.value = if exact > i64::MAX as i128 {
            i64::MAX
        } else if exact < i64::MIN as i128 {
            i64::MIN
        } else {
            exact as i64
        };
    }
}

/// A buff whose expiry is `0` is never swept away, whatever the time.
pub proof fn lemma_permanent_buffs_never_expire(buffs: Seq<Buff>, now: int)
    requires
        forall|i: int| 0 <= i < buffs.len() ==> #[trigger] buffs[i].expiry == 0,
    ensures
        kept_buffs(buffs, now) == buffs,
    decreases buffs.len(),
{
    if buffs.len() > 0 {
        let init = buffs.drop_last();
        assert forall|i: int| 0 <= i < init.len() implies #[trigger] init[i].expiry == 0 by {
            assert(init[i] == buffs[i]);
        }
        lemma_permanent_buffs_never_expire(init, now);
        assert(buffs.last() == buffs[buffs.len() - 1]);
        assert(init.push(buffs.last()) == buffs);
    }
}

/// Of buffs that all carry an expiry, a sweep at `now` keeps exactly those
/// whose expiry is not before `now`, and it shortens the list if and only if
/// one of them expired before `now`.
pub proof fn lemma_timed_buffs_sweep(buffs: Seq<Buff>, now: int)
    requires
        forall|i: int| 0 <= i < buffs.len() ==> #[trigger] buffs[i].expiry > 0,
    ensures
        forall|b: Buff|
            #[trigger] kept_buffs(buffs, now).contains(b) <==> (buffs.contains(b) && b.expiry
                >= now),
        kept_buffs(buffs, now).len() < buffs.len() <==> exists|i: int|
            0 <= i < buffs.len() && #[trigger] buffs[i].expiry < now,
    decreases buffs.len(),
{
    if buffs.len() > 0 {
        let init = buffs.drop_last();
        let last = buffs.last();
        assert forall|i: int| 0 <= i < init.len() implies #[trigger] init[i].expiry > 0 by {
            assert(init[i] == buffs[i]);
        }
        lemma_timed_buffs_sweep(init, now);
        lemma_kept_len(init, now);
        assert(buffs == init.push(last));
        assert forall|b: Buff| buffs.contains(b) <==> (init.contains(b) || b == last) by {
            if buffs.contains(b) {
                let j = choose|j: int| 0 <= j < buffs.len() && buffs[j] == b;
                if j < init.len() {
                    assert(init[j] == b);
                }
            }
            if init.contains(b) {
                let j = choose|j: int| 0 <= j < init.len() && init[j] == b;
                assert(buffs[j] == b);
            }
            if b == last {
                assert(buffs[buffs.len() - 1] == b);
            }
        }
        let kept = kept_buffs(init, now);
        if !is_expired(last, now) {
            assert forall|b: Buff| kept.push(last).contains(b) <==> (kept.contains(b) || b == last) by {
                if kept.push(last).contains(b) {
                    let j = choose|j: int| 0 <= j < kept.push(last).len() && kept.push(last)[j] == b;
                    if j < kept.len() {
                        assert(kept[j] == b);
                    }
                }
                if kept.contains(b) {
                    let j = choose|j: int| 0 <= j < kept.len() && kept[j] == b;
                    assert(kept.push(last)[j] == b);
                }
                if b == last {
                    assert(kept.push(last)[kept.len() as int] == b);
                }
            }
        }
        if exists|i: int| 0 <= i < buffs.len() && #[trigger] buffs[i].expiry < now {
            let i = choose|i: int| 0 <= i < buffs.len() && #[trigger] buffs[i].expiry < now;
            if i < init.len() {
                assert(init[i].expiry < now);
            }
        }
        if exists|i: int| 0 <= i < init.len() && #[trigger] init[i].expiry < now {
            let i = choose|i: int| 0 <= i < init.len() && #[trigger] init[i].expiry < now;
            assert(buffs[i].expiry < now);
        }
        assert(buffs[buffs.len() - 1] == last);
        assert forall|b: Buff|
            #[trigger] kept_buffs(buffs, now).contains(b) <==> (buffs.contains(b) && b.expiry
                >= now) by {
            assert(kept.contains(b) <==> (init.contains(b) && b.expiry >= now));
            assert(buffs.contains(b) <==> (init.contains(b) || b == last));
            assert(last.expiry > 0);
            if is_expired(last, now) {
                assert(kept_buffs(buffs, now) == kept);
            } else {
                assert(kept.push(last).contains(b) <==> (kept.contains(b) || b == last));
                assert(kept_buffs(buffs, now) == kept.push(last));
            }
        }
    } else {
        assert forall|b: Buff|
            #[trigger] kept_buffs(buffs, now).contains(b) <==> (buffs.contains(b) && b.expiry
                >= now) by {
            assert(kept_buffs(buffs, now) == buffs);
        }
    }
}

/// The largest base that a statistic derived ten-fold from another may have.
pub const MAX_DERIVING_BASE: i32 = 214_748_364;

/// `v` held within the range of `i64`.
pub fn clamp_to_i64(v: i128) -> (r: i64)
    ensures
        r == saturate(v as int),
{
    if v > i64::MAX as i128 {
        i64::MAX
    } else if v < i64::MIN as i128 {
        i64::MIN
    } else {
        v as i64
    }
}

/// The three primary statistics of a character.
#[derive(Debug)]
pub struct Stats {
    pub strength: BuffableStatistic,
    pub agility: BuffableStatistic,
    pub intelligence: BuffableStatistic,
    /// Set when an update changed one of the three, so that the derived
    /// statistics are refreshed.
    pub is_changed: bool,
}

impl Stats {
    pub open spec fn wf(&self) -> bool {
        &&& self.strength.wf()
        &&& self.agility.wf()
        &&& self.intelligence.wf()
    }

    /// Sweeps the expired buffs of all three and notes whether any changed.
    pub fn update(&mut self, elapsed: i64)
        requires
            old(self).wf(),
        ensures
            final(self).wf(),
            final(self).strength.buffs@ == kept_buffs(old(self).strength.buffs@, elapsed as int),
            final(self).agility.buffs@ == kept_buffs(old(self).agility.buffs@, elapsed as int),
            final(self).intelligence.buffs@ == kept_buffs(
                old(self).intelligence.buffs@,
                elapsed as int,
            ),
            final(self).strength.base_value == old(self).strength.base_value,
            final(self).agility.base_value == old(self).agility.base_value,
            final(self).intelligence.base_value == old(self).intelligence.base_value,
            final(self).is_changed <==> (final(self).strength.buffs@.len() != old(
                self,
            ).strength.buffs@.len() || final(self).agility.buffs@.len() != old(
                self,
            ).agility.buffs@.len() || final(self).intelligence.buffs@.len() != old(
                self,
            ).intelligence.buffs@.len()),
    {
        let a = self.strength.update(elapsed);
        let b = self.agility.update(elapsed);
        let c = self.intelligence.update(elapsed);
        self.is_changed = a || b || c;
    }
}

/// Health of an actor, in thousandths. `target_health` is where damage and
/// healing put it at once; `current_health` trails it for display.
#[derive(Debug)]
pub struct Health {
    pub max_health: BuffableStatistic,
    pub current_health: i64,
    pub target_health: i64,
    pub regeneration: BuffableStatistic,
}

impl Health {
    pub open spec fn wf(&self) -> bool {
        self.max_health.wf() && self.regeneration.wf()
    }

    pub fn new(health: i32, regeneration: i32) -> (r: Self)
        ensures
            r.wf(),
            r.max_health.value == health,
            r.max_health.base_value == health,
            r.max_health.buffs@.len() == 0,
            r.current_health == health,
            r.target_health == health,
            r.regeneration.value == regeneration,
            r.regeneration.base_value == regeneration,
            r.regeneration.buffs@.len() == 0,
    {
        Health {
            max_health: BuffableStatistic::new(health),
            current_health: health as i64,
            target_health: health as i64,
            regeneration: BuffableStatistic::new(regeneration),
        }
    }
}

/// Mana of an actor, in thousandths; `regeneration` is per second.
#[derive(Debug)]
pub struct Mana {
    pub max_mana: BuffableStatistic,
    pub current_mana: i64,
    pub regeneration: i64,
}

/// Mana regained per second by a fresh pool, in thousandths.
pub const MANA_REGENERATION: i64 = 2000;

impl Mana {
    pub fn new(mana: i32) -> (r: Self)
        ensures
            r.max_mana.wf(),
            r.max_mana.value == mana,
            r.max_mana.base_value == mana,
            r.max_mana.buffs@.len() == 0,
            r.current_mana == mana,
            r.regeneration == MANA_REGENERATION,
    {
        Mana {
            max_mana: BuffableStatistic::new(mana),
            current_mana: mana as i64,
            regeneration: MANA_REGENERATION,
        }
    }
}

/// Movement speed, in thousandths of a pixel per second.
#[derive(Debug)]
pub struct Movement {
    pub movement_speed: BuffableStatistic,
}

/// The statistics a character carries.
#[derive(Debug)]
pub struct CharacterStats {
    pub stats: Stats,
    pub movement: Movement,
    pub health: Health,
    pub mana: Mana,
}

/// Sweeps the expired buffs of every statistic at `elapsed`; where a primary
/// statistic changed, sets the derived bases ten-fold from it: movement speed
/// from agility, maximum health from strength, maximum mana from intelligence.
pub fn refresh_stats(
    elapsed: i64,
    stats: &mut Stats,
    movement: &mut Movement,
    health: &mut Health,
    mana: &mut Mana,
)
    requires
        old(stats).wf(),
        old(movement).movement_speed.wf(),
        old(health).wf(),
        old(mana).max_mana.wf(),
        -MAX_DERIVING_BASE <= old(stats).agility.base_value <= MAX_DERIVING_BASE,
        -MAX_DERIVING_BASE <= old(stats).strength.base_value <= MAX_DERIVING_BASE,
        -MAX_DERIVING_BASE <= old(stats).intelligence.base_value <= MAX_DERIVING_BASE,
    ensures
        final(stats).wf(),
        final(movement).movement_speed.wf(),
        final(health).wf(),
        final(mana).max_mana.wf(),
        !final(stats).is_changed,
        final(stats).strength.buffs@ == kept_buffs(old(stats).strength.buffs@, elapsed as int),
        final(stats).agility.buffs@ == kept_buffs(old(stats).agility.buffs@, elapsed as int),
        final(stats).intelligence.buffs@ == kept_buffs(
            old(stats).intelligence.buffs@,
            elapsed as int,
        ),
        final(movement).movement_speed.buffs@ == kept_buffs(
            old(movement).movement_speed.buffs@,
            elapsed as int,
        ),
        final(health).max_health.buffs@ == kept_buffs(old(health).max_health.buffs@, elapsed as int),
        final(health).regeneration.buffs@ == kept_buffs(
            old(health).regeneration.buffs@,
            elapsed as int,
        ),
        final(mana).max_mana.buffs@ == kept_buffs(old(mana).max_mana.buffs@, elapsed as int),
        final(health).current_health == old(health).current_health,
        final(health).target_health == old(health).target_health,
        final(health).regeneration.base_value == old(health).regeneration.base_value,
        final(mana).current_mana == old(mana).current_mana,
        final(mana).regeneration == old(mana).regeneration,
        final(stats).strength.base_value == old(stats).strength.base_value,
        final(stats).agility.base_value == old(stats).agility.base_value,
        final(stats).intelligence.base_value == old(stats).intelligence.base_value,
        ({
            let changed = kept_buffs(old(stats).strength.buffs@, elapsed as int).len() != old(
                stats,
            ).strength.buffs@.len() || kept_buffs(old(stats).agility.buffs@, elapsed as int).len()
                != old(stats).agility.buffs@.len() || kept_buffs(
                old(stats).intelligence.buffs@,
                elapsed as int,
            ).len() != old(stats).intelligence.buffs@.len();
            if changed {
                &&& final(movement).movement_speed.base_value == old(stats).agility.base_value * 10
                &&& final(health).max_health.base_value == old(stats).strength.base_value * 10
                &&& final(mana).max_mana.base_value == old(stats).intelligence.base_value * 10
                &&& final(movement).movement_speed.value == stat_value(
                    final(movement).movement_speed.base_value as int,
                    final(movement).movement_speed.buffs@,
                )
                &&& final(health).max_health.value == stat_value(
                    final(health).max_health.base_value as int,
                    final(health).max_health.buffs@,
                )
                &&& final(mana).max_mana.value == stat_value(
                    final(mana).max_mana.base_value as int,
                    final(mana).max_mana.buffs@,
                )
            } else {
                &&& final(movement).movement_speed.base_value == old(
                    movement,
                ).movement_speed.base_value
                &&& final(health).max_health.base_value == old(health).max_health.base_value
                &&& final(mana).max_mana.base_value == old(mana).max_mana.base_value
            }
        }),
{
    stats.update(elapsed);
    movement.movement_speed.update(elapsed);
    health.max_health.update(elapsed);
    health.regeneration.update(elapsed);
    mana.max_mana.update(elapsed);
    if !stats.is_changed {
        return;
    }
    movement.movement_speed.set_base(stats.agility.base_value * 10);
    health.max_health.set_base(stats.strength.base_value * 10);
    mana.max_mana.set_base(stats.intelligence.base_value * 10);
    stats.is_changed = false;
}

/// Sweeping twice at one time sweeps no more than once.
pub proof fn lemma_kept_idempotent(buffs: Seq<Buff>, now: int)
    ensures
        kept_buffs(kept_buffs(buffs, now), now) == kept_buffs(buffs, now),
    decreases buffs.len(),
{
    if buffs.len() > 0 {
        let init = buffs.drop_last();
        lemma_kept_idempotent(init, now);
        if !is_expired(buffs.last(), now) {
            let k = kept_buffs(init, now).push(buffs.last());
            assert(k.drop_last() == kept_buffs(init, now));
        }
    }
}

/// Buffs added one by one, each followed by a sweep at `now`, end up as one
/// sweep of them all.
pub open spec fn buffed(buffs: Seq<Buff>, added: Seq<Buff>, now: int) -> Seq<Buff> {
    if added.len() == 0 {
        buffs
    } else {
        kept_buffs(buffs + added, now)
    }
}

pub proof fn lemma_buffed_push(buffs: Seq<Buff>, added: Seq<Buff>, b: Buff, now: int)
    ensures
        kept_buffs(buffed(buffs, added, now).push(b), now) == buffed(buffs, added.push(b), now),
{
    assert(buffs + added.push(b) == (buffs + added).push(b));
    if added.len() == 0 {
        assert(buffs + added == buffs);
    } else {
        let x = buffs + added;
        lemma_kept_idempotent(x, now);
        assert(kept_buffs(x, now).push(b).drop_last() == kept_buffs(x, now));
        assert(x.push(b).drop_last() == x);
    }
}

/// If nothing was dropped, what is kept is what there was.
proof fn lemma_kept_same_len(buffs: Seq<Buff>, now: int)
    requires
        kept_buffs(buffs, now).len() == buffs.len(),
    ensures
        kept_buffs(buffs, now) == buffs,
    decreases buffs.len(),
{
    if buffs.len() > 0 {
        lemma_kept_len(buffs.drop_last(), now);
        lemma_kept_same_len(buffs.drop_last(), now);
        assert(buffs.drop_last().push(buffs.last()) == buffs);
    }
}

proof fn lemma_kept_len(buffs: Seq<Buff>, now: int)
    ensures
        kept_buffs(buffs, now).len() <= buffs.len(),
    decreases buffs.len(),
{
    if buffs.len() > 0 {
        lemma_kept_len(buffs.drop_last(), now);
    }
}

/// `⌊n / d⌋`, rounding towards negative infinity.
pub(crate) fn floor_div(n: i128, d: i128) -> (r: i128)
    requires
        d > 0,
        n > i128::MIN,
    ensures
        r == n / d,
{
    if n >= 0 {
        n / d
    } else {
        let m = -n - 1;
        let q = m / d;
        proof {
            lemma_floor_negative(n as int, d as int, q as int);
        }
        -q - 1
    }
}

proof fn lemma_floor_negative(n: int, d: int, q: int)
    requires
        n < 0,
        d > 0,
        q == (-n - 1) / d,
    ensures
        -q - 1 == n / d,
{
    let m = -n - 1;
    let r = m % d;
    vstd::arithmetic::div_mod::lemma_fundamental_div_mod(m, d);
    assert(m == d * q + r);
    assert(0 <= r < d) by {
        vstd::arithmetic::div_mod::lemma_mod_pos_bound(m, d);
    }
    assert(n == d * (-q - 1) + (d - 1 - r)) by (nonlinear_arith)
        requires m == d * q + r, m == -n - 1;
    vstd::arithmetic::div_mod::lemma_fundamental_div_mod_converse(n, d, -q - 1, d - 1 - r);
}

} // verus!
