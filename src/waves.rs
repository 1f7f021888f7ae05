//! The wave scheduler: a fixed table of waves spawned one after another, with
//! a pause after each, an end of day every few waves and a victory after the
//! last.
use vstd::prelude::*;
use crate::components::{CurrentWave, EnemyBundle};
use crate::constants::{LANE_COUNT, PAUSED_SPEED, WAVES_PER_DAY, Position, spawn_location, lane_x, SPAWN_Y};
use crate::enemy_factory::{EnemyType, fresh_enemy, get_enemy_bundle};
use crate::random::RNG;
use crate::stats::{saturate, clamp_to_i64};

verus! {

/// How many enemies of one kind each lane gets.
#[derive(Clone, Copy, Debug, PartialEq, Eq)]
pub struct Wave(pub [isize; 3]);

impl Default for Wave {
    fn default() -> (r: Self)
        ensures
            r.0@ == seq![0isize, 0isize, 0isize],
    {
        Wave([0, 0, 0])
    }
}

/// One wave: wolves and bears per lane, and the pause after it in milliseconds.
#[derive(Clone, Copy, Debug, PartialEq, Eq)]
pub struct WaveData {
    pub wolves: Wave,
    pub bears: Wave,
    pub post_wave_delay: i64,
}

/// The game's waves: eight of them, bears from the second on.
pub open spec fn wave_table() -> Seq<(Seq<isize>, Seq<isize>, int)> {
    seq![
        (seq![1isize, 1, 1], seq![0isize, 0, 0], 10_000),
        (seq![1isize, 1, 1], seq![0isize, 1, 0], 10_000),
        (seq![1isize, 1, 1], seq![0isize, 0, 0], 8_000),
        (seq![1isize, 1, 1], seq![1isize, 1, 1], 5_000),
        (seq![1isize, 1, 1], seq![1isize, 1, 1], 5_000),
        (seq![1isize, 1, 1], seq![1isize, 1, 1], 5_000),
        (seq![1isize, 1, 1], seq![1isize, 1, 1], 5_000),
        (seq![1isize, 1, 1], seq![1isize, 1, 1], 5_000),
    ]
}

fn wave(wolves: [isize; 3], bears: [isize; 3], post_wave_delay: i64) -> (r: WaveData)
    ensures
        r.wolves.0@ == wolves@,
        r.bears.0@ == bears@,
        r.post_wave_delay == post_wave_delay,
{
    WaveData { wolves: Wave(wolves), bears: Wave(bears), post_wave_delay }
}

/// The game's table of waves, as `wave_table` gives it.
pub fn wave_data() -> (r: Vec<WaveData>)
    ensures
        r@.len() == wave_table().len(),
        forall|i: int|
            0 <= i < r@.len() ==> (#[trigger] r@[i]).wolves.0@ == wave_table()[i].0 && r@[i].bears.0@
                == wave_table()[i].1 && r@[i].post_wave_delay == wave_table()[i].2,
{
    let r = vec![
        wave([1, 1, 1], [0, 0, 0], 10_000),
        wave([1, 1, 1], [0, 1, 0], 10_000),
        wave([1, 1, 1], [0, 0, 0], 8_000),
        wave([1, 1, 1], [1, 1, 1], 5_000),
        wave([1, 1, 1], [1, 1, 1], 5_000),
        wave([1, 1, 1], [1, 1, 1], 5_000),
        wave([1, 1, 1], [1, 1, 1], 5_000),
        wave([1, 1, 1], [1, 1, 1], 5_000),
    ];
    assert(r@.len() == 8);
    r
}

/// What one tick of the scheduler announces: an end of day (`Some(true)` when
/// it is the victory after the last wave) and the index of the wave spawned.
#[derive(Clone, Copy, Debug, PartialEq, Eq)]
pub struct WaveTick {
    pub end_of_day: Option<bool>,
    pub spawned_wave: Option<usize>,
}

/// One tick of the scheduler at game time `now` and game speed `speed`
/// (thousandths), over a table of `n` waves: nothing before the next wave is
/// due or while paused; past the table, the victory and never again; else an
/// end of day first on every fourth wave but the first, then the wave is
/// spawned, the next one falls due after this wave's pause.
pub open spec fn wave_step(w: CurrentWave, now: int, speed: int, n: int, delay: int) -> (CurrentWave, WaveTick) {
    if w.next_wave_time > now || speed < PAUSED_SPEED {
        (w, WaveTick { end_of_day: None, spawned_wave: None })
    } else if w.wave_idx >= n {
        (
            CurrentWave { wave_idx: w.wave_idx, next_wave_time: i64::MAX },
            WaveTick { end_of_day: Some(true), spawned_wave: None },
        )
    } else {
        (
            CurrentWave {
                wave_idx: (w.wave_idx + 1) as usize,
                next_wave_time: saturate(now + delay) as i64,
            },
            WaveTick {
                end_of_day: if w.wave_idx > 0 && w.wave_idx % WAVES_PER_DAY == 0 {
                    Some(false)
                } else {
                    None
                },
                spawned_wave: Some(w.wave_idx),
            },
        )
    }
}

/// One tick of the scheduler, as `wave_step` says; the delay is that of the
/// wave spawned.
fn advance_wave(
    now: i64,
    game_speed: i64,
    waves: &mut CurrentWave,
    table: &Vec<WaveData>,
) -> (r: WaveTick)
    ensures
        ({
            let delay = if old(waves).wave_idx < table@.len() {
                table@[old(waves).wave_idx as int].post_wave_delay as int
            } else {
                0
            };
            (*final(waves), r) == wave_step(*old(waves), now as int, game_speed as int, table@.len() as int, delay)
        }),
{
    if waves.next_wave_time > now {
        return WaveTick { end_of_day: None, spawned_wave: None };
    }
    if game_speed < PAUSED_SPEED {
        return WaveTick { end_of_day: None, spawned_wave: None };
    }
    if waves.wave_idx >= table.len() {
        waves.next_wave_time = i64::MAX;
        return WaveTick { end_of_day: Some(true), spawned_wave: None };
    }
    let end_of_day = if waves.wave_idx > 0 && waves.wave_idx % WAVES_PER_DAY == 0 {
        Some(false)
    } else {
        None
    };
    let idx = waves.wave_idx;
    let delay = table[idx].post_wave_delay;
    waves.next_wave_time = clamp_to_i64(now as i128 + delay as i128);
    waves.wave_idx = idx + 1;
    WaveTick { end_of_day, spawned_wave: Some(idx) }
}

/// One tick of the scheduler, as `wave_step` says (the delay is that of the
/// wave spawned), and the spawning of the wave it reports, as `spawn_wave`
/// says. When no wave is spawned the enemies are left as they were.
pub fn wave_spawning_system(
    now: i64,
    game_speed: i64,
    waves: &mut CurrentWave,
    table: &Vec<WaveData>,
    enemies: &mut Vec<EnemyBundle>,
) -> (r: WaveTick)
    ensures
        ({
            let delay = if old(waves).wave_idx < table@.len() {
                table@[old(waves).wave_idx as int].post_wave_delay as int
            } else {
                0
            };
            (*final(waves), r) == wave_step(*old(waves), now as int, game_speed as int, table@.len() as int, delay)
        }),
        match r.spawned_wave {
            Some(idx) => {
                let order = spawn_order(table@[idx as int]);
                &&& idx < table@.len()
                &&& final(enemies)@.len() == old(enemies)@.len() + order.len()
                &&& final(enemies)@.take(old(enemies)@.len() as int) == old(enemies)@
                &&& forall|k: int|
                    0 <= k < order.len() ==> {
                        let e = #[trigger] final(enemies)@[old(enemies)@.len() + k];
                        let (t, lane) = order[k];
                        fresh_enemy(e, t, lane, e.position) && near_spawn(e.position, lane)
                    }
            },
            None => final(enemies)@ == old(enemies)@,
        },
{
    let tick = advance_wave(now, game_speed, waves, table);
    match tick.spawned_wave {
        Some(idx) => {
            spawn_wave(&table[idx], enemies);
        },
        None => {},
    }
    tick
}

/// What the presentation shows for a spawned wave: the time of day (its
/// place within the day), and whether to announce the first wave of a day.
pub fn wave_spawned_event_system(wave_idx: usize) -> (r: (usize, bool))
    ensures
        r.0 == wave_idx % WAVES_PER_DAY,
        r.1 == (wave_idx % WAVES_PER_DAY == 0),
{
    let time_of_day = wave_idx % WAVES_PER_DAY;
    (time_of_day, time_of_day == 0)
}

/// The kinds and lanes a wave spawns, in order: the wolves of lanes 0, 1, 2,
/// then the bears of lanes 0, 1, 2. A count below one spawns none.
pub open spec fn spawn_order(w: WaveData) -> Seq<(EnemyType, int)> {
    repeat(EnemyType::Wolf, 0, w.wolves.0@[0] as int) + repeat(EnemyType::Wolf, 1, w.wolves.0@[1] as int) + repeat(
        EnemyType::Wolf,
        2,
        w.wolves.0@[2] as int,
    ) + repeat(EnemyType::Bear, 0, w.bears.0@[0] as int) + repeat(EnemyType::Bear, 1, w.bears.0@[1] as int)
        + repeat(EnemyType::Bear, 2, w.bears.0@[2] as int)
}

pub open spec fn repeat(t: EnemyType, lane: int, count: int) -> Seq<(EnemyType, int)> {
    Seq::new(if count > 0 {
        count as nat
    } else {
        0
    }, |_i: int| (t, lane))
}

/// A spawn point of `lane` shifted by at most ten pixels sideways and thirty
/// back.
pub open spec fn near_spawn(p: Position, lane: int) -> bool {
    &&& lane_x(lane) - 10_000 <= p.x <= lane_x(lane) + 10_000
    &&& SPAWN_Y - 30_000 <= p.y <= SPAWN_Y
}

/// Spawns one enemy of kind `t` in `lane` at a jittered spawn point.
pub fn spawn_enemy(enemy_type: EnemyType, lane: usize, enemies: &mut Vec<EnemyBundle>)
    requires
        lane < LANE_COUNT,
    ensures
        final(enemies)@.len() == old(enemies)@.len() + 1,
        final(enemies)@.drop_last() == old(enemies)@,
        fresh_enemy(final(enemies)@.last(), enemy_type, lane as int, final(enemies)@.last().position),
        near_spawn(final(enemies)@.last().position, lane as int),
{
    let base = spawn_location(lane);
    let dx = RNG::i32_between(-10_000, 10_000);
    let dy = RNG::i32_between(-30_000, 0);
    let position = Position { x: base.x + dx as i64, y: base.y + dy as i64 };
    enemies.push(get_enemy_bundle(enemy_type, lane, position));
    assert(enemies@.drop_last() == old(enemies)@);
}

/// Spawns every enemy of `wave`, in the order `spawn_order` gives.
pub fn spawn_wave(wave: &WaveData, enemies: &mut Vec<EnemyBundle>)
    ensures
        final(enemies)@.len() == old(enemies)@.len() + spawn_order(*wave).len(),
        final(enemies)@.take(old(enemies)@.len() as int) == old(enemies)@,
        forall|k: int|
            0 <= k < spawn_order(*wave).len() ==> {
                let e = #[trigger] final(enemies)@[old(enemies)@.len() + k];
                let (t, lane) = spawn_order(*wave)[k];
                fresh_enemy(e, t, lane, e.position) && near_spawn(e.position, lane)
            },
{
    let ghost start = enemies@;
    let ghost mut order: Seq<(EnemyType, int)> = seq![];
    assert(enemies@.take(enemies@.len() as int) == enemies@);
    let mut kind: usize = 0;
    while kind < 2
        invariant
            kind <= 2,
            order == if kind == 0 {
                seq![]
            } else if kind == 1 {
                repeat(EnemyType::Wolf, 0, wave.wolves.0@[0] as int) + repeat(EnemyType::Wolf, 1, wave.wolves.0@[1] as int)
                    + repeat(EnemyType::Wolf, 2, wave.wolves.0@[2] as int)
            } else {
                spawn_order(*wave)
            },
            spawned(start, enemies@, order),
        decreases 2 - kind,
    {
        let t = if kind == 0 {
            EnemyType::Wolf
        } else {
            EnemyType::Bear
        };
        let counts = if kind == 0 {
            wave.wolves
        } else {
            wave.bears
        };
        let mut lane: usize = 0;
        let ghost kind_start = order;
        while lane < LANE_COUNT
            invariant
                lane <= LANE_COUNT,
                kind < 2,
                t == (if kind == 0 { EnemyType::Wolf } else { EnemyType::Bear }),
                counts == (if kind == 0 { wave.wolves } else { wave.bears }),
                order == kind_start + lanes_of(t, counts, lane as int),
                spawned(start, enemies@, order),
            decreases LANE_COUNT - lane,
        {
            let count = counts.0[lane];
            let mut c: isize = 0;
            let ghost lane_start = order;
            while c < count
                invariant
                    0 <= c,
                    c <= count || count <= 0,
                    count <= 0 ==> c == 0,
                    lane < LANE_COUNT,
                    count == counts.0@[lane as int],
                    order == lane_start + repeat(t, lane as int, c as int),
                    spawned(start, enemies@, order),
                decreases count - c,
            {
                spawn_enemy(t, lane, enemies);
                proof {
                    let next = order.push((t, lane as int));
                    assert(repeat(t, lane as int, c + 1) == repeat(t, lane as int, c as int).push((t, lane as int)));
                    assert(lane_start + repeat(t, lane as int, c + 1) == next);
                    lemma_spawned_push(start, old_enemies_of(enemies@), enemies@, order, t, lane as int);
                    order = next;
                }
                c += 1;
            }
            proof {
                if count > 0 {
                    assert(c == count);
                } else {
                    assert(repeat(t, lane as int, c as int) =~= repeat(t, lane as int, count as int));
                }
                assert(lanes_of(t, counts, lane + 1) == lanes_of(t, counts, lane as int) + repeat(t, lane as int, count as int));
                assert(order == kind_start + lanes_of(t, counts, lane + 1));
            }
            lane += 1;
        }
        proof {
            let r0 = repeat(t, 0, counts.0@[0] as int);
            let r1 = repeat(t, 1, counts.0@[1] as int);
            let r2 = repeat(t, 2, counts.0@[2] as int);
            assert(lanes_of(t, counts, 0) == Seq::<(EnemyType, int)>::empty());
            assert(lanes_of(t, counts, 1) =~= r0);
            assert(lanes_of(t, counts, 2) =~= r0 + r1);
            assert(lanes_of(t, counts, 3) =~= r0 + r1 + r2);
            if kind == 0 {
                assert(order =~= r0 + r1 + r2);
            } else {
                assert(order =~= spawn_order(*wave));
            }
        }
        kind += 1;
    }
}

pub open spec fn lanes_of(t: EnemyType, counts: Wave, lanes: int) -> Seq<(EnemyType, int)>
    decreases lanes,
{
    if lanes <= 0 {
        seq![]
    } else {
        lanes_of(t, counts, lanes - 1) + repeat(t, lanes - 1, counts.0@[lanes - 1] as int)
    }
}

pub open spec fn old_enemies_of(s: Seq<EnemyBundle>) -> Seq<EnemyBundle> {
    s.drop_last()
}

/// `now` is `start` followed by a fresh enemy for each kind and lane of `order`.
pub open spec fn spawned(start: Seq<EnemyBundle>, now: Seq<EnemyBundle>, order: Seq<(EnemyType, int)>) -> bool {
    &&& now.len() == start.len() + order.len()
    &&& now.take(start.len() as int) == start
    &&& forall|k: int|
        0 <= k < order.len() ==> {
            let e = #[trigger] now[start.len() + k];
            let (t, lane) = order[k];
            fresh_enemy(e, t, lane, e.position) && near_spawn(e.position, lane)
        }
}

proof fn lemma_spawned_push(
    start: Seq<EnemyBundle>,
    before: Seq<EnemyBundle>,
    after: Seq<EnemyBundle>,
    order: Seq<(EnemyType, int)>,
    t: EnemyType,
    lane: int,
)
    requires
        spawned(start, before, order),
        after.len() == before.len() + 1,
        after.drop_last() == before,
        fresh_enemy(after.last(), t, lane, after.last().position),
        near_spawn(after.last().position, lane),
    ensures
        spawned(start, after, order.push((t, lane))),
{
    let o2 = order.push((t, lane));
    assert(after.take(start.len() as int) == before.take(start.len() as int));
    assert forall|k: int| 0 <= k < o2.len() implies {
        let e = #[trigger] after[start.len() + k];
        let (t2, lane2) = o2[k];
        fresh_enemy(e, t2, lane2, e.position) && near_spawn(e.position, lane2)
    } by {
        if k < order.len() {
            assert(after[start.len() + k] == before[start.len() + k]);
        } else {
            assert(after[start.len() + k] == after.last());
        }
    }
}

/// The scheduler run over `ticks` (game time and speed of each) from `w`,
/// with a table whose waves have the pauses `delays`: the state reached, and
/// how many waves were spawned, how many ends of day and how many victories
/// were announced.
pub open spec fn run_waves(w: CurrentWave, ticks: Seq<(int, int)>, delays: Seq<int>) -> (
    CurrentWave,
    nat,
    nat,
    nat,
)
    decreases ticks.len(),
{
    if ticks.len() == 0 {
        (w, 0, 0, 0)
    } else {
        let (w1, s, d, v) = run_waves(w, ticks.drop_last(), delays);
        let (now, speed) = ticks.last();
        let delay = if w1.wave_idx < delays.len() {
            delays[w1.wave_idx as int]
        } else {
            0
        };
        let (w2, t) = wave_step(w1, now, speed, delays.len() as int, delay);
        (
            w2,
            s + if t.spawned_wave.is_some() {
                1nat
            } else {
                0nat
            },
            d + if t.end_of_day == Some(false) {
                1nat
            } else {
                0nat
            },
            v + if t.end_of_day == Some(true) {
                1nat
            } else {
                0nat
            },
        )
    }
}

/// Ends of day announced once `s` waves were spawned: one before each wave
/// whose index is a positive multiple of four.
pub open spec fn day_ends_for(s: nat) -> nat {
    if s == 0 {
        0
    } else {
        ((s - 1) / WAVES_PER_DAY as int) as nat
    }
}

/// From the first wave, over any ticks before the end of time: the wave
/// index counts the waves spawned and never passes the table's length, so
/// after as many spawns as there are waves no tick spawns again; an end of
/// day was announced once for each four-wave boundary crossed; and the
/// victory was announced at most once, only after every wave, and leaves the
/// scheduler never due again.
pub proof fn lemma_wave_schedule(w: CurrentWave, ticks: Seq<(int, int)>, delays: Seq<int>)
    requires
        w.wave_idx == 0,
        delays.len() <= usize::MAX,
        forall|k: int| 0 <= k < ticks.len() ==> (#[trigger] ticks[k]).0 < i64::MAX,
    ensures
        ({
            let (w2, s, d, v) = run_waves(w, ticks, delays);
            &&& w2.wave_idx == s
            &&& s <= delays.len()
            &&& d == day_ends_for(s)
            &&& v <= 1
            &&& v == 1 ==> s == delays.len() && w2.next_wave_time == i64::MAX
        }),
    decreases ticks.len(),
{
    if ticks.len() > 0 {
        let init = ticks.drop_last();
        assert forall|k: int| 0 <= k < init.len() implies (#[trigger] init[k]).0 < i64::MAX by {
            assert(init[k] == ticks[k]);
        }
        lemma_wave_schedule(w, init, delays);
        let (w1, s, d, v) = run_waves(w, init, delays);
        let (now, speed) = ticks.last();
        assert(ticks.last() == ticks[ticks.len() - 1]);
        if !(w1.next_wave_time > now || speed < PAUSED_SPEED) && w1.wave_idx < delays.len() {
            let k = s as int;
            if k > 0 && k % 4 == 0 {
                assert((k + 1 - 1) / 4 == (k - 1) / 4 + 1);
            } else if k > 0 {
                assert((k + 1 - 1) / 4 == (k - 1) / 4);
            }
        }
    }
}

} // verus!
