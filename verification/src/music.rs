use vstd::prelude::*;

verus! {

/// Ticks between consecutive notes.
pub const RATE: usize = 14;

/// A procedurally noodling background tune: a seed picks the melody, the
/// volume fades toward a target, and every `RATE` ticks one note plays.
#[derive(Debug, Clone, Copy, PartialEq, Eq, Structural)]
pub struct Music {
    pub seed: usize,
    pub base: i8,
    pub target_volume: u8,
    pub volume: u8,
    pub ticks: usize,
}

/// The eight-degree scale the melody draws from.
pub open spec fn spec_scale(i: int) -> i8 {
    if i == 0 {
        0
    } else if i == 1 {
        2
    } else if i == 2 {
        3
    } else if i == 3 {
        5
    } else if i == 4 {
        7
    } else if i == 5 {
        8
    } else if i == 6 {
        11
    } else {
        12
    }
}

/// The melody: every twelfth step is a ground tone or its octave, chosen by a
/// slow 17-cycle; the rest walk the scale pseudo-randomly from the seed. The
/// seed-times-step product wraps at the console's 32-bit word before the
/// scale lookup.
pub open spec fn spec_determine_note(t: int, seed: int) -> i8 {
    if t % 12 == 0 {
        if (5 * (t / 12)) % 17 < 5 {
            12
        } else {
            0
        }
    } else {
        spec_scale((((seed * t) % 0x100000000) % 313) % 8)
    }
}

/// Computes the scale offset of melody step `t` for a given seed.
pub fn determine_note(t: usize, seed: usize) -> (n: i8)
    ensures
        n == spec_determine_note(t as int, seed as int),
{
    let ground: usize = 12;
    if t % ground == 0 {
        if (5 * ((t / ground) as u128) % 17) < 5 {
            proof {
                assert(5 * ((t as int) / 12) % 17 == 5 * (((t / 12) as u128) as int) % 17);
            }
            12
        } else {
            0
        }
    } else {
        proof {
            assert((seed as u128 as int) * (t as u128 as int) < 0x100000000000000000000000000000000)
                by (nonlinear_arith)
                requires
                    0 <= (seed as u128 as int) < 0x10000000000000000,
                    0 <= (t as u128 as int) < 0x10000000000000000,
            ;
        }
        let wrapped: u128 = ((seed as u128) * (t as u128)) % 0x100000000;
        let offset: u128 = wrapped % 313;
        let idx: usize = (offset % 8) as usize;
        proof {
            assert((seed as int) * (t as int) == (seed as u128 as int) * (t as u128 as int));
        }
        if idx == 0 {
            0
        } else if idx == 1 {
            2
        } else if idx == 2 {
            3
        } else if idx == 3 {
            5
        } else if idx == 4 {
            7
        } else if idx == 5 {
            8
        } else if idx == 6 {
            11
        } else {
            12
        }
    }
}

impl Music {
    /// The tune played behind the main game.
    pub fn main_theme() -> (m: Music)
        ensures
            m == (Music { seed: 213, base: -9i8, target_volume: 30, volume: 0, ticks: 0 }),
    {
        Music { seed: 213, base: -9, target_volume: 30, volume: 0, ticks: 0 }
    }

    /// Advances the tune by one tick: on note ticks, fades the volume one
    /// step toward the target and hands back the (note, volume) pair to play;
    /// between notes it only counts.
    pub fn update(&mut self) -> (note: Option<(i8, u8)>)
        requires
            old(self).ticks < usize::MAX,
            -100 <= old(self).base <= 100,
        ensures
            final(self).ticks == old(self).ticks + 1,
            final(self).seed == old(self).seed,
            final(self).base == old(self).base,
            final(self).target_volume == old(self).target_volume,
            old(self).ticks % RATE != 0 ==> note is None && final(self).volume == old(self).volume,
            old(self).ticks % RATE == 0 ==> {
                &&& final(self).volume == (if old(self).volume < old(self).target_volume {
                    (old(self).volume + 1) as u8
                } else if old(self).volume > old(self).target_volume {
                    (old(self).volume - 1) as u8
                } else {
                    old(self).volume
                })
                &&& note == Some(
                    (
                        (old(self).base + spec_determine_note(
                            old(self).ticks as int / RATE as int,
                            old(self).seed as int,
                        )) as i8,
                        final(self).volume,
                    ),
                )
            },
    {
        let t = self.ticks / RATE;
        if self.ticks % RATE != 0 {
            self.ticks = self.ticks + 1;
            return None;
        }
        self.ticks = self.ticks + 1;
        if self.volume < self.target_volume {
            self.volume = self.volume + 1;
        } else if self.volume > self.target_volume {
            self.volume = self.volume - 1;
        }
        let note = self.base + determine_note(t, self.seed);
        Some((note, self.volume))
    }
}

} // verus!
