use vstd::prelude::*;

pub mod geometrify;
pub mod model;
pub mod raster;

use crate::raster::Image;
use nanorand::Rng;

verus! {

/// A 2D point with integer coordinates.
#[derive(Clone, Copy, Debug, PartialEq, Eq, Structural)]
pub struct Point {
    pub x: i32,
    pub y: i32,
}

impl Point {
    /// Mathematical cross product of the two position vectors.
    pub open spec fn cross_spec(self, b: Point) -> int {
        self.x * b.y - self.y * b.x
    }

    /// 2D cross product `x1*y2 - y1*x2` of the position vectors of `self` and `b`.
    pub fn cross_product(&self, b: Point) -> (r: i32)
        requires
            -0x8000_0000 <= self.x * b.y <= 0x7fff_ffff,
            -0x8000_0000 <= self.y * b.x <= 0x7fff_ffff,
            -0x8000_0000 <= self.x * b.y - self.y * b.x <= 0x7fff_ffff,
        ensures
            r == self.cross_spec(b),
    {
        self.x * b.y - self.y * b.x
    }
}

/// Axis-aligned rectangle given by its componentwise-minimal and
/// componentwise-maximal corners.
#[derive(Debug, Copy, Clone, PartialEq, Eq, Structural)]
pub struct BoundingBox {
    pub top_left: Point,
    pub bottom_right: Point,
}

/// A source of candidate vertices: repeatedly hands out points inside
/// `[0, width) x [0, height)`.
pub trait PointGenerator: Sized {
    /// The next point, with both coordinates strictly inside the given bounds.
    fn next_point(&mut self, width: u32, height: u32) -> (p: Point)
        requires
            1 <= width <= 0x4000_0000,
            1 <= height <= 0x4000_0000,
        ensures
            0 <= p.x < width,
            0 <= p.y < height,
    ;
}

#[verifier::external_type_specification]
#[verifier::external_body]
pub struct ExWyRand(nanorand::WyRand);

/// Relies on nanorand's `WyRand::new`: a generator freshly seeded from the
/// system's entropy source. Nothing can be promised about its state.
#[verifier::external_body]
fn wyrand_from_entropy() -> nanorand::WyRand {
    nanorand::WyRand::new()
}

/// Relies on nanorand's `Rng::generate_range` over `0..bound`: for `u32` it
/// returns Lemire's reduction `(bound * draw) >> 32` of a fresh 32-bit draw
/// (re-drawing in a rejection loop to unbias the result), which always lies
/// strictly below `bound`; with `bound >= 1` the empty-range panic cannot
/// fire. Which value comes back is left open.
#[verifier::external_body]
fn wyrand_below(rng: &mut nanorand::WyRand, bound: u32) -> (r: u32)
    requires
        bound >= 1,
    ensures
        r < bound,
{
    rng.generate_range(0..bound)
}

/// A point source drawing uniformly distributed coordinates from the WyRand
/// generator, seeded from system entropy.
pub struct RandomPointGenerator {
    rng: nanorand::WyRand,
}

impl RandomPointGenerator {
    pub fn new() -> RandomPointGenerator {
        RandomPointGenerator { rng: wyrand_from_entropy() }
    }
}

impl Default for RandomPointGenerator {
    fn default() -> Self {
        RandomPointGenerator::new()
    }
}

impl PointGenerator for RandomPointGenerator {
    fn next_point(&mut self, width: u32, height: u32) -> (p: Point) {
        let x: u32 = wyrand_below(&mut self.rng, width);
        let y: u32 = wyrand_below(&mut self.rng, height);
        Point { x: x as i32, y: y as i32 }
    }
}

/// The multiplier of the linear congruential step below.
pub open spec fn lcg_mul_spec() -> int {
    0x5851_f42d_4c95_7f2d
}

/// The increment of the linear congruential step below.
pub open spec fn lcg_add_spec() -> int {
    0x1442_6952_1fc3_b34b
}

/// One linear congruential step on a 64-bit state.
pub open spec fn lcg_next_spec(s: u64) -> u64 {
    ((s as int * lcg_mul_spec() + lcg_add_spec()) % 0x1_0000_0000_0000_0000) as u64
}

/// The coordinate a state yields for a bound: the high 31 bits of the state,
/// reduced modulo the bound.
pub open spec fn lcg_coord_spec(s: u64, bound: u32) -> int {
    (s as int / 0x2_0000_0000) % (bound as int)
}

/// A reproducible point source: a fixed linear congruential generator, fully
/// determined by its seed. Two generators with equal states yield equal
/// point sequences, which makes whole runs repeatable.
pub struct DeterministicPointGenerator {
    pub state: u64,
}

impl DeterministicPointGenerator {
    pub fn new(seed: u64) -> (r: DeterministicPointGenerator)
        ensures
            r.state == seed,
    {
        DeterministicPointGenerator { state: seed }
    }

    /// One step of the underlying congruence.
    fn advance(&mut self) -> (s: u64)
        ensures
            final(self).state == lcg_next_spec(old(self).state),
            s == final(self).state,
    {
        let wide: u128 = ((self.state as u128) * 0x5851_f42d_4c95_7f2d_u128)
            + 0x1442_6952_1fc3_b34b_u128;
        let next: u64 = (wide % 0x1_0000_0000_0000_0000_u128) as u64;
        self.state = next;
        next
    }
}

impl PointGenerator for DeterministicPointGenerator {
    fn next_point(&mut self, width: u32, height: u32) -> (p: Point)
        ensures
            final(self).state == lcg_next_spec(lcg_next_spec(old(self).state)),
            p.x == lcg_coord_spec(lcg_next_spec(old(self).state), width),
            p.y == lcg_coord_spec(lcg_next_spec(lcg_next_spec(old(self).state)), height),
    {
        let sx: u64 = self.advance();
        let x: u64 = (sx / 0x2_0000_0000) % (width as u64);
        let sy: u64 = self.advance();
        let y: u64 = (sy / 0x2_0000_0000) % (height as u64);
        Point { x: x as i32, y: y as i32 }
    }
}

/// A sink for progress ticks. A run announces its step count with `init`,
/// reports one `step` per finished iteration, and closes with `finish`; the
/// ghost counters let callers state that protocol exactly.
pub trait ProgressReporter: Sized {
    /// Whether this reporter's ghost counters are meaningful. Reporters of
    /// this library override it with `true` and then really count the
    /// calls; a foreign implementation may leave the default and promises
    /// nothing.
    open spec fn counted(&self) -> bool {
        false
    }

    open spec fn inits(&self) -> nat {
        0
    }

    open spec fn steps(&self) -> nat {
        0
    }

    open spec fn finishes(&self) -> nat {
        0
    }

    /// Announce a run of `count` steps; the step count starts over.
    fn init(&mut self, count: u64)
        requires
            old(self).counted() ==> old(self).inits() < 0xffff_ffff_ffff_ffff,
        ensures
            final(self).counted() == old(self).counted(),
            old(self).counted() ==> final(self).inits() == old(self).inits() + 1
                && final(self).steps() == 0 && final(self).finishes() == old(self).finishes(),
    ;

    /// Report one finished iteration.
    fn step(&mut self)
        requires
            old(self).counted() ==> old(self).steps() < 0xffff_ffff_ffff_ffff,
        ensures
            final(self).counted() == old(self).counted(),
            old(self).counted() ==> final(self).steps() == old(self).steps() + 1
                && final(self).inits() == old(self).inits() && final(self).finishes() == old(
                self
            ).finishes(),
    ;

    /// Close the run.
    fn finish(&mut self)
        requires
            old(self).counted() ==> old(self).finishes() < 0xffff_ffff_ffff_ffff,
        ensures
            final(self).counted() == old(self).counted(),
            old(self).counted() ==> final(self).finishes() == old(self).finishes() + 1
                && final(self).inits() == old(self).inits() && final(self).steps() == old(
                self
            ).steps(),
    ;
}

/// A reporter that swallows every tick.
pub struct SilentProgressReporter {
    init_count: Ghost<nat>,
    step_count: Ghost<nat>,
    finish_count: Ghost<nat>,
}

impl SilentProgressReporter {
    pub fn new() -> (r: SilentProgressReporter)
        ensures
            r.inits() == 0,
            r.steps() == 0,
            r.finishes() == 0,
    {
        SilentProgressReporter {
            init_count: Ghost(0),
            step_count: Ghost(0),
            finish_count: Ghost(0),
        }
    }
}

impl Default for SilentProgressReporter {
    fn default() -> (r: Self)
        ensures
            r.inits() == 0,
            r.steps() == 0,
            r.finishes() == 0,
    {
        SilentProgressReporter::new()
    }
}

impl ProgressReporter for SilentProgressReporter {
    closed spec fn counted(&self) -> bool {
        true
    }

    closed spec fn inits(&self) -> nat {
        self.init_count@
    }

    closed spec fn steps(&self) -> nat {
        self.step_count@
    }

    closed spec fn finishes(&self) -> nat {
        self.finish_count@
    }

    fn init(&mut self, _count: u64) {
        self.init_count = Ghost(self.init_count@ + 1);
        self.step_count = Ghost(0);
    }

    fn step(&mut self) {
        self.step_count = Ghost(self.step_count@ + 1);
    }

    fn finish(&mut self) {
        self.finish_count = Ghost(self.finish_count@ + 1);
    }
}

/// A reporter that counts the calls it receives, for observing the progress
/// protocol from the outside.
pub struct CountingProgressReporter {
    pub init_calls: u64,
    pub step_calls: u64,
    pub finish_calls: u64,
    pub announced: u64,
}

impl CountingProgressReporter {
    pub fn new() -> (r: CountingProgressReporter)
        ensures
            r.inits() == 0,
            r.steps() == 0,
            r.finishes() == 0,
            r.announced == 0,
    {
        CountingProgressReporter { init_calls: 0, step_calls: 0, finish_calls: 0, announced: 0 }
    }
}

impl ProgressReporter for CountingProgressReporter {
    open spec fn counted(&self) -> bool {
        true
    }

    open spec fn inits(&self) -> nat {
        self.init_calls as nat
    }

    open spec fn steps(&self) -> nat {
        self.step_calls as nat
    }

    open spec fn finishes(&self) -> nat {
        self.finish_calls as nat
    }

    fn init(&mut self, count: u64)
        ensures
            final(self).announced == count,
    {
        self.init_calls = self.init_calls + 1;
        self.step_calls = 0;
        self.announced = count;
    }

    fn step(&mut self) {
        self.step_calls = self.step_calls + 1;
    }

    fn finish(&mut self) {
        self.finish_calls = self.finish_calls + 1;
    }
}

/// An image-to-image transformation that reports its progress.
pub trait Filter: Sized {
    /// The inputs a run accepts.
    spec fn apply_req(&self, image: &Image) -> bool;

    /// How many progress steps a run reports.
    spec fn step_count(&self) -> nat;

    /// What a run promises of its output image.
    spec fn applied(&self, image: &Image, out: &Image) -> bool;

    /// Transform the image, reporting one `init`, then one `step` per
    /// iteration, then one `finish`.
    fn apply<P: ProgressReporter>(&mut self, image: &Image, progress: &mut P) -> (out: Image)
        requires
            old(self).apply_req(image),
            image.wf(),
            old(progress).counted() ==> old(progress).inits() < 0xffff_ffff_ffff_ffff
                && old(progress).finishes() < 0xffff_ffff_ffff_ffff,
            old(self).step_count() < 0xffff_ffff_ffff_ffff,
        ensures
            out.wf(),
            out.width == image.width,
            out.height == image.height,
            old(self).applied(image, &out),
            final(progress).counted() == old(progress).counted(),
            old(progress).counted() ==> final(progress).inits() == old(progress).inits() + 1
                && final(progress).steps() == old(self).step_count() && final(
                progress
            ).finishes() == old(progress).finishes() + 1,
    ;
}

} // verus!
