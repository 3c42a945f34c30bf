//! The integrator's decisions: which pixel an entry of the frame buffer is,
//! what a path does next, and when Russian roulette ends it.

use vstd::prelude::*;
use rand_pcg::Pcg64;
use rand::seq::SliceRandom;
use crate::light::{EmittedRadiance, SampledLightRadiance};
use crate::material::black;
use crate::math::Vec3;
use crate::scalar::{Scalar, EPSILON_KEY, ONE_KEY};
use crate::shading::{Pdf, SampledRadiance};

verus! {

/// A path plays Russian roulette only at depths above this one.
pub const MIN_RR_DEPTH: u32 = 5;

/// How much work goes into a picture.
#[derive(Clone, Copy, Debug, PartialEq, Eq, Structural)]
pub struct RenderOptions {
    pub samples_per_pixel: u32,
    pub max_depth: u32,
}

/// The number of pixels of a picture, where a 32-bit index can count them.
pub fn pixel_count(width: u32, height: u32) -> (r: Option<u32>)
    ensures
        r is Some <==> width * height <= u32::MAX,
        r matches Some(n) ==> n == width * height,
{
    assert(width * height <= 0xFFFF_FFFF * 0xFFFF_FFFF) by (nonlinear_arith)
        requires
            width <= 0xFFFF_FFFF,
            height <= 0xFFFF_FFFF,
    ;
    let n: u64 = (width as u64) * (height as u64);
    if n <= u32::MAX as u64 {
        Some(n as u32)
    } else {
        None
    }
}

/// The column and row of the pixel that entry `idx` of a frame buffer holds:
/// the buffer runs through the picture row by row.
pub fn pixel_of(idx: u32, width: u32) -> (r: (u32, u32))
    requires
        width > 0,
    ensures
        r.0 == idx % width,
        r.1 == idx / width,
        r.0 < width,
        r.1 * width + r.0 == idx,
{
    proof {
        vstd::arithmetic::div_mod::lemma_fundamental_div_mod(idx as int, width as int);
        vstd::arithmetic::mul::lemma_mul_is_commutative(width as int, (idx / width) as int);
    }
    (idx % width, idx / width)
}

/// Every pixel has one entry of the frame buffer, and no other pixel shares
/// it: the pixel in column `px` of row `py` is held by entry
/// `py * width + px` and by no other.
pub proof fn lemma_one_entry_per_pixel(width: int, height: int, px: int, py: int, idx: int)
    requires
        0 <= px < width,
        0 <= py < height,
    ensures
        0 <= py * width + px < width * height,
        (py * width + px) % width == px,
        (py * width + px) / width == py,
        0 <= idx && idx % width == px && idx / width == py ==> idx == py * width + px,
{
    vstd::arithmetic::div_mod::lemma_fundamental_div_mod_converse(py * width + px, width, py, px);
    vstd::arithmetic::div_mod::lemma_fundamental_div_mod(idx, width);
    assert(py * width + px < width * height) by (nonlinear_arith)
        requires
            0 <= px < width,
            0 <= py < height,
    ;
    assert(0 <= py * width) by (nonlinear_arith)
        requires
            0 <= py,
            0 < width,
    ;
    assert(width * (idx / width) == (idx / width) * width) by (nonlinear_arith);
}

/// Fills the frame buffer: every entry gets what `shade` gives for its
/// pixel.
pub fn render_to<F: Fn(u32, u32) -> Vec3>(buf: &mut Vec<Vec3>, width: u32, height: u32, shade: F)
    requires
        old(buf).len() == width * height,
        width * height <= u32::MAX,
        forall|px: u32, py: u32| px < width && py < height ==> call_requires(shade, (px, py)),
    ensures
        final(buf).len() == old(buf).len(),
        forall|idx: int|
            0 <= idx < final(buf).len() ==> call_ensures(
                shade,
                ((idx % width as int) as u32, (idx / width as int) as u32),
                #[trigger] final(buf)[idx],
            ),
{
    let n = buf.len();
    let mut i: usize = 0;
    while i < n
        invariant
            i <= n,
            n == buf.len(),
            n == width * height,
            width * height <= u32::MAX,
            forall|px: u32, py: u32| px < width && py < height ==> call_requires(shade, (px, py)),
            forall|idx: int|
                0 <= idx < i ==> call_ensures(
                    shade,
                    ((idx % width as int) as u32, (idx / width as int) as u32),
                    #[trigger] buf[idx],
                ),
        decreases n - i,
    {
        assert(width > 0) by (nonlinear_arith)
            requires
                i < width * height,
        ;
        let (px, py) = pixel_of(i as u32, width);
        assert(py < height) by (nonlinear_arith)
            requires
                py * width + px == i,
                i < width * height,
                width > 0,
        ;
        let value = shade(px, py);
        buf.set(i, value);
        i += 1;
    }
}

/// What the caller of a path does next.
#[derive(Clone, Copy, Debug, PartialEq, Eq, Structural)]
pub enum Step {
    /// Find the nearest hit of the path's ray in the scene.
    Intersect,
    /// Estimate the light that reaches the hit directly, and add it,
    /// weighted by the throughput, to the path's radiance.
    SampleLights,
    /// Sample the material at the hit, and multiply the throughput by the
    /// sample's scaled colour.
    SampleBsdf,
    /// Draw a number between zero and one for the roulette, which the path
    /// survives with probability `q`.
    Draw { q: Scalar },
    /// Go on along the sampled direction, after dividing the throughput by
    /// `rescale` where one is given.
    Spawn { rescale: Option<Scalar> },
    /// The path is over: its radiance is the estimate.
    Finish,
}

/// What the caller reports of the step it has done.
#[derive(Clone, Copy, Debug, PartialEq, Eq, Structural)]
pub enum Event {
    /// The ray left the scene.
    Miss,
    /// The ray hit a surface, whose material scatters into a single
    /// direction only, or not.
    Hit { specular: bool },
    /// The direct light has been added.
    Lit,
    /// The material declined to scatter.
    Absorbed,
    /// The material scattered; `throughput` is what the path carries after
    /// it.
    Scattered { throughput: Vec3 },
    /// The number drawn for the roulette.
    Drawn { u: Scalar },
    /// The path goes on with its new ray.
    Spawned,
}

/// One path from the camera: how many bounces it has made, how many it may
/// make, and what it waits for.
#[derive(Clone, Copy, Debug, PartialEq, Eq, Structural)]
pub struct Path {
    pub depth: u32,
    pub max_depth: u32,
    pub next: Step,
}

impl Path {
    /// The path at its start.
    pub open spec fn start_spec(max_depth: u32) -> Path {
        Path { depth: 0, max_depth, next: if max_depth == 0 { Step::Finish } else { Step::Intersect } }
    }

    /// The event is one that the step the path waits for can end in.
    pub open spec fn expects_spec(self, event: Event) -> bool {
        match (self.next, event) {
            (Step::Intersect, Event::Miss) => true,
            (Step::Intersect, Event::Hit { .. }) => true,
            (Step::SampleLights, Event::Lit) => true,
            (Step::SampleBsdf, Event::Absorbed) => true,
            (Step::SampleBsdf, Event::Scattered { .. }) => true,
            (Step::Draw { .. }, Event::Drawn { .. }) => true,
            (Step::Spawn { .. }, Event::Spawned) => self.depth < self.max_depth,
            _ => false,
        }
    }

    /// What roulette makes of a path after `depth` bounces, by the greatest
    /// component of its throughput, `q`: up to the burn-in depth the path
    /// goes on; beyond it, a path with next to no throughput ends, one with
    /// less than full throughput draws, and any other goes on.
    pub open spec fn roulette_spec(depth: u32, throughput: Vec3) -> Step {
        let q = throughput.max_spec();
        if depth > MIN_RR_DEPTH {
            if q.lt_spec(Scalar { key: EPSILON_KEY }) {
                Step::Finish
            } else if q.lt_spec(Scalar { key: ONE_KEY }) {
                Step::Draw { q }
            } else {
                Step::Spawn { rescale: None }
            }
        } else {
            Step::Spawn { rescale: None }
        }
    }

    /// The step that follows the event.
    pub open spec fn step_after(self, event: Event) -> Step {
        match (self.next, event) {
            (Step::Intersect, Event::Hit { specular }) => if specular {
                Step::SampleBsdf
            } else {
                Step::SampleLights
            },
            (Step::SampleLights, Event::Lit) => Step::SampleBsdf,
            (Step::SampleBsdf, Event::Scattered { throughput }) => Self::roulette_spec(
                self.depth,
                throughput,
            ),
            (Step::Draw { q }, Event::Drawn { u }) => if q.lt_spec(u) {
                Step::Finish
            } else {
                Step::Spawn { rescale: Some(q) }
            },
            (Step::Spawn { .. }, Event::Spawned) => if self.depth + 1 < self.max_depth {
                Step::Intersect
            } else {
                Step::Finish
            },
            _ => Step::Finish,
        }
    }

    /// The path after the event: a bounce is counted when the path goes on
    /// with a new ray.
    pub open spec fn after(self, event: Event) -> Path {
        Path {
            depth: if event is Spawned && self.next is Spawn {
                (self.depth + 1) as u32
            } else {
                self.depth
            },
            max_depth: self.max_depth,
            next: self.step_after(event),
        }
    }

    /// The path's invariant: it has not made more bounces than it may, and
    /// where it has made them all it is over.
    pub open spec fn wf(self) -> bool {
        self.depth <= self.max_depth && (self.depth == self.max_depth ==> self.next is Finish)
    }

    /// An upper bound on the number of events that the path can still take.
    pub open spec fn remaining(self) -> nat {
        let stage: nat = match self.next {
            Step::Intersect => 5,
            Step::SampleLights => 4,
            Step::SampleBsdf => 3,
            Step::Draw { .. } => 2,
            Step::Spawn { .. } => 1,
            Step::Finish => 0,
        };
        if self.next is Finish {
            0
        } else {
            ((self.max_depth - self.depth - 1) * 5 + stage) as nat
        }
    }

    /// A path that may make `max_depth` bounces, at its start.
    pub fn start(max_depth: u32) -> (r: Path)
        ensures
            r == Self::start_spec(max_depth),
            r.wf(),
    {
        Path { depth: 0, max_depth, next: if max_depth == 0 { Step::Finish } else { Step::Intersect } }
    }

    /// Whether the event is one that the step the path waits for can end in.
    pub fn expects(&self, event: &Event) -> (r: bool)
        ensures
            r == self.expects_spec(*event),
    {
        match (self.next, *event) {
            (Step::Intersect, Event::Miss) => true,
            (Step::Intersect, Event::Hit { .. }) => true,
            (Step::SampleLights, Event::Lit) => true,
            (Step::SampleBsdf, Event::Absorbed) => true,
            (Step::SampleBsdf, Event::Scattered { .. }) => true,
            (Step::Draw { .. }, Event::Drawn { .. }) => true,
            (Step::Spawn { .. }, Event::Spawned) => self.depth < self.max_depth,
            _ => false,
        }
    }

    /// What roulette makes of a path after `depth` bounces, by the greatest
    /// component of its throughput.
    pub fn roulette(depth: u32, throughput: Vec3) -> (r: Step)
        ensures
            r == Self::roulette_spec(depth, throughput),
    {
        let q = throughput.max();
        if depth > MIN_RR_DEPTH {
            if q.lt(Scalar::epsilon()) {
                Step::Finish
            } else if q.lt(Scalar::one()) {
                Step::Draw { q }
            } else {
                Step::Spawn { rescale: None }
            }
        } else {
            Step::Spawn { rescale: None }
        }
    }

    /// Takes the event into the path, and tells what to do next. The path
    /// keeps its invariant and comes nearer to its end.
    pub fn advance(&mut self, event: Event) -> (r: Step)
        requires
            old(self).wf(),
            old(self).expects_spec(event),
        ensures
            *final(self) == old(self).after(event),
            r == final(self).next,
            final(self).wf(),
            final(self).remaining() < old(self).remaining(),
    {
        let next = match (self.next, event) {
            (Step::Intersect, Event::Hit { specular }) => if specular {
                Step::SampleBsdf
            } else {
                Step::SampleLights
            },
            (Step::SampleLights, Event::Lit) => Step::SampleBsdf,
            (Step::SampleBsdf, Event::Scattered { throughput }) => Self::roulette(
                self.depth,
                throughput,
            ),
            (Step::Draw { q }, Event::Drawn { u }) => if q.lt(u) {
                Step::Finish
            } else {
                Step::Spawn { rescale: Some(q) }
            },
            (Step::Spawn { .. }, Event::Spawned) => {
                self.depth = self.depth + 1;
                if self.depth < self.max_depth {
                    Step::Intersect
                } else {
                    Step::Finish
                }
            },
            _ => Step::Finish,
        };
        self.next = next;
        next
    }
}

impl Path {
    /// The events can be taken one after the other, each expected when it
    /// comes.
    pub open spec fn follows(self, events: Seq<Event>) -> bool
        decreases events.len(),
    {
        events.len() > 0 ==> self.expects_spec(events[0]) && self.after(events[0]).follows(
            events.drop_first(),
        )
    }

    /// The path after all the events.
    pub open spec fn run(self, events: Seq<Event>) -> Path
        decreases events.len(),
    {
        if events.len() == 0 {
            self
        } else {
            self.after(events[0]).run(events.drop_first())
        }
    }
}

/// Every path ends: whatever is reported to a path that may make
/// `max_depth` bounces, it takes no more than five events for each of them,
/// never counts more bounces than it may, and once it is over it expects
/// nothing more.
pub proof fn lemma_path_ends(path: Path, events: Seq<Event>)
    requires
        path.wf(),
        path.follows(events),
    ensures
        path.run(events).wf(),
        path.run(events).max_depth == path.max_depth,
        events.len() + path.run(events).remaining() <= path.remaining(),
        path.remaining() <= 5 * path.max_depth,
        path.next is Finish ==> events.len() == 0,
    decreases events.len(),
{
    if events.len() > 0 {
        lemma_path_ends(path.after(events[0]), events.drop_first());
    }
}

/// Light is sampled at a hit exactly where the material there scatters into
/// more than a single direction: after a hit on such a material the path
/// samples the lights and then the material, after a hit on any other it
/// samples the material at once. A hit never ends a path.
pub proof fn lemma_lights_where_not_specular(path: Path, specular: bool)
    requires
        path.next is Intersect,
    ensures
        path.expects_spec(Event::Hit { specular }),
        path.after(Event::Hit { specular }).next == if specular {
            Step::SampleBsdf
        } else {
            Step::SampleLights
        },
        !specular ==> path.after(Event::Hit { specular }).after(Event::Lit).next is SampleBsdf,
        path.after(Event::Hit { specular }).depth == path.depth,
{
}

/// Where no ray hits anything, no light is gathered: a path to which no hit
/// is reported takes at most one event, a miss, is over after it, and never
/// waits for light or for a material to be sampled.
pub proof fn lemma_no_hit_no_light(max_depth: u32, events: Seq<Event>)
    requires
        Path::start_spec(max_depth).follows(events),
        forall|i: int| 0 <= i < events.len() ==> !(#[trigger] events[i] is Hit),
    ensures
        events.len() <= 1,
        events.len() == 1 ==> events[0] is Miss && Path::start_spec(max_depth).run(events).next
            is Finish,
        Path::start_spec(max_depth).run(events).next is Intersect || Path::start_spec(
            max_depth,
        ).run(events).next is Finish,
        Path::start_spec(max_depth).run(events).depth == 0,
{
    let start = Path::start_spec(max_depth);
    if events.len() > 0 {
        let rest = events.drop_first();
        let after = start.after(events[0]);
        assert(events[0] is Miss);
        assert(after.next is Finish);
        assert(after.follows(rest));
        if rest.len() > 0 {
            assert(after.expects_spec(rest[0]));
        }
        assert(after.run(rest) == after);
    }
}

/// `Pcg64` of rand_pcg, the generator of random numbers that paths draw
/// from: it can be seeded, so that a picture can be made again.
#[verifier::external_type_specification]
#[verifier::external_body]
pub struct ExPcg64(Pcg64);

/// `SliceRandom::choose` of rand on a slice: a reference to one element of
/// the slice, picked at random, or nothing where the slice is empty.
#[verifier::external_body]
fn pick<'a, L>(items: &'a Vec<L>, rng: &mut Pcg64) -> (r: Option<&'a L>)
    ensures
        r is None <==> items.len() == 0,
        r matches Some(item) ==> items@.contains(*item),
{
    items.as_slice().choose(rng)
}

/// One of the lights, each as likely as any other, and the number of lights,
/// by which an estimate made with one light stands for all of them. Nothing
/// where there is no light.
pub fn choose_light<'a, L>(lights: &'a Vec<L>, rng: &mut Pcg64) -> (r: Option<(&'a L, usize)>)
    ensures
        r is None <==> lights.len() == 0,
        r matches Some((light, count)) ==> lights@.contains(*light) && count == lights.len(),
{
    match pick(lights, rng) {
        Some(light) => Some((light, lights.len())),
        None => None,
    }
}

/// The weight of a sample of the light in the estimate of direct light: one
/// for a delta, which no other strategy could have found; else what the
/// power heuristic gives for the sample's density against the material's.
pub open spec fn light_weight<W: FnOnce(Scalar, Vec3) -> Scalar>(
    sample: SampledRadiance,
    power2: W,
    weight: Scalar,
) -> bool {
    match sample.pdf {
        Pdf::Delta => weight == (Scalar { key: ONE_KEY }),
        Pdf::Real(density) => call_ensures(power2, (density, sample.dir), weight),
    }
}

/// What sampling the light contributes to the direct light at a hit.
///
/// Nothing where the light gave no sample, and nothing where `occluded`
/// finds something between the hit and the light, along the sample's
/// direction and short of its distance. Else what `contribute` makes of the
/// sample and its weight (see [`light_weight`]); `power2` is asked for the
/// weight only where the sample has a real density.
pub fn light_leg<
    O: FnOnce(Vec3, Scalar) -> bool,
    W: FnOnce(Scalar, Vec3) -> Scalar,
    C: FnOnce(Scalar, SampledRadiance) -> Vec3,
>(sample: Option<SampledLightRadiance>, occluded: O, power2: W, contribute: C) -> (r: Vec3)
    requires
        forall|dir: Vec3, t: Scalar| call_requires(occluded, (dir, t)),
        forall|density: Scalar, dir: Vec3| call_requires(power2, (density, dir)),
        forall|weight: Scalar, s: SampledRadiance| call_requires(contribute, (weight, s)),
    ensures
        match sample {
            None => r == black(),
            Some(s) => exists|shadowed: bool| #[trigger]
                call_ensures(occluded, (s.radiance.dir, s.t), shadowed) && if shadowed {
                    r == black()
                } else {
                    exists|weight: Scalar|
                        light_weight(s.radiance, power2, weight) && #[trigger] call_ensures(
                            contribute,
                            (weight, s.radiance),
                            r,
                        )
                },
        },
{
    match sample {
        None => Vec3::from_element(Scalar::zero()),
        Some(s) => {
            let shadowed = occluded(s.radiance.dir, s.t);
            if shadowed {
                Vec3::from_element(Scalar::zero())
            } else {
                let weight = match s.radiance.pdf {
                    Pdf::Delta => Scalar::one(),
                    Pdf::Real(density) => power2(density, s.radiance.dir),
                };
                contribute(weight, s.radiance)
            }
        },
    }
}

/// What sampling the material contributes to the direct light at a hit.
///
/// Nothing where the material gave no sample or a delta, which no light of
/// any extent is met by; nothing where `emitted` finds that the sampled
/// direction does not run into the light; nothing where `occluded` finds
/// something before the light. Else what `contribute` makes of the sample,
/// of what the light emits, and of the weight that `power2` gives for the
/// sample's density against the light's.
pub fn bsdf_leg<
    E: FnOnce(Vec3) -> Option<EmittedRadiance>,
    O: FnOnce(Vec3, Scalar) -> bool,
    W: FnOnce(Scalar, Vec3) -> Scalar,
    C: FnOnce(Scalar, SampledRadiance, Vec3) -> Vec3,
>(sample: Option<SampledRadiance>, emitted: E, occluded: O, power2: W, contribute: C) -> (r: Vec3)
    requires
        forall|dir: Vec3| call_requires(emitted, (dir,)),
        forall|dir: Vec3, t: Scalar| call_requires(occluded, (dir, t)),
        forall|density: Scalar, dir: Vec3| call_requires(power2, (density, dir)),
        forall|weight: Scalar, s: SampledRadiance, color: Vec3|
            call_requires(contribute, (weight, s, color)),
    ensures
        match sample {
            None => r == black(),
            Some(s) => match s.pdf {
                Pdf::Delta => r == black(),
                Pdf::Real(density) => exists|light: Option<EmittedRadiance>| #[trigger]
                    call_ensures(emitted, (s.dir,), light) && match light {
                        None => r == black(),
                        Some(e) => exists|shadowed: bool| #[trigger]
                            call_ensures(occluded, (s.dir, e.t), shadowed) && if shadowed {
                                r == black()
                            } else {
                                exists|weight: Scalar|
                                    call_ensures(power2, (density, s.dir), weight)
                                        && #[trigger] call_ensures(
                                        contribute,
                                        (weight, s, e.color),
                                        r,
                                    )
                            },
                    },
            },
        },
{
    let s = match sample {
        None => {
            return Vec3::from_element(Scalar::zero());
        },
        Some(s) => s,
    };
    let density = match s.pdf {
        Pdf::Delta => {
            return Vec3::from_element(Scalar::zero());
        },
        Pdf::Real(density) => density,
    };
    let light = emitted(s.dir);
    match light {
        None => Vec3::from_element(Scalar::zero()),
        Some(e) => {
            let shadowed = occluded(s.dir, e.t);
            if shadowed {
                Vec3::from_element(Scalar::zero())
            } else {
                let weight = power2(density, s.dir);
                contribute(weight, s, e.color)
            }
        },
    }
}

/// What a camera is made from.
#[derive(Clone, Copy, Debug, PartialEq, Eq, Structural)]
pub struct CameraOptions {
    pub pixel_width: u32,
    pub pixel_height: u32,
    /// Vertical field of view, in degrees.
    pub vert_fov: Scalar,
    /// Diameter of the lens; zero for a pinhole.
    pub aperture: Scalar,
    pub origin: Vec3,
    pub look_at: Vec3,
    pub vup: Vec3,
}

/// Why a camera cannot be made from its options.
#[derive(Clone, Copy, Debug, PartialEq, Eq, Structural)]
pub enum ConfigError {
    /// The picture has no columns or no rows.
    EmptyPicture,
    /// A parameter is an infinity or not a number.
    NotFinite,
    /// The lens has a negative diameter.
    NegativeAperture,
}

impl CameraOptions {
    /// All parameters are numbers other than infinities.
    pub open spec fn finite(self) -> bool {
        &&& self.vert_fov.finite()
        &&& self.aperture.finite()
        &&& self.origin.finite()
        &&& self.look_at.finite()
        &&& self.vup.finite()
    }

    /// What is wrong with the options, if anything: an empty picture before
    /// a parameter that is not finite, and that before a negative aperture.
    pub open spec fn check_spec(self) -> Result<(), ConfigError> {
        if self.pixel_width == 0 || self.pixel_height == 0 {
            Err(ConfigError::EmptyPicture)
        } else if !self.finite() {
            Err(ConfigError::NotFinite)
        } else if self.aperture.lt_spec(Scalar { key: 0 }) {
            Err(ConfigError::NegativeAperture)
        } else {
            Ok(())
        }
    }

    /// Tells whether a camera can be made from the options, and if not, why
    /// not.
    pub fn check(&self) -> (r: Result<(), ConfigError>)
        ensures
            r == self.check_spec(),
    {
        if self.pixel_width == 0 || self.pixel_height == 0 {
            return Err(ConfigError::EmptyPicture);
        }
        if !(self.vert_fov.is_finite() && self.aperture.is_finite() && self.origin.is_finite()
            && self.look_at.is_finite() && self.vup.is_finite()) {
            return Err(ConfigError::NotFinite);
        }
        if self.aperture.lt(Scalar::zero()) {
            return Err(ConfigError::NegativeAperture);
        }
        Ok(())
    }
}

/// A camera with a thin lens: where it stands, the corner of its viewport
/// and the two vectors that span it, the two axes across the lens, and the
/// size of the picture.
#[derive(Clone, Copy, Debug, PartialEq, Eq, Structural)]
pub struct Camera {
    pub origin: Vec3,
    pub bottom_left: Vec3,
    pub u: Vec3,
    pub v: Vec3,
    pub horiz: Vec3,
    pub vert: Vec3,
    pub lens_radius: Scalar,
    pub pixel_width: u32,
    pub pixel_height: u32,
    pub inv_width: Scalar,
    pub inv_height: Scalar,
}

impl Camera {
    /// By how much a ray's origin is moved off the camera's: by what
    /// `sample_lens` gives for the lens's radius where the lens has one,
    /// and not at all for a pinhole.
    pub fn dof_offset<S: FnOnce(Scalar) -> Vec3>(&self, sample_lens: S) -> (r: Vec3)
        requires
            forall|radius: Scalar| call_requires(sample_lens, (radius,)),
        ensures
            if (Scalar { key: 0 }).lt_spec(self.lens_radius) {
                call_ensures(sample_lens, (self.lens_radius,), r)
            } else {
                r == black()
            },
    {
        if Scalar::zero().lt(self.lens_radius) {
            sample_lens(self.lens_radius)
        } else {
            Vec3::from_element(Scalar::zero())
        }
    }

    pub fn pixel_width(&self) -> (r: u32)
        ensures
            r == self.pixel_width,
    {
        self.pixel_width
    }

    pub fn pixel_height(&self) -> (r: u32)
        ensures
            r == self.pixel_height,
    {
        self.pixel_height
    }
}

} // verus!
