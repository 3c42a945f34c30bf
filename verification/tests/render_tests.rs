use pathtracer::light::{EmittedRadiance, SampledLightRadiance};
use pathtracer::math::Vec3;
use pathtracer::render::{
    bsdf_leg, choose_light, light_leg, pixel_count, pixel_of, render_to, Camera, CameraOptions,
    ConfigError, Event, Path, RenderOptions, Step, MIN_RR_DEPTH,
};
use pathtracer::scalar::Scalar;
use pathtracer::shading::SampledRadiance;
use rand::{Rng, SeedableRng};
use rand_pcg::Pcg64;

fn s(x: f64) -> Scalar {
    Scalar::from_bits(x.to_bits())
}

fn f(x: Scalar) -> f64 {
    f64::from_bits(x.to_bits())
}

fn v(x: f64, y: f64, z: f64) -> Vec3 {
    Vec3::new(s(x), s(y), s(z))
}

fn black() -> Vec3 {
    v(0.0, 0.0, 0.0)
}

fn gray(x: f64) -> Vec3 {
    v(x, x, x)
}

/// The path after `bounces` bounces off matte surfaces, under full throughput.
fn path_at_depth(max_depth: u32, bounces: u32) -> Path {
    let mut path = Path::start(max_depth);
    for _ in 0..bounces {
        assert_eq!(path.advance(Event::Hit { specular: false }), Step::SampleLights);
        assert_eq!(path.advance(Event::Lit), Step::SampleBsdf);
        assert_eq!(path.advance(Event::Scattered { throughput: v(1.0, 1.0, 1.0) }), Step::Spawn { rescale: None });
        path.advance(Event::Spawned);
    }
    path
}

#[test]
fn render_options_hold_their_numbers() {
    let opts = RenderOptions { samples_per_pixel: 64, max_depth: 5 };
    assert_eq!(opts.samples_per_pixel, 64);
    assert_eq!(opts.max_depth, 5);
}

#[test]
fn pixel_count_is_the_product_where_it_fits() {
    assert_eq!(pixel_count(400, 225), Some(90_000));
    assert_eq!(pixel_count(0, 225), Some(0));
    assert_eq!(pixel_count(65_536, 65_535), Some(4_294_901_760));
    assert_eq!(pixel_count(65_536, 65_536), None);
    assert_eq!(pixel_count(u32::MAX, 1), Some(u32::MAX));
    assert_eq!(pixel_count(u32::MAX, 2), None);
}

#[test]
fn pixel_of_runs_row_by_row() {
    assert_eq!(pixel_of(0, 400), (0, 0));
    assert_eq!(pixel_of(399, 400), (399, 0));
    assert_eq!(pixel_of(400, 400), (0, 1));
    assert_eq!(pixel_of(45_200, 400), (0, 113));
    assert_eq!(pixel_of(89_999, 400), (399, 224));
    for idx in 0..60 {
        let (x, y) = pixel_of(idx, 7);
        assert_eq!(y * 7 + x, idx);
    }
}

#[test]
fn render_to_shades_every_pixel_in_row_major_order() {
    let mut buf = vec![black(); 12];
    render_to(&mut buf, 4, 3, |px: u32, py: u32| v(px as f64, py as f64, 1.0));
    for y in 0..3 {
        for x in 0..4 {
            assert_eq!(buf[y * 4 + x], v(x as f64, y as f64, 1.0));
        }
    }
}

#[test]
fn render_to_of_an_empty_picture_does_nothing() {
    let mut buf: Vec<Vec3> = Vec::new();
    render_to(&mut buf, 0, 5, |_px: u32, _py: u32| v(1.0, 1.0, 1.0));
    assert!(buf.is_empty());
}

#[test]
fn rendering_twice_with_seeded_pixels_gives_the_same_buffer() {
    let shade = |px: u32, py: u32| {
        let mut rng = Pcg64::seed_from_u64(((py as u64) << 32) | px as u64);
        let mut sum = 0.0;
        for _ in 0..8 {
            sum += rng.gen::<f64>();
        }
        v(sum / 8.0, rng.gen::<f64>(), rng.gen::<f64>())
    };
    let mut first = vec![black(); 16 * 9];
    let mut second = vec![black(); 16 * 9];
    render_to(&mut first, 16, 9, shade);
    render_to(&mut second, 16, 9, shade);
    assert_eq!(first, second);
    assert_ne!(first[0], first[1]);
}

#[test]
fn a_path_in_an_empty_scene_ends_without_light() {
    let mut path = Path::start(10);
    assert_eq!(path.next, Step::Intersect);
    assert_eq!(path.advance(Event::Miss), Step::Finish);
    assert_eq!(path.depth, 0);
    assert!(!path.expects(&Event::Lit));
    assert!(!path.expects(&Event::Miss));
}

#[test]
fn an_empty_scene_renders_black() {
    // With no surface to hit, no step of a path adds light to its radiance.
    let shade = |_px: u32, _py: u32| {
        let mut radiance = [0.0, 0.0, 0.0];
        let mut path = Path::start(10);
        let mut step = path.next;
        while step != Step::Finish {
            step = match step {
                Step::Intersect => path.advance(Event::Miss),
                Step::SampleLights => {
                    radiance = [1.0, 1.0, 1.0];
                    path.advance(Event::Lit)
                }
                _ => unreachable!(),
            };
        }
        v(radiance[0], radiance[1], radiance[2])
    };
    let mut buf = vec![v(9.0, 9.0, 9.0); 6];
    render_to(&mut buf, 3, 2, shade);
    assert_eq!(buf, vec![black(); 6]);
}

#[test]
fn a_path_of_no_depth_is_over_at_once() {
    let path = Path::start(0);
    assert_eq!(path.next, Step::Finish);
    assert!(!path.expects(&Event::Miss));
}

#[test]
fn direct_light_is_sampled_at_matte_hits_only() {
    let mut path = Path::start(3);
    assert_eq!(path.advance(Event::Hit { specular: true }), Step::SampleBsdf);
    let mut path = Path::start(3);
    assert_eq!(path.advance(Event::Hit { specular: false }), Step::SampleLights);
    assert_eq!(path.advance(Event::Lit), Step::SampleBsdf);
}

#[test]
fn a_path_that_is_absorbed_ends() {
    let mut path = Path::start(3);
    path.advance(Event::Hit { specular: true });
    assert_eq!(path.advance(Event::Absorbed), Step::Finish);
}

#[test]
fn a_path_stops_at_its_depth() {
    let mut path = path_at_depth(3, 2);
    assert_eq!(path.depth, 2);
    assert_eq!(path.next, Step::Intersect);
    path.advance(Event::Hit { specular: true });
    path.advance(Event::Scattered { throughput: v(1.0, 1.0, 1.0) });
    assert_eq!(path.advance(Event::Spawned), Step::Finish);
    assert_eq!(path.depth, 3);
}

#[test]
fn a_path_expects_only_what_its_step_can_end_in() {
    let mut path = Path::start(3);
    assert!(path.expects(&Event::Miss));
    assert!(path.expects(&Event::Hit { specular: true }));
    assert!(!path.expects(&Event::Lit));
    assert!(!path.expects(&Event::Spawned));
    path.advance(Event::Hit { specular: false });
    assert!(path.expects(&Event::Lit));
    assert!(!path.expects(&Event::Absorbed));
    path.advance(Event::Lit);
    assert!(path.expects(&Event::Absorbed));
    assert!(path.expects(&Event::Scattered { throughput: v(0.5, 0.5, 0.5) }));
    assert!(!path.expects(&Event::Drawn { u: s(0.5) }));
}

#[test]
fn roulette_waits_for_the_burn_in() {
    assert_eq!(MIN_RR_DEPTH, 5);
    for depth in 0..=MIN_RR_DEPTH {
        assert_eq!(Path::roulette(depth, gray(0.0)), Step::Spawn { rescale: None });
        assert_eq!(Path::roulette(depth, gray(0.4)), Step::Spawn { rescale: None });
    }
    assert_eq!(Path::roulette(6, gray(0.4)), Step::Draw { q: s(0.4) });
}

#[test]
fn roulette_by_throughput() {
    assert_eq!(Path::roulette(6, gray(0.0)), Step::Finish);
    assert_eq!(Path::roulette(6, gray(5e-10)), Step::Finish);
    assert_eq!(Path::roulette(6, gray(1e-9)), Step::Draw { q: s(1e-9) });
    assert_eq!(Path::roulette(6, gray(0.999)), Step::Draw { q: s(0.999) });
    assert_eq!(Path::roulette(6, gray(1.0)), Step::Spawn { rescale: None });
    assert_eq!(Path::roulette(6, gray(3.0)), Step::Spawn { rescale: None });
    // The greatest component decides.
    assert_eq!(Path::roulette(6, v(0.2, 0.7, 0.1)), Step::Draw { q: s(0.7) });
    assert_eq!(Path::roulette(6, v(0.2, 0.7, 1.5)), Step::Spawn { rescale: None });
    assert_eq!(Path::roulette(6, v(1e-10, 0.0, 2e-10)), Step::Finish);
}

#[test]
fn roulette_kills_where_the_draw_is_above_q() {
    let mut path = path_at_depth(20, 6);
    path.advance(Event::Hit { specular: true });
    assert_eq!(path.advance(Event::Scattered { throughput: v(0.4, 0.1, 0.2) }), Step::Draw { q: s(0.4) });
    let mut killed = path;
    assert_eq!(killed.advance(Event::Drawn { u: s(0.41) }), Step::Finish);
    let mut survivor = path;
    assert_eq!(survivor.advance(Event::Drawn { u: s(0.4) }), Step::Spawn { rescale: Some(s(0.4)) });
    assert_eq!(survivor.advance(Event::Spawned), Step::Intersect);
    assert_eq!(survivor.depth, 7);
}

#[test]
fn roulette_keeps_the_mean() {
    // Paths of throughput 0.4 beyond the burn-in: what the survivors carry,
    // rescaled, is on average what all carried before.
    let mut rng = Pcg64::seed_from_u64(0x5EED_0003);
    let at_hit = {
        let mut path = path_at_depth(20, 6);
        path.advance(Event::Hit { specular: true });
        path
    };
    let trials = 1_000_000;
    let q = 0.4;
    let mut survivors = 0u32;
    let mut carried = 0.0;
    for _ in 0..trials {
        let mut path = at_hit;
        let step = path.advance(Event::Scattered { throughput: v(0.1, q, 0.2) });
        assert_eq!(step, Step::Draw { q: s(q) });
        match path.advance(Event::Drawn { u: s(rng.gen::<f64>()) }) {
            Step::Spawn { rescale: Some(by) } => {
                survivors += 1;
                carried += q / f(by);
            }
            Step::Finish => {}
            other => panic!("unexpected step {:?}", other),
        }
    }
    let survival = survivors as f64 / trials as f64;
    assert!((survival - q).abs() < 0.01 * q);
    let mean = carried / trials as f64;
    assert!((mean - q).abs() < 0.01 * q);
}

#[test]
fn every_path_ends_within_five_events_a_bounce() {
    let mut rng = Pcg64::seed_from_u64(0x5EED_0004);
    for _ in 0..2_000 {
        let max_depth = rng.gen_range(0..12u32);
        let mut path = Path::start(max_depth);
        let mut events = 0;
        let mut step = path.next;
        while step != Step::Finish {
            let event = match step {
                Step::Intersect => {
                    if rng.gen_range(0..10) == 0 {
                        Event::Miss
                    } else {
                        Event::Hit { specular: rng.gen() }
                    }
                }
                Step::SampleLights => Event::Lit,
                Step::SampleBsdf => {
                    if rng.gen_range(0..10) == 0 {
                        Event::Absorbed
                    } else {
                        Event::Scattered { throughput: v(rng.gen_range(0.0..1.5), 0.3, 0.1) }
                    }
                }
                Step::Draw { .. } => Event::Drawn { u: s(rng.gen::<f64>()) },
                Step::Spawn { .. } => Event::Spawned,
                Step::Finish => unreachable!(),
            };
            assert!(path.expects(&event));
            step = path.advance(event);
            events += 1;
            assert!(path.depth <= max_depth);
        }
        assert!(events <= 5 * max_depth);
    }
}

#[test]
fn choose_light_picks_one_of_the_lights() {
    let mut rng = Pcg64::seed_from_u64(0x5EED_0006);
    let none: Vec<u32> = Vec::new();
    assert_eq!(choose_light(&none, &mut rng), None);
    let one = vec![7u32];
    assert_eq!(choose_light(&one, &mut rng), Some((&7, 1)));
    let lights = vec![10u32, 20, 30];
    let mut seen = [false; 3];
    for _ in 0..200 {
        let (light, count) = choose_light(&lights, &mut rng).unwrap();
        assert_eq!(count, 3);
        let at = lights.iter().position(|l| l == light).unwrap();
        seen[at] = true;
    }
    assert_eq!(seen, [true, true, true]);
}

#[test]
fn choose_light_with_one_seed_picks_the_same_lights() {
    let lights = vec![10u32, 20, 30, 40, 50];
    let draw = |seed: u64| {
        let mut rng = Pcg64::seed_from_u64(seed);
        let mut picked = Vec::new();
        for _ in 0..50 {
            picked.push(*choose_light(&lights, &mut rng).unwrap().0);
        }
        picked
    };
    assert_eq!(draw(7), draw(7));
    assert_ne!(draw(7), draw(8));
}

#[test]
fn light_leg_weights_a_delta_sample_fully() {
    let sample = SampledLightRadiance::new(
        SampledRadiance::new_delta(v(0.0, 0.6, 0.8), v(0.1, 0.1, 0.1)),
        s(10.0),
    );
    let r = light_leg(
        Some(sample),
        |dir: Vec3, t: Scalar| {
            assert_eq!(dir, v(0.0, 0.6, 0.8));
            assert_eq!(t, s(10.0));
            false
        },
        |_density: Scalar, _dir: Vec3| panic!("a delta takes no part in the heuristic"),
        |weight: Scalar, sample: SampledRadiance| {
            let w = f(weight) * f(sample.dir.z);
            v(w * f(sample.color.x), w * f(sample.color.y), w * f(sample.color.z))
        },
    );
    assert_eq!(r, v(0.8 * 0.1, 0.8 * 0.1, 0.8 * 0.1));
}

#[test]
fn light_leg_weights_a_real_sample_by_the_heuristic() {
    let sample = SampledLightRadiance::new(
        SampledRadiance::new_real(v(0.0, 0.6, 0.8), v(1.0, 1.0, 1.0), s(3.0)),
        s(10.0),
    );
    let power2 = |fd: f64, g: f64| fd * fd / (fd * fd + g * g);
    let r = light_leg(
        Some(sample),
        |_dir: Vec3, _t: Scalar| false,
        |density: Scalar, _dir: Vec3| s(power2(f(density), 4.0)),
        |weight: Scalar, _sample: SampledRadiance| v(f(weight), 0.0, 0.0),
    );
    assert_eq!(r, v(9.0 / 25.0, 0.0, 0.0));
    assert_eq!(power2(3.0, 4.0) + power2(4.0, 3.0), 1.0);
}

#[test]
fn light_leg_gives_nothing_without_a_sample_or_in_shadow() {
    let sample = SampledLightRadiance::new(
        SampledRadiance::new_delta(v(0.0, 0.6, 0.8), v(0.1, 0.1, 0.1)),
        s(10.0),
    );
    let lit = |_weight: Scalar, _sample: SampledRadiance| v(1.0, 1.0, 1.0);
    let heuristic = |_density: Scalar, _dir: Vec3| s(0.5);
    assert_eq!(light_leg(None, |_d: Vec3, _t: Scalar| false, heuristic, lit), black());
    assert_eq!(light_leg(Some(sample), |_d: Vec3, _t: Scalar| true, heuristic, lit), black());
    assert_eq!(light_leg(Some(sample), |_d: Vec3, _t: Scalar| false, heuristic, lit), v(1.0, 1.0, 1.0));
}

#[test]
fn bsdf_leg_skips_delta_samples_and_lights_that_are_not_met() {
    let lit = |_w: Scalar, _s: SampledRadiance, _c: Vec3| v(1.0, 1.0, 1.0);
    let heuristic = |_density: Scalar, _dir: Vec3| s(0.5);
    let open = |_d: Vec3, _t: Scalar| false;
    let shut = |_d: Vec3, _t: Scalar| true;
    let glow = |_d: Vec3| Some(EmittedRadiance::new(v(2.0, 2.0, 2.0), s(5.0)));
    let dark = |_d: Vec3| None;
    let real = SampledRadiance::new_real(v(0.0, 0.6, 0.8), v(0.3, 0.3, 0.3), s(0.25));
    let delta = SampledRadiance::new_delta(v(0.0, 0.6, 0.8), v(0.3, 0.3, 0.3));
    assert_eq!(bsdf_leg(None, glow, open, heuristic, lit), black());
    assert_eq!(bsdf_leg(Some(delta), glow, open, heuristic, lit), black());
    assert_eq!(bsdf_leg(Some(real), dark, open, heuristic, lit), black());
    assert_eq!(bsdf_leg(Some(real), glow, shut, heuristic, lit), black());
    assert_eq!(bsdf_leg(Some(real), glow, open, heuristic, lit), v(1.0, 1.0, 1.0));
}

#[test]
fn bsdf_leg_hands_on_weight_sample_and_emitted_colour() {
    let real = SampledRadiance::new_real(v(0.0, 0.6, 0.8), v(0.5, 0.5, 0.5), s(0.25));
    let r = bsdf_leg(
        Some(real),
        |dir: Vec3| {
            assert_eq!(dir, v(0.0, 0.6, 0.8));
            Some(EmittedRadiance::new(v(2.0, 4.0, 8.0), s(5.0)))
        },
        |dir: Vec3, t: Scalar| {
            assert_eq!(dir, v(0.0, 0.6, 0.8));
            assert_eq!(t, s(5.0));
            false
        },
        |density: Scalar, _dir: Vec3| {
            assert_eq!(density, s(0.25));
            s(0.5)
        },
        |weight: Scalar, sample: SampledRadiance, color: Vec3| {
            let w = f(weight) * f(sample.color.x);
            v(w * f(color.x), w * f(color.y), w * f(color.z))
        },
    );
    assert_eq!(r, v(0.5, 1.0, 2.0));
}

fn options() -> CameraOptions {
    CameraOptions {
        pixel_width: 400,
        pixel_height: 225,
        vert_fov: s(50.0),
        aperture: s(0.0),
        origin: v(0.0, 0.0, 3.0),
        look_at: v(0.0, 0.0, 0.0),
        vup: v(0.0, 1.0, 0.0),
    }
}

#[test]
fn camera_options_that_are_in_order_pass() {
    assert_eq!(options().check(), Ok(()));
    let mut lens = options();
    lens.aperture = s(0.1);
    assert_eq!(lens.check(), Ok(()));
    let mut signed_zero = options();
    signed_zero.aperture = s(-0.0);
    assert_eq!(signed_zero.check(), Ok(()));
}

#[test]
fn camera_options_with_an_empty_picture_are_rejected() {
    let mut o = options();
    o.pixel_width = 0;
    assert_eq!(o.check(), Err(ConfigError::EmptyPicture));
    let mut o = options();
    o.pixel_height = 0;
    o.aperture = s(-1.0);
    assert_eq!(o.check(), Err(ConfigError::EmptyPicture));
}

#[test]
fn camera_options_that_are_not_finite_are_rejected() {
    let mut o = options();
    o.vert_fov = s(f64::NAN);
    assert_eq!(o.check(), Err(ConfigError::NotFinite));
    let mut o = options();
    o.aperture = s(f64::NEG_INFINITY);
    assert_eq!(o.check(), Err(ConfigError::NotFinite));
    let mut o = options();
    o.origin = v(0.0, f64::INFINITY, 0.0);
    assert_eq!(o.check(), Err(ConfigError::NotFinite));
    let mut o = options();
    o.look_at = v(f64::NAN, 0.0, 0.0);
    assert_eq!(o.check(), Err(ConfigError::NotFinite));
    let mut o = options();
    o.vup = v(0.0, 0.0, f64::INFINITY);
    assert_eq!(o.check(), Err(ConfigError::NotFinite));
}

#[test]
fn camera_options_with_a_negative_aperture_are_rejected() {
    let mut o = options();
    o.aperture = s(-0.1);
    assert_eq!(o.check(), Err(ConfigError::NegativeAperture));
}

fn camera(lens_radius: f64) -> Camera {
    Camera {
        origin: v(0.0, 0.0, 3.0),
        bottom_left: v(-1.0, -1.0, 0.0),
        u: v(1.0, 0.0, 0.0),
        v: v(0.0, 1.0, 0.0),
        horiz: v(2.0, 0.0, 0.0),
        vert: v(0.0, 2.0, 0.0),
        lens_radius: s(lens_radius),
        pixel_width: 400,
        pixel_height: 225,
        inv_width: s(1.0 / 400.0),
        inv_height: s(1.0 / 225.0),
    }
}

#[test]
fn a_pinhole_camera_does_not_sample_its_lens() {
    let offset = camera(0.0).dof_offset(|_r: Scalar| panic!("a pinhole has no lens"));
    assert_eq!(offset, black());
}

#[test]
fn a_camera_with_a_lens_samples_it() {
    let offset = camera(0.25).dof_offset(|r: Scalar| v(f(r) * 0.5, f(r) * -0.5, 0.0));
    assert_eq!(offset, v(0.125, -0.125, 0.0));
}

#[test]
fn camera_reports_the_size_of_its_picture() {
    let cam = camera(0.0);
    assert_eq!(cam.pixel_width(), 400);
    assert_eq!(cam.pixel_height(), 225);
}
