use pathtracer::bvh::{build, Entry};
use pathtracer::geom::{HitSide, RawHitInfo, Sphere};
use pathtracer::material::{Dielectric, SpecularScatter};
use pathtracer::math::{Aabb, Axis, OrthoNormalBasis, Slab, Vec3};
use pathtracer::scalar::Scalar;
use pathtracer::shading::ShadingInfo;
use rand::{Rng, SeedableRng};
use rand_pcg::Pcg64;

type V = [f64; 3];

fn s(x: f64) -> Scalar {
    Scalar::from_bits(x.to_bits())
}

fn f(x: Scalar) -> f64 {
    f64::from_bits(x.to_bits())
}

fn v(p: V) -> Vec3 {
    Vec3::new(s(p[0]), s(p[1]), s(p[2]))
}

fn a(p: Vec3) -> V {
    [f(p.x), f(p.y), f(p.z)]
}

fn dot(p: V, q: V) -> f64 {
    p[0] * q[0] + p[1] * q[1] + p[2] * q[2]
}

fn cross(p: V, q: V) -> V {
    [p[1] * q[2] - p[2] * q[1], p[2] * q[0] - p[0] * q[2], p[0] * q[1] - p[1] * q[0]]
}

fn scale(k: f64, p: V) -> V {
    [k * p[0], k * p[1], k * p[2]]
}

fn add(p: V, q: V) -> V {
    [p[0] + q[0], p[1] + q[1], p[2] + q[2]]
}

fn normalize(p: V) -> V {
    scale(1.0 / dot(p, p).sqrt(), p)
}

struct Ball {
    center: V,
    radius: f64,
}

fn entry(ball: &Ball) -> Entry {
    let r = [ball.radius; 3];
    Entry {
        bounds: Aabb::new(v(add(ball.center, scale(-1.0, r))), v(add(ball.center, r))),
        centroid: v(ball.center),
    }
}

fn extent(b: Aabb) -> Vec3 {
    v(add(a(b.max_point), scale(-1.0, a(b.min_point))))
}

fn passes(origin: V, dir: V, b: Aabb, lo: Scalar, hi: Scalar) -> bool {
    let (min, max) = (a(b.min_point), a(b.max_point));
    let slab = |i: usize| {
        let inv = 1.0 / dir[i];
        Slab {
            at_min: s((min[i] - origin[i]) * inv),
            at_max: s((max[i] - origin[i]) * inv),
            inv_dir: s(inv),
        }
    };
    Aabb::hit(&slab(0), &slab(1), &slab(2), lo, hi)
}

fn meets(origin: V, dir: V, ball: &Ball, t_max: Scalar) -> Option<RawHitInfo> {
    let oc = add(origin, scale(-1.0, ball.center));
    let b = dot(oc, dir);
    let disc = b * b - (dot(oc, oc) - ball.radius * ball.radius);
    let root = disc.sqrt();
    let t = f(Sphere::hit(s(disc), s(-b - root), s(-b + root), t_max)?);
    let n = scale(1.0 / ball.radius, add(add(origin, scale(t, dir)), scale(-1.0, ball.center)));
    Some(RawHitInfo { t: s(t), outward_normal: v(n) })
}

fn frame(w: V) -> [V; 3] {
    let other = match OrthoNormalBasis::helper_axis(s(w[0])) {
        Axis::Y => [0.0, 1.0, 0.0],
        _ => [1.0, 0.0, 0.0],
    };
    let u = normalize(cross(w, other));
    [u, cross(w, u), w]
}

/// Where glass of refractive index 1.5 sends a ray, with `drawn` as the
/// number drawn for the choice between reflection and refraction.
fn through_glass(info: &ShadingInfo, drawn: f64) -> SpecularScatter {
    let glass = Dielectric::new(s(1.5));
    let ratio = f(glass.refractive_ratio(info.side, |index: Scalar| s(1.0 / f(index))));
    let out = a(info.outgoing);
    let cos = f(info.cos_theta());
    let sin = (1.0 - cos * cos).sqrt();
    let r0 = ((1.0 - ratio) / (1.0 + ratio)).powi(2);
    let reflectance = r0 + (1.0 - r0) * (1.0 - cos).powi(5);
    let reflected = Dielectric::reflects(s(ratio * sin), s(reflectance), || s(drawn));
    Dielectric::sample_specular_scatter(info, reflected, || {
        let up = [0.0, 0.0, 1.0];
        let perp = scale(ratio, add(scale(cos, up), scale(-1.0, out)));
        let par = scale(-(1.0 - dot(perp, perp)).sqrt(), up);
        SpecularScatter::new(v(normalize(add(perp, par))), v([ratio * ratio; 3]))
    })
    .unwrap()
}

/// The primitives that a ray meets in turn, glass refracting it, until it
/// meets the ground or leaves the scene.
fn follow(balls: &Vec<Ball>, glass: usize, mut origin: V, mut dir: V, drawn: f64) -> Vec<(usize, HitSide)> {
    let entries: Vec<Entry> = balls.iter().map(entry).collect();
    let root = build(&entries, extent).unwrap();
    let mut met = Vec::new();
    for _ in 0..8 {
        let found = root.hit(
            s(f64::INFINITY),
            &|b: Aabb, lo: Scalar, hi: Scalar| passes(origin, dir, b, lo, hi),
            &|p: usize, t: Scalar| meets(origin, dir, &balls[p], t),
        );
        let (prim, raw) = match found {
            Some(hit) => hit,
            None => break,
        };
        let outward = a(raw.outward_normal);
        let side = HitSide::of(s(dot(dir, outward)));
        met.push((prim, side));
        if prim != glass {
            break;
        }
        let normal = match side {
            HitSide::Inside => a(raw.outward_normal.neg()),
            HitSide::Outside => outward,
        };
        let [u, w2, w] = frame(normal);
        let incoming = [dot(dir, u), dot(dir, w2), dot(dir, w)];
        let info = ShadingInfo { side, outgoing: v(incoming).neg() };
        let local = a(through_glass(&info, drawn).dir);
        origin = add(origin, scale(f(raw.t), dir));
        dir = normalize(add(add(scale(local[0], u), scale(local[1], w2)), scale(local[2], w)));
    }
    met
}

fn two_spheres() -> Vec<Ball> {
    vec![
        Ball { center: [0.0, -1000.0, 0.0], radius: 1000.0 },
        Ball { center: [0.0, 0.5, 0.0], radius: 0.5 },
    ]
}

#[test]
fn a_ray_through_the_middle_of_a_glass_ball_reaches_the_ground() {
    let origin = [0.0, 1.5, 3.0];
    let dir = normalize([0.0, -1.0, -3.0]);
    let met = follow(&two_spheres(), 1, origin, dir, 0.5);
    assert_eq!(met, vec![(1, HitSide::Outside), (1, HitSide::Inside), (0, HitSide::Outside)]);
}

#[test]
fn a_ray_off_the_middle_is_bent_towards_the_ground_behind_the_ball() {
    let origin = [0.0, 1.5, 3.0];
    let dir = normalize([0.1, -0.9, -3.0]);
    let met = follow(&two_spheres(), 1, origin, dir, 0.5);
    assert_eq!(met, vec![(1, HitSide::Outside), (1, HitSide::Inside), (0, HitSide::Outside)]);
}

#[test]
fn a_ray_that_is_reflected_by_chance_leaves_the_ball_outside() {
    let origin = [0.0, 1.5, 3.0];
    let dir = normalize([0.0, -1.0, -3.0]);
    // With zero drawn the ray is reflected at the first face, straight back.
    let met = follow(&two_spheres(), 1, origin, dir, 0.0);
    assert_eq!(met, vec![(1, HitSide::Outside)]);
}

#[test]
fn refraction_obeys_snell() {
    // A ray that meets glass from outside at 45 degrees.
    let c = 0.5f64.sqrt();
    let info = ShadingInfo { side: HitSide::Outside, outgoing: v([c, 0.0, c]) };
    let out = a(through_glass(&info, 0.5).dir);
    let sin_in = c;
    let sin_out = (out[0] * out[0] + out[1] * out[1]).sqrt();
    assert!((sin_in - 1.5 * sin_out).abs() < 1e-12);
    assert!(out[2] < 0.0 && out[0] < 0.0);
    assert_eq!(a(through_glass(&info, 0.5).attenuation), [(1.0 / 1.5) * (1.0 / 1.5); 3]);
    // From inside at the same angle all light is reflected.
    let info = ShadingInfo { side: HitSide::Inside, outgoing: v([c, 0.0, c]) };
    let scatter = through_glass(&info, 0.999);
    assert_eq!(scatter.dir, v([-c, -0.0, c]));
    assert_eq!(a(scatter.attenuation), [1.0; 3]);
}

#[test]
fn glass_met_from_outside_passes_on_no_more_light_than_it_receives() {
    let mut rng = Pcg64::seed_from_u64(0x5EED_0005);
    let trials = 20_000;
    let mut sum = 0.0;
    let mut reflected = 0;
    for _ in 0..trials {
        let z: f64 = rng.gen_range(0.001..1.0);
        let phi: f64 = rng.gen_range(0.0..std::f64::consts::TAU);
        let r = (1.0 - z * z).sqrt();
        let info = ShadingInfo { side: HitSide::Outside, outgoing: v([r * phi.cos(), r * phi.sin(), z]) };
        let scatter = through_glass(&info, rng.gen::<f64>());
        let passed = a(scatter.attenuation);
        assert!(passed[0] <= 1.0 && passed[1] <= 1.0 && passed[2] <= 1.0);
        sum += passed[0];
        if f(scatter.dir.z) > 0.0 {
            reflected += 1;
            assert_eq!(passed, [1.0; 3]);
        }
        let dir = a(scatter.dir);
        assert!((dot(dir, dir) - 1.0).abs() <= 1e-9);
    }
    assert!(sum / trials as f64 <= 1.0);
    assert!(reflected > 0 && reflected < trials);
}

#[test]
fn a_frame_stands_around_every_axis_direction() {
    let directions: [V; 8] = [
        [1.0, 0.0, 0.0],
        [-1.0, 0.0, 0.0],
        [0.0, 1.0, 0.0],
        [0.0, -1.0, 0.0],
        [0.0, 0.0, 1.0],
        [0.0, 0.0, -1.0],
        normalize([-0.99999, 0.001, 0.002]),
        normalize([0.3, -0.4, 0.5]),
    ];
    for w in directions {
        let [u, v2, w2] = frame(w);
        assert_eq!(w2, w);
        for axis in [u, v2] {
            assert!(axis.iter().all(|x| x.is_finite()), "{:?}", w);
            assert!((dot(axis, axis).sqrt() - 1.0).abs() <= 1e-9);
        }
        assert!(dot(u, v2).abs() <= 1e-9);
        assert!(dot(u, w).abs() <= 1e-9);
        assert!(dot(v2, w).abs() <= 1e-9);
    }
}
