use pathtracer::bvh::{build, limit, nearer, BvhNode, Entry, Found};
use pathtracer::geom::{RawHitInfo, Sphere};
use pathtracer::math::{Aabb, Slab, Vec3};
use pathtracer::scalar::Scalar;
use rand::{Rng, SeedableRng};
use rand_pcg::Pcg64;

fn s(x: f64) -> Scalar {
    Scalar::from_bits(x.to_bits())
}

fn f(x: Scalar) -> f64 {
    f64::from_bits(x.to_bits())
}

fn v(p: [f64; 3]) -> Vec3 {
    Vec3::new(s(p[0]), s(p[1]), s(p[2]))
}

fn a(p: Vec3) -> [f64; 3] {
    [f(p.x), f(p.y), f(p.z)]
}

#[derive(Clone, Copy)]
struct Ball {
    center: [f64; 3],
    radius: f64,
}

#[derive(Clone, Copy)]
struct Beam {
    origin: [f64; 3],
    dir: [f64; 3],
}

fn entry(ball: &Ball) -> Entry {
    let c = ball.center;
    let r = ball.radius;
    Entry {
        bounds: Aabb::new(v([c[0] - r, c[1] - r, c[2] - r]), v([c[0] + r, c[1] + r, c[2] + r])),
        centroid: v(c),
    }
}

fn extent(b: Aabb) -> Vec3 {
    let lo = a(b.min_point);
    let hi = a(b.max_point);
    v([hi[0] - lo[0], hi[1] - lo[1], hi[2] - lo[2]])
}

fn passes(beam: &Beam, b: Aabb, lo: Scalar, hi: Scalar) -> bool {
    let min = a(b.min_point);
    let max = a(b.max_point);
    let mut slabs = Vec::new();
    for i in 0..3 {
        let inv = 1.0 / beam.dir[i];
        slabs.push(Slab {
            at_min: s((min[i] - beam.origin[i]) * inv),
            at_max: s((max[i] - beam.origin[i]) * inv),
            inv_dir: s(inv),
        });
    }
    Aabb::hit(&slabs[0], &slabs[1], &slabs[2], lo, hi)
}

fn meets(beam: &Beam, ball: &Ball, t_max: Scalar) -> Option<RawHitInfo> {
    let o = beam.origin;
    let d = beam.dir;
    let c = ball.center;
    let oc = [o[0] - c[0], o[1] - c[1], o[2] - c[2]];
    let b = oc[0] * d[0] + oc[1] * d[1] + oc[2] * d[2];
    let cc = oc[0] * oc[0] + oc[1] * oc[1] + oc[2] * oc[2] - ball.radius * ball.radius;
    let disc = b * b - cc;
    let root = disc.sqrt();
    let t = f(Sphere::hit(s(disc), s(-b - root), s(-b + root), t_max)?);
    let n = [
        (o[0] + t * d[0] - c[0]) / ball.radius,
        (o[1] + t * d[1] - c[1]) / ball.radius,
        (o[2] + t * d[2] - c[2]) / ball.radius,
    ];
    Some(RawHitInfo { t: s(t), outward_normal: v(n) })
}

fn search(root: &BvhNode, balls: &Vec<Ball>, beam: &Beam, t_max: f64) -> Found {
    root.hit(
        s(t_max),
        &|b: Aabb, lo: Scalar, hi: Scalar| passes(beam, b, lo, hi),
        &|p: usize, t: Scalar| meets(beam, &balls[p], t),
    )
}

fn brute_force(balls: &Vec<Ball>, beam: &Beam, t_max: f64) -> Found {
    let mut best: Found = None;
    for (p, ball) in balls.iter().enumerate() {
        if let Some(info) = meets(beam, ball, s(t_max)) {
            let better = match best {
                Some((_, b)) => f(info.t) < f(b.t),
                None => true,
            };
            if better {
                best = Some((p, info));
            }
        }
    }
    best
}

fn unit(rng: &mut Pcg64) -> [f64; 3] {
    loop {
        let d: [f64; 3] = [
            rng.gen_range(-1.0..1.0),
            rng.gen_range(-1.0..1.0),
            rng.gen_range(-1.0..1.0),
        ];
        let len = (d[0] * d[0] + d[1] * d[1] + d[2] * d[2]).sqrt();
        if len > 0.1 && len <= 1.0 {
            return [d[0] / len, d[1] / len, d[2] / len];
        }
    }
}

#[test]
fn nearer_prefers_the_left_hit_unless_the_right_is_strictly_nearer() {
    let hit = |t: f64| RawHitInfo { t: s(t), outward_normal: v([0.0, 0.0, 1.0]) };
    assert_eq!(nearer(None, None), None);
    assert_eq!(nearer(Some((1, hit(2.0))), None), Some((1, hit(2.0))));
    assert_eq!(nearer(None, Some((2, hit(3.0)))), Some((2, hit(3.0))));
    assert_eq!(nearer(Some((1, hit(2.0))), Some((2, hit(3.0)))), Some((1, hit(2.0))));
    assert_eq!(nearer(Some((1, hit(3.0))), Some((2, hit(2.0)))), Some((2, hit(2.0))));
    assert_eq!(nearer(Some((1, hit(2.0))), Some((2, hit(2.0)))), Some((1, hit(2.0))));
}

#[test]
fn limit_is_the_left_hit_where_there_is_one() {
    let hit = |t: f64| RawHitInfo { t: s(t), outward_normal: v([0.0, 0.0, 1.0]) };
    assert_eq!(limit(&None, s(9.0)), s(9.0));
    assert_eq!(limit(&Some((0, hit(4.0))), s(9.0)), s(4.0));
}

#[test]
fn search_finds_the_first_ball_along_the_beam() {
    let balls = vec![
        Ball { center: [0.0, 0.0, -10.0], radius: 1.0 },
        Ball { center: [0.0, 0.0, -4.0], radius: 1.0 },
        Ball { center: [5.0, 0.0, -4.0], radius: 1.0 },
        Ball { center: [0.0, 0.0, 6.0], radius: 1.0 },
    ];
    let entries: Vec<Entry> = balls.iter().map(entry).collect();
    let root = build(&entries, extent).unwrap();
    let beam = Beam { origin: [0.0, 0.0, 0.0], dir: [0.0, 0.0, -1.0] };
    let (p, info) = search(&root, &balls, &beam, f64::INFINITY).unwrap();
    assert_eq!(p, 1);
    assert_eq!(f(info.t), 3.0);
    assert_eq!(a(info.outward_normal), [0.0, 0.0, 1.0]);
    // Short of the first ball nothing is found.
    assert_eq!(search(&root, &balls, &beam, 3.0), None);
    assert_eq!(search(&root, &balls, &beam, 2.5), None);
    // A beam between the balls finds none.
    let aside = Beam { origin: [2.5, 0.0, 0.0], dir: [0.0, 0.0, -1.0] };
    assert_eq!(search(&root, &balls, &aside, f64::INFINITY), None);
}

#[test]
fn search_asks_no_primitive_whose_box_the_beam_misses() {
    let balls = vec![
        Ball { center: [0.0, 0.0, -4.0], radius: 1.0 },
        Ball { center: [50.0, 0.0, -4.0], radius: 1.0 },
        Ball { center: [100.0, 0.0, -4.0], radius: 1.0 },
        Ball { center: [150.0, 0.0, -4.0], radius: 1.0 },
    ];
    let entries: Vec<Entry> = balls.iter().map(entry).collect();
    let root = build(&entries, extent).unwrap();
    let beam = Beam { origin: [0.0, 0.0, 0.0], dir: [0.0, 0.0, -1.0] };
    let asked = std::cell::RefCell::new(Vec::new());
    let found = root.hit(
        s(f64::INFINITY),
        &|b: Aabb, lo: Scalar, hi: Scalar| passes(&beam, b, lo, hi),
        &|p: usize, t: Scalar| {
            asked.borrow_mut().push(p);
            meets(&beam, &balls[p], t)
        },
    );
    assert_eq!(found.map(|(p, _)| p), Some(0));
    assert_eq!(*asked.borrow(), vec![0]);
}

#[test]
fn search_agrees_with_brute_force_on_random_scenes() {
    let mut rng = Pcg64::seed_from_u64(0x5EED_0001);
    let mut balls = Vec::new();
    for _ in 0..1000 {
        balls.push(Ball {
            center: [
                rng.gen_range(-20.0..20.0),
                rng.gen_range(-20.0..20.0),
                rng.gen_range(-20.0..20.0),
            ],
            radius: rng.gen_range(0.1..1.5),
        });
    }
    let entries: Vec<Entry> = balls.iter().map(entry).collect();
    let root = build(&entries, extent).unwrap();
    let mut hits = 0;
    for _ in 0..10_000 {
        let beam = Beam {
            origin: [
                rng.gen_range(-25.0..25.0),
                rng.gen_range(-25.0..25.0),
                rng.gen_range(-25.0..25.0),
            ],
            dir: unit(&mut rng),
        };
        let found = search(&root, &balls, &beam, f64::INFINITY);
        let expected = brute_force(&balls, &beam, f64::INFINITY);
        assert_eq!(found, expected);
        if let Some((_, info)) = found {
            hits += 1;
            assert!(f(info.t) >= 1e-9);
        }
    }
    assert!(hits > 1000);
}

#[test]
fn search_agrees_with_brute_force_under_a_limit() {
    let mut rng = Pcg64::seed_from_u64(0x5EED_0002);
    let mut balls = Vec::new();
    for _ in 0..200 {
        balls.push(Ball {
            center: [
                rng.gen_range(-10.0..10.0),
                rng.gen_range(-10.0..10.0),
                rng.gen_range(-10.0..10.0),
            ],
            radius: rng.gen_range(0.2..1.0),
        });
    }
    let entries: Vec<Entry> = balls.iter().map(entry).collect();
    let root = build(&entries, extent).unwrap();
    for _ in 0..2_000 {
        let beam = Beam {
            origin: [
                rng.gen_range(-12.0..12.0),
                rng.gen_range(-12.0..12.0),
                rng.gen_range(-12.0..12.0),
            ],
            dir: unit(&mut rng),
        };
        let t_max = rng.gen_range(0.5..15.0);
        let found = search(&root, &balls, &beam, t_max);
        assert_eq!(found, brute_force(&balls, &beam, t_max));
        if let Some((_, info)) = found {
            assert!(1e-9 <= f(info.t) && f(info.t) < t_max);
        }
    }
}
