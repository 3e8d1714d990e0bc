use ray_tracer::color::write_color;
use ray_tracer::integrator::Ending;
use ray_tracer::integrator::Event;
use ray_tracer::integrator::Path;
use ray_tracer::HitRecord;
use ray_tracer::Hittable;
use ray_tracer::HittableList;
use ray_tracer::Lambertian;
use ray_tracer::MaterialValue;
use ray_tracer::Ray;
use ray_tracer::Scalar;
use ray_tracer::Sphere;
use ray_tracer::Vec3;

fn to_scalar(x: f64) -> Scalar {
    Scalar::from_bits(x.to_bits())
}

fn to_float(x: Scalar) -> f64 {
    f64::from_bits(x.to_bits())
}

fn to_vec(v: [f64; 3]) -> Vec3 {
    Vec3::new(to_scalar(v[0]), to_scalar(v[1]), to_scalar(v[2]))
}

fn to_array(v: Vec3) -> [f64; 3] {
    [to_float(v.x()), to_float(v.y()), to_float(v.z())]
}

fn dot3(a: [f64; 3], b: [f64; 3]) -> f64 {
    a[0] * b[0] + a[1] * b[1] + a[2] * b[2]
}

/// A sphere whose intersection arithmetic is done in floats and whose
/// decisions are the library's.
struct Ball(Sphere);

impl Hittable for Ball {
    fn hit_spec(&self, r: Ray, t_min: Scalar, t_max: Scalar) -> Option<HitRecord> {
        self.hit(r, t_min, t_max)
    }

    fn hit(&self, r: Ray, t_min: Scalar, t_max: Scalar) -> Option<HitRecord> {
        let o = to_array(r.origin());
        let d = to_array(r.direction());
        let c = to_array(self.0.center());
        let radius = to_float(self.0.radius());
        let oc = [o[0] - c[0], o[1] - c[1], o[2] - c[2]];
        let a = dot3(d, d);
        let half_b = dot3(oc, d);
        let cc = dot3(oc, oc) - radius * radius;
        let discriminant = half_b * half_b - a * cc;
        let sqrt_d = discriminant.sqrt();
        let near = (-half_b - sqrt_d) / a;
        let far = (-half_b + sqrt_d) / a;
        let root = Sphere::select_root(to_scalar(discriminant), to_scalar(near), to_scalar(far), t_min, t_max)?;
        let t = to_float(root);
        let p = [o[0] + t * d[0], o[1] + t * d[1], o[2] + t * d[2]];
        let n = [(p[0] - c[0]) / radius, (p[1] - c[1]) / radius, (p[2] - c[2]) / radius];
        Some(self.0.record_hit(root, to_vec(p), to_vec(n), to_scalar(dot3(d, n))))
    }
}

fn matte() -> MaterialValue {
    MaterialValue::from(Lambertian::new(to_vec([0.5, 0.5, 0.5])))
}

fn ball(center: [f64; 3], radius: f64) -> Ball {
    Ball(Sphere::new(to_vec(center), to_scalar(radius), matte()))
}

fn two_spheres() -> HittableList<Ball> {
    let mut world = HittableList::new();
    world.add(ball([0.0, 0.0, -1.0], 0.5));
    world.add(ball([0.0, -100.5, -1.0], 100.0));
    world
}

fn from_eye(direction: [f64; 3]) -> Ray {
    Ray::new(to_vec([0.0, 0.0, 0.0]), to_vec(direction))
}

#[test]
fn centre_ray_meets_the_small_sphere_head_on() {
    let world = two_spheres();
    let rec = world.hit(from_eye([0.0, 0.0, -1.0]), to_scalar(0.001), to_scalar(f64::INFINITY)).unwrap();
    assert_eq!(to_float(rec.t), 0.5);
    assert_eq!(to_array(rec.p), [0.0, 0.0, -0.5]);
    assert_eq!(to_array(rec.normal), [0.0, 0.0, 1.0]);
    assert!(rec.front_face);
}

#[test]
fn centre_pixel_shows_the_normal_of_the_small_sphere() {
    let world = two_spheres();
    let rec = world.hit(from_eye([0.0, 0.0, -1.0]), to_scalar(0.001), to_scalar(f64::INFINITY)).unwrap();
    let n = to_array(rec.normal);
    let shade = [0.5 * (n[0] + 1.0), 0.5 * (n[1] + 1.0), 0.5 * (n[2] + 1.0)];
    let mut first = Vec::new();
    write_color(&mut first, to_vec(shade));
    assert_eq!(first, b"128 128 255\n".to_vec());
    let again = world.hit(from_eye([0.0, 0.0, -1.0]), to_scalar(0.001), to_scalar(f64::INFINITY)).unwrap();
    let mut second = Vec::new();
    let m = to_array(again.normal);
    write_color(&mut second, to_vec([0.5 * (m[0] + 1.0), 0.5 * (m[1] + 1.0), 0.5 * (m[2] + 1.0)]));
    assert_eq!(first, second);
}

#[test]
fn centre_pixel_at_depth_one_takes_a_single_bounce() {
    let world = two_spheres();
    let mut path = Path::new(from_eye([0.0, 0.0, -1.0]), 1);
    let q = path.query().unwrap();
    let rec = world.hit(q.ray, q.t_min, q.t_max).unwrap();
    let lambertian = match rec.mat {
        MaterialValue::Lambertian(l) => l,
        _ => panic!("the spheres are matte"),
    };
    let s = lambertian.scatter(&rec, to_vec([0.3, 0.2, 1.1])).unwrap();
    path.advance(Event::Scattered(s));
    assert!(matches!(path.ending, Some(Ending::Dark)));
    assert_eq!(path.attenuations.len(), 1);
    assert_eq!(to_array(path.attenuations[0]), [0.5, 0.5, 0.5]);
    assert!(path.query().is_none());
}

#[test]
fn downward_ray_meets_the_ground() {
    let world = two_spheres();
    let rec = world.hit(from_eye([0.0, -1.0, -1.0]), to_scalar(0.001), to_scalar(f64::INFINITY)).unwrap();
    let p = to_array(rec.p);
    assert!((p[1] + 0.5).abs() < 0.01);
    assert!(to_float(rec.normal.y()) > 0.99);
    assert!(rec.front_face);
}

#[test]
fn upward_ray_leaves_for_the_sky() {
    let world = two_spheres();
    let up = from_eye([0.0, 1.0, 0.0]);
    assert!(world.hit(up, to_scalar(0.001), to_scalar(f64::INFINITY)).is_none());
    let mut path = Path::new(up, 50);
    path.advance(Event::Miss);
    match path.ending {
        Some(Ending::Sky(r)) => assert_eq!(to_array(r.direction()), [0.0, 1.0, 0.0]),
        _ => panic!("the path should end in the sky"),
    }
}

#[test]
fn hit_from_outside_needs_the_entry_point_in_range() {
    let sphere = ball([0.0, 0.0, -1.0], 0.5);
    let ahead = from_eye([0.0, 0.0, -1.0]);
    assert!(sphere.hit(ahead, to_scalar(0.001), to_scalar(f64::INFINITY)).is_some());
    assert!(sphere.hit(ahead, to_scalar(0.001), to_scalar(0.5)).is_none());
    assert!(sphere.hit(ahead, to_scalar(0.001), to_scalar(0.4)).is_none());
    assert!(sphere.hit(from_eye([0.0, 0.0, 1.0]), to_scalar(0.001), to_scalar(f64::INFINITY)).is_none());
    assert!(sphere.hit(from_eye([0.0, 1.0, -1.0]), to_scalar(0.001), to_scalar(f64::INFINITY)).is_none());
    let grazing = from_eye([0.0, 0.5, -1.0]);
    assert!(sphere.hit(grazing, to_scalar(0.001), to_scalar(f64::INFINITY)).is_some());
    let past = from_eye([0.0, 0.6, -1.0]);
    assert!(sphere.hit(past, to_scalar(0.001), to_scalar(f64::INFINITY)).is_none());
}

#[test]
fn negative_radius_turns_the_outward_normal() {
    let solid = ball([0.0, 0.0, -1.0], 0.5);
    let hollow = ball([0.0, 0.0, -1.0], -0.5);
    let ahead = from_eye([0.0, 0.0, -1.0]);
    let outside = solid.hit(ahead, to_scalar(0.001), to_scalar(f64::INFINITY)).unwrap();
    let inside = hollow.hit(ahead, to_scalar(0.001), to_scalar(f64::INFINITY)).unwrap();
    assert_eq!(to_float(outside.t), to_float(inside.t));
    assert_eq!(to_array(outside.p), to_array(inside.p));
    assert!(outside.front_face);
    assert!(!inside.front_face);
    assert_eq!(to_array(outside.normal), to_array(inside.normal));
}

#[test]
fn pair_of_spheres_reports_the_nearer_hit() {
    let rays = [[0.0, 0.0, -1.0], [0.0, -0.2, -1.0], [0.0, -1.0, -1.0], [0.3, -0.1, -1.0], [0.0, 1.0, -0.1]];
    for direction in rays {
        let r = from_eye(direction);
        for limit in [0.3, 0.6, 2.0, f64::INFINITY] {
            let a = ball([0.0, 0.0, -1.0], 0.5).hit(r, to_scalar(0.001), to_scalar(limit)).map(|h| to_float(h.t));
            let b = ball([0.0, -100.5, -1.0], 100.0).hit(r, to_scalar(0.001), to_scalar(limit)).map(|h| to_float(h.t));
            let want = match (a, b) {
                (Some(x), Some(y)) => Some(x.min(y)),
                (Some(x), None) => Some(x),
                (None, y) => y,
            };
            let got = two_spheres().hit(r, to_scalar(0.001), to_scalar(limit)).map(|h| to_float(h.t));
            assert_eq!(got, want);
        }
    }
}
