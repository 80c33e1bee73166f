use tracer::fx::{mul_fx, div_fx, sqrt_fx, half_fx, FX_ONE, FX_HALF, FX_HUGE};
use tracer::vec::{Vector3, dot_product, cross_product, unit_vector};
use tracer::ray::{Ray, Interval, HitRecord, WorldObject, derive_face_normal};
use tracer::aabb::AABB;
use tracer::sphere::Sphere;
use tracer::quad::Quad;
use tracer::bvh::BVHNode;
use tracer::mesh::Mesh;
use tracer::material::{Material, Lambertian, Metal, Dielectric, Light};
use tracer::world::World;
use tracer::camera::{Camera, tan_half_deg, pack_color};
use tracer::util::{random_float, random_unit_float, random_color, sample_square};

const S: i128 = 65536;

fn gray(level: i128) -> Vector3 {
    Vector3::new(level, level, level)
}

fn unit_sphere_world() -> (World, Sphere) {
    let material = Material::Lambertian(Lambertian::new(gray(16384)));
    let sphere = Sphere::new(Vector3::new(0, 0, 0), S, material);
    let mut world = World::new();
    world.add(WorldObject::Sphere(sphere));
    (world, sphere)
}

#[test]
fn fixed_point_products_and_quotients() {
    assert_eq!(mul_fx(2 * S, 3 * S), 6 * S);
    assert_eq!(mul_fx(-2 * S, 3 * S), -6 * S);
    assert_eq!(div_fx(3 * S, 2 * S), 98304);
    assert_eq!(div_fx(-3 * S, 2 * S), -98304);
    assert_eq!(div_fx(S, 3 * S), 21845);
    assert_eq!(sqrt_fx(4 * S), 2 * S);
    assert_eq!(sqrt_fx(0), 0);
    assert_eq!(half_fx(7), 3);
    assert_eq!(half_fx(-7), -3);
}

#[test]
fn vector_arithmetic_is_exact() {
    let a = Vector3::new(S, 2 * S, 3 * S);
    let b = Vector3::new(4 * S, 5 * S, 6 * S);
    let sum = a.add(b);
    assert_eq!((sum.x(), sum.y(), sum.z()), (5 * S, 7 * S, 9 * S));
    let diff = b.sub(a);
    assert_eq!((diff.x(), diff.y(), diff.z()), (3 * S, 3 * S, 3 * S));
    assert_eq!(dot_product(a, b), 32 * S);
    let cr = cross_product(Vector3::new(S, 0, 0), Vector3::new(0, S, 0));
    assert_eq!((cr.x(), cr.y(), cr.z()), (0, 0, S));
    let scaled = a.mul_s(2 * S);
    assert_eq!((scaled.x(), scaled.y(), scaled.z()), (2 * S, 4 * S, 6 * S));
}

#[test]
fn unit_vector_of_a_three_four_triangle() {
    let v = Vector3::new(3 * S, 4 * S, 0);
    assert_eq!(v.length_squared(), 25 * S);
    assert_eq!(v.length(), 5 * S);
    let u = unit_vector(v);
    assert_eq!((u.x(), u.y(), u.z()), (39321, 52428, 0));
}

#[test]
fn interval_operations() {
    let i = Interval::new(0, S);
    assert!(i.contains(0) && i.contains(S) && i.contains(FX_HALF));
    assert!(!i.contains(-1) && !i.contains(S + 1));
    assert!(i.surrounds(FX_HALF) && !i.surrounds(0) && !i.surrounds(S));
    assert_eq!(i.clamp(-5), 0);
    assert_eq!(i.clamp(2 * S), S);
    assert_eq!(i.clamp(100), 100);
    assert_eq!(i.size(), S);
    let j = Interval::from_intervals(Interval::new(-S, 0), i);
    assert_eq!((j.min(), j.max()), (-S, S));
    let e = Interval::new(0, 0).expand(8);
    assert_eq!((e.min(), e.max()), (-4, 4));
}

#[test]
fn box_from_points_is_order_independent() {
    let a = Vector3::new(S, -2 * S, 3 * S);
    let b = Vector3::new(-S, 5 * S, 0);
    assert_eq!(AABB::from_points(a, b), AABB::from_points(b, a));
}

#[test]
fn box_union_with_itself_is_itself() {
    let b = AABB::from_points(Vector3::new(0, 0, 0), Vector3::new(S, S, S));
    assert_eq!(AABB::from_bounding_boxes(b, b), b);
}

#[test]
fn constructed_box_axes_are_at_least_epsilon_thick() {
    let b = AABB::from_points(Vector3::new(0, 0, 0), Vector3::new(S, S, 0));
    assert!(b.x.max - b.x.min >= 8);
    assert!(b.y.max - b.y.min >= 8);
    assert!(b.z.max - b.z.min >= 8);
    assert_eq!((b.z.min, b.z.max), (-4, 4));
}

#[test]
fn slab_test_hits_through_the_center() {
    let b = AABB::from_points(Vector3::new(-S, -S, -S), Vector3::new(S, S, S));
    let ray = Ray::new(Vector3::new(-3 * S, 0, 0), Vector3::new(S, 0, 0));
    let hit = b.hit(&ray, &Interval::new(0, FX_HUGE));
    let i = hit.expect("axis-aligned ray through the center must hit");
    assert!(i.min() < i.max());
    assert_eq!((i.min(), i.max()), (2 * S, 4 * S));
}

#[test]
fn slab_test_misses_a_parallel_offset_ray() {
    let b = AABB::from_points(Vector3::new(-S, -S, -S), Vector3::new(S, S, S));
    let ray = Ray::new(Vector3::new(-3 * S, 2 * S, 0), Vector3::new(S, 0, 0));
    assert!(b.hit(&ray, &Interval::new(0, FX_HUGE)).is_none());
}

#[test]
fn longest_axis_tie_breaks_toward_z() {
    let even = AABB::from_points(Vector3::new(0, 0, 0), Vector3::new(S, S, S));
    assert_eq!(even.longest_axis(), 2);
    let wide = AABB::from_points(Vector3::new(0, 0, 0), Vector3::new(4 * S, S, S));
    assert_eq!(wide.longest_axis(), 0);
    let tall = AABB::from_points(Vector3::new(0, 0, 0), Vector3::new(S, 4 * S, S));
    assert_eq!(tall.longest_axis(), 1);
}

#[test]
fn sphere_hit_from_outside_reports_the_nearer_root() {
    let (_, sphere) = unit_sphere_world();
    let ray = Ray::new(Vector3::new(0, 0, -2 * S), Vector3::new(0, 0, S));
    let hit = sphere.hit(&ray, &Interval::new(66, FX_HUGE)).expect("must hit");
    assert_eq!(hit.t(), S);
    assert!(hit.front_face());
    let p = hit.point();
    assert_eq!((p.x(), p.y(), p.z()), (0, 0, -S));
    let n = hit.normal();
    assert_eq!((n.x(), n.y(), n.z()), (0, 0, -S));
}

#[test]
fn sphere_hit_from_inside_reports_a_back_face() {
    let (_, sphere) = unit_sphere_world();
    let ray = Ray::new(Vector3::new(0, 0, 0), Vector3::new(0, 0, S));
    let hit = sphere.hit(&ray, &Interval::new(66, FX_HUGE)).expect("must hit");
    assert_eq!(hit.t(), S);
    assert!(!hit.front_face());
}

#[test]
fn quad_hit_inside_and_miss_outside() {
    let material = Material::Lambertian(Lambertian::new(gray(16384)));
    let quad = Quad::new_quad(
        Vector3::new(0, 0, 0),
        Vector3::new(S, 0, 0),
        Vector3::new(0, S, 0),
        material,
    );
    let inside = Ray::new(Vector3::new(16384, 16384, -S), Vector3::new(0, 0, S));
    let hit = quad.hit(&inside, &Interval::new(0, FX_HUGE)).expect("must hit");
    assert_eq!(hit.t(), S);
    assert!(!hit.front_face());
    let outside = Ray::new(Vector3::new(2 * S, 16384, -S), Vector3::new(0, 0, S));
    assert!(quad.hit(&outside, &Interval::new(0, FX_HUGE)).is_none());
}

#[test]
fn triangle_accepts_strict_interior_only() {
    let material = Material::Lambertian(Lambertian::new(gray(16384)));
    let tri = Quad::new_triangle(
        Vector3::new(0, 0, 0),
        Vector3::new(S, 0, 0),
        Vector3::new(0, S, 0),
        material,
    );
    let inside = Ray::new(Vector3::new(16384, 16384, -S), Vector3::new(0, 0, S));
    assert!(tri.hit(&inside, &Interval::new(0, FX_HUGE)).is_some());
    let outer = Ray::new(Vector3::new(49152, 49152, -S), Vector3::new(0, 0, S));
    assert!(tri.hit(&outer, &Interval::new(0, FX_HUGE)).is_none());
}

fn sample_scene_objects() -> Vec<WorldObject> {
    let m = Material::Lambertian(Lambertian::new(gray(16384)));
    vec![
        WorldObject::Sphere(Sphere::new(Vector3::new(-3 * S, 0, 0), S, m)),
        WorldObject::Sphere(Sphere::new(Vector3::new(0, 0, 0), S, m)),
        WorldObject::Sphere(Sphere::new(Vector3::new(3 * S, S, 0), S, m)),
        WorldObject::Sphere(Sphere::new(Vector3::new(0, -4 * S, 2 * S), 2 * S, m)),
        WorldObject::Sphere(Sphere::new(Vector3::new(-2 * S, 3 * S, -2 * S), S, m)),
    ]
}

#[test]
fn bvh_agrees_with_the_linear_scan() {
    let node = BVHNode::new(sample_scene_objects());
    let mut world = World::new();
    for o in sample_scene_objects() {
        world.add(o);
    }
    let rays = vec![
        Ray::new(Vector3::new(3000, 2000, -10 * S), Vector3::new(1000, 500, S)),
        Ray::new(Vector3::new(-3 * S + 4000, 5000, -10 * S), Vector3::new(-700, 300, S)),
        Ray::new(Vector3::new(-10 * S, 2500, 1700), Vector3::new(S, 400, -300)),
        Ray::new(Vector3::new(1800, 10 * S, -900), Vector3::new(250, -S, 125)),
        Ray::new(Vector3::new(0, 0, -10 * S), Vector3::new(6553, 3000, S)),
        Ray::new(Vector3::new(10 * S, 10 * S, 10 * S), Vector3::new(-S, -S - 2000, -S + 1500)),
        Ray::new(Vector3::new(0, 0, -10 * S), Vector3::new(100, S, 200)),
    ];
    let itv = Interval::new(66, FX_HUGE);
    for ray in rays {
        let from_tree = node.hit(&ray, &itv);
        let from_scan = world.hit(&ray, itv);
        match (&from_tree, &from_scan) {
            (Some(a), Some(b)) => {
                assert_eq!(a.t(), b.t());
                assert_eq!(a.point(), b.point());
            },
            (None, None) => {},
            _ => panic!("tree and scan disagree on whether the ray hits"),
        }
    }
}

#[test]
fn bvh_construction_is_deterministic() {
    let first = BVHNode::new(sample_scene_objects());
    let second = BVHNode::new(sample_scene_objects());
    assert_eq!(first, second);
    assert_eq!(first.bounding_box(), second.bounding_box());
}

#[test]
fn single_and_pair_leaves_report_hits() {
    let m = Material::Lambertian(Lambertian::new(gray(16384)));
    let s = Sphere::new(Vector3::new(0, 0, 0), S, m);
    let single = BVHNode::new_single_leaf(WorldObject::Sphere(s));
    let ray = Ray::new(Vector3::new(2500, 1500, -3 * S), Vector3::new(800, -400, S));
    assert!(single.hit(&ray, &Interval::new(66, FX_HUGE)).is_some());
    let pair = BVHNode::new_leaf(
        WorldObject::Sphere(Sphere::new(Vector3::new(-3 * S, 0, 0), S, m)),
        WorldObject::Sphere(s),
    );
    let hit = pair.hit(&ray, &Interval::new(66, FX_HUGE)).expect("must hit");
    assert!(S < hit.t() && hit.t() < 3 * S);
}

#[test]
fn bvh_handles_equal_sort_keys_deterministically() {
    let m = Material::Lambertian(Lambertian::new(gray(16384)));
    let stacked = || {
        vec![
            WorldObject::Sphere(Sphere::new(Vector3::new(0, 0, 0), S, m)),
            WorldObject::Sphere(Sphere::new(Vector3::new(0, 0, 0), 2 * S, m)),
            WorldObject::Sphere(Sphere::new(Vector3::new(0, 0, 0), 3 * S, m)),
        ]
    };
    let first = BVHNode::new(stacked());
    let second = BVHNode::new(stacked());
    assert_eq!(first, second);
    let ray = Ray::new(Vector3::new(1500, 800, -10 * S), Vector3::new(120, -60, S));
    let hit = first.hit(&ray, &Interval::new(66, FX_HUGE)).expect("must hit the outer sphere");
    assert!(hit.t() < 8 * S);
}

#[test]
fn defocus_camera_still_renders_the_background() {
    let world = World::new();
    let camera = Camera::new(
        16,
        Vector3::new(0, 0, -2 * S),
        Vector3::new(0, 0, 0),
        20 * S,
        2 * S,
        S,
        2,
        gray(S),
    );
    let row = camera.render_row(&world, 0);
    assert_eq!(row.len(), 16);
    for pixel in row {
        assert_eq!(pixel, 0xFFFFFF);
    }
}

#[test]
fn empty_world_reports_no_hit() {
    let world = World::new();
    let ray = Ray::new(Vector3::new(0, 0, 0), Vector3::new(0, 0, S));
    assert!(world.hit(&ray, Interval::new(66, FX_HUGE)).is_none());
}

#[test]
fn world_scan_reports_the_nearest_sphere() {
    let m = Material::Lambertian(Lambertian::new(gray(16384)));
    let mut world = World::new();
    world.add(WorldObject::Sphere(Sphere::new(Vector3::new(0, 0, 4 * S), S, m)));
    world.add(WorldObject::Sphere(Sphere::new(Vector3::new(0, 0, 8 * S), S, m)));
    let ray = Ray::new(Vector3::new(0, 0, 0), Vector3::new(0, 0, S));
    let hit = world.hit(&ray, Interval::new(66, FX_HUGE)).expect("must hit");
    assert_eq!(hit.t(), 3 * S);
}

#[test]
fn lambertian_always_scatters() {
    let l = Lambertian::new(gray(16384));
    let hit = HitRecord::new(
        Vector3::new(0, 0, -S),
        Vector3::new(0, 0, -S),
        Material::Lambertian(l),
        S,
        true,
    );
    let ray = Ray::new(Vector3::new(0, 0, -2 * S), Vector3::new(0, 0, S));
    for _ in 0..50 {
        let scattered = l.scatter(&ray, &hit);
        let (bounce, attenuation) = scattered.expect("a diffuse surface always scatters");
        assert_eq!(bounce.origin(), hit.point());
        assert_eq!(attenuation, gray(16384));
    }
}

#[test]
fn metal_scatters_on_reflection_and_absorbs_into_the_surface() {
    let m = Metal::new(gray(32768), 0);
    let hit_front = HitRecord::new(
        Vector3::new(0, 0, -S),
        Vector3::new(0, 0, -S),
        Material::Metal(m),
        S,
        true,
    );
    let ray = Ray::new(Vector3::new(0, 0, -2 * S), Vector3::new(0, 0, S));
    let scattered = m.scatter_with(&ray, &hit_front, Vector3::new(0, 0, 0));
    let (bounce, attenuation) = scattered.expect("mirror reflection leaves the surface");
    assert_eq!((bounce.direction().x(), bounce.direction().y(), bounce.direction().z()),
        (0, 0, -S));
    assert_eq!(attenuation, gray(32768));

    let hit_inward = HitRecord::new(
        Vector3::new(0, 0, -S),
        Vector3::new(0, 0, S),
        Material::Metal(m),
        S,
        true,
    );
    let absorbed = m.scatter_with(&ray, &hit_inward, Vector3::new(0, 0, 0));
    assert!(absorbed.is_none());
}

#[test]
fn dielectric_refracts_straight_through() {
    let d = Dielectric::new(98304);
    let hit = HitRecord::new(
        Vector3::new(0, 0, -S),
        Vector3::new(0, 0, -S),
        Material::Dielectric(d),
        S,
        true,
    );
    let ray = Ray::new(Vector3::new(0, 0, -2 * S), Vector3::new(0, 0, S));
    let (bounce, attenuation) = d.scatter_with(&ray, &hit, FX_ONE - 1);
    assert_eq!((bounce.direction().x(), bounce.direction().y(), bounce.direction().z()),
        (0, 0, S));
    assert_eq!(attenuation, gray(S));
}

#[test]
fn dielectric_reflects_on_total_internal_reflection() {
    let d = Dielectric::new(98304);
    let hit = HitRecord::new(
        Vector3::new(0, 0, 0),
        Vector3::new(0, 0, -S),
        Material::Dielectric(d),
        S,
        false,
    );
    let ray = Ray::new(Vector3::new(0, 0, -S), Vector3::new(52428, 0, 39321));
    let (bounce, _) = d.scatter_with(&ray, &hit, 0);
    assert_eq!((bounce.direction().x(), bounce.direction().y(), bounce.direction().z()),
        (52429, 0, -39322));
}

#[test]
fn light_emits_its_color_and_never_scatters() {
    let light = Light::new(Vector3::new(4 * S, 2 * S, S));
    let material = Material::Light(light);
    let emitted = material.emitted(Vector3::new(0, 0, 0));
    assert_eq!(emitted, Vector3::new(4 * S, 2 * S, S));
    let hit = HitRecord::new(Vector3::new(0, 0, 0), Vector3::new(0, 0, S), material, S, true);
    let ray = Ray::new(Vector3::new(0, 0, -S), Vector3::new(0, 0, S));
    assert!(material.scatter(&ray, &hit).is_none());
    assert_eq!(Material::Lambertian(Lambertian::new(gray(0))).emitted(Vector3::new(0, 0, 0)),
        Vector3::new(0, 0, 0));
}

#[test]
fn face_normal_orients_against_the_ray() {
    let ray = Ray::new(Vector3::new(0, 0, 0), Vector3::new(0, 0, S));
    let (front, normal) = derive_face_normal(&ray, Vector3::new(0, 0, -S));
    assert!(front);
    assert_eq!(normal, Vector3::new(0, 0, -S));
    let (back, flipped) = derive_face_normal(&ray, Vector3::new(0, 0, S));
    assert!(!back);
    assert_eq!(flipped, Vector3::new(0, 0, -S));
}

#[test]
fn random_draws_respect_their_ranges() {
    for _ in 0..200 {
        let r = random_unit_float();
        assert!(0 <= r && r < FX_ONE);
        let f = random_float(-3 * S, 5 * S);
        assert!(-3 * S <= f && f < 5 * S);
        let o = sample_square();
        assert!(-FX_HALF <= o.x() && o.x() < FX_HALF);
        assert!(-FX_HALF <= o.y() && o.y() < FX_HALF);
        assert_eq!(o.z(), 0);
        let c = random_color();
        assert!(0 <= c.x() && c.x() < FX_ONE);
    }
}

#[test]
fn tangent_helper_matches_the_series() {
    assert_eq!(tan_half_deg(0), 0);
    assert_eq!(tan_half_deg(90 * S), 65526);
}

#[test]
fn pack_color_applies_gamma_and_packs_channels() {
    assert_eq!(pack_color(gray(16384), FX_ONE), 0x7F7F7F);
    assert_eq!(pack_color(gray(S), FX_ONE), 0xFFFFFF);
    assert_eq!(pack_color(gray(0), FX_ONE), 0);
}

#[test]
fn camera_derives_a_sixteen_by_nine_viewport() {
    let camera = Camera::new(
        800,
        Vector3::new(0, 0, -2 * S),
        Vector3::new(0, 0, 0),
        20 * S,
        2 * S,
        0,
        1,
        gray(S),
    );
    assert_eq!(camera.width(), 800);
    assert_eq!(camera.height(), 450);
}

#[test]
fn single_diffuse_sphere_yields_its_albedo_exactly() {
    let (world, _) = unit_sphere_world();
    let camera = Camera::new(
        16,
        Vector3::new(0, 0, -2 * S),
        Vector3::new(0, 0, 0),
        20 * S,
        2 * S,
        0,
        1,
        gray(S),
    );
    let ray = camera.get_ray(8, 4);
    let color = camera.ray_color(&world, &ray, 2);
    assert_eq!((color.x(), color.y(), color.z()), (16384, 16384, 16384));
    let at_depth_one = camera.ray_color(&world, &ray, 1);
    assert_eq!((at_depth_one.x(), at_depth_one.y(), at_depth_one.z()), (0, 0, 0));
    let row = camera.render_row(&world, 4);
    assert_eq!(row.len(), 16);
    for pixel in row {
        assert_eq!(pixel, 0x7F7F7F);
    }
}

#[test]
fn empty_scene_renders_the_background_everywhere() {
    let world = World::new();
    let camera = Camera::new(
        16,
        Vector3::new(0, 0, -2 * S),
        Vector3::new(0, 0, 0),
        20 * S,
        2 * S,
        0,
        1,
        gray(S),
    );
    let mut frame = vec![0u32; 16 * 9];
    camera.render(&world, &mut frame);
    assert_eq!(frame.len(), 16 * 9);
    for pixel in frame {
        assert_eq!(pixel, 0xFFFFFF);
    }
}

#[test]
fn mesh_wraps_triangles_behind_the_same_hit_contract() {
    let material = Material::Lambertian(Lambertian::new(gray(16384)));
    let triangles = vec![
        (Vector3::new(-S, -S, 0), Vector3::new(S, -S, 0), Vector3::new(0, S, 0)),
        (Vector3::new(2 * S, -S, 0), Vector3::new(4 * S, -S, 0), Vector3::new(3 * S, S, 0)),
    ];
    let mesh = Mesh::from_triangles(&triangles, material);
    let ray = Ray::new(Vector3::new(0, 0, -2 * S), Vector3::new(0, 0, S));
    let hit = mesh.hit(&ray, &Interval::new(66, FX_HUGE)).expect("must hit the first triangle");
    assert_eq!(hit.t(), 2 * S);
    let miss = Ray::new(Vector3::new(10 * S, 0, -2 * S), Vector3::new(0, 0, S));
    assert!(mesh.hit(&miss, &Interval::new(66, FX_HUGE)).is_none());
}
