use raytracing::hittable::{HitRecord, Hittable};
use raytracing::hittable_list::{nearer, search_limit, HittableList};
use raytracing::ray::Ray;

type Vector = [f32; 3];

/// A surface that every ray crosses at one fixed parameter.
struct Shell {
    t: f32,
    id: u32,
}

impl Hittable<Vector, f32, u32> for Shell {
    fn hit(&self, ray: &Ray<Vector>, t_min: f32, t_max: f32) -> Option<HitRecord<Vector, f32, u32>> {
        if self.t < t_min || self.t > t_max {
            return None;
        }
        let point = [
            ray.origin[0] + self.t * ray.dir[0],
            ray.origin[1] + self.t * ray.dir[1],
            ray.origin[2] + self.t * ray.dir[2],
        ];
        Some(HitRecord::new_with_front_face(
            point,
            self.t,
            self.id,
            true,
            [0.0, 0.0, 1.0],
            [0.0, 0.0, -1.0],
        ))
    }
}

fn shells(ts: &[f32]) -> HittableList<Shell> {
    let mut list = HittableList::default();
    for (n, &t) in ts.iter().enumerate() {
        list.add(Shell { t, id: n as u32 });
    }
    list
}

fn down_z() -> Ray<Vector> {
    Ray::new([0.0, 0.0, 0.0], [0.0, 0.0, -2.0])
}

#[test]
fn ray_keeps_origin_and_direction() {
    let ray = Ray::new([1.0f32, 2.0, 3.0], [4.0f32, 5.0, 6.0]);
    assert_eq!(ray.origin, [1.0, 2.0, 3.0]);
    assert_eq!(ray.dir, [4.0, 5.0, 6.0]);
}

#[test]
fn record_from_outside_keeps_the_outward_normal() {
    let rec = HitRecord::new_with_front_face([1.0f32, 0.0, 0.0], 2.5f32, 7u32, true, [1.0f32, 0.0, 0.0], [-1.0f32, 0.0, 0.0]);
    assert_eq!(rec.point, [1.0, 0.0, 0.0]);
    assert_eq!(rec.t, 2.5);
    assert_eq!(rec.material, 7);
    assert!(rec.front_face);
    assert_eq!(rec.normal, [1.0, 0.0, 0.0]);
}

#[test]
fn record_from_inside_gets_the_reversed_normal() {
    let rec = HitRecord::new_with_front_face([1.0f32, 0.0, 0.0], 2.5f32, 7u32, false, [1.0f32, 0.0, 0.0], [-1.0f32, 0.0, 0.0]);
    assert!(!rec.front_face);
    assert_eq!(rec.normal, [-1.0, 0.0, 0.0]);
    assert_eq!(rec.t, 2.5);
}

#[test]
fn empty_scene_is_never_hit() {
    let list: HittableList<Shell> = HittableList::default();
    assert!(list.hit(&down_z(), 0.001, f32::INFINITY).is_none());
    let list: HittableList<Shell> = HittableList::new(Vec::new());
    assert!(list.hit(&down_z(), 0.0, 1.0).is_none());
}

#[test]
fn nearest_primitive_wins_whatever_the_order() {
    for ts in [[5.0f32, 3.0, 7.0], [3.0, 5.0, 7.0], [7.0, 5.0, 3.0], [7.0, 3.0, 5.0]] {
        let rec = shells(&ts).hit(&down_z(), 0.001, f32::INFINITY).unwrap();
        assert_eq!(rec.t, 3.0);
        assert_eq!(ts[rec.material as usize], 3.0);
        assert_eq!(rec.point, [0.0, 0.0, -6.0]);
    }
}

#[test]
fn later_primitive_at_the_same_distance_replaces_the_earlier() {
    let rec = shells(&[4.0, 4.0, 9.0]).hit(&down_z(), 0.001, f32::INFINITY).unwrap();
    assert_eq!(rec.t, 4.0);
    assert_eq!(rec.material, 1);
}

#[test]
fn primitives_outside_the_interval_are_not_hit() {
    assert!(shells(&[0.0005, 12.0]).hit(&down_z(), 0.001, 10.0).is_none());
    let rec = shells(&[0.0005, 12.0, 10.0]).hit(&down_z(), 0.001, 10.0).unwrap();
    assert_eq!(rec.material, 2);
}

#[test]
fn list_grows_and_clears() {
    let mut list = HittableList::new(vec![Shell { t: 1.0, id: 0 }]);
    assert_eq!(list.objects.len(), 1);
    list.add(Shell { t: 2.0, id: 1 });
    list.add(Shell { t: 0.5, id: 2 });
    assert_eq!(list.objects.len(), 3);
    assert_eq!(list.objects[1].id, 1);
    assert_eq!(list.objects[2].id, 2);
    assert_eq!(list.hit(&down_z(), 0.001, f32::INFINITY).unwrap().material, 2);
    list.clear();
    assert_eq!(list.objects.len(), 0);
    assert!(list.hit(&down_z(), 0.001, f32::INFINITY).is_none());
}

#[test]
fn search_limit_is_the_closest_hit_so_far() {
    let none: Option<HitRecord<Vector, f32, u32>> = None;
    assert_eq!(search_limit(&none, 9.0), 9.0);
    let some = Shell { t: 4.0, id: 0 }.hit(&down_z(), 0.0, 9.0);
    assert_eq!(search_limit(&some, 9.0), 4.0);
}

#[test]
fn nearer_prefers_what_was_found() {
    let a = Shell { t: 4.0, id: 0 }.hit(&down_z(), 0.0, 9.0);
    let b = Shell { t: 2.0, id: 1 }.hit(&down_z(), 0.0, 9.0);
    assert_eq!(nearer(a, b).unwrap().material, 1);
    let a = Shell { t: 4.0, id: 0 }.hit(&down_z(), 0.0, 9.0);
    assert_eq!(nearer(a, None).unwrap().material, 0);
    let b = Shell { t: 2.0, id: 1 }.hit(&down_z(), 0.0, 9.0);
    assert_eq!(nearer(None, b).unwrap().material, 1);
    let none: Option<HitRecord<Vector, f32, u32>> = None;
    assert!(nearer(none, None).is_none());
}

#[test]
fn scene_answers_inside_its_interval() {
    let list = shells(&[0.5, 2.0, 8.0, 3.0, 20.0]);
    for (t_min, t_max) in [(0.001f32, f32::INFINITY), (1.0, 10.0), (2.5, 9.0), (9.0, 30.0)] {
        let rec = list.hit(&down_z(), t_min, t_max).unwrap();
        assert!(t_min <= rec.t && rec.t <= t_max);
        for shell in &list.objects {
            if t_min <= shell.t && shell.t <= t_max {
                assert!(rec.t <= shell.t);
            }
        }
    }
    assert!(list.hit(&down_z(), 21.0, 30.0).is_none());
    assert_eq!(list.hit(&down_z(), 2.5, 9.0).unwrap().t, 3.0);
}
