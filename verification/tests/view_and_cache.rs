use simp::cache::{Cache, ENTRY_LIMIT};
use simp::image_loader::{ImageLoader, LoadingInfo};
use simp::image_view::{
    animation_step, flip_for_rotation, is_sideways, rotate, set_rotation, source_pixel,
    swap_rotation, AnimationStep, Flip, Orientation,
};
use simp::vec2::Vec2;

#[test]
fn rotation_stays_in_four_quarter_turns() {
    assert_eq!(rotate(0, 1), 1);
    assert_eq!(rotate(3, 1), 0);
    assert_eq!(rotate(0, -1), 3);
    assert_eq!(rotate(1, -2), 3);
    assert_eq!(rotate(2, 6), 0);
    for r in 0..4 {
        for d in -9..9 {
            let t = rotate(r, d);
            assert!((0..4).contains(&t));
            assert_eq!(rotate(t, -d), r);
        }
    }
}

#[test]
fn set_rotation_keeps_the_sign_of_the_remainder() {
    assert_eq!(set_rotation(5), 1);
    assert_eq!(set_rotation(-1), -1);
    assert_eq!(set_rotation(-5), -1);
    assert_eq!(set_rotation(0), 0);
}

#[test]
fn swapping_rotations() {
    let mut on_screen = 3;
    let mut kept = 6;
    swap_rotation(&mut on_screen, &mut kept);
    assert_eq!(on_screen, 2);
    assert_eq!(kept, 3);
}

#[test]
fn flips_exchange_on_the_side() {
    assert!(!is_sideways(0));
    assert!(is_sideways(1));
    assert!(!is_sideways(2));
    assert!(is_sideways(-1));
    assert_eq!(flip_for_rotation(0, Flip::Horizontal), Flip::Horizontal);
    assert_eq!(flip_for_rotation(1, Flip::Horizontal), Flip::Vertical);
    assert_eq!(flip_for_rotation(3, Flip::Vertical), Flip::Horizontal);
    assert_eq!(flip_for_rotation(2, Flip::Vertical), Flip::Vertical);
}

#[test]
fn vec2_accessors() {
    let mut v = Vec2::new(1, 2);
    assert_eq!(v.x(), 1);
    assert_eq!(v.y(), 2);
    v.set_x(5);
    v.set_y(7);
    assert_eq!((v.x(), v.y()), (5, 7));
    *v.mut_x() += 1;
    *v.mut_y() -= 1;
    assert_eq!((v.x(), v.y()), (6, 6));
    let mut w = Vec2::new(3, 4);
    w.swap();
    assert_eq!(w, Vec2::new(4, 3));
    assert_eq!(Vec2::splat(9), Vec2::new(9, 9));
    assert_eq!(Vec2::from((1, 2)), Vec2::new(1, 2));
}

#[test]
fn vec2_map_max_and_arithmetic() {
    let v = Vec2::new(2, -3);
    assert_eq!(v.map(|c: i32| c * 10), Vec2::new(20, -30));
    assert_eq!(v.max(1, 0), Vec2::new(2, 0));
    assert_eq!(v.max(5, -4), Vec2::new(5, -3));
    assert_eq!(Vec2::new(1, 2) + Vec2::new(3, 4), Vec2::new(4, 6));
    assert_eq!(Vec2::new(1, 2) - Vec2::new(3, 4), Vec2::new(-2, -2));
    assert_eq!(Vec2::new(2, -3) * 4, Vec2::new(8, -12));
    assert_eq!(Vec2::new(9, -6) / 3, Vec2::new(3, -2));
    assert_eq!(Vec2::from([5, 6]), Vec2::new(5, 6));
    let f = Vec2::new(1.5f32, 2.0f32);
    assert_eq!(f.max(2.0, 1.0), Vec2::new(2.0, 2.0));
}

#[test]
fn cache_evicts_least_recently_used_to_fit() {
    let mut cache = Cache::new(100);
    assert!(cache.put("a".to_string(), 40).stored);
    assert!(cache.put("b".to_string(), 40).stored);
    assert_eq!(cache.get("a"), Some(40));
    let out = cache.put("c".to_string(), 40);
    assert!(out.stored);
    // "a" was used last, so "b" goes
    assert_eq!(out.evicted, vec!["b".to_string()]);
    assert!(cache.contains("a"));
    assert!(!cache.contains("b"));
    assert!(cache.contains("c"));
}

#[test]
fn cache_refuses_images_as_large_as_itself() {
    let mut cache = Cache::new(100);
    let out = cache.put("big".to_string(), 100);
    assert!(!out.stored);
    assert!(out.evicted.is_empty());
    assert!(!cache.contains("big"));
    let mut none = Cache::new(0);
    assert!(!none.put("x".to_string(), 0).stored);
}

#[test]
fn cache_pop_get_and_clear() {
    let mut cache = Cache::new(1000);
    cache.put("a".to_string(), 10);
    cache.put("b".to_string(), 20);
    assert_eq!(cache.pop("a"), Some(10));
    assert_eq!(cache.pop("a"), None);
    assert_eq!(cache.get("a"), None);
    assert_eq!(cache.get("b"), Some(20));
    cache.clear();
    assert!(!cache.contains("b"));
    // after clearing, the whole budget is free again
    let out = cache.put("c".to_string(), 999);
    assert!(out.stored);
    assert!(out.evicted.is_empty());
}

#[test]
fn cache_holds_a_bounded_number_of_entries() {
    let mut cache = Cache::new(usize::MAX);
    for i in 0..ENTRY_LIMIT {
        assert!(cache.put(format!("{}", i), 1).evicted.is_empty());
    }
    let out = cache.put("one more".to_string(), 1);
    assert!(out.stored);
    assert_eq!(out.evicted, vec!["0".to_string()]);
    assert!(!cache.contains("0"));
    assert!(cache.contains("one more"));
}

#[test]
fn putting_a_path_again_replaces_it() {
    let mut cache = Cache::new(100);
    cache.put("a".to_string(), 30);
    cache.put("b".to_string(), 30);
    let out = cache.put("a".to_string(), 30);
    assert!(out.stored);
    assert!(out.evicted.is_empty());
    assert_eq!(cache.get("a"), Some(30));
}

#[test]
fn loading_info_tracks_paths_in_flight() {
    let mut info = LoadingInfo::new();
    assert_eq!(info.target(), None);
    assert!(info.request("a.png"));
    assert_eq!(info.target().as_deref(), Some("a.png"));
    assert!(!info.request("a.png"));
    assert!(info.prefetch("b.png"));
    assert!(!info.prefetch("b.png"));
    assert_eq!(info.target().as_deref(), Some("a.png"));
    assert!(!info.finish("b.png"));
    assert!(info.prefetch("b.png"));
    assert!(info.finish("a.png"));
    assert_eq!(info.target(), None);
    assert!(info.request("a.png"));
}

#[test]
fn image_loader_starts_empty() {
    let loader = ImageLoader::new();
    assert!(loader.target_file.is_none());
    assert!(loader.loading.is_empty());
    let d = ImageLoader::default();
    assert!(d.target_file.is_none());
}

#[test]
fn completing_a_request_forgets_the_target() {
    let mut info = LoadingInfo::new();
    assert!(info.request("a"));
    assert!(info.prefetch("b"));
    assert!(info.request("c"));
    info.complete("a");
    assert_eq!(info.target(), None);
    assert!(info.request("a"));
    assert!(!info.prefetch("b"));
    assert!(!info.prefetch("c"));
}

#[test]
fn orientation_flips_turn_and_undo() {
    let mut o = Orientation::new();
    o.rotate(1);
    assert_eq!(o.rotation, 1);
    let applied = o.flip(Flip::Horizontal);
    assert_eq!(applied, Flip::Vertical);
    assert!(o.vertical_flip && !o.horizontal_flip);
    o.toggle(applied);
    assert_eq!(o, Orientation { rotation: 1, horizontal_flip: false, vertical_flip: false });
    o.rotate(-1);
    assert_eq!(o.rotation, 0);
    assert_eq!(o.flip(Flip::Vertical), Flip::Vertical);
    assert!(o.vertical_flip);
    let mut kept = 7;
    o.swap_rotation(&mut kept);
    assert_eq!(o.rotation, 3);
    assert_eq!(kept, 0);
    o.set_rotation(-6);
    assert_eq!(o.rotation, -2);
}

#[test]
fn animation_steps_after_the_delay() {
    let still = animation_step(true, 1, 0, 500, 100);
    assert_eq!(still, AnimationStep { index: 0, advanced: false, wait: None });
    let paused = animation_step(false, 3, 1, 500, 100);
    assert_eq!(paused, AnimationStep { index: 1, advanced: false, wait: None });
    assert_eq!(
        animation_step(true, 3, 1, 150, 100),
        AnimationStep { index: 2, advanced: true, wait: Some(100) }
    );
    assert_eq!(
        animation_step(true, 3, 2, 150, 100),
        AnimationStep { index: 0, advanced: true, wait: Some(100) }
    );
    assert_eq!(
        animation_step(true, 3, 2, 40, 100),
        AnimationStep { index: 2, advanced: false, wait: Some(60) }
    );
    assert_eq!(
        animation_step(true, 3, 2, 100, 100),
        AnimationStep { index: 2, advanced: false, wait: Some(0) }
    );
}

fn turned(rotation: i32, horizontal_flip: bool, vertical_flip: bool) -> Orientation {
    Orientation { rotation, horizontal_flip, vertical_flip }
}

#[test]
fn shown_pixels_map_back_to_stored_pixels() {
    // a stored image of 3 by 2 pixels
    assert_eq!(source_pixel(1, 0, 3, 2, turned(0, false, false)), (1, 0));
    assert_eq!(source_pixel(0, 2, 3, 2, turned(1, false, false)), (2, 1));
    assert_eq!(source_pixel(0, 0, 3, 2, turned(2, false, false)), (2, 1));
    assert_eq!(source_pixel(1, 0, 3, 2, turned(3, false, false)), (2, 1));
    assert_eq!(source_pixel(0, 0, 3, 2, turned(0, true, false)), (2, 0));
    assert_eq!(source_pixel(0, 0, 3, 2, turned(0, false, true)), (0, 1));
    assert_eq!(source_pixel(0, 0, 3, 2, turned(1, true, true)), (2, 0));
}

#[test]
fn every_stored_pixel_is_shown_once() {
    let (width, height) = (4u32, 3u32);
    for rotation in 0..4 {
        for flips in 0..4 {
            let o = turned(rotation, flips & 1 != 0, flips & 2 != 0);
            let (shown_w, shown_h) = if rotation % 2 != 0 { (height, width) } else { (width, height) };
            let mut seen = vec![false; (width * height) as usize];
            for x in 0..shown_w {
                for y in 0..shown_h {
                    let (px, py) = source_pixel(x, y, width, height, o);
                    assert!(px < width && py < height);
                    let i = (py * width + px) as usize;
                    assert!(!seen[i]);
                    seen[i] = true;
                }
            }
            assert!(seen.iter().all(|s| *s));
        }
    }
}
