use batch_image_processing::cache::ThumbnailCache;
use batch_image_processing::image_ops::Rotation;
use image::DynamicImage;
use std::path::PathBuf;
use std::sync::Arc;

fn image(w: u32) -> Arc<DynamicImage> {
    Arc::new(DynamicImage::new_rgba8(w, 1))
}

#[test]
fn new_cache_is_empty_with_the_default_thumbnail_size() {
    let mut cache = ThumbnailCache::new(0);
    assert_eq!(cache.max_size, 1200);
    assert!(cache.lookup(&PathBuf::from("a.jpg"), Rotation::NoRotation, 0).is_none());
}

#[test]
fn zero_capacity_means_ten_entries() {
    let mut cache = ThumbnailCache::new(0);
    for i in 0..10 {
        cache.store(&PathBuf::from(format!("{i}.jpg")), Rotation::NoRotation, 0, image(1));
    }
    for i in 0..10 {
        assert!(cache.lookup(&PathBuf::from(format!("{i}.jpg")), Rotation::NoRotation, 0).is_some());
    }
    cache.store(&PathBuf::from("new.jpg"), Rotation::NoRotation, 0, image(1));
    assert!(cache.lookup(&PathBuf::from("0.jpg"), Rotation::NoRotation, 0).is_none());
}

#[test]
fn lookup_after_store_finds_the_stored_image() {
    let mut cache = ThumbnailCache::new(3);
    let img = image(7);
    let p = PathBuf::from("a.jpg");
    cache.store(&p, Rotation::Cw90, 42, img.clone());
    let found = cache.lookup(&p, Rotation::Cw90, 42).expect("cached");
    assert!(Arc::ptr_eq(&found, &img));
}

#[test]
fn rotation_and_overlay_are_part_of_the_key() {
    let mut cache = ThumbnailCache::new(3);
    let p = PathBuf::from("a.jpg");
    cache.store(&p, Rotation::Cw90, 42, image(1));
    assert!(cache.lookup(&p, Rotation::NoRotation, 42).is_none());
    assert!(cache.lookup(&p, Rotation::Cw90, 0).is_none());
    assert!(cache.lookup(&PathBuf::from("b.jpg"), Rotation::Cw90, 42).is_none());
}

#[test]
fn storing_again_replaces_the_image() {
    let mut cache = ThumbnailCache::new(2);
    let p = PathBuf::from("a.jpg");
    cache.store(&p, Rotation::NoRotation, 0, image(1));
    let second = image(2);
    cache.store(&p, Rotation::NoRotation, 0, second.clone());
    assert!(Arc::ptr_eq(&cache.lookup(&p, Rotation::NoRotation, 0).unwrap(), &second));
}

#[test]
fn full_cache_evicts_the_least_recently_used() {
    let mut cache = ThumbnailCache::new(2);
    let (a, b, c) = (PathBuf::from("a.jpg"), PathBuf::from("b.jpg"), PathBuf::from("c.jpg"));
    cache.store(&a, Rotation::NoRotation, 0, image(1));
    cache.store(&b, Rotation::NoRotation, 0, image(2));
    assert!(cache.lookup(&a, Rotation::NoRotation, 0).is_some());
    cache.store(&c, Rotation::NoRotation, 0, image(3));
    assert!(cache.lookup(&b, Rotation::NoRotation, 0).is_none());
    assert!(cache.lookup(&a, Rotation::NoRotation, 0).is_some());
    assert!(cache.lookup(&c, Rotation::NoRotation, 0).is_some());
}

#[test]
fn missing_lists_the_uncached_paths_in_order() {
    let mut cache = ThumbnailCache::new(5);
    let paths: Vec<PathBuf> = ["a.jpg", "b.jpg", "c.jpg", "d.jpg"].iter().map(PathBuf::from).collect();
    cache.store(&paths[1], Rotation::NoRotation, 0, image(1));
    cache.store(&paths[3], Rotation::Cw180, 0, image(1));
    let missing = cache.missing(&paths, Rotation::NoRotation, 0);
    assert_eq!(
        missing,
        vec![PathBuf::from("a.jpg"), PathBuf::from("c.jpg"), PathBuf::from("d.jpg")]
    );
    assert!(cache.missing(&Vec::new(), Rotation::NoRotation, 0).is_empty());
}

#[test]
fn storing_with_room_keeps_the_other_entries() {
    let mut cache = ThumbnailCache::new(3);
    let (a, b, c) = (PathBuf::from("a.jpg"), PathBuf::from("b.jpg"), PathBuf::from("c.jpg"));
    let (ia, ib) = (image(1), image(2));
    cache.store(&a, Rotation::NoRotation, 0, ia.clone());
    cache.store(&b, Rotation::NoRotation, 0, ib.clone());
    cache.store(&c, Rotation::NoRotation, 0, image(3));
    assert!(Arc::ptr_eq(&cache.lookup(&a, Rotation::NoRotation, 0).unwrap(), &ia));
    assert!(Arc::ptr_eq(&cache.lookup(&b, Rotation::NoRotation, 0).unwrap(), &ib));
}

#[test]
fn lookups_change_no_stored_image() {
    let mut cache = ThumbnailCache::new(2);
    let (a, b) = (PathBuf::from("a.jpg"), PathBuf::from("b.jpg"));
    let (ia, ib) = (image(1), image(2));
    cache.store(&a, Rotation::NoRotation, 0, ia.clone());
    cache.store(&b, Rotation::NoRotation, 0, ib.clone());
    assert!(cache.lookup(&PathBuf::from("z.jpg"), Rotation::NoRotation, 0).is_none());
    assert!(Arc::ptr_eq(&cache.lookup(&b, Rotation::NoRotation, 0).unwrap(), &ib));
    assert!(Arc::ptr_eq(&cache.lookup(&a, Rotation::NoRotation, 0).unwrap(), &ia));
    assert!(Arc::ptr_eq(&cache.lookup(&b, Rotation::NoRotation, 0).unwrap(), &ib));
}
