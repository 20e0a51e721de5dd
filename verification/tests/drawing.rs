use oatbar::drawing::{ImageKey, ImageLoader, Mode};

#[test]
fn image_cache_returns_what_was_remembered() {
    let mut loader: ImageLoader<u32> = ImageLoader::new();
    let key = ImageKey::new("icon.png", 24);
    assert!(loader.lookup(&key, true).is_none());
    loader.remember(ImageKey::new("icon.png", 24), 7, true);
    assert_eq!(loader.lookup(&key, true), Some(&7));
    assert!(loader.lookup(&ImageKey::new("icon.png", 32), true).is_none());
    assert!(loader.lookup(&ImageKey::new("other.png", 24), true).is_none());
}

#[test]
fn image_cache_replaces_an_image_of_the_same_key() {
    let mut loader: ImageLoader<&str> = ImageLoader::new();
    loader.remember(ImageKey::new("a.svg", 16), "first", true);
    loader.remember(ImageKey::new("b.svg", 16), "second", true);
    loader.remember(ImageKey::new("a.svg", 16), "third", true);
    assert_eq!(loader.lookup(&ImageKey::new("a.svg", 16), true), Some(&"third"));
    assert_eq!(loader.lookup(&ImageKey::new("b.svg", 16), true), Some(&"second"));
}

#[test]
fn image_cache_off_keeps_and_gives_nothing() {
    let mut loader: ImageLoader<u8> = ImageLoader::new();
    loader.remember(ImageKey::new("a.png", 10), 1, false);
    assert!(loader.lookup(&ImageKey::new("a.png", 10), true).is_none());
    loader.remember(ImageKey::new("a.png", 10), 2, true);
    assert!(loader.lookup(&ImageKey::new("a.png", 10), false).is_none());
    assert_eq!(loader.lookup(&ImageKey::new("a.png", 10), true), Some(&2));
}

#[test]
fn image_keys_compare_by_file_and_height() {
    assert!(ImageKey::new("x", 1).same(&ImageKey::new("x", 1)));
    assert!(!ImageKey::new("x", 1).same(&ImageKey::new("x", 2)));
    assert!(!ImageKey::new("x", 1).same(&ImageKey::new("y", 1)));
    assert!(Mode::Full != Mode::Shape);
}
