use std::collections::HashMap;

use tunnel_geometry::style::{Align, Color};

/// Colors are plain copyable keys: a renderer can group triangle batches
/// in a map keyed by them.
#[test]
fn color_keys_batches() {
    let mut batches: HashMap<Color, usize> = HashMap::new();
    *batches.entry(Color::White).or_default() += 3;
    *batches.entry(Color::Yellow).or_default() += 2;
    *batches.entry(Color::White).or_default() += 1;
    assert_eq!(batches[&Color::White], 4);
    assert_eq!(batches[&Color::Yellow], 2);
    assert!(!batches.contains_key(&Color::PaleBlue));
}

#[test]
fn color_equality() {
    let c = Color::PaleBlue;
    let d = c;
    assert_eq!(c, d);
    assert_ne!(Color::White, Color::Yellow);
}

#[test]
fn align_equality() {
    let a = Align::Center;
    let b = a;
    assert_eq!(a, b);
    assert_ne!(Align::Left, Align::Right);
}
