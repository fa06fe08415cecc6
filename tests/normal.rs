use serde_hashkey::{Key, RejectFloatPolicy};

type K = Key<RejectFloatPolicy>;

fn s(text: &str) -> K {
    Key::String(text.to_string())
}

fn nested(order: &[usize]) -> K {
    let entries = vec![
        (s("foo"), K::from(1u8)),
        (s("bar"), Key::Sequence(vec![Key::Mapping(vec![(s("y"), K::Unit), (s("x"), K::Unit)])])),
        (K::from(3u8), s("three")),
        (Key::Mapping(vec![(s("b"), K::Unit), (s("a"), K::Unit)]), Key::Bool(true)),
    ];
    Key::Mapping(order.iter().map(|&i| entries[i].clone()).collect())
}

#[test]
fn normalize_is_idempotent() {
    let once = nested(&[0, 1, 2, 3]).normalize();
    let twice = once.clone().normalize();
    assert_eq!(once, twice);
}

#[test]
fn normalize_sorts_at_every_depth() {
    let normal = nested(&[3, 1, 0, 2]).normalize();
    let expected = Key::Mapping(vec![
        (K::from(3u8), s("three")),
        (s("bar"), Key::Sequence(vec![Key::Mapping(vec![(s("x"), K::Unit), (s("y"), K::Unit)])])),
        (s("foo"), K::from(1u8)),
        (Key::Mapping(vec![(s("a"), K::Unit), (s("b"), K::Unit)]), Key::Bool(true)),
    ]);
    assert_eq!(normal, expected);
}

#[test]
fn map_order_does_not_matter_after_normalizing() {
    let orders: [[usize; 4]; 4] = [[0, 1, 2, 3], [3, 2, 1, 0], [1, 3, 0, 2], [2, 0, 3, 1]];
    let first = nested(&orders[0]).normalize();
    for order in &orders[1..] {
        assert_ne!(nested(order), nested(&orders[0]));
        assert_eq!(nested(order).normalize(), first);
    }
}

#[test]
fn equal_keys_keep_their_order() {
    let m = K::Mapping(vec![(s("k"), K::from(2u8)), (s("a"), K::Unit), (s("k"), K::from(1u8))]);
    assert_eq!(
        m.normalize(),
        K::Mapping(vec![(s("a"), K::Unit), (s("k"), K::from(2u8)), (s("k"), K::from(1u8))])
    );
}

#[test]
fn normalize_leaves_other_keys_alone() {
    for k in [K::Unit, K::from(7i32), s("x"), Key::Bytes(vec![9]), Key::Sequence(vec![])] {
        assert_eq!(k.clone().normalize(), k);
    }
    assert_eq!(K::Mapping(vec![]).normalize(), K::Mapping(vec![]));
}
