use serde_hashkey::{Key, RejectFloatPolicy};

#[test]
fn assert_default() {
    assert_eq!(Key::<RejectFloatPolicy>::Unit, Key::default());
}

#[test]
fn test_normalize() {
    let a = Key::<RejectFloatPolicy>::Mapping(
        vec![
            (Key::String("baz".into()), Key::String("biz".into())),
            (Key::String("foo".into()), Key::String("bar".into())),
        ]
        .into(),
    );

    let b = Key::Mapping(
        vec![
            (Key::String("foo".into()), Key::String("bar".into())),
            (Key::String("baz".into()), Key::String("biz".into())),
        ]
        .into(),
    );

    assert_ne!(a, b);
    assert_eq!(a, b.clone().normalize());
    assert_eq!(a.normalize(), b.normalize());
}
