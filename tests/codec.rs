use serde_hashkey::{
    deserialize_enum, deserialize_option, fields_read_as_unit, newtype_variant, serialize_bytes,
    serialize_char, serialize_newtype_variant, serialize_none, serialize_str, serialize_unit,
    serialize_unit_variant, struct_variant, tuple_variant, unit_variant, Deserializer, Error, Key,
    MapDeserializer, RejectFloatPolicy, SeqDeserializer, SerializeMap, SerializeStructVariant,
    SerializeTupleVariant, SerializeVec,
};

type K = Key<RejectFloatPolicy>;

fn s(text: &str) -> K {
    Key::String(text.to_string())
}

#[test]
fn primitives_encode_as_themselves() {
    assert_eq!(serialize_char::<RejectFloatPolicy>('x'), s("x"));
    assert_eq!(serialize_char::<RejectFloatPolicy>('é'), s("é"));
    assert_eq!(serialize_str::<RejectFloatPolicy>("Hello World"), s("Hello World"));
    assert_eq!(serialize_bytes::<RejectFloatPolicy>(&[1, 2, 3]), Key::Bytes(vec![1, 2, 3]));
    assert_eq!(serialize_unit::<RejectFloatPolicy>(), Key::Unit);
    assert_eq!(serialize_none::<RejectFloatPolicy>(), Key::Unit);
    assert_eq!(K::from(true), Key::Bool(true));
    assert_eq!(K::from(String::from("bar")), s("bar"));
    assert_eq!(K::from(vec![K::Unit]), Key::Sequence(vec![Key::Unit]));
}

#[test]
fn unit_variant_is_its_name() {
    let key = serialize_unit_variant::<RejectFloatPolicy>("Operation3");
    assert_eq!(key, s("Operation3"));
    let (name, payload) = deserialize_enum(&key).unwrap();
    assert_eq!(name, &s("Operation3"));
    assert!(payload.is_none());
    assert_eq!(unit_variant(payload), Ok(()));
}

#[test]
fn tuple_variant_is_a_single_entry_map() {
    let mut builder = SerializeTupleVariant::<RejectFloatPolicy>::new("Operation1", 2);
    builder.serialize_field(s("Foo"));
    builder.serialize_field(s("Bar"));
    let key = builder.end();
    assert_eq!(
        key,
        Key::Mapping(vec![(s("Operation1"), Key::Sequence(vec![s("Foo"), s("Bar")]))])
    );
    let (name, payload) = deserialize_enum(&key).unwrap();
    assert_eq!(name, &s("Operation1"));
    let fields = tuple_variant(payload).unwrap();
    assert_eq!(fields, &[s("Foo"), s("Bar")][..]);
    assert!(!fields_read_as_unit(fields));
    assert!(fields_read_as_unit::<RejectFloatPolicy>(&[]));
    assert_eq!(
        struct_variant(payload),
        Err(Error::UnexpectedVariant("struct variant"))
    );
}

#[test]
fn newtype_variant_is_a_single_entry_map() {
    let key = serialize_newtype_variant::<RejectFloatPolicy>("Operation2", s("Foo"));
    assert_eq!(key, Key::Mapping(vec![(s("Operation2"), s("Foo"))]));
    let (name, payload) = deserialize_enum(&key).unwrap();
    assert_eq!(name, &s("Operation2"));
    assert_eq!(newtype_variant(payload), Ok(&s("Foo")));
    assert_eq!(
        tuple_variant(payload),
        Err(Error::UnexpectedVariant("tuple variant"))
    );
    assert_eq!(unit_variant(payload), Err(Error::UnexpectedVariant("unit variant")));
    assert_eq!(
        newtype_variant::<RejectFloatPolicy>(None),
        Err(Error::UnexpectedVariant("newtype variant"))
    );
}

#[test]
fn struct_variant_holds_a_map_of_fields() {
    let mut builder = SerializeStructVariant::<RejectFloatPolicy>::new("Move");
    builder.serialize_field("x", K::from(1u8));
    builder.serialize_field("y", K::from(2u8));
    let key = builder.end();
    assert_eq!(
        key,
        Key::Mapping(vec![(
            s("Move"),
            Key::Mapping(vec![(s("x"), K::from(1u8)), (s("y"), K::from(2u8))])
        )])
    );
    let (_, payload) = deserialize_enum(&key).unwrap();
    let fields = struct_variant(payload).unwrap();
    let mut access = MapDeserializer::new(fields);
    assert_eq!(access.next_key(), Some(&s("x")));
    assert_eq!(access.next_value(), Ok(&K::from(1u8)));
    assert_eq!(access.next_key(), Some(&s("y")));
    assert_eq!(access.next_value(), Ok(&K::from(2u8)));
    assert_eq!(access.next_key(), None);
}

#[test]
fn enum_needs_a_string_or_a_single_entry_map() {
    assert_eq!(
        deserialize_enum(&K::Unit),
        Err(Error::Unexpected("string or map"))
    );
    let two = K::Mapping(vec![(s("a"), Key::Unit), (s("b"), Key::Unit)]);
    assert_eq!(
        deserialize_enum(&two),
        Err(Error::Unexpected("map with a single key"))
    );
    assert_eq!(
        deserialize_enum(&K::Mapping(vec![])),
        Err(Error::Unexpected("map with a single key"))
    );
}

#[test]
fn options_read_unit_as_absent() {
    let unit = K::Unit;
    let five = K::from(5u16);
    assert_eq!(deserialize_option(&unit), None);
    assert_eq!(deserialize_option(&five), Some(&five));
    assert_eq!(Deserializer::new(&five).deserialize_option(), Some(&five));
    assert_eq!(Deserializer::new(&five).key(), &five);
}

#[test]
fn record_round_trips_through_a_map() {
    let mut author = SerializeMap::<RejectFloatPolicy>::new();
    author.serialize_field("name", s("Noah"));
    author.serialize_field("age", K::from(42u32));
    let author = author.end();
    let mut book = SerializeMap::new();
    book.serialize_field("title", s("Birds of a feather"));
    book.serialize_field("author", author.clone());
    let book = book.end();

    let entries = match &book {
        Key::Mapping(entries) => entries,
        other => panic!("unexpected: {:?}", other),
    };
    let mut access = MapDeserializer::new(entries);
    assert_eq!(access.next_key(), Some(&s("title")));
    assert_eq!(access.next_value(), Ok(&s("Birds of a feather")));
    assert_eq!(access.next_key(), Some(&s("author")));
    assert_eq!(access.next_value(), Ok(&author));
    assert_eq!(access.next_key(), None);
}

#[test]
fn map_value_needs_a_key() {
    let mut map = SerializeMap::<RejectFloatPolicy>::new();
    assert!(!map.has_pending_key());
    assert_eq!(map.serialize_value(K::Unit), Err(Error::MissingValue));
    map.serialize_key(s("bar"));
    assert!(map.has_pending_key());
    assert_eq!(map.serialize_value(K::from(1i32)), Ok(()));
    assert_eq!(map.serialize_value(K::from(2i32)), Err(Error::MissingValue));
    assert_eq!(map.end(), Key::Mapping(vec![(s("bar"), K::from(1i32))]));

    let entries = vec![(s("k"), s("v"))];
    let mut access = MapDeserializer::new(&entries);
    assert_eq!(access.next_value(), Err(Error::MissingValue));
    assert_eq!(access.next_key(), Some(&s("k")));
    assert_eq!(access.next_value(), Ok(&s("v")));
    assert_eq!(access.next_value(), Err(Error::MissingValue));
}

#[test]
fn sequence_round_trips_in_order() {
    let mut seq = SerializeVec::<RejectFloatPolicy>::new(3);
    for i in 0..3u64 {
        seq.serialize_element(K::from(i));
    }
    let key = seq.end();
    assert_eq!(
        key,
        Key::Sequence(vec![K::from(0u64), K::from(1u64), K::from(2u64)])
    );
    let values = match &key {
        Key::Sequence(values) => values,
        other => panic!("unexpected: {:?}", other),
    };
    let mut access = SeqDeserializer::new(values);
    assert_eq!(access.len(), 3);
    let mut read = Vec::new();
    while let Some(k) = access.next_element() {
        read.push(k.clone());
    }
    assert_eq!(&read, values);
    assert_eq!(access.end(), Ok(()));
}

#[test]
fn leftover_elements_are_an_error() {
    let values = vec![K::from(1u8), K::from(2u8), K::from(3u8)];
    let mut access = SeqDeserializer::new(&values);
    assert_eq!(access.next_element(), Some(&values[0]));
    assert_eq!(access.next_element(), Some(&values[1]));
    assert_eq!(access.end(), Err(Error::InvalidLength));
    assert_eq!(access.next_element(), Some(&values[2]));
    assert_eq!(access.next_element(), None);
    assert_eq!(access.end(), Ok(()));
}

#[test]
fn custom_errors_carry_their_message() {
    assert_eq!(
        Error::custom(String::from("boom")),
        Error::Custom(String::from("boom"))
    );
}
