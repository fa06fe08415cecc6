//! Encoding: folding the shape of a value into a [`Key`].
//!
//! Whatever walks the value reports each part of it here: a primitive becomes
//! a key on its own, and the builders below collect sequences, maps and the
//! payloads of enum variants. An enum variant is encoded as its name when it
//! has no payload, and otherwise as a map with the one entry from its name to
//! its payload.
use vstd::prelude::*;

use crate::error::Error;
use crate::float::{FloatPolicy, FloatRepr};
use crate::key::{
    entry_view, entry_views, key_view, key_views, lemma_entry_views, lemma_entry_views_ext,
    lemma_key_views, lemma_key_views_ext, Float, Key, KeyView,
};
use crate::normal::Entry;

verus! {

/// Relies on `String::from(char)`: the string that holds just `c`.
#[verifier::external_body]
fn string_of_char(c: char) -> (r: String)
    ensures
        r@ == seq![c],
{
    String::from(c)
}

/// The key of a 32-bit float with bit pattern `bits`, or the policy's refusal.
pub fn serialize_f32<F: FloatPolicy>(bits: u32) -> (r: Result<Key<F>, Error>)
    ensures
        match F::F32::captured(bits) {
            Ok(f) => r == Ok::<Key<F>, Error>(Key::Float(Float::F32(f))),
            Err(e) => r == Err::<Key<F>, Error>(e),
        },
{
    match F::F32::serialize(bits) {
        Ok(f) => Ok(Key::Float(Float::F32(f))),
        Err(e) => Err(e),
    }
}

/// The key of a 64-bit float with bit pattern `bits`, or the policy's refusal.
pub fn serialize_f64<F: FloatPolicy>(bits: u64) -> (r: Result<Key<F>, Error>)
    ensures
        match F::F64::captured(bits) {
            Ok(f) => r == Ok::<Key<F>, Error>(Key::Float(Float::F64(f))),
            Err(e) => r == Err::<Key<F>, Error>(e),
        },
{
    match F::F64::serialize(bits) {
        Ok(f) => Ok(Key::Float(Float::F64(f))),
        Err(e) => Err(e),
    }
}

/// A character is encoded as the string of that one character.
pub fn serialize_char<F: FloatPolicy>(c: char) -> (r: Key<F>)
    ensures
        r@ == KeyView::<F>::String(seq![c]),
{
    Key::String(string_of_char(c))
}

/// A string is encoded as itself.
pub fn serialize_str<F: FloatPolicy>(s: &str) -> (r: Key<F>)
    ensures
        r@ == KeyView::<F>::String(s@),
{
    Key::String(s.to_owned())
}

/// A byte string is encoded as itself.
pub fn serialize_bytes<F: FloatPolicy>(b: &[u8]) -> (r: Key<F>)
    ensures
        r@ == KeyView::<F>::Bytes(b@),
{
    Key::Bytes(vstd::slice::slice_to_vec(b))
}

/// The unit value, a unit struct and an empty tuple are encoded as unit.
pub fn serialize_unit<F: FloatPolicy>() -> (r: Key<F>)
    ensures
        r@ == KeyView::<F>::Unit,
{
    Key::Unit
}

/// An absent option is encoded as unit; a present one as its content.
pub fn serialize_none<F: FloatPolicy>() -> (r: Key<F>)
    ensures
        r@ == KeyView::<F>::Unit,
{
    Key::Unit
}

/// A variant without payload is encoded as its name.
pub fn serialize_unit_variant<F: FloatPolicy>(variant: &str) -> (r: Key<F>)
    ensures
        r@ == KeyView::<F>::String(variant@),
{
    serialize_str(variant)
}

/// The map with one entry, from `name` to `value`.
fn single_entry<F: FloatPolicy>(name: String, value: Key<F>) -> (r: Key<F>)
    ensures
        r@ == KeyView::Mapping(seq![(KeyView::<F>::String(name@), value@)]),
{
    let ghost nv = name@;
    let ghost vv = value@;
    let mut entries: Vec<(Key<F>, Key<F>)> = Vec::new();
    entries.push((Key::String(name), value));
    proof {
        lemma_entry_views_ext(entries@, seq![(KeyView::<F>::String(nv), vv)]);
    }
    Key::Mapping(entries)
}

/// A variant with one payload value is encoded as the map from its name to
/// that value.
pub fn serialize_newtype_variant<F: FloatPolicy>(variant: &str, value: Key<F>) -> (r: Key<F>)
    ensures
        r@ == KeyView::Mapping(seq![(KeyView::<F>::String(variant@), value@)]),
{
    single_entry(variant.to_owned(), value)
}

/// Collects the elements of a sequence, a tuple or a tuple struct.
pub struct SerializeVec<F: FloatPolicy> {
    vec: Vec<Key<F>>,
}

impl<F: FloatPolicy> View for SerializeVec<F> {
    type V = Seq<KeyView<F>>;

    closed spec fn view(&self) -> Seq<KeyView<F>> {
        key_views(self.vec@, self.vec@.len())
    }
}

/// Pushing a key onto a list of keys pushes its value onto their values.
proof fn lemma_push_key<F: FloatPolicy>(before: Seq<Key<F>>, x: Key<F>, after: Seq<Key<F>>)
    requires
        after == before.push(x),
    ensures
        key_views(after, after.len()) == key_views(before, before.len()).push(x@),
{
    lemma_key_views(before, before.len());
    lemma_key_views(after, after.len());
    lemma_key_views_ext(after, key_views(before, before.len()).push(x@));
}

/// Pushing an entry onto a list of entries pushes its value onto their values.
proof fn lemma_push_entry<F: FloatPolicy>(
    before: Seq<(Key<F>, Key<F>)>,
    x: (Key<F>, Key<F>),
    after: Seq<(Key<F>, Key<F>)>,
)
    requires
        after == before.push(x),
    ensures
        entry_views(after, after.len()) == entry_views(before, before.len()).push(entry_view(x)),
{
    lemma_entry_views(before, before.len());
    lemma_entry_views(after, after.len());
    lemma_entry_views_ext(after, entry_views(before, before.len()).push(entry_view(x)));
}

impl<F: FloatPolicy> SerializeVec<F> {
    /// Starts a sequence, with room for `len` elements.
    pub fn new(len: usize) -> (r: Self)
        ensures
            r@ == Seq::<KeyView<F>>::empty(),
    {
        let r = SerializeVec { vec: Vec::with_capacity(len) };
        proof {
            lemma_key_views(r.vec@, 0);
        }
        r
    }

    /// Adds the next element.
    pub fn serialize_element(&mut self, value: Key<F>)
        ensures
            final(self)@ == old(self)@.push(value@),
    {
        let ghost before = self.vec@;
        self.vec.push(value);
        proof {
            lemma_push_key(before, value, self.vec@);
        }
    }

    /// The sequence of the elements added.
    pub fn end(self) -> (r: Key<F>)
        ensures
            r@ == KeyView::Sequence(self@),
    {
        Key::Sequence(self.vec)
    }
}

/// Collects the fields of a tuple variant.
pub struct SerializeTupleVariant<F: FloatPolicy> {
    name: String,
    vec: Vec<Key<F>>,
}

impl<F: FloatPolicy> View for SerializeTupleVariant<F> {
    type V = (Seq<char>, Seq<KeyView<F>>);

    closed spec fn view(&self) -> (Seq<char>, Seq<KeyView<F>>) {
        (self.name@, key_views(self.vec@, self.vec@.len()))
    }
}

impl<F: FloatPolicy> SerializeTupleVariant<F> {
    /// Starts the variant named `variant`, with room for `len` fields.
    pub fn new(variant: &str, len: usize) -> (r: Self)
        ensures
            r@ == (variant@, Seq::<KeyView<F>>::empty()),
    {
        let r = SerializeTupleVariant { name: variant.to_owned(), vec: Vec::with_capacity(len) };
        proof {
            lemma_key_views(r.vec@, 0);
        }
        r
    }

    /// Adds the next field.
    pub fn serialize_field(&mut self, value: Key<F>)
        ensures
            final(self)@ == (old(self)@.0, old(self)@.1.push(value@)),
    {
        let ghost before = self.vec@;
        self.vec.push(value);
        proof {
            lemma_push_key(before, value, self.vec@);
        }
    }

    /// The map from the variant's name to the sequence of its fields.
    pub fn end(self) -> (r: Key<F>)
        ensures
            r@ == KeyView::Mapping(
                seq![(KeyView::<F>::String(self@.0), KeyView::<F>::Sequence(self@.1))],
            ),
    {
        single_entry(self.name, Key::Sequence(self.vec))
    }
}

/// Collects the entries of a map or the fields of a struct, in the order they
/// come.
pub struct SerializeMap<F: FloatPolicy> {
    map: Vec<(Key<F>, Key<F>)>,
    next_key: Option<Key<F>>,
}

impl<F: FloatPolicy> View for SerializeMap<F> {
    /// The entries so far, and the key that waits for its value.
    type V = (Seq<Entry<F>>, Option<KeyView<F>>);

    closed spec fn view(&self) -> (Seq<Entry<F>>, Option<KeyView<F>>) {
        (
            entry_views(self.map@, self.map@.len()),
            match self.next_key {
                Some(k) => Some(key_view(k)),
                None => None,
            },
        )
    }
}

impl<F: FloatPolicy> SerializeMap<F> {
    /// Starts an empty map.
    pub fn new() -> (r: Self)
        ensures
            r@ == (Seq::<Entry<F>>::empty(), None::<KeyView<F>>),
    {
        let r = SerializeMap { map: Vec::new(), next_key: None };
        proof {
            lemma_entry_views(r.map@, 0);
        }
        r
    }

    /// Gives the key of the next entry; it waits for its value.
    pub fn serialize_key(&mut self, key: Key<F>)
        ensures
            final(self)@ == (old(self)@.0, Some(key@)),
    {
        self.next_key = Some(key);
    }

    /// Whether a key waits for its value.
    pub fn has_pending_key(&self) -> (r: bool)
        ensures
            r == self@.1 is Some,
    {
        self.next_key.is_some()
    }

    /// Gives the value for the waiting key and adds the entry; with no key
    /// waiting, fails with [`Error::MissingValue`] and changes nothing.
    pub fn serialize_value(&mut self, value: Key<F>) -> (r: Result<(), Error>)
        ensures
            match old(self)@.1 {
                Some(k) => r is Ok && final(self)@ == (old(self)@.0.push((k, value@)), None::<
                    KeyView<F>,
                >),
                None => r == Err::<(), Error>(Error::MissingValue) && final(self)@ == old(self)@,
            },
    {
        match self.next_key.take() {
            Some(key) => {
                let ghost before = self.map@;
                self.map.push((key, value));
                proof {
                    lemma_push_entry(before, (key, value), self.map@);
                }
                Ok(())
            },
            None => Err(Error::MissingValue),
        }
    }

    /// Adds the field named `name` with value `value`, as a string key.
    pub fn serialize_field(&mut self, name: &str, value: Key<F>)
        ensures
            final(self)@ == (old(self)@.0.push((KeyView::<F>::String(name@), value@)), None::<
                KeyView<F>,
            >),
    {
        let ghost before = self.map@;
        let entry = (serialize_str(name), value);
        self.map.push(entry);
        self.next_key = None;
        proof {
            lemma_push_entry(before, entry, self.map@);
        }
    }

    /// The map of the entries added, in the order they were added; a key still
    /// waiting for its value is dropped.
    pub fn end(self) -> (r: Key<F>)
        ensures
            r@ == KeyView::Mapping(self@.0),
    {
        Key::Mapping(self.map)
    }
}

/// Collects the fields of a struct variant.
pub struct SerializeStructVariant<F: FloatPolicy> {
    name: String,
    map: Vec<(Key<F>, Key<F>)>,
}

impl<F: FloatPolicy> View for SerializeStructVariant<F> {
    type V = (Seq<char>, Seq<Entry<F>>);

    closed spec fn view(&self) -> (Seq<char>, Seq<Entry<F>>) {
        (self.name@, entry_views(self.map@, self.map@.len()))
    }
}

impl<F: FloatPolicy> SerializeStructVariant<F> {
    /// Starts the variant named `variant`.
    pub fn new(variant: &str) -> (r: Self)
        ensures
            r@ == (variant@, Seq::<Entry<F>>::empty()),
    {
        let r = SerializeStructVariant { name: variant.to_owned(), map: Vec::new() };
        proof {
            lemma_entry_views(r.map@, 0);
        }
        r
    }

    /// Adds the field named `name` with value `value`.
    pub fn serialize_field(&mut self, name: &str, value: Key<F>)
        ensures
            final(self)@ == (old(self)@.0, old(self)@.1.push((KeyView::<F>::String(name@), value@))),
    {
        let ghost before = self.map@;
        let entry = (serialize_str(name), value);
        self.map.push(entry);
        proof {
            lemma_push_entry(before, entry, self.map@);
        }
    }

    /// The map from the variant's name to the map of its fields.
    pub fn end(self) -> (r: Key<F>)
        ensures
            r@ == KeyView::Mapping(
                seq![(KeyView::<F>::String(self@.0), KeyView::<F>::Mapping(self@.1))],
            ),
    {
        let name = self.name;
        let fields = Key::Mapping(self.map);
        single_entry(name, fields)
    }
}

} // verus!
