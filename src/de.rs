//! Decoding: reading the shape of a [`Key`] back out, step by step.
//!
//! Whatever rebuilds a value asks for its parts here: whether an option is
//! present, which enum variant a key names and what its payload is, and the
//! elements of sequences and maps one at a time. A sequence must be read to
//! its end: reading stops with [`Error::InvalidLength`] when elements are
//! left over.
use vstd::prelude::*;

use crate::error::Error;
use crate::float::FloatPolicy;
use crate::key::{lemma_entry_views, Key, KeyView};

verus! {

/// Reads a key.
pub struct Deserializer<'de, F: FloatPolicy> {
    value: &'de Key<F>,
}

impl<'de, F: FloatPolicy> Deserializer<'de, F> {
    /// Starts reading `value`.
    pub fn new(value: &'de Key<F>) -> (r: Self)
        ensures
            r.value() == value,
    {
        Deserializer { value }
    }

    /// The key being read.
    pub closed spec fn value(&self) -> &'de Key<F> {
        self.value
    }

    /// The key being read.
    pub fn key(&self) -> (r: &'de Key<F>)
        ensures
            r == self.value(),
    {
        self.value
    }

    /// Reads an option: unit stands for an absent value; any other key is the
    /// present value itself.
    pub fn deserialize_option(&self) -> (r: Option<&'de Key<F>>)
        ensures
            r == option_of(self.value()),
    {
        deserialize_option(self.value)
    }

    /// Reads an enum variant: see [`deserialize_enum`].
    pub fn deserialize_enum(&self) -> (r: Result<(&'de Key<F>, Option<&'de Key<F>>), Error>)
        ensures
            r == variant_of(self.value()),
    {
        deserialize_enum(self.value)
    }
}

/// Unit stands for an absent option; any other key is the present value.
pub open spec fn option_of<'de, F: FloatPolicy>(value: &'de Key<F>) -> Option<&'de Key<F>> {
    if value@ is Unit {
        None
    } else {
        Some(value)
    }
}

/// Reads an option: `None` for unit, otherwise the key itself.
pub fn deserialize_option<'de, F: FloatPolicy>(value: &'de Key<F>) -> (r: Option<&'de Key<F>>)
    ensures
        r == option_of(value),
{
    match value {
        Key::Unit => None,
        _ => Some(value),
    }
}

/// What reading an enum variant from a key gives: a string names a variant
/// without payload; a map with exactly one entry names the variant by the
/// entry's key and holds its payload as the entry's value; any other key is
/// refused.
pub open spec fn variant_of<'de, F: FloatPolicy>(value: &'de Key<F>) -> Result<
    (&'de Key<F>, Option<&'de Key<F>>),
    Error,
> {
    match value {
        Key::String(_) => Ok((value, None)),
        Key::Mapping(m) => if m@.len() == 1 {
            Ok((&m@[0].0, Some(&m@[0].1)))
        } else {
            Err(Error::Unexpected("map with a single key"))
        },
        _ => Err(Error::Unexpected("string or map")),
    }
}

/// The parts of an enum variant in the value of a key: the name and the
/// payload, as [`variant_of`] reads them.
pub open spec fn variant_parts<F: FloatPolicy>(k: KeyView<F>) -> Result<
    (KeyView<F>, Option<KeyView<F>>),
    Error,
> {
    match k {
        KeyView::String(_) => Ok((k, None)),
        KeyView::Mapping(m) => if m.len() == 1 {
            Ok((m[0].0, Some(m[0].1)))
        } else {
            Err(Error::Unexpected("map with a single key"))
        },
        _ => Err(Error::Unexpected("string or map")),
    }
}

/// The value of an optional key.
pub open spec fn option_view<F: FloatPolicy>(k: Option<&Key<F>>) -> Option<KeyView<F>> {
    match k {
        Some(x) => Some(x@),
        None => None,
    }
}

/// A variant encoded by name alone, or as the map from its name to its payload,
/// is read back as that name and payload.
pub proof fn lemma_variant_round_trip<F: FloatPolicy>(name: Seq<char>, payload: KeyView<F>)
    ensures
        variant_parts(KeyView::<F>::String(name)) == Ok::<
            (KeyView<F>, Option<KeyView<F>>),
            Error,
        >((KeyView::<F>::String(name), None)),
        variant_parts(KeyView::Mapping(seq![(KeyView::<F>::String(name), payload)])) == Ok::<
            (KeyView<F>, Option<KeyView<F>>),
            Error,
        >((KeyView::<F>::String(name), Some(payload))),
{
}

/// Reads an enum variant from a key: the key that names the variant, and the
/// payload if there is one.
pub fn deserialize_enum<'de, F: FloatPolicy>(value: &'de Key<F>) -> (r: Result<
    (&'de Key<F>, Option<&'de Key<F>>),
    Error,
>)
    ensures
        r == variant_of(value),
        match r {
            Ok((n, p)) => variant_parts(value@) == Ok::<(KeyView<F>, Option<KeyView<F>>), Error>(
                (n@, option_view(p)),
            ),
            Err(e) => variant_parts(value@) == Err::<(KeyView<F>, Option<KeyView<F>>), Error>(e),
        },
{
    proof {
        if let Key::Mapping(m) = value {
            lemma_entry_views(m@, m@.len());
        }
    }
    match value {
        Key::String(_) => Ok((value, None)),
        Key::Mapping(m) => {
            if m.len() == 1 {
                let entry = &m[0];
                Ok((&entry.0, Some(&entry.1)))
            } else {
                Err(Error::Unexpected("map with a single key"))
            }
        },
        _ => Err(Error::Unexpected("string or map")),
    }
}

/// The payload of a variant that was asked for as one value; a variant without
/// payload is refused.
pub fn newtype_variant<'de, F: FloatPolicy>(payload: Option<&'de Key<F>>) -> (r: Result<
    &'de Key<F>,
    Error,
>)
    ensures
        match payload {
            Some(v) => r == Ok::<&'de Key<F>, Error>(v),
            None => r == Err::<&'de Key<F>, Error>(Error::UnexpectedVariant("newtype variant")),
        },
{
    match payload {
        Some(value) => Ok(value),
        None => Err(Error::UnexpectedVariant("newtype variant")),
    }
}

/// The fields of a variant that was asked for as a tuple: the payload must be
/// a sequence.
pub fn tuple_variant<'de, F: FloatPolicy>(payload: Option<&'de Key<F>>) -> (r: Result<
    &'de [Key<F>],
    Error,
>)
    ensures
        match payload {
            Some(Key::Sequence(v)) => r matches Ok(s) && s@ == v@,
            _ => r == Err::<&'de [Key<F>], Error>(Error::UnexpectedVariant("tuple variant")),
        },
{
    match payload {
        Some(Key::Sequence(values)) => Ok(values.as_slice()),
        _ => Err(Error::UnexpectedVariant("tuple variant")),
    }
}

/// The fields of a variant that was asked for as a struct: the payload must be
/// a map.
pub fn struct_variant<'de, F: FloatPolicy>(payload: Option<&'de Key<F>>) -> (r: Result<
    &'de [(Key<F>, Key<F>)],
    Error,
>)
    ensures
        match payload {
            Some(Key::Mapping(m)) => r matches Ok(s) && s@ == m@,
            _ => r == Err::<&'de [(Key<F>, Key<F>)], Error>(
                Error::UnexpectedVariant("struct variant"),
            ),
        },
{
    match payload {
        Some(Key::Mapping(m)) => Ok(m.as_slice()),
        _ => Err(Error::UnexpectedVariant("struct variant")),
    }
}

/// Whether the fields of a tuple variant are read as unit: they are when there
/// are none.
pub fn fields_read_as_unit<F: FloatPolicy>(fields: &[Key<F>]) -> (r: bool)
    ensures
        r == (fields@.len() == 0),
{
    fields.len() == 0
}

/// A variant without payload is read from either no payload or a unit payload.
pub fn unit_variant<'de, F: FloatPolicy>(payload: Option<&'de Key<F>>) -> (r: Result<(), Error>)
    ensures
        match payload {
            None => r is Ok,
            Some(v) => if v@ is Unit {
                r is Ok
            } else {
                r == Err::<(), Error>(Error::UnexpectedVariant("unit variant"))
            },
        },
{
    match payload {
        None => Ok(()),
        Some(Key::Unit) => Ok(()),
        Some(_) => Err(Error::UnexpectedVariant("unit variant")),
    }
}

/// Hands out the elements of a sequence one at a time, in order.
pub struct SeqDeserializer<'de, F: FloatPolicy> {
    values: &'de [Key<F>],
    next: usize,
}

impl<'de, F: FloatPolicy> SeqDeserializer<'de, F> {
    /// The elements not handed out yet.
    pub closed spec fn remaining(&self) -> Seq<Key<F>> {
        self.values@.subrange(self.next as int, self.values@.len() as int)
    }

    /// Well formed: the position lies within the sequence.
    pub closed spec fn wf(&self) -> bool {
        self.next <= self.values@.len()
    }

    /// Starts at the first of `values`.
    pub fn new(values: &'de [Key<F>]) -> (r: Self)
        ensures
            r.wf(),
            r.remaining() == values@,
    {
        let r = SeqDeserializer { values, next: 0 };
        proof {
            assert(r.remaining() =~= values@);
        }
        r
    }

    /// The number of elements not handed out yet.
    pub fn len(&self) -> (r: usize)
        requires
            self.wf(),
        ensures
            r == self.remaining().len(),
    {
        self.values.len() - self.next
    }

    /// The next element, or `None` at the end.
    pub fn next_element(&mut self) -> (r: Option<&'de Key<F>>)
        requires
            old(self).wf(),
        ensures
            final(self).wf(),
            old(self).remaining().len() == 0 ==> r is None,
            old(self).remaining().len() == 0 ==> final(self).remaining() == old(self).remaining(),
            old(self).remaining().len() > 0 ==> r == Some(&old(self).remaining()[0]),
            old(self).remaining().len() > 0 ==> final(self).remaining() == old(self).remaining().drop_first(),
    {
        if self.next < self.values.len() {
            let k = &self.values[self.next];
            self.next = self.next + 1;
            proof {
                assert(self.remaining() =~= old(self).remaining().drop_first());
            }
            Some(k)
        } else {
            None
        }
    }

    /// Ends the reading: fails with [`Error::InvalidLength`] when elements are
    /// left over.
    pub fn end(&self) -> (r: Result<(), Error>)
        requires
            self.wf(),
        ensures
            self.remaining().len() == 0 ==> r is Ok,
            self.remaining().len() > 0 ==> r == Err::<(), Error>(Error::InvalidLength),
    {
        if self.next == self.values.len() {
            Ok(())
        } else {
            Err(Error::InvalidLength)
        }
    }
}

/// Hands out the entries of a map one at a time, key first, then value.
pub struct MapDeserializer<'de, F: FloatPolicy> {
    map: &'de [(Key<F>, Key<F>)],
    next: usize,
    value: Option<&'de Key<F>>,
}

impl<'de, F: FloatPolicy> MapDeserializer<'de, F> {
    /// The entries whose keys were not handed out yet.
    pub closed spec fn remaining(&self) -> Seq<(Key<F>, Key<F>)> {
        self.map@.subrange(self.next as int, self.map@.len() as int)
    }

    /// The value of the last key handed out, while it was not handed out.
    pub closed spec fn pending(&self) -> Option<&'de Key<F>> {
        self.value
    }

    /// Well formed: the position lies within the map.
    pub closed spec fn wf(&self) -> bool {
        self.next <= self.map@.len()
    }

    /// Starts at the first entry of `map`.
    pub fn new(map: &'de [(Key<F>, Key<F>)]) -> (r: Self)
        ensures
            r.wf(),
            r.remaining() == map@,
            r.pending() is None,
    {
        let r = MapDeserializer { map, next: 0, value: None };
        proof {
            assert(r.remaining() =~= map@);
        }
        r
    }

    /// The key of the next entry, or `None` at the end; its value waits to be
    /// asked for.
    pub fn next_key(&mut self) -> (r: Option<&'de Key<F>>)
        requires
            old(self).wf(),
        ensures
            final(self).wf(),
            old(self).remaining().len() == 0 ==> r is None,
            old(self).remaining().len() == 0 ==> final(self).remaining() == old(self).remaining(),
            old(self).remaining().len() == 0 ==> final(self).pending() == old(self).pending(),
            old(self).remaining().len() > 0 ==> r == Some(&old(self).remaining()[0].0),
            old(self).remaining().len() > 0 ==> final(self).pending() == Some(&old(self).remaining()[0].1),
            old(self).remaining().len() > 0 ==> final(self).remaining() == old(self).remaining().drop_first(),
    {
        if self.next < self.map.len() {
            let entry = &self.map[self.next];
            self.value = Some(&entry.1);
            self.next = self.next + 1;
            proof {
                assert(self.remaining() =~= old(self).remaining().drop_first());
            }
            Some(&entry.0)
        } else {
            None
        }
    }

    /// The value of the last key handed out; fails with
    /// [`Error::MissingValue`] when no key waits for its value.
    pub fn next_value(&mut self) -> (r: Result<&'de Key<F>, Error>)
        requires
            old(self).wf(),
        ensures
            final(self).wf(),
            final(self).remaining() == old(self).remaining(),
            final(self).pending() is None,
            match old(self).pending() {
                Some(v) => r == Ok::<&'de Key<F>, Error>(v),
                None => r == Err::<&'de Key<F>, Error>(Error::MissingValue),
            },
    {
        match self.value.take() {
            Some(value) => Ok(value),
            None => Err(Error::MissingValue),
        }
    }
}

} // verus!
