//! Canonical keys for structured values.
//!
//! A [`Key`] is an immutable tree of primitive values, sequences and maps that
//! is totally ordered and hashable, so that values of arbitrary shape can be
//! used to look things up in caches and registries. Floating-point numbers take
//! part only under a float policy that gives them a total order.

mod de;
mod error;
mod float;
mod key;
mod normal;
mod order;
mod sealed;
mod ser;

pub use crate::de::{
    deserialize_enum, deserialize_option, fields_read_as_unit, lemma_variant_round_trip,
    newtype_variant, option_of, option_view, struct_variant, tuple_variant, unit_variant,
    variant_of, variant_parts, Deserializer, MapDeserializer, SeqDeserializer,
};
pub use crate::error::Error;
pub use crate::float::{
    canonical32, canonical64, is_nan32, is_nan64, lemma_f32_round_trip, lemma_f64_round_trip,
    lemma_order32, lemma_order64, order32, order64, FloatPolicy, FloatRepr, NeverFloat,
    OrderedFloat, OrderedFloatPolicy, RejectFloatPolicy,
};
pub use crate::key::{key_view, Float, Integer, Key, KeyView};
pub use crate::normal::{
    entries_sorted, lemma_map_order_independent, lemma_normalize_idempotent, normalized,
};
pub use crate::order::{
    int_cmp, key_cmp, lemma_f32_before_f64, lemma_key_antisym, lemma_key_refl, lemma_key_trans,
    lemma_width_distinct,
};
pub use crate::ser::{
    serialize_bytes, serialize_char, serialize_f32, serialize_f64, serialize_newtype_variant,
    serialize_none, serialize_str, serialize_unit, serialize_unit_variant, SerializeMap,
    SerializeStructVariant, SerializeTupleVariant, SerializeVec,
};
