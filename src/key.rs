//! The key value model.
use vstd::prelude::*;

use crate::float::{FloatPolicy, RejectFloatPolicy};

verus! {

broadcast use vstd::std_specs::vec::group_vec_axioms;

/// An integer of one of the ten fixed widths. The width is part of the value:
/// `U8(5)` and `U32(5)` are different integers.
#[derive(Debug, Clone, Copy, PartialEq, Eq, PartialOrd, Ord, Hash)]
pub enum Integer {
    /// An `i8`.
    I8(i8),
    /// An `i16`.
    I16(i16),
    /// An `i32`.
    I32(i32),
    /// An `i64`.
    I64(i64),
    /// An `i128`.
    I128(i128),
    /// A `u8`.
    U8(u8),
    /// A `u16`.
    U16(u16),
    /// A `u32`.
    U32(u32),
    /// A `u64`.
    U64(u64),
    /// A `u128`.
    U128(u128),
}

/// A float as the policy `F` holds it. Every 32-bit float orders before every
/// 64-bit float.
#[derive(Debug, Clone, Copy, PartialEq, Eq, PartialOrd, Ord, Hash)]
pub enum Float<F: FloatPolicy> {
    /// A 32-bit float.
    F32(F::F32),
    /// A 64-bit float.
    F64(F::F64),
}

/// The canonical key: a tree of primitive values, sequences and maps.
///
/// Keys are ordered first by variant, in the order written here, then by
/// content; sequences and maps compare element by element. A map is a list of
/// entries in the order they were given; [`Key::normalize`] sorts them.
#[derive(Debug, PartialEq, Eq, PartialOrd, Ord, Hash)]
pub enum Key<F: FloatPolicy = RejectFloatPolicy> {
    /// The unit value, also used for an absent option.
    Unit,
    /// A boolean.
    Bool(bool),
    /// An integer.
    Integer(Integer),
    /// A float.
    Float(Float<F>),
    /// A byte string.
    Bytes(Vec<u8>),
    /// A string.
    String(String),
    /// A sequence of keys.
    Sequence(Vec<Key<F>>),
    /// A map, as a list of key and value pairs.
    Mapping(Vec<(Key<F>, Key<F>)>),
}

/// The mathematical value of a [`Key`].
pub enum KeyView<F: FloatPolicy> {
    /// The unit value.
    Unit,
    /// A boolean.
    Bool(bool),
    /// An integer.
    Integer(Integer),
    /// A float.
    Float(Float<F>),
    /// A byte string.
    Bytes(Seq<u8>),
    /// A string, by its characters.
    String(Seq<char>),
    /// A sequence.
    Sequence(Seq<KeyView<F>>),
    /// The entries of a map, in order.
    Mapping(Seq<(KeyView<F>, KeyView<F>)>),
}

/// The value of a key.
pub open spec fn key_view<F: FloatPolicy>(k: Key<F>) -> KeyView<F>
    decreases k, 0nat,
{
    match k {
        Key::Unit => KeyView::Unit,
        Key::Bool(b) => KeyView::Bool(b),
        Key::Integer(i) => KeyView::Integer(i),
        Key::Float(f) => KeyView::Float(f),
        Key::Bytes(b) => KeyView::Bytes(b@),
        Key::String(s) => KeyView::String(s@),
        Key::Sequence(v) => KeyView::Sequence(key_views(v@, v@.len())),
        Key::Mapping(m) => KeyView::Mapping(entry_views(m@, m@.len())),
    }
}

/// The values of the first `n` keys of `s`.
pub open spec fn key_views<F: FloatPolicy>(s: Seq<Key<F>>, n: nat) -> Seq<KeyView<F>>
    decreases s, n,
{
    if n == 0 || n > s.len() {
        Seq::empty()
    } else {
        key_views(s, (n - 1) as nat).push(key_view(s[n - 1]))
    }
}

/// The values of the first `n` entries of `s`.
pub open spec fn entry_views<F: FloatPolicy>(s: Seq<(Key<F>, Key<F>)>, n: nat) -> Seq<
    (KeyView<F>, KeyView<F>),
>
    decreases s, n,
{
    if n == 0 || n > s.len() {
        Seq::empty()
    } else {
        entry_views(s, (n - 1) as nat).push((key_view(s[n - 1].0), key_view(s[n - 1].1)))
    }
}

/// The value of an entry.
pub open spec fn entry_view<F: FloatPolicy>(e: (Key<F>, Key<F>)) -> (KeyView<F>, KeyView<F>) {
    (key_view(e.0), key_view(e.1))
}

impl<F: FloatPolicy> View for Key<F> {
    type V = KeyView<F>;

    open spec fn view(&self) -> KeyView<F> {
        key_view(*self)
    }
}

/// The views of a prefix of keys are those of the keys one by one.
pub proof fn lemma_key_views<F: FloatPolicy>(s: Seq<Key<F>>, n: nat)
    requires
        n <= s.len(),
    ensures
        key_views(s, n).len() == n,
        forall|i: int| 0 <= i < n ==> #[trigger] key_views(s, n)[i] == key_view(s[i]),
    decreases n,
{
    if n > 0 {
        lemma_key_views(s, (n - 1) as nat);
    }
}

/// The views of a prefix of entries are those of the entries one by one.
pub proof fn lemma_entry_views<F: FloatPolicy>(s: Seq<(Key<F>, Key<F>)>, n: nat)
    requires
        n <= s.len(),
    ensures
        entry_views(s, n).len() == n,
        forall|i: int| 0 <= i < n ==> #[trigger] entry_views(s, n)[i] == entry_view(s[i]),
    decreases n,
{
    if n > 0 {
        lemma_entry_views(s, (n - 1) as nat);
    }
}

/// Two sequences of keys have the same views when their keys do, one by one.
pub proof fn lemma_key_views_ext<F: FloatPolicy>(s: Seq<Key<F>>, vs: Seq<KeyView<F>>)
    requires
        s.len() == vs.len(),
        forall|i: int| 0 <= i < s.len() ==> #[trigger] key_view(s[i]) == vs[i],
    ensures
        key_views(s, s.len()) == vs,
{
    lemma_key_views(s, s.len());
    assert(key_views(s, s.len()) =~= vs);
}

/// Two sequences of entries have the same views when their entries do.
pub proof fn lemma_entry_views_ext<F: FloatPolicy>(
    s: Seq<(Key<F>, Key<F>)>,
    vs: Seq<(KeyView<F>, KeyView<F>)>,
)
    requires
        s.len() == vs.len(),
        forall|i: int| 0 <= i < s.len() ==> #[trigger] entry_view(s[i]) == vs[i],
    ensures
        entry_views(s, s.len()) == vs,
{
    lemma_entry_views(s, s.len());
    assert(entry_views(s, s.len()) =~= vs);
}

impl<F: FloatPolicy> Clone for Key<F> {
    /// A copy of the key, with the same value.
    #[verifier::loop_isolation(false)]
    fn clone(&self) -> (r: Self)
        ensures
            r@ == self@,
        decreases self,
    {
        match self {
            Key::Unit => Key::Unit,
            Key::Bool(b) => Key::Bool(*b),
            Key::Integer(i) => Key::Integer(*i),
            Key::Float(f) => Key::Float(*f),
            Key::Bytes(b) => Key::Bytes(b.clone()),
            Key::String(s) => Key::String(s.clone()),
            Key::Sequence(v) => {
                let mut out: Vec<Key<F>> = Vec::new();
                let mut i: usize = 0;
                while i < v.len()
                    invariant
                        i <= v@.len(),
                        out@.len() == i,
                        forall|j: int| 0 <= j < i ==> #[trigger] key_view(out@[j]) == key_view(v@[j]),
                    decreases v@.len() - i,
                {
                    out.push(v[i].clone());
                    i = i + 1;
                }
                proof {
                    lemma_key_views(v@, v@.len());
                    lemma_key_views_ext(out@, key_views(v@, v@.len()));
                }
                Key::Sequence(out)
            },
            Key::Mapping(m) => {
                let mut out: Vec<(Key<F>, Key<F>)> = Vec::new();
                let mut i: usize = 0;
                while i < m.len()
                    invariant
                        i <= m@.len(),
                        out@.len() == i,
                        forall|j: int| 0 <= j < i ==> #[trigger] entry_view(out@[j]) == entry_view(m@[j]),
                    decreases m@.len() - i,
                {
                    let k = m[i].0.clone();
                    let v = m[i].1.clone();
                    out.push((k, v));
                    i = i + 1;
                }
                proof {
                    lemma_entry_views(m@, m@.len());
                    lemma_entry_views_ext(out@, entry_views(m@, m@.len()));
                }
                Key::Mapping(out)
            },
        }
    }
}

impl<F: FloatPolicy> Default for Key<F> {
    /// The unit key.
    fn default() -> (r: Self)
        ensures
            r@ == KeyView::<F>::Unit,
    {
        Key::Unit
    }
}

impl<F: FloatPolicy> From<i8> for Key<F> {
    /// The integer key of width `i8`.
    fn from(v: i8) -> Key<F> {
        Key::Integer(Integer::I8(v))
    }
}

impl<F: FloatPolicy> vstd::std_specs::convert::FromSpecImpl<i8> for Key<F> {
    open spec fn obeys_from_spec() -> bool {
        true
    }

    open spec fn from_spec(v: i8) -> Key<F> {
        Key::Integer(Integer::I8(v))
    }
}

impl<F: FloatPolicy> From<i16> for Key<F> {
    /// The integer key of width `i16`.
    fn from(v: i16) -> Key<F> {
        Key::Integer(Integer::I16(v))
    }
}

impl<F: FloatPolicy> vstd::std_specs::convert::FromSpecImpl<i16> for Key<F> {
    open spec fn obeys_from_spec() -> bool {
        true
    }

    open spec fn from_spec(v: i16) -> Key<F> {
        Key::Integer(Integer::I16(v))
    }
}

impl<F: FloatPolicy> From<i32> for Key<F> {
    /// The integer key of width `i32`.
    fn from(v: i32) -> Key<F> {
        Key::Integer(Integer::I32(v))
    }
}

impl<F: FloatPolicy> vstd::std_specs::convert::FromSpecImpl<i32> for Key<F> {
    open spec fn obeys_from_spec() -> bool {
        true
    }

    open spec fn from_spec(v: i32) -> Key<F> {
        Key::Integer(Integer::I32(v))
    }
}

impl<F: FloatPolicy> From<i64> for Key<F> {
    /// The integer key of width `i64`.
    fn from(v: i64) -> Key<F> {
        Key::Integer(Integer::I64(v))
    }
}

impl<F: FloatPolicy> vstd::std_specs::convert::FromSpecImpl<i64> for Key<F> {
    open spec fn obeys_from_spec() -> bool {
        true
    }

    open spec fn from_spec(v: i64) -> Key<F> {
        Key::Integer(Integer::I64(v))
    }
}

impl<F: FloatPolicy> From<i128> for Key<F> {
    /// The integer key of width `i128`.
    fn from(v: i128) -> Key<F> {
        Key::Integer(Integer::I128(v))
    }
}

impl<F: FloatPolicy> vstd::std_specs::convert::FromSpecImpl<i128> for Key<F> {
    open spec fn obeys_from_spec() -> bool {
        true
    }

    open spec fn from_spec(v: i128) -> Key<F> {
        Key::Integer(Integer::I128(v))
    }
}

impl<F: FloatPolicy> From<u8> for Key<F> {
    /// The integer key of width `u8`.
    fn from(v: u8) -> Key<F> {
        Key::Integer(Integer::U8(v))
    }
}

impl<F: FloatPolicy> vstd::std_specs::convert::FromSpecImpl<u8> for Key<F> {
    open spec fn obeys_from_spec() -> bool {
        true
    }

    open spec fn from_spec(v: u8) -> Key<F> {
        Key::Integer(Integer::U8(v))
    }
}

impl<F: FloatPolicy> From<u16> for Key<F> {
    /// The integer key of width `u16`.
    fn from(v: u16) -> Key<F> {
        Key::Integer(Integer::U16(v))
    }
}

impl<F: FloatPolicy> vstd::std_specs::convert::FromSpecImpl<u16> for Key<F> {
    open spec fn obeys_from_spec() -> bool {
        true
    }

    open spec fn from_spec(v: u16) -> Key<F> {
        Key::Integer(Integer::U16(v))
    }
}

impl<F: FloatPolicy> From<u32> for Key<F> {
    /// The integer key of width `u32`.
    fn from(v: u32) -> Key<F> {
        Key::Integer(Integer::U32(v))
    }
}

impl<F: FloatPolicy> vstd::std_specs::convert::FromSpecImpl<u32> for Key<F> {
    open spec fn obeys_from_spec() -> bool {
        true
    }

    open spec fn from_spec(v: u32) -> Key<F> {
        Key::Integer(Integer::U32(v))
    }
}

impl<F: FloatPolicy> From<u64> for Key<F> {
    /// The integer key of width `u64`.
    fn from(v: u64) -> Key<F> {
        Key::Integer(Integer::U64(v))
    }
}

impl<F: FloatPolicy> vstd::std_specs::convert::FromSpecImpl<u64> for Key<F> {
    open spec fn obeys_from_spec() -> bool {
        true
    }

    open spec fn from_spec(v: u64) -> Key<F> {
        Key::Integer(Integer::U64(v))
    }
}

impl<F: FloatPolicy> From<u128> for Key<F> {
    /// The integer key of width `u128`.
    fn from(v: u128) -> Key<F> {
        Key::Integer(Integer::U128(v))
    }
}

impl<F: FloatPolicy> vstd::std_specs::convert::FromSpecImpl<u128> for Key<F> {
    open spec fn obeys_from_spec() -> bool {
        true
    }

    open spec fn from_spec(v: u128) -> Key<F> {
        Key::Integer(Integer::U128(v))
    }
}

impl<F: FloatPolicy> From<bool> for Key<F> {
    /// The boolean key.
    fn from(v: bool) -> Key<F> {
        Key::Bool(v)
    }
}

impl<F: FloatPolicy> vstd::std_specs::convert::FromSpecImpl<bool> for Key<F> {
    open spec fn obeys_from_spec() -> bool {
        true
    }

    open spec fn from_spec(v: bool) -> Key<F> {
        Key::Bool(v)
    }
}

impl<F: FloatPolicy> From<Vec<u8>> for Key<F> {
    /// The byte-string key.
    fn from(v: Vec<u8>) -> Key<F> {
        Key::Bytes(v)
    }
}

impl<F: FloatPolicy> vstd::std_specs::convert::FromSpecImpl<Vec<u8>> for Key<F> {
    open spec fn obeys_from_spec() -> bool {
        true
    }

    open spec fn from_spec(v: Vec<u8>) -> Key<F> {
        Key::Bytes(v)
    }
}

impl<F: FloatPolicy> From<String> for Key<F> {
    /// The string key.
    fn from(v: String) -> Key<F> {
        Key::String(v)
    }
}

impl<F: FloatPolicy> vstd::std_specs::convert::FromSpecImpl<String> for Key<F> {
    open spec fn obeys_from_spec() -> bool {
        true
    }

    open spec fn from_spec(v: String) -> Key<F> {
        Key::String(v)
    }
}

impl<F: FloatPolicy> From<Vec<Key<F>>> for Key<F> {
    /// The sequence of the given keys.
    fn from(v: Vec<Key<F>>) -> Key<F> {
        Key::Sequence(v)
    }
}

impl<F: FloatPolicy> vstd::std_specs::convert::FromSpecImpl<Vec<Key<F>>> for Key<F> {
    open spec fn obeys_from_spec() -> bool {
        true
    }

    open spec fn from_spec(v: Vec<Key<F>>) -> Key<F> {
        Key::Sequence(v)
    }
}

impl<F: FloatPolicy> From<Vec<(Key<F>, Key<F>)>> for Key<F> {
    /// The map with the given entries, in the given order.
    fn from(v: Vec<(Key<F>, Key<F>)>) -> Key<F> {
        Key::Mapping(v)
    }
}

impl<F: FloatPolicy> vstd::std_specs::convert::FromSpecImpl<Vec<(Key<F>, Key<F>)>> for Key<F> {
    open spec fn obeys_from_spec() -> bool {
        true
    }

    open spec fn from_spec(v: Vec<(Key<F>, Key<F>)>) -> Key<F> {
        Key::Mapping(v)
    }
}

} // verus!
