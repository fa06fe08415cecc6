//! The total order of keys.
//!
//! Keys compare first by variant (unit, bool, integer, float, bytes, string,
//! sequence, map), then by content. Integers compare by width, then value;
//! floats by width, then by their place under the float policy; byte strings
//! and strings (by their UTF-8 bytes) lexicographically; sequences element by
//! element and maps entry by entry, a prefix ordering before a longer list.
use vstd::prelude::*;
use vstd::utf8::encode_utf8;

use core::cmp::Ordering;

use crate::float::{FloatPolicy, FloatRepr};
use crate::key::{
    entry_view, entry_views, key_view, key_views, lemma_entry_views, lemma_key_views, Float,
    Integer, Key, KeyView,
};

verus! {

/// Comparison of two integers.
pub open spec fn int_cmp(a: int, b: int) -> Ordering {
    if a < b {
        Ordering::Less
    } else if a == b {
        Ordering::Equal
    } else {
        Ordering::Greater
    }
}

/// The comparison seen from the other side.
pub open spec fn flip(o: Ordering) -> Ordering {
    match o {
        Ordering::Less => Ordering::Greater,
        Ordering::Equal => Ordering::Equal,
        Ordering::Greater => Ordering::Less,
    }
}

/// How `a` compares to `c` when `a` is at most `b` (by `o1`) and `b` is at most
/// `c` (by `o2`).
pub open spec fn join(o1: Ordering, o2: Ordering) -> Ordering {
    if o1 == Ordering::Equal && o2 == Ordering::Equal {
        Ordering::Equal
    } else {
        Ordering::Less
    }
}

/// `false` orders before `true`.
pub open spec fn bool_cmp(a: bool, b: bool) -> Ordering {
    int_cmp(
        if a {
            1
        } else {
            0
        },
        if b {
            1
        } else {
            0
        },
    )
}

/// Position of an integer's width among the ten widths.
pub open spec fn integer_tag(i: Integer) -> int {
    match i {
        Integer::I8(_) => 0,
        Integer::I16(_) => 1,
        Integer::I32(_) => 2,
        Integer::I64(_) => 3,
        Integer::I128(_) => 4,
        Integer::U8(_) => 5,
        Integer::U16(_) => 6,
        Integer::U32(_) => 7,
        Integer::U64(_) => 8,
        Integer::U128(_) => 9,
    }
}

/// The number an integer holds.
pub open spec fn integer_value(i: Integer) -> int {
    match i {
        Integer::I8(v) => v as int,
        Integer::I16(v) => v as int,
        Integer::I32(v) => v as int,
        Integer::I64(v) => v as int,
        Integer::I128(v) => v as int,
        Integer::U8(v) => v as int,
        Integer::U16(v) => v as int,
        Integer::U32(v) => v as int,
        Integer::U64(v) => v as int,
        Integer::U128(v) => v as int,
    }
}

/// Integers compare by width first, then by value.
pub open spec fn integer_cmp(a: Integer, b: Integer) -> Ordering {
    if integer_tag(a) != integer_tag(b) {
        int_cmp(integer_tag(a), integer_tag(b))
    } else {
        int_cmp(integer_value(a), integer_value(b))
    }
}

/// Position of a float's width: 32 bits before 64 bits.
pub open spec fn float_tag<F: FloatPolicy>(f: Float<F>) -> int {
    match f {
        Float::F32(_) => 0,
        Float::F64(_) => 1,
    }
}

/// Place of a float in the order of its width.
pub open spec fn float_rank<F: FloatPolicy>(f: Float<F>) -> int {
    match f {
        Float::F32(x) => x.rank(),
        Float::F64(x) => x.rank(),
    }
}

/// Floats compare by width first, then by place.
pub open spec fn float_cmp<F: FloatPolicy>(a: Float<F>, b: Float<F>) -> Ordering {
    if float_tag(a) != float_tag(b) {
        int_cmp(float_tag(a), float_tag(b))
    } else {
        int_cmp(float_rank(a), float_rank(b))
    }
}

/// Lexicographic comparison of two byte strings from position `i` on.
pub open spec fn bytes_cmp(a: Seq<u8>, b: Seq<u8>, i: nat) -> Ordering
    decreases a.len() - i,
{
    if i >= a.len() {
        if i >= b.len() {
            Ordering::Equal
        } else {
            Ordering::Less
        }
    } else if i >= b.len() {
        Ordering::Greater
    } else if a[i as int] != b[i as int] {
        int_cmp(a[i as int] as int, b[i as int] as int)
    } else {
        bytes_cmp(a, b, i + 1)
    }
}

/// Position of a key's variant.
pub open spec fn key_tag<F: FloatPolicy>(k: KeyView<F>) -> int {
    match k {
        KeyView::Unit => 0,
        KeyView::Bool(_) => 1,
        KeyView::Integer(_) => 2,
        KeyView::Float(_) => 3,
        KeyView::Bytes(_) => 4,
        KeyView::String(_) => 5,
        KeyView::Sequence(_) => 6,
        KeyView::Mapping(_) => 7,
    }
}

/// The order of keys.
pub open spec fn key_cmp<F: FloatPolicy>(a: KeyView<F>, b: KeyView<F>) -> Ordering
    decreases a, 0nat,
{
    if key_tag(a) != key_tag(b) {
        int_cmp(key_tag(a), key_tag(b))
    } else {
        match (a, b) {
            (KeyView::Bool(x), KeyView::Bool(y)) => bool_cmp(x, y),
            (KeyView::Integer(x), KeyView::Integer(y)) => integer_cmp(x, y),
            (KeyView::Float(x), KeyView::Float(y)) => float_cmp(x, y),
            (KeyView::Bytes(x), KeyView::Bytes(y)) => bytes_cmp(x, y, 0),
            (KeyView::String(x), KeyView::String(y)) => bytes_cmp(
                encode_utf8(x),
                encode_utf8(y),
                0,
            ),
            (KeyView::Sequence(x), KeyView::Sequence(y)) => seq_cmp(x, y, 0),
            (KeyView::Mapping(x), KeyView::Mapping(y)) => entries_cmp(x, y, 0),
            _ => Ordering::Equal,
        }
    }
}

/// Lexicographic comparison of two sequences of keys from position `i` on.
pub open spec fn seq_cmp<F: FloatPolicy>(x: Seq<KeyView<F>>, y: Seq<KeyView<F>>, i: nat) -> Ordering
    decreases x, x.len() - i,
{
    if i >= x.len() {
        if i >= y.len() {
            Ordering::Equal
        } else {
            Ordering::Less
        }
    } else if i >= y.len() {
        Ordering::Greater
    } else if key_cmp(x[i as int], y[i as int]) != Ordering::Equal {
        key_cmp(x[i as int], y[i as int])
    } else {
        seq_cmp(x, y, i + 1)
    }
}

/// Lexicographic comparison of two lists of map entries from position `i` on;
/// entries compare by key, then by value.
pub open spec fn entries_cmp<F: FloatPolicy>(
    x: Seq<(KeyView<F>, KeyView<F>)>,
    y: Seq<(KeyView<F>, KeyView<F>)>,
    i: nat,
) -> Ordering
    decreases x, x.len() - i,
{
    if i >= x.len() {
        if i >= y.len() {
            Ordering::Equal
        } else {
            Ordering::Less
        }
    } else if i >= y.len() {
        Ordering::Greater
    } else if key_cmp(x[i as int].0, y[i as int].0) != Ordering::Equal {
        key_cmp(x[i as int].0, y[i as int].0)
    } else if key_cmp(x[i as int].1, y[i as int].1) != Ordering::Equal {
        key_cmp(x[i as int].1, y[i as int].1)
    } else {
        entries_cmp(x, y, i + 1)
    }
}

proof fn lemma_bytes_refl(a: Seq<u8>, i: nat)
    ensures
        bytes_cmp(a, a, i) == Ordering::Equal,
    decreases a.len() - i,
{
    if i < a.len() {
        lemma_bytes_refl(a, i + 1);
    }
}

proof fn lemma_bytes_antisym(a: Seq<u8>, b: Seq<u8>, i: nat)
    ensures
        bytes_cmp(a, b, i) == flip(bytes_cmp(b, a, i)),
    decreases a.len() - i,
{
    if i < a.len() && i < b.len() {
        lemma_bytes_antisym(a, b, i + 1);
    }
}

proof fn lemma_bytes_trans(a: Seq<u8>, b: Seq<u8>, c: Seq<u8>, i: nat)
    ensures
        bytes_cmp(a, b, i) != Ordering::Greater && bytes_cmp(b, c, i) != Ordering::Greater
            ==> bytes_cmp(a, c, i) == join(bytes_cmp(a, b, i), bytes_cmp(b, c, i)),
    decreases a.len() - i,
{
    if i < a.len() && i < b.len() && i < c.len() {
        lemma_bytes_trans(a, b, c, i + 1);
    }
}

/// Every key is equal to itself.
pub proof fn lemma_key_refl<F: FloatPolicy>(a: KeyView<F>)
    ensures
        key_cmp(a, a) == Ordering::Equal,
    decreases a, 0nat,
{
    match a {
        KeyView::Bytes(x) => lemma_bytes_refl(x, 0),
        KeyView::String(x) => lemma_bytes_refl(encode_utf8(x), 0),
        KeyView::Sequence(x) => lemma_seq_refl(x, 0),
        KeyView::Mapping(x) => lemma_entries_refl(x, 0),
        _ => {},
    }
}

proof fn lemma_seq_refl<F: FloatPolicy>(x: Seq<KeyView<F>>, i: nat)
    ensures
        seq_cmp(x, x, i) == Ordering::Equal,
    decreases x, x.len() - i,
{
    if i < x.len() {
        lemma_key_refl(x[i as int]);
        lemma_seq_refl(x, i + 1);
    }
}

proof fn lemma_entries_refl<F: FloatPolicy>(x: Seq<(KeyView<F>, KeyView<F>)>, i: nat)
    ensures
        entries_cmp(x, x, i) == Ordering::Equal,
    decreases x, x.len() - i,
{
    if i < x.len() {
        lemma_key_refl(x[i as int].0);
        lemma_key_refl(x[i as int].1);
        lemma_entries_refl(x, i + 1);
    }
}

/// Comparing the other way round gives the opposite answer.
pub proof fn lemma_key_antisym<F: FloatPolicy>(a: KeyView<F>, b: KeyView<F>)
    ensures
        key_cmp(a, b) == flip(key_cmp(b, a)),
    decreases a, 0nat,
{
    if key_tag(a) == key_tag(b) {
        match (a, b) {
            (KeyView::Bytes(x), KeyView::Bytes(y)) => lemma_bytes_antisym(x, y, 0),
            (KeyView::String(x), KeyView::String(y)) => lemma_bytes_antisym(
                encode_utf8(x),
                encode_utf8(y),
                0,
            ),
            (KeyView::Sequence(x), KeyView::Sequence(y)) => lemma_seq_antisym(x, y, 0),
            (KeyView::Mapping(x), KeyView::Mapping(y)) => lemma_entries_antisym(x, y, 0),
            _ => {},
        }
    }
}

proof fn lemma_seq_antisym<F: FloatPolicy>(x: Seq<KeyView<F>>, y: Seq<KeyView<F>>, i: nat)
    ensures
        seq_cmp(x, y, i) == flip(seq_cmp(y, x, i)),
    decreases x, x.len() - i,
{
    if i < x.len() && i < y.len() {
        lemma_key_antisym(x[i as int], y[i as int]);
        lemma_seq_antisym(x, y, i + 1);
    }
}

proof fn lemma_entries_antisym<F: FloatPolicy>(
    x: Seq<(KeyView<F>, KeyView<F>)>,
    y: Seq<(KeyView<F>, KeyView<F>)>,
    i: nat,
)
    ensures
        entries_cmp(x, y, i) == flip(entries_cmp(y, x, i)),
    decreases x, x.len() - i,
{
    if i < x.len() && i < y.len() {
        lemma_key_antisym(x[i as int].0, y[i as int].0);
        lemma_key_antisym(x[i as int].1, y[i as int].1);
        lemma_entries_antisym(x, y, i + 1);
    }
}

/// The order is transitive: `a <= b <= c` gives `a <= c`, strictly so when
/// either step is strict.
pub proof fn lemma_key_trans<F: FloatPolicy>(a: KeyView<F>, b: KeyView<F>, c: KeyView<F>)
    ensures
        key_cmp(a, b) != Ordering::Greater && key_cmp(b, c) != Ordering::Greater ==> key_cmp(a, c)
            == join(key_cmp(a, b), key_cmp(b, c)),
    decreases a, 0nat,
{
    if key_tag(a) == key_tag(b) && key_tag(b) == key_tag(c) {
        match (a, b, c) {
            (KeyView::Bytes(x), KeyView::Bytes(y), KeyView::Bytes(z)) => lemma_bytes_trans(
                x,
                y,
                z,
                0,
            ),
            (KeyView::String(x), KeyView::String(y), KeyView::String(z)) => lemma_bytes_trans(
                encode_utf8(x),
                encode_utf8(y),
                encode_utf8(z),
                0,
            ),
            (KeyView::Sequence(x), KeyView::Sequence(y), KeyView::Sequence(z)) => lemma_seq_trans(
                x,
                y,
                z,
                0,
            ),
            (KeyView::Mapping(x), KeyView::Mapping(y), KeyView::Mapping(z)) => lemma_entries_trans(
                x,
                y,
                z,
                0,
            ),
            _ => {},
        }
    }
}

proof fn lemma_seq_trans<F: FloatPolicy>(
    x: Seq<KeyView<F>>,
    y: Seq<KeyView<F>>,
    z: Seq<KeyView<F>>,
    i: nat,
)
    ensures
        seq_cmp(x, y, i) != Ordering::Greater && seq_cmp(y, z, i) != Ordering::Greater ==> seq_cmp(
            x,
            z,
            i,
        ) == join(seq_cmp(x, y, i), seq_cmp(y, z, i)),
    decreases x, x.len() - i,
{
    if i < x.len() && i < y.len() && i < z.len() {
        lemma_key_trans(x[i as int], y[i as int], z[i as int]);
        lemma_seq_trans(x, y, z, i + 1);
    }
}

proof fn lemma_entries_trans<F: FloatPolicy>(
    x: Seq<(KeyView<F>, KeyView<F>)>,
    y: Seq<(KeyView<F>, KeyView<F>)>,
    z: Seq<(KeyView<F>, KeyView<F>)>,
    i: nat,
)
    ensures
        entries_cmp(x, y, i) != Ordering::Greater && entries_cmp(y, z, i) != Ordering::Greater
            ==> entries_cmp(x, z, i) == join(entries_cmp(x, y, i), entries_cmp(y, z, i)),
    decreases x, x.len() - i,
{
    if i < x.len() && i < y.len() && i < z.len() {
        lemma_key_trans(x[i as int].0, y[i as int].0, z[i as int].0);
        lemma_key_trans(x[i as int].1, y[i as int].1, z[i as int].1);
        lemma_entries_trans(x, y, z, i + 1);
    }
}

/// Integers of different widths never compare equal, whatever they hold.
pub proof fn lemma_width_distinct<F: FloatPolicy>(a: Integer, b: Integer)
    requires
        integer_tag(a) != integer_tag(b),
    ensures
        key_cmp(KeyView::<F>::Integer(a), KeyView::<F>::Integer(b)) != Ordering::Equal,
{
}

/// Every 32-bit float orders before every 64-bit float, whatever their values.
pub proof fn lemma_f32_before_f64<F: FloatPolicy>(a: F::F32, b: F::F64)
    ensures
        key_cmp(KeyView::<F>::Float(Float::F32(a)), KeyView::<F>::Float(Float::F64(b)))
            == Ordering::Less,
{
}

/// The ordering that `less` and `equal` describe.
fn ordering_of(less: bool, equal: bool) -> (r: Ordering)
    ensures
        r == (if less {
            Ordering::Less
        } else if equal {
            Ordering::Equal
        } else {
            Ordering::Greater
        }),
{
    if less {
        Ordering::Less
    } else if equal {
        Ordering::Equal
    } else {
        Ordering::Greater
    }
}

/// Whether an ordering says that two things differ.
fn is_unequal(o: Ordering) -> (r: bool)
    ensures
        r == (o != Ordering::Equal),
{
    match o {
        Ordering::Equal => false,
        _ => true,
    }
}

fn integer_tag_of(i: &Integer) -> (r: u8)
    ensures
        r == integer_tag(*i),
{
    match i {
        Integer::I8(_) => 0,
        Integer::I16(_) => 1,
        Integer::I32(_) => 2,
        Integer::I64(_) => 3,
        Integer::I128(_) => 4,
        Integer::U8(_) => 5,
        Integer::U16(_) => 6,
        Integer::U32(_) => 7,
        Integer::U64(_) => 8,
        Integer::U128(_) => 9,
    }
}

/// Compares two integers: by width, then by value.
fn compare_integers(a: &Integer, b: &Integer) -> (r: Ordering)
    ensures
        r == integer_cmp(*a, *b),
{
    let ta = integer_tag_of(a);
    let tb = integer_tag_of(b);
    if ta != tb {
        return ordering_of(ta < tb, false);
    }
    match (a, b) {
        (Integer::I8(x), Integer::I8(y)) => ordering_of(*x < *y, *x == *y),
        (Integer::I16(x), Integer::I16(y)) => ordering_of(*x < *y, *x == *y),
        (Integer::I32(x), Integer::I32(y)) => ordering_of(*x < *y, *x == *y),
        (Integer::I64(x), Integer::I64(y)) => ordering_of(*x < *y, *x == *y),
        (Integer::I128(x), Integer::I128(y)) => ordering_of(*x < *y, *x == *y),
        (Integer::U8(x), Integer::U8(y)) => ordering_of(*x < *y, *x == *y),
        (Integer::U16(x), Integer::U16(y)) => ordering_of(*x < *y, *x == *y),
        (Integer::U32(x), Integer::U32(y)) => ordering_of(*x < *y, *x == *y),
        (Integer::U64(x), Integer::U64(y)) => ordering_of(*x < *y, *x == *y),
        (Integer::U128(x), Integer::U128(y)) => ordering_of(*x < *y, *x == *y),
        _ => Ordering::Equal,
    }
}

/// Compares two floats: by width, then by place.
fn compare_floats<F: FloatPolicy>(a: &Float<F>, b: &Float<F>) -> (r: Ordering)
    ensures
        r == float_cmp(*a, *b),
{
    match (a, b) {
        (Float::F32(x), Float::F32(y)) => x.compare(y),
        (Float::F64(x), Float::F64(y)) => x.compare(y),
        (Float::F32(_), Float::F64(_)) => Ordering::Less,
        (Float::F64(_), Float::F32(_)) => Ordering::Greater,
    }
}

/// Compares two byte strings lexicographically.
fn compare_bytes(a: &[u8], b: &[u8]) -> (r: Ordering)
    ensures
        r == bytes_cmp(a@, b@, 0),
{
    let mut i: usize = 0;
    while i < a.len() && i < b.len()
        invariant
            i <= a@.len(),
            i <= b@.len(),
            bytes_cmp(a@, b@, 0) == bytes_cmp(a@, b@, i as nat),
        decreases a@.len() - i,
    {
        if a[i] != b[i] {
            return ordering_of(a[i] < b[i], false);
        }
        i = i + 1;
    }
    ordering_of(i < b.len(), i == a.len() && i == b.len())
}

fn key_tag_of<F: FloatPolicy>(k: &Key<F>) -> (r: u8)
    ensures
        r == key_tag(k@),
{
    match k {
        Key::Unit => 0,
        Key::Bool(_) => 1,
        Key::Integer(_) => 2,
        Key::Float(_) => 3,
        Key::Bytes(_) => 4,
        Key::String(_) => 5,
        Key::Sequence(_) => 6,
        Key::Mapping(_) => 7,
    }
}

impl<F: FloatPolicy> Key<F> {
    /// Compares two keys in the total order of keys.
    #[verifier::loop_isolation(false)]
    pub fn compare(&self, other: &Self) -> (r: Ordering)
        ensures
            r == key_cmp(self@, other@),
        decreases self,
    {
        let ta = key_tag_of(self);
        let tb = key_tag_of(other);
        if ta != tb {
            return ordering_of(ta < tb, false);
        }
        match (self, other) {
            (Key::Bool(x), Key::Bool(y)) => ordering_of(!*x && *y, *x == *y),
            (Key::Integer(x), Key::Integer(y)) => compare_integers(x, y),
            (Key::Float(x), Key::Float(y)) => compare_floats(x, y),
            (Key::Bytes(x), Key::Bytes(y)) => compare_bytes(x.as_slice(), y.as_slice()),
            (Key::String(x), Key::String(y)) => compare_bytes(x.as_str().as_bytes(), y.as_str().as_bytes()),
            (Key::Sequence(x), Key::Sequence(y)) => {
                let ghost xv = key_views(x@, x@.len());
                let ghost yv = key_views(y@, y@.len());
                proof {
                    lemma_key_views(x@, x@.len());
                    lemma_key_views(y@, y@.len());
                }
                let mut i: usize = 0;
                while i < x.len() && i < y.len()
                    invariant
                        i <= x@.len(),
                        i <= y@.len(),
                        seq_cmp(xv, yv, 0) == seq_cmp(xv, yv, i as nat),
                    decreases x@.len() - i,
                {
                    assert(xv[i as int] == x@[i as int]@ && yv[i as int] == y@[i as int]@);
                    let c = x[i].compare(&y[i]);
                    if is_unequal(c) {
                        return c;
                    }
                    i = i + 1;
                }
                ordering_of(i < y.len(), i == x.len() && i == y.len())
            },
            (Key::Mapping(x), Key::Mapping(y)) => {
                let ghost xv = entry_views(x@, x@.len());
                let ghost yv = entry_views(y@, y@.len());
                proof {
                    lemma_entry_views(x@, x@.len());
                    lemma_entry_views(y@, y@.len());
                }
                let mut i: usize = 0;
                while i < x.len() && i < y.len()
                    invariant
                        i <= x@.len(),
                        i <= y@.len(),
                        entries_cmp(xv, yv, 0) == entries_cmp(xv, yv, i as nat),
                    decreases x@.len() - i,
                {
                    assert(xv[i as int] == entry_view(x@[i as int]));
                    assert(yv[i as int] == entry_view(y@[i as int]));
                    let c = x[i].0.compare(&y[i].0);
                    if is_unequal(c) {
                        return c;
                    }
                    let d = x[i].1.compare(&y[i].1);
                    if is_unequal(d) {
                        return d;
                    }
                    i = i + 1;
                }
                ordering_of(i < y.len(), i == x.len() && i == y.len())
            },
            _ => Ordering::Equal,
        }
    }
}

} // verus!
