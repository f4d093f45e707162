//! Mutable columnar arrays and the struct array built from them.
//!
//! A `MutableStructArray` owns one mutable child array per declared field and
//! an optional validity bitmap. The children are primitive arrays; the struct
//! level of nesting is the one this model covers. Converting the mutable form
//! into a frozen [`StructArray`] moves the children and keeps the validity
//! only when it actually marks a null. Capacity is not part of the model, so
//! reservation and shrinking leave the logical contents untouched.

use vstd::prelude::*;
use std::sync::Arc;
use crate::error::DataError;

verus! {

/// The type of one primitive child array.
#[derive(Clone, Copy, PartialEq, Eq, Structural, Debug)]
pub enum PrimitiveType {
    Int64,
    Boolean,
    Null,
}

/// One declared field of a struct type.
#[derive(Debug)]
pub struct Field {
    pub name: String,
    pub data_type: PrimitiveType,
}

/// The logical type of an array.
#[derive(Debug)]
pub enum DataType {
    Int64,
    Boolean,
    Null,
    Struct(Vec<Field>),
}

/// Whether two fields agree in name and type.
pub open spec fn field_matches(a: Field, b: Field) -> bool {
    a.name@ == b.name@ && a.data_type == b.data_type
}

/// Whether two data types are the same logical type.
pub open spec fn dt_matches(a: DataType, b: DataType) -> bool {
    match (a, b) {
        (DataType::Int64, DataType::Int64) => true,
        (DataType::Boolean, DataType::Boolean) => true,
        (DataType::Null, DataType::Null) => true,
        (DataType::Struct(fa), DataType::Struct(fb)) => {
            &&& fa@.len() == fb@.len()
            &&& forall|j: int|
                0 <= j < fa@.len() ==> field_matches(#[trigger] fa@[j], fb@[j])
        }
        _ => false,
    }
}

impl Clone for Field {
    /// A clone keeps the name and the type.
    fn clone(&self) -> (r: Field)
        ensures
            field_matches(r, *self),
    {
        Field { name: self.name.clone(), data_type: self.data_type }
    }
}

impl Clone for DataType {
    /// A clone is the same logical type.
    fn clone(&self) -> (r: DataType)
        ensures
            dt_matches(r, *self),
    {
        match self {
            DataType::Int64 => DataType::Int64,
            DataType::Boolean => DataType::Boolean,
            DataType::Null => DataType::Null,
            DataType::Struct(fields) => {
                let mut out: Vec<Field> = Vec::new();
                let n = fields.len();
                let mut i: usize = 0;
                while i < n
                    invariant
                        i <= n,
                        n == fields@.len(),
                        out@.len() == i,
                        forall|j: int| 0 <= j < i ==> field_matches(#[trigger] out@[j], fields@[j]),
                    decreases n - i,
                {
                    out.push(fields[i].clone());
                    i = i + 1;
                }
                DataType::Struct(out)
            }
        }
    }
}

/// How many bits of a sequence are unset.
pub open spec fn count_false(s: Seq<bool>) -> nat
    decreases s.len(),
{
    if s.len() == 0 {
        0
    } else {
        (if s[0] { 0nat } else { 1nat }) + count_false(s.drop_first())
    }
}

/// Appending a bit adds one to the count exactly when the bit is unset.
pub proof fn lemma_count_false_push(s: Seq<bool>, b: bool)
    ensures
        count_false(s.push(b)) == count_false(s) + (if b { 0nat } else { 1nat }),
    decreases s.len(),
{
    assert(count_false(s.push(b)) == (if s.push(b)[0] {
        0nat
    } else {
        1nat
    }) + count_false(s.push(b).drop_first()));
    if s.len() == 0 {
        assert(s.push(b).drop_first() =~= Seq::<bool>::empty());
        assert(s.push(b)[0] == b);
        assert(count_false(Seq::<bool>::empty()) == 0);
        assert(s =~= Seq::<bool>::empty());
    } else {
        assert(s.push(b).drop_first() =~= s.drop_first().push(b));
        assert(s.push(b)[0] == s[0]);
        lemma_count_false_push(s.drop_first(), b);
    }
}

/// A growable validity bitmap.
#[derive(Clone, Debug)]
pub struct MutableBitmap {
    pub bits: Vec<bool>,
}

impl MutableBitmap {
    /// A fresh, empty bitmap. The capacity hint does not affect the contents.
    pub fn with_capacity(capacity: usize) -> (r: MutableBitmap)
        ensures
            r.bits@ == Seq::<bool>::empty(),
    {
        let _ = capacity;
        MutableBitmap { bits: Vec::new() }
    }

    /// The number of bits.
    pub fn len(&self) -> (r: usize)
        ensures
            r == self.bits@.len(),
    {
        self.bits.len()
    }

    /// Appends one bit.
    pub fn push(&mut self, value: bool)
        ensures
            final(self).bits@ == old(self).bits@.push(value),
    {
        self.bits.push(value);
    }

    /// Appends `additional` copies of `value`.
    pub fn extend_constant(&mut self, additional: usize, value: bool)
        ensures
            final(self).bits@ == old(self).bits@ + Seq::new(additional as nat, |i: int| value),
    {
        let mut k: usize = 0;
        while k < additional
            invariant
                k <= additional,
                self.bits@ == old(self).bits@ + Seq::new(k as nat, |i: int| value),
            decreases additional - k,
        {
            self.bits.push(value);
            proof {
                assert(self.bits@ =~= old(self).bits@ + Seq::new((k + 1) as nat, |i: int| value));
            }
            k = k + 1;
        }
    }

    /// Overwrites the bit at `index`.
    pub fn set(&mut self, index: usize, value: bool)
        requires
            index < old(self).bits@.len(),
        ensures
            final(self).bits@ == old(self).bits@.update(index as int, value),
    {
        self.bits[index] = value;
    }

    /// The number of unset bits: how many slots the bitmap marks as null.
    pub fn unset_bits(&self) -> (r: usize)
        ensures
            r == count_false(self.bits@),
    {
        let n = self.bits.len();
        let mut count: usize = 0;
        let mut k: usize = 0;
        while k < n
            invariant
                k <= n,
                n == self.bits@.len(),
                count == count_false(self.bits@.take(k as int)),
                count <= k,
            decreases n - k,
        {
            proof {
                assert(self.bits@.take((k + 1) as int) =~= self.bits@.take(k as int).push(
                    self.bits@[k as int],
                ));
                lemma_count_false_push(self.bits@.take(k as int), self.bits@[k as int]);
            }
            if !self.bits[k] {
                count = count + 1;
            }
            k = k + 1;
        }
        proof {
            assert(self.bits@.take(n as int) =~= self.bits@);
        }
        count
    }

    /// Reserves room for `additional` more bits; contents unchanged.
    pub fn reserve(&mut self, additional: usize)
        ensures
            final(self).bits@ == old(self).bits@,
    {
        self.bits.reserve(additional);
    }

    /// Shrinks the allocation; capacity is not modelled, contents unchanged.
    pub fn shrink_to_fit(&mut self)
        ensures
            final(self).bits@ == old(self).bits@,
    {
    }
}

/// One mutable primitive child array.
#[derive(Clone, Debug)]
pub enum MutableArray {
    Int64 { values: Vec<i64>, validity: Option<MutableBitmap> },
    Boolean { values: Vec<bool>, validity: Option<MutableBitmap> },
    Null { length: usize },
}

/// The bits of an optional bitmap.
pub open spec fn spec_opt_bits(o: Option<MutableBitmap>) -> Option<Seq<bool>> {
    match o {
        Some(v) => Some(v.bits@),
        None => None,
    }
}

/// Whether two mutable arrays hold the same logical contents.
pub open spec fn same_contents(a: MutableArray, b: MutableArray) -> bool {
    match (a, b) {
        (
            MutableArray::Int64 { values: va, validity: ba },
            MutableArray::Int64 { values: vb, validity: bb },
        ) => va@ == vb@ && spec_opt_bits(ba) == spec_opt_bits(bb),
        (
            MutableArray::Boolean { values: va, validity: ba },
            MutableArray::Boolean { values: vb, validity: bb },
        ) => va@ == vb@ && spec_opt_bits(ba) == spec_opt_bits(bb),
        (MutableArray::Null { length: la }, MutableArray::Null { length: lb }) => la == lb,
        _ => false,
    }
}

impl MutableArray {
    /// The number of slots.
    pub open spec fn spec_len(self) -> nat {
        match self {
            MutableArray::Int64 { values, .. } => values@.len(),
            MutableArray::Boolean { values, .. } => values@.len(),
            MutableArray::Null { length } => length as nat,
        }
    }

    /// The primitive type of the array.
    pub open spec fn spec_type(self) -> PrimitiveType {
        match self {
            MutableArray::Int64 { .. } => PrimitiveType::Int64,
            MutableArray::Boolean { .. } => PrimitiveType::Boolean,
            MutableArray::Null { .. } => PrimitiveType::Null,
        }
    }

    /// A validity bitmap, if present, covers every slot.
    pub open spec fn wf(self) -> bool {
        match self {
            MutableArray::Int64 { values, validity } => match validity {
                Some(v) => v.bits@.len() == values@.len(),
                None => true,
            },
            MutableArray::Boolean { values, validity } => match validity {
                Some(v) => v.bits@.len() == values@.len(),
                None => true,
            },
            MutableArray::Null { .. } => true,
        }
    }

    /// The number of slots.
    pub fn len(&self) -> (r: usize)
        ensures
            r == self.spec_len(),
    {
        match self {
            MutableArray::Int64 { values, .. } => values.len(),
            MutableArray::Boolean { values, .. } => values.len(),
            MutableArray::Null { length } => *length,
        }
    }

    /// The primitive type of the array.
    pub fn data_type(&self) -> (r: PrimitiveType)
        ensures
            r == self.spec_type(),
    {
        match self {
            MutableArray::Int64 { .. } => PrimitiveType::Int64,
            MutableArray::Boolean { .. } => PrimitiveType::Boolean,
            MutableArray::Null { .. } => PrimitiveType::Null,
        }
    }

    /// Appends one null slot: a default value and an unset validity bit,
    /// creating the bitmap (all earlier slots valid) if it did not exist.
    pub fn push_null(&mut self)
        requires
            old(self).wf(),
            old(self).spec_len() < usize::MAX,
        ensures
            final(self).wf(),
            final(self).spec_type() == old(self).spec_type(),
            final(self).spec_len() == old(self).spec_len() + 1,
    {
        match self {
            MutableArray::Int64 { values, validity } => {
                values.push(0);
                match validity {
                    Some(v) => v.push(false),
                    None => {
                        let mut v = MutableBitmap::with_capacity(values.len());
                        v.extend_constant(values.len() - 1, true);
                        v.push(false);
                        *validity = Some(v);
                    }
                }
            }
            MutableArray::Boolean { values, validity } => {
                values.push(false);
                match validity {
                    Some(v) => v.push(false),
                    None => {
                        let mut v = MutableBitmap::with_capacity(values.len());
                        v.extend_constant(values.len() - 1, true);
                        v.push(false);
                        *validity = Some(v);
                    }
                }
            }
            MutableArray::Null { length } => {
                *length = *length + 1;
            }
        }
    }

    /// Reserves room for `additional` more slots; contents unchanged.
    pub fn reserve(&mut self, additional: usize)
        ensures
            same_contents(*final(self), *old(self)),
    {
        match self {
            MutableArray::Int64 { values, validity } => {
                values.reserve(additional);
                if let Some(v) = validity {
                    v.reserve(additional);
                }
            }
            MutableArray::Boolean { values, validity } => {
                values.reserve(additional);
                if let Some(v) = validity {
                    v.reserve(additional);
                }
            }
            MutableArray::Null { .. } => {}
        }
    }

    /// Shrinks the allocation; capacity is not modelled, contents unchanged.
    pub fn shrink_to_fit(&mut self)
        ensures
            *final(self) == *old(self),
    {
    }
}

/// A frozen primitive array.
#[derive(Clone, Debug)]
pub enum Array {
    Int64 { values: Vec<i64>, validity: Option<Vec<bool>> },
    Boolean { values: Vec<bool>, validity: Option<Vec<bool>> },
    Null { length: usize },
}

/// Freezes a mutable child array.
pub fn freeze_array(m: MutableArray) -> (r: Array)
    ensures
        match m {
            MutableArray::Int64 { values, validity } => r == (Array::Int64 {
                values,
                validity: match validity {
                    Some(v) => Some(v.bits),
                    None => None,
                },
            }),
            MutableArray::Boolean { values, validity } => r == (Array::Boolean {
                values,
                validity: match validity {
                    Some(v) => Some(v.bits),
                    None => None,
                },
            }),
            MutableArray::Null { length } => r == (Array::Null { length }),
        },
{
    match m {
        MutableArray::Int64 { values, validity } => Array::Int64 {
            values,
            validity: match validity {
                Some(v) => Some(v.bits),
                None => None,
            },
        },
        MutableArray::Boolean { values, validity } => Array::Boolean {
            values,
            validity: match validity {
                Some(v) => Some(v.bits),
                None => None,
            },
        },
        MutableArray::Null { length } => Array::Null { length },
    }
}

/// A frozen struct array: one child per field, plus an optional validity.
#[derive(Clone, Debug)]
pub struct StructArray {
    pub data_type: DataType,
    pub values: Vec<Array>,
    pub validity: Option<Vec<bool>>,
}

impl StructArray {
    /// The declared fields of a struct type; an error for any other type.
    pub fn try_get_fields(data_type: &DataType) -> (r: Result<&Vec<Field>, DataError>)
        ensures
            r is Ok <==> data_type is Struct,
            data_type matches DataType::Struct(f) ==> r matches Ok(g) && g@ == f@,
            r is Err ==> r->Err_0 is OutOfSpec,
    {
        match data_type {
            DataType::Struct(fields) => Ok(fields),
            _ => Err(DataError::OutOfSpec {
                message: String::from_str(
                    "A struct array must be created with a struct data type",
                ),
            }),
        }
    }
}

/// Whether a frozen array holds the same logical contents as a mutable one.
pub open spec fn frozen_matches(a: Array, m: MutableArray) -> bool {
    match (a, m) {
        (
            Array::Int64 { values: fv, validity: fb },
            MutableArray::Int64 { values: mv, validity: mb },
        ) => fv@ == mv@ && (match (fb, mb) {
            (Some(x), Some(y)) => x@ == y.bits@,
            (None, None) => true,
            _ => false,
        }),
        (
            Array::Boolean { values: fv, validity: fb },
            MutableArray::Boolean { values: mv, validity: mb },
        ) => fv@ == mv@ && (match (fb, mb) {
            (Some(x), Some(y)) => x@ == y.bits@,
            (None, None) => true,
            _ => false,
        }),
        (Array::Null { length: la }, MutableArray::Null { length: lb }) => la == lb,
        _ => false,
    }
}

/// The condition under which a struct array may be built: a non-empty struct
/// type, one child per field of the field's own type, children of one common
/// length, and a validity of that same length if one is given.
pub open spec fn spec_check_ok(
    data_type: DataType,
    values: Seq<MutableArray>,
    validity: Option<usize>,
) -> bool {
    &&& data_type is Struct
    &&& data_type->Struct_0@.len() > 0
    &&& data_type->Struct_0@.len() == values.len()
    &&& forall|i: int|
        0 <= i < values.len() ==> (#[trigger] values[i].spec_type())
            == data_type->Struct_0@[i].data_type
    &&& forall|i: int|
        0 <= i < values.len() ==> (#[trigger] values[i].spec_len()) == values[0].spec_len()
    &&& match validity {
        Some(n) => n == values[0].spec_len(),
        None => true,
    }
}

/// Checks that a struct type, its children and an optional validity length
/// fit together; `Ok` exactly under [`spec_check_ok`].
pub fn check(
    data_type: &DataType,
    values: &Vec<MutableArray>,
    validity: Option<usize>,
) -> (r: Result<(), DataError>)
    ensures
        r is Ok <==> spec_check_ok(*data_type, values@, validity),
        r is Err ==> r->Err_0 is OutOfSpec,
{
    let fields = match StructArray::try_get_fields(data_type) {
        Ok(f) => f,
        Err(e) => {
            return Err(e);
        }
    };
    if fields.len() == 0 {
        return Err(DataError::OutOfSpec {
            message: String::from_str("A struct array must contain at least one field"),
        });
    }
    if fields.len() != values.len() {
        return Err(DataError::OutOfSpec {
            message: String::from_str(
                "A struct array must have as many child values as its type has fields",
            ),
        });
    }
    let n = values.len();
    let mut i: usize = 0;
    while i < n
        invariant
            i <= n,
            n == values@.len(),
            n == fields@.len(),
            data_type matches DataType::Struct(f) && f@ == fields@,
            forall|j: int|
                0 <= j < i ==> (#[trigger] values@[j].spec_type()) == fields@[j].data_type,
        decreases n - i,
    {
        if values[i].data_type() != fields[i].data_type {
            return Err(DataError::OutOfSpec {
                message: String::from_str(
                    "The children data types of a struct array must equal its fields' types",
                ),
            });
        }
        i = i + 1;
    }
    let len = values[0].len();
    let mut k: usize = 0;
    while k < n
        invariant
            k <= n,
            n == values@.len(),
            len == values@[0].spec_len(),
            forall|j: int| 0 <= j < k ==> (#[trigger] values@[j].spec_len()) == len,
        decreases n - k,
    {
        if values[k].len() != len {
            return Err(DataError::OutOfSpec {
                message: String::from_str("The children must have an equal number of values"),
            });
        }
        k = k + 1;
    }
    if let Some(v_len) = validity {
        if v_len != len {
            return Err(DataError::OutOfSpec {
                message: String::from_str(
                    "The validity length of a struct array must match its number of elements",
                ),
            });
        }
    }
    Ok(())
}

/// The validity a fresh bitmap gets when the first null arrives after `len`
/// rows were already pushed: every earlier row valid, the last row null.
pub open spec fn init_bits(len: nat) -> Seq<bool> {
    if len == 0 {
        Seq::<bool>::empty()
    } else {
        Seq::new(len, |i: int| true).update(len - 1, false)
    }
}

/// A mutable struct array: one mutable child per field plus an optional
/// validity bitmap. Freezing it into a [`StructArray`] is `O(1)` per child.
#[derive(Debug)]
pub struct MutableStructArray {
    pub data_type: DataType,
    pub values: Vec<MutableArray>,
    pub validity: Option<MutableBitmap>,
}

impl MutableStructArray {
    /// The number of rows: the length of the first child.
    pub open spec fn spec_len(self) -> nat {
        if self.values@.len() == 0 {
            0
        } else {
            self.values@[0].spec_len()
        }
    }

    /// Creates a new mutable struct array from parts already known to fit.
    pub fn new(data_type: DataType, values: Vec<MutableArray>) -> (r: MutableStructArray)
        requires
            spec_check_ok(data_type, values@, None),
        ensures
            r.data_type == data_type,
            r.values == values,
            r.validity is None,
    {
        match Self::try_new(data_type, values, None) {
            Ok(r) => r,
            Err(_) => {
                proof {
                    assert(false);
                }
                MutableStructArray {
                    data_type: DataType::Null,
                    values: Vec::new(),
                    validity: None,
                }
            }
        }
    }

    /// Creates a new mutable struct array, failing exactly when the type,
    /// the children and the validity do not fit together.
    pub fn try_new(
        data_type: DataType,
        values: Vec<MutableArray>,
        validity: Option<MutableBitmap>,
    ) -> (r: Result<MutableStructArray, DataError>)
        ensures
            r is Ok <==> spec_check_ok(
                data_type,
                values@,
                match validity {
                    Some(v) => Some(v.bits@.len() as usize),
                    None => None,
                },
            ),
            r matches Ok(a) ==> {
                &&& a.data_type == data_type
                &&& a.values == values
                &&& a.validity == validity
            },
            r matches Err(e) ==> e is OutOfSpec,
    {
        let v_len = match &validity {
            Some(v) => Some(v.len()),
            None => None,
        };
        match check(&data_type, &values, v_len) {
            Ok(()) => Ok(MutableStructArray { data_type, values, validity }),
            Err(e) => Err(e),
        }
    }

    /// Takes the array apart into its raw parts.
    pub fn into_inner(self) -> (r: (DataType, Vec<MutableArray>, Option<MutableBitmap>))
        ensures
            r.0 == self.data_type,
            r.1 == self.values,
            r.2 == self.validity,
    {
        (self.data_type, self.values, self.validity)
    }

    /// The mutable children.
    pub fn mut_values(&mut self) -> (r: &mut Vec<MutableArray>)
        ensures
            *r == old(self).values,
            final(self).values == *final(r),
            final(self).data_type == old(self).data_type,
            final(self).validity == old(self).validity,
    {
        &mut self.values
    }

    /// The children.
    pub fn values(&self) -> (r: &Vec<MutableArray>)
        ensures
            *r == self.values,
    {
        &self.values
    }

    /// The `i`th child array, for in-place mutation.
    pub fn value(&mut self, i: usize) -> (r: &mut MutableArray)
        requires
            i < old(self).values@.len(),
        ensures
            *r == old(self).values@[i as int],
            final(self).values@ == old(self).values@.update(i as int, *final(r)),
            final(self).data_type == old(self).data_type,
            final(self).validity == old(self).validity,
    {
        &mut self.values[i]
    }

    /// The number of rows.
    pub fn len(&self) -> (r: usize)
        ensures
            r == self.spec_len(),
    {
        if self.values.len() == 0 {
            0
        } else {
            self.values[0].len()
        }
    }

    /// The validity bitmap, if any row is tracked as null.
    pub fn validity(&self) -> (r: Option<&MutableBitmap>)
        ensures
            match r {
                Some(v) => self.validity matches Some(w) && *v == w,
                None => self.validity is None,
            },
    {
        self.validity.as_ref()
    }

    /// The logical type of the array.
    pub fn data_type(&self) -> (r: &DataType)
        ensures
            *r == self.data_type,
    {
        &self.data_type
    }

    /// Reserves room for `additional` more rows in every child and in the
    /// validity; the logical contents are unchanged.
    pub fn reserve(&mut self, additional: usize)
        ensures
            final(self).data_type == old(self).data_type,
            final(self).values@.len() == old(self).values@.len(),
            forall|i: int|
                0 <= i < old(self).values@.len() ==> same_contents(
                    #[trigger] final(self).values@[i],
                    old(self).values@[i],
                ),
            spec_opt_bits(final(self).validity) == spec_opt_bits(old(self).validity),
    {
        let n = self.values.len();
        let mut i: usize = 0;
        while i < n
            invariant
                i <= n,
                n == self.values@.len(),
                n == old(self).values@.len(),
                self.data_type == old(self).data_type,
                self.validity == old(self).validity,
                forall|j: int|
                    0 <= j < i ==> same_contents(
                        #[trigger] self.values@[j],
                        old(self).values@[j],
                    ),
                forall|j: int| i <= j < n ==> self.values@[j] == old(self).values@[j],
            decreases n - i,
        {
            let v = &mut self.values[i];
            v.reserve(additional);
            i = i + 1;
        }
        if let Some(x) = self.validity.as_mut() {
            x.reserve(additional);
        }
    }

    /// Records the validity of one freshly pushed row. Call this once for
    /// each row of children pushed. A first null row creates the bitmap with
    /// all earlier rows valid.
    pub fn push(&mut self, valid: bool)
        ensures
            final(self).data_type == old(self).data_type,
            final(self).values == old(self).values,
            match old(self).validity {
                Some(v) => final(self).validity matches Some(w) && w.bits@ == v.bits@.push(
                    valid,
                ),
                None => {
                    if valid {
                        final(self).validity is None
                    } else {
                        final(self).validity matches Some(w) && w.bits@ == init_bits(
                            old(self).spec_len(),
                        )
                    }
                }
            },
    {
        match self.validity.as_mut() {
            Some(validity) => validity.push(valid),
            None => {
                if !valid {
                    self.init_validity();
                }
            }
        }
    }

    /// Creates the validity bitmap on the first null: all rows so far valid
    /// except the last one.
    fn init_validity(&mut self)
        ensures
            final(self).data_type == old(self).data_type,
            final(self).values == old(self).values,
            final(self).validity matches Some(w) && w.bits@ == init_bits(old(self).spec_len()),
    {
        let len = self.len();
        let mut validity = MutableBitmap::with_capacity(len);
        if len > 0 {
            validity.extend_constant(len, true);
            validity.set(len - 1, false);
        }
        proof {
            assert(validity.bits@ =~= init_bits(old(self).spec_len()));
        }
        self.validity = Some(validity);
    }

    /// Pushes one null row: a null slot into every child, then an unset
    /// validity bit for the row.
    pub fn push_null(&mut self)
        requires
            forall|i: int| 0 <= i < old(self).values@.len() ==> (#[trigger] old(
                self,
            ).values@[i]).wf(),
            forall|i: int| 0 <= i < old(self).values@.len() ==> (#[trigger] old(
                self,
            ).values@[i]).spec_len() < usize::MAX,
        ensures
            final(self).data_type == old(self).data_type,
            final(self).values@.len() == old(self).values@.len(),
            forall|i: int|
                0 <= i < old(self).values@.len() ==> {
                    &&& (#[trigger] final(self).values@[i]).spec_len() == old(
                        self,
                    ).values@[i].spec_len() + 1
                    &&& final(self).values@[i].spec_type() == old(self).values@[i].spec_type()
                    &&& final(self).values@[i].wf()
                },
            match old(self).validity {
                Some(v) => final(self).validity matches Some(w) && w.bits@ == v.bits@.push(false),
                None => final(self).validity matches Some(w) && w.bits@ == init_bits(
                    if old(self).values@.len() == 0 {
                        0
                    } else {
                        old(self).spec_len() + 1
                    },
                ),
            },
    {
        let n = self.values.len();
        let mut i: usize = 0;
        while i < n
            invariant
                i <= n,
                n == self.values@.len(),
                n == old(self).values@.len(),
                self.data_type == old(self).data_type,
                self.validity == old(self).validity,
                forall|j: int|
                    0 <= j < i ==> {
                        &&& (#[trigger] self.values@[j]).spec_len() == old(
                            self,
                        ).values@[j].spec_len() + 1
                        &&& self.values@[j].spec_type() == old(self).values@[j].spec_type()
                        &&& self.values@[j].wf()
                    },
                forall|j: int| i <= j < n ==> self.values@[j] == old(self).values@[j],
                forall|j: int|
                    0 <= j < n ==> (#[trigger] old(self).values@[j]).wf() && old(
                        self,
                    ).values@[j].spec_len() < usize::MAX,
        decreases n - i,
        {
            proof {
                assert(self.values@[i as int] == old(self).values@[i as int]);
            }
            let v = &mut self.values[i];
            v.push_null();
            i = i + 1;
        }
        self.push(false);
    }

    /// Shrinks every allocation; capacity is not modelled, contents unchanged.
    pub fn shrink_to_fit(&mut self)
        ensures
            final(self).data_type == old(self).data_type,
            final(self).values@.len() == old(self).values@.len(),
            forall|i: int|
                0 <= i < old(self).values@.len() ==> same_contents(
                    #[trigger] final(self).values@[i],
                    old(self).values@[i],
                ),
            spec_opt_bits(final(self).validity) == spec_opt_bits(old(self).validity),
    {
        let n = self.values.len();
        let mut i: usize = 0;
        while i < n
            invariant
                i <= n,
                n == self.values@.len(),
                n == old(self).values@.len(),
                self.data_type == old(self).data_type,
                self.validity == old(self).validity,
                forall|j: int|
                    0 <= j < i ==> same_contents(
                        #[trigger] self.values@[j],
                        old(self).values@[j],
                    ),
                forall|j: int| i <= j < n ==> self.values@[j] == old(self).values@[j],
            decreases n - i,
        {
            let v = &mut self.values[i];
            v.shrink_to_fit();
            i = i + 1;
        }
        if let Some(validity) = self.validity.as_mut() {
            validity.shrink_to_fit();
        }
    }

    /// Freezes the array, dropping a validity bitmap that marks no null.
    pub fn freeze(self) -> (r: StructArray)
        ensures
            r.data_type == self.data_type,
            r.values@.len() == self.values@.len(),
            forall|i: int|
                0 <= i < self.values@.len() ==> frozen_matches(
                    #[trigger] r.values@[i],
                    self.values@[i],
                ),
            match self.validity {
                Some(v) => {
                    if count_false(v.bits@) > 0 {
                        r.validity matches Some(w) && w@ == v.bits@
                    } else {
                        r.validity is None
                    }
                }
                None => r.validity is None,
            },
    {
        let keep = match &self.validity {
            Some(v) => v.unset_bits() > 0,
            None => false,
        };
        let validity = if keep {
            match self.validity {
                Some(v) => Some(v.bits),
                None => None,
            }
        } else {
            None
        };
        let mut values = self.values;
        let ghost orig = values@;
        let mut frozen: Vec<Array> = Vec::new();
        while values.len() > 0
            invariant
                frozen@.len() + values@.len() == orig.len(),
                values@ == orig.skip(frozen@.len() as int),
                forall|j: int|
                    0 <= j < frozen@.len() ==> frozen_matches(#[trigger] frozen@[j], orig[j]),
            decreases values@.len(),
        {
            let ghost k = frozen@.len() as int;
            let m = values.remove(0);
            proof {
                assert(m == orig[k]);
                assert(values@ =~= orig.skip(k + 1));
            }
            frozen.push(freeze_array(m));
        }
        StructArray { data_type: self.data_type, values: frozen, validity }
    }

    /// Freezes the array into a shared, immutable form, dropping a validity
    /// bitmap that marks no null, as [`MutableStructArray::freeze`] does.
    pub fn into_arc(self) -> (r: Arc<StructArray>)
        ensures
            r.data_type == self.data_type,
            r.values@.len() == self.values@.len(),
            forall|i: int|
                0 <= i < self.values@.len() ==> frozen_matches(
                    #[trigger] r.values@[i],
                    self.values@[i],
                ),
            match self.validity {
                Some(v) => {
                    if count_false(v.bits@) > 0 {
                        r.validity matches Some(w) && w@ == v.bits@
                    } else {
                        r.validity is None
                    }
                }
                None => r.validity is None,
            },
    {
        Arc::new(self.freeze())
    }

    /// Freezes the array in place, leaving it drained: the children move out
    /// as they stand, validity included.
    pub fn as_box(&mut self) -> (r: Box<StructArray>)
        ensures
            dt_matches(r.data_type, old(self).data_type),
            r.values@.len() == old(self).values@.len(),
            forall|i: int|
                0 <= i < old(self).values@.len() ==> frozen_matches(
                    #[trigger] r.values@[i],
                    old(self).values@[i],
                ),
            match old(self).validity {
                Some(v) => r.validity matches Some(w) && w@ == v.bits@,
                None => r.validity is None,
            },
            final(self).values@.len() == 0,
            final(self).validity is None,
            final(self).data_type == old(self).data_type,
    {
        Box::new(self.take_frozen())
    }

    /// Freezes the array in place, shared; the drained form stays behind.
    pub fn as_arc(&mut self) -> (r: Arc<StructArray>)
        ensures
            dt_matches(r.data_type, old(self).data_type),
            r.values@.len() == old(self).values@.len(),
            forall|i: int|
                0 <= i < old(self).values@.len() ==> frozen_matches(
                    #[trigger] r.values@[i],
                    old(self).values@[i],
                ),
            match old(self).validity {
                Some(v) => r.validity matches Some(w) && w@ == v.bits@,
                None => r.validity is None,
            },
            final(self).values@.len() == 0,
            final(self).validity is None,
            final(self).data_type == old(self).data_type,
    {
        Arc::new(self.take_frozen())
    }

    /// Moves the children and validity out into a frozen array.
    fn take_frozen(&mut self) -> (r: StructArray)
        ensures
            dt_matches(r.data_type, old(self).data_type),
            r.values@.len() == old(self).values@.len(),
            forall|i: int|
                0 <= i < old(self).values@.len() ==> frozen_matches(
                    #[trigger] r.values@[i],
                    old(self).values@[i],
                ),
            match old(self).validity {
                Some(v) => r.validity matches Some(w) && w@ == v.bits@,
                None => r.validity is None,
            },
            final(self).values@.len() == 0,
            final(self).validity is None,
            final(self).data_type == old(self).data_type,
    {
        let mut values = self.values.split_off(0);
        let validity = match self.validity.take() {
            Some(v) => Some(v.bits),
            None => None,
        };
        let ghost orig = values@;
        let mut frozen: Vec<Array> = Vec::new();
        while values.len() > 0
            invariant
                frozen@.len() + values@.len() == orig.len(),
                values@ == orig.skip(frozen@.len() as int),
                forall|j: int|
                    0 <= j < frozen@.len() ==> frozen_matches(#[trigger] frozen@[j], orig[j]),
            decreases values@.len(),
        {
            let ghost k = frozen@.len() as int;
            let m = values.remove(0);
            proof {
                assert(m == orig[k]);
                assert(values@ =~= orig.skip(k + 1));
            }
            frozen.push(freeze_array(m));
        }
        StructArray { data_type: self.data_type.clone(), values: frozen, validity }
    }
}


/// The condition under which a bitmap view over `data_len` bytes is sound:
/// the first bit starts inside the first byte, and the requested length
/// fits the bits that remain after the offset.
pub open spec fn spec_bitmap_slice_ok(data_len: nat, offset: nat, length: nat) -> bool {
    offset < 8 && length <= data_len * 8 - offset
}

/// Checks the parameters of a bitmap view over a byte buffer; `Ok` exactly
/// when the offset is below eight and the length is in bounds.
pub fn check_bitmap_slice(data_len: usize, offset: usize, length: usize) -> (r: Result<
    (),
    DataError,
>)
    requires
        data_len <= usize::MAX / 8,
    ensures
        r is Ok <==> spec_bitmap_slice_ok(data_len as nat, offset as nat, length as nat),
        r matches Err(e) ==> e is InvalidArgument,
{
    if offset >= 8 {
        return Err(DataError::InvalidArgument {
            message: String::from_str("offset should be < 8"),
        });
    }
    let total = data_len * 8;
    if total < offset || length > total - offset {
        return Err(DataError::InvalidArgument {
            message: String::from_str("given length is out of bounds"),
        });
    }
    Ok(())
}
} // verus!
