use vstd::prelude::*;

verus! {

/// A tagged column value. `Unset` is distinct from `Null`: `Null` is SQL
/// NULL, while `Unset` means "absent/unbound" and serves as the snapshot
/// slice sentinel before the first slice is read.
///
/// Textual values (decimal, time, date, ...) are carried as their raw
/// bytes; a floating-point value is carried as its IEEE-754 bit pattern,
/// so that the core stays within exact arithmetic.
#[derive(Clone, Debug, PartialEq, Eq)]
pub enum ColValue {
    Null,
    Bool(bool),
    Int(i64),
    Unsigned(u64),
    Float { bits: u64 },
    Str { bytes: Vec<u8>, charset: Vec<u8> },
    Decimal(Vec<u8>),
    Time(Vec<u8>),
    Date(Vec<u8>),
    DateTime(Vec<u8>),
    Timestamp(Vec<u8>),
    Json(Vec<u8>),
    Blob(Vec<u8>),
    Unset,
}

/// The mathematical value of a `ColValue`: the same tag with every byte
/// vector abstracted to the sequence it holds.
pub enum ColValueModel {
    Null,
    Bool(bool),
    Int(i64),
    Unsigned(u64),
    Float { bits: u64 },
    Str { bytes: Seq<u8>, charset: Seq<u8> },
    Decimal(Seq<u8>),
    Time(Seq<u8>),
    Date(Seq<u8>),
    DateTime(Seq<u8>),
    Timestamp(Seq<u8>),
    Json(Seq<u8>),
    Blob(Seq<u8>),
    Unset,
}

impl View for ColValue {
    type V = ColValueModel;

    open spec fn view(&self) -> ColValueModel {
        match self {
            ColValue::Null => ColValueModel::Null,
            ColValue::Bool(b) => ColValueModel::Bool(*b),
            ColValue::Int(i) => ColValueModel::Int(*i),
            ColValue::Unsigned(u) => ColValueModel::Unsigned(*u),
            ColValue::Float { bits } => ColValueModel::Float { bits: *bits },
            ColValue::Str { bytes, charset } => ColValueModel::Str {
                bytes: bytes@,
                charset: charset@,
            },
            ColValue::Decimal(b) => ColValueModel::Decimal(b@),
            ColValue::Time(b) => ColValueModel::Time(b@),
            ColValue::Date(b) => ColValueModel::Date(b@),
            ColValue::DateTime(b) => ColValueModel::DateTime(b@),
            ColValue::Timestamp(b) => ColValueModel::Timestamp(b@),
            ColValue::Json(b) => ColValueModel::Json(b@),
            ColValue::Blob(b) => ColValueModel::Blob(b@),
            ColValue::Unset => ColValueModel::Unset,
        }
    }
}

/// The number of payload bytes a value occupies for the queue's byte
/// accounting: eight for every scalar, the vector length for byte-carrying
/// values.
pub open spec fn cv_size(v: ColValueModel) -> nat {
    match v {
        ColValueModel::Null => 8,
        ColValueModel::Bool(_) => 8,
        ColValueModel::Int(_) => 8,
        ColValueModel::Unsigned(_) => 8,
        ColValueModel::Float { .. } => 8,
        ColValueModel::Str { bytes, .. } => bytes.len(),
        ColValueModel::Decimal(b) => b.len(),
        ColValueModel::Time(b) => b.len(),
        ColValueModel::Date(b) => b.len(),
        ColValueModel::DateTime(b) => b.len(),
        ColValueModel::Timestamp(b) => b.len(),
        ColValueModel::Json(b) => b.len(),
        ColValueModel::Blob(b) => b.len(),
        ColValueModel::Unset => 8,
    }
}

impl ColValue {
    /// Payload byte count of this value, as `cv_size` states it.
    pub fn byte_size(&self) -> (r: usize)
        ensures
            r == cv_size(self@),
    {
        match self {
            ColValue::Str { bytes, .. } => bytes.len(),
            ColValue::Decimal(b) => b.len(),
            ColValue::Time(b) => b.len(),
            ColValue::Date(b) => b.len(),
            ColValue::DateTime(b) => b.len(),
            ColValue::Timestamp(b) => b.len(),
            ColValue::Json(b) => b.len(),
            ColValue::Blob(b) => b.len(),
            _ => 8,
        }
    }

    /// A copy of this value, equal to the original at the model level.
    pub fn duplicate(&self) -> (r: ColValue)
        ensures
            r@ == self@,
    {
        match self {
            ColValue::Null => ColValue::Null,
            ColValue::Bool(b) => ColValue::Bool(*b),
            ColValue::Int(i) => ColValue::Int(*i),
            ColValue::Unsigned(u) => ColValue::Unsigned(*u),
            ColValue::Float { bits } => ColValue::Float { bits: *bits },
            ColValue::Str { bytes, charset } => {
                let r = ColValue::Str { bytes: dup_bytes(bytes), charset: dup_bytes(charset) };
                assert(r@ == self@);
                r
            },
            ColValue::Decimal(b) => ColValue::Decimal(dup_bytes(b)),
            ColValue::Time(b) => ColValue::Time(dup_bytes(b)),
            ColValue::Date(b) => ColValue::Date(dup_bytes(b)),
            ColValue::DateTime(b) => ColValue::DateTime(dup_bytes(b)),
            ColValue::Timestamp(b) => ColValue::Timestamp(dup_bytes(b)),
            ColValue::Json(b) => ColValue::Json(dup_bytes(b)),
            ColValue::Blob(b) => ColValue::Blob(dup_bytes(b)),
            ColValue::Unset => ColValue::Unset,
        }
    }
}

/// A byte-for-byte copy of a vector.
pub fn dup_bytes(b: &Vec<u8>) -> (r: Vec<u8>)
    ensures
        r@ == b@,
{
    let mut r: Vec<u8> = Vec::new();
    let mut i: usize = 0;
    while i < b.len()
        invariant
            i <= b.len(),
            r@ == b@.subrange(0, i as int),
        decreases b.len() - i,
    {
        r.push(b[i]);
        proof {
            assert(r@ =~= b@.subrange(0, i + 1 as int));
        }
        i = i + 1;
    }
    proof {
        assert(r@ =~= b@);
    }
    r
}

} // verus!
