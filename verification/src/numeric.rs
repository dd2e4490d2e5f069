//! The numeric coercion adapter: a column value of any recognized
//! integer-family database type is decoded from its big-endian wire bytes and
//! widened to one canonical 64-bit signed integer. Signed types are
//! sign-extended, the unsigned object-identifier type is zero-extended, and
//! any other declared type is a checked coercion failure.

use vstd::prelude::*;
use crate::status::CheckError;

verus! {

/// The declared type of a result column, as far as the coercion adapter
/// cares: the five members of the recognized integer family, and `Other` for
/// every type outside it.
#[derive(Clone, Copy, PartialEq, Eq, Structural, Debug)]
pub enum ColumnType {
    /// 1-byte signed character/integer.
    Char,
    /// 2-byte signed integer.
    Int2,
    /// 4-byte signed integer.
    Int4,
    /// 8-byte signed integer.
    Int8,
    /// 4-byte unsigned object identifier.
    Oid,
    /// Any declared type outside the recognized integer family.
    Other,
}

/// The wire width in bytes of a recognized column type (0 for `Other`).
pub open spec fn type_width(ty: ColumnType) -> nat {
    match ty {
        ColumnType::Char => 1,
        ColumnType::Int2 => 2,
        ColumnType::Int4 => 4,
        ColumnType::Int8 => 8,
        ColumnType::Oid => 4,
        ColumnType::Other => 0,
    }
}

/// Whether a declared type is in the recognized integer family.
pub open spec fn accepts_spec(ty: ColumnType) -> bool {
    !(ty is Other)
}

/// The unsigned value of a byte string read as a big-endian integer.
pub open spec fn be_value(bytes: Seq<u8>) -> nat
    decreases bytes.len(),
{
    if bytes.len() == 0 {
        0
    } else {
        be_value(bytes.drop_last()) * 256 + bytes.last() as nat
    }
}

/// 256 to the power `n`: the number of values an `n`-byte string can encode.
pub open spec fn pow256(n: nat) -> nat
    decreases n,
{
    if n == 0 {
        1
    } else {
        256 * pow256((n - 1) as nat)
    }
}

/// The two's-complement value of a byte string read as a big-endian signed
/// integer of its own width.
pub open spec fn be_signed(bytes: Seq<u8>) -> int {
    if be_value(bytes) < pow256(bytes.len()) / 2 {
        be_value(bytes) as int
    } else {
        be_value(bytes) as int - pow256(bytes.len()) as int
    }
}

/// The canonical 64-bit signed value of a recognized column: signed types are
/// sign-extended, the object-identifier type is zero-extended.
pub open spec fn coerce_spec(ty: ColumnType, bytes: Seq<u8>) -> int {
    if ty is Oid {
        be_value(bytes) as int
    } else {
        be_signed(bytes)
    }
}

/// An `n`-byte string encodes a value below `256^n`.
pub proof fn lemma_be_value_bound(bytes: Seq<u8>)
    ensures
        be_value(bytes) < pow256(bytes.len()),
    decreases bytes.len(),
{
    if bytes.len() > 0 {
        lemma_be_value_bound(bytes.drop_last());
    }
}

/// `pow256` is monotone.
pub proof fn lemma_pow256_monotone(a: nat, b: nat)
    requires
        a <= b,
    ensures
        pow256(a) <= pow256(b),
    decreases b,
{
    if a < b {
        lemma_pow256_monotone(a, (b - 1) as nat);
    }
}

/// A recognized column's canonical value fits in a 64-bit signed integer.
pub proof fn lemma_coerce_in_i64_range(ty: ColumnType, bytes: Seq<u8>)
    requires
        accepts_spec(ty),
        bytes.len() == type_width(ty),
    ensures
        i64::MIN <= coerce_spec(ty, bytes) <= i64::MAX,
{
    lemma_be_value_bound(bytes);
    reveal_with_fuel(pow256, 9);
}

/// The canonical integer type every accepted database column type is
/// normalized into.
#[derive(Clone, Copy, Debug)]
pub struct Int64(pub i64);

impl Int64 {
    /// The canonical value itself.
    pub fn to_i64(&self) -> (r: i64)
        ensures
            r == self.0,
    {
        self.0
    }

    /// Whether a declared column type is in the recognized integer family.
    pub fn accepts(ty: &ColumnType) -> (r: bool)
        ensures
            r == accepts_spec(*ty),
    {
        match ty {
            ColumnType::Char | ColumnType::Int2 | ColumnType::Int4 | ColumnType::Int8
            | ColumnType::Oid => true,
            ColumnType::Other => false,
        }
    }

    /// Coerce one column, given its declared type and its raw big-endian
    /// bytes, to the canonical integer. An unrecognized type, or a raw value
    /// of the wrong width, is a checked error.
    pub fn from_sql(ty: &ColumnType, raw: &Vec<u8>) -> (r: Result<Int64, CheckError>)
        ensures
            accepts_spec(*ty) && raw@.len() == type_width(*ty) ==> r is Ok && r->Ok_0.0 as int
                == coerce_spec(*ty, raw@),
            !accepts_spec(*ty) ==> r == Err::<Int64, CheckError>(
                CheckError::UnsupportedColumnType,
            ),
            accepts_spec(*ty) && raw@.len() != type_width(*ty) ==> r == Err::<Int64, CheckError>(
                CheckError::MalformedColumnValue,
            ),
    {
        let w: usize = match ty {
            ColumnType::Char => 1,
            ColumnType::Int2 => 2,
            ColumnType::Int4 => 4,
            ColumnType::Int8 => 8,
            ColumnType::Oid => 4,
            ColumnType::Other => {
                return Err(CheckError::UnsupportedColumnType);
            },
        };
        if raw.len() != w {
            return Err(CheckError::MalformedColumnValue);
        }
        let u = decode_be(raw);
        proof {
            lemma_be_value_bound(raw@);
            lemma_coerce_in_i64_range(*ty, raw@);
            reveal_with_fuel(pow256, 9);
        }
        match ty {
            ColumnType::Oid => Ok(Int64(u as i64)),
            _ => Ok(Int64(be_to_signed(u, w))),
        }
    }
}

/// Read a byte string of at most 8 bytes as an unsigned big-endian integer.
fn decode_be(raw: &Vec<u8>) -> (r: u64)
    requires
        raw@.len() <= 8,
    ensures
        r == be_value(raw@),
{
    let mut acc: u64 = 0;
    let mut i: usize = 0;
    proof {
        assert(raw@.take(0) =~= Seq::<u8>::empty());
    }
    while i < raw.len()
        invariant
            i <= raw@.len() <= 8,
            acc == be_value(raw@.take(i as int)),
        decreases raw@.len() - i,
    {
        proof {
            lemma_be_value_bound(raw@.take(i as int));
            lemma_pow256_monotone(i as nat, 7);
            reveal_with_fuel(pow256, 9);
            assert(raw@.take(i + 1).drop_last() =~= raw@.take(i as int));
            assert(raw@.take(i + 1).last() == raw@[i as int]);
        }
        acc = acc * 256 + raw[i] as u64;
        i = i + 1;
    }
    proof {
        assert(raw@.take(raw@.len() as int) =~= raw@);
    }
    acc
}

/// Sign-extend the unsigned big-endian value of a `w`-byte string to 64 bits.
fn be_to_signed(u: u64, w: usize) -> (r: i64)
    requires
        w == 1 || w == 2 || w == 4 || w == 8,
        u < pow256(w as nat),
    ensures
        r as int == (if u < pow256(w as nat) / 2 {
            u as int
        } else {
            u as int - pow256(w as nat) as int
        }),
{
    proof {
        reveal_with_fuel(pow256, 9);
    }
    if w == 1 {
        if u < 128 {
            u as i64
        } else {
            (u as i64) - 256
        }
    } else if w == 2 {
        if u < 32768 {
            u as i64
        } else {
            (u as i64) - 65536
        }
    } else if w == 4 {
        if u < 2147483648 {
            u as i64
        } else {
            (u as i64) - 4294967296
        }
    } else {
        if u < 9223372036854775808 {
            u as i64
        } else {
            ((u - 9223372036854775808) as i64) + i64::MIN
        }
    }
}

} // verus!
