//! The scalar type registry: for each scalar name of the schema language its
//! native representation, clone strategy, default value and the canonical
//! byte encoding that identifier derivation hashes.

use crate::encoding::{
    byte_range, encode_le, le_bytes, lemma_byte_range_8, lemma_byte_ranges, lemma_le_round_trip,
};
use crate::text::{lemma_utf8_injective, str_eq};
use vstd::prelude::*;
use vstd::utf8::encode_utf8;

verus! {

/// Width of an integer representation.
#[derive(Clone, Copy, Debug, PartialEq, Eq, Hash, Structural)]
pub enum Width {
    W1,
    W4,
    W8,
    W16,
}

impl Width {
    /// Number of bytes of an integer of this width.
    pub open spec fn byte_count(self) -> nat {
        match self {
            Width::W1 => 1,
            Width::W4 => 4,
            Width::W8 => 8,
            Width::W16 => 16,
        }
    }

    /// Number of values of an integer of this width.
    pub open spec fn limit(self) -> int {
        match self {
            Width::W1 => 0x100,
            Width::W4 => 0x1_0000_0000,
            Width::W8 => 0x1_0000_0000_0000_0000,
            Width::W16 => 0x1_0000_0000_0000_0000_0000_0000_0000_0000int,
        }
    }

    /// Number of bytes of an integer of this width.
    pub fn bytes(self) -> (n: usize)
        ensures
            n == self.byte_count(),
    {
        match self {
            Width::W1 => 1,
            Width::W4 => 4,
            Width::W8 => 8,
            Width::W16 => 16,
        }
    }

    /// Largest unsigned value of this width.
    pub fn max_unsigned(self) -> (m: u128)
        ensures
            m == self.limit() - 1,
    {
        match self {
            Width::W1 => 0xff,
            Width::W4 => 0xffff_ffff,
            Width::W8 => 0xffff_ffff_ffff_ffff,
            Width::W16 => 0xffff_ffff_ffff_ffff_ffff_ffff_ffff_ffff,
        }
    }

    /// Largest two's complement value of this width.
    pub fn max_signed(self) -> (m: i128)
        ensures
            m == self.limit() / 2 - 1,
    {
        match self {
            Width::W1 => 0x7f,
            Width::W4 => 0x7fff_ffff,
            Width::W8 => 0x7fff_ffff_ffff_ffff,
            Width::W16 => 0x7fff_ffff_ffff_ffff_ffff_ffff_ffff_ffff,
        }
    }

    /// Smallest two's complement value of this width.
    pub fn min_signed(self) -> (m: i128)
        ensures
            m == -(self.limit() / 2),
    {
        match self {
            Width::W1 => -0x80,
            Width::W4 => -0x8000_0000,
            Width::W8 => -0x8000_0000_0000_0000,
            Width::W16 => i128::MIN,
        }
    }
}

/// The unsigned number with the same bits as a two's complement number of
/// the given width.
pub open spec fn signed_image(value: int, width: Width) -> nat {
    if value >= 0 {
        value as nat
    } else {
        (value + width.limit()) as nat
    }
}

/// How a value of a scalar is represented natively.
#[derive(Clone, Copy, Debug, PartialEq, Eq, Hash, Structural)]
pub enum NativeRepr {
    /// An unsigned integer of the given width.
    Unsigned(Width),
    /// A two's complement integer of the given width.
    Signed(Width),
    /// A truth value.
    Boolean,
    /// Unicode text.
    Text,
    /// A byte array of exactly this length.
    FixedBytes(usize),
    /// A byte string of any length.
    Bytes,
}

/// How a value of a scalar is duplicated when it is encoded into a row.
#[derive(Clone, Copy, Debug, PartialEq, Eq, Hash, Structural)]
pub enum CloneStrategy {
    /// The value is copied bit for bit.
    Copy,
    /// The value owns memory and is cloned.
    Clone,
}

/// A registered scalar type of the schema language.
#[derive(Clone, Copy, Debug, PartialEq, Eq, Hash, Structural)]
pub enum ScalarType {
    Id,
    UInt1,
    UInt4,
    UInt8,
    UInt16,
    Int1,
    Int4,
    Int8,
    Int16,
    Boolean,
    Charfield,
    Json,
    Bytes4,
    Bytes8,
    Bytes32,
    Bytes64,
    Address,
    AssetId,
    ContractId,
    Salt,
    Blob,
    HexString,
}

/// A value in one of the native representations.
#[derive(Debug, PartialEq, Eq)]
pub enum Value {
    Unsigned(u128),
    Signed(i128),
    Boolean(bool),
    Text(String),
    Bytes(Vec<u8>),
}

/// What a [`Value`] holds.
pub enum ValueView {
    Unsigned(u128),
    Signed(i128),
    Boolean(bool),
    Text(Seq<char>),
    Bytes(Seq<u8>),
}

impl DeepView for Value {
    type V = ValueView;

    open spec fn deep_view(&self) -> ValueView {
        match self {
            Value::Unsigned(x) => ValueView::Unsigned(*x),
            Value::Signed(x) => ValueView::Signed(*x),
            Value::Boolean(b) => ValueView::Boolean(*b),
            Value::Text(t) => ValueView::Text(t@),
            Value::Bytes(b) => ValueView::Bytes(b@),
        }
    }
}

impl View for Value {
    type V = ValueView;

    open spec fn view(&self) -> ValueView {
        self.deep_view()
    }
}

impl Clone for Value {
    fn clone(&self) -> (copy: Value)
        ensures
            copy@ == self@,
    {
        match self {
            Value::Unsigned(x) => Value::Unsigned(*x),
            Value::Signed(x) => Value::Signed(*x),
            Value::Boolean(b) => Value::Boolean(*b),
            Value::Text(t) => Value::Text(t.clone()),
            Value::Bytes(b) => Value::Bytes(b.clone()),
        }
    }
}

impl NativeRepr {
    /// Whether a value belongs to the value space of the representation.
    pub open spec fn admits(self, value: ValueView) -> bool {
        match (self, value) {
            (NativeRepr::Unsigned(w), ValueView::Unsigned(x)) => x < w.limit(),
            (NativeRepr::Signed(w), ValueView::Signed(x)) => -(w.limit() / 2) <= x < w.limit() / 2,
            (NativeRepr::Boolean, ValueView::Boolean(_)) => true,
            (NativeRepr::Text, ValueView::Text(_)) => true,
            (NativeRepr::FixedBytes(n), ValueView::Bytes(b)) => b.len() == n,
            (NativeRepr::Bytes, ValueView::Bytes(_)) => true,
            _ => false,
        }
    }

    /// The value that stands for an absent one.
    pub open spec fn default_view(self) -> ValueView {
        match self {
            NativeRepr::Unsigned(_) => ValueView::Unsigned(0),
            NativeRepr::Signed(_) => ValueView::Signed(0),
            NativeRepr::Boolean => ValueView::Boolean(false),
            NativeRepr::Text => ValueView::Text(Seq::empty()),
            NativeRepr::FixedBytes(n) => ValueView::Bytes(Seq::new(n as nat, |i: int| 0u8)),
            NativeRepr::Bytes => ValueView::Bytes(Seq::empty()),
        }
    }

    /// How values of the representation are duplicated.
    pub open spec fn clone_kind(self) -> CloneStrategy {
        match self {
            NativeRepr::Text => CloneStrategy::Clone,
            NativeRepr::Bytes => CloneStrategy::Clone,
            _ => CloneStrategy::Copy,
        }
    }

    /// The canonical byte encoding of a value of the representation:
    /// integers little-endian at their width, a truth value as one byte,
    /// text as UTF-8, bytes as they are.
    pub open spec fn encoding(self, value: ValueView) -> Seq<u8> {
        match (self, value) {
            (NativeRepr::Unsigned(w), ValueView::Unsigned(x)) => le_bytes(x as nat, w.byte_count()),
            (NativeRepr::Signed(w), ValueView::Signed(x)) => le_bytes(
                signed_image(x as int, w),
                w.byte_count(),
            ),
            (NativeRepr::Boolean, ValueView::Boolean(b)) => seq![if b { 1u8 } else { 0u8 }],
            (NativeRepr::Text, ValueView::Text(t)) => encode_utf8(t),
            (NativeRepr::FixedBytes(_), ValueView::Bytes(b)) => b,
            (NativeRepr::Bytes, ValueView::Bytes(b)) => b,
            _ => Seq::empty(),
        }
    }

    /// Whether a value belongs to the value space of the representation.
    pub fn accepts(self, value: &Value) -> (ok: bool)
        ensures
            ok == self.admits(value@),
    {
        match (self, value) {
            (NativeRepr::Unsigned(w), Value::Unsigned(x)) => *x <= w.max_unsigned(),
            (NativeRepr::Signed(w), Value::Signed(x)) => w.min_signed() <= *x && *x <= w.max_signed(),
            (NativeRepr::Boolean, Value::Boolean(_)) => true,
            (NativeRepr::Text, Value::Text(_)) => true,
            (NativeRepr::FixedBytes(n), Value::Bytes(b)) => b.len() == n,
            (NativeRepr::Bytes, Value::Bytes(_)) => true,
            _ => false,
        }
    }

    /// The value that stands for an absent one.
    pub fn default_value(self) -> (value: Value)
        ensures
            value@ == self.default_view(),
            self.admits(value@),
    {
        match self {
            NativeRepr::Unsigned(_) => Value::Unsigned(0),
            NativeRepr::Signed(_) => Value::Signed(0),
            NativeRepr::Boolean => Value::Boolean(false),
            NativeRepr::Text => Value::Text(String::new()),
            NativeRepr::FixedBytes(n) => {
                let mut zeros: Vec<u8> = Vec::new();
                let mut i: usize = 0;
                while i < n
                    invariant
                        i <= n,
                        zeros@ == Seq::new(i as nat, |k: int| 0u8),
                    decreases n - i,
                {
                    zeros.push(0);
                    i += 1;
                }
                Value::Bytes(zeros)
            },
            NativeRepr::Bytes => Value::Bytes(Vec::new()),
        }
    }

    /// How values of the representation are duplicated.
    pub fn clone_strategy(self) -> (strategy: CloneStrategy)
        ensures
            strategy == self.clone_kind(),
    {
        match self {
            NativeRepr::Text => CloneStrategy::Clone,
            NativeRepr::Bytes => CloneStrategy::Clone,
            _ => CloneStrategy::Copy,
        }
    }

    /// Encodes a value of the representation into its canonical bytes.
    /// A value outside the value space has no encoding.
    pub fn encode(self, value: &Value) -> (bytes: Option<Vec<u8>>)
        ensures
            match bytes {
                Some(b) => self.admits(value@) && b@ == self.encoding(value@),
                None => !self.admits(value@),
            },
    {
        if !self.accepts(value) {
            return None;
        }
        match (self, value) {
            (NativeRepr::Unsigned(w), Value::Unsigned(x)) => Some(encode_le(*x, w.bytes())),
            (NativeRepr::Signed(w), Value::Signed(x)) => {
                let image: u128 = if *x >= 0 {
                    *x as u128
                } else {
                    w.max_unsigned() - ((-(*x + 1)) as u128)
                };
                Some(encode_le(image, w.bytes()))
            },
            (NativeRepr::Boolean, Value::Boolean(b)) => {
                let mut out: Vec<u8> = Vec::new();
                out.push(if *b { 1 } else { 0 });
                Some(out)
            },
            (NativeRepr::Text, Value::Text(t)) => Some(t.as_str().as_bytes_vec()),
            (NativeRepr::FixedBytes(_), Value::Bytes(b)) => Some(b.clone()),
            (NativeRepr::Bytes, Value::Bytes(b)) => Some(b.clone()),
            _ => None,
        }
    }
}

/// The number of values of a width is the range of its bytes.
pub proof fn lemma_limit_is_byte_range(width: Width)
    ensures
        width.limit() == byte_range(width.byte_count()),
{
    lemma_byte_range_8();
    lemma_byte_ranges();
}

/// The byte encoding is canonical: two values of one representation with
/// the same encoding are the same value.
pub proof fn lemma_encoding_injective(repr: NativeRepr, first: ValueView, second: ValueView)
    requires
        repr.admits(first),
        repr.admits(second),
        repr.encoding(first) == repr.encoding(second),
    ensures
        first == second,
{
    match (repr, first, second) {
        (NativeRepr::Unsigned(w), ValueView::Unsigned(x), ValueView::Unsigned(y)) => {
            lemma_limit_is_byte_range(w);
            lemma_le_round_trip(x as nat, w.byte_count());
            lemma_le_round_trip(y as nat, w.byte_count());
        },
        (NativeRepr::Signed(w), ValueView::Signed(x), ValueView::Signed(y)) => {
            lemma_limit_is_byte_range(w);
            lemma_le_round_trip(signed_image(x as int, w), w.byte_count());
            lemma_le_round_trip(signed_image(y as int, w), w.byte_count());
        },
        (NativeRepr::Boolean, ValueView::Boolean(a), ValueView::Boolean(b)) => {
            assert(repr.encoding(first)[0] == if a { 1u8 } else { 0u8 });
            assert(repr.encoding(second)[0] == if b { 1u8 } else { 0u8 });
        },
        (NativeRepr::Text, ValueView::Text(a), ValueView::Text(b)) => {
            lemma_utf8_injective(a, b);
        },
        _ => {},
    }
}

/// The scalar that the registry holds under a name, if any.
pub open spec fn scalar_named(name: Seq<char>) -> Option<ScalarType> {
    if name == "ID"@ {
        Some(ScalarType::Id)
    } else if name == "UInt1"@ {
        Some(ScalarType::UInt1)
    } else if name == "UInt4"@ {
        Some(ScalarType::UInt4)
    } else if name == "UInt8"@ {
        Some(ScalarType::UInt8)
    } else if name == "UInt16"@ {
        Some(ScalarType::UInt16)
    } else if name == "Int1"@ {
        Some(ScalarType::Int1)
    } else if name == "Int4"@ {
        Some(ScalarType::Int4)
    } else if name == "Int8"@ {
        Some(ScalarType::Int8)
    } else if name == "Int16"@ {
        Some(ScalarType::Int16)
    } else if name == "Boolean"@ {
        Some(ScalarType::Boolean)
    } else if name == "Charfield"@ {
        Some(ScalarType::Charfield)
    } else if name == "Json"@ {
        Some(ScalarType::Json)
    } else if name == "Bytes4"@ {
        Some(ScalarType::Bytes4)
    } else if name == "Bytes8"@ {
        Some(ScalarType::Bytes8)
    } else if name == "Bytes32"@ {
        Some(ScalarType::Bytes32)
    } else if name == "Bytes64"@ {
        Some(ScalarType::Bytes64)
    } else if name == "Address"@ {
        Some(ScalarType::Address)
    } else if name == "AssetId"@ {
        Some(ScalarType::AssetId)
    } else if name == "ContractId"@ {
        Some(ScalarType::ContractId)
    } else if name == "Salt"@ {
        Some(ScalarType::Salt)
    } else if name == "Blob"@ {
        Some(ScalarType::Blob)
    } else if name == "HexString"@ {
        Some(ScalarType::HexString)
    } else {
        None
    }
}

/// The error of [`ScalarType::resolve`]: no scalar is registered under the name.
#[derive(Debug, PartialEq, Eq)]
pub struct UnknownScalar {
    /// The name that was looked up.
    pub scalar: String,
}

impl ScalarType {
    /// The name under which the scalar is registered.
    pub open spec fn name_view(self) -> Seq<char> {
        match self {
            ScalarType::Id => "ID"@,
            ScalarType::UInt1 => "UInt1"@,
            ScalarType::UInt4 => "UInt4"@,
            ScalarType::UInt8 => "UInt8"@,
            ScalarType::UInt16 => "UInt16"@,
            ScalarType::Int1 => "Int1"@,
            ScalarType::Int4 => "Int4"@,
            ScalarType::Int8 => "Int8"@,
            ScalarType::Int16 => "Int16"@,
            ScalarType::Boolean => "Boolean"@,
            ScalarType::Charfield => "Charfield"@,
            ScalarType::Json => "Json"@,
            ScalarType::Bytes4 => "Bytes4"@,
            ScalarType::Bytes8 => "Bytes8"@,
            ScalarType::Bytes32 => "Bytes32"@,
            ScalarType::Bytes64 => "Bytes64"@,
            ScalarType::Address => "Address"@,
            ScalarType::AssetId => "AssetId"@,
            ScalarType::ContractId => "ContractId"@,
            ScalarType::Salt => "Salt"@,
            ScalarType::Blob => "Blob"@,
            ScalarType::HexString => "HexString"@,
        }
    }

    /// The native representation of the scalar's values.
    pub open spec fn repr(self) -> NativeRepr {
        match self {
            ScalarType::Id => NativeRepr::Unsigned(Width::W8),
            ScalarType::UInt1 => NativeRepr::Unsigned(Width::W1),
            ScalarType::UInt4 => NativeRepr::Unsigned(Width::W4),
            ScalarType::UInt8 => NativeRepr::Unsigned(Width::W8),
            ScalarType::UInt16 => NativeRepr::Unsigned(Width::W16),
            ScalarType::Int1 => NativeRepr::Signed(Width::W1),
            ScalarType::Int4 => NativeRepr::Signed(Width::W4),
            ScalarType::Int8 => NativeRepr::Signed(Width::W8),
            ScalarType::Int16 => NativeRepr::Signed(Width::W16),
            ScalarType::Boolean => NativeRepr::Boolean,
            ScalarType::Charfield => NativeRepr::Text,
            ScalarType::Json => NativeRepr::Text,
            ScalarType::Bytes4 => NativeRepr::FixedBytes(4),
            ScalarType::Bytes8 => NativeRepr::FixedBytes(8),
            ScalarType::Bytes32 => NativeRepr::FixedBytes(32),
            ScalarType::Bytes64 => NativeRepr::FixedBytes(64),
            ScalarType::Address => NativeRepr::FixedBytes(32),
            ScalarType::AssetId => NativeRepr::FixedBytes(32),
            ScalarType::ContractId => NativeRepr::FixedBytes(32),
            ScalarType::Salt => NativeRepr::FixedBytes(32),
            ScalarType::Blob => NativeRepr::Bytes,
            ScalarType::HexString => NativeRepr::Bytes,
        }
    }

    /// Looks a scalar up by its name in the schema language.
    pub fn resolve(name: &str) -> (found: Result<ScalarType, UnknownScalar>)
        ensures
            match found {
                Ok(scalar) => scalar_named(name@) == Some(scalar),
                Err(e) => scalar_named(name@) is None && e.scalar@ == name@,
            },
    {
        if str_eq(name, "ID") {
            return Ok(ScalarType::Id);
        }
        if str_eq(name, "UInt1") {
            return Ok(ScalarType::UInt1);
        }
        if str_eq(name, "UInt4") {
            return Ok(ScalarType::UInt4);
        }
        if str_eq(name, "UInt8") {
            return Ok(ScalarType::UInt8);
        }
        if str_eq(name, "UInt16") {
            return Ok(ScalarType::UInt16);
        }
        if str_eq(name, "Int1") {
            return Ok(ScalarType::Int1);
        }
        if str_eq(name, "Int4") {
            return Ok(ScalarType::Int4);
        }
        if str_eq(name, "Int8") {
            return Ok(ScalarType::Int8);
        }
        if str_eq(name, "Int16") {
            return Ok(ScalarType::Int16);
        }
        if str_eq(name, "Boolean") {
            return Ok(ScalarType::Boolean);
        }
        if str_eq(name, "Charfield") {
            return Ok(ScalarType::Charfield);
        }
        if str_eq(name, "Json") {
            return Ok(ScalarType::Json);
        }
        if str_eq(name, "Bytes4") {
            return Ok(ScalarType::Bytes4);
        }
        if str_eq(name, "Bytes8") {
            return Ok(ScalarType::Bytes8);
        }
        if str_eq(name, "Bytes32") {
            return Ok(ScalarType::Bytes32);
        }
        if str_eq(name, "Bytes64") {
            return Ok(ScalarType::Bytes64);
        }
        if str_eq(name, "Address") {
            return Ok(ScalarType::Address);
        }
        if str_eq(name, "AssetId") {
            return Ok(ScalarType::AssetId);
        }
        if str_eq(name, "ContractId") {
            return Ok(ScalarType::ContractId);
        }
        if str_eq(name, "Salt") {
            return Ok(ScalarType::Salt);
        }
        if str_eq(name, "Blob") {
            return Ok(ScalarType::Blob);
        }
        if str_eq(name, "HexString") {
            return Ok(ScalarType::HexString);
        }
        Err(UnknownScalar { scalar: String::from_str(name) })
    }

    /// The name under which the scalar is registered.
    pub fn name(self) -> (name: &'static str)
        ensures
            name@ == self.name_view(),
    {
        match self {
            ScalarType::Id => "ID",
            ScalarType::UInt1 => "UInt1",
            ScalarType::UInt4 => "UInt4",
            ScalarType::UInt8 => "UInt8",
            ScalarType::UInt16 => "UInt16",
            ScalarType::Int1 => "Int1",
            ScalarType::Int4 => "Int4",
            ScalarType::Int8 => "Int8",
            ScalarType::Int16 => "Int16",
            ScalarType::Boolean => "Boolean",
            ScalarType::Charfield => "Charfield",
            ScalarType::Json => "Json",
            ScalarType::Bytes4 => "Bytes4",
            ScalarType::Bytes8 => "Bytes8",
            ScalarType::Bytes32 => "Bytes32",
            ScalarType::Bytes64 => "Bytes64",
            ScalarType::Address => "Address",
            ScalarType::AssetId => "AssetId",
            ScalarType::ContractId => "ContractId",
            ScalarType::Salt => "Salt",
            ScalarType::Blob => "Blob",
            ScalarType::HexString => "HexString",
        }
    }

    /// The native representation of the scalar's values.
    pub fn native_repr(self) -> (repr: NativeRepr)
        ensures
            repr == self.repr(),
    {
        match self {
            ScalarType::Id => NativeRepr::Unsigned(Width::W8),
            ScalarType::UInt1 => NativeRepr::Unsigned(Width::W1),
            ScalarType::UInt4 => NativeRepr::Unsigned(Width::W4),
            ScalarType::UInt8 => NativeRepr::Unsigned(Width::W8),
            ScalarType::UInt16 => NativeRepr::Unsigned(Width::W16),
            ScalarType::Int1 => NativeRepr::Signed(Width::W1),
            ScalarType::Int4 => NativeRepr::Signed(Width::W4),
            ScalarType::Int8 => NativeRepr::Signed(Width::W8),
            ScalarType::Int16 => NativeRepr::Signed(Width::W16),
            ScalarType::Boolean => NativeRepr::Boolean,
            ScalarType::Charfield => NativeRepr::Text,
            ScalarType::Json => NativeRepr::Text,
            ScalarType::Bytes4 => NativeRepr::FixedBytes(4),
            ScalarType::Bytes8 => NativeRepr::FixedBytes(8),
            ScalarType::Bytes32 => NativeRepr::FixedBytes(32),
            ScalarType::Bytes64 => NativeRepr::FixedBytes(64),
            ScalarType::Address => NativeRepr::FixedBytes(32),
            ScalarType::AssetId => NativeRepr::FixedBytes(32),
            ScalarType::ContractId => NativeRepr::FixedBytes(32),
            ScalarType::Salt => NativeRepr::FixedBytes(32),
            ScalarType::Blob => NativeRepr::Bytes,
            ScalarType::HexString => NativeRepr::Bytes,
        }
    }
}

impl ScalarType {
    /// How values of the scalar are duplicated.
    pub fn clone_strategy(self) -> (strategy: CloneStrategy)
        ensures
            strategy == self.repr().clone_kind(),
    {
        self.native_repr().clone_strategy()
    }

    /// The value that stands for an absent value of the scalar.
    pub fn default_value(self) -> (value: Value)
        ensures
            value@ == self.repr().default_view(),
            self.repr().admits(value@),
    {
        self.native_repr().default_value()
    }

    /// Encodes a value of the scalar into its canonical bytes. A value
    /// outside the scalar's value space has no encoding.
    pub fn encode(self, value: &Value) -> (bytes: Option<Vec<u8>>)
        ensures
            match bytes {
                Some(b) => self.repr().admits(value@) && b@ == self.repr().encoding(value@),
                None => !self.repr().admits(value@),
            },
    {
        self.native_repr().encode(value)
    }
}

/// Every scalar is found again under its own name.
pub proof fn lemma_name_resolves(scalar: ScalarType)
    ensures
        scalar_named(scalar.name_view()) == Some(scalar),
{
    reveal_strlit("ID");
    reveal_strlit("UInt1");
    reveal_strlit("UInt4");
    reveal_strlit("UInt8");
    reveal_strlit("UInt16");
    reveal_strlit("Int1");
    reveal_strlit("Int4");
    reveal_strlit("Int8");
    reveal_strlit("Int16");
    reveal_strlit("Boolean");
    reveal_strlit("Charfield");
    reveal_strlit("Json");
    reveal_strlit("Bytes4");
    reveal_strlit("Bytes8");
    reveal_strlit("Bytes32");
    reveal_strlit("Bytes64");
    reveal_strlit("Address");
    reveal_strlit("AssetId");
    reveal_strlit("ContractId");
    reveal_strlit("Salt");
    reveal_strlit("Blob");
    reveal_strlit("HexString");
    // Names differ in their length or in their last character.
    assert("UInt1"@.len() == 5 && "UInt1"@[4] == '1');
    assert("UInt4"@.len() == 5 && "UInt4"@[4] == '4');
    assert("UInt8"@.len() == 5 && "UInt8"@[4] == '8');
    assert("UInt16"@.len() == 6 && "UInt16"@[5] == '6');
    assert("Int1"@.len() == 4 && "Int1"@[3] == '1');
    assert("Int4"@.len() == 4 && "Int4"@[3] == '4');
    assert("Int8"@.len() == 4 && "Int8"@[3] == '8');
    assert("Int16"@.len() == 5 && "Int16"@[4] == '6');
    assert("Boolean"@.len() == 7 && "Boolean"@[6] == 'n');
    assert("Charfield"@.len() == 9 && "Charfield"@[8] == 'd');
    assert("Json"@.len() == 4 && "Json"@[3] == 'n');
    assert("Bytes4"@.len() == 6 && "Bytes4"@[5] == '4');
    assert("Bytes8"@.len() == 6 && "Bytes8"@[5] == '8');
    assert("Bytes32"@.len() == 7 && "Bytes32"@[6] == '2');
    assert("Bytes64"@.len() == 7 && "Bytes64"@[6] == '4');
    assert("Address"@.len() == 7 && "Address"@[6] == 's');
    assert("AssetId"@.len() == 7 && "AssetId"@[6] == 'd');
    assert("ContractId"@.len() == 10 && "ContractId"@[9] == 'd');
    assert("Salt"@.len() == 4 && "Salt"@[3] == 't');
    assert("Blob"@.len() == 4 && "Blob"@[3] == 'b');
    assert("HexString"@.len() == 9 && "HexString"@[8] == 'g');
}

} // verus!
