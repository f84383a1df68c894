//! The typed value model: the nine supported scalar/blob kinds, their
//! construction from native values and their fallible extraction back.
//!
//! Float payloads are carried as their IEEE-754 bit patterns (`u32`/`u64`),
//! which is exactly what the binary format stores for them.

use crate::error::Error;
use vstd::prelude::*;
use vstd::slice::slice_to_vec;

verus! {

/// The kind of value held by a [`DataType`]; also the unit of the
/// serialization tag byte and the payload of a conversion error.
#[derive(Clone, Copy, PartialEq, Eq, Structural, Debug)]
pub enum DataKind {
    BOOL,
    INT8,
    INT16,
    INT32,
    INT64,
    FLOAT32,
    FLOAT64,
    STRING,
    BYTES,
}

/// The mathematical value of a [`DataType`]: the same nine kinds over
/// `Seq`-based payloads.  Contracts and the codec specification speak of
/// these values.
pub enum DataValue {
    Bool(bool),
    Int8(i8),
    Int16(i16),
    Int32(i32),
    Int64(i64),
    Float32(u32),
    Float64(u64),
    Text(Seq<char>),
    Bytes(Seq<u8>),
}

/// A union for all the types supported by smolldb.
///
/// Supported types are:
/// * `bool`
/// * `i8`, `i16`, `i32`, `i64`
/// * 32-bit and 64-bit IEEE-754 floats, held as their bit patterns
/// * `String`
/// * `Vec<u8>`
#[derive(Debug)]
pub enum DataType {
    BOOL(bool),
    INT8(i8),
    INT16(i16),
    INT32(i32),
    INT64(i64),
    FLOAT32(u32),
    FLOAT64(u64),
    STRING(String),
    BYTES(Vec<u8>),
}

impl View for DataType {
    type V = DataValue;

    open spec fn view(&self) -> DataValue {
        match self {
            DataType::BOOL(b) => DataValue::Bool(*b),
            DataType::INT8(x) => DataValue::Int8(*x),
            DataType::INT16(x) => DataValue::Int16(*x),
            DataType::INT32(x) => DataValue::Int32(*x),
            DataType::INT64(x) => DataValue::Int64(*x),
            DataType::FLOAT32(x) => DataValue::Float32(*x),
            DataType::FLOAT64(x) => DataValue::Float64(*x),
            DataType::STRING(s) => DataValue::Text(s@),
            DataType::BYTES(v) => DataValue::Bytes(v@),
        }
    }
}

/// The kind of a mathematical value.
pub open spec fn value_kind(v: DataValue) -> DataKind {
    match v {
        DataValue::Bool(_) => DataKind::BOOL,
        DataValue::Int8(_) => DataKind::INT8,
        DataValue::Int16(_) => DataKind::INT16,
        DataValue::Int32(_) => DataKind::INT32,
        DataValue::Int64(_) => DataKind::INT64,
        DataValue::Float32(_) => DataKind::FLOAT32,
        DataValue::Float64(_) => DataKind::FLOAT64,
        DataValue::Text(_) => DataKind::STRING,
        DataValue::Bytes(_) => DataKind::BYTES,
    }
}

/// The stable one-byte serialization tag of each kind.  These values are
/// part of the on-disk format contract and must never be renumbered.
pub open spec fn kind_tag(k: DataKind) -> u8 {
    match k {
        DataKind::BOOL => 0,
        DataKind::INT8 => 1,
        DataKind::INT16 => 2,
        DataKind::INT32 => 3,
        DataKind::INT64 => 4,
        DataKind::FLOAT32 => 5,
        DataKind::FLOAT64 => 6,
        DataKind::STRING => 7,
        DataKind::BYTES => 8,
    }
}

impl DataType {
    /// The kind of the value currently stored.
    pub open spec fn spec_kind(&self) -> DataKind {
        value_kind(self@)
    }

    /// Returns the kind of the value currently stored.
    pub fn kind(&self) -> (k: DataKind)
        ensures
            k == self.spec_kind(),
    {
        match self {
            DataType::BOOL(_) => DataKind::BOOL,
            DataType::INT8(_) => DataKind::INT8,
            DataType::INT16(_) => DataKind::INT16,
            DataType::INT32(_) => DataKind::INT32,
            DataType::INT64(_) => DataKind::INT64,
            DataType::FLOAT32(_) => DataKind::FLOAT32,
            DataType::FLOAT64(_) => DataKind::FLOAT64,
            DataType::STRING(_) => DataKind::STRING,
            DataType::BYTES(_) => DataKind::BYTES,
        }
    }

    /// Returns the tag byte of the current variant, used by the encoding
    /// step.
    pub fn id(&self) -> (t: u8)
        ensures
            t == kind_tag(self.spec_kind()),
    {
        match self {
            DataType::BOOL(_) => 0,
            DataType::INT8(_) => 1,
            DataType::INT16(_) => 2,
            DataType::INT32(_) => 3,
            DataType::INT64(_) => 4,
            DataType::FLOAT32(_) => 5,
            DataType::FLOAT64(_) => 6,
            DataType::STRING(_) => 7,
            DataType::BYTES(_) => 8,
        }
    }
}

impl Clone for DataType {
    /// Cloning keeps the mathematical value.
    fn clone(&self) -> (r: Self)
        ensures
            r@ == self@,
    {
        match self {
            DataType::BOOL(b) => DataType::BOOL(*b),
            DataType::INT8(x) => DataType::INT8(*x),
            DataType::INT16(x) => DataType::INT16(*x),
            DataType::INT32(x) => DataType::INT32(*x),
            DataType::INT64(x) => DataType::INT64(*x),
            DataType::FLOAT32(x) => DataType::FLOAT32(*x),
            DataType::FLOAT64(x) => DataType::FLOAT64(*x),
            DataType::STRING(s) => DataType::STRING(s.clone()),
            DataType::BYTES(v) => DataType::BYTES(slice_to_vec(v.as_slice())),
        }
    }
}

/// Compares two byte vectors by contents.
pub fn bytes_eq(a: &Vec<u8>, b: &Vec<u8>) -> (r: bool)
    ensures
        r == (a@ == b@),
{
    if a.len() != b.len() {
        return false;
    }
    let n = a.len();
    let mut i: usize = 0;
    while i < n
        invariant
            n == a@.len() == b@.len(),
            0 <= i <= n,
            forall|j: int| 0 <= j < i ==> a@[j] == b@[j],
        decreases n - i,
    {
        if a[i] != b[i] {
            return false;
        }
        i += 1;
    }
    proof {
        assert(a@ =~= b@);
    }
    true
}

impl PartialEq for DataType {
    /// Equality is structural and variant-exact: values of different kinds
    /// are never equal, and float payloads compare by bit pattern.
    fn eq(&self, other: &Self) -> (r: bool)
        ensures
            r == (self@ == other@),
    {
        match (self, other) {
            (DataType::BOOL(a), DataType::BOOL(b)) => *a == *b,
            (DataType::INT8(a), DataType::INT8(b)) => *a == *b,
            (DataType::INT16(a), DataType::INT16(b)) => *a == *b,
            (DataType::INT32(a), DataType::INT32(b)) => *a == *b,
            (DataType::INT64(a), DataType::INT64(b)) => *a == *b,
            (DataType::FLOAT32(a), DataType::FLOAT32(b)) => *a == *b,
            (DataType::FLOAT64(a), DataType::FLOAT64(b)) => *a == *b,
            (DataType::STRING(a), DataType::STRING(b)) => *a == *b,
            (DataType::BYTES(a), DataType::BYTES(b)) => bytes_eq(a, b),
            (_, _) => false,
        }
    }
}

impl vstd::std_specs::cmp::PartialEqSpecImpl for DataType {
    open spec fn obeys_eq_spec() -> bool {
        true
    }

    open spec fn eq_spec(&self, other: &Self) -> bool {
        self@ == other@
    }
}


// Construction of a `DataType` from each native value is total: these
// `From` impls carry exact contracts through `FromSpecImpl`.
impl From<bool> for DataType {
    fn from(value: bool) -> (r: Self)
        ensures
            r == DataType::BOOL(value),
    {
        DataType::BOOL(value)
    }
}

impl vstd::std_specs::convert::FromSpecImpl<bool> for DataType {
    open spec fn obeys_from_spec() -> bool {
        true
    }

    open spec fn from_spec(v: bool) -> DataType {
        DataType::BOOL(v)
    }
}

impl From<i8> for DataType {
    fn from(value: i8) -> (r: Self)
        ensures
            r == DataType::INT8(value),
    {
        DataType::INT8(value)
    }
}

impl vstd::std_specs::convert::FromSpecImpl<i8> for DataType {
    open spec fn obeys_from_spec() -> bool {
        true
    }

    open spec fn from_spec(v: i8) -> DataType {
        DataType::INT8(v)
    }
}

impl From<i16> for DataType {
    fn from(value: i16) -> (r: Self)
        ensures
            r == DataType::INT16(value),
    {
        DataType::INT16(value)
    }
}

impl vstd::std_specs::convert::FromSpecImpl<i16> for DataType {
    open spec fn obeys_from_spec() -> bool {
        true
    }

    open spec fn from_spec(v: i16) -> DataType {
        DataType::INT16(v)
    }
}

impl From<i32> for DataType {
    fn from(value: i32) -> (r: Self)
        ensures
            r == DataType::INT32(value),
    {
        DataType::INT32(value)
    }
}

impl vstd::std_specs::convert::FromSpecImpl<i32> for DataType {
    open spec fn obeys_from_spec() -> bool {
        true
    }

    open spec fn from_spec(v: i32) -> DataType {
        DataType::INT32(v)
    }
}

impl From<i64> for DataType {
    fn from(value: i64) -> (r: Self)
        ensures
            r == DataType::INT64(value),
    {
        DataType::INT64(value)
    }
}

impl vstd::std_specs::convert::FromSpecImpl<i64> for DataType {
    open spec fn obeys_from_spec() -> bool {
        true
    }

    open spec fn from_spec(v: i64) -> DataType {
        DataType::INT64(v)
    }
}

impl From<String> for DataType {
    fn from(value: String) -> (r: Self)
        ensures
            r == DataType::STRING(value),
    {
        DataType::STRING(value)
    }
}

impl vstd::std_specs::convert::FromSpecImpl<String> for DataType {
    open spec fn obeys_from_spec() -> bool {
        true
    }

    open spec fn from_spec(v: String) -> DataType {
        DataType::STRING(v)
    }
}

impl From<Vec<u8>> for DataType {
    fn from(value: Vec<u8>) -> (r: Self)
        ensures
            r == DataType::BYTES(value),
    {
        DataType::BYTES(value)
    }
}

impl vstd::std_specs::convert::FromSpecImpl<Vec<u8>> for DataType {
    open spec fn obeys_from_spec() -> bool {
        true
    }

    open spec fn from_spec(v: Vec<u8>) -> DataType {
        DataType::BYTES(v)
    }
}

// Extraction back to a native value succeeds exactly when the stored
// variant matches the requested type; otherwise it reports the kind
// actually stored.  The exact behaviour is stated as impl-level `ensures`
// (reachable through `call_ensures` at the caller), so the uninterpreted
// trait-level spec is left unobeyed.

impl TryFrom<&DataType> for bool {
    type Error = Error;

    fn try_from(value: &DataType) -> (r: Result<bool, Error>)
        ensures
            value is BOOL ==> r == Ok::<bool, Error>(value->BOOL_0),
            !(value is BOOL) ==> r == Err::<bool, Error>(
                Error::ConversionError(value.spec_kind()),
            ),
    {
        match value {
            DataType::BOOL(inner) => Ok(*inner),
            _ => Err(Error::ConversionError(value.kind())),
        }
    }
}

impl vstd::std_specs::convert::TryFromSpecImpl<&DataType> for bool {
    open spec fn obeys_try_from_spec() -> bool {
        false
    }

    open spec fn try_from_spec(v: &DataType) -> Result<Self, Error> {
        arbitrary()
    }
}

impl TryFrom<&DataType> for i8 {
    type Error = Error;

    fn try_from(value: &DataType) -> (r: Result<i8, Error>)
        ensures
            value is INT8 ==> r == Ok::<i8, Error>(value->INT8_0),
            !(value is INT8) ==> r == Err::<i8, Error>(
                Error::ConversionError(value.spec_kind()),
            ),
    {
        match value {
            DataType::INT8(inner) => Ok(*inner),
            _ => Err(Error::ConversionError(value.kind())),
        }
    }
}

impl vstd::std_specs::convert::TryFromSpecImpl<&DataType> for i8 {
    open spec fn obeys_try_from_spec() -> bool {
        false
    }

    open spec fn try_from_spec(v: &DataType) -> Result<Self, Error> {
        arbitrary()
    }
}

impl TryFrom<&DataType> for i16 {
    type Error = Error;

    fn try_from(value: &DataType) -> (r: Result<i16, Error>)
        ensures
            value is INT16 ==> r == Ok::<i16, Error>(value->INT16_0),
            !(value is INT16) ==> r == Err::<i16, Error>(
                Error::ConversionError(value.spec_kind()),
            ),
    {
        match value {
            DataType::INT16(inner) => Ok(*inner),
            _ => Err(Error::ConversionError(value.kind())),
        }
    }
}

impl vstd::std_specs::convert::TryFromSpecImpl<&DataType> for i16 {
    open spec fn obeys_try_from_spec() -> bool {
        false
    }

    open spec fn try_from_spec(v: &DataType) -> Result<Self, Error> {
        arbitrary()
    }
}

impl TryFrom<&DataType> for i32 {
    type Error = Error;

    fn try_from(value: &DataType) -> (r: Result<i32, Error>)
        ensures
            value is INT32 ==> r == Ok::<i32, Error>(value->INT32_0),
            !(value is INT32) ==> r == Err::<i32, Error>(
                Error::ConversionError(value.spec_kind()),
            ),
    {
        match value {
            DataType::INT32(inner) => Ok(*inner),
            _ => Err(Error::ConversionError(value.kind())),
        }
    }
}

impl vstd::std_specs::convert::TryFromSpecImpl<&DataType> for i32 {
    open spec fn obeys_try_from_spec() -> bool {
        false
    }

    open spec fn try_from_spec(v: &DataType) -> Result<Self, Error> {
        arbitrary()
    }
}

impl TryFrom<&DataType> for i64 {
    type Error = Error;

    fn try_from(value: &DataType) -> (r: Result<i64, Error>)
        ensures
            value is INT64 ==> r == Ok::<i64, Error>(value->INT64_0),
            !(value is INT64) ==> r == Err::<i64, Error>(
                Error::ConversionError(value.spec_kind()),
            ),
    {
        match value {
            DataType::INT64(inner) => Ok(*inner),
            _ => Err(Error::ConversionError(value.kind())),
        }
    }
}

impl vstd::std_specs::convert::TryFromSpecImpl<&DataType> for i64 {
    open spec fn obeys_try_from_spec() -> bool {
        false
    }

    open spec fn try_from_spec(v: &DataType) -> Result<Self, Error> {
        arbitrary()
    }
}

impl TryFrom<&DataType> for String {
    type Error = Error;

    fn try_from(value: &DataType) -> (r: Result<String, Error>)
        ensures
            value is STRING ==> (r matches Ok(s) && s == value->STRING_0),
            !(value is STRING) ==> r == Err::<String, Error>(
                Error::ConversionError(value.spec_kind()),
            ),
    {
        match value {
            DataType::STRING(inner) => Ok(inner.clone()),
            _ => Err(Error::ConversionError(value.kind())),
        }
    }
}

impl vstd::std_specs::convert::TryFromSpecImpl<&DataType> for String {
    open spec fn obeys_try_from_spec() -> bool {
        false
    }

    open spec fn try_from_spec(v: &DataType) -> Result<Self, Error> {
        arbitrary()
    }
}

impl TryFrom<&DataType> for Vec<u8> {
    type Error = Error;

    fn try_from(value: &DataType) -> (r: Result<Vec<u8>, Error>)
        ensures
            value is BYTES ==> (r matches Ok(w) && w@ == value->BYTES_0@),
            !(value is BYTES) ==> r == Err::<Vec<u8>, Error>(
                Error::ConversionError(value.spec_kind()),
            ),
    {
        match value {
            DataType::BYTES(inner) => Ok(slice_to_vec(inner.as_slice())),
            _ => Err(Error::ConversionError(value.kind())),
        }
    }
}

impl vstd::std_specs::convert::TryFromSpecImpl<&DataType> for Vec<u8> {
    open spec fn obeys_try_from_spec() -> bool {
        false
    }

    open spec fn try_from_spec(v: &DataType) -> Result<Self, Error> {
        arbitrary()
    }
}

impl<'c> TryFrom<&'c DataType> for &'c bool {
    type Error = Error;

    fn try_from(value: &'c DataType) -> (r: Result<&'c bool, Error>)
        ensures
            value is BOOL ==> (r matches Ok(b) && *b == value->BOOL_0),
            !(value is BOOL) ==> r == Err::<&'c bool, Error>(
                Error::ConversionError(value.spec_kind()),
            ),
    {
        match value {
            DataType::BOOL(inner) => Ok(inner),
            _ => Err(Error::ConversionError(value.kind())),
        }
    }
}

impl<'c> vstd::std_specs::convert::TryFromSpecImpl<&'c DataType> for &'c bool {
    open spec fn obeys_try_from_spec() -> bool {
        false
    }

    open spec fn try_from_spec(v: &'c DataType) -> Result<Self, Error> {
        arbitrary()
    }
}

impl<'c> TryFrom<&'c DataType> for &'c i8 {
    type Error = Error;

    fn try_from(value: &'c DataType) -> (r: Result<&'c i8, Error>)
        ensures
            value is INT8 ==> (r matches Ok(b) && *b == value->INT8_0),
            !(value is INT8) ==> r == Err::<&'c i8, Error>(
                Error::ConversionError(value.spec_kind()),
            ),
    {
        match value {
            DataType::INT8(inner) => Ok(inner),
            _ => Err(Error::ConversionError(value.kind())),
        }
    }
}

impl<'c> vstd::std_specs::convert::TryFromSpecImpl<&'c DataType> for &'c i8 {
    open spec fn obeys_try_from_spec() -> bool {
        false
    }

    open spec fn try_from_spec(v: &'c DataType) -> Result<Self, Error> {
        arbitrary()
    }
}

impl<'c> TryFrom<&'c DataType> for &'c i16 {
    type Error = Error;

    fn try_from(value: &'c DataType) -> (r: Result<&'c i16, Error>)
        ensures
            value is INT16 ==> (r matches Ok(b) && *b == value->INT16_0),
            !(value is INT16) ==> r == Err::<&'c i16, Error>(
                Error::ConversionError(value.spec_kind()),
            ),
    {
        match value {
            DataType::INT16(inner) => Ok(inner),
            _ => Err(Error::ConversionError(value.kind())),
        }
    }
}

impl<'c> vstd::std_specs::convert::TryFromSpecImpl<&'c DataType> for &'c i16 {
    open spec fn obeys_try_from_spec() -> bool {
        false
    }

    open spec fn try_from_spec(v: &'c DataType) -> Result<Self, Error> {
        arbitrary()
    }
}

impl<'c> TryFrom<&'c DataType> for &'c i32 {
    type Error = Error;

    fn try_from(value: &'c DataType) -> (r: Result<&'c i32, Error>)
        ensures
            value is INT32 ==> (r matches Ok(b) && *b == value->INT32_0),
            !(value is INT32) ==> r == Err::<&'c i32, Error>(
                Error::ConversionError(value.spec_kind()),
            ),
    {
        match value {
            DataType::INT32(inner) => Ok(inner),
            _ => Err(Error::ConversionError(value.kind())),
        }
    }
}

impl<'c> vstd::std_specs::convert::TryFromSpecImpl<&'c DataType> for &'c i32 {
    open spec fn obeys_try_from_spec() -> bool {
        false
    }

    open spec fn try_from_spec(v: &'c DataType) -> Result<Self, Error> {
        arbitrary()
    }
}

impl<'c> TryFrom<&'c DataType> for &'c i64 {
    type Error = Error;

    fn try_from(value: &'c DataType) -> (r: Result<&'c i64, Error>)
        ensures
            value is INT64 ==> (r matches Ok(b) && *b == value->INT64_0),
            !(value is INT64) ==> r == Err::<&'c i64, Error>(
                Error::ConversionError(value.spec_kind()),
            ),
    {
        match value {
            DataType::INT64(inner) => Ok(inner),
            _ => Err(Error::ConversionError(value.kind())),
        }
    }
}

impl<'c> vstd::std_specs::convert::TryFromSpecImpl<&'c DataType> for &'c i64 {
    open spec fn obeys_try_from_spec() -> bool {
        false
    }

    open spec fn try_from_spec(v: &'c DataType) -> Result<Self, Error> {
        arbitrary()
    }
}

impl<'c> TryFrom<&'c DataType> for &'c String {
    type Error = Error;

    fn try_from(value: &'c DataType) -> (r: Result<&'c String, Error>)
        ensures
            value is STRING ==> (r matches Ok(b) && *b == value->STRING_0),
            !(value is STRING) ==> r == Err::<&'c String, Error>(
                Error::ConversionError(value.spec_kind()),
            ),
    {
        match value {
            DataType::STRING(inner) => Ok(inner),
            _ => Err(Error::ConversionError(value.kind())),
        }
    }
}

impl<'c> vstd::std_specs::convert::TryFromSpecImpl<&'c DataType> for &'c String {
    open spec fn obeys_try_from_spec() -> bool {
        false
    }

    open spec fn try_from_spec(v: &'c DataType) -> Result<Self, Error> {
        arbitrary()
    }
}

impl<'c> TryFrom<&'c DataType> for &'c Vec<u8> {
    type Error = Error;

    fn try_from(value: &'c DataType) -> (r: Result<&'c Vec<u8>, Error>)
        ensures
            value is BYTES ==> (r matches Ok(b) && *b == value->BYTES_0),
            !(value is BYTES) ==> r == Err::<&'c Vec<u8>, Error>(
                Error::ConversionError(value.spec_kind()),
            ),
    {
        match value {
            DataType::BYTES(inner) => Ok(inner),
            _ => Err(Error::ConversionError(value.kind())),
        }
    }
}

impl<'c> vstd::std_specs::convert::TryFromSpecImpl<&'c DataType> for &'c Vec<u8> {
    open spec fn obeys_try_from_spec() -> bool {
        false
    }

    open spec fn try_from_spec(v: &'c DataType) -> Result<Self, Error> {
        arbitrary()
    }
}

} // verus!
