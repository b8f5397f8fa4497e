//! The canonical untyped value representation and the typed conversions
//! that bridge native record fields and untyped values.

use vstd::prelude::*;

verus! {

/// Identifier of one stored row, unique per table and assigned by the
/// backend on insertion.
#[derive(Clone, Copy, PartialEq, Eq, Hash, Debug, Structural)]
pub struct ObjectId(i64);

impl ObjectId {
    /// The integer behind the identifier, for use in specifications.
    pub closed spec fn value(self) -> i64 {
        self.0
    }

    pub fn new(id: i64) -> (r: Self)
        ensures
            r.value() == id,
    {
        ObjectId(id)
    }

    pub fn into_i64(self) -> (r: i64)
        ensures
            r == self.value(),
    {
        self.0
    }

    /// Identifiers are nothing but their integer: equal integers mean
    /// equal identifiers.
    pub proof fn lemma_value_injective(a: ObjectId, b: ObjectId)
        ensures
            (a == b) <==> (a.value() == b.value()),
    {
    }
}

/// The declared type of one column of a record descriptor.
#[derive(Clone, Copy, PartialEq, Eq, Debug, Structural)]
pub enum DataType {
    String,
    Bytes,
    Int64,
    Float64,
    Bool,
}

impl DataType {
    /// Diagnostic name of the type, as it appears in error reports.
    pub fn name(&self) -> (r: &'static str)
        ensures
            *self == DataType::String ==> r@ == "String"@,
            *self == DataType::Bytes ==> r@ == "Bytes"@,
            *self == DataType::Int64 ==> r@ == "Int64"@,
            *self == DataType::Float64 ==> r@ == "Float64"@,
            *self == DataType::Bool ==> r@ == "Bool"@,
    {
        match self {
            DataType::String => "String",
            DataType::Bytes => "Bytes",
            DataType::Int64 => "Int64",
            DataType::Float64 => "Float64",
            DataType::Bool => "Bool",
        }
    }
}

/// Maps a native type to the declared column type a descriptor records
/// for a field of that type.
pub trait DetectDataType {
    /// The declared column type, at the specification level.
    spec fn spec_data_type() -> DataType;

    fn data_type() -> (dt: DataType)
        ensures
            dt == Self::spec_data_type(),
    ;
}

impl DetectDataType for String {
    open spec fn spec_data_type() -> DataType {
        DataType::String
    }

    fn data_type() -> DataType {
        DataType::String
    }
}

impl DetectDataType for Vec<u8> {
    open spec fn spec_data_type() -> DataType {
        DataType::Bytes
    }

    fn data_type() -> DataType {
        DataType::Bytes
    }
}

impl DetectDataType for i64 {
    open spec fn spec_data_type() -> DataType {
        DataType::Int64
    }

    fn data_type() -> DataType {
        DataType::Int64
    }
}

impl DetectDataType for bool {
    open spec fn spec_data_type() -> DataType {
        DataType::Bool
    }

    fn data_type() -> DataType {
        DataType::Bool
    }
}

/// An untyped tagged value, the only form in which record data crosses
/// the row execution layer boundary.
///
/// A floating-point value is carried by its IEEE 754 bit pattern; the
/// backend boundary converts between the bits and the stored real number.
#[derive(Clone, Debug)]
pub enum Value {
    String(String),
    Bytes(Vec<u8>),
    Int64(i64),
    Float64(u64),
    Bool(bool),
}

/// The mathematical model of a [`Value`]: the same tags over abstract
/// sequences and integers.
pub enum ValueModel {
    VString(Seq<char>),
    VBytes(Seq<u8>),
    VInt64(i64),
    VFloat64(u64),
    VBool(bool),
}

impl View for Value {
    type V = ValueModel;

    open spec fn view(&self) -> ValueModel {
        match self {
            Value::String(s) => ValueModel::VString(s@),
            Value::Bytes(b) => ValueModel::VBytes(b@),
            Value::Int64(i) => ValueModel::VInt64(*i),
            Value::Float64(f) => ValueModel::VFloat64(*f),
            Value::Bool(b) => ValueModel::VBool(*b),
        }
    }
}

impl DeepView for Value {
    type V = ValueModel;

    open spec fn deep_view(&self) -> ValueModel {
        self.view()
    }
}

impl ValueModel {
    /// The type tag a modelled value carries.
    pub open spec fn data_type(self) -> DataType {
        match self {
            ValueModel::VString(_) => DataType::String,
            ValueModel::VBytes(_) => DataType::Bytes,
            ValueModel::VInt64(_) => DataType::Int64,
            ValueModel::VFloat64(_) => DataType::Float64,
            ValueModel::VBool(_) => DataType::Bool,
        }
    }
}

impl Value {
    /// The type tag this value carries, independent of any record type.
    pub fn data_type(&self) -> (r: DataType)
        ensures
            r == self@.data_type(),
    {
        match self {
            Value::String(_) => DataType::String,
            Value::Bytes(_) => DataType::Bytes,
            Value::Int64(_) => DataType::Int64,
            Value::Float64(_) => DataType::Float64,
            Value::Bool(_) => DataType::Bool,
        }
    }

    /// Name of the backend storage class this value is held in, for
    /// diagnostics. An integer and a boolean share the integer class.
    pub fn sql_type(&self) -> (r: &'static str)
        ensures
            self@ is VString ==> r@ == "Text"@,
            self@ is VBytes ==> r@ == "Blob"@,
            self@ is VInt64 || self@ is VBool ==> r@ == "Integer"@,
            self@ is VFloat64 ==> r@ == "Real"@,
    {
        match self {
            Value::String(_) => "Text",
            Value::Bytes(_) => "Blob",
            Value::Int64(_) | Value::Bool(_) => "Integer",
            Value::Float64(_) => "Real",
        }
    }

    /// An owned copy of this value, equal at the model level.
    pub fn clone_value(&self) -> (r: Value)
        ensures
            r@ == self@,
    {
        match self {
            Value::String(s) => Value::String(s.clone()),
            Value::Bytes(b) => {
                let c = b.clone();
                proof {
                    broadcast use vstd::std_specs::vec::vec_clone_deep_view_proof;

                    assert(c.deep_view() =~= c@);
                    assert(b.deep_view() =~= b@);
                }
                Value::Bytes(c)
            },
            Value::Int64(i) => Value::Int64(*i),
            Value::Float64(f) => Value::Float64(*f),
            Value::Bool(b) => Value::Bool(*b),
        }
    }

    /// Reads this value back as the native type `T`; the tag must match.
    pub fn convert<T: ValueConvert>(&self) -> (r: T)
        requires
            T::accepts(self@),
        ensures
            r.deep_view() == T::of_model(self@),
    {
        T::from_value(self)
    }
}

/// The typed-conversion contract between one native type and the untyped
/// value representation: `to_value` and `from_value` are exact inverses
/// for every representable native value.
pub trait ValueConvert: Sized + DeepView {
    /// The tagged model that `to_value` produces from a native value.
    spec fn as_model(m: Self::V) -> ValueModel;

    /// Whether an untyped value carries this native type's tag.
    spec fn accepts(v: ValueModel) -> bool;

    /// The native value read back out of a matching untyped value.
    spec fn of_model(v: ValueModel) -> Self::V;

    fn to_value(&self) -> (v: Value)
        ensures
            v@ == Self::as_model(self.deep_view()),
    ;

    fn from_value(value: &Value) -> (r: Self)
        requires
            Self::accepts(value@),
        ensures
            r.deep_view() == Self::of_model(value@),
    ;

    /// Wrapping a native value and reading it back is the identity: the
    /// produced tag is accepted, and the value recovered is the original.
    proof fn lemma_value_round_trip(m: Self::V)
        ensures
            Self::accepts(Self::as_model(m)),
            Self::of_model(Self::as_model(m)) == m,
    ;
}

impl ValueConvert for i64 {
    open spec fn as_model(m: i64) -> ValueModel {
        ValueModel::VInt64(m)
    }

    open spec fn accepts(v: ValueModel) -> bool {
        v is VInt64
    }

    open spec fn of_model(v: ValueModel) -> i64 {
        v->VInt64_0
    }

    fn to_value(&self) -> (v: Value) {
        Value::Int64(*self)
    }

    fn from_value(value: &Value) -> (r: Self) {
        match value {
            Value::Int64(i) => *i,
            _ => unreached(),
        }
    }

    proof fn lemma_value_round_trip(m: i64) {
    }
}

impl ValueConvert for bool {
    open spec fn as_model(m: bool) -> ValueModel {
        ValueModel::VBool(m)
    }

    open spec fn accepts(v: ValueModel) -> bool {
        v is VBool
    }

    open spec fn of_model(v: ValueModel) -> bool {
        v->VBool_0
    }

    fn to_value(&self) -> (v: Value) {
        Value::Bool(*self)
    }

    fn from_value(value: &Value) -> (r: Self) {
        match value {
            Value::Bool(b) => *b,
            _ => unreached(),
        }
    }

    proof fn lemma_value_round_trip(m: bool) {
    }
}

impl ValueConvert for String {
    open spec fn as_model(m: Seq<char>) -> ValueModel {
        ValueModel::VString(m)
    }

    open spec fn accepts(v: ValueModel) -> bool {
        v is VString
    }

    open spec fn of_model(v: ValueModel) -> Seq<char> {
        v->VString_0
    }

    fn to_value(&self) -> (v: Value) {
        Value::String(self.clone())
    }

    fn from_value(value: &Value) -> (r: Self) {
        match value {
            Value::String(s) => s.clone(),
            _ => unreached(),
        }
    }

    proof fn lemma_value_round_trip(m: Seq<char>) {
    }
}

impl ValueConvert for Vec<u8> {
    open spec fn as_model(m: Seq<u8>) -> ValueModel {
        ValueModel::VBytes(m)
    }

    open spec fn accepts(v: ValueModel) -> bool {
        v is VBytes
    }

    open spec fn of_model(v: ValueModel) -> Seq<u8> {
        v->VBytes_0
    }

    fn to_value(&self) -> (v: Value) {
        let c = self.clone();
        proof {
            broadcast use vstd::std_specs::vec::vec_clone_deep_view_proof;

            assert(c.deep_view() =~= c@);
            assert(self.deep_view() =~= self@);
        }
        Value::Bytes(c)
    }

    fn from_value(value: &Value) -> (r: Self) {
        match value {
            Value::Bytes(b) => {
                let c = b.clone();
                proof {
                    broadcast use vstd::std_specs::vec::vec_clone_deep_view_proof;

                    assert(c.deep_view() =~= c@);
                    assert(b.deep_view() =~= b@);
                }
                c
            },
            _ => unreached(),
        }
    }

    proof fn lemma_value_round_trip(m: Seq<u8>) {
    }
}

} // verus!
