//! A concrete record type: a named counter over one text and one
//! integer column, carrying the row conversions and their round-trip
//! proof that every record type must supply.

use vstd::prelude::*;
use vstd::string::StringExecFns;

use crate::data::{DataType, Value, ValueModel};
use crate::object::{row_model, Object, Row, Schema};

verus! {

/// A named counter.
pub struct Counter {
    pub name: String,
    pub count: i64,
}

/// The model of a counter: the name's characters and the count.
pub struct CounterModel {
    pub name: Seq<char>,
    pub count: i64,
}

impl View for Counter {
    type V = CounterModel;

    open spec fn view(&self) -> CounterModel {
        CounterModel { name: self.name@, count: self.count }
    }
}

impl DeepView for Counter {
    type V = CounterModel;

    open spec fn deep_view(&self) -> CounterModel {
        self.view()
    }
}

impl Object for Counter {
    open spec fn spec_to_row(m: CounterModel) -> Seq<ValueModel> {
        seq![ValueModel::VString(m.name), ValueModel::VInt64(m.count)]
    }

    open spec fn row_ok(r: Seq<ValueModel>) -> bool {
        r.len() == 2 && r[0] is VString && r[1] is VInt64
    }

    open spec fn spec_from_row(r: Seq<ValueModel>) -> CounterModel {
        CounterModel { name: r[0]->VString_0, count: r[1]->VInt64_0 }
    }

    fn schema() -> (s: Schema) {
        let mut columns: Vec<(String, DataType)> = Vec::new();
        columns.push((String::from_str("name"), DataType::String));
        columns.push((String::from_str("count"), DataType::Int64));
        let mut attrs: Vec<String> = Vec::new();
        attrs.push(String::from_str("name"));
        attrs.push(String::from_str("count"));
        Schema {
            table_name: String::from_str("Counter"),
            record_name: String::from_str("Counter"),
            columns,
            attrs,
        }
    }

    fn from_row(row: Row) -> (r: Self) {
        let name: String = row[0].convert::<String>();
        let count: i64 = row[1].convert::<i64>();
        Counter { name, count }
    }

    fn to_row(&self) -> (r: Row) {
        let mut row: Vec<Value> = Vec::new();
        row.push(Value::String(self.name.clone()));
        row.push(Value::Int64(self.count));
        proof {
            assert(row.deep_view() =~= Self::spec_to_row(self.deep_view()));
        }
        row
    }

    proof fn lemma_row_round_trip(m: CounterModel) {
        let laid = Self::spec_to_row(m);
        assert(laid[0] == ValueModel::VString(m.name));
        assert(laid[1] == ValueModel::VInt64(m.count));
    }
}

} // verus!
