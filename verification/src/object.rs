//! The static per-type descriptor and the record interface.

use vstd::prelude::*;

use crate::data::{DataType, Value, ValueModel};

verus! {

/// An ordered row of untyped values, positionally aligned with a
/// descriptor's column list.
pub type Row = Vec<Value>;

/// The model of a row: the sequence of modelled values.
pub open spec fn row_model(r: Row) -> Seq<ValueModel> {
    r.deep_view()
}

/// The static descriptor of one record type: its table name, a name for
/// diagnostics, the ordered column list and the attribute names aligned
/// one to one with the columns.
///
/// Two descriptors with the same table name address the same tracked
/// entries; table names must therefore be unique across record types.
#[derive(Clone, Debug)]
pub struct Schema {
    pub table_name: String,
    pub record_name: String,
    pub columns: Vec<(String, DataType)>,
    pub attrs: Vec<String>,
}

impl Schema {
    /// The descriptor invariant: one attribute name per column.
    pub open spec fn wf(&self) -> bool {
        self.columns@.len() == self.attrs@.len()
    }

    /// The key under which entries of this descriptor are tracked.
    pub open spec fn key(&self) -> Seq<char> {
        self.table_name@
    }

    /// An owned copy describing the same table, columns and attributes.
    pub fn clone_schema(&self) -> (r: Schema)
        ensures
            r.table_name@ == self.table_name@,
            r.record_name@ == self.record_name@,
            r.columns@ == self.columns@,
            r.attrs@ == self.attrs@,
    {
        let mut columns: Vec<(String, DataType)> = Vec::new();
        let mut j: usize = 0;
        while j < self.columns.len()
            invariant
                j <= self.columns@.len(),
                columns@ == self.columns@.subrange(0, j as int),
            decreases self.columns@.len() - j,
        {
            columns.push((self.columns[j].0.clone(), self.columns[j].1));
            j += 1;
            proof {
                assert(columns@ =~= self.columns@.subrange(0, j as int));
            }
        }
        let mut attrs: Vec<String> = Vec::new();
        let mut k: usize = 0;
        while k < self.attrs.len()
            invariant
                k <= self.attrs@.len(),
                attrs@ == self.attrs@.subrange(0, k as int),
            decreases self.attrs@.len() - k,
        {
            attrs.push(self.attrs[k].clone());
            k += 1;
            proof {
                assert(attrs@ =~= self.attrs@.subrange(0, k as int));
            }
        }
        proof {
            assert(self.columns@.subrange(0, self.columns@.len() as int) =~= self.columns@);
            assert(self.attrs@.subrange(0, self.attrs@.len() as int) =~= self.attrs@);
        }
        Schema {
            table_name: self.table_name.clone(),
            record_name: self.record_name.clone(),
            columns,
            attrs,
        }
    }
}

/// A typed record: it can name its descriptor, build itself from a row,
/// and lay itself out as a row aligned with the descriptor's columns.
///
/// `from_row` and `to_row` must be exact inverses: reading a record's own
/// row back yields an equal record.
pub trait Object: Sized + DeepView {
    /// The row a record lays itself out as, at the specification level.
    spec fn spec_to_row(m: Self::V) -> Seq<ValueModel>;

    /// Whether a row can be read back as a record of this type.
    spec fn row_ok(r: Seq<ValueModel>) -> bool;

    /// The record read back out of an accepted row.
    spec fn spec_from_row(r: Seq<ValueModel>) -> Self::V;

    /// The record type's descriptor. Every copy describes the same table.
    fn schema() -> (s: Schema)
        ensures
            s.wf(),
    ;

    fn from_row(row: Row) -> (r: Self)
        requires
            Self::row_ok(row_model(row)),
        ensures
            r.deep_view() == Self::spec_from_row(row_model(row)),
    ;

    fn to_row(&self) -> (r: Row)
        ensures
            row_model(r) == Self::spec_to_row(self.deep_view()),
            Self::row_ok(row_model(r)),
    ;

    /// Laying a record out as a row and reading it back is the identity.
    proof fn lemma_row_round_trip(m: Self::V)
        ensures
            Self::row_ok(Self::spec_to_row(m)),
            Self::spec_from_row(Self::spec_to_row(m)) == m,
    ;
}

} // verus!
