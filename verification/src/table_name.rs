//! The full name of a table.

use vstd::prelude::*;
use vstd::std_specs::convert::FromSpecImpl;

use crate::pb;

verus! {

/// What a table is called, and where it lives.
pub struct TableNameView {
    pub catalog_name: Seq<char>,
    pub schema_name: Seq<char>,
    pub table_name: Seq<char>,
}

/// The full name of a table.
#[derive(Debug, Clone, PartialEq, Eq, Hash)]
pub struct TableName {
    pub catalog_name: String,
    pub schema_name: String,
    pub table_name: String,
}

impl View for TableName {
    type V = TableNameView;

    open spec fn view(&self) -> TableNameView {
        TableNameView {
            catalog_name: self.catalog_name@,
            schema_name: self.schema_name@,
            table_name: self.table_name@,
        }
    }
}

impl DeepView for TableName {
    type V = TableNameView;

    open spec fn deep_view(&self) -> TableNameView {
        self@
    }
}

impl TableName {
    pub fn new(catalog_name: &str, schema_name: &str, table_name: &str) -> (res: Self)
        ensures
            res@ == (TableNameView {
                catalog_name: catalog_name@,
                schema_name: schema_name@,
                table_name: table_name@,
            }),
    {
        TableName {
            catalog_name: catalog_name.to_owned(),
            schema_name: schema_name.to_owned(),
            table_name: table_name.to_owned(),
        }
    }
}

impl FromSpecImpl<pb::TableName> for TableName {
    open spec fn obeys_from_spec() -> bool {
        true
    }

    open spec fn from_spec(name: pb::TableName) -> Self {
        TableName {
            catalog_name: name.catalog_name,
            schema_name: name.schema_name,
            table_name: name.table_name,
        }
    }
}

impl From<pb::TableName> for TableName {
    fn from(name: pb::TableName) -> (res: Self) {
        TableName {
            catalog_name: name.catalog_name,
            schema_name: name.schema_name,
            table_name: name.table_name,
        }
    }
}

impl FromSpecImpl<TableName> for pb::TableName {
    open spec fn obeys_from_spec() -> bool {
        true
    }

    open spec fn from_spec(name: TableName) -> Self {
        pb::TableName {
            catalog_name: name.catalog_name,
            schema_name: name.schema_name,
            table_name: name.table_name,
        }
    }
}

impl From<TableName> for pb::TableName {
    fn from(name: TableName) -> (res: Self) {
        pb::TableName {
            catalog_name: name.catalog_name,
            schema_name: name.schema_name,
            table_name: name.table_name,
        }
    }
}

} // verus!
