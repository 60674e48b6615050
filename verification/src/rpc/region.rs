//! Tables, their regions, and how a table is partitioned over its regions.

use std::collections::HashMap;

use vstd::prelude::*;
use vstd::std_specs::convert::{FromSpec, FromSpecImpl, TryFromSpecImpl};

use crate::error::{corrupted, outcome, route_info_corrupted, MetaError, ErrorView};
use crate::pb;
use crate::table_name::{TableName, TableNameView};

verus! {

/// The part of a table that a region holds: for each column, a bound.
#[derive(Debug, Clone, PartialEq)]
pub struct Partition {
    pub column_list: Vec<Vec<u8>>,
    pub value_list: Vec<Vec<u8>>,
}

pub struct PartitionView {
    pub column_list: Seq<Seq<u8>>,
    pub value_list: Seq<Seq<u8>>,
}

impl View for Partition {
    type V = PartitionView;

    open spec fn view(&self) -> PartitionView {
        PartitionView {
            column_list: self.column_list.deep_view(),
            value_list: self.value_list.deep_view(),
        }
    }
}

impl DeepView for Partition {
    type V = PartitionView;

    open spec fn deep_view(&self) -> PartitionView {
        self@
    }
}

impl FromSpecImpl<Partition> for pb::Partition {
    open spec fn obeys_from_spec() -> bool {
        true
    }

    open spec fn from_spec(p: Partition) -> Self {
        pb::Partition { column_list: p.column_list, value_list: p.value_list }
    }
}

impl From<Partition> for pb::Partition {
    fn from(p: Partition) -> (res: Self) {
        pb::Partition { column_list: p.column_list, value_list: p.value_list }
    }
}

impl FromSpecImpl<pb::Partition> for Partition {
    open spec fn obeys_from_spec() -> bool {
        true
    }

    open spec fn from_spec(p: pb::Partition) -> Self {
        Partition { column_list: p.column_list, value_list: p.value_list }
    }
}

impl From<pb::Partition> for Partition {
    fn from(p: pb::Partition) -> (res: Self) {
        Partition { column_list: p.column_list, value_list: p.value_list }
    }
}

/// A piece of a table.
#[derive(Debug, Clone, PartialEq)]
pub struct Region {
    pub id: u64,
    pub name: String,
    pub partition: Option<Partition>,
    pub attrs: HashMap<String, String>,
}

pub struct RegionView {
    pub id: u64,
    pub name: Seq<char>,
    pub partition: Option<PartitionView>,
    pub attrs: Map<Seq<char>, Seq<char>>,
}

impl View for Region {
    type V = RegionView;

    open spec fn view(&self) -> RegionView {
        RegionView {
            id: self.id,
            name: self.name@,
            partition: self.partition.deep_view(),
            attrs: self.attrs.deep_view(),
        }
    }
}

impl DeepView for Region {
    type V = RegionView;

    open spec fn deep_view(&self) -> RegionView {
        self@
    }
}

impl RegionView {
    /// The region of an unset message.
    pub open spec fn unset() -> Self {
        RegionView { id: 0, name: Seq::empty(), partition: None, attrs: Map::empty() }
    }
}

impl Default for Region {
    fn default() -> (res: Self)
        ensures
            res@ == RegionView::unset(),
            res.attrs@ == Map::<String, String>::empty(),
    {
        let res = Region { id: 0, name: String::new(), partition: None, attrs: HashMap::new() };
        assert(res@.attrs =~= Map::empty()) by {
            reveal(vstd::std_specs::hash::hash_map_deep_view_impl);
        }
        res
    }
}

impl FromSpecImpl<pb::Region> for Region {
    open spec fn obeys_from_spec() -> bool {
        true
    }

    open spec fn from_spec(r: pb::Region) -> Self {
        Region {
            id: r.id,
            name: r.name,
            partition: match r.partition {
                Some(partition) => Some(<Partition as FromSpec<pb::Partition>>::from_spec(partition)),
                None => None,
            },
            attrs: r.attrs,
        }
    }
}

impl From<pb::Region> for Region {
    fn from(r: pb::Region) -> (res: Self) {
        Region {
            id: r.id,
            name: r.name,
            partition: match r.partition {
                Some(partition) => Some(Partition::from(partition)),
                None => None,
            },
            attrs: r.attrs,
        }
    }
}

impl FromSpecImpl<Region> for pb::Region {
    open spec fn obeys_from_spec() -> bool {
        true
    }

    open spec fn from_spec(region: Region) -> Self {
        pb::Region {
            id: region.id,
            name: region.name,
            partition: match region.partition {
                Some(partition) => Some(
                    <pb::Partition as FromSpec<Partition>>::from_spec(partition),
                ),
                None => None,
            },
            attrs: region.attrs,
        }
    }
}

impl From<Region> for pb::Region {
    fn from(region: Region) -> (res: Self) {
        pb::Region {
            id: region.id,
            name: region.name,
            partition: match region.partition {
                Some(partition) => Some(pb::Partition::from(partition)),
                None => None,
            },
            attrs: region.attrs,
        }
    }
}

#[derive(Debug, Clone, PartialEq)]
pub struct Table {
    pub id: u64,
    pub table_name: TableName,
    pub table_schema: Vec<u8>,
}

pub struct TableView {
    pub id: u64,
    pub table_name: TableNameView,
    pub table_schema: Seq<u8>,
}

impl View for Table {
    type V = TableView;

    open spec fn view(&self) -> TableView {
        TableView {
            id: self.id,
            table_name: self.table_name@,
            table_schema: self.table_schema@,
        }
    }
}

impl DeepView for Table {
    type V = TableView;

    open spec fn deep_view(&self) -> TableView {
        self@
    }
}

impl TableView {
    /// The message for this table.
    pub open spec fn message(self) -> pb::TableView {
        pb::TableView {
            id: self.id,
            table_name: Some(self.table_name),
            table_schema: self.table_schema,
        }
    }

    /// The table that a message tells of; it must name the table.
    pub open spec fn from_message(message: pb::TableView) -> Result<Self, ErrorView> {
        match message.table_name {
            Some(table_name) => Ok(
                TableView { id: message.id, table_name, table_schema: message.table_schema },
            ),
            None => Err(corrupted("table name required"@)),
        }
    }
}

impl TryFromSpecImpl<pb::Table> for Table {
    open spec fn obeys_try_from_spec() -> bool {
        false
    }

    open spec fn try_from_spec(t: pb::Table) -> Result<Self, MetaError> {
        arbitrary()
    }
}

impl TryFrom<pb::Table> for Table {
    type Error = MetaError;

    fn try_from(t: pb::Table) -> (res: Result<Self, MetaError>)
        ensures
            outcome(res) == TableView::from_message(t@),
    {
        let table_name = match t.table_name {
            Some(table_name) => TableName::from(table_name),
            None => return Err(route_info_corrupted("table name required")),
        };
        Ok(Table { id: t.id, table_name, table_schema: t.table_schema })
    }
}

impl FromSpecImpl<Table> for pb::Table {
    open spec fn obeys_from_spec() -> bool {
        true
    }

    open spec fn from_spec(table: Table) -> Self {
        pb::Table {
            id: table.id,
            table_name: Some(<pb::TableName as FromSpec<TableName>>::from_spec(table.table_name)),
            table_schema: table.table_schema,
        }
    }
}

impl From<Table> for pb::Table {
    fn from(table: Table) -> (res: Self) {
        pb::Table {
            id: table.id,
            table_name: Some(pb::TableName::from(table.table_name)),
            table_schema: table.table_schema,
        }
    }
}

} // verus!
