//! Requests to create a table, to ask for the routes of tables, and to delete a
//! table.

use vstd::prelude::*;
use vstd::std_specs::convert::{FromSpec, FromSpecImpl, TryFromSpecImpl};

use crate::error::MetaError;
use crate::json::{json_bytes, to_vec};
use crate::pb;
use crate::rpc::region::{Partition, PartitionView};
use crate::table_name::{TableName, TableNameView};

verus! {

/// A request to create a table, told in JSON, and to place its partitions.
#[derive(Debug, Clone)]
pub struct CreateRequest<'a> {
    pub table_name: TableName,
    pub partitions: Vec<Partition>,
    pub table_info: &'a serde_json::Value,
}

pub struct CreateRequestView {
    pub table_name: TableNameView,
    pub partitions: Seq<PartitionView>,
    pub table_info: serde_json::Value,
}

impl<'a> View for CreateRequest<'a> {
    type V = CreateRequestView;

    open spec fn view(&self) -> CreateRequestView {
        CreateRequestView {
            table_name: self.table_name@,
            partitions: self.partitions.deep_view(),
            table_info: *self.table_info,
        }
    }
}

impl CreateRequestView {
    /// The message for this request, with the table told by the bytes `table_info`.
    pub open spec fn message(self, table_info: Seq<u8>) -> pb::CreateRequestView {
        pb::CreateRequestView {
            header: None,
            table_name: Some(self.table_name),
            partitions: self.partitions,
            table_info,
        }
    }
}

impl<'a> CreateRequest<'a> {
    pub fn new(table_name: TableName, table_info: &'a serde_json::Value) -> (res: Self)
        ensures
            res@ == (CreateRequestView {
                table_name: table_name@,
                partitions: Seq::empty(),
                table_info: *table_info,
            }),
            res.table_name == table_name,
    {
        let res = CreateRequest { table_name, partitions: Vec::new(), table_info };
        assert(res@.partitions =~= Seq::empty());
        res
    }

    pub fn add_partition(self, partition: Partition) -> (res: Self)
        ensures
            res@ == (CreateRequestView {
                partitions: self@.partitions.push(partition@),
                ..self@
            }),
            res.partitions@ == self.partitions@.push(partition),
            res.table_name == self.table_name,
    {
        let mut res = self;
        res.partitions.push(partition);
        assert(res@.partitions =~= self@.partitions.push(partition@));
        res
    }

    /// The message for this request, given what came of writing its
    /// `table_info` as JSON.
    pub fn into_message(self, table_info: Result<Vec<u8>, serde_json::Error>) -> (res: Result<
        pb::CreateRequest,
        MetaError,
    >)
        ensures
            match table_info {
                Ok(bytes) => res is Ok && res->Ok_0@ == self@.message(bytes@),
                Err(source) => res is Err && res->Err_0 == (MetaError::SerdeJson { source }),
            },
    {
        let ghost view = self@;
        let mut partitions: Vec<pb::Partition> = Vec::with_capacity(self.partitions.len());
        for partition in it: self.partitions.into_iter()
            invariant
                view == self@,
                view.partitions.len() == it.seq().len(),
                forall|i: int|
                    0 <= i < it.seq().len() ==> view.partitions[i] == (#[trigger] it.seq()[i])@,
                partitions.len() == it.index(),
                forall|i: int|
                    0 <= i < it.index() ==> (#[trigger] partitions[i])@ == view.partitions[i],
        {
            partitions.push(pb::Partition::from(partition));
        }
        assert(partitions.deep_view() =~= view.partitions);
        match table_info {
            Ok(table_info) => Ok(
                pb::CreateRequest {
                    header: None,
                    table_name: Some(pb::TableName::from(self.table_name)),
                    partitions,
                    table_info,
                },
            ),
            Err(source) => Err(MetaError::SerdeJson { source }),
        }
    }
}

impl<'a> TryFromSpecImpl<CreateRequest<'a>> for pb::CreateRequest {
    open spec fn obeys_try_from_spec() -> bool {
        false
    }

    open spec fn try_from_spec(req: CreateRequest<'a>) -> Result<Self, MetaError> {
        arbitrary()
    }
}

impl<'a> TryFrom<CreateRequest<'a>> for pb::CreateRequest {
    type Error = MetaError;

    fn try_from(req: CreateRequest<'a>) -> (res: Result<Self, MetaError>)
        ensures
            match json_bytes(req@.table_info) {
                Some(bytes) => res is Ok && res->Ok_0@ == req@.message(bytes),
                None => res is Err && res->Err_0 is SerdeJson,
            },
    {
        let table_info = to_vec(req.table_info);
        req.into_message(table_info)
    }
}

/// A request for the routes of tables.
#[derive(Debug, Clone)]
pub struct RouteRequest {
    pub table_names: Vec<TableName>,
}

pub struct RouteRequestView {
    pub table_names: Seq<TableNameView>,
}

impl View for RouteRequest {
    type V = RouteRequestView;

    open spec fn view(&self) -> RouteRequestView {
        RouteRequestView { table_names: self.table_names.deep_view() }
    }
}

impl RouteRequestView {
    /// The message for this request.
    pub open spec fn message(self) -> pb::RouteRequestView {
        pb::RouteRequestView { header: None, table_names: self.table_names }
    }
}

impl RouteRequest {
    pub fn new() -> (res: Self)
        ensures
            res@ == (RouteRequestView { table_names: Seq::empty() }),
    {
        let res = RouteRequest { table_names: Vec::new() };
        assert(res@.table_names =~= Seq::empty());
        res
    }

    pub fn add_table_name(self, table_name: TableName) -> (res: Self)
        ensures
            res@ == (RouteRequestView { table_names: self@.table_names.push(table_name@) }),
            res.table_names@ == self.table_names@.push(table_name),
    {
        let mut res = self;
        res.table_names.push(table_name);
        assert(res@.table_names =~= self@.table_names.push(table_name@));
        res
    }
}

impl Default for RouteRequest {
    fn default() -> (res: Self)
        ensures
            res@ == (RouteRequestView { table_names: Seq::empty() }),
    {
        RouteRequest::new()
    }
}

impl FromSpecImpl<RouteRequest> for pb::RouteRequest {
    open spec fn obeys_from_spec() -> bool {
        false
    }

    open spec fn from_spec(req: RouteRequest) -> Self {
        arbitrary()
    }
}

impl From<RouteRequest> for pb::RouteRequest {
    fn from(req: RouteRequest) -> (res: Self)
        ensures
            res@ == req@.message(),
    {
        let ghost view = req@;
        let mut table_names: Vec<pb::TableName> = Vec::with_capacity(req.table_names.len());
        for table_name in it: req.table_names.into_iter()
            invariant
                view == req@,
                view.table_names.len() == it.seq().len(),
                forall|i: int|
                    0 <= i < it.seq().len() ==> view.table_names[i] == (#[trigger] it.seq()[i])@,
                table_names.len() == it.index(),
                forall|i: int|
                    0 <= i < it.index() ==> (#[trigger] table_names[i])@ == view.table_names[i],
        {
            table_names.push(pb::TableName::from(table_name));
        }
        assert(table_names.deep_view() =~= view.table_names);
        pb::RouteRequest { header: None, table_names }
    }
}

/// A request to delete a table.
#[derive(Debug, Clone)]
pub struct DeleteRequest {
    pub table_name: TableName,
}

impl DeleteRequest {
    pub fn new(table_name: TableName) -> (res: Self)
        ensures
            res.table_name == table_name,
    {
        DeleteRequest { table_name }
    }
}

impl FromSpecImpl<DeleteRequest> for pb::DeleteRequest {
    open spec fn obeys_from_spec() -> bool {
        true
    }

    open spec fn from_spec(req: DeleteRequest) -> Self {
        pb::DeleteRequest {
            header: None,
            table_name: Some(<pb::TableName as FromSpec<TableName>>::from_spec(req.table_name)),
        }
    }
}

impl From<DeleteRequest> for pb::DeleteRequest {
    fn from(req: DeleteRequest) -> (res: Self) {
        pb::DeleteRequest {
            header: None,
            table_name: Some(pb::TableName::from(req.table_name)),
        }
    }
}

} // verus!
