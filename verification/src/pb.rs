//! The messages of the metadata service, as plain values.
//!
//! A message part that may be absent on the wire is an `Option`. Where a
//! message carries the same as a type of this crate, the two have one view.

use std::collections::HashMap;

use vstd::prelude::*;

use crate::peer::PeerView;
use crate::rpc::region::{PartitionView, RegionView};
use crate::table_name::TableNameView;

verus! {

/// Precedes every request.
#[derive(Debug, Clone, PartialEq)]
pub struct RequestHeader {
    pub protocol_version: u64,
    pub member_id: u64,
    pub role: i32,
    pub tracing_context: HashMap<String, String>,
}

/// Precedes every response. With an `error`, the rest of the response has no
/// meaning.
#[derive(Debug, Clone, PartialEq, Eq)]
pub struct ResponseHeader {
    pub protocol_version: u64,
    pub error: Option<ServerError>,
}

#[derive(Debug, Clone, PartialEq, Eq)]
pub struct ServerError {
    pub code: i32,
    pub err_msg: String,
}

#[derive(Debug, PartialEq, Eq)]
pub struct Peer {
    pub id: u64,
    pub addr: String,
}

#[derive(Debug, Clone, PartialEq, Eq)]
pub struct TableName {
    pub catalog_name: String,
    pub schema_name: String,
    pub table_name: String,
}

#[derive(Debug, Clone, PartialEq, Eq)]
pub struct Partition {
    pub column_list: Vec<Vec<u8>>,
    pub value_list: Vec<Vec<u8>>,
}

#[derive(Debug, Clone, PartialEq)]
pub struct Region {
    pub id: u64,
    pub name: String,
    pub partition: Option<Partition>,
    pub attrs: HashMap<String, String>,
}

/// Where a region is served. Peers are given by their index in a list that
/// comes with the message.
#[derive(Debug, Clone, PartialEq)]
pub struct RegionRoute {
    pub region: Option<Region>,
    pub leader_peer_index: u64,
    pub follower_peer_indexes: Vec<u64>,
}

#[derive(Debug, Clone, PartialEq, Eq)]
pub struct Table {
    pub id: u64,
    pub table_name: Option<TableName>,
    pub table_schema: Vec<u8>,
}

#[derive(Debug, Clone, PartialEq)]
pub struct TableRoute {
    pub table: Option<Table>,
    pub region_routes: Vec<RegionRoute>,
}

#[derive(Debug, Clone, PartialEq)]
pub struct CreateRequest {
    pub header: Option<RequestHeader>,
    pub table_name: Option<TableName>,
    pub partitions: Vec<Partition>,
    pub table_info: Vec<u8>,
}

#[derive(Debug, Clone, PartialEq)]
pub struct RouteRequest {
    pub header: Option<RequestHeader>,
    pub table_names: Vec<TableName>,
}

#[derive(Debug, Clone, PartialEq)]
pub struct DeleteRequest {
    pub header: Option<RequestHeader>,
    pub table_name: Option<TableName>,
}

#[derive(Debug, Clone, PartialEq)]
pub struct RouteResponse {
    pub header: Option<ResponseHeader>,
    pub peers: Vec<Peer>,
    pub table_routes: Vec<TableRoute>,
}

pub struct ServerErrorView {
    pub code: i32,
    pub err_msg: Seq<char>,
}

pub struct ResponseHeaderView {
    pub protocol_version: u64,
    pub error: Option<ServerErrorView>,
}

pub struct RegionRouteView {
    pub region: Option<RegionView>,
    pub leader_peer_index: u64,
    pub follower_peer_indexes: Seq<u64>,
}

pub struct TableView {
    pub id: u64,
    pub table_name: Option<TableNameView>,
    pub table_schema: Seq<u8>,
}

pub struct TableRouteView {
    pub table: Option<TableView>,
    pub region_routes: Seq<RegionRouteView>,
}

pub struct CreateRequestView {
    pub header: Option<RequestHeader>,
    pub table_name: Option<TableNameView>,
    pub partitions: Seq<PartitionView>,
    pub table_info: Seq<u8>,
}

pub struct RouteRequestView {
    pub header: Option<RequestHeader>,
    pub table_names: Seq<TableNameView>,
}

pub struct RouteResponseView {
    pub header: Option<ResponseHeaderView>,
    pub peers: Seq<PeerView>,
    pub table_routes: Seq<TableRouteView>,
}

impl Clone for Peer {
    fn clone(&self) -> (res: Self)
        ensures
            res == *self,
    {
        Peer { id: self.id, addr: self.addr.clone() }
    }
}

impl View for ServerError {
    type V = ServerErrorView;

    open spec fn view(&self) -> ServerErrorView {
        ServerErrorView { code: self.code, err_msg: self.err_msg@ }
    }
}

impl DeepView for ServerError {
    type V = ServerErrorView;

    open spec fn deep_view(&self) -> ServerErrorView {
        self@
    }
}

impl View for ResponseHeader {
    type V = ResponseHeaderView;

    open spec fn view(&self) -> ResponseHeaderView {
        ResponseHeaderView {
            protocol_version: self.protocol_version,
            error: self.error.deep_view(),
        }
    }
}

impl DeepView for ResponseHeader {
    type V = ResponseHeaderView;

    open spec fn deep_view(&self) -> ResponseHeaderView {
        self@
    }
}

impl View for Peer {
    type V = PeerView;

    open spec fn view(&self) -> PeerView {
        PeerView { id: self.id, addr: self.addr@ }
    }
}

impl DeepView for Peer {
    type V = PeerView;

    open spec fn deep_view(&self) -> PeerView {
        self@
    }
}

impl View for TableName {
    type V = TableNameView;

    open spec fn view(&self) -> TableNameView {
        TableNameView {
            catalog_name: self.catalog_name@,
            schema_name: self.schema_name@,
            table_name: self.table_name@,
        }
    }
}

impl DeepView for TableName {
    type V = TableNameView;

    open spec fn deep_view(&self) -> TableNameView {
        self@
    }
}

impl View for Partition {
    type V = PartitionView;

    open spec fn view(&self) -> PartitionView {
        PartitionView {
            column_list: self.column_list.deep_view(),
            value_list: self.value_list.deep_view(),
        }
    }
}

impl DeepView for Partition {
    type V = PartitionView;

    open spec fn deep_view(&self) -> PartitionView {
        self@
    }
}

impl View for Region {
    type V = RegionView;

    open spec fn view(&self) -> RegionView {
        RegionView {
            id: self.id,
            name: self.name@,
            partition: self.partition.deep_view(),
            attrs: self.attrs.deep_view(),
        }
    }
}

impl DeepView for Region {
    type V = RegionView;

    open spec fn deep_view(&self) -> RegionView {
        self@
    }
}

impl View for RegionRoute {
    type V = RegionRouteView;

    open spec fn view(&self) -> RegionRouteView {
        RegionRouteView {
            region: self.region.deep_view(),
            leader_peer_index: self.leader_peer_index,
            follower_peer_indexes: self.follower_peer_indexes@,
        }
    }
}

impl DeepView for RegionRoute {
    type V = RegionRouteView;

    open spec fn deep_view(&self) -> RegionRouteView {
        self@
    }
}

impl View for Table {
    type V = TableView;

    open spec fn view(&self) -> TableView {
        TableView {
            id: self.id,
            table_name: self.table_name.deep_view(),
            table_schema: self.table_schema@,
        }
    }
}

impl DeepView for Table {
    type V = TableView;

    open spec fn deep_view(&self) -> TableView {
        self@
    }
}

impl View for TableRoute {
    type V = TableRouteView;

    open spec fn view(&self) -> TableRouteView {
        TableRouteView {
            table: self.table.deep_view(),
            region_routes: self.region_routes.deep_view(),
        }
    }
}

impl DeepView for TableRoute {
    type V = TableRouteView;

    open spec fn deep_view(&self) -> TableRouteView {
        self@
    }
}

impl View for CreateRequest {
    type V = CreateRequestView;

    open spec fn view(&self) -> CreateRequestView {
        CreateRequestView {
            header: self.header,
            table_name: self.table_name.deep_view(),
            partitions: self.partitions.deep_view(),
            table_info: self.table_info@,
        }
    }
}

impl DeepView for CreateRequest {
    type V = CreateRequestView;

    open spec fn deep_view(&self) -> CreateRequestView {
        self@
    }
}

impl View for RouteRequest {
    type V = RouteRequestView;

    open spec fn view(&self) -> RouteRequestView {
        RouteRequestView { header: self.header, table_names: self.table_names.deep_view() }
    }
}

impl DeepView for RouteRequest {
    type V = RouteRequestView;

    open spec fn deep_view(&self) -> RouteRequestView {
        self@
    }
}

impl View for RouteResponse {
    type V = RouteResponseView;

    open spec fn view(&self) -> RouteResponseView {
        RouteResponseView {
            header: self.header.deep_view(),
            peers: self.peers.deep_view(),
            table_routes: self.table_routes.deep_view(),
        }
    }
}

impl DeepView for RouteResponse {
    type V = RouteResponseView;

    open spec fn deep_view(&self) -> RouteResponseView {
        self@
    }
}

} // verus!
