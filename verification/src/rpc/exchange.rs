//! What each call on requests, on responses and on their parts gives, told by
//! the fields of what goes in and of what comes out.

use vstd::prelude::*;
use vstd::utf8::{encode_utf8, valid_utf8};

use crate::error::{ErrorView, MetaError};
use crate::json::json_bytes;
use crate::pb;
use crate::peer::Peer;
use crate::rpc::calls::lemma_read;
use crate::rpc::laws::law_response_is_read_whole;
use crate::rpc::region::{Partition, Region};
use crate::rpc::request::{CreateRequest, DeleteRequest, RouteRequest};
use crate::rpc::response::{RouteResponse, RouteResponseView};
use crate::rpc::router::{RegionRoute, TableRouteView};
use crate::rpc::text::{as_utf8, as_utf8_vec, comma_separated, text_of};
use crate::rpc::util::{check_response_header, header_error};
use crate::table_name::TableName;

verus! {

/// A header without an error passes. One with an error fails with that error's
/// code and message, whatever they are.
pub proof fn law_header_errors_are_reported(
    header: Option<&pb::ResponseHeader>,
    res: Result<(), MetaError>,
)
    requires
        call_ensures(check_response_header, (header,), res),
    ensures
        res is Ok <==> header is None || header->0.error is None,
        res matches Err(error) ==> {
            &&& error matches MetaError::IllegalServerState { code, err_msg }
            &&& code == header->0.error->0.code
            &&& err_msg@ == header->0.error->0.err_msg@
        },
{
    if header is Some {
        assert(header.deep_view() == Some(header->0@));
    }
}

/// A response whose header holds an error is never read: that error's code and
/// message are what comes of it.
pub proof fn law_refused_response(message: pb::RouteResponse, res: Result<RouteResponse, MetaError>)
    requires
        call_ensures(<RouteResponse as TryFrom<pb::RouteResponse>>::try_from, (message,), res),
        message.header is Some,
        message.header->0.error is Some,
    ensures
        res matches Err(MetaError::IllegalServerState { code, err_msg }) && code
            == message.header->0.error->0.code && err_msg@
            == message.header->0.error->0.err_msg@,
{
    assert(message@.header == Some(message.header->0@));
    assert(header_error(message@.header) is Some);
}

/// Whether the table route `i` of a message has all its parts.
proof fn lemma_readable(message: pb::RouteResponse, i: int)
    requires
        0 <= i < message.table_routes@.len(),
    ensures
        ({
            let raw = message.table_routes@[i];
            let read = TableRouteView::from_raw(message@.peers, message@.table_routes[i]);
            &&& message@.table_routes[i] == raw@
            &&& read is Ok <==> raw.table is Some && raw.table->0.table_name is Some && forall|j: int|
                0 <= j < raw.region_routes@.len() ==> (#[trigger] raw.region_routes@[j]).region
                    is Some
            &&& read matches Err(error) ==> error == (ErrorView::RouteInfoCorrupted {
                err_msg: if raw.table is None {
                    "'table' is empty in table route"@
                } else if raw.table->0.table_name is None {
                    "table name required"@
                } else {
                    "'region' is empty in region route"@
                },
            })
        }),
{
    let raw = message.table_routes@[i];
    assert(message@.table_routes[i] == raw@);
    let routes = raw@.region_routes;
    assert forall|j: int| 0 <= j < raw.region_routes@.len() implies routes[j] == (
    #[trigger] raw.region_routes@[j])@ by {}
    if exists|j: int| 0 <= j < routes.len() && (#[trigger] routes[j]).region is None {
        let j = choose|j: int| 0 <= j < routes.len() && (#[trigger] routes[j]).region is None;
        assert(raw.region_routes@[j].region is None);
    }
    if exists|j: int|
        0 <= j < raw.region_routes@.len() && (#[trigger] raw.region_routes@[j]).region is None {
        let j = choose|j: int|
            0 <= j < raw.region_routes@.len() && (#[trigger] raw.region_routes@[j]).region is None;
        assert(routes[j].region is None);
    }
}

/// A response whose header holds no error is read exactly where each of its
/// table routes has its table, the table's name and all its regions.
pub proof fn law_response_needs_its_parts(
    message: pb::RouteResponse,
    res: Result<RouteResponse, MetaError>,
)
    requires
        call_ensures(<RouteResponse as TryFrom<pb::RouteResponse>>::try_from, (message,), res),
        message.header is None || message.header->0.error is None,
    ensures
        res is Ok <==> forall|i: int|
            0 <= i < message.table_routes@.len() ==> {
                &&& (#[trigger] message.table_routes@[i]).table is Some
                &&& message.table_routes@[i].table->0.table_name is Some
                &&& forall|j: int|
                    0 <= j < message.table_routes@[i].region_routes@.len() ==> (
                    #[trigger] message.table_routes@[i].region_routes@[j]).region is Some
            },
{
    assert(header_error(message@.header) is None);
    law_response_is_read_whole(message@);
    let views = message@.table_routes;
    if res is Ok {
        assert forall|i: int| 0 <= i < message.table_routes@.len() implies {
            &&& (#[trigger] message.table_routes@[i]).table is Some
            &&& message.table_routes@[i].table->0.table_name is Some
            &&& forall|j: int|
                0 <= j < message.table_routes@[i].region_routes@.len() ==> (
                #[trigger] message.table_routes@[i].region_routes@[j]).region is Some
        } by {
            assert(TableRouteView::from_raw(message@.peers, views[i]) is Ok);
            lemma_readable(message, i);
        }
    } else {
        let i = choose|i: int|
            0 <= i < views.len() && !(TableRouteView::from_raw(
                message@.peers,
                #[trigger] views[i],
            ) is Ok);
        lemma_readable(message, i);
        assert(message.table_routes@[i].table is None || message.table_routes@[i].table is Some);
    }
}

/// Where the table routes before `i` have all their parts and that at `i` has
/// not, what lacks there is what is told.
pub proof fn law_response_tells_the_first_error(
    message: pb::RouteResponse,
    res: Result<RouteResponse, MetaError>,
    i: int,
)
    requires
        call_ensures(<RouteResponse as TryFrom<pb::RouteResponse>>::try_from, (message,), res),
        message.header is None || message.header->0.error is None,
        0 <= i < message.table_routes@.len(),
        forall|h: int|
            0 <= h < i ==> {
                &&& (#[trigger] message.table_routes@[h]).table is Some
                &&& message.table_routes@[h].table->0.table_name is Some
                &&& forall|j: int|
                    0 <= j < message.table_routes@[h].region_routes@.len() ==> (
                    #[trigger] message.table_routes@[h].region_routes@[j]).region is Some
            },
        !({
            &&& message.table_routes@[i].table is Some
            &&& message.table_routes@[i].table->0.table_name is Some
            &&& forall|j: int|
                0 <= j < message.table_routes@[i].region_routes@.len() ==> (
                #[trigger] message.table_routes@[i].region_routes@[j]).region is Some
        }),
    ensures
        res matches Err(MetaError::RouteInfoCorrupted { err_msg }) && err_msg@
            == if message.table_routes@[i].table is None {
            "'table' is empty in table route"@
        } else if message.table_routes@[i].table->0.table_name is None {
            "table name required"@
        } else {
            "'region' is empty in region route"@
        },
{
    assert(header_error(message@.header) is None);
    law_response_is_read_whole(message@);
    let views = message@.table_routes;
    lemma_readable(message, i);
    assert(TableRouteView::from_raw(message@.peers, views[i]) is Err);
    let error = res->Err_0@;
    let first = choose|k: int|
        0 <= k < views.len() && TableRouteView::from_raw(
            message@.peers,
            #[trigger] views[k],
        ) == Err::<TableRouteView, _>(error) && forall|j: int|
            0 <= j < k ==> TableRouteView::from_raw(message@.peers, #[trigger] views[j]) is Ok;
    if first < i {
        lemma_readable(message, first);
        assert(message.table_routes@[first].table is Some);
    }
    if i < first {
        assert(TableRouteView::from_raw(message@.peers, views[i]) is Ok);
    }
}

/// A response that was read has as many table routes as the message. Its table
/// route `n` has the table of the message's; region route `i` of that one has the
/// message's region, the peer at the leader's index as its leader, and the peers
/// at those followers' indexes that are not past the last peer as its followers.
pub proof fn law_read_response(
    message: pb::RouteResponse,
    res: Result<RouteResponse, MetaError>,
    n: int,
    i: int,
)
    requires
        call_ensures(<RouteResponse as TryFrom<pb::RouteResponse>>::try_from, (message,), res),
        res is Ok,
        0 <= n < message.table_routes@.len(),
    ensures
        res->Ok_0.table_routes@.len() == message.table_routes@.len(),
        ({
            let peers = message.peers@;
            let raw = message.table_routes@[n];
            let route = res->Ok_0.table_routes@[n];
            &&& route.table.id == raw.table->0.id
            &&& route.table.table_name.catalog_name@ == raw.table->0.table_name->0.catalog_name@
            &&& route.table.table_name.schema_name@ == raw.table->0.table_name->0.schema_name@
            &&& route.table.table_name.table_name@ == raw.table->0.table_name->0.table_name@
            &&& route.table.table_schema@ == raw.table->0.table_schema@
            &&& route.region_routes@.len() == raw.region_routes@.len()
            &&& 0 <= i < raw.region_routes@.len() ==> {
                let ours = route.region_routes@[i];
                let theirs = raw.region_routes@[i];
                let known = theirs.follower_peer_indexes@.filter(
                    |index: u64| (index as usize) < peers.len(),
                );
                &&& ours.region.id == theirs.region->0.id
                &&& ours.region.name@ == theirs.region->0.name@
                &&& ours.region.attrs.deep_view() == theirs.region->0.attrs.deep_view()
                &&& match (ours.region.partition, theirs.region->0.partition) {
                    (Some(p), Some(q)) => p.column_list.deep_view() == q.column_list.deep_view()
                        && p.value_list.deep_view() == q.value_list.deep_view(),
                    (None, None) => true,
                    _ => false,
                }
                &&& match ours.leader_peer {
                    Some(p) => {
                        let k = theirs.leader_peer_index as usize;
                        k < peers.len() && p.id == peers[k as int].id && p.addr@
                            == peers[k as int].addr@
                    },
                    None => (theirs.leader_peer_index as usize) >= peers.len(),
                }
                &&& ours.follower_peers@.len() == known.len()
                &&& forall|j: int|
                    0 <= j < known.len() ==> {
                        &&& (#[trigger] ours.follower_peers@[j]).id == peers[(
                        known[j] as usize) as int].id
                        &&& ours.follower_peers@[j].addr@ == peers[(known[j] as usize) as int].addr@
                    }
            }
        }),
{
    let response = res->Ok_0;
    assert(RouteResponseView::from_message(message@) == Ok::<_, ErrorView>(response@));
    law_response_is_read_whole(message@);
    assert(response@.table_routes.len() == message@.table_routes.len());
    assert(message@.table_routes[n] == message.table_routes@[n]@);
    assert(response@.table_routes[n] == response.table_routes@[n]@);
    assert(message@.peers =~= Seq::new(message.peers@.len(), |k: int| message.peers@[k]@));
    lemma_read(message.peers@, message.table_routes@[n], response.table_routes@[n], i);
}

/// A request to create a table starts with the given name and information, and
/// without partitions.
pub proof fn law_new_create_request<'a>(
    table_name: TableName,
    table_info: &'a serde_json::Value,
    res: CreateRequest<'a>,
)
    requires
        call_ensures(CreateRequest::<'a>::new, (table_name, table_info), res),
    ensures
        res.table_name == table_name,
        res.partitions@.len() == 0,
        *res.table_info == *table_info,
{
    assert(res@.partitions.len() == 0);
}

/// A partition is added behind the others, and nothing else changes.
pub proof fn law_added_partition<'a>(
    req: CreateRequest<'a>,
    partition: Partition,
    res: CreateRequest<'a>,
)
    requires
        call_ensures(CreateRequest::<'a>::add_partition, (req, partition), res),
    ensures
        res.table_name == req.table_name,
        *res.table_info == *req.table_info,
        res.partitions@.len() == req.partitions@.len() + 1,
        res.partitions@.last() == partition,
        forall|i: int|
            0 <= i < req.partitions@.len() ==> #[trigger] res.partitions@[i] == req.partitions@[i],
{
    assert(*res.table_info == res@.table_info);
}

/// The fields of a message for a request.
proof fn lemma_create_message<'a>(req: CreateRequest<'a>, message: pb::CreateRequest, info: Seq<u8>)
    requires
        message@ == req@.message(info),
    ensures
        message.header is None,
        message.table_name matches Some(name) && name.catalog_name@ == req.table_name.catalog_name@
            && name.schema_name@ == req.table_name.schema_name@ && name.table_name@
            == req.table_name.table_name@,
        message.partitions@.len() == req.partitions@.len(),
        forall|i: int|
            0 <= i < req.partitions@.len() ==> {
                &&& (#[trigger] message.partitions@[i]).column_list.deep_view()
                    == req.partitions@[i].column_list.deep_view()
                &&& message.partitions@[i].value_list.deep_view()
                    == req.partitions@[i].value_list.deep_view()
            },
        message.table_info@ == info,
{
    assert(message@.header == message.header);
    assert(message.table_name is Some && message.table_name->0@ == req.table_name@);
    assert(message@.partitions.len() == req@.partitions.len());
    assert forall|i: int| 0 <= i < req.partitions@.len() implies {
        &&& (#[trigger] message.partitions@[i]).column_list.deep_view()
            == req.partitions@[i].column_list.deep_view()
        &&& message.partitions@[i].value_list.deep_view()
            == req.partitions@[i].value_list.deep_view()
    } by {
        assert(message@.partitions[i] == message.partitions@[i]@);
        assert(req@.partitions[i] == req.partitions@[i]@);
    }
}

/// Where the information was written as JSON, the message has no header, the
/// request's name, each of its partitions in their order with its columns and
/// values, and the bytes that were written. Where it was not, the reason is
/// passed on.
pub proof fn law_create_message<'a>(
    req: CreateRequest<'a>,
    table_info: Result<Vec<u8>, serde_json::Error>,
    res: Result<pb::CreateRequest, MetaError>,
)
    requires
        call_ensures(CreateRequest::<'a>::into_message, (req, table_info), res),
    ensures
        res is Ok <==> table_info is Ok,
        res matches Err(error) ==> {
            &&& error matches MetaError::SerdeJson { source }
            &&& source == table_info->Err_0
        },
        res matches Ok(message) ==> {
            &&& message.header is None
            &&& message.table_name matches Some(name)
            &&& name.catalog_name@ == req.table_name.catalog_name@
            &&& name.schema_name@ == req.table_name.schema_name@
            &&& name.table_name@ == req.table_name.table_name@
            &&& message.partitions@.len() == req.partitions@.len()
            &&& forall|i: int|
                0 <= i < req.partitions@.len() ==> {
                    &&& (#[trigger] message.partitions@[i]).column_list.deep_view()
                        == req.partitions@[i].column_list.deep_view()
                    &&& message.partitions@[i].value_list.deep_view()
                        == req.partitions@[i].value_list.deep_view()
                }
            &&& message.table_info@ == table_info->Ok_0@
        },
{
    if table_info is Ok {
        lemma_create_message(req, res->Ok_0, table_info->Ok_0@);
    }
}

/// A request to create a table becomes a message exactly where its information
/// can be written as JSON; the message has no header, the request's name, each
/// of its partitions in their order with its columns and values, and the bytes
/// of that JSON.
pub proof fn law_create_request_message<'a>(
    req: CreateRequest<'a>,
    res: Result<pb::CreateRequest, MetaError>,
)
    requires
        call_ensures(<pb::CreateRequest as TryFrom<CreateRequest<'a>>>::try_from, (req,), res),
    ensures
        res is Ok <==> json_bytes(*req.table_info) is Some,
        res is Err ==> res->Err_0 is SerdeJson,
        res matches Ok(message) ==> {
            &&& message.header is None
            &&& message.table_name matches Some(name)
            &&& name.catalog_name@ == req.table_name.catalog_name@
            &&& name.schema_name@ == req.table_name.schema_name@
            &&& name.table_name@ == req.table_name.table_name@
            &&& message.partitions@.len() == req.partitions@.len()
            &&& forall|i: int|
                0 <= i < req.partitions@.len() ==> {
                    &&& (#[trigger] message.partitions@[i]).column_list.deep_view()
                        == req.partitions@[i].column_list.deep_view()
                    &&& message.partitions@[i].value_list.deep_view()
                        == req.partitions@[i].value_list.deep_view()
                }
            &&& Some(message.table_info@) == json_bytes(*req.table_info)
        },
{
    assert(req@.table_info == *req.table_info);
    if json_bytes(*req.table_info) is Some {
        lemma_create_message(req, res->Ok_0, json_bytes(*req.table_info)->0);
    }
}

/// A request for routes starts without names, and so does the default one.
pub proof fn law_new_route_request(new: RouteRequest, default: RouteRequest)
    requires
        call_ensures(RouteRequest::new, (), new),
        call_ensures(<RouteRequest as Default>::default, (), default),
    ensures
        new.table_names@.len() == 0,
        default.table_names@.len() == 0,
{
    assert(new@.table_names.len() == 0);
    assert(default@.table_names.len() == 0);
}

/// A name is added behind the others, which stay as they are.
pub proof fn law_added_table_name(req: RouteRequest, table_name: TableName, res: RouteRequest)
    requires
        call_ensures(RouteRequest::add_table_name, (req, table_name), res),
    ensures
        res.table_names@.len() == req.table_names@.len() + 1,
        res.table_names@.last() == table_name,
        forall|i: int|
            0 <= i < req.table_names@.len() ==> #[trigger] res.table_names@[i]
                == req.table_names@[i],
{
}

/// The message of a request for routes has no header and each of the request's
/// names, in their order.
pub proof fn law_route_request_message(req: RouteRequest, res: pb::RouteRequest)
    requires
        call_ensures(<pb::RouteRequest as From<RouteRequest>>::from, (req,), res),
    ensures
        res.header is None,
        res.table_names@.len() == req.table_names@.len(),
        forall|i: int|
            0 <= i < req.table_names@.len() ==> {
                &&& (#[trigger] res.table_names@[i]).catalog_name@
                    == req.table_names@[i].catalog_name@
                &&& res.table_names@[i].schema_name@ == req.table_names@[i].schema_name@
                &&& res.table_names@[i].table_name@ == req.table_names@[i].table_name@
            },
{
    assert(res@.header == res.header);
    assert(res@.table_names.len() == req@.table_names.len());
    assert forall|i: int| 0 <= i < req.table_names@.len() implies {
        &&& (#[trigger] res.table_names@[i]).catalog_name@ == req.table_names@[i].catalog_name@
        &&& res.table_names@[i].schema_name@ == req.table_names@[i].schema_name@
        &&& res.table_names@[i].table_name@ == req.table_names@[i].table_name@
    } by {
        assert(res@.table_names[i] == res.table_names@[i]@);
        assert(req@.table_names[i] == req.table_names@[i]@);
    }
}

/// A request to delete a table holds the name it is given, and its message has
/// no header and that name.
pub proof fn law_delete_request_message(
    table_name: TableName,
    req: DeleteRequest,
    res: pb::DeleteRequest,
)
    requires
        call_ensures(DeleteRequest::new, (table_name,), req),
        call_ensures(<pb::DeleteRequest as From<DeleteRequest>>::from, (req,), res),
    ensures
        req.table_name == table_name,
        res.header is None,
        res.table_name matches Some(name) && name.catalog_name == req.table_name.catalog_name
            && name.schema_name == req.table_name.schema_name && name.table_name
            == req.table_name.table_name,
{
}

/// A peer is made of an identifier and an address; messages carry both; and two
/// peers are equal exactly where both are.
pub proof fn law_peer_fields(
    id: u64,
    addr: &str,
    new: Peer,
    message: pb::Peer,
    read: Peer,
    other: Peer,
    equal: bool,
)
    requires
        call_ensures(Peer::new, (id, addr), new),
        call_ensures(<pb::Peer as From<Peer>>::from, (new,), message),
        call_ensures(<Peer as From<pb::Peer>>::from, (message,), read),
        call_ensures(<Peer as PartialEq>::eq, (&read, &other), equal),
    ensures
        new.id == id,
        new.addr@ == addr@,
        message.id == new.id,
        message.addr == new.addr,
        read.id == message.id,
        read.addr == message.addr,
        equal <==> read.id == other.id && read.addr@ == other.addr@,
{
    assert(new@.id == id && new@.addr == addr@);
}

/// A table's full name is made of three parts, and messages carry each of them.
pub proof fn law_table_name_fields(
    catalog_name: &str,
    schema_name: &str,
    table_name: &str,
    new: TableName,
    message: pb::TableName,
    read: TableName,
)
    requires
        call_ensures(TableName::new, (catalog_name, schema_name, table_name), new),
        call_ensures(<pb::TableName as From<TableName>>::from, (new,), message),
        call_ensures(<TableName as From<pb::TableName>>::from, (message,), read),
    ensures
        new.catalog_name@ == catalog_name@,
        new.schema_name@ == schema_name@,
        new.table_name@ == table_name@,
        message.catalog_name == new.catalog_name,
        message.schema_name == new.schema_name,
        message.table_name == new.table_name,
        read.catalog_name == message.catalog_name,
        read.schema_name == message.schema_name,
        read.table_name == message.table_name,
{
    assert(new@.catalog_name == catalog_name@);
}

/// Messages carry the columns and the values of a partition.
pub proof fn law_partition_fields(partition: Partition, message: pb::Partition, read: Partition)
    requires
        call_ensures(<pb::Partition as From<Partition>>::from, (partition,), message),
        call_ensures(<Partition as From<pb::Partition>>::from, (message,), read),
    ensures
        message.column_list == partition.column_list,
        message.value_list == partition.value_list,
        read.column_list == message.column_list,
        read.value_list == message.value_list,
{
}

/// A region is written with its own identifier, name, partition and attributes.
pub proof fn law_written_region(region: Region, message: pb::Region)
    requires
        call_ensures(<pb::Region as From<Region>>::from, (region,), message),
    ensures
        message.id == region.id,
        message.name == region.name,
        message.attrs == region.attrs,
        match (region.partition, message.partition) {
            (Some(p), Some(q)) => q.column_list == p.column_list && q.value_list == p.value_list,
            (None, None) => true,
            _ => false,
        },
{
}

/// A region is read with the identifier, name, partition and attributes of its
/// message.
pub proof fn law_read_region(message: pb::Region, region: Region)
    requires
        call_ensures(<Region as From<pb::Region>>::from, (message,), region),
    ensures
        region.id == message.id,
        region.name == message.name,
        region.attrs == message.attrs,
        match (message.partition, region.partition) {
            (Some(p), Some(q)) => q.column_list == p.column_list && q.value_list == p.value_list,
            (None, None) => true,
            _ => false,
        },
{
}

/// A region and a region route that were not filled hold nothing.
pub proof fn law_unset_fields(region: Region, route: RegionRoute)
    requires
        call_ensures(<Region as Default>::default, (), region),
        call_ensures(<RegionRoute as Default>::default, (), route),
    ensures
        region.id == 0,
        region.name@.len() == 0,
        region.partition is None,
        region.attrs@ == Map::<String, String>::empty(),
        route.region.id == 0,
        route.region.name@.len() == 0,
        route.region.partition is None,
        route.region.attrs@ == Map::<String, String>::empty(),
        route.leader_peer is None,
        route.follower_peers@.len() == 0,
{
    assert(region@.id == 0 && region@.name.len() == 0 && region@.partition is None);
    assert(route@.region == route.region@);
    assert(route.region@.id == 0 && route.region@.name.len() == 0);
    assert(route.region@.partition is None);
    assert(route@.leader_peer is None);
    assert(route@.follower_peers.len() == 0);
}

/// Bytes are shown as the text of which they are the UTF-8 encoding; bytes that
/// encode no text are all shown alike.
pub proof fn law_shown_bytes(val: &[u8], res: String)
    requires
        call_ensures(as_utf8, (val,), res),
    ensures
        valid_utf8(val@) ==> encode_utf8(res@) == val@,
        !valid_utf8(val@) ==> res@ == "<unknown-not-UTF8>"@,
{
    if valid_utf8(val@) {
        vstd::utf8::decode_utf8_encode_utf8(val@);
    }
}

/// Nothing is shown of an empty list.
pub proof fn law_shown_empty_list(val: &[Vec<u8>], res: String)
    requires
        call_ensures(as_utf8_vec, (val,), res),
        val@.len() == 0,
    ensures
        res@.len() == 0,
{
    assert(val.deep_view().len() == 0);
}

/// A list is shown as it is shown without its last part; then a comma, unless
/// nothing stands before it; then what is shown of that part.
pub proof fn law_shown_list(
    shorter: &[Vec<u8>],
    longer: &[Vec<u8>],
    part: &[u8],
    shown_shorter: String,
    shown_longer: String,
    shown_part: String,
)
    requires
        call_ensures(as_utf8_vec, (shorter,), shown_shorter),
        call_ensures(as_utf8_vec, (longer,), shown_longer),
        call_ensures(as_utf8, (part,), shown_part),
        longer@.len() == shorter@.len() + 1,
        forall|i: int| 0 <= i < shorter@.len() ==> (#[trigger] longer@[i])@ == shorter@[i]@,
        longer@.last()@ == part@,
    ensures
        shown_longer@ == if shorter@.len() == 0 {
            shown_part@
        } else {
            shown_shorter@ + seq![','] + shown_part@
        },
{
    reveal_strlit(",");
    assert(","@ =~= seq![',']);
    let f = |bytes: Seq<u8>| text_of(bytes);
    let a = shorter.deep_view().map_values(f);
    let b = longer.deep_view().map_values(f);
    assert forall|i: int| 0 <= i < shorter@.len() implies #[trigger] a[i] == b[i] by {
        assert(shorter.deep_view()[i] =~= shorter@[i]@);
        assert(longer.deep_view()[i] =~= longer@[i]@);
    }
    assert(longer.deep_view().last() =~= part@);
    assert(b.drop_last() =~= a);
    assert(b.last() == shown_part@);
    assert(shown_longer@ == comma_separated(b));
}

} // verus!
