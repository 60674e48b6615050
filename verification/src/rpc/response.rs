//! The answer to a route request.

use vstd::prelude::*;
use vstd::std_specs::convert::TryFromSpecImpl;

use crate::error::{outcome, ErrorView, MetaError};
use crate::pb;
use crate::rpc::router::{TableRoute, TableRouteView};
use crate::rpc::util::{check_response_header, header_error};

verus! {

/// The routes of the tables that a request asked for.
#[derive(Debug, Clone)]
pub struct RouteResponse {
    pub table_routes: Vec<TableRoute>,
}

pub struct RouteResponseView {
    pub table_routes: Seq<TableRouteView>,
}

impl View for RouteResponse {
    type V = RouteResponseView;

    open spec fn view(&self) -> RouteResponseView {
        RouteResponseView { table_routes: self.table_routes.deep_view() }
    }
}

impl DeepView for RouteResponse {
    type V = RouteResponseView;

    open spec fn deep_view(&self) -> RouteResponseView {
        self@
    }
}

/// The first result that is an error is at `i`.
pub open spec fn first_error_at<T, E>(results: Seq<Result<T, E>>, i: int) -> bool {
    &&& 0 <= i < results.len()
    &&& results[i] is Err
    &&& forall|j: int| 0 <= j < i ==> (#[trigger] results[j]) is Ok
}

/// The values of all results, or the first error among them.
pub open spec fn collected<T, E>(results: Seq<Result<T, E>>) -> Result<Seq<T>, E> {
    if exists|i: int| first_error_at(results, i) {
        Err(results[choose|i: int| first_error_at(results, i)]->Err_0)
    } else {
        Ok(results.map_values(|result: Result<T, E>| result->Ok_0))
    }
}

impl RouteResponseView {
    /// What each table route of a message stands for.
    pub open spec fn routes_of(message: pb::RouteResponseView) -> Seq<
        Result<TableRouteView, ErrorView>,
    > {
        message.table_routes.map_values(
            |raw: pb::TableRouteView| TableRouteView::from_raw(message.peers, raw),
        )
    }

    /// What a message answers: the error of its header, or else the first error
    /// among its table routes, or else all of these.
    pub open spec fn from_message(message: pb::RouteResponseView) -> Result<Self, ErrorView> {
        match header_error(message.header) {
            Some(error) => Err(error),
            None => match collected(Self::routes_of(message)) {
                Ok(table_routes) => Ok(RouteResponseView { table_routes }),
                Err(error) => Err(error),
            },
        }
    }
}

impl TryFromSpecImpl<pb::RouteResponse> for RouteResponse {
    open spec fn obeys_try_from_spec() -> bool {
        false
    }

    open spec fn try_from_spec(pb: pb::RouteResponse) -> Result<Self, MetaError> {
        arbitrary()
    }
}

impl TryFrom<pb::RouteResponse> for RouteResponse {
    type Error = MetaError;

    fn try_from(pb: pb::RouteResponse) -> (res: Result<Self, MetaError>)
        ensures
            outcome(res) == RouteResponseView::from_message(pb@),
    {
        let ghost message = pb@;
        let ghost routes = RouteResponseView::routes_of(message);
        if let Err(error) = check_response_header(pb.header.as_ref()) {
            return Err(error);
        }
        let peers = pb.peers;
        let mut table_routes: Vec<TableRoute> = Vec::with_capacity(pb.table_routes.len());
        for raw in it: pb.table_routes.into_iter()
            invariant
                header_error(message.header) is None,
                message.peers == peers.deep_view(),
                routes == RouteResponseView::routes_of(message),
                message == pb@,
                routes.len() == it.seq().len(),
                forall|i: int|
                    0 <= i < it.seq().len() ==> message.table_routes[i] == (
                    #[trigger] it.seq()[i])@,
                table_routes.len() == it.index(),
                forall|i: int|
                    0 <= i < it.index() ==> #[trigger] routes[i] == Ok::<_, ErrorView>(
                        table_routes[i]@,
                    ),
        {
            let ghost n = it.index() as int;
            assert(message.table_routes[n] == raw@);
            match TableRoute::try_from_raw(peers.as_slice(), raw) {
                Ok(table_route) => table_routes.push(table_route),
                Err(error) => {
                    proof {
                        assert(first_error_at(routes, n));
                        let first = choose|i: int| first_error_at(routes, i);
                        assert(first == n) by {
                            if first < n {
                                assert(routes[first] is Ok);
                            }
                            if n < first {
                                assert(routes[n] is Ok);
                            }
                        }
                    }
                    return Err(error);
                },
            }
        }
        assert(table_routes.deep_view() =~= routes.map_values(
            |result: Result<TableRouteView, ErrorView>| result->Ok_0,
        ));
        Ok(RouteResponse { table_routes })
    }
}

} // verus!
