//! The request-dispatch pipeline: from an inbound request and a server
//! configuration to what the server does with it.

use vstd::prelude::*;

use crate::config::{EndpointConfiguration, EndpointType, ServerConfiguration};
use crate::error::ApplicationError;
use crate::matcher::{endpoint_error_message, first_invalid, match_key, match_key_spec, select_endpoint, select_spec};
use crate::mock::{generate_mock_response, mock_response_matches, MockResponse};
use crate::mock::valid_status;
use crate::route::{plan_outbound_request, plan_matches, InboundRequest, OutboundPlan};
use crate::subst::subst_spec;
use crate::text::opt_view;

verus! {

/// What the server does with one request.
#[derive(Debug)]
pub enum DispatchDecision {
    /// Answer from the mock template: sleep, then send the response.
    Mock { delay: u64, response: MockResponse },
    /// Forward the request along the described plan.
    Forward { plan: OutboundPlan },
    /// Answer 501 Not Implemented.
    NotImplemented,
    /// Answer 503 Service Unavailable with the message as body.
    Unavailable { message: String },
}

/// What a matched endpoint does with the request.
pub open spec fn endpoint_decision_spec(
    e: EndpointConfiguration,
    req: InboundRequest,
    bindings: Seq<(String, String)>,
    d: DispatchDecision,
) -> bool {
    match e.endpoint_type {
        Option::None => d is NotImplemented,
        Option::Some(t) => match t {
            EndpointType::Mock { configuration } => {
                if valid_status(subst_spec(configuration.status@, bindings)) {
                    d matches DispatchDecision::Mock { delay, response } && delay
                        == configuration.delay && mock_response_matches(
                        response,
                        configuration,
                        bindings,
                    )
                } else {
                    d is NotImplemented
                }
            },
            EndpointType::Route { configuration } => {
                if req.version is Some {
                    d matches DispatchDecision::Forward { plan } && plan_matches(
                        plan,
                        configuration,
                        req,
                    )
                } else {
                    d is NotImplemented
                }
            },
        },
    }
}

/// Carry out the decision a matched endpoint calls for: a mock is rendered
/// under the bindings, a route is planned, anything else answers Not
/// Implemented, and a handler failure answers Not Implemented too.
pub fn handle_endpoint(
    endpoint: &EndpointConfiguration,
    req: &InboundRequest,
    bindings: &Vec<(String, String)>,
) -> (d: DispatchDecision)
    ensures
        endpoint_decision_spec(*endpoint, *req, bindings@, d),
{
    match &endpoint.endpoint_type {
        Option::None => DispatchDecision::NotImplemented,
        Option::Some(t) => match t {
            EndpointType::Mock { configuration } => {
                match generate_mock_response(configuration, bindings) {
                    Ok(response) => DispatchDecision::Mock { delay: configuration.delay, response },
                    Err(_) => DispatchDecision::NotImplemented,
                }
            },
            EndpointType::Route { configuration } => {
                match plan_outbound_request(configuration, req) {
                    Ok(plan) => DispatchDecision::Forward { plan },
                    Err(_) => DispatchDecision::NotImplemented,
                }
            },
        },
    }
}

/// What dispatching one request through a server configuration yields.
pub open spec fn dispatch_spec(
    server: ServerConfiguration,
    req: InboundRequest,
    bindings: Seq<(String, String)>,
    d: DispatchDecision,
) -> bool {
    let key = match_key_spec(req.path@, req.query@);
    match select_spec(server.endpoints@, key, req.method@, opt_view(req.body)) {
        Result::Err(()) => exists|i: int|
            #[trigger] first_invalid(server.endpoints@, key, req.method@, opt_view(req.body), i)
                && (d matches DispatchDecision::Unavailable { message } && message@
                == "Configuration error: "@ + endpoint_error_message(server.endpoints@[i])),
        Result::Ok(o) => match o {
            Option::None => d is NotImplemented,
            Option::Some(i) => endpoint_decision_spec(server.endpoints@[i], req, bindings, d),
        },
    }
}

/// Dispatch one request: compose the match key, walk the endpoints for the
/// first match, and carry out what it calls for.  A pattern that does not
/// compile answers Service Unavailable; no match answers Not Implemented.
pub fn dispatch_request(
    server: &ServerConfiguration,
    req: &InboundRequest,
    bindings: &Vec<(String, String)>,
) -> (d: DispatchDecision)
    ensures
        dispatch_spec(*server, *req, bindings@, d),
{
    let key = match_key(req.path.as_str(), req.query.as_str());
    match select_endpoint(&server.endpoints, key.as_str(), req.method.as_str(), &req.body) {
        Ok(Option::Some(i)) => handle_endpoint(&server.endpoints[i], req, bindings),
        Ok(Option::None) => DispatchDecision::NotImplemented,
        Err(e) => {
            let message = e.to_message();
            proof {
                let w = choose|i: int|
                    #[trigger] first_invalid(
                        server.endpoints@,
                        key@,
                        req.method@,
                        opt_view(req.body),
                        i,
                    ) && (e matches ApplicationError::ConfigurationError(m) && m@
                        == endpoint_error_message(server.endpoints@[i]));
                assert(first_invalid(
                    server.endpoints@,
                    key@,
                    req.method@,
                    opt_view(req.body),
                    w,
                ));
                assert(message@ == "Configuration error: "@ + endpoint_error_message(
                    server.endpoints@[w],
                ));
            }
            DispatchDecision::Unavailable { message }
        },
    }
}

} // verus!
