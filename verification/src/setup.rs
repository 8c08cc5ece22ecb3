//! The server supervisor's pure side: from a setup configuration to the
//! fleet of startable instances.

use vstd::prelude::*;

use crate::config::{ServerConfiguration, SetupConfiguration, TcpListenerData};
use crate::tcp::AppListener;

verus! {

/// One startable instance of a setup's fleet.
#[derive(Debug)]
pub enum StartablePlan {
    /// An HTTP and/or HTTPS server, with its own copy of the configuration
    /// and the resolved parameter bindings.
    Server { configuration: ServerConfiguration, params: Vec<(String, String)> },
    /// A TCP listener, with its own copy of the configuration.
    Listener { listener: AppListener },
}

/// The plan holds one server instance per server configuration and one
/// listener instance per listener configuration, servers first, each
/// carrying a copy of its configuration, and every server carrying the
/// bindings.
pub open spec fn setup_plan_matches(
    setup: SetupConfiguration,
    params: Seq<(String, String)>,
    plan: Seq<StartablePlan>,
) -> bool {
    &&& plan.len() == setup.servers@.len() + setup.listeners@.len()
    &&& forall|i: int|
        0 <= i < setup.servers@.len() ==> ((#[trigger] plan[i]) matches StartablePlan::Server {
            configuration,
            params: p,
        } && configuration.eqv(&setup.servers@[i]) && p@ == params)
    &&& forall|i: int|
        setup.servers@.len() <= i < plan.len() ==> ((#[trigger] plan[i])
            matches StartablePlan::Listener { listener } && listener.tcp_listener.eqv(
            &setup.listeners@[i - setup.servers@.len()],
        ))
}

/// Build the fleet of a setup: one instance per server and per listener,
/// servers first, each capturing a copy of its configuration; every server
/// also captures the resolved parameter bindings.  No socket is touched.
pub fn plan_setup(setup: &SetupConfiguration, params: &Vec<(String, String)>) -> (r: Vec<
    StartablePlan,
>)
    ensures
        setup_plan_matches(*setup, params@, r@),
{
    let mut out: Vec<StartablePlan> = Vec::new();
    let ns = setup.servers.len();
    let mut i: usize = 0;
    while i < ns
        invariant
            i <= ns,
            ns == setup.servers@.len(),
            out@.len() == i,
            forall|j: int|
                0 <= j < i ==> ((#[trigger] out@[j]) matches StartablePlan::Server {
                    configuration,
                    params: p,
                } && configuration.eqv(&setup.servers@[j]) && p@ == params@),
        decreases ns - i,
    {
        out.push(
            StartablePlan::Server {
                configuration: setup.servers[i].clone(),
                params: crate::text::copy_pairs(params),
            },
        );
        i = i + 1;
    }
    let nl = setup.listeners.len();
    let mut k: usize = 0;
    while k < nl
        invariant
            k <= nl,
            nl == setup.listeners@.len(),
            ns == setup.servers@.len(),
            out@.len() == ns + k,
            forall|j: int|
                0 <= j < ns ==> ((#[trigger] out@[j]) matches StartablePlan::Server {
                    configuration,
                    params: p,
                } && configuration.eqv(&setup.servers@[j]) && p@ == params@),
            forall|j: int|
                ns <= j < ns + k ==> ((#[trigger] out@[j]) matches StartablePlan::Listener {
                    listener,
                } && listener.tcp_listener.eqv(&setup.listeners@[j - ns])),
        decreases nl - k,
    {
        out.push(StartablePlan::Listener { listener: AppListener::new(&setup.listeners[k]) });
        k = k + 1;
    }
    out
}

} // verus!
