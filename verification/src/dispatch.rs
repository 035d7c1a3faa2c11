use vstd::prelude::*;
use crate::authority::{
    parse_tunnel_target, tunnel_host, tunnel_port, valid_authority, TunnelTarget,
};
use crate::rewrite::{apply_rules, rewritten, RewriteRule};
use crate::uri::{UriParts, UriView};

verus! {

/// Status answered to a CONNECT request whose target cannot be tunneled.
pub const STATUS_BAD_REQUEST: u16 = 400;

/// Status answered to a CONNECT request whose tunnel will be opened.
pub const STATUS_OK: u16 = 200;

/// The request method as the dispatcher distinguishes it: CONNECT gets
/// the tunnel path, every other method the plain forwarding path.
#[derive(Clone, Copy, PartialEq, Eq, Structural, Debug)]
pub enum Method {
    Connect,
    Other,
}

/// One inbound request, as the transport hands it to the dispatcher.
/// It is consumed by one classification and not retained.
pub struct InboundRequest {
    pub method: Method,
    pub uri: UriParts,
}

/// An error answer for one request: the status to send and a plain-text
/// explanatory body.
pub struct Rejection {
    pub status: u16,
    pub message: String,
}

/// The one outcome of dispatching a request: forward it, open a tunnel
/// for it, or reject it. Exactly one is produced per request.
pub enum Outcome {
    /// Forward as a plain HTTP request to the (possibly rewritten) target.
    Forward(UriParts),
    /// Establish a CONNECT tunnel to the resolved destination.
    OpenTunnel(TunnelTarget),
    /// Answer with an error status; no upgrade, no forwarding.
    Reject(Rejection),
}

/// The CONNECT target is present and is a socket-reachable `host:port`.
pub open spec fn connect_target_ok(u: UriView) -> bool {
    match u.authority {
        Some(a) => valid_authority(a),
        None => false,
    }
}

/// Classifies one inbound request and produces its one outcome.
///
/// A CONNECT request with a valid `host:port` authority yields the
/// resolved tunnel target; a CONNECT request with a missing or malformed
/// authority yields a 400 rejection with a descriptive body; any other
/// request is forwarded to its target as the rule table rewrites it.
pub fn classify_request(rules: &Vec<RewriteRule>, req: &InboundRequest) -> (r: Outcome)
    ensures
        match r {
            Outcome::Forward(u) => req.method is Other && u@ == rewritten(rules@, req.uri@),
            Outcome::OpenTunnel(t) => {
                &&& req.method is Connect
                &&& connect_target_ok(req.uri@)
                &&& t.host@ == tunnel_host(req.uri@.authority->0)
                &&& t.port as int == tunnel_port(req.uri@.authority->0)
            },
            Outcome::Reject(rej) => {
                &&& req.method is Connect
                &&& !connect_target_ok(req.uri@)
                &&& rej.status == STATUS_BAD_REQUEST
                &&& rej.message@ == "CONNECT must be to a socket address"@
            },
        },
{
    match req.method {
        Method::Connect => {
            let parsed = match &req.uri.authority {
                Some(a) => parse_tunnel_target(a.as_str()),
                None => None,
            };
            match parsed {
                Some(t) => Outcome::OpenTunnel(t),
                None => Outcome::Reject(
                    Rejection {
                        status: STATUS_BAD_REQUEST,
                        message: "CONNECT must be to a socket address".to_owned(),
                    },
                ),
            }
        },
        Method::Other => Outcome::Forward(apply_rules(rules, &req.uri)),
    }
}

} // verus!
