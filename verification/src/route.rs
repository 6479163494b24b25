//! The proxy router: one parsed inbound request goes in, and exactly one
//! decision comes out — answer the client directly, accept a CONNECT tunnel,
//! or dial the header-selected TLS upstream with rewritten headers. The
//! surrounding program performs the dialing, handshakes and relaying that the
//! decision calls for, and maps any upstream failure back through
//! [`upstream_failure`].

use vstd::prelude::*;
use vstd::string::*;
use vstd::utf8::encode_utf8;
use vstd::slice::slice_to_vec;
use crate::ascii::{all_visible_ascii, bytes_all_visible_ascii, eq_ignore_case, spec_lower_byte};
use crate::headers::{
    Headers, first_header_value, routing_header_name, host_header_name, spec_rewritten,
    lemma_kept_fields_keep, lemma_first_header_value_none, lemma_first_header_value_found, header,
};
use crate::target::{
    HostPort, UpstreamTarget, parse_host_port, upstream_target, spec_parse_host_port,
    spec_upstream_host,
};
use crate::envelope::{R, RView, json_of};

verus! {

/// One inbound request, as the server-side protocol engine hands it over:
/// whether the method is CONNECT, the authority of its target when the
/// request line carries one, and the header multimap in wire order.
pub struct Request {
    pub connect: bool,
    pub authority: Option<String>,
    pub headers: Headers,
}

/// A response produced by the proxy itself (not one replayed from an
/// upstream): status code, whether the body is the JSON frame, and the body
/// bytes.
pub struct ResponseEnvelope {
    pub status: u16,
    pub content_type_json: bool,
    pub body: Vec<u8>,
}

/// The router's decision for one request.
#[allow(inconsistent_fields)]
pub enum Step {
    /// Answer the client directly; no outbound connection is attempted.
    Respond(ResponseEnvelope),
    /// CONNECT accepted: the empty success response is sent first, and only
    /// then, once the connection has upgraded, bytes are relayed to `target`.
    OpenTunnel { target: HostPort, reply: ResponseEnvelope },
    /// Forward: dial `target` over TLS, send the rewritten headers, and
    /// replay the upstream's response verbatim.
    DialUpstream { target: UpstreamTarget, headers: Headers },
}

/// The routing value of a request: the value of the first routing-header
/// field, provided it decodes as text.
pub open spec fn spec_routing_value(h: Seq<(Seq<u8>, Seq<u8>)>) -> Option<Seq<u8>> {
    match first_header_value(h, routing_header_name()) {
        Some(v) => if all_visible_ascii(v) {
            Some(v)
        } else {
            None
        },
        None => None,
    }
}

/// The tunnel target of a CONNECT request: its authority parsed as
/// `host:port`.
pub open spec fn spec_connect_target(authority: Option<String>) -> Option<(Seq<u8>, u16)> {
    match authority {
        Some(a) => spec_parse_host_port(encode_utf8(a@)),
        None => None,
    }
}

/// A failure frame whose error and description both carry `text`.
pub open spec fn err_view(text: Seq<char>) -> RView {
    RView { success: false, error: Some(text), error_description: Some(text) }
}

/// The frame sent when the routing header is missing or does not decode.
pub open spec fn missing_header_view() -> RView {
    RView {
        success: false,
        error: Some("missing header(x-sc)"@),
        error_description: Some("缺少服务编码"@),
    }
}

/// The text rejecting a CONNECT whose target is not a socket address.
pub open spec fn connect_reject_text(authority: Option<String>) -> Seq<char> {
    "CONNECT must be to a socket address: "@ + match authority {
        Some(a) => a@,
        None => Seq::<char>::empty(),
    }
}

/// The stage of a failed forward, in the order the stages run.
pub enum UpstreamFailure {
    /// The TCP dial to the computed upstream failed.
    Connect,
    /// The computed hostname was not accepted as a TLS server name.
    UnknownHost,
    /// The TLS handshake with the upstream failed.
    TlsHandshake,
}

/// The label that prefixes the failure detail of each stage.
pub open spec fn failure_label(kind: UpstreamFailure) -> Seq<char> {
    match kind {
        UpstreamFailure::Connect => "access failed: "@,
        UpstreamFailure::UnknownHost => "unknown host: "@,
        UpstreamFailure::TlsHandshake => "TLS handshake failed: "@,
    }
}

/// The 400 response for a forward request whose routing header is missing or
/// does not decode as text. No network action accompanies it.
pub fn forbidden() -> (e: ResponseEnvelope)
    ensures
        e.status == 400,
        e.content_type_json,
        e.body@ == json_of(missing_header_view()),
{
    let frame = R::error("missing header(x-sc)", "缺少服务编码");
    let body = frame.serialize();
    ResponseEnvelope { status: 400, content_type_json: true, body }
}

/// A 500 response whose frame carries `err`, for a forward that failed
/// between deciding to dial and receiving the upstream response.
pub fn error(err: &str) -> (e: ResponseEnvelope)
    ensures
        e.status == 500,
        e.content_type_json,
        e.body@ == json_of(err_view(err@)),
{
    let frame = R::err(err);
    let body = frame.serialize();
    ResponseEnvelope { status: 500, content_type_json: true, body }
}

/// The 500 response for a forward that failed at `kind`, with the stage
/// label prefixed to the detail text, so that dial, server-name and
/// handshake failures stay distinguishable.
pub fn upstream_failure(kind: UpstreamFailure, detail: &str) -> (e: ResponseEnvelope)
    ensures
        e.status == 500,
        e.content_type_json,
        e.body@ == json_of(err_view(failure_label(kind) + detail@)),
{
    let mut msg: String = match kind {
        UpstreamFailure::Connect => "access failed: ".to_owned(),
        UpstreamFailure::UnknownHost => "unknown host: ".to_owned(),
        UpstreamFailure::TlsHandshake => "TLS handshake failed: ".to_owned(),
    };
    msg.append(detail);
    error(msg.as_str())
}

/// Decide one request. Exactly one decision comes out, and a response is
/// produced without any outbound connection whenever the request is rejected.
pub fn handle_request(req: Request, suffix: &[u8]) -> (s: Step)
    ensures
        req.connect ==> (spec_connect_target(req.authority) matches Some(hp) ==> (s matches
            Step::OpenTunnel { target, reply } && (target.host@, target.port) == hp
            && reply.status == 200 && !reply.content_type_json && reply.body@ == Seq::<
            u8,
        >::empty())),
        req.connect && spec_connect_target(req.authority) is None ==> (s matches Step::Respond(e)
            && e.status == 400 && e.content_type_json && e.body@ == json_of(
            err_view(connect_reject_text(req.authority)),
        )),
        !req.connect ==> (spec_routing_value(req.headers@) matches Some(v) ==> (s matches
            Step::DialUpstream { target, headers } && target.host@ == spec_upstream_host(
            v,
            suffix@,
        ) && target.port == 443 && headers@ == spec_rewritten(req.headers@, target.host@))),
        !req.connect && spec_routing_value(req.headers@) is None ==> (s matches Step::Respond(e)
            && e.status == 400 && e.content_type_json && e.body@ == json_of(
            missing_header_view(),
        )),
{
    let Request { connect, authority, headers } = req;
    if connect {
        let parsed = match &authority {
            Some(a) => parse_host_port(a.as_str().as_bytes()),
            None => None,
        };
        match parsed {
            Some(hp) => {
                let reply = ResponseEnvelope {
                    status: 200,
                    content_type_json: false,
                    body: Vec::new(),
                };
                Step::OpenTunnel { target: hp, reply }
            },
            None => {
                let mut msg: String = "CONNECT must be to a socket address: ".to_owned();
                match &authority {
                    Some(a) => msg.append(a.as_str()),
                    None => (),
                };
                let e = ResponseEnvelope {
                    status: 400,
                    content_type_json: true,
                    body: R::err(msg.as_str()).serialize(),
                };
                Step::Respond(e)
            },
        }
    } else {
        let mut headers = headers;
        let value: Option<Vec<u8>> = match headers.get("x-sc".as_bytes()) {
            Some(v) => {
                if bytes_all_visible_ascii(v.as_slice()) {
                    Some(slice_to_vec(v.as_slice()))
                } else {
                    None
                }
            },
            None => None,
        };
        match value {
            Some(svc) => {
                let target = upstream_target(svc.as_slice(), suffix);
                header(&mut headers, &target.host);
                Step::DialUpstream { target, headers }
            },
            None => Step::Respond(forbidden()),
        }
    }
}

/// Invariants of every forwarded request: the routing header never goes
/// upstream, and the host header names exactly the computed upstream.
pub proof fn lemma_forward_header_invariants(h: Seq<(Seq<u8>, Seq<u8>)>, host: Seq<u8>)
    ensures
        first_header_value(spec_rewritten(h, host), routing_header_name()) is None,
        first_header_value(spec_rewritten(h, host), host_header_name()) == Some(host),
{
    lemma_header_names_differ();
    lemma_kept_fields_keep(h);
    let k = crate::headers::spec_kept_fields(h);
    let w = spec_rewritten(h, host);
    assert(w == k.push((host_header_name(), host)));
    assert forall|j: int| 0 <= j < w.len() implies !eq_ignore_case(
        w[j].0,
        routing_header_name(),
    ) by {
        if j < k.len() {
            assert(w[j] == k[j]);
            assert(crate::headers::keep_field(k[j].0));
        } else {
            assert(w[j] == (host_header_name(), host));
        }
    }
    lemma_first_header_value_none(w, routing_header_name());
    assert forall|j: int| 0 <= j < w.len() - 1 implies !eq_ignore_case(
        w[j].0,
        host_header_name(),
    ) by {
        assert(w[j] == k[j]);
        assert(crate::headers::keep_field(k[j].0));
    }
    assert(eq_ignore_case(w[w.len() - 1].0, host_header_name()));
    lemma_first_header_value_found(w, host_header_name(), w.len() - 1);
}

/// The host header's name is not the routing header's name, in any case mix.
proof fn lemma_header_names_differ()
    ensures
        !eq_ignore_case(host_header_name(), routing_header_name()),
        eq_ignore_case(host_header_name(), host_header_name()),
{
    reveal_strlit("host");
    reveal_strlit("x-sc");
    vstd::string::is_ascii_spec_bytes("host");
    vstd::string::is_ascii_spec_bytes("x-sc");
    assert(is_ascii("host"));
    assert(is_ascii("x-sc"));
    assert(host_header_name()[0] == 104);
    assert(routing_header_name()[0] == 120);
    assert(spec_lower_byte(104) == 104);
    assert(spec_lower_byte(120) == 120);
}

} // verus!
