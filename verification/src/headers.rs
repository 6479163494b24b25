//! Model of the inbound request's header multimap: ordered fields with
//! case-preserved names, case-insensitive lookup, and the forward rewrite
//! that strips the routing header and pins the host header to the computed
//! upstream hostname.

use vstd::prelude::*;
use vstd::string::*;
use vstd::slice::slice_to_vec;
use crate::ascii::{eq_ignore_case, bytes_eq_ignore_case};

verus! {

/// One header field: name (case preserved) and raw value bytes.
pub struct HeaderField {
    pub name: Vec<u8>,
    pub value: Vec<u8>,
}

impl View for HeaderField {
    type V = (Seq<u8>, Seq<u8>);

    open spec fn view(&self) -> (Seq<u8>, Seq<u8>) {
        (self.name@, self.value@)
    }
}

/// The fields of a header list as pairs of byte sequences.
pub open spec fn fields_view(v: Seq<HeaderField>) -> Seq<(Seq<u8>, Seq<u8>)> {
    v.map_values(|f: HeaderField| f@)
}

/// The header multimap of one request, in wire order.
pub struct Headers {
    pub fields: Vec<HeaderField>,
}

impl View for Headers {
    type V = Seq<(Seq<u8>, Seq<u8>)>;

    open spec fn view(&self) -> Seq<(Seq<u8>, Seq<u8>)> {
        fields_view(self.fields@)
    }
}

/// The fixed name of the routing header.
pub open spec fn routing_header_name() -> Seq<u8> {
    "x-sc".spec_bytes()
}

/// The name of the host header that the rewrite pins.
pub open spec fn host_header_name() -> Seq<u8> {
    "host".spec_bytes()
}

/// The value of the first field whose name matches `name` up to ASCII case,
/// scanning in wire order; `None` when no field matches.
pub open spec fn first_header_value(h: Seq<(Seq<u8>, Seq<u8>)>, name: Seq<u8>) -> Option<Seq<u8>>
    decreases h.len(),
{
    if h.len() == 0 {
        None
    } else if eq_ignore_case(h[0].0, name) {
        Some(h[0].1)
    } else {
        first_header_value(h.drop_first(), name)
    }
}

/// A field name that survives the forward rewrite: neither the routing
/// header nor the host header.
pub open spec fn keep_field(name: Seq<u8>) -> bool {
    !eq_ignore_case(name, routing_header_name()) && !eq_ignore_case(name, host_header_name())
}

/// The fields of `h` that survive the forward rewrite, in their original order.
pub open spec fn spec_kept_fields(h: Seq<(Seq<u8>, Seq<u8>)>) -> Seq<(Seq<u8>, Seq<u8>)>
    decreases h.len(),
{
    if h.len() == 0 {
        Seq::empty()
    } else {
        let rest = spec_kept_fields(h.drop_last());
        if keep_field(h.last().0) {
            rest.push(h.last())
        } else {
            rest
        }
    }
}

/// The header set sent upstream: the surviving fields of `h`, then the host
/// header set to `host`.
pub open spec fn spec_rewritten(h: Seq<(Seq<u8>, Seq<u8>)>, host: Seq<u8>) -> Seq<
    (Seq<u8>, Seq<u8>),
> {
    spec_kept_fields(h).push((host_header_name(), host))
}

pub proof fn lemma_first_header_value_found(h: Seq<(Seq<u8>, Seq<u8>)>, name: Seq<u8>, i: int)
    requires
        0 <= i < h.len(),
        eq_ignore_case(h[i].0, name),
        forall|j: int| 0 <= j < i ==> !eq_ignore_case(h[j].0, name),
    ensures
        first_header_value(h, name) == Some(h[i].1),
    decreases i,
{
    if i > 0 {
        lemma_first_header_value_found(h.drop_first(), name, i - 1);
    }
}

pub proof fn lemma_first_header_value_none(h: Seq<(Seq<u8>, Seq<u8>)>, name: Seq<u8>)
    requires
        forall|j: int| 0 <= j < h.len() ==> !eq_ignore_case(h[j].0, name),
    ensures
        first_header_value(h, name) is None,
    decreases h.len(),
{
    if h.len() > 0 {
        lemma_first_header_value_none(h.drop_first(), name);
    }
}

/// Every field kept by the rewrite has a surviving name.
pub proof fn lemma_kept_fields_keep(h: Seq<(Seq<u8>, Seq<u8>)>)
    ensures
        forall|i: int|
            0 <= i < spec_kept_fields(h).len() ==> #[trigger] keep_field(spec_kept_fields(h)[i].0),
    decreases h.len(),
{
    if h.len() > 0 {
        lemma_kept_fields_keep(h.drop_last());
        let rest = spec_kept_fields(h.drop_last());
        assert forall|i: int|
            0 <= i < spec_kept_fields(h).len() implies #[trigger] keep_field(
            spec_kept_fields(h)[i].0,
        ) by {
            if keep_field(h.last().0) {
                if i < rest.len() {
                    assert(spec_kept_fields(h)[i] == rest[i]);
                } else {
                    assert(spec_kept_fields(h)[i] == h.last());
                }
            } else {
                assert(spec_kept_fields(h)[i] == rest[i]);
            }
        }
    }
}

impl Headers {
    /// A header set with no fields.
    pub fn new() -> (r: Headers)
        ensures
            r@ == Seq::<(Seq<u8>, Seq<u8>)>::empty(),
    {
        let r = Headers { fields: Vec::new() };
        proof {
            assert(r@ =~= Seq::<(Seq<u8>, Seq<u8>)>::empty());
        }
        r
    }

    /// Append one field at the end, preserving wire order.
    pub fn push_field(&mut self, name: Vec<u8>, value: Vec<u8>)
        ensures
            final(self)@ == old(self)@.push((name@, value@)),
    {
        let ghost before = self@;
        let ghost n = name@;
        let ghost v = value@;
        self.fields.push(HeaderField { name, value });
        proof {
            assert(self@ =~= before.push((n, v)));
        }
    }

    /// The value of the first field whose name equals `name` up to ASCII
    /// case; header-name matching on the wire ignores case.
    pub fn get(&self, name: &[u8]) -> (r: Option<&Vec<u8>>)
        ensures
            match r {
                Some(v) => first_header_value(self@, name@) == Some(v@),
                None => first_header_value(self@, name@) is None,
            },
    {
        let n = self.fields.len();
        let mut i: usize = 0;
        while i < n
            invariant
                n == self.fields@.len(),
                i <= n,
                forall|j: int| 0 <= j < i ==> !eq_ignore_case(self@[j].0, name@),
            decreases n - i,
        {
            let f = &self.fields[i];
            if bytes_eq_ignore_case(f.name.as_slice(), name) {
                proof {
                    lemma_first_header_value_found(self@, name@, i as int);
                }
                return Some(&self.fields[i].value);
            }
            i = i + 1;
        }
        proof {
            lemma_first_header_value_none(self@, name@);
        }
        None
    }
}

/// Rewrite the headers of a request about to be forwarded: drop every
/// routing-header field and every prior host field, then set the host header
/// to the computed upstream hostname, so that the routing header never
/// travels upstream and the upstream sees itself named.
pub fn header(headers: &mut Headers, host: &Vec<u8>)
    ensures
        final(headers)@ == spec_rewritten(old(headers)@, host@),
{
    let ghost orig = old(headers)@;
    let mut kept_rev: Vec<HeaderField> = Vec::new();
    while headers.fields.len() > 0
        invariant
            spec_kept_fields(orig) =~= spec_kept_fields(headers@) + fields_view(
                kept_rev@,
            ).reverse(),
        decreases headers.fields.len(),
    {
        let ghost pre = headers@;
        let f = headers.fields.pop().unwrap();
        proof {
            assert(headers@ =~= pre.drop_last());
            assert(f@ == pre.last());
        }
        let is_routing = bytes_eq_ignore_case(f.name.as_slice(), "x-sc".as_bytes());
        let is_host = bytes_eq_ignore_case(f.name.as_slice(), "host".as_bytes());
        if !is_routing && !is_host {
            let ghost kept_pre = fields_view(kept_rev@);
            let ghost fv = f@;
            kept_rev.push(f);
            proof {
                assert(fields_view(kept_rev@) =~= kept_pre.push(fv));
                assert(kept_pre.push(fv).reverse() =~= seq![fv] + kept_pre.reverse());
            }
        }
    }
    while kept_rev.len() > 0
        invariant
            spec_kept_fields(orig) =~= headers@ + fields_view(kept_rev@).reverse(),
        decreases kept_rev.len(),
    {
        let ghost pre_kept = fields_view(kept_rev@);
        let ghost pre_fields = headers@;
        let f = kept_rev.pop().unwrap();
        headers.fields.push(f);
        proof {
            assert(fields_view(kept_rev@) =~= pre_kept.drop_last());
            assert(headers@ =~= pre_fields.push(pre_kept.last()));
            assert(pre_kept.reverse() =~= seq![pre_kept.last()] + pre_kept.drop_last().reverse());
        }
    }
    let host_name: Vec<u8> = slice_to_vec("host".as_bytes());
    let host_value: Vec<u8> = slice_to_vec(host.as_slice());
    let ghost before_push = headers@;
    headers.fields.push(HeaderField { name: host_name, value: host_value });
    proof {
        assert(headers@ =~= before_push.push((host_header_name(), host@)));
    }
}

} // verus!
