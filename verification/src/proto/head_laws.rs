//! What reading and writing a message head keeps: the status code and the
//! request target that a written head carries, the header values that a
//! read head holds, and the headers that framing a bodiless response leaves.
use vstd::prelude::*;
use crate::error::ErrorKind;
use crate::headers::{groups_wf, lemma_append, lemma_remove, values_of};
use crate::message::{uri_text, Version};
use crate::raw::{RawRequestView, RawResponseView};
use crate::text::{ascii, is_header_value, is_lower_token, is_token, lower_seq};
use super::h1::{
    complete_request, complete_response, headers_model, request_head_bytes, response_framing,
    response_head_bytes, transfer_encoding_name, Encoder, ReadHead,
};

verus! {

/// The values that a list of header lines gives a name, in the order of the
/// lines: the value of each line whose name, in lower case, is that name.
pub open spec fn line_values(raw: Seq<(Seq<u8>, Seq<u8>)>, k: Seq<u8>) -> Seq<Seq<u8>>
    decreases raw.len(),
{
    if raw.len() == 0 {
        Seq::empty()
    } else if lower_seq(raw.last().0) == k {
        line_values(raw.drop_last(), k).push(raw.last().1)
    } else {
        line_values(raw.drop_last(), k)
    }
}

/// Header lines that a head may carry: every name is a token and every
/// value holds only bytes that a header value may hold.
pub open spec fn valid_lines(raw: Seq<(Seq<u8>, Seq<u8>)>) -> bool {
    forall|i: int|
        0 <= i < raw.len() ==> is_lower_token(lower_seq(#[trigger] raw[i].0)) && is_header_value(
            raw[i].1,
        )
}

/// Reading header lines keeps every value byte for byte: valid lines always
/// make a header map, and the values it holds for each name are exactly
/// the values of the lines with that name (names compared in lower case),
/// in the order of the lines. Only names are folded to lower case.
pub proof fn law_header_values_kept(raw: Seq<(Seq<u8>, Seq<u8>)>)
    requires
        valid_lines(raw),
    ensures
        headers_model(raw) is Some,
        groups_wf(headers_model(raw).unwrap()),
        forall|k: Seq<u8>| #[trigger] values_of(headers_model(raw).unwrap(), k) == line_values(raw, k),
    decreases raw.len(),
{
    if raw.len() == 0 {
        assert forall|k: Seq<u8>| #[trigger]
            values_of(headers_model(raw).unwrap(), k) == line_values(raw, k) by {
            assert(values_of(Seq::empty(), k) =~= Seq::<Seq<u8>>::empty());
        }
    } else {
        let p = raw.drop_last();
        assert(valid_lines(p)) by {
            assert forall|i: int| 0 <= i < p.len() implies is_lower_token(lower_seq(#[trigger] p[i].0))
                && is_header_value(p[i].1) by {
                assert(p[i] == raw[i]);
            }
        }
        law_header_values_kept(p);
        let g = headers_model(p).unwrap();
        let k = lower_seq(raw.last().0);
        let v = raw.last().1;
        assert(raw.last() == raw[raw.len() - 1]);
        assert(is_lower_token(k) && is_header_value(v));
        lemma_append(g, k, v);
        assert forall|k2: Seq<u8>| #[trigger]
            values_of(headers_model(raw).unwrap(), k2) == line_values(raw, k2) by {
            assert(values_of(g, k2) == line_values(p, k2));
        }
    }
}

/// Every status code from 100 to 999 is accepted: a complete response head
/// with valid header lines is read as a head with the code it carries, the
/// length it took and its header values byte for byte, and that many bytes
/// are consumed. A status rejection comes exactly for codes outside
/// 100..=999, and then nothing is consumed.
pub proof fn law_response_status_read(input: Seq<u8>, raw: RawResponseView)
    requires
        valid_lines(raw.headers),
    ensures
        100 <= raw.code <= 999 ==> (complete_response(input, raw).0 matches ReadHead::Complete(h, n)
            && h.status == raw.code && n == raw.len && forall|k: Seq<u8>|
            #[trigger] values_of(h.headers, k) == line_values(raw.headers, k)),
        100 <= raw.code <= 999 ==> complete_response(input, raw).1 == input.skip(raw.len as int),
        (complete_response(input, raw).0 == ReadHead::<super::h1::ResponseHeadView>::Rejected(
            ErrorKind::Status,
        )) <==> !(100 <= raw.code <= 999),
        !(100 <= raw.code <= 999) ==> complete_response(input, raw).1 == input,
{
    law_header_values_kept(raw.headers);
}

/// A complete request head whose method is a token, whose target is a
/// valid URI and whose header lines are valid is read as a head with that
/// method and target and with its header values byte for byte, and the
/// head is consumed.
pub proof fn law_request_headers_read(input: Seq<u8>, raw: RawRequestView)
    requires
        is_token(raw.method),
        uri_text(raw.path) is Some,
        valid_lines(raw.headers),
    ensures
        complete_request(input, raw).0 matches ReadHead::Complete(h, n) && h.method == raw.method
            && h.uri == uri_text(raw.path).unwrap() && n == raw.len && forall|k: Seq<u8>|
            #[trigger] values_of(h.headers, k) == line_values(raw.headers, k),
        complete_request(input, raw).1 == input.skip(raw.len as int),
{
    law_header_values_kept(raw.headers);
}

/// Every written response head carries its status code: whatever the
/// version, the headers and the date, it starts with `HTTP/1.1 `, then the
/// three decimal digits of the code, then a space.
pub proof fn law_status_code_written(v: Version, c: u16, g: Seq<(Seq<u8>, Seq<Seq<u8>>)>, date: Seq<u8>)
    requires
        100 <= c <= 999,
    ensures
        ({
            let b = response_head_bytes(v, c, g, date);
            &&& b.len() >= 13
            &&& b.subrange(0, 9) == ascii("HTTP/1.1 "@)
            &&& b[9] == 48 + c / 100
            &&& b[10] == 48 + (c / 10) % 10
            &&& b[11] == 48 + c % 10
            &&& b[12] == 32
        }),
{
    reveal_strlit("HTTP/1.1 200 OK\r\n");
    reveal_strlit("HTTP/1.1 ");
    reveal_strlit("\r\n");
    let b = response_head_bytes(v, c, g, date);
    assert(b.subrange(0, 9) =~= ascii("HTTP/1.1 "@));
}

/// Every written request head carries its method and its target byte for
/// byte: it is the method, a space, the target's bytes as they are, a space
/// and `HTTP/1.1` with its line end.
pub proof fn law_request_target_written(m: Seq<u8>, u: Seq<u8>, g: Seq<(Seq<u8>, Seq<Seq<u8>>)>)
    ensures
        ({
            let b = request_head_bytes(m, u, g);
            let ml = m.len() as int;
            let ul = u.len() as int;
            &&& b.len() >= ml + ul + 12
            &&& b.subrange(0, ml) == m
            &&& b[ml] == 32
            &&& b.subrange(ml + 1, ml + 1 + ul) == u
            &&& b[ml + 1 + ul] == 32
            &&& b.subrange(ml + ul + 2, ml + ul + 12) == ascii("HTTP/1.1\r\n"@)
        }),
{
    reveal_strlit("HTTP/1.1\r\n");
    reveal_strlit("\r\n");
    let b = request_head_bytes(m, u, g);
    let ml = m.len() as int;
    let ul = u.len() as int;
    assert(b.subrange(0, ml) =~= m);
    assert(b.subrange(ml + 1, ml + 1 + ul) =~= u);
    assert(b.subrange(ml + ul + 2, ml + ul + 12) =~= ascii("HTTP/1.1\r\n"@));
}

/// A response that cannot have a body (one to `HEAD`, a 2xx to `CONNECT`,
/// a 204 or a 304) is written with an empty body, and its framing removes
/// `Transfer-Encoding` and leaves every other header as it was: the
/// `Content-Length` that such a response reports is kept.
pub proof fn law_bodiless_framing_keeps_headers(
    g: Seq<(Seq<u8>, Seq<Seq<u8>>)>,
    has_body: bool,
    method: Seq<u8>,
    status: u16,
)
    requires
        groups_wf(g),
        method == ascii("HEAD"@) || (method == ascii("CONNECT"@) && 200 <= status < 300) || status
            == 204 || status == 304,
    ensures
        response_framing(g, has_body, method, status).1 == Encoder::Length(0),
        values_of(response_framing(g, has_body, method, status).0, transfer_encoding_name()).len()
            == 0,
        forall|k: Seq<u8>|
            k != transfer_encoding_name() ==> #[trigger] values_of(
                response_framing(g, has_body, method, status).0,
                k,
            ) == values_of(g, k),
{
    lemma_remove(g, transfer_encoding_name());
}

} // verus!
