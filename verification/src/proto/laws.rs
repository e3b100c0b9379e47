//! What holds across the functions of the HTTP/1 code: a body framed by the
//! writer of a message is delimited the same way by its reader, and framing
//! a body twice changes nothing more than framing it once.
use vstd::prelude::*;
use crate::headers::{
    groups_wf, has_name, insert_model, lemma_insert, lemma_remove, lemma_replace_last,
    lemma_values_of_wf, remove_model, replace_last_model, values_of,
};
use crate::text::{
    ascii, decimal_value, is_visible, is_visible_text, lemma_after_last_comma, parse_u64, trim_end,
    trim_start,
};
use super::h1::{
    adds_chunked, agreed_length, can_have_body, content_length_name, content_length_value, is_chunked,
    length_or_chunked, request_decoder, request_framing, response_decoder, response_framing,
    transfer_encoding_name, Decoder, Encoder,
};

verus! {

/// The decoder that reads what an encoder writes.
pub open spec fn reader_of(e: Encoder) -> Decoder {
    match e {
        Encoder::Length(n) => Decoder::Length(n),
        Encoder::Chunked => Decoder::Chunked,
    }
}

/// The conditions under which the framing headers can be read back: the
/// `Content-Length` values agree whenever the first one is valid, and the
/// last `Transfer-Encoding` value is visible text.
pub open spec fn framing_readable(g: Seq<(Seq<u8>, Seq<Seq<u8>>)>) -> bool {
    let cl = values_of(g, content_length_name());
    let te = values_of(g, transfer_encoding_name());
    &&& cl.len() > 0 && content_length_value(cl[0]) is Some ==> agreed_length(cl) is Some
    &&& te.len() > 0 ==> is_visible_text(te.last())
}

proof fn lemma_names_differ()
    ensures
        transfer_encoding_name() != content_length_name(),
{
    reveal_strlit("transfer-encoding");
    reveal_strlit("content-length");
    assert(transfer_encoding_name().len() != content_length_name().len());
}

proof fn lemma_chunked_literal()
    ensures
        is_chunked(ascii("chunked"@)),
{
    reveal_strlit("chunked");
    let c = ascii("chunked"@);
    lemma_after_last_comma(c, 0);
    assert(c.subrange(0, c.len() as int) =~= c);
    assert(trim_start(c) == c);
    assert(trim_end(c) == c);
    assert(is_visible_text(c));
}

proof fn lemma_chunked_suffix(v: Seq<u8>)
    requires
        is_visible_text(v),
    ensures
        is_chunked(v + ascii(", chunked"@)),
{
    reveal_strlit(", chunked");
    reveal_strlit("chunked");
    let w = v + ascii(", chunked"@);
    let k: int = v.len() as int + 1;
    assert(w[k - 1] == 44);
    lemma_after_last_comma(w, k);
    let tail = w.subrange(k, w.len() as int);
    assert(tail =~= seq![32u8].add(ascii("chunked"@)));
    assert(tail.drop_first() =~= ascii("chunked"@));
    assert(trim_start(tail.drop_first()) == tail.drop_first());
    assert(trim_start(tail) == ascii("chunked"@));
    assert(trim_end(ascii("chunked"@)) == ascii("chunked"@));
    assert forall|i: int| 0 <= i < w.len() implies is_visible(#[trigger] w[i]) by {
        if i < v.len() {
            assert(w[i] == v[i]);
        }
    }
}

proof fn lemma_zero_length()
    ensures
        content_length_value(ascii("0"@)) == Some(0u64),
        agreed_length(seq![ascii("0"@)]) == Some(0u64),
{
    reveal_strlit("0");
    let z = ascii("0"@);
    assert(z.len() == 1 && z[0] == 48u8);
    assert(z.drop_last() =~= Seq::<u8>::empty());
    assert(decimal_value(z.drop_last()) == 0);
    assert(decimal_value(z) == 0);
    assert(is_visible_text(z));
    assert(parse_u64(z) == Some(0u64));
}

/// After `length_or_chunked`, the decoder of either direction finds the
/// body framing that the encoder chose.
proof fn lemma_framed_readable(g: Seq<(Seq<u8>, Seq<Seq<u8>>)>)
    requires
        groups_wf(g),
        framing_readable(g),
    ensures
        ({
            let (g2, e) = length_or_chunked(g);
            let te2 = values_of(g2, transfer_encoding_name());
            let cl2 = values_of(g2, content_length_name());
            &&& e is Chunked ==> te2.len() > 0 && is_chunked(te2.last())
            &&& e matches Encoder::Length(n) ==> te2.len() == 0 && cl2.len() > 0 && agreed_length(cl2)
                == Some(n)
        }),
{
    lemma_names_differ();
    let te = transfer_encoding_name();
    let cl = content_length_name();
    let cls = values_of(g, cl);
    let tes = values_of(g, te);
    lemma_values_of_wf(g, te);
    lemma_values_of_wf(g, cl);
    let len = if cls.len() > 0 {
        content_length_value(cls[0])
    } else {
        None
    };
    match len {
        Some(n) => {
            lemma_remove(g, te);
            let g2 = remove_model(g, te);
            assert(values_of(g2, te).len() == 0);
            assert(values_of(g2, cl) == cls);
        },
        None => {
            if tes.len() > 0 {
                if is_chunked(tes.last()) {
                } else {
                    let v = tes.last() + ascii(", chunked"@);
                    lemma_chunked_suffix(tes.last());
                    assert(crate::text::is_header_value(tes.last()));
                    lemma_replace_last(g, te, v);
                    let g2 = replace_last_model(g, te, v);
                    assert(values_of(g2, te) == tes.update(tes.len() - 1, v));
                }
            } else {
                reveal_strlit("chunked");
                lemma_chunked_literal();
                assert(crate::text::is_header_value(ascii("chunked"@)));
                reveal_strlit("transfer-encoding");
                assert(crate::text::is_lower_token(te));
                lemma_insert(g, te, ascii("chunked"@));
            }
        },
    }
}

/// A request framed by its writer is read with the same framing: the
/// server's decoder on the headers that the client's `set_length` leaves
/// gives the decoder of the encoder it chose, whenever the `Content-Length`
/// values agree and the last `Transfer-Encoding` value is visible text.
pub proof fn law_request_framing_read_back(g: Seq<(Seq<u8>, Seq<Seq<u8>>)>, has_body: bool)
    requires
        groups_wf(g),
        framing_readable(g),
    ensures
        request_decoder(request_framing(g, has_body).0) == Some(reader_of(request_framing(g, has_body).1)),
{
    lemma_names_differ();
    if has_body {
        lemma_framed_readable(g);
    } else {
        let te = transfer_encoding_name();
        let cl = content_length_name();
        lemma_remove(g, cl);
        lemma_remove(remove_model(g, cl), te);
    }
}

/// A response framed by its writer is read with the same framing: the
/// client's decoder, given the method of the request, on the headers that
/// the server's `set_length` leaves gives the decoder of the encoder it
/// chose, whenever the status is not informational (1xx), the
/// `Content-Length` values agree and the last `Transfer-Encoding` value is
/// visible text.
pub proof fn law_response_framing_read_back(
    g: Seq<(Seq<u8>, Seq<Seq<u8>>)>,
    has_body: bool,
    method: Seq<u8>,
    status: u16,
)
    requires
        groups_wf(g),
        framing_readable(g),
        200 <= status < 1000,
    ensures
        response_decoder(Some(method), status, response_framing(g, has_body, method, status).0)
            == Some(reader_of(response_framing(g, has_body, method, status).1)),
{
    lemma_names_differ();
    reveal_strlit("HEAD");
    reveal_strlit("CONNECT");
    let may = can_have_body(method, status);
    if has_body && may {
        lemma_framed_readable(g);
    } else if may {
        let te = transfer_encoding_name();
        let cl = content_length_name();
        lemma_remove(g, te);
        let g1 = remove_model(g, te);
        reveal_strlit("0");
        lemma_zero_length();
        assert(crate::text::is_header_value(ascii("0"@)));
        reveal_strlit("content-length");
        assert(crate::text::is_lower_token(cl));
        lemma_insert(g1, cl, ascii("0"@));
        let g2 = insert_model(g1, cl, ascii("0"@));
        assert(values_of(g2, cl) == seq![ascii("0"@)]);
        assert(values_of(g2, te).len() == 0);
    }
}

/// Framing a body twice gives the same headers and encoder as framing it
/// once, whenever the last `Transfer-Encoding` value is visible text; and
/// the second framing writes nothing into `Transfer-Encoding`, so it needs
/// no room for another name.
pub proof fn law_framing_idempotent(g: Seq<(Seq<u8>, Seq<Seq<u8>>)>)
    requires
        groups_wf(g),
        values_of(g, transfer_encoding_name()).len() > 0 ==> is_visible_text(
            values_of(g, transfer_encoding_name()).last(),
        ),
    ensures
        length_or_chunked(length_or_chunked(g).0) == length_or_chunked(g),
        !adds_chunked(length_or_chunked(g).0),
{
    lemma_names_differ();
    let te = transfer_encoding_name();
    let cl = content_length_name();
    let cls = values_of(g, cl);
    let tes = values_of(g, te);
    lemma_values_of_wf(g, te);
    lemma_values_of_wf(g, cl);
    let len = if cls.len() > 0 {
        content_length_value(cls[0])
    } else {
        None
    };
    match len {
        Some(n) => {
            lemma_remove(g, te);
            let g2 = remove_model(g, te);
            assert(values_of(g2, cl) == cls);
            assert(!has_name(g2, te));
            assert(remove_model(g2, te) == g2);
        },
        None => {
            if tes.len() > 0 {
                if !is_chunked(tes.last()) {
                    let v = tes.last() + ascii(", chunked"@);
                    lemma_chunked_suffix(tes.last());
                    assert(crate::text::is_header_value(tes.last()));
                    lemma_replace_last(g, te, v);
                    let g2 = replace_last_model(g, te, v);
                    assert(values_of(g2, cl) == cls);
                    assert(values_of(g2, te) == tes.update(tes.len() - 1, v));
                }
            } else {
                reveal_strlit("chunked");
                reveal_strlit("transfer-encoding");
                lemma_chunked_literal();
                assert(crate::text::is_header_value(ascii("chunked"@)));
                assert(crate::text::is_lower_token(te));
                lemma_insert(g, te, ascii("chunked"@));
                let g2 = insert_model(g, te, ascii("chunked"@));
                assert(values_of(g2, cl) == cls);
            }
        },
    }
}

/// A request whose last transfer coding is `chunked` has a chunked body,
/// whatever its `Content-Length` says (RFC 7230, 3.3.3, rule 3).
pub proof fn law_chunked_overrides_length(g: Seq<(Seq<u8>, Seq<Seq<u8>>)>)
    requires
        values_of(g, transfer_encoding_name()).len() > 0,
        is_chunked(values_of(g, transfer_encoding_name()).last()),
    ensures
        request_decoder(g) == Some(Decoder::Chunked),
{
}

/// Without `Transfer-Encoding`, two `Content-Length` values that do not
/// give the same length make a request bad (RFC 7230, 3.3.3, rule 4).
pub proof fn law_differing_lengths_rejected(g: Seq<(Seq<u8>, Seq<Seq<u8>>)>, i: int, j: int)
    requires
        values_of(g, transfer_encoding_name()).len() == 0,
        0 <= i < values_of(g, content_length_name()).len(),
        0 <= j < values_of(g, content_length_name()).len(),
        content_length_value(values_of(g, content_length_name())[i]) != content_length_value(
            values_of(g, content_length_name())[j],
        ),
    ensures
        request_decoder(g) is None,
{
    let cl = values_of(g, content_length_name());
    if agreed_length(cl) is Some {
        assert(content_length_value(cl[i]) == content_length_value(cl[0]));
        assert(content_length_value(cl[j]) == content_length_value(cl[0]));
    }
}

/// Responses to `HEAD`, and responses with status 1xx, 204 or 304, have no
/// body, whatever their headers say (RFC 7230, 3.3.3, rule 1).
pub proof fn law_bodiless_responses(method: Seq<u8>, status: u16, g: Seq<(Seq<u8>, Seq<Seq<u8>>)>)
    requires
        method == ascii("HEAD"@) || (100 <= status < 200) || status == 204 || status == 304,
    ensures
        response_decoder(Some(method), status, g) == Some(Decoder::Length(0)),
{
}

} // verus!
