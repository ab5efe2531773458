//! Encoding of request messages into DNS queries.
//!
//! Every encoded query's name reads, left to right: the magic label, the
//! payload labels of the message, and the configured subdomain suffix; the
//! transaction id carries the message-type tag or the chunk identifier.

use vstd::prelude::*;
use vstd::utf8::{encode_utf8, encode_utf8_valid_utf8, encode_utf8_decode_utf8};
use crate::digits::{dec_digits, u16_to_dec_label, lemma_parse_dec_digits};
use crate::dns::{CodecConfigView, DnsQuery, DnsQueryView, QueryName, labels_view, push_label};
use crate::labels::{base32_encoding, base32_encode_str, string_to_bytes};
use crate::decode::{MessageDecoderError, spec_decode_request, spec_parse_announcement,
    spec_parse_data, spec_parse_finish, lemma_assembled_name_prepared};
use crate::message::{Message, MessageView, ANNOUNCEMENT_ID, FINISH_ID};

verus! {

/// The payload labels that carry a request message inside a query name.
pub open spec fn spec_payload_labels(m: MessageView) -> Seq<Seq<u8>> {
    match m {
        MessageView::Announcement { host, file_name, rnd_nr } => seq![
            encode_utf8(host),
            encode_utf8(base32_encoding(encode_utf8(file_name))),
            dec_digits(rnd_nr as nat),
        ],
        MessageView::Data { id, data } => seq![data],
        MessageView::Finish { rnd_nr } => seq![dec_digits(rnd_nr as nat)],
    }
}

/// The transaction id a request message is sent under: a reserved tag for
/// `Announcement` and `Finish`, the chunk identifier for `Data`.
pub open spec fn spec_message_id(m: MessageView) -> u16 {
    match m {
        MessageView::Announcement { .. } => ANNOUNCEMENT_ID,
        MessageView::Data { id, .. } => id,
        MessageView::Finish { .. } => FINISH_ID,
    }
}

/// The DNS query that encodes a request message under a configuration.
pub open spec fn spec_encode_request(
    magic: Seq<u8>,
    sub: Seq<Seq<u8>>,
    m: MessageView,
) -> DnsQueryView {
    DnsQueryView {
        id: spec_message_id(m),
        queries: seq![seq![magic] + spec_payload_labels(m) + sub],
    }
}

/// Whether a message's transaction id is free of the reserved tags, so that
/// decoding can recognize it. A `Data` message whose chunk identifier equals
/// a reserved tag would decode as the tagged message kind; the receiver
/// never issues such an identifier.
pub open spec fn decodable_id(m: MessageView) -> bool {
    match m {
        MessageView::Data { id, .. } => id != ANNOUNCEMENT_ID && id != FINISH_ID,
        _ => true,
    }
}

/// Encodes request messages for one magic label and subdomain.
pub struct MessageEncoder {
    magic_nr: Vec<u8>,
    sub_domain: Vec<Vec<u8>>,
}

impl View for MessageEncoder {
    type V = CodecConfigView;

    closed spec fn view(&self) -> CodecConfigView {
        CodecConfigView { magic: self.magic_nr@, sub_domain: labels_view(self.sub_domain@) }
    }
}

impl MessageEncoder {
    pub fn new(magic_nr: Vec<u8>, sub_domain: Vec<Vec<u8>>) -> (r: MessageEncoder)
        ensures
            r@.magic == magic_nr@,
            r@.sub_domain == labels_view(sub_domain@),
    {
        MessageEncoder { magic_nr, sub_domain }
    }

    /// Encodes one request message as a DNS query. The second clause is the
    /// request half of the codec round-trip law at the encoding site: as
    /// long as a `Data` chunk identifier avoids the two reserved tags,
    /// decoding the produced query under the same configuration yields the
    /// original message.
    pub fn encode(&self, message: Message) -> (r: DnsQuery)
        ensures
            r@ == spec_encode_request(self@.magic, self@.sub_domain, message@),
            decodable_id(message@) ==> spec_decode_request(self@.magic, self@.sub_domain, r@)
                == Ok::<MessageView, MessageDecoderError>(message@),
    {
        let ghost m = message@;
        match message {
            Message::Announcement { host, file_name, rnd_nr } => {
                let mut payload: Vec<Vec<u8>> = Vec::new();
                push_label(&mut payload, string_to_bytes(host.as_str()));
                let fname_bytes = string_to_bytes(file_name.as_str());
                let b32 = base32_encode_str(fname_bytes.as_slice());
                push_label(&mut payload, string_to_bytes(b32.as_str()));
                push_label(&mut payload, u16_to_dec_label(rnd_nr));
                proof {
                    assert(labels_view(payload@) =~= spec_payload_labels(m));
                }
                let r = self.assemble(ANNOUNCEMENT_ID, payload);
                proof {
                    assert(r@ == spec_encode_request(self@.magic, self@.sub_domain, m));
                    lemma_assembled_name_prepared(
                        self@.magic,
                        self@.sub_domain,
                        ANNOUNCEMENT_ID,
                        spec_payload_labels(m),
                    );
                    encode_utf8_valid_utf8(host@);
                    encode_utf8_decode_utf8(host@);
                    encode_utf8_valid_utf8(b32@);
                    encode_utf8_decode_utf8(b32@);
                    encode_utf8_valid_utf8(file_name@);
                    encode_utf8_decode_utf8(file_name@);
                    lemma_parse_dec_digits(rnd_nr);
                    assert(spec_parse_announcement(spec_payload_labels(m)) == Ok::<
                        MessageView,
                        MessageDecoderError,
                    >(m));
                }
                r
            },
            Message::Data { id, data } => {
                let ghost dv = data@;
                let mut payload: Vec<Vec<u8>> = Vec::new();
                push_label(&mut payload, data);
                proof {
                    assert(labels_view(payload@) =~= spec_payload_labels(m));
                }
                let r = self.assemble(id, payload);
                proof {
                    assert(r@ == spec_encode_request(self@.magic, self@.sub_domain, m));
                    lemma_assembled_name_prepared(
                        self@.magic,
                        self@.sub_domain,
                        id,
                        spec_payload_labels(m),
                    );
                    assert(spec_parse_data(spec_payload_labels(m), id) == Ok::<
                        MessageView,
                        MessageDecoderError,
                    >(m));
                }
                r
            },
            Message::Finish { rnd_nr } => {
                let mut payload: Vec<Vec<u8>> = Vec::new();
                push_label(&mut payload, u16_to_dec_label(rnd_nr));
                proof {
                    assert(labels_view(payload@) =~= spec_payload_labels(m));
                }
                let r = self.assemble(FINISH_ID, payload);
                proof {
                    assert(r@ == spec_encode_request(self@.magic, self@.sub_domain, m));
                    lemma_assembled_name_prepared(
                        self@.magic,
                        self@.sub_domain,
                        FINISH_ID,
                        spec_payload_labels(m),
                    );
                    lemma_parse_dec_digits(rnd_nr);
                    assert(spec_parse_finish(spec_payload_labels(m)) == Ok::<
                        MessageView,
                        MessageDecoderError,
                    >(m));
                }
                r
            },
        }
    }

    /// Assembles the question name magic + payload + subdomain under `id`.
    fn assemble(&self, id: u16, payload: Vec<Vec<u8>>) -> (r: DnsQuery)
        ensures
            r@.id == id,
            r@.queries == seq![seq![self@.magic] + labels_view(payload@) + self@.sub_domain],
    {
        let ghost pv = labels_view(payload@);
        let mut labels: Vec<Vec<u8>> = Vec::new();
        push_label(&mut labels, vstd::slice::slice_to_vec(self.magic_nr.as_slice()));
        proof {
            assert(labels_view(labels@) =~= seq![self@.magic] + pv.subrange(0, 0));
        }
        let mut i: usize = 0;
        while i < payload.len()
            invariant
                0 <= i <= payload@.len(),
                pv == labels_view(payload@),
                labels_view(labels@) =~= seq![self@.magic] + pv.subrange(0, i as int),
            decreases payload@.len() - i,
        {
            push_label(&mut labels, vstd::slice::slice_to_vec(payload[i].as_slice()));
            proof {
                assert(payload@[i as int]@ == pv[i as int]);
                assert(labels_view(labels@) =~= seq![self@.magic] + pv.subrange(0, i + 1));
            }
            i = i + 1;
        }
        proof {
            assert(pv.subrange(0, pv.len() as int) =~= pv);
        }
        let sub_len: usize = self.sub_domain.len();
        let mut j: usize = 0;
        while j < sub_len
            invariant
                0 <= j <= sub_len,
                sub_len == self.sub_domain@.len(),
                pv == labels_view(payload@),
                labels_view(labels@) =~= seq![self@.magic] + pv + self@.sub_domain.subrange(
                    0,
                    j as int,
                ),
            decreases sub_len - j,
        {
            push_label(&mut labels, vstd::slice::slice_to_vec(self.sub_domain[j].as_slice()));
            proof {
                assert(self.sub_domain@[j as int]@ == self@.sub_domain[j as int]);
                assert(labels_view(labels@) =~= seq![self@.magic] + pv
                    + self@.sub_domain.subrange(0, j + 1));
            }
            j = j + 1;
        }
        proof {
            assert(self@.sub_domain.subrange(0, self@.sub_domain.len() as int)
                =~= self@.sub_domain);
        }
        let name = QueryName { labels };
        let ghost nv = name@;
        let ghost q1 = Seq::<QueryName>::empty().push(name);
        let mut queries: Vec<QueryName> = Vec::new();
        queries.push(name);
        let r = DnsQuery { id, queries };
        proof {
            assert(r.queries@ == q1);
            assert(q1[0]@ == nv);
            assert(r@.queries =~= seq![seq![self@.magic] + labels_view(payload@)
                + self@.sub_domain]);
        }
        r
    }
}

} // verus!
