//! Decoding of DNS queries into request messages.
//!
//! A protocol query's name reads, left to right: the magic label, the
//! payload labels of the message, and the configured subdomain suffix. The
//! transaction id selects the message kind: the two reserved tags mark
//! `Announcement` and `Finish`, any other value is the chunk identifier of a
//! `Data` message.

use vstd::prelude::*;
use vstd::utf8::{valid_utf8, decode_utf8, encode_utf8, encode_utf8_decode_utf8};
use crate::digits::{spec_parse_u16, parse_u16_label};
use crate::dns::{CodecConfigView, DnsQuery, DnsQueryView, labels_view, push_label};
use crate::labels::{labels_eq_ci, lemma_labels_eq_ci_refl, label_eq_ci, base32_decoding,
    base32_decode_str, bytes_to_string};
use crate::message::{Message, MessageView, ANNOUNCEMENT_ID, FINISH_ID, Id};

verus! {

/// Why a DNS query could not be read as a request message.
#[derive(Debug, Eq, PartialEq, Clone, Copy, Structural)]
pub enum MessageDecoderError {
    /// The DNS message carried no question entry.
    NoQueries,
    /// The question name has too few labels for any protocol message.
    TooFewLabels,
    /// The first label is not the configured magic label.
    NoMagicNr,
    /// The trailing labels are not the configured subdomain.
    WrongSubdomain,
    /// A label that should carry a decimal number does not parse as one.
    ExpectedNrLabel,
    /// A label that should carry base32-encoded text does not decode to it.
    InvalidBase32,
}

/// What checking a query against the codec configuration yields: the payload
/// labels strictly between the magic label and the subdomain suffix, or the
/// reason the query is rejected.
pub open spec fn spec_check_and_prepare(
    magic: Seq<u8>,
    sub: Seq<Seq<u8>>,
    q: DnsQueryView,
) -> Result<Seq<Seq<u8>>, MessageDecoderError> {
    if q.queries.len() < 1 {
        Err(MessageDecoderError::NoQueries)
    } else {
        let name = q.queries[0];
        if name.len() < 2 + sub.len() {
            Err(MessageDecoderError::TooFewLabels)
        } else if !labels_eq_ci(name[0], magic) {
            Err(MessageDecoderError::NoMagicNr)
        } else if !(forall|j: int|
            0 <= j < sub.len() ==> #[trigger] labels_eq_ci(
                name[name.len() - sub.len() + j],
                sub[j],
            )) {
            Err(MessageDecoderError::WrongSubdomain)
        } else {
            Ok(name.subrange(1, name.len() - sub.len()))
        }
    }
}

/// What the three payload labels of an announcement decode to: the host, the
/// base32-decoded file name, and the session token.
pub open spec fn spec_parse_announcement(payload: Seq<Seq<u8>>) -> Result<
    MessageView,
    MessageDecoderError,
> {
    if payload.len() < 3 {
        Err(MessageDecoderError::TooFewLabels)
    } else if !valid_utf8(payload[0]) {
        Err(MessageDecoderError::InvalidBase32)
    } else if !valid_utf8(payload[1]) {
        Err(MessageDecoderError::InvalidBase32)
    } else {
        match base32_decoding(decode_utf8(payload[1])) {
            None => Err(MessageDecoderError::InvalidBase32),
            Some(file_bytes) => {
                if !valid_utf8(file_bytes) {
                    Err(MessageDecoderError::InvalidBase32)
                } else {
                    match spec_parse_u16(payload[2]) {
                        None => Err(MessageDecoderError::ExpectedNrLabel),
                        Some(rnd_nr) => Ok(
                            MessageView::Announcement {
                                host: decode_utf8(payload[0]),
                                file_name: decode_utf8(file_bytes),
                                rnd_nr,
                            },
                        ),
                    }
                }
            },
        }
    }
}

/// What a data payload decodes to: the first payload label's raw bytes.
pub open spec fn spec_parse_data(payload: Seq<Seq<u8>>, id: Id) -> Result<
    MessageView,
    MessageDecoderError,
> {
    if payload.len() == 0 {
        Err(MessageDecoderError::TooFewLabels)
    } else {
        Ok(MessageView::Data { id, data: payload[0] })
    }
}

/// What a finish payload decodes to: the session token.
pub open spec fn spec_parse_finish(payload: Seq<Seq<u8>>) -> Result<
    MessageView,
    MessageDecoderError,
> {
    if payload.len() == 0 {
        Err(MessageDecoderError::TooFewLabels)
    } else {
        match spec_parse_u16(payload[0]) {
            None => Err(MessageDecoderError::ExpectedNrLabel),
            Some(rnd_nr) => Ok(MessageView::Finish { rnd_nr }),
        }
    }
}

/// What a DNS query decodes to under a codec configuration.
pub open spec fn spec_decode_request(
    magic: Seq<u8>,
    sub: Seq<Seq<u8>>,
    q: DnsQueryView,
) -> Result<MessageView, MessageDecoderError> {
    match spec_check_and_prepare(magic, sub, q) {
        Err(e) => Err(e),
        Ok(payload) => {
            if q.id == ANNOUNCEMENT_ID {
                spec_parse_announcement(payload)
            } else if q.id == FINISH_ID {
                spec_parse_finish(payload)
            } else {
                spec_parse_data(payload, q.id)
            }
        },
    }
}

/// A name assembled as the encoder assembles it passes the checks and hands
/// back exactly its payload labels.
pub proof fn lemma_assembled_name_prepared(
    magic: Seq<u8>,
    sub: Seq<Seq<u8>>,
    id: u16,
    payload: Seq<Seq<u8>>,
)
    requires
        payload.len() >= 1,
    ensures
        spec_check_and_prepare(
            magic,
            sub,
            DnsQueryView { id, queries: seq![seq![magic] + payload + sub] },
        ) == Ok::<Seq<Seq<u8>>, MessageDecoderError>(payload),
{
    let name = seq![magic] + payload + sub;
    assert(name.len() == 1 + payload.len() + sub.len());
    assert(name[0] == magic);
    lemma_labels_eq_ci_refl(magic);
    assert forall|j: int| 0 <= j < sub.len() implies #[trigger] labels_eq_ci(
        name[name.len() - sub.len() + j],
        sub[j],
    ) by {
        assert(name[name.len() - sub.len() + j] == sub[j]);
        lemma_labels_eq_ci_refl(sub[j]);
    }
    assert(name.subrange(1, name.len() - sub.len()) =~= payload);
}

/// Decodes DNS queries addressed to one magic label and subdomain.
pub struct MessageDecoder {
    magic_nr: Vec<u8>,
    sub_domain: Vec<Vec<u8>>,
    minimum_subdomains: usize,
}

impl View for MessageDecoder {
    type V = CodecConfigView;

    closed spec fn view(&self) -> CodecConfigView {
        CodecConfigView { magic: self.magic_nr@, sub_domain: labels_view(self.sub_domain@) }
    }
}

impl MessageDecoder {
    /// The stored minimum label count agrees with the configuration.
    pub closed spec fn wf(&self) -> bool {
        self.minimum_subdomains == 2 + self.sub_domain@.len()
    }

    pub fn new(magic_nr: Vec<u8>, sub_domain: Vec<Vec<u8>>) -> (r: MessageDecoder)
        requires
            sub_domain@.len() + 2 <= usize::MAX,
        ensures
            r.wf(),
            r@.magic == magic_nr@,
            r@.sub_domain == labels_view(sub_domain@),
    {
        let minimum_subdomains: usize = 1  // one for the magic label
         + sub_domain.len()  // the subdomain labels
         + 1;  // at least one label of payload
        MessageDecoder { magic_nr, sub_domain, minimum_subdomains }
    }

    /// Decodes one DNS query into the request message it carries.
    pub fn decode(&self, dns_message: &DnsQuery) -> (r: Result<Message, MessageDecoderError>)
        requires
            self.wf(),
        ensures
            match r {
                Ok(m) => spec_decode_request(self@.magic, self@.sub_domain, dns_message@)
                    == Ok::<MessageView, MessageDecoderError>(m@),
                Err(e) => spec_decode_request(self@.magic, self@.sub_domain, dns_message@)
                    == Err::<MessageView, MessageDecoderError>(e),
            },
    {
        let payload = match self.check_and_prepare_message(dns_message) {
            Ok(p) => p,
            Err(e) => {
                return Err(e);
            },
        };
        let id: u16 = dns_message.id;
        if id == ANNOUNCEMENT_ID {
            self.parse_announcement(payload)
        } else if id == FINISH_ID {
            self.parse_finish(payload)
        } else {
            self.parse_data(payload, id)
        }
    }

    /// Base32-decodes a label's text with the protocol's alphabet.
    pub fn decode_base32(data: &str) -> (r: Result<Vec<u8>, MessageDecoderError>)
        ensures
            match r {
                Ok(v) => base32_decoding(data@) == Some(v@),
                Err(e) => e == MessageDecoderError::InvalidBase32 && base32_decoding(data@)
                    is None,
            },
    {
        match base32_decode_str(data) {
            None => Err(MessageDecoderError::InvalidBase32),
            Some(v) => Ok(v),
        }
    }

    /// Checks that a query is a protocol message and returns its payload
    /// labels.
    fn check_and_prepare_message(&self, dns_message: &DnsQuery) -> (r: Result<
        Vec<Vec<u8>>,
        MessageDecoderError,
    >)
        requires
            self.wf(),
        ensures
            match r {
                Ok(p) => spec_check_and_prepare(self@.magic, self@.sub_domain, dns_message@)
                    == Ok::<Seq<Seq<u8>>, MessageDecoderError>(labels_view(p@)),
                Err(e) => spec_check_and_prepare(self@.magic, self@.sub_domain, dns_message@)
                    == Err::<Seq<Seq<u8>>, MessageDecoderError>(e),
            },
    {
        if dns_message.queries.len() < 1 {
            return Err(MessageDecoderError::NoQueries);
        }
        let q_name = &dns_message.queries[0];
        let name_len: usize = q_name.labels.len();
        proof {
            assert(dns_message@.queries[0] == q_name@);
        }
        if name_len < self.minimum_subdomains {
            return Err(MessageDecoderError::TooFewLabels);
        }
        if !label_eq_ci(q_name.labels[0].as_slice(), self.magic_nr.as_slice()) {
            return Err(MessageDecoderError::NoMagicNr);
        }
        let sub_len: usize = self.sub_domain.len();
        proof {
            assert(labels_eq_ci(q_name@[0], self@.magic));
        }
        let mut j: usize = 0;
        while j < sub_len
            invariant
                self.wf(),
                sub_len == self.sub_domain@.len(),
                name_len == q_name@.len(),
                name_len >= 2 + sub_len,
                dns_message@.queries.len() >= 1,
                q_name@ == dns_message@.queries[0],
                labels_eq_ci(q_name@[0], self@.magic),
                0 <= j <= sub_len,
                forall|k: int| 0 <= k < j ==> #[trigger] labels_eq_ci(
                    q_name@[name_len - sub_len + k],
                    self@.sub_domain[k],
                ),
            decreases sub_len - j,
        {
            if !label_eq_ci(
                q_name.labels[name_len - sub_len + j].as_slice(),
                self.sub_domain[j].as_slice(),
            ) {
                proof {
                    let name = dns_message@.queries[0];
                    assert(name == q_name@);
                    assert(q_name@[name_len - sub_len + j] == q_name.labels@[name_len - sub_len
                        + j]@);
                    assert(self@.sub_domain[j as int] == self.sub_domain@[j as int]@);
                    assert(!labels_eq_ci(
                        name[name.len() - self@.sub_domain.len() + j],
                        self@.sub_domain[j as int],
                    ));
                }
                return Err(MessageDecoderError::WrongSubdomain);
            }
            j = j + 1;
        }
        let end_index: usize = name_len - sub_len;
        let mut result: Vec<Vec<u8>> = Vec::new();
        let mut i: usize = 1;
        while i < end_index
            invariant
                1 <= i <= end_index,
                end_index <= q_name.labels@.len(),
                labels_view(result@) =~= q_name@.subrange(1, i as int),
            decreases end_index - i,
        {
            let lab = vstd::slice::slice_to_vec(q_name.labels[i].as_slice());
            proof {
                assert(lab@ == q_name@[i as int]);
            }
            push_label(&mut result, lab);
            proof {
                assert(labels_view(result@) =~= q_name@.subrange(1, i + 1));
            }
            i = i + 1;
        }
        proof {
            assert(labels_view(result@) =~= q_name@.subrange(1, name_len - sub_len));
        }
        Ok(result)
    }

    fn parse_announcement(&self, payload: Vec<Vec<u8>>) -> (r: Result<
        Message,
        MessageDecoderError,
    >)
        ensures
            match r {
                Ok(m) => spec_parse_announcement(labels_view(payload@)) == Ok::<
                    MessageView,
                    MessageDecoderError,
                >(m@),
                Err(e) => spec_parse_announcement(labels_view(payload@)) == Err::<
                    MessageView,
                    MessageDecoderError,
                >(e),
            },
    {
        if payload.len() < 3 {
            return Err(MessageDecoderError::TooFewLabels);
        }
        let ghost p = labels_view(payload@);
        let mut payload = payload;
        let host_bytes = payload.remove(0);
        let encoded_bytes = payload.remove(0);
        let nr_label = payload.remove(0);
        let host = match bytes_to_string(host_bytes) {
            Some(s) => s,
            None => {
                return Err(MessageDecoderError::InvalidBase32);
            },
        };
        proof {
            encode_utf8_decode_utf8(host@);
            assert(decode_utf8(p[0]) == host@);
        }
        let encoded_str = match bytes_to_string(encoded_bytes) {
            Some(s) => s,
            None => {
                return Err(MessageDecoderError::InvalidBase32);
            },
        };
        proof {
            encode_utf8_decode_utf8(encoded_str@);
            assert(decode_utf8(p[1]) == encoded_str@);
        }
        let file_name_bytes = match Self::decode_base32(encoded_str.as_str()) {
            Ok(v) => v,
            Err(e) => {
                return Err(e);
            },
        };
        let file_name = match bytes_to_string(file_name_bytes) {
            Some(s) => s,
            None => {
                return Err(MessageDecoderError::InvalidBase32);
            },
        };
        proof {
            encode_utf8_decode_utf8(file_name@);
        }
        let rnd_nr = match parse_u16_label(nr_label.as_slice()) {
            Some(n) => n,
            None => {
                return Err(MessageDecoderError::ExpectedNrLabel);
            },
        };
        Ok(Message::Announcement { host, file_name, rnd_nr })
    }

    fn parse_data(&self, payload: Vec<Vec<u8>>, id: Id) -> (r: Result<
        Message,
        MessageDecoderError,
    >)
        ensures
            match r {
                Ok(m) => spec_parse_data(labels_view(payload@), id) == Ok::<
                    MessageView,
                    MessageDecoderError,
                >(m@),
                Err(e) => spec_parse_data(labels_view(payload@), id) == Err::<
                    MessageView,
                    MessageDecoderError,
                >(e),
            },
    {
        if payload.len() == 0 {
            return Err(MessageDecoderError::TooFewLabels);
        }
        let mut payload = payload;
        let data = payload.remove(0);
        Ok(Message::Data { id, data })
    }

    fn parse_finish(&self, payload: Vec<Vec<u8>>) -> (r: Result<Message, MessageDecoderError>)
        ensures
            match r {
                Ok(m) => spec_parse_finish(labels_view(payload@)) == Ok::<
                    MessageView,
                    MessageDecoderError,
                >(m@),
                Err(e) => spec_parse_finish(labels_view(payload@)) == Err::<
                    MessageView,
                    MessageDecoderError,
                >(e),
            },
    {
        if payload.len() == 0 {
            return Err(MessageDecoderError::TooFewLabels);
        }
        let rnd_nr = match parse_u16_label(payload[0].as_slice()) {
            Some(n) => n,
            None => {
                return Err(MessageDecoderError::ExpectedNrLabel);
            },
        };
        Ok(Message::Finish { rnd_nr })
    }
}

} // verus!
