//! The message model: the request messages a sender emits, the response
//! messages a receiver answers with, and the codec between responses and DNS
//! answer record data.

use vstd::prelude::*;
use crate::digits::{dec_digits, spec_parse_u16, u16_to_dec_label, parse_u16_label,
    lemma_parse_dec_digits};
use crate::dns::{RecordData, RecordDataView, labels_view};

verus! {

/// A chunk identifier or message-type tag carried in the DNS transaction id.
pub type Id = u16;

/// Transaction-id tag reserved for `Announcement` requests.
pub const ANNOUNCEMENT_ID: Id = 0;

/// Transaction-id tag reserved for `Finish` requests.
pub const FINISH_ID: Id = 1;

/// A request message, sent as a DNS query.
#[derive(Debug, Eq, PartialEq, Clone)]
pub enum Message {
    Announcement { host: String, file_name: String, rnd_nr: u16 },
    Data { id: Id, data: Vec<u8> },
    Finish { rnd_nr: u16 },
}

/// The mathematical value of a request message.
pub enum MessageView {
    Announcement { host: Seq<char>, file_name: Seq<char>, rnd_nr: u16 },
    Data { id: Id, data: Seq<u8> },
    Finish { rnd_nr: u16 },
}

impl View for Message {
    type V = MessageView;

    open spec fn view(&self) -> MessageView {
        match self {
            Message::Announcement { host, file_name, rnd_nr } => MessageView::Announcement {
                host: host@,
                file_name: file_name@,
                rnd_nr: *rnd_nr,
            },
            Message::Data { id, data } => MessageView::Data { id: *id, data: data@ },
            Message::Finish { rnd_nr } => MessageView::Finish { rnd_nr: *rnd_nr },
        }
    }
}

impl Message {
    /// The message that opens a transfer.
    pub fn initial(host: String, file_name: String, rnd_nr: u16) -> (r: Message)
        ensures
            r@ == (MessageView::Announcement { host: host@, file_name: file_name@, rnd_nr }),
    {
        Message::Announcement { host, file_name, rnd_nr }
    }
}

/// The receiver's answer to a `Data` request.
#[derive(Debug, Eq, PartialEq, Clone, Structural)]
pub enum DataResponse {
    Resend,
    Acknowledge { next_id: Id },
}

/// The receiver's answer to a `Finish` request.
#[derive(Debug, Eq, PartialEq, Clone, Structural)]
pub enum FinishResponse {
    Resend,
    Acknowledge { rnd_nr: u16 },
}

/// A response message, returned as DNS answer record data.
#[derive(Debug, Eq, PartialEq, Clone, Structural)]
pub enum MessageResponse {
    Announcement { rnd_nr: u16, next_id: Id },
    Data { response: DataResponse },
    Finish { response: FinishResponse },
}

/// Why a DNS answer could not be read as a response message.
#[derive(Debug, Eq, PartialEq, Clone, Copy, Structural)]
pub enum MessageResponseDecoderError {
    NoAnswers,
    UnsupportedDnsType,
    InvalidIpv4,
    InvalidName,
    TooFewLabels,
    InvalidNumber,
}

/// The answer record data that encodes a response message.
pub open spec fn spec_encode_response(m: MessageResponse) -> RecordDataView {
    match m {
        MessageResponse::Announcement { rnd_nr, next_id } => RecordDataView::Cname {
            labels: seq![seq![97u8], dec_digits(rnd_nr as nat), dec_digits(next_id as nat)],
        },
        MessageResponse::Data { response: DataResponse::Resend } => RecordDataView::A {
            o0: 1,
            o1: 1,
            o2: 1,
            o3: 1,
        },
        MessageResponse::Data { response: DataResponse::Acknowledge { next_id } } => {
            RecordDataView::A {
                o0: 2,
                o1: 2,
                o2: (next_id % 256) as u8,
                o3: (next_id / 256) as u8,
            }
        },
        MessageResponse::Finish { response: FinishResponse::Resend } => RecordDataView::Cname {
            labels: seq![seq![102u8], seq![114u8]],
        },
        MessageResponse::Finish { response: FinishResponse::Acknowledge { rnd_nr } } => {
            RecordDataView::Cname { labels: seq![seq![102u8], seq![97u8], dec_digits(rnd_nr as nat)] }
        },
    }
}

/// What an address record decodes to.
pub open spec fn spec_parse_ip(o0: u8, o1: u8, o2: u8, o3: u8) -> Result<
    MessageResponse,
    MessageResponseDecoderError,
> {
    if o0 == 1 && o1 == 1 {
        Ok(MessageResponse::Data { response: DataResponse::Resend })
    } else if o0 == 2 && o1 == 2 {
        Ok(
            MessageResponse::Data {
                response: DataResponse::Acknowledge { next_id: (o2 + 256 * o3) as u16 },
            },
        )
    } else {
        Err(MessageResponseDecoderError::InvalidIpv4)
    }
}

/// What a canonical-name record's labels decode to.
pub open spec fn spec_parse_cname(labels: Seq<Seq<u8>>) -> Result<
    MessageResponse,
    MessageResponseDecoderError,
> {
    if labels.len() < 2 {
        Err(MessageResponseDecoderError::TooFewLabels)
    } else if labels[0] == seq![97u8] {
        if labels.len() < 3 {
            Err(MessageResponseDecoderError::TooFewLabels)
        } else {
            match (spec_parse_u16(labels[1]), spec_parse_u16(labels[2])) {
                (Some(rnd_nr), Some(next_id)) => Ok(
                    MessageResponse::Announcement { rnd_nr, next_id },
                ),
                _ => Err(MessageResponseDecoderError::InvalidNumber),
            }
        }
    } else if labels[0] == seq![102u8] {
        if labels[1] == seq![114u8] {
            Ok(MessageResponse::Finish { response: FinishResponse::Resend })
        } else if labels[1] == seq![97u8] {
            if labels.len() < 3 {
                Err(MessageResponseDecoderError::TooFewLabels)
            } else {
                match spec_parse_u16(labels[2]) {
                    Some(rnd_nr) => Ok(
                        MessageResponse::Finish {
                            response: FinishResponse::Acknowledge { rnd_nr },
                        },
                    ),
                    None => Err(MessageResponseDecoderError::InvalidNumber),
                }
            }
        } else {
            Err(MessageResponseDecoderError::InvalidName)
        }
    } else {
        Err(MessageResponseDecoderError::InvalidName)
    }
}

/// What a DNS answer section decodes to: the first record decides.
pub open spec fn spec_decode_response(answers: Seq<RecordDataView>) -> Result<
    MessageResponse,
    MessageResponseDecoderError,
> {
    if answers.len() == 0 {
        Err(MessageResponseDecoderError::NoAnswers)
    } else {
        match answers[0] {
            RecordDataView::A { o0, o1, o2, o3 } => spec_parse_ip(o0, o1, o2, o3),
            RecordDataView::Cname { labels } => spec_parse_cname(labels),
            RecordDataView::Unsupported => Err(MessageResponseDecoderError::UnsupportedDnsType),
        }
    }
}

/// Every response message decodes back from its own encoding: the response
/// half of the codec round-trip law.
pub proof fn lemma_response_round_trip(m: MessageResponse)
    ensures
        spec_decode_response(seq![spec_encode_response(m)]) == Ok::<
            MessageResponse,
            MessageResponseDecoderError,
        >(m),
{
    match m {
        MessageResponse::Announcement { rnd_nr, next_id } => {
            lemma_parse_dec_digits(rnd_nr);
            lemma_parse_dec_digits(next_id);
        },
        MessageResponse::Data { response: DataResponse::Resend } => {
        },
        MessageResponse::Data { response: DataResponse::Acknowledge { next_id } } => {
            assert((next_id % 256) + 256 * (next_id / 256) == next_id);
        },
        MessageResponse::Finish { response: FinishResponse::Resend } => {
            assert(seq![102u8][0] == 102u8);
            assert(seq![102u8] != seq![97u8]);
        },
        MessageResponse::Finish { response: FinishResponse::Acknowledge { rnd_nr } } => {
            lemma_parse_dec_digits(rnd_nr);
            assert(seq![102u8][0] == 102u8);
            assert(seq![102u8] != seq![97u8]);
            assert(seq![97u8][0] == 97u8);
            assert(seq![97u8] != seq![114u8]);
        },
    }
}

/// Whether a label is exactly the single byte `b`.
fn label_is_byte(l: &Vec<u8>, b: u8) -> (r: bool)
    ensures
        r == (l@ == seq![b]),
{
    if l.len() != 1 {
        proof {
            assert(seq![b].len() == 1);
        }
        false
    } else if l[0] == b {
        proof {
            assert(l@ =~= seq![b]);
        }
        true
    } else {
        proof {
            assert(seq![b][0] == b);
        }
        false
    }
}

impl MessageResponse {
    /// Encodes this response as the data of one DNS answer record. The
    /// second clause is the response round-trip law at the encoding site:
    /// decoding an answer holding the produced record yields this response.
    pub fn encode(self) -> (r: RecordData)
        ensures
            r@ == spec_encode_response(self),
            spec_decode_response(seq![r@]) == Ok::<
                MessageResponse,
                MessageResponseDecoderError,
            >(self),
    {
        let r = match self {
            MessageResponse::Announcement { rnd_nr, next_id } => {
                let mut labels: Vec<Vec<u8>> = Vec::new();
                let mut tag: Vec<u8> = Vec::new();
                tag.push(97);
                labels.push(tag);
                labels.push(u16_to_dec_label(rnd_nr));
                labels.push(u16_to_dec_label(next_id));
                let r = RecordData::Cname { labels };
                proof {
                    assert(r@->Cname_labels =~~= seq![
                        seq![97u8],
                        dec_digits(rnd_nr as nat),
                        dec_digits(next_id as nat),
                    ]);
                }
                r
            },
            MessageResponse::Data { response: DataResponse::Resend } => RecordData::A {
                o0: 1,
                o1: 1,
                o2: 1,
                o3: 1,
            },
            MessageResponse::Data { response: DataResponse::Acknowledge { next_id } } => {
                RecordData::A { o0: 2, o1: 2, o2: (next_id % 256) as u8, o3: (next_id / 256) as u8 }
            },
            MessageResponse::Finish { response: FinishResponse::Resend } => {
                let mut labels: Vec<Vec<u8>> = Vec::new();
                let mut tag: Vec<u8> = Vec::new();
                tag.push(102);
                let mut kind: Vec<u8> = Vec::new();
                kind.push(114);
                labels.push(tag);
                labels.push(kind);
                let r = RecordData::Cname { labels };
                proof {
                    assert(r@->Cname_labels =~~= seq![seq![102u8], seq![114u8]]);
                }
                r
            },
            MessageResponse::Finish { response: FinishResponse::Acknowledge { rnd_nr } } => {
                let mut labels: Vec<Vec<u8>> = Vec::new();
                let mut tag: Vec<u8> = Vec::new();
                tag.push(102);
                let mut kind: Vec<u8> = Vec::new();
                kind.push(97);
                labels.push(tag);
                labels.push(kind);
                labels.push(u16_to_dec_label(rnd_nr));
                let r = RecordData::Cname { labels };
                proof {
                    assert(r@->Cname_labels =~~= seq![
                        seq![102u8],
                        seq![97u8],
                        dec_digits(rnd_nr as nat),
                    ]);
                }
                r
            },
        };
        proof {
            lemma_response_round_trip(self);
        }
        r
    }

    fn parse_ip(o0: u8, o1: u8, o2: u8, o3: u8) -> (r: Result<
        MessageResponse,
        MessageResponseDecoderError,
    >)
        ensures
            r == spec_parse_ip(o0, o1, o2, o3),
    {
        if o0 == 1 && o1 == 1 {
            Ok(MessageResponse::Data { response: DataResponse::Resend })
        } else if o0 == 2 && o1 == 2 {
            let next_id: u16 = (o2 as u16) + 256 * (o3 as u16);
            Ok(MessageResponse::Data { response: DataResponse::Acknowledge { next_id } })
        } else {
            Err(MessageResponseDecoderError::InvalidIpv4)
        }
    }

    fn parse_cname(labels: &Vec<Vec<u8>>) -> (r: Result<
        MessageResponse,
        MessageResponseDecoderError,
    >)
        ensures
            r == spec_parse_cname(labels_view(labels@)),
    {
        if labels.len() < 2 {
            return Err(MessageResponseDecoderError::TooFewLabels);
        }
        if label_is_byte(&labels[0], 97) {
            if labels.len() < 3 {
                return Err(MessageResponseDecoderError::TooFewLabels);
            }
            let rnd_nr = match parse_u16_label(labels[1].as_slice()) {
                Some(n) => n,
                None => {
                    return Err(MessageResponseDecoderError::InvalidNumber);
                },
            };
            let next_id = match parse_u16_label(labels[2].as_slice()) {
                Some(n) => n,
                None => {
                    return Err(MessageResponseDecoderError::InvalidNumber);
                },
            };
            Ok(MessageResponse::Announcement { rnd_nr, next_id })
        } else if label_is_byte(&labels[0], 102) {
            if label_is_byte(&labels[1], 114) {
                Ok(MessageResponse::Finish { response: FinishResponse::Resend })
            } else if label_is_byte(&labels[1], 97) {
                if labels.len() < 3 {
                    return Err(MessageResponseDecoderError::TooFewLabels);
                }
                match parse_u16_label(labels[2].as_slice()) {
                    Some(rnd_nr) => Ok(
                        MessageResponse::Finish {
                            response: FinishResponse::Acknowledge { rnd_nr },
                        },
                    ),
                    None => Err(MessageResponseDecoderError::InvalidNumber),
                }
            } else {
                Err(MessageResponseDecoderError::InvalidName)
            }
        } else {
            Err(MessageResponseDecoderError::InvalidName)
        }
    }

    /// Decodes the answer records of one DNS message into a response.
    pub fn decode(answers: &Vec<RecordData>) -> (r: Result<
        MessageResponse,
        MessageResponseDecoderError,
    >)
        ensures
            r == spec_decode_response(answers@.map_values(|a: RecordData| a@)),
    {
        if answers.len() == 0 {
            return Err(MessageResponseDecoderError::NoAnswers);
        }
        match &answers[0] {
            RecordData::A { o0, o1, o2, o3 } => Self::parse_ip(*o0, *o1, *o2, *o3),
            RecordData::Cname { labels } => Self::parse_cname(labels),
            RecordData::Unsupported => Err(MessageResponseDecoderError::UnsupportedDnsType),
        }
    }
}

} // verus!
