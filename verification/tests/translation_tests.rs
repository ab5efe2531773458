use dns_encoding::decode::{MessageDecoder, MessageDecoderError};
use dns_encoding::dns::{DnsQuery, QueryName, RecordData};
use dns_encoding::encode::MessageEncoder;
use dns_encoding::message::{
    DataResponse, FinishResponse, Message, MessageResponse, MessageResponseDecoderError,
};

fn magic() -> Vec<u8> {
    b"magic".to_vec()
}

fn subdomain() -> Vec<Vec<u8>> {
    vec![b"extract".to_vec(), b"de".to_vec()]
}

fn messages_to_test() -> Vec<Message> {
    vec![
        Message::Announcement {
            host: "database".to_string(),
            file_name: "secrets.txt".to_string(),
            rnd_nr: 1234,
        },
        Message::Data { id: 2, data: vec![1, 2, 3, 4, 5] },
        Message::Finish { rnd_nr: 1234 },
    ]
}

#[test]
fn test_symmetric() {
    let encoder = MessageEncoder::new(magic(), subdomain());
    let decoder = MessageDecoder::new(magic(), subdomain());

    for message in messages_to_test() {
        let dns_message = encoder.encode(message.clone());
        let message2 = decoder.decode(&dns_message).unwrap();
        assert_eq!(message, message2);
    }
}

fn response_messages_to_test() -> Vec<MessageResponse> {
    vec![
        MessageResponse::Announcement { rnd_nr: 1234, next_id: 42 },
        MessageResponse::Data { response: DataResponse::Resend },
        MessageResponse::Data { response: DataResponse::Acknowledge { next_id: 43 } },
        MessageResponse::Finish { response: FinishResponse::Resend },
        MessageResponse::Finish { response: FinishResponse::Acknowledge { rnd_nr: 1234 } },
    ]
}

#[test]
fn translation_tests_test_symmetric() {
    for message in response_messages_to_test() {
        let r_data = message.clone().encode();
        let answers = vec![r_data];
        let message2 = MessageResponse::decode(&answers);
        assert_eq!(message, message2.unwrap());
    }
}

#[test]
fn request_round_trip_arbitrary_bytes_and_escaped_file_name() {
    let encoder = MessageEncoder::new(magic(), subdomain());
    let decoder = MessageDecoder::new(magic(), subdomain());

    let mut all_bytes: Vec<u8> = Vec::new();
    for b in 0..=255u8 {
        all_bytes.push(b);
    }
    let cases = vec![
        Message::Data { id: 7, data: all_bytes },
        Message::Data { id: u16::MAX, data: Vec::new() },
        Message::Announcement {
            host: "host-zwölf".to_string(),
            file_name: "päss wörds?.txt".to_string(),
            rnd_nr: 65535,
        },
        Message::Announcement {
            host: String::new(),
            file_name: String::new(),
            rnd_nr: 0,
        },
    ];
    for message in cases {
        let q = encoder.encode(message.clone());
        assert_eq!(message, decoder.decode(&q).unwrap());
    }
}

#[test]
fn response_round_trip_boundary_ids() {
    for id in [0u16, 1, 65535] {
        let m = MessageResponse::Data { response: DataResponse::Acknowledge { next_id: id } };
        let answers = vec![m.clone().encode()];
        assert_eq!(m, MessageResponse::decode(&answers).unwrap());

        let a = MessageResponse::Announcement { rnd_nr: id, next_id: id };
        let answers = vec![a.clone().encode()];
        assert_eq!(a, MessageResponse::decode(&answers).unwrap());
    }
}

#[test]
fn announcement_labels_are_really_encoded() {
    let encoder = MessageEncoder::new(magic(), subdomain());
    let q = encoder.encode(Message::Announcement {
        host: "database".to_string(),
        file_name: "secrets.txt".to_string(),
        rnd_nr: 23523,
    });
    assert_eq!(0, q.id);
    let labels = &q.queries[0].labels;
    // magic, host, base32(file name), decimal token, then the subdomain
    assert_eq!(6, labels.len());
    assert_eq!(b"magic".to_vec(), labels[0]);
    assert_eq!(b"database".to_vec(), labels[1]);
    // the file-name label is base32, not the raw name
    assert_ne!(b"secrets.txt".to_vec(), labels[2]);
    assert_eq!(b"23523".to_vec(), labels[3]);
    assert_eq!(b"extract".to_vec(), labels[4]);
    assert_eq!(b"de".to_vec(), labels[5]);
}

#[test]
fn decode_base32_known_value() {
    // the Crockford alphabet maps these five bytes to "Z0Z0Z0Z0"
    let decoded = MessageDecoder::decode_base32("Z0Z0Z0Z0").unwrap();
    assert_eq!(vec![0xF8, 0x3E, 0x0F, 0x83, 0xE0], decoded);
    assert!(MessageDecoder::decode_base32(",").is_err());
}

#[test]
fn request_decode_errors() {
    let decoder = MessageDecoder::new(magic(), subdomain());

    let no_queries = DnsQuery { id: 5, queries: Vec::new() };
    assert_eq!(Err(MessageDecoderError::NoQueries), decoder.decode(&no_queries));

    let short = DnsQuery {
        id: 5,
        queries: vec![QueryName { labels: vec![b"magic".to_vec(), b"extract".to_vec()] }],
    };
    assert_eq!(Err(MessageDecoderError::TooFewLabels), decoder.decode(&short));

    let wrong_magic = DnsQuery {
        id: 5,
        queries: vec![QueryName {
            labels: vec![
                b"other".to_vec(),
                b"payload".to_vec(),
                b"extract".to_vec(),
                b"de".to_vec(),
            ],
        }],
    };
    assert_eq!(Err(MessageDecoderError::NoMagicNr), decoder.decode(&wrong_magic));

    let wrong_subdomain = DnsQuery {
        id: 5,
        queries: vec![QueryName {
            labels: vec![
                b"magic".to_vec(),
                b"payload".to_vec(),
                b"steal".to_vec(),
                b"de".to_vec(),
            ],
        }],
    };
    assert_eq!(Err(MessageDecoderError::WrongSubdomain), decoder.decode(&wrong_subdomain));

    // announcement whose token label is not a number
    let bad_number = DnsQuery {
        id: 0,
        queries: vec![QueryName {
            labels: vec![
                b"magic".to_vec(),
                b"host".to_vec(),
                b"".to_vec(),
                b"12x".to_vec(),
                b"extract".to_vec(),
                b"de".to_vec(),
            ],
        }],
    };
    assert_eq!(Err(MessageDecoderError::ExpectedNrLabel), decoder.decode(&bad_number));

    // a finish whose token does not fit in 16 bits
    let too_large = DnsQuery {
        id: 1,
        queries: vec![QueryName {
            labels: vec![
                b"magic".to_vec(),
                b"65536".to_vec(),
                b"extract".to_vec(),
                b"de".to_vec(),
            ],
        }],
    };
    assert_eq!(Err(MessageDecoderError::ExpectedNrLabel), decoder.decode(&too_large));

    // announcement whose file-name label is not base32
    let bad_base32 = DnsQuery {
        id: 0,
        queries: vec![QueryName {
            labels: vec![
                b"magic".to_vec(),
                b"host".to_vec(),
                b",".to_vec(),
                b"7".to_vec(),
                b"extract".to_vec(),
                b"de".to_vec(),
            ],
        }],
    };
    assert_eq!(Err(MessageDecoderError::InvalidBase32), decoder.decode(&bad_base32));
}

#[test]
fn subdomain_comparison_is_case_insensitive() {
    let decoder = MessageDecoder::new(magic(), subdomain());
    let q = DnsQuery {
        id: 1,
        queries: vec![QueryName {
            labels: vec![
                b"MAGIC".to_vec(),
                b"17".to_vec(),
                b"EXTRACT".to_vec(),
                b"De".to_vec(),
            ],
        }],
    };
    assert_eq!(Ok(Message::Finish { rnd_nr: 17 }), decoder.decode(&q));
}

#[test]
fn response_encodings_exact_forms() {
    // the resend sentinel is the address 1.1.1.1
    let resend = MessageResponse::Data { response: DataResponse::Resend };
    assert_eq!(RecordData::A { o0: 1, o1: 1, o2: 1, o3: 1 }, resend.encode());

    // an acknowledgement is 2.2.<lo>.<hi> with the id in little-endian order
    let ack = MessageResponse::Data { response: DataResponse::Acknowledge { next_id: 263 } };
    assert_eq!(RecordData::A { o0: 2, o1: 2, o2: 7, o3: 1 }, ack.encode());

    // an announcement is the canonical name a.<token>.<next id>
    let ann = MessageResponse::Announcement { rnd_nr: 1234, next_id: 42 };
    assert_eq!(
        RecordData::Cname {
            labels: vec![b"a".to_vec(), b"1234".to_vec(), b"42".to_vec()],
        },
        ann.encode()
    );

    // the finish answers are f.r and f.a.<token>
    let finish_resend = MessageResponse::Finish { response: FinishResponse::Resend };
    assert_eq!(
        RecordData::Cname { labels: vec![b"f".to_vec(), b"r".to_vec()] },
        finish_resend.encode()
    );
    let finish_ack = MessageResponse::Finish { response: FinishResponse::Acknowledge { rnd_nr: 9 } };
    assert_eq!(
        RecordData::Cname {
            labels: vec![b"f".to_vec(), b"a".to_vec(), b"9".to_vec()],
        },
        finish_ack.encode()
    );
}

#[test]
fn response_decode_errors() {
    let no_answers: Vec<RecordData> = Vec::new();
    assert_eq!(
        Err(MessageResponseDecoderError::NoAnswers),
        MessageResponse::decode(&no_answers)
    );

    let unsupported = vec![RecordData::Unsupported];
    assert_eq!(
        Err(MessageResponseDecoderError::UnsupportedDnsType),
        MessageResponse::decode(&unsupported)
    );

    let bad_ip = vec![RecordData::A { o0: 9, o1: 9, o2: 0, o3: 0 }];
    assert_eq!(
        Err(MessageResponseDecoderError::InvalidIpv4),
        MessageResponse::decode(&bad_ip)
    );

    let one_label = vec![RecordData::Cname { labels: vec![b"a".to_vec()] }];
    assert_eq!(
        Err(MessageResponseDecoderError::TooFewLabels),
        MessageResponse::decode(&one_label)
    );

    let strange_name = vec![RecordData::Cname {
        labels: vec![b"x".to_vec(), b"y".to_vec()],
    }];
    assert_eq!(
        Err(MessageResponseDecoderError::InvalidName),
        MessageResponse::decode(&strange_name)
    );

    let bad_number = vec![RecordData::Cname {
        labels: vec![b"a".to_vec(), b"12x".to_vec(), b"3".to_vec()],
    }];
    assert_eq!(
        Err(MessageResponseDecoderError::InvalidNumber),
        MessageResponse::decode(&bad_number)
    );
}
