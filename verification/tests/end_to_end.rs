use dns_encoding::client;
use dns_encoding::decode::MessageDecoder;
use dns_encoding::encode::MessageEncoder;
use dns_encoding::message::{DataResponse, Message, MessageResponse};
use dns_encoding::server::ServerState;

/// Drives one whole transfer, each message crossing the codec in both
/// directions, as it would over real DNS traffic.
#[test]
fn end_to_end_transfer() {
    let magic = b"8k1".to_vec();
    let subdomain = vec![b"extract".to_vec(), b"de".to_vec()];
    let encoder = MessageEncoder::new(magic.clone(), subdomain.clone());
    let decoder = MessageDecoder::new(magic, subdomain);

    let mut sender = client::TransmissionState::new(
        "db-server".to_string(),
        "passwords.txt".to_string(),
        vec![1, 2, 3, 4, 5, 6, 7],
        3,
    );
    let mut receiver = ServerState::new();

    let token = match sender.initial_message() {
        Message::Announcement { rnd_nr, .. } => rnd_nr,
        _ => panic!("Expected an announcement"),
    };

    let mut request = sender.initial_message();
    let mut expected_chunks = vec![vec![1, 2, 3], vec![4, 5, 6], vec![7]].into_iter();
    let mut expected_acks = vec![3u16, 4, 5].into_iter();

    // announcement exchange: the receiver assigns chunk identifier 2
    let query = encoder.encode(request);
    let arrived = decoder.decode(&query).unwrap();
    let answer = receiver.handle_message(arrived).unwrap();
    assert_eq!(MessageResponse::Announcement { rnd_nr: token, next_id: 2 }, answer);
    let record = answer.encode();
    let response = MessageResponse::decode(&vec![record]).unwrap();
    request = sender.handle_response(response).unwrap().unwrap();
    assert_eq!(Message::Data { id: 2, data: vec![1, 2, 3] }, request);

    // data exchanges
    let mut next_expected = 2u16;
    loop {
        let query = encoder.encode(request.clone());
        let arrived = decoder.decode(&query).unwrap();
        match &request {
            Message::Data { id, data } => {
                assert_eq!(next_expected, *id);
                assert_eq!(&expected_chunks.next().unwrap(), data);
            }
            Message::Finish { rnd_nr } => {
                assert_eq!(token, *rnd_nr);
            }
            _ => panic!("Expected data or finish"),
        }
        let was_finish = matches!(request, Message::Finish { .. });
        let answer = receiver.handle_message(arrived).unwrap();
        if was_finish {
            let record = answer.encode();
            let response = MessageResponse::decode(&vec![record]).unwrap();
            assert_eq!(Ok(None), sender.handle_response(response));
            break;
        }
        match &answer {
            MessageResponse::Data { response: DataResponse::Acknowledge { next_id } } => {
                let expected = expected_acks.next();
                if let Some(e) = expected {
                    assert_eq!(e, *next_id);
                }
                next_expected = *next_id;
            }
            _ => panic!("Expected an acknowledgement"),
        }
        let record = answer.encode();
        let response = MessageResponse::decode(&vec![record]).unwrap();
        request = sender.handle_response(response).unwrap().unwrap();
    }

    let finished = receiver.drain_finished();
    assert_eq!(1, finished.len());
    assert_eq!(vec![1, 2, 3, 4, 5, 6, 7], finished[0].data);
    assert_eq!("db-server", finished[0].host);
    assert_eq!("passwords.txt", finished[0].name);
    assert_eq!(token, finished[0].rdm_nr);
}
