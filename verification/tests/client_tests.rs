use dns_encoding::client::TransmissionState;
use dns_encoding::message::{Message, MessageResponse, DataResponse, FinishResponse};

#[test]
fn client_test_good_case() {
    let mut state = TransmissionState::new(
        "host".to_string(),
        "file.txt".to_string(),
        vec![1, 2, 3, 4, 5, 6, 7],
        3,
    );
    let message0 = state.initial_message();
    let client_rnd_nr = match message0 {
        Message::Announcement { host, file_name, rnd_nr } => {
            assert_eq!(state.host, host);
            assert_eq!(state.file_name, file_name);
            rnd_nr
        }
        _ => panic!("Expected an announcement"),
    };
    let response0 = MessageResponse::Announcement { rnd_nr: client_rnd_nr, next_id: 2 };
    let message1 = state
        .handle_response(response0)
        .unwrap()
        .expect("Expected a next message");
    match message1 {
        Message::Data { id, data } => {
            assert_eq!(2, id);
            assert_eq!(vec![1, 2, 3], data);
        }
        _ => panic!("Expected a data message."),
    }

    let response1 = MessageResponse::Data { response: DataResponse::Acknowledge { next_id: 3 } };
    match state
        .handle_response(response1)
        .unwrap()
        .expect("Expected another message")
    {
        Message::Data { id, data } => {
            assert_eq!(3, id);
            assert_eq!(vec![4, 5, 6], data);
        }
        _ => panic!("Expected a data message."),
    }

    let response2 = MessageResponse::Data { response: DataResponse::Acknowledge { next_id: 4 } };
    match state
        .handle_response(response2)
        .unwrap()
        .expect("Expected another message")
    {
        Message::Data { id, data } => {
            assert_eq!(4, id);
            assert_eq!(vec![7], data);
        }
        _ => panic!("Expected a data message."),
    }

    let response3 = MessageResponse::Data { response: DataResponse::Acknowledge { next_id: 5 } };
    match state
        .handle_response(response3)
        .unwrap()
        .expect("Expected another message")
    {
        Message::Finish { rnd_nr } => {
            assert_eq!(client_rnd_nr, rnd_nr);
        }
        _ => panic!("Expected a Finish message"),
    }

    let response4 =
        MessageResponse::Finish { response: FinishResponse::Acknowledge { rnd_nr: client_rnd_nr } };
    assert_eq!(Ok(None), state.handle_response(response4));
}

#[test]
fn resend_repeats_same_chunk() {
    let mut state = TransmissionState::new(
        "host".to_string(),
        "notes.txt".to_string(),
        vec![9, 8, 7, 6],
        3,
    );
    let _ = state.initial_message();
    let first = state
        .handle_response(MessageResponse::Announcement { rnd_nr: 1, next_id: 2 })
        .unwrap()
        .unwrap();
    assert_eq!(Message::Data { id: 2, data: vec![9, 8, 7] }, first);

    // any number of resend responses in a row yields byte-identical messages
    let resend = MessageResponse::Data { response: DataResponse::Resend };
    let again1 = state.handle_response(resend.clone()).unwrap().unwrap();
    let again2 = state.handle_response(resend.clone()).unwrap().unwrap();
    let again3 = state.handle_response(resend).unwrap().unwrap();
    assert_eq!(first, again1);
    assert_eq!(first, again2);
    assert_eq!(first, again3);

    // the offset has not moved: the next acknowledgement continues at byte 3
    let next = state
        .handle_response(MessageResponse::Data {
            response: DataResponse::Acknowledge { next_id: 3 },
        })
        .unwrap()
        .unwrap();
    assert_eq!(Message::Data { id: 3, data: vec![6] }, next);
}

#[test]
fn finish_resend_is_a_recoverable_error() {
    let mut state =
        TransmissionState::new("h".to_string(), "f".to_string(), vec![1], 1);
    let before_index = state.index;
    let r = state.handle_response(MessageResponse::Finish { response: FinishResponse::Resend });
    assert_eq!(
        Err(dns_encoding::client::TransmissionError::UnsupportedRecovery),
        r
    );
    assert_eq!(before_index, state.index);
}

#[test]
fn empty_file_sends_one_empty_chunk_then_finish() {
    let mut state =
        TransmissionState::new("h".to_string(), "empty".to_string(), Vec::new(), 4);
    let first = state
        .handle_response(MessageResponse::Announcement { rnd_nr: 0, next_id: 2 })
        .unwrap()
        .unwrap();
    assert_eq!(Message::Data { id: 2, data: Vec::new() }, first);
    let second = state
        .handle_response(MessageResponse::Data {
            response: DataResponse::Acknowledge { next_id: 3 },
        })
        .unwrap()
        .unwrap();
    assert!(matches!(second, Message::Finish { .. }));
}
