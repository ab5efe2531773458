use dns_encoding::message::{Message, MessageResponse, DataResponse, FinishResponse};
use dns_encoding::server::{IdGenerator, ServerError, ServerState};

#[test]
fn server_test_good_case() {
    let mut server_state = ServerState::new();

    let message0 = Message::Announcement {
        host: "db-server".to_string(),
        file_name: "passwords.txt".to_string(),
        rnd_nr: 23523,
    };

    let response0 = server_state.handle_message(message0).expect("expected a response");
    let next_id = match response0 {
        MessageResponse::Announcement { rnd_nr, next_id } => {
            assert_eq!(23523, rnd_nr);
            next_id
        }
        _ => panic!("Expected an announcement response"),
    };

    let message1 = Message::Data { id: next_id, data: vec![1, 2, 3] };
    let response1 = server_state.handle_message(message1).expect("expected an response");

    match response1 {
        MessageResponse::Data { response } => match response {
            DataResponse::Acknowledge { next_id: _ } => {}
            DataResponse::Resend => panic!("Expected an acknowledge"),
        },
        _ => panic!("Expected an data response"),
    };

    let message2 = Message::Finish { rnd_nr: 23523 };
    let response2 = server_state.handle_message(message2).expect("expected an response");
    match response2 {
        MessageResponse::Finish { response } => match response {
            FinishResponse::Acknowledge { rnd_nr } => {
                assert_eq!(23523, rnd_nr);
            }
            FinishResponse::Resend => panic!("Expected an acknowledge"),
        },
        _ => panic!("Expected Finish response"),
    }

    assert_eq!(1, server_state.finished_states.len());
}

#[test]
fn test_id_generator() {
    let mut generator = IdGenerator::new();
    assert_eq!(2, generator.next_id());
    assert_eq!(3, generator.next_id());
    assert_eq!(4, generator.next_id());

    let mut generator = IdGenerator { next_id: u16::MAX };
    assert_eq!(u16::MAX, generator.next_id());
    assert_eq!(2, generator.next_id());
    assert_eq!(3, generator.next_id());
}

#[test]
fn unknown_chunk_id_leaves_records_untouched() {
    let mut server_state = ServerState::new();
    let announce = Message::Announcement {
        host: "a".to_string(),
        file_name: "f".to_string(),
        rnd_nr: 7,
    };
    let next_id = match server_state.handle_message(announce).unwrap() {
        MessageResponse::Announcement { next_id, .. } => next_id,
        _ => panic!("Expected an announcement response"),
    };

    let before = server_state.states.clone();
    let stale = next_id.wrapping_add(100);
    let r = server_state.handle_message(Message::Data { id: stale, data: vec![1, 2] });
    assert_eq!(Err(ServerError::UnknownId { id: stale }), r);
    assert_eq!(before, server_state.states);
    assert_eq!(0, server_state.finished_states.len());
}

#[test]
fn unknown_session_token_is_rejected() {
    let mut server_state = ServerState::new();
    let r = server_state.handle_message(Message::Finish { rnd_nr: 4242 });
    assert_eq!(Err(ServerError::UnknownRndNr { rnd_nr: 4242 }), r);
    assert_eq!(0, server_state.finished_states.len());
}

#[test]
fn drain_finished_empties_the_queue() {
    let mut server_state = ServerState::new();
    let announce = Message::Announcement {
        host: "h".to_string(),
        file_name: "f.bin".to_string(),
        rnd_nr: 9,
    };
    let next_id = match server_state.handle_message(announce).unwrap() {
        MessageResponse::Announcement { next_id, .. } => next_id,
        _ => panic!("Expected an announcement response"),
    };
    server_state
        .handle_message(Message::Data { id: next_id, data: vec![5, 6] })
        .unwrap();
    server_state.handle_message(Message::Finish { rnd_nr: 9 }).unwrap();

    let drained = server_state.drain_finished();
    assert_eq!(1, drained.len());
    assert_eq!(vec![5, 6], drained[0].data);
    assert_eq!("f.bin", drained[0].name);
    assert_eq!("h", drained[0].host);
    assert_eq!(0, server_state.finished_states.len());
}
