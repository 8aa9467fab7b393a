use easyp2p::event_stream::{CodeStream, Notice};
use easyp2p::p2p::SessionDescription;
use easyp2p::signaling::{
    connection_code, generate_connection_code, AppState, StreamAction, StreamInput,
};

fn session(text: &str) -> SessionDescription {
    SessionDescription {
        session_description: text.to_string(),
    }
}

#[test]
fn codes_are_made_of_six_characters_of_the_set() {
    let mut codes = std::collections::HashSet::new();
    for _ in 0..200 {
        let code = generate_connection_code();
        assert_eq!(code.len(), 6);
        assert!(code
            .chars()
            .all(|c| "ABCDEFGHJKLMNPRTUVWXYZ234678".contains(c)));
        codes.insert(code);
    }
    assert!(codes.len() > 190);
}

#[test]
fn codes_go_by_the_numbers_drawn() {
    assert_eq!(connection_code(&vec![0, 1, 21, 22, 27, 8]), "ABZ28J");
    assert_eq!(connection_code(&Vec::new()), "");
}

#[test]
fn codes_in_use_are_not_given_out() {
    let mut state: AppState<u32> = AppState::new();
    assert_eq!(
        state.unused_code("ABCDEF".to_string()),
        Some("ABCDEF".to_string())
    );
    state.register_under("ABCDEF", session("x"), 1);
    assert_eq!(state.unused_code("ABCDEF".to_string()), None);
    let code = state.get_unique_connection_code().unwrap();
    assert_eq!(code.len(), 6);
    assert_ne!(code, "ABCDEF");
}

#[test]
fn a_code_is_found_without_drawing_too() {
    let mut state: AppState<u32> = AppState::new();
    for c in "ABCDEFGHJKLMNPRTUVWXYZ234678".chars() {
        let code = state.find_connection_code(0).unwrap();
        assert_eq!(code, format!("AAAAA{c}"));
        state.register_under(&code, session("x"), 1);
    }
    assert_eq!(state.find_connection_code(0).unwrap(), "AAAABA");
    let drawn = state.find_connection_code(100).unwrap();
    assert_eq!(state.unused_code(drawn.clone()), Some(drawn));
}

#[test]
fn a_registration_takes_an_unused_code_and_keeps_the_other_sessions() {
    let mut state: AppState<u32> = AppState::new();
    state.register_under("AAAAAA", session("first"), 1);
    let mut stream = match state.register(session("second"), 2) {
        Ok(stream) => stream,
        Err(_) => panic!("no code"),
    };
    let code = match stream.step(StreamInput::Resume) {
        StreamAction::Emit { data, .. } => data,
        other => panic!("{other:?}"),
    };
    assert_ne!(code, "AAAAAA");
    assert!(code
        .chars()
        .all(|c| "ABCDEFGHJKLMNPRTUVWXYZ234678".contains(c)));
    assert_eq!(state.get_session(&code).session_description, "second");
    assert_eq!(
        state.send_session(&code, session("answer")),
        Some((&2, "answer".to_string()))
    );
    assert_eq!(state.get_session("AAAAAA").session_description, "first");
    assert_eq!(
        state.send_session("AAAAAA", session("answer")),
        Some((&1, "answer".to_string()))
    );
}

#[test]
fn a_registered_session_is_found_by_its_code_alone() {
    let mut state: AppState<u32> = AppState::new();
    state.register_under("AAAAAA", session("first"), 1);
    state.register_under("BBBBBB", session("second"), 2);
    assert_eq!(state.get_session("AAAAAA").session_description, "first");
    assert_eq!(state.get_session("BBBBBB").session_description, "second");
    assert_eq!(
        state.send_session("BBBBBB", session("answer")),
        Some((&2, "answer".to_string()))
    );
    state.register_under("AAAAAA", session("third"), 3);
    assert_eq!(state.get_session("AAAAAA").session_description, "third");
    assert_eq!(
        state.send_session("AAAAAA", session("answer")),
        Some((&3, "answer".to_string()))
    );
}

#[test]
fn an_unknown_code_gives_the_empty_description() {
    let state: AppState<u32> = AppState::new();
    assert_eq!(state.get_session("CCCCCC").session_description, "");
    assert_eq!(state.send_session("CCCCCC", session("answer")), None);
}

#[test]
fn a_removed_session_is_gone_and_the_others_stay() {
    let mut state: AppState<u32> = AppState::new();
    state.register_under("AAAAAA", session("first"), 1);
    state.register_under("BBBBBB", session("second"), 2);
    state.remove("AAAAAA");
    assert_eq!(state.get_session("AAAAAA").session_description, "");
    assert_eq!(state.send_session("AAAAAA", session("answer")), None);
    assert_eq!(state.get_session("BBBBBB").session_description, "second");
    assert_eq!(
        state.unused_code("AAAAAA".to_string()),
        Some("AAAAAA".to_string())
    );
    state.remove("CCCCCC");
    assert_eq!(state.get_session("BBBBBB").session_description, "second");
}

#[test]
fn the_stream_announces_the_code_and_passes_the_answer_on() {
    let mut state: AppState<u32> = AppState::new();
    let mut stream = state.register_under("AAAAAA", session("first"), 1);
    assert!(stream.expects(&StreamInput::Resume));
    assert!(!stream.expects(&StreamInput::Message(None)));
    match stream.step(StreamInput::Resume) {
        StreamAction::Emit { event, data } => {
            assert_eq!((event.as_str(), data.as_str()), ("connection_code", "AAAAAA"))
        }
        other => panic!("{other:?}"),
    }
    assert!(matches!(
        stream.step(StreamInput::Resume),
        StreamAction::Await
    ));
    assert!(!stream.expects(&StreamInput::Resume));
    let answer = StreamInput::Message(Some("answer".to_string()));
    assert!(stream.expects(&answer));
    match stream.step(answer) {
        StreamAction::Emit { event, data } => {
            assert_eq!((event.as_str(), data.as_str()), ("peer_description", "answer"))
        }
        other => panic!("{other:?}"),
    }
    match stream.step(StreamInput::Resume) {
        StreamAction::ScheduleRemoval {
            connection_code,
            delay_secs,
        } => assert_eq!((connection_code.as_str(), delay_secs), ("AAAAAA", 1)),
        other => panic!("{other:?}"),
    }
    assert!(matches!(stream.step(StreamInput::Resume), StreamAction::End));
    assert!(matches!(stream.step(StreamInput::Resume), StreamAction::End));
}

#[test]
fn the_stream_ends_without_removal_where_no_answer_can_come() {
    let mut state: AppState<u32> = AppState::new();
    let mut stream = state.register_under("AAAAAA", session("first"), 1);
    stream.step(StreamInput::Resume);
    stream.step(StreamInput::Resume);
    assert!(matches!(
        stream.step(StreamInput::Message(None)),
        StreamAction::End
    ));
    assert!(matches!(stream.step(StreamInput::Resume), StreamAction::End));
}

#[test]
fn a_registered_peer_learns_its_code_and_the_answer() {
    let mut state: AppState<u32> = AppState::new();
    let code = state.get_unique_connection_code().unwrap();
    let mut stream = state.register_under(&code, session("first"), 1);
    let mut reader = CodeStream::new();
    let mut learned: Vec<String> = Vec::new();
    let mut input = StreamInput::Resume;
    loop {
        match stream.step(input) {
            StreamAction::Emit { event, data } => {
                let text = format!("event: {event}\ndata: {data}\n\n");
                for notice in reader.on_chunk(text.as_bytes()) {
                    learned.push(match notice {
                        Notice::Code(value) => value,
                        Notice::Answer(value) => value,
                    });
                }
                input = StreamInput::Resume;
            }
            StreamAction::Await => {
                input = StreamInput::Message(Some("KLUv/SAA==".to_string()));
            }
            StreamAction::ScheduleRemoval { .. } => input = StreamInput::Resume,
            StreamAction::End => break,
        }
    }
    assert_eq!(learned, vec![code, "KLUv/SAA==".to_string()]);
}

#[test]
fn cuts_after_line_feeds_do_not_matter() {
    let whole = "event: connection_code\ndata: ABC234\n\nevent: peer_description\ndata: xyz=\n\n";
    let ends: Vec<usize> = whole.match_indices('\n').map(|(i, _)| i + 1).collect();
    for first in &ends {
        for second in &ends {
            if first <= second {
                let mut reader = CodeStream::new();
                let mut learned: Vec<String> = Vec::new();
                for chunk in [&whole[..*first], "", &whole[*first..*second], &whole[*second..]] {
                    for notice in reader.on_chunk(chunk.as_bytes()) {
                        learned.push(match notice {
                            Notice::Code(value) => format!("code {value}"),
                            Notice::Answer(value) => format!("answer {value}"),
                        });
                    }
                }
                assert_eq!(learned, vec!["code ABC234", "answer xyz="]);
            }
        }
    }
}
