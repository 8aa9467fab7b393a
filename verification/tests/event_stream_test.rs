use easyp2p::event_stream::{data_values, CodeStream, Notice};

fn show(notices: Vec<Notice>) -> Vec<(char, String)> {
    notices
        .into_iter()
        .map(|notice| match notice {
            Notice::Code(value) => ('c', value),
            Notice::Answer(value) => ('a', value),
        })
        .collect()
}

#[test]
fn values_are_those_of_lines_with_data() {
    assert_eq!(
        data_values("event: x\ndata: one \r\n\ndata:two\n:data: no\n data: no\ndata:\n"),
        vec!["one", "two", ""]
    );
    assert_eq!(data_values("data:data: x"), vec!["x"]);
    assert_eq!(data_values("data: data:x"), vec!["data:x"]);
    assert!(data_values("").is_empty());
}

#[test]
fn the_code_comes_first_and_the_answer_second() {
    let mut stream = CodeStream::new();
    let first = stream.on_chunk(b"event: connection_code\ndata: ABC234\n\n");
    assert_eq!(show(first), vec![('c', "ABC234".to_string())]);
    assert!(!stream.is_finished());
    assert!(stream.on_chunk(b": keep-alive\n\n").is_empty());
    let second = stream.on_chunk(b"event: peer_description\ndata: xyz\n\n");
    assert_eq!(show(second), vec![('a', "xyz".to_string())]);
    assert!(stream.is_finished());
    assert!(stream.on_chunk(b"data: more\n").is_empty());
    assert!(stream.is_finished());
}

#[test]
fn one_chunk_can_hold_both() {
    let mut stream = CodeStream::new();
    let all = stream.on_text("data: code\n\ndata: answer\n\ndata: more\n\n");
    assert_eq!(
        show(all),
        vec![('c', "code".to_string()), ('a', "answer".to_string())]
    );
    assert!(stream.is_finished());
}

#[test]
fn chunks_cut_after_a_line_feed_give_the_values_of_the_whole() {
    let mut cut = data_values("event: x\ndata: one\n");
    cut.extend(data_values("\ndata: two\n"));
    assert_eq!(data_values("event: x\ndata: one\n\ndata: two\n"), cut);
}

#[test]
fn a_line_cut_in_two_is_read_as_two_lines() {
    let mut stream = CodeStream::new();
    assert_eq!(show(stream.on_chunk(b"data: AB")), vec![('c', "AB".to_string())]);
    assert!(stream.on_chunk(b"C234\n").is_empty());
}

#[test]
fn malformed_text_is_replaced() {
    let mut stream = CodeStream::new();
    assert_eq!(
        show(stream.on_chunk(b"data: a\xffb\n")),
        vec![('c', "a\u{fffd}b".to_string())]
    );
}
