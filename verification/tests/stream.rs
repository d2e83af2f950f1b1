use evilcorp_secondpilot::json::{parse_json, Json, Member};
use evilcorp_secondpilot::sse::{parse_line, strip_data_prefix, SseLine};
use evilcorp_secondpilot::stream::{append_line, assemble};
use evilcorp_secondpilot::{
    Choice, ClientError, CompletionResponse, CompletionStream, Delta, EvilcorpSecondPilotClient,
};

fn client() -> EvilcorpSecondPilotClient {
    EvilcorpSecondPilotClient::new("credential".to_string())
}

fn record(content: &str) -> String {
    format!("data: {{\"choices\":[{{\"delta\":{{\"content\":\"{}\"}}}}]}}\n", content)
}

fn chunks_of(parts: &[&[u8]]) -> Vec<Vec<u8>> {
    parts.iter().map(|p| p.to_vec()).collect()
}

#[test]
fn two_chunks_assemble_hello() {
    let first = b"data: {\"choices\":[{\"delta\":{\"content\":\"Hel\"}}]}\n";
    let second = b"data: {\"choices\":[{\"delta\":{\"content\":\"lo\"}}]}\ndata: [DONE]\n";
    let chunks = chunks_of(&[first, second]);
    assert_eq!(client().query(200, &chunks), Ok("Hello".to_string()));
}

#[test]
fn streamed_chunks_assemble_hello() {
    let mut stream = CompletionStream::begin(200).unwrap();
    assert_eq!(
        stream.push_chunk(b"data: {\"choices\":[{\"delta\":{\"content\":\"Hel\"}}]}\n"),
        Ok(())
    );
    assert_eq!(
        stream.push_chunk(
            b"data: {\"choices\":[{\"delta\":{\"content\":\"lo\"}}]}\ndata: [DONE]\n"
        ),
        Ok(())
    );
    assert_eq!(stream.finish(), Ok("Hello".to_string()));
}

#[test]
fn empty_body_gives_empty_answer() {
    assert_eq!(assemble(200, &Vec::new()), Ok(String::new()));
    assert_eq!(assemble(200, &chunks_of(&[b"", b""])), Ok(String::new()));
}

#[test]
fn done_line_adds_nothing_and_is_no_error() {
    assert_eq!(parse_line("data: [DONE]"), SseLine::Ignored);
    assert_eq!(assemble(200, &chunks_of(&[b"data: [DONE]\n"])), Ok(String::new()));
    let with_marker = format!("{}data: [DONE]\n{}", record("a"), record("b"));
    let chunks = vec![with_marker.into_bytes()];
    assert_eq!(assemble(200, &chunks), Ok("ab".to_string()));
}

#[test]
fn done_line_without_line_feed_at_the_end() {
    let body = format!("{}data: [DONE]", record("x"));
    assert_eq!(assemble(200, &vec![body.into_bytes()]), Ok("x".to_string()));
}

#[test]
fn lines_without_data_prefix_are_ignored() {
    assert_eq!(parse_line(": keep-alive"), SseLine::Ignored);
    assert_eq!(parse_line(""), SseLine::Ignored);
    assert_eq!(parse_line("event: message"), SseLine::Ignored);
    assert_eq!(parse_line("data:{\"choices\":[]}"), SseLine::Ignored);
    assert_eq!(parse_line(" data: {\"choices\":[]}"), SseLine::Ignored);
    let body = format!(": keep-alive\n\n{}\n: ping\n{}\n", record("one"), record("two"));
    assert_eq!(assemble(200, &vec![body.into_bytes()]), Ok("onetwo".to_string()));
}

#[test]
fn unmarked_json_line_is_ignored() {
    let body = "{\"choices\":[{\"delta\":{\"content\":\"no\"}}]}\n";
    assert_eq!(assemble(200, &vec![body.as_bytes().to_vec()]), Ok(String::new()));
}

#[test]
fn data_prefix_is_stripped() {
    assert_eq!(strip_data_prefix("data: abc"), Some("abc"));
    assert_eq!(strip_data_prefix("data: "), Some(""));
    assert_eq!(strip_data_prefix("data:"), None);
    assert_eq!(strip_data_prefix("data"), None);
    assert_eq!(strip_data_prefix("Data: abc"), None);
    assert_eq!(strip_data_prefix("data: \u{e9}t\u{e9}"), Some("\u{e9}t\u{e9}"));
    assert_eq!(strip_data_prefix("\u{e9}data: x"), None);
}

#[test]
fn line_with_envelope_is_parsed() {
    let line = "data: {\"choices\":[{\"delta\":{\"content\":\"Hel\"}}]}";
    let expected = CompletionResponse {
        choices: vec![Choice { delta: Delta { content: "Hel".to_string() } }],
    };
    assert_eq!(parse_line(line), SseLine::Envelope(expected));
    assert_eq!(parse_line(line).fragment(), "Hel");
}

#[test]
fn only_the_first_choice_adds_its_content() {
    let line = "data: {\"choices\":[{\"delta\":{\"content\":\"a\"}},{\"delta\":{\"content\":\"b\"}}]}";
    let parsed = parse_line(line);
    match &parsed {
        SseLine::Envelope(response) => assert_eq!(response.choices.len(), 2),
        SseLine::Ignored => panic!("the line holds an envelope"),
    }
    assert_eq!(parsed.fragment(), "a");
    let body = format!("{}\n", line);
    assert_eq!(assemble(200, &vec![body.into_bytes()]), Ok("a".to_string()));
}

#[test]
fn empty_choices_add_nothing_and_are_no_error() {
    let line = "data: {\"choices\":[]}";
    assert_eq!(parse_line(line), SseLine::Envelope(CompletionResponse { choices: vec![] }));
    assert_eq!(parse_line(line).fragment(), "");
    let body = format!("{}data: {{\"choices\":[]}}\n{}", record("a"), record("b"));
    assert_eq!(assemble(200, &vec![body.into_bytes()]), Ok("ab".to_string()));
}

#[test]
fn malformed_payloads_are_skipped() {
    assert_eq!(parse_line("data: "), SseLine::Ignored);
    assert_eq!(parse_line("data: {"), SseLine::Ignored);
    assert_eq!(parse_line("data: not json"), SseLine::Ignored);
    assert_eq!(parse_line("data: 12"), SseLine::Ignored);
    assert_eq!(parse_line("data: {}"), SseLine::Ignored);
    assert_eq!(parse_line("data: {\"choices\":{}}"), SseLine::Ignored);
    assert_eq!(parse_line("data: {\"choices\":[{}]}"), SseLine::Ignored);
    assert_eq!(parse_line("data: {\"choices\":[{\"delta\":{}}]}"), SseLine::Ignored);
    assert_eq!(parse_line("data: {\"choices\":[{\"delta\":{\"content\":1}}]}"), SseLine::Ignored);
    assert_eq!(
        parse_line("data: {\"choices\":[{\"delta\":{\"content\":null}}]}"),
        SseLine::Ignored
    );
    assert_eq!(
        parse_line("data: {\"choices\":[{\"delta\":{\"content\":\"a\"}},{\"delta\":{}}]}"),
        SseLine::Ignored
    );
    assert_eq!(
        parse_line("data: {\"choices\":[{\"delta\":{\"content\":\"a\"}}]} trailing"),
        SseLine::Ignored
    );
    let body = format!("data: {{\n{}data: nonsense\n{}", record("a"), record("b"));
    assert_eq!(assemble(200, &vec![body.into_bytes()]), Ok("ab".to_string()));
}

#[test]
fn other_members_of_the_envelope_are_passed_over() {
    let line = "data: {\"id\":\"x\",\"choices\":[{\"index\":0,\"delta\":{\"role\":\"assistant\",\"content\":\"hi\"}}],\"created\":1}";
    assert_eq!(parse_line(line).fragment(), "hi");
}

#[test]
fn escapes_in_content_are_decoded() {
    let line = "data: {\"choices\":[{\"delta\":{\"content\":\"a\\nb\\\"c\\u00e9\"}}]}";
    assert_eq!(parse_line(line).fragment(), "a\nb\"c\u{e9}");
}

#[test]
fn every_split_of_the_body_gives_the_same_answer() {
    let body = format!(
        ": keep-alive\r\n{}\r\ndata: {{\"choices\":[]}}\n{}data: [DONE]\n",
        record("gr\u{fc}\u{df}e ").trim_end(),
        record("\u{4e16}\u{754c}")
    )
    .into_bytes();
    let whole = assemble(200, &vec![body.clone()]);
    assert_eq!(whole, Ok("gr\u{fc}\u{df}e \u{4e16}\u{754c}".to_string()));
    for cut in 0..=body.len() {
        let chunks = vec![body[..cut].to_vec(), body[cut..].to_vec()];
        assert_eq!(assemble(200, &chunks), whole);
    }
    let bytewise: Vec<Vec<u8>> = body.iter().map(|b| vec![*b]).collect();
    assert_eq!(assemble(200, &bytewise), whole);
}

#[test]
fn fragments_keep_their_order_of_arrival() {
    let chunks = vec![
        record("1").into_bytes(),
        record("2").into_bytes(),
        format!("{}{}", record("3"), record("1")).into_bytes(),
    ];
    assert_eq!(assemble(200, &chunks), Ok("1231".to_string()));
}

#[test]
fn line_split_between_two_reads() {
    let mut stream = CompletionStream::begin(200).unwrap();
    assert_eq!(stream.push_chunk(b"data: {\"choices\":[{\"del"), Ok(()));
    assert_eq!(stream.push_chunk(b"ta\":{\"content\":\"whole\"}}]}"), Ok(()));
    assert_eq!(stream.push_chunk(b"\n"), Ok(()));
    assert_eq!(stream.finish(), Ok("whole".to_string()));
}

#[test]
fn character_split_between_two_reads() {
    let body = record("\u{e9}").into_bytes();
    let cut = body.iter().position(|b| *b == 0xc3).unwrap() + 1;
    let mut stream = CompletionStream::begin(200).unwrap();
    assert_eq!(stream.push_chunk(&body[..cut]), Ok(()));
    assert_eq!(stream.push_chunk(&body[cut..]), Ok(()));
    assert_eq!(stream.finish(), Ok("\u{e9}".to_string()));
}

#[test]
fn carriage_return_belongs_to_the_line_ending() {
    let body = "data: {\"choices\":[{\"delta\":{\"content\":\"a\"}}]}\r\ndata: [DONE]\r\n";
    assert_eq!(assemble(200, &vec![body.as_bytes().to_vec()]), Ok("a".to_string()));
}

#[test]
fn last_line_without_line_feed_counts() {
    let body = "data: {\"choices\":[{\"delta\":{\"content\":\"end\"}}]}";
    assert_eq!(assemble(200, &vec![body.as_bytes().to_vec()]), Ok("end".to_string()));
}

#[test]
fn refused_status_is_a_transport_error() {
    let chunks = vec![record("partial").into_bytes()];
    assert_eq!(client().query(500, &chunks), Err(ClientError::Transport));
    assert_eq!(client().query(404, &chunks), Err(ClientError::Transport));
    assert_eq!(client().query(199, &chunks), Err(ClientError::Transport));
    assert_eq!(client().query(300, &chunks), Err(ClientError::Transport));
    assert_eq!(client().query(0, &Vec::new()), Err(ClientError::Transport));
    assert_eq!(CompletionStream::begin(503).err(), Some(ClientError::Transport));
}

#[test]
fn every_success_status_is_accepted() {
    let chunks = vec![record("ok").into_bytes()];
    assert_eq!(client().query(200, &chunks), Ok("ok".to_string()));
    assert_eq!(client().query(204, &chunks), Ok("ok".to_string()));
    assert_eq!(client().query(299, &chunks), Ok("ok".to_string()));
}

#[test]
fn bytes_that_are_not_text_are_an_encoding_error() {
    let chunks = vec![vec![0xff, 0xfe, b'\n']];
    assert_eq!(assemble(200, &chunks), Err(ClientError::Encoding));
    let mut body = record("a").into_bytes();
    body.extend_from_slice(&[b'd', b'a', b't', b'a', b':', b' ', 0xc3, b'\n']);
    body.extend_from_slice(record("b").as_bytes());
    assert_eq!(assemble(200, &vec![body]), Err(ClientError::Encoding));
    assert_eq!(assemble(200, &vec![vec![0xe4, 0xb8]]), Err(ClientError::Encoding));
}

#[test]
fn failed_stream_stays_failed() {
    let mut stream = CompletionStream::begin(200).unwrap();
    assert_eq!(stream.push_chunk(b"data: x"), Ok(()));
    assert_eq!(stream.push_chunk(&[0x80, b'\n']), Err(ClientError::Encoding));
    assert_eq!(stream.push_chunk(record("late").as_bytes()), Err(ClientError::Encoding));
    assert_eq!(stream.abort(), ClientError::Encoding);
    assert_eq!(stream.finish(), Err(ClientError::Encoding));
}

#[test]
fn unfinished_character_waits_for_the_line_feed() {
    let mut stream = CompletionStream::begin(200).unwrap();
    assert_eq!(stream.push_chunk(&[0xe4, 0xb8]), Ok(()));
    assert_eq!(stream.push_chunk(&[0x96, b'\n']), Ok(()));
    assert_eq!(stream.finish(), Ok(String::new()));
}

#[test]
fn transport_failure_discards_the_answer() {
    let mut stream = CompletionStream::begin(200).unwrap();
    assert_eq!(stream.push_chunk(record("partial").as_bytes()), Ok(()));
    assert_eq!(stream.abort(), ClientError::Transport);
    assert_eq!(stream.push_chunk(record("more").as_bytes()), Err(ClientError::Transport));
    assert_eq!(stream.finish(), Err(ClientError::Transport));
}

#[test]
fn error_messages() {
    assert_eq!(ClientError::Auth.message(), "token exchange failed");
    assert_eq!(ClientError::Transport.message(), "completion transport failed");
    assert_eq!(ClientError::Encoding.message(), "completion stream is not valid UTF-8");
}

#[test]
fn payload_is_classified_by_its_document() {
    assert_eq!(SseLine::from_document(None), SseLine::Ignored);
    assert_eq!(SseLine::from_document(Some(Json::Null)), SseLine::Ignored);
    assert_eq!(SseLine::from_document(parse_json("[]")), SseLine::Ignored);
    let empty = Json::Object(vec![Member { name: "choices".to_string(), value: Json::Array(vec![]) }]);
    assert_eq!(
        SseLine::from_document(Some(empty)),
        SseLine::Envelope(CompletionResponse { choices: vec![] })
    );
    let one = parse_json("{\"choices\":[{\"delta\":{\"content\":\"x\"}}]}");
    assert_eq!(SseLine::from_document(one).fragment(), "x");
    assert_eq!(SseLine::Ignored.fragment(), "");
}

#[test]
fn line_is_appended_to_the_answer() {
    let mut answer = "so far ".to_string();
    assert!(append_line(&mut answer, b"data: {\"choices\":[{\"delta\":{\"content\":\"more\"}}]}"));
    assert_eq!(answer, "so far more");
    assert!(append_line(&mut answer, b": comment"));
    assert_eq!(answer, "so far more");
    assert!(append_line(&mut answer, b""));
    assert_eq!(answer, "so far more");
    assert!(!append_line(&mut answer, &[b'd', 0xff]));
    assert_eq!(answer, "so far more");
}

#[test]
fn end_marker_with_other_spelling_is_a_malformed_payload() {
    assert_eq!(parse_line("data: [DONE] "), SseLine::Ignored);
    assert_eq!(parse_line("data: [done]"), SseLine::Ignored);
    assert_eq!(parse_line("data:  [DONE]"), SseLine::Ignored);
    let body = "data: [DONE]\r\ndata: [DONE] \ndata: [DONE]\r";
    assert_eq!(assemble(200, &vec![body.as_bytes().to_vec()]), Ok(String::new()));
}

#[test]
fn payload_may_be_surrounded_by_blanks() {
    let line = "data:   {\"choices\": [ {\"delta\": {\"content\": \"w\"} } ] }  ";
    assert_eq!(parse_line(line).fragment(), "w");
    let body = "data: {\"choices\":[{\"delta\":{\"content\":\"z\"}}]}\r";
    assert_eq!(assemble(200, &vec![body.as_bytes().to_vec()]), Ok("z".to_string()));
}
