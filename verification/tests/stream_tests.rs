use knowforge::stream::{
    finish_tool_calls, LineBuffer, StreamAccumulator, StreamError, ToolCallDelta,
    MAX_STREAM_LINE_BYTES, ollama_line_step, OllamaLineAction, tool_call_arguments,
};

#[test]
fn sse_payloads_and_rest() {
    let mut b = LineBuffer::new();
    let out = b.push_sse("data: {\"a\":1}\n\n: comment\ndata:  {\"b\":2} \ndata: {\"c\"").unwrap();
    assert_eq!(out, vec!["{\"a\":1}".to_string(), "{\"b\":2}".to_string()]);
    let out = b.push_sse(":3}\n").unwrap();
    assert_eq!(out, vec!["{\"c\":3}".to_string()]);
    assert_eq!(b.tail(), "");
}

#[test]
fn sse_done_pauses_the_scan() {
    let mut b = LineBuffer::new();
    let out = b.push_sse("data: x\ndata: [DONE]\ndata: y\n").unwrap();
    assert_eq!(out, vec!["x".to_string()]);
    // the line after [DONE] waits for the next chunk
    let out = b.push_sse("").unwrap();
    assert_eq!(out, vec!["y".to_string()]);
}

#[test]
fn sse_chunks_split_anywhere() {
    let text = "data: one\r\ndata: two\n\ndata: three\n";
    let mut whole = LineBuffer::new();
    let all = whole.push_sse(text).unwrap();
    for cut in 0..text.len() {
        if !text.is_char_boundary(cut) {
            continue;
        }
        let mut b = LineBuffer::new();
        let mut got = b.push_sse(&text[..cut]).unwrap();
        got.extend(b.push_sse(&text[cut..]).unwrap());
        assert_eq!(got, all);
    }
    assert_eq!(all, vec!["one".to_string(), "two".to_string(), "three".to_string()]);
}

#[test]
fn ndjson_lines_and_tail() {
    let mut b = LineBuffer::new();
    let out = b.push_ndjson("{\"a\":1}\n   \n{\"b\":2}\n{\"c\"").unwrap();
    assert_eq!(out, vec!["{\"a\":1}".to_string(), "{\"b\":2}".to_string()]);
    assert_eq!(b.tail(), "{\"c\"");
}

#[test]
fn overlong_line_aborts() {
    let mut b = LineBuffer::new();
    let big = "x".repeat(MAX_STREAM_LINE_BYTES + 1);
    assert_eq!(b.push_ndjson(&big), Err(StreamError::LineTooLong));
    let mut b = LineBuffer::new();
    assert_eq!(b.push_sse(&big), Err(StreamError::LineTooLong));
}

fn delta(index: usize, id: Option<&str>, name: Option<&str>, args: Option<&str>) -> ToolCallDelta {
    ToolCallDelta {
        index,
        id: id.map(String::from),
        name: name.map(String::from),
        arguments: args.map(String::from),
    }
}

#[test]
fn tool_call_fragments_are_assembled() {
    let mut acc = StreamAccumulator::new();
    acc.apply(Some("Let me "), Vec::new());
    acc.apply(Some("look."), vec![delta(0, Some("call_1"), Some("note-read"), Some("{\"pa"))]);
    acc.apply(None, vec![delta(0, None, None, Some("th\":\"a.md\"}")), delta(2, None, Some("time-now"), None)]);
    assert_eq!(acc.content, "Let me look.");
    assert_eq!(acc.pending.len(), 3);
    let calls = finish_tool_calls(&acc.pending);
    assert_eq!(calls.len(), 2);
    assert_eq!(calls[0].id.as_deref(), Some("call_1"));
    assert_eq!(calls[0].name, "note.read");
    assert_eq!(calls[0].arguments, "{\"path\":\"a.md\"}");
    assert_eq!(calls[1].id, None);
    assert_eq!(calls[1].name, "time.now");
    assert_eq!(calls[1].arguments, "");
}

#[test]
fn ollama_line_error_ends_the_stream() {
    match ollama_line_step(Some("model not found".to_string()), Some("hi".to_string())) {
        OllamaLineAction::Fail(e) => assert_eq!(e, "model not found"),
        _ => panic!("expected a failure"),
    }
}

#[test]
fn ollama_line_content_is_a_chunk_unless_empty() {
    match ollama_line_step(None, Some("Hel".to_string())) {
        OllamaLineAction::Chunk(c) => assert_eq!(c, "Hel"),
        _ => panic!("expected a chunk"),
    }
    assert!(matches!(ollama_line_step(None, Some(String::new())), OllamaLineAction::Continue));
    assert!(matches!(ollama_line_step(None, None), OllamaLineAction::Continue));
}

#[test]
fn tool_call_arguments_parse_or_fall_back_to_empty_object() {
    let v = tool_call_arguments("{\"path\": \"a.md\", \"n\": 2}");
    assert_eq!(v["path"], "a.md");
    assert_eq!(v["n"], 2);
    let e = tool_call_arguments("{not json");
    assert!(e.as_object().map(|o| o.is_empty()).unwrap_or(false));
    let e2 = tool_call_arguments("");
    assert!(e2.as_object().map(|o| o.is_empty()).unwrap_or(false));
}
