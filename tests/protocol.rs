use alice::{
    AliceError, Call, CallIds, CompletionResult, CompletionStatus, Engine, Inbound, MethodCall,
    MethodReturn, Model, ModelListResult, SimpleResult, StatusResult, Step, UllmApi,
};

fn reply<T>(id: u128, result: T) -> Inbound<T> {
    Inbound::Reply(MethodReturn { id, result: Some(result), error: None })
}

fn token(status: CompletionStatus, tokens: &str) -> CompletionResult {
    CompletionResult { status, tokens: tokens.to_string() }
}

fn status(s: &str) -> StatusResult {
    StatusResult { status: s.to_string(), engine: None, model: None }
}

fn connected_api() -> UllmApi {
    let mut api = UllmApi::new("ws://localhost:8081".to_string());
    assert!(api.connect(Ok(())).is_ok());
    api
}

#[test]
fn issued_ids_are_distinct() {
    let mut ids = CallIds::new();
    let mut seen = Vec::new();
    for _ in 0..200 {
        let id = ids.issue();
        assert!(!seen.contains(&id));
        assert!(ids.contains(id));
        seen.push(id);
    }
}

#[test]
fn calls_of_one_client_get_distinct_ids() {
    let mut api = connected_api();
    let mut seen = Vec::new();
    for _ in 0..50 {
        let (call, _) = api.begin_ping().unwrap();
        assert!(!seen.contains(&call.id()));
        seen.push(call.id());
    }
}

#[test]
fn encode_writes_the_call_frame() {
    let call = MethodCall::new(0xa1a2a3a4b1b2c1c2d1d2d3d4d5d6d7d8, "ping", None);
    assert_eq!(
        call.encode(),
        r#"{"id":"a1a2a3a4-b1b2-c1c2-d1d2-d3d4d5d6d7d8","method":"ping","params":null}"#
    );
}

#[test]
fn encode_escapes_the_method() {
    let call = MethodCall::new(1, "a\"b\\c\nd", Some("{}".to_string()));
    assert_eq!(
        call.encode(),
        "{\"id\":\"00000000-0000-0000-0000-000000000001\",\"method\":\"a\\\"b\\\\c\\nd\",\"params\":{}}"
    );
}

#[test]
fn call_envelope_round_trip() {
    let cases = vec![
        MethodCall::new(0, "ping", None),
        MethodCall::new(u128::MAX, "load_model", Some(r#"{"engine":"llama-cpp","model":"m"}"#.to_string())),
        MethodCall::new(0x0123456789abcdef0123456789abcdef, "we\"ird\\\u{1}", Some("[1,2]".to_string())),
        MethodCall::new(42, "", Some("\"null-ish\"".to_string())),
    ];
    for call in cases {
        let text = call.encode();
        let back = MethodCall::decode(&text).expect("an encoded call decodes");
        assert_eq!(back.id, call.id);
        assert_eq!(back.method, call.method);
        assert_eq!(back.params, call.params);
    }
}

#[test]
fn decode_rejects_other_texts() {
    assert!(MethodCall::decode("").is_none());
    assert!(MethodCall::decode("{}").is_none());
    assert!(MethodCall::decode(r#"{"id":"A1A2A3A4-B1B2-C1C2-D1D2-D3D4D5D6D7D8","method":"ping","params":null}"#).is_none());
    assert!(MethodCall::decode(r#"{"id":"a1a2a3a4-b1b2-c1c2-d1d2-d3d4d5d6d7d8","method":"ping","params":null"#).is_none());
    assert!(MethodCall::decode(r#"{"id":"a1a2a3a4-b1b2-c1c2-d1d2-d3d4d5d6d7d8","method":"pi\qg","params":null}"#).is_none());
}

#[test]
fn foreign_reply_is_not_taken_as_the_answer() {
    let mut api = connected_api();
    let (mut call, _) = api.begin_list().unwrap();
    let other = call.id().wrapping_add(1);
    let step = api.on_frame(&mut call, reply(other, ModelListResult { models: vec![] }));
    assert!(matches!(step, Step::Done(Err(AliceError::ResponseError))));
    assert!(call.is_finished());
}

#[test]
fn interleaved_frames_fail_the_single_call() {
    let mut api = connected_api();
    let (mut call, _) = api.begin_ping().unwrap();
    let id = call.id();
    let step = api.on_frame(&mut call, Inbound::Ping(vec![7, 8]));
    assert!(matches!(step, Step::Answer(ref p) if p == &vec![7, 8]));
    let step = api.on_frame(
        &mut call,
        reply(id ^ 0xff, SimpleResult { status: CompletionStatus::Pong }),
    );
    assert!(matches!(step, Step::Done(Err(AliceError::ResponseError))));
}

#[test]
fn single_call_returns_the_matching_reply() {
    let mut api = connected_api();
    let (mut call, _) = api.begin_ping().unwrap();
    let id = call.id();
    let step = api.on_frame(&mut call, reply(id, SimpleResult { status: CompletionStatus::Pong }));
    match step {
        Step::Done(Ok(r)) => assert_eq!(r.status, CompletionStatus::Pong),
        _ => panic!("expected the reply"),
    }
}

#[test]
fn streaming_emits_each_frame_in_order_and_stops_at_the_final_one() {
    let mut api = connected_api();
    let (mut call, _) = api.begin_complete("x", "{}").unwrap();
    let id = call.id();
    let frames = vec![
        reply(id, token(CompletionStatus::Ongoing, "a")),
        Inbound::Ping(vec![1]),
        reply(id, token(CompletionStatus::Ongoing, "b")),
        reply(id, token(CompletionStatus::Ongoing, "c")),
        reply(id, token(CompletionStatus::Final, "d")),
        reply(id, token(CompletionStatus::Ongoing, "never")),
    ];
    let mut emitted = Vec::new();
    let mut pongs = 0;
    let mut outcome = None;
    let mut read = 0;
    for frame in frames {
        if call.is_finished() {
            break;
        }
        read += 1;
        match api.on_frame(&mut call, frame) {
            Step::Answer(_) => pongs += 1,
            Step::Emit(v) => emitted.push(v.tokens),
            Step::Done(r) => outcome = Some(r),
        }
    }
    assert_eq!(emitted, vec!["a", "b", "c"]);
    assert_eq!(pongs, 1);
    assert_eq!(read, 5);
    assert_eq!(outcome.unwrap().unwrap().tokens, "d");
}

#[test]
fn complete_scenario_forwards_tokens_then_returns_the_final_ones() {
    let mut api = connected_api();
    let (mut call, text) = api.begin_complete("print(", "{\"max_tokens\":512}").unwrap();
    assert!(text.contains("\"method\":\"complete\""));
    assert!(text.ends_with(",\"params\":{\"snippet\":\"print(\",\"engine_parameters\":{\"max_tokens\":512}}}"));
    let id = call.id();
    let mut cb = Vec::new();
    let frames = vec![
        reply(id, token(CompletionStatus::Ongoing, "1")),
        reply(id, token(CompletionStatus::Ongoing, "2")),
        reply(id, token(CompletionStatus::Final, "3")),
    ];
    let mut result = None;
    for frame in frames {
        match api.on_frame(&mut call, frame) {
            Step::Emit(v) => cb.push(v.tokens),
            Step::Done(r) => {
                result = Some(r.unwrap().tokens);
                break;
            }
            Step::Answer(_) => {}
        }
    }
    assert_eq!(cb, vec!["1", "2"]);
    assert_eq!(result.unwrap(), "3");
}

#[test]
fn load_scenario_reports_progress_then_returns_loaded() {
    let mut api = connected_api();
    let model = Model::new("m\"1".to_string(), Engine::ExllamaV2);
    let (mut call, text) = api.begin_load(&model).unwrap();
    assert!(text.ends_with(",\"method\":\"load_model\",\"params\":{\"engine\":\"exllamav2\",\"model\":\"m\\\"1\"}}"));
    let id = call.id();
    let frames = vec![reply(id, status("loading")), reply(id, status("loaded")), reply(id, status("unloaded"))];
    let mut progress = Vec::new();
    let mut result = None;
    let mut read = 0;
    for frame in frames {
        read += 1;
        match api.on_frame(&mut call, frame) {
            Step::Emit(v) => progress.push(v.status),
            Step::Done(r) => {
                result = Some(UllmApi::load_status(&r.unwrap()));
                break;
            }
            Step::Answer(_) => {}
        }
    }
    assert_eq!(progress, vec!["loading"]);
    assert_eq!(result.unwrap(), "loaded");
    assert_eq!(read, 2);
    assert!(call.is_finished());
}

#[test]
fn load_ends_with_error_status() {
    let mut api = connected_api();
    let (mut call, _) = api.begin_load(&Model::new("m".to_string(), Engine::LlamaCpp)).unwrap();
    let id = call.id();
    match api.on_frame(&mut call, reply(id, status("error"))) {
        Step::Done(Ok(r)) => assert_eq!(UllmApi::load_status(&r), "error"),
        _ => panic!("expected the end of the load"),
    }
}

#[test]
fn undecodable_frame_is_a_response_error_and_keeps_the_connection() {
    let mut api = connected_api();
    let (mut call, _) = api.begin_current().unwrap();
    let step = api.on_frame(&mut call, Inbound::Undecodable);
    assert!(matches!(step, Step::Done(Err(AliceError::ResponseError))));
    assert!(api.is_connected());
}

#[test]
fn close_frame_ends_the_call_and_the_connection() {
    let mut api = connected_api();
    let (mut call, _) = api.begin_unload().unwrap();
    let step = api.on_frame(&mut call, Inbound::Closed);
    assert!(matches!(step, Step::Done(Err(AliceError::ConnectionClosed))));
    assert!(!api.is_connected());
}

#[test]
fn other_frames_give_their_errors() {
    let mut api = connected_api();
    let (mut call, _) = api.begin_ping().unwrap();
    assert!(matches!(api.on_frame(&mut call, Inbound::Binary), Step::Done(Err(AliceError::ProtocolViolation))));
    let (mut call, _) = api.begin_ping().unwrap();
    assert!(matches!(api.on_frame(&mut call, Inbound::Unexpected), Step::Done(Err(AliceError::ProtocolViolation))));
    let (mut call, _) = api.begin_ping().unwrap();
    match api.on_frame(&mut call, Inbound::Failed("reset".to_string())) {
        Step::Done(Err(AliceError::TransportError(e))) => assert_eq!(e, "reset"),
        _ => panic!("expected a transport error"),
    }
    let (mut call, _) = api.begin_ping().unwrap();
    let id = call.id();
    let frame: Inbound<SimpleResult> =
        Inbound::Reply(MethodReturn { id, result: None, error: Some("busy".to_string()) });
    match api.on_frame(&mut call, frame) {
        Step::Done(Err(AliceError::RemoteError(e))) => assert_eq!(e, "busy"),
        _ => panic!("expected a remote error"),
    }
    let (mut call, _) = api.begin_ping().unwrap();
    let id = call.id();
    let frame: Inbound<SimpleResult> = Inbound::Reply(MethodReturn { id, result: None, error: None });
    assert!(matches!(api.on_frame(&mut call, frame), Step::Done(Err(AliceError::ResponseError))));
}

#[test]
fn calls_need_a_connection() {
    let mut api = UllmApi::new("ws://localhost:8081".to_string());
    assert!(matches!(api.begin_ping(), Err(AliceError::NoConnection)));
    assert!(matches!(api.begin_list(), Err(AliceError::NoConnection)));
    assert!(matches!(api.disconnect(), Err(AliceError::NoConnection)));
    assert!(api.connect(Ok(())).is_ok());
    assert!(api.disconnect().is_ok());
    assert!(!api.is_connected());
}

#[test]
fn failed_connect_is_a_transport_error() {
    let mut api = UllmApi::new("ws://localhost:1".to_string());
    match api.connect(Err("refused".to_string())) {
        Err(AliceError::TransportError(e)) => assert_eq!(e, "refused"),
        _ => panic!("expected a transport error"),
    }
    assert!(!api.is_connected());
    assert_eq!(api.addr(), "ws://localhost:1");
}

#[test]
fn liveness_check_outcomes() {
    let mut api = connected_api();
    assert_eq!(api.finish_ping(Ok(SimpleResult { status: CompletionStatus::Pong })), (true, false));
    assert!(api.is_connected());
    assert_eq!(api.finish_ping(Err(AliceError::ResponseError)), (false, true));
    assert!(!api.is_connected());
    assert_eq!(api.finish_ping(Err(AliceError::NoConnection)), (false, false));
}

#[test]
fn current_model_needs_name_and_engine() {
    let both = StatusResult {
        status: "loaded".to_string(),
        engine: Some(Engine::Transformers),
        model: Some("gpt".to_string()),
    };
    assert_eq!(UllmApi::current_model(both), Some(Model::new("gpt".to_string(), Engine::Transformers)));
    let no_engine = StatusResult { status: "loaded".to_string(), engine: None, model: Some("gpt".to_string()) };
    assert_eq!(UllmApi::current_model(no_engine), None);
    let no_model = StatusResult { status: "unloaded".to_string(), engine: Some(Engine::LlamaCpp), model: None };
    assert_eq!(UllmApi::current_model(no_model), None);
}

#[test]
fn call_frames_name_their_methods() {
    let mut api = connected_api();
    let (_, t) = api.begin_ping().unwrap();
    assert!(t.contains("\"method\":\"ping\",\"params\":null}"));
    let (_, t) = api.begin_unload().unwrap();
    assert!(t.contains("\"method\":\"unload\",\"params\":null}"));
    let (_, t) = api.begin_current().unwrap();
    assert!(t.contains("\"method\":\"status\",\"params\":null}"));
    let (_, t) = api.begin_list().unwrap();
    assert!(t.contains("\"method\":\"list_models\",\"params\":null}"));
    let call: Call<SimpleResult> = Call::new(5, false);
    assert_eq!(call.id(), 5);
    assert!(!call.is_finished());
}

#[test]
fn control_characters_are_escaped_as_json_writes_them() {
    let call = MethodCall::new(2, "\u{8}\t\n\u{c}\r\u{1}\u{1f}", None);
    let text = call.encode();
    assert!(text.contains("\"method\":\"\\b\\t\\n\\f\\r\\u0001\\u001f\""));
    let expected = serde_json::to_string("\u{8}\t\n\u{c}\r\u{1}\u{1f}").unwrap();
    assert!(text.contains(&format!("\"method\":{}", expected)));
    let back = MethodCall::decode(&text).unwrap();
    assert_eq!(back.method, call.method);
}

#[test]
fn status_is_the_completion_status() {
    let s: alice::Status = CompletionStatus::Final;
    assert_eq!(s.name(), "Final");
}
