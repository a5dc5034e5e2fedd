use alice::{
    chat_prompt, Attribute, Character, ApiConfig, CompletionStatus, Config, Engine, History, Message, ModelStatus, PartialHistory,
    SubConfig, UllmConfig, AliceError,
};

fn message(author: &str, content: &str) -> Message {
    Message { timestamp: chrono::Utc::now().timestamp_millis(), author: author.to_string(), content: content.to_string() }
}

#[test]
fn test_into_partial() {
    let history = History {
        timestamp: chrono::Utc::now().timestamp_millis(),
        id: uuid::Uuid::new_v4().as_u128(),
        messages: vec![message("Alice", "Hello"), message("Bob", "Hi, how are you?")],
    };
    let partial = history.into_partial(1);
    assert_eq!(partial.messages.len(), 1);
    assert_eq!(partial.messages[0].author, "Bob");
}

#[test]
fn test_merge_partial() {
    let mut history = History {
        timestamp: chrono::Utc::now().timestamp_millis(),
        id: uuid::Uuid::new_v4().as_u128(),
        messages: vec![message("Alice", "Hello"), message("Bob", "Hi, how are you?")],
    };
    let partial = PartialHistory {
        id: history.id,
        initial_index: 1,
        messages: vec![message("Bob", "Hi, how are you?"), message("Alice", "I'm good, thanks!")],
    };
    history.merge_partial(partial);
    assert_eq!(history.messages.len(), 3);
    assert_eq!(history.messages[0].author, "Alice");
    assert_eq!(history.messages[1].author, "Bob");
    assert_eq!(history.messages[2].author, "Alice");
}

#[test]
fn partial_past_the_end_is_empty_and_becomes_a_history() {
    let history = History { timestamp: 0, id: 9, messages: vec![message("A", "x")] };
    let partial = history.into_partial(5);
    assert!(partial.messages.is_empty());
    assert_eq!(partial.initial_index, 5);
    let h = PartialHistory { id: 3, initial_index: 0, messages: vec![message("A", "x")] }.into_history();
    assert_eq!(h.id, 3);
    assert_eq!(h.messages.len(), 1);
    assert!(h.timestamp > 0);
}

#[test]
fn names_of_engines_and_statuses() {
    assert_eq!(Engine::LlamaCpp.name(), "llama-cpp");
    assert_eq!(Engine::ExllamaV2.name(), "exllamav2");
    assert_eq!(Engine::Transformers.name(), "transformers");
    assert_eq!(ModelStatus::Loading.name(), "loading");
    assert_eq!(ModelStatus::default().name(), "unloaded");
    assert_eq!(CompletionStatus::Final.name(), "Final");
    assert_eq!(CompletionStatus::default(), CompletionStatus::Success);
}

#[test]
fn error_messages() {
    assert_eq!(AliceError::NoConnection.message(), "No connection");
    assert_eq!(AliceError::RemoteError("x".to_string()).message(), "Remote error: x");
    assert_eq!(AliceError::Other("y".to_string()).message(), "Other error: y");
}

#[test]
fn default_configuration() {
    assert_eq!(UllmConfig::default().url, "ws://localhost:8081");
    let c = ApiConfig::default();
    assert_eq!(c.name, "µLLM API Default Config");
    assert_eq!(c.default, None);
    let api = c.into_api();
    assert_eq!(api.addr(), "ws://localhost:8081");
    assert!(!api.is_connected());
}

fn config(name: &str, default: Option<bool>) -> ApiConfig {
    ApiConfig { name: name.to_string(), subconfig: SubConfig::UllmDefault(UllmConfig { url: format!("ws://{}", name) }), default }
}

#[test]
fn picking_the_configuration() {
    assert_eq!(Config::pick_api(vec![config("only", Some(false))]).unwrap().name, "only");
    let picked = Config::pick_api(vec![config("a", None), config("b", Some(true)), config("c", Some(true))]).unwrap();
    assert_eq!(picked.name, "b");
    match Config::pick_api(vec![config("a", None), config("b", Some(false))]) {
        Err(AliceError::Other(m)) => assert_eq!(m, "Failed to get default api config"),
        _ => panic!("expected no choice"),
    }
    assert!(Config::pick_api(vec![]).is_err());
}

#[test]
fn chat_prompt_lists_messages_newest_first() {
    let history = History { timestamp: 0, id: 1, messages: vec![message("Alice", "Hello"), message("Bob", "Hi")] };
    assert_eq!(
        chat_prompt(history, "Alice".to_string()),
        "You are Alice, an intelligent AI chatbot.Bob: Hi\nAlice: Hello\nAlice: "
    );
    let empty = History { timestamp: 0, id: 2, messages: vec![] };
    assert_eq!(chat_prompt(empty, "user".to_string()), "You are Alice, an intelligent AI chatbot.user: ");
}

#[test]
fn characters() {
    let nika = Character::default();
    assert_eq!(nika.name, "Nika Orchid");
    assert_eq!(nika.description.as_deref(), Some("Nika calls you Master"));
    let mut c = Character::new("Bob");
    assert_eq!(c.name, "Bob");
    assert!(c.description.is_none());
    c.add_description("tall");
    assert_eq!(c.description.as_deref(), Some("tall"));
    c.add_attribute(Attribute::new("Age"));
    assert_eq!(c.attributes.len(), 1);
    assert_eq!(c.attributes[0].name(), "Age");
    assert_ne!(Character::new("x").id, Character::new("x").id);
}
