use alice::{Author, ChatHistoryTree, SaveableChatHistoryTree};
use uuid::Uuid;

fn registered() -> Author {
    Author::RegisteredAuthor { id: Uuid::new_v4().as_u128() }
}

#[test]
fn test_add_message() {
    let mut chat = ChatHistoryTree::new("Welcome to the chat.".to_string(), registered());
    let history = chat.simple_history();
    assert_eq!(history.messages.len(), 1);
    chat.add_message("Hello from Alice!".to_string(), registered());
    let history = chat.simple_history();
    assert_eq!(history.messages.len(), 2);
}

#[test]
fn test_edit_message() {
    let mut chat = ChatHistoryTree::new("Welcome to the chat.".to_string(), registered());
    let message_id = chat.add_message("Hello from Alice!".to_string(), registered());
    let _ = chat.simple_history();
    chat.edit_message_by_id(message_id, "Hello from Alice (edited)!".to_string()).unwrap();
    let history = chat.simple_history();
    assert_eq!(history.messages.last().unwrap().content, "Hello from Alice (edited)!");
}

#[test]
fn test_delete_message() {
    let mut chat = ChatHistoryTree::new("Welcome to the chat.".to_string(), registered());
    let message_id = chat.add_message("Hello from Alice!".to_string(), registered());
    chat.delete_message_by_id(message_id).unwrap();
    let history = chat.simple_history();
    assert_eq!(history.messages.len(), 1);
}

#[test]
fn test_undo_edit() {
    let mut chat = ChatHistoryTree::new("Welcome to the chat.".to_string(), registered());
    let message_id = chat.add_message("Hello from Alice!".to_string(), registered());
    chat.edit_message_by_id(message_id, "Hello from Alice (edited)!".to_string()).unwrap();
    let _ = chat.simple_history();
    chat.undo().unwrap();
    let history = chat.simple_history();
    assert_eq!(history.messages.last().unwrap().content, "Hello from Alice!");
}

#[test]
fn test_undo_delete() {
    let mut chat = ChatHistoryTree::new("Welcome to the chat.".to_string(), registered());
    let message_id = chat.add_message("Hello from Alice!".to_string(), registered());
    chat.delete_message_by_id(message_id).unwrap();
    let history = chat.simple_history();
    assert_eq!(history.messages.len(), 1);
    chat.undo().unwrap();
    let history = chat.simple_history();
    assert_eq!(history.messages.len(), 2);
}

#[test]
fn test_multiple_actions() {
    let mut chat = ChatHistoryTree::new("Welcome to the chat.".to_string(), registered());
    let message_id = chat.add_message("Hello from Alice!".to_string(), registered());
    let _ = chat.add_message(
        "A mysterious stranger appears.".to_string(),
        Author::OneOffCharacter { name: "Stranger".to_string() },
    );
    let _ = chat.simple_history();
    chat.edit_message_by_id(message_id, "Hello from Alice (edited)!".to_string()).unwrap();
    chat.delete_message_by_id(message_id).unwrap();
    let _ = chat.simple_history();
    chat.undo().unwrap();
    let _ = chat.simple_history();
    chat.undo().unwrap();
    let _ = chat.simple_history();
}

#[test]
fn test_undo_no_actions() {
    let mut chat = ChatHistoryTree::new("Welcome to the chat.".to_string(), registered());
    let result = chat.undo();
    assert_eq!(result.clone().unwrap_err(), "No actions to undo.");
}

#[test]
fn test_edit_nonexistent_message() {
    let mut chat = ChatHistoryTree::new("Welcome to the chat.".to_string(), registered());
    let id = Uuid::new_v4();
    let result = chat.edit_message_by_id(id.as_u128(), "Nonexistent".to_string());
    assert_eq!(result.clone().unwrap_err(), format!("Message with ID {} not found.", id));
}

#[test]
fn test_delete_nonexistent_message() {
    let mut chat = ChatHistoryTree::new("Welcome to the chat.".to_string(), registered());
    let id = Uuid::new_v4();
    let result = chat.delete_message_by_id(id.as_u128());
    assert_eq!(result.clone().unwrap_err(), format!("Message with ID {} not found.", id));
}

#[test]
fn test_into_saveable() {
    let authors = [registered(), Author::OneOffCharacter { name: "Stranger".to_string() }];
    let mut chat = ChatHistoryTree::new("Welcome to the chat.".to_string(), authors[0].clone());
    let root_id = chat.add_message("Hello from Alice!".to_string(), authors[0].clone());
    chat.add_message("A mysterious stranger appears.".to_string(), authors[1].clone());
    chat.edit_message_by_id(root_id, "Hello from Alice (edited)!".to_string()).unwrap();
    chat.edit_message_by_id(root_id, "Hello from Alice (edited again)!".to_string()).unwrap();
    let _saveable = SaveableChatHistoryTree::from_tree(&chat);
    let _simple_history = chat.simple_history();
}

#[test]
fn saveable_lists_messages_newest_first_with_parents() {
    let mut chat = ChatHistoryTree::new("first".to_string(), registered());
    let second = chat.add_message("second".to_string(), registered());
    let third = chat.add_message("third".to_string(), Author::OneOffCharacter { name: "S".to_string() });
    chat.delete_message_by_id(second).unwrap();
    chat.edit_message_by_id(third, "third, edited".to_string()).unwrap();
    let saved = SaveableChatHistoryTree::from_tree(&chat);
    assert_eq!(saved.messages.len(), 3);
    assert_eq!(saved.messages[0].id, third);
    assert_eq!(saved.messages[0].parent, Some(second));
    assert_eq!(saved.messages[0].content, "third, edited");
    assert_eq!(saved.messages[1].id, second);
    assert!(saved.messages[1].deleted);
    assert_eq!(saved.messages[2].id, saved.root);
    assert_eq!(saved.messages[2].parent, None);
    assert_eq!(saved.action_history.len(), 2);
}

#[test]
fn shown_history_skips_deleted_and_carries_edit_times() {
    let mut chat = ChatHistoryTree::new("first".to_string(), registered());
    let second = chat.add_message("second".to_string(), registered());
    let third = chat.add_message("third".to_string(), registered());
    assert!(chat.simple_history().messages.iter().all(|m| m.edit_time.is_none()));
    chat.edit_message_by_id(third, "3".to_string()).unwrap();
    chat.delete_message_by_id(second).unwrap();
    assert_eq!(chat.delete_message_by_id(second).unwrap_err(), "Message already deleted.");
    let shown = chat.simple_history();
    assert_eq!(shown.messages.len(), 2);
    assert_eq!(shown.messages[0].content, "first");
    assert_eq!(shown.messages[1].content, "3");
    assert!(shown.messages[1].edit_time.is_some());
    assert!(shown.messages[0].edit_time.is_none());
    chat.undo().unwrap();
    chat.undo().unwrap();
    assert_eq!(chat.simple_history().messages[2].content, "third");
    assert_eq!(chat.undo().unwrap_err(), "No actions to undo.");
}

#[test]
fn message_ids_are_distinct() {
    let mut chat = ChatHistoryTree::new("first".to_string(), registered());
    let mut ids = vec![chat.simple_history().messages[0].id];
    for k in 0..30 {
        let id = chat.add_message(format!("m{}", k), registered());
        assert!(!ids.contains(&id));
        ids.push(id);
    }
}
