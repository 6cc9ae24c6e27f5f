use clipygo_plugin_msteams::graph::{chat_title, GraphChat, GraphChatMember};

fn member(name: Option<&str>) -> GraphChatMember {
    GraphChatMember { display_name: name.map(|s| s.to_string()) }
}

fn chat(chat_type: &str, topic: Option<&str>, members: Option<Vec<GraphChatMember>>) -> GraphChat {
    GraphChat {
        id: "123".to_string(),
        chat_type: chat_type.to_string(),
        topic: topic.map(|s| s.to_string()),
        members,
    }
}

#[test]
fn handler_chat_title_uses_topic_when_set() {
    let c = GraphChat {
        id: "123".to_string(),
        chat_type: "group".to_string(),
        topic: Some("Project Alpha".to_string()),
        members: None,
    };
    assert_eq!(chat_title(&c), "Project Alpha");
}

#[test]
fn handler_chat_title_uses_member_names_for_1on1() {
    let c = GraphChat {
        id: "123".to_string(),
        chat_type: "oneOnOne".to_string(),
        topic: None,
        members: Some(vec![
            GraphChatMember { display_name: Some("Alice".to_string()) },
            GraphChatMember { display_name: Some("Bob".to_string()) },
        ]),
    };
    let title = chat_title(&c);
    assert!(title.contains("Alice"));
    assert!(title.contains("Bob"));
}

#[test]
fn handler_chat_title_fallback_when_no_members() {
    let c = GraphChat {
        id: "123".to_string(),
        chat_type: "oneOnOne".to_string(),
        topic: None,
        members: None,
    };
    assert_eq!(chat_title(&c), "Direct message");
}

#[test]
fn main_chat_title_uses_topic_when_set() {
    let c = GraphChat {
        id: "123".to_string(),
        chat_type: "group".to_string(),
        topic: Some("Project Alpha".to_string()),
        members: None,
    };
    assert_eq!(chat_title(&c), "Project Alpha");
}

#[test]
fn main_chat_title_uses_member_names_for_1on1() {
    let c = GraphChat {
        id: "123".to_string(),
        chat_type: "oneOnOne".to_string(),
        topic: None,
        members: Some(vec![
            GraphChatMember { display_name: Some("Alice".to_string()) },
            GraphChatMember { display_name: Some("Bob".to_string()) },
        ]),
    };
    let title = chat_title(&c);
    assert!(title.contains("Alice"));
    assert!(title.contains("Bob"));
}

#[test]
fn main_chat_title_fallback_when_no_members() {
    let c = GraphChat {
        id: "123".to_string(),
        chat_type: "oneOnOne".to_string(),
        topic: None,
        members: None,
    };
    assert_eq!(chat_title(&c), "Direct message");
}

#[test]
fn chat_title_joins_names_with_comma() {
    let c = chat("oneOnOne", None, Some(vec![member(Some("Alice")), member(Some("Bob"))]));
    assert_eq!(chat_title(&c), "Alice, Bob");
}

#[test]
fn chat_title_takes_at_most_four_names() {
    let c = chat(
        "group",
        None,
        Some(vec![
            member(Some("A")),
            member(Some("B")),
            member(Some("C")),
            member(Some("D")),
            member(Some("E")),
        ]),
    );
    assert_eq!(chat_title(&c), "A, B, C, D");
}

#[test]
fn chat_title_skips_missing_and_empty_names() {
    let c = chat(
        "group",
        None,
        Some(vec![member(None), member(Some("")), member(Some("Carol")), member(Some("Dan"))]),
    );
    assert_eq!(chat_title(&c), "Carol, Dan");
}

#[test]
fn chat_title_empty_topic_is_ignored() {
    let c = chat("group", Some(""), Some(vec![member(Some("Eve"))]));
    assert_eq!(chat_title(&c), "Eve");
}

#[test]
fn chat_title_group_fallback() {
    let c = chat("group", None, Some(vec![member(None), member(Some(""))]));
    assert_eq!(chat_title(&c), "Group chat");
    let m = chat("meeting", None, None);
    assert_eq!(chat_title(&m), "Group chat");
}
