use clipygo_plugin_msteams::graph::{
    channel_target, channel_targets, chat_description, chat_target, chats_to_targets, message_url,
    GraphChannel, GraphChat, GraphChatMember, GraphList, GraphTeam,
};
use clipygo_plugin_msteams::protocol::TEAMS_ICON;

fn team(id: &str, name: &str) -> GraphTeam {
    GraphTeam { id: id.to_string(), display_name: name.to_string() }
}

fn channel(id: &str, name: &str) -> GraphChannel {
    GraphChannel { id: id.to_string(), display_name: name.to_string() }
}

#[test]
fn chat_descriptions() {
    assert_eq!(chat_description("oneOnOne"), "Direct message");
    assert_eq!(chat_description("meeting"), "Meeting chat");
    assert_eq!(chat_description("group"), "Group chat");
    assert_eq!(chat_description(""), "Group chat");
}

#[test]
fn chat_target_fields() {
    let c = GraphChat {
        id: "19:abc".to_string(),
        chat_type: "meeting".to_string(),
        topic: Some("Standup".to_string()),
        members: Some(vec![GraphChatMember { display_name: Some("Zed".to_string()) }]),
    };
    let t = chat_target(&c);
    assert_eq!(t.id, "chat:19:abc");
    assert_eq!(t.provider, "MS Teams");
    assert_eq!(t.formats, vec!["text".to_string()]);
    assert_eq!(t.title, "Standup");
    assert_eq!(t.description, "Meeting chat");
    assert_eq!(t.image, TEAMS_ICON);
}

#[test]
fn chats_to_targets_keeps_order() {
    let list = GraphList {
        value: vec![
            GraphChat { id: "1".to_string(), chat_type: "oneOnOne".to_string(), topic: None, members: None },
            GraphChat { id: "2".to_string(), chat_type: "group".to_string(), topic: Some("T".to_string()), members: None },
        ],
    };
    let ts = chats_to_targets(&list);
    assert_eq!(ts.len(), 2);
    assert_eq!(ts[0].id, "chat:1");
    assert_eq!(ts[0].title, "Direct message");
    assert_eq!(ts[1].id, "chat:2");
    assert_eq!(ts[1].title, "T");
    assert_eq!(ts[1].description, "Group chat");
}

#[test]
fn channel_target_fields() {
    let t = channel_target(&team("team-guid", "Eng"), &channel("19:chan@thread", "General"));
    assert_eq!(t.id, "channel:team-guid:19:chan@thread");
    assert_eq!(t.title, "Eng › General");
    assert_eq!(t.description, "Eng");
    assert_eq!(t.provider, "MS Teams");
}

#[test]
fn channel_targets_skip_teams_without_channels() {
    let teams = vec![team("a", "A"), team("b", "B"), team("c", "C")];
    let lists = vec![
        Some(GraphList { value: vec![channel("1", "one"), channel("2", "two")] }),
        None,
        Some(GraphList { value: vec![channel("3", "three")] }),
    ];
    let ts = channel_targets(&teams, &lists);
    let ids: Vec<&str> = ts.iter().map(|t| t.id.as_str()).collect();
    assert_eq!(ids, vec!["channel:a:1", "channel:a:2", "channel:c:3"]);
    assert_eq!(ts[2].title, "C › three");
}

#[test]
fn message_url_for_chat() {
    assert_eq!(
        message_url("chat:19:xyz@thread.v2"),
        Ok("https://graph.microsoft.com/v1.0/chats/19:xyz@thread.v2/messages".to_string())
    );
}

#[test]
fn message_url_for_channel() {
    assert_eq!(
        message_url("channel:tid:19:abc@thread.tacv2"),
        Ok("https://graph.microsoft.com/v1.0/teams/tid/channels/19:abc@thread.tacv2/messages".to_string())
    );
}

#[test]
fn message_url_invalid_channel() {
    assert_eq!(message_url("channel:nocolon"), Err("Invalid channel target id: channel:nocolon".to_string()));
}

#[test]
fn message_url_unknown_form() {
    assert_eq!(message_url("team:x"), Err("Unknown target id format: team:x".to_string()));
    assert_eq!(message_url(""), Err("Unknown target id format: ".to_string()));
}

#[test]
fn channel_target_id_leads_back_to_channel() {
    let t = channel_target(&team("guid-1", "Eng"), &channel("19:c:d", "Ops"));
    assert_eq!(
        message_url(&t.id),
        Ok("https://graph.microsoft.com/v1.0/teams/guid-1/channels/19:c:d/messages".to_string())
    );
    let c = chat_target(&GraphChat { id: "x:y".to_string(), chat_type: "group".to_string(), topic: None, members: None });
    assert_eq!(message_url(&c.id), Ok("https://graph.microsoft.com/v1.0/chats/x:y/messages".to_string()));
}
