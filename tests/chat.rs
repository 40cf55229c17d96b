use std::path::PathBuf;
use uuid::Uuid;
use yap::chat::{
    chat_id_source, extend_conversation, join_prompt, prompt_outcome, recap_text, ChatIdSource,
};
use yap::chatlog::{conversation_summary, recency_order, recent_count};
use yap::db::{parse_active_chat, parse_uuid};
use yap::err::Oops;
use yap::openai::{Message, Role};
use yap::term::{cols, parse_u16};

#[test]
fn test_parse_uuid() {
    let uuid = Uuid::parse_str("4a016e25-60f4-4355-8165-97abff7be79b").unwrap();
    let path = PathBuf::from(format!("/home/foo/.local/state/yap/{}.json", uuid));
    let result = parse_uuid(path.file_name().unwrap().to_str().unwrap()).ok().unwrap();
    assert_eq!(result, uuid.as_u128());
}

#[test]
fn chat_file_names_must_be_uuid_json() {
    assert!(parse_uuid("4a016e25-60f4-4355-8165-97abff7be79b.txt").is_err());
    assert!(parse_uuid("4a016e25-60f4-4355-8165-97abff7be79b").is_err());
    assert!(parse_uuid("4a016e25-60f4-4355-8165-97abff7be79b.json.bak").is_err());
    assert_eq!(parse_uuid("nope.json").err().unwrap().kind(), Some(Oops::DbError));
}

#[test]
fn active_chat_text() {
    let u = parse_active_chat("4a016e25-60f4-4355-8165-97abff7be79b").ok().unwrap();
    assert_eq!(u, 0x4a016e2560f44355816597abff7be79b);
    assert!(parse_active_chat("x").is_err());
}

#[test]
fn new_and_resume_conflict() {
    let e = chat_id_source(true, true).err().unwrap();
    assert_eq!(e.kind(), Some(Oops::ChatError));
    assert_eq!(chat_id_source(false, true).ok(), Some(ChatIdSource::Resume));
    assert_eq!(chat_id_source(true, false).ok(), Some(ChatIdSource::New));
    assert_eq!(chat_id_source(false, false).ok(), Some(ChatIdSource::Active));
}

#[test]
fn empty_prompt_rules() {
    assert_eq!(prompt_outcome(false, false).ok(), Some(true));
    assert_eq!(prompt_outcome(true, true).ok(), Some(false));
    assert_eq!(prompt_outcome(true, false).err().unwrap().kind(), Some(Oops::ChatError));
}

#[test]
fn prompt_words_are_joined() {
    let words = vec!["How".to_string(), "are".to_string(), "you?".to_string()];
    assert_eq!(join_prompt(&words), "How are you?");
    assert_eq!(join_prompt(&vec![]), "");
}

#[test]
fn new_conversation_gets_system_prompt() {
    let out = extend_conversation(vec![], "sys".to_string(), &vec!["hi".to_string(), "there".to_string()]);
    assert_eq!(out.len(), 2);
    assert_eq!(out[0].role, Role::System);
    assert_eq!(out[0].content.as_deref(), Some("sys"));
    assert_eq!(out[1].role, Role::User);
    assert_eq!(out[1].content.as_deref(), Some("hi there"));
}

#[test]
fn existing_conversation_gets_prompt_only() {
    let old = vec![Message::new(Role::System, "s".to_string())];
    let out = extend_conversation(old, "unused".to_string(), &vec!["q".to_string()]);
    assert_eq!(out.len(), 2);
    assert_eq!(out[0].content.as_deref(), Some("s"));
}

#[test]
fn recap_joins_messages_with_content() {
    let msgs = vec![
        Message::new(Role::System, "sys".to_string()),
        Message { role: Role::Assistant, content: None, refusal: Some("r".to_string()) },
        Message::new(Role::User, "hello\n".to_string()),
        Message::new(Role::Assistant, "hi".to_string()),
    ];
    assert_eq!(recap_text(&msgs), "[system]: sys\n===\n[user]: hello\n\n\n===\n[llm]: hi");
    assert_eq!(recap_text(&vec![]), "");
}

#[test]
fn recency_latest_first_and_stable() {
    assert_eq!(recency_order(&vec![5, 9, 5, 1, 9]), vec![1, 4, 0, 2, 3]);
    assert_eq!(recency_order(&vec![]), Vec::<usize>::new());
}

#[test]
fn shown_count_is_limit_plus_one() {
    assert_eq!(recent_count(Some(10), 3), 3);
    assert_eq!(recent_count(Some(1), 5), 2);
    assert_eq!(recent_count(None, 4), 4);
    assert_eq!(recent_count(Some(usize::MAX), 4), 4);
}

#[test]
fn summary_uses_latest_user_message() {
    let msgs = vec![
        Message::new(Role::System, "system".to_string()),
        Message::new(Role::User, "first question".to_string()),
        Message::new(Role::User, "second question\nmore".to_string()),
        Message::new(Role::Assistant, "answer".to_string()),
    ];
    assert_eq!(conversation_summary("id", &msgs, 6).unwrap(), "id :: second...\n");
    assert_eq!(conversation_summary("id", &msgs, 100).unwrap(), "id :: second question...\n");
}

#[test]
fn summary_falls_back_to_first_message() {
    let msgs = vec![Message::new(Role::System, "sys prompt".to_string())];
    assert_eq!(conversation_summary("u", &msgs, 80).unwrap(), "u :: sys prompt...\n");
    assert!(conversation_summary("u", &vec![], 80).is_none());
    let empty = vec![Message::new(Role::User, "".to_string())];
    assert!(conversation_summary("u", &empty, 80).is_none());
}

#[test]
fn terminal_width() {
    assert_eq!(cols(Some("120\n")), 120);
    assert_eq!(cols(Some("  +42 ")), 42);
    assert_eq!(cols(Some("wide")), 80);
    assert_eq!(cols(Some("70000")), 80);
    assert_eq!(cols(None), 80);
}

#[test]
fn u16_parsing() {
    assert_eq!(parse_u16("65535"), Some(65535));
    assert_eq!(parse_u16("0"), Some(0));
    assert_eq!(parse_u16("65536"), None);
    assert_eq!(parse_u16(""), None);
    assert_eq!(parse_u16("+"), None);
    assert_eq!(parse_u16("-1"), None);
    assert_eq!(parse_u16("1 2"), None);
}
