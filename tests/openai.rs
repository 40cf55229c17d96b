use yap::config::ConfigFile;
use yap::err::Oops;
use yap::openai::{
    Choice, CompletionPayload, CompletionResponse, Content, FinishReason, Message, Model, OpenAI,
    PayloadOpts, Role,
};

#[test]
fn message_parse_content() {
    let m = Message::new(Role::User, "hi".to_string());
    match m.parse().ok().unwrap() {
        Content::Normal(c) => assert_eq!(c, "hi"),
        Content::Refusal(_) => panic!("not a refusal"),
    }
}

#[test]
fn message_parse_refusal() {
    let m = Message { role: Role::Assistant, content: None, refusal: Some("no".to_string()) };
    match m.parse().ok().unwrap() {
        Content::Refusal(r) => assert_eq!(r, "no"),
        Content::Normal(_) => panic!("not content"),
    }
}

#[test]
fn message_parse_errors() {
    let both = Message {
        role: Role::Assistant,
        content: Some("a".to_string()),
        refusal: Some("b".to_string()),
    };
    assert_eq!(both.parse().err().unwrap().kind(), Some(Oops::OpenAIContentAndRefusal));
    let neither = Message { role: Role::Assistant, content: None, refusal: None };
    assert_eq!(neither.parse().err().unwrap().kind(), Some(Oops::OpenAIEmptyContent));
}

fn choice(reason: FinishReason) -> Choice {
    Choice { message: Message::new(Role::Assistant, "x".to_string()), finish_reason: reason }
}

#[test]
fn validate_accepts_a_stop() {
    let r = CompletionResponse { choices: vec![choice(FinishReason::Length), choice(FinishReason::Stop)] };
    let v = r.validate().ok().unwrap();
    assert_eq!(v.choices.len(), 2);
}

#[test]
fn validate_rejects_no_choices() {
    let r = CompletionResponse { choices: vec![] };
    assert_eq!(r.validate().err().unwrap().kind(), Some(Oops::OpenAIEmptyChoices));
}

#[test]
fn validate_rejects_bad_finish() {
    let r = CompletionResponse { choices: vec![choice(FinishReason::Length)] };
    let e = r.validate().err().unwrap();
    assert_eq!(e.kind(), Some(Oops::OpenAIBadFinishReason));
    assert!(e.render().contains("Finish reason was \"Length\" instead of \"stop\""));
}

#[test]
fn client_needs_a_key() {
    assert_eq!(OpenAI::from_env(None, None).err().unwrap().kind(), Some(Oops::OpenAIKeyMissing));
    let c = OpenAI::from_env(Some("k".to_string()), None).ok().unwrap();
    assert_eq!(c.auth_header(), "Bearer k");
    assert_eq!(c.model, Model::Gpt4oMini);
    let d = OpenAI::from_env(Some("k".to_string()), Some(Model::Gpt4o)).ok().unwrap();
    assert_eq!(d.model.as_str(), "gpt-4o");
}

#[test]
fn payload_takes_client_model() {
    let c = OpenAI::from_env(Some("k".to_string()), Some(Model::Gpt4o)).ok().unwrap();
    let p = CompletionPayload::new(&c, vec![Message::new(Role::User, "q".to_string())], PayloadOpts::default());
    assert_eq!(p.model, Model::Gpt4o);
    assert_eq!(p.messages.len(), 1);
}

#[test]
fn role_names() {
    assert_eq!(Role::Assistant.label(), "llm");
    assert_eq!(Role::Assistant.as_str(), "assistant");
    assert_eq!(Role::default(), Role::User);
}

#[test]
fn config_file_names() {
    assert_eq!(ConfigFile::AnnotateSystemPrompt.filename(), "annotate_system_prompt.txt");
    assert_eq!(ConfigFile::ChatSystemPrompt.filename(), "chat_system_prompt.txt");
    assert_eq!(ConfigFile::CompleteSystemPrompt.filename(), "complete_system_prompt.txt");
}
