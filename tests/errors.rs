use yap::err::{Error, HttpFailure, Oops};

#[test]
fn wrap_appends_frames() {
    let e = Error::default().wrap(Oops::DbError).wrap(Oops::ChatError);
    assert_eq!(e.kind(), Some(Oops::ChatError));
    assert!(!e.is_empty());
}

#[test]
fn empty_error_has_no_kind() {
    let e = Error::new();
    assert!(e.is_empty());
    assert_eq!(e.kind(), None);
    assert_eq!(e.render(), "Oops! One or more errors occurred;\n");
}

#[test]
fn because_describes_last_frame() {
    let e = Error::new().wrap(Oops::DbError).because("disk".to_string());
    assert_eq!(
        e.render(),
        "Oops! One or more errors occurred;\n  DbError :: disk\n"
    );
}

#[test]
fn because_on_empty_error_changes_nothing() {
    let e = Error::new().because("lost".to_string());
    assert!(e.is_empty());
}

#[test]
fn render_lists_outermost_first_with_fallbacks() {
    let e = Error::new()
        .wrap(Oops::OpenAIKeyMissing)
        .wrap(Oops::CommandError)
        .wrap(Oops::AnnotateError)
        .because("while annotating".to_string());
    let expected = "Oops! One or more errors occurred;\n  AnnotateError :: while annotating\n    CommandError :: details not available\n      OpenAIKeyMissing :: set $OPENAI_API_KEY in your environment\n";
    assert_eq!(e.render(), expected);
}

#[test]
fn explanations() {
    assert_eq!(
        Oops::OpenAIEmptyChoices.explain(),
        Some("OpenAI did not provide any response choices.")
    );
    assert_eq!(Oops::DbError.explain(), None);
    assert_eq!(Oops::WindowRangeError.name(), "WindowRangeError");
}

#[test]
fn ureq_transport_failure() {
    let e = Error::new().wrap_ureq(HttpFailure::Transport);
    assert_eq!(e.kind(), Some(Oops::UreqTransportError));
}

#[test]
fn ureq_status_failure() {
    let e = Error::new().wrap_ureq(HttpFailure::Status { code: 429, body_error: None });
    assert_eq!(e.kind(), Some(Oops::UreqHttpError));
    assert!(e.render().contains(
        "UreqHttpError :: Received unsuccessful HTTP response 429. Enable debug logging for more details."
    ));
}

#[test]
fn ureq_status_failure_with_unread_body() {
    let e = Error::new().wrap_ureq(HttpFailure::Status {
        code: 500,
        body_error: Some("eof".to_string()),
    });
    let text = e.render();
    assert!(text.contains("UreqMetaError :: io error while reading the response body while handling a ureq response error: eof"));
    assert!(text.find("UreqHttpError").unwrap() < text.find("UreqMetaError").unwrap());
}
