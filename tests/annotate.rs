use yap::annotate::{
    apply_annotations, finish_annotation, yapify_annotation_content, Annotation, FileTypeInfo,
};
use yap::decode::{decode_annotations, decode_response, get_json_schema};
use yap::window::{number_lines, prepare_annotation, select_window, Window};
use yap::err::Oops;
use yap::openai::{Message, Role};

fn typical_info() -> FileTypeInfo {
    FileTypeInfo::new(Some("// "), Some(""))
}

fn html_info() -> FileTypeInfo {
    FileTypeInfo::new(Some("<!-- "), Some(" -->"))
}

fn note(line_number: usize, content: &str) -> Annotation {
    Annotation { line_number, content: content.to_string() }
}

#[test]
fn test_apply_annotation() {
    let input_data = "#!/bin/sh

echo 'hello world'"
        .to_string();

    let annotations = vec![Annotation {
        line_number: 3,
        content: r#"this will print "hello world" to STDOUT"#.into(),
    }];
    let expected_output = r##"#!/bin/sh

// yap :: this will print "hello world" to STDOUT
echo 'hello world'
"##;

    let result = apply_annotations(&input_data, annotations, typical_info());
    assert_eq!(result, expected_output);
}

#[test]
fn test_apply_annotation_out_of_order() {
    let input_data = "#!/bin/sh

echo 'hello world'

exit 1
"
    .to_string();

    let annotations = vec![
        Annotation {
            line_number: 5,
            content: r"Exit with non-zero status, indicating that an error has occurred.".into(),
        },
        Annotation {
            line_number: 3,
            content: r#"print "hello world" to STDOUT"#.into(),
        },
    ];
    let expected_output = r##"#!/bin/sh

// yap :: print "hello world" to STDOUT
echo 'hello world'

// yap :: Exit with non-zero status, indicating that an error has occurred.
exit 1
"##;

    let result = apply_annotations(&input_data, annotations, typical_info());
    assert_eq!(result, expected_output);
}

#[test]
fn test_apply_annotation_multi_line() {
    let input_data = "// main.rs

value.as_ref().map(|i| i.as_str()).iter().reduce(String::new(), |a, v| {
    a.push(v);
    a
})
";
    let annotations = vec![Annotation {
        line_number: 3,
        content: "It does that\nIt does this\nIt does other thing".into(),
    }];

    let expected_output = "// main.rs

// yap :: It does that
// yap :: It does this
// yap :: It does other thing
value.as_ref().map(|i| i.as_str()).iter().reduce(String::new(), |a, v| {
    a.push(v);
    a
})
";
    let result = apply_annotations(input_data, annotations, typical_info());
    println!("{}\n{}", result, expected_output);
    assert_eq!(result, expected_output);
}

#[test]
fn test_apply_annotation_for_html_like_syntax() {
    let input_data = "<!-- This is a comment -->
<!DOCTYPE html>
<html>
<head>
    <title>Test Document</title>
</head>
<body>
    <h1>Hello World</h1>
</body>
</html>
"
    .to_string();

    let annotations = vec![
        Annotation {
            line_number: 2,
            content: "This comment provides context for the HTML document.".into(),
        },
        Annotation {
            line_number: 8,
            content: "This is the main heading of the page.".into(),
        },
    ];

    let expected_output = r##"<!-- This is a comment -->
<!-- yap :: This comment provides context for the HTML document. -->
<!DOCTYPE html>
<html>
<head>
    <title>Test Document</title>
</head>
<body>
<!-- yap :: This is the main heading of the page. -->
    <h1>Hello World</h1>
</body>
</html>
"##;

    let result = apply_annotations(&input_data, annotations, html_info());
    assert_eq!(result, expected_output);
}

#[test]
fn empty_set_keeps_document() {
    let doc = "a\n\nb\n";
    assert_eq!(apply_annotations(doc, vec![], typical_info()), doc);
}

#[test]
fn empty_set_adds_final_line_break() {
    assert_eq!(apply_annotations("a\nb", vec![], typical_info()), "a\nb\n");
}

#[test]
fn empty_document_stays_empty() {
    assert_eq!(apply_annotations("", vec![note(1, "x")], typical_info()), "");
}

#[test]
fn order_of_arrival_does_not_matter() {
    let doc = "one\ntwo\nthree\nfour\n";
    let first = apply_annotations(doc, vec![note(4, "d"), note(1, "a"), note(2, "b")], typical_info());
    let second = apply_annotations(doc, vec![note(2, "b"), note(4, "d"), note(1, "a")], typical_info());
    assert_eq!(first, second);
    assert_eq!(first, "// yap :: a\none\n// yap :: b\ntwo\nthree\n// yap :: d\nfour\n");
}

#[test]
fn line_count_grows_by_rendered_lines() {
    let doc = "l1\nl2\nl3\n";
    let out = apply_annotations(doc, vec![note(1, "x\ny"), note(3, "z"), note(9, "gone")], typical_info());
    assert_eq!(out.lines().count(), 3 + 2 + 1);
    assert_eq!(out, "// yap :: x\n// yap :: y\nl1\nl2\n// yap :: z\nl3\n");
}

#[test]
fn record_past_the_end_is_dropped() {
    let doc = "l1\nl2\n";
    assert_eq!(apply_annotations(doc, vec![note(3, "late")], typical_info()), doc);
}

#[test]
fn record_on_the_last_line_is_kept() {
    let doc = "l1\nl2\n";
    assert_eq!(apply_annotations(doc, vec![note(2, "last")], typical_info()), "l1\n// yap :: last\nl2\n");
}

#[test]
fn same_line_collision_keeps_the_first() {
    let doc = "l1\nl2\nl3\n";
    let out = apply_annotations(doc, vec![note(2, "first"), note(2, "second")], typical_info());
    assert_eq!(out, "l1\n// yap :: first\nl2\nl3\n");
}

#[test]
fn same_line_collision_stops_later_records() {
    let doc = "l1\nl2\nl3\n";
    let out = apply_annotations(doc, vec![note(1, "a"), note(1, "b"), note(3, "c")], typical_info());
    assert_eq!(out, "// yap :: a\nl1\nl2\nl3\n");
}

#[test]
fn html_style_has_no_default_prefix() {
    let out = apply_annotations("x\n", vec![note(1, "c")], html_info());
    assert_eq!(out, "<!-- yap :: c -->\nx\n");
    assert!(!out.contains("//"));
}

#[test]
fn default_style() {
    let info = FileTypeInfo::new(None, None);
    assert_eq!(info.comment_prefix, "// ");
    assert_eq!(info.comment_suffix, "");
}

#[test]
fn formatter_wraps_each_line() {
    let info = FileTypeInfo::new(Some("/* "), Some(" */"));
    assert_eq!(yapify_annotation_content("a\nb", &info), "/* yap :: a */\n/* yap :: b */");
}

#[test]
fn formatter_keeps_empty_pieces() {
    let info = typical_info();
    assert_eq!(yapify_annotation_content("", &info), "// yap :: ");
    assert_eq!(yapify_annotation_content("a\n", &info), "// yap :: a\n// yap :: ");
}

#[test]
fn window_selects_inclusive_range() {
    let doc = "a\nb\nc\nd\n";
    let lines = select_window(doc, &Window { start: 2, end: Some(3) }).ok().unwrap();
    assert_eq!(lines, vec!["b".to_string(), "c".to_string()]);
}

#[test]
fn window_end_is_clamped() {
    let lines = select_window("a\nb\n", &Window { start: 2, end: Some(10) }).ok().unwrap();
    assert_eq!(lines, vec!["b".to_string()]);
    let all = select_window("a\nb\n", &Window { start: 1, end: None }).ok().unwrap();
    assert_eq!(all, vec!["a".to_string(), "b".to_string()]);
}

#[test]
fn window_past_end_is_empty() {
    let lines = select_window("a\nb\n", &Window { start: 5, end: None }).ok().unwrap();
    assert!(lines.is_empty());
}

#[test]
fn reversed_window_is_an_error() {
    let e = select_window("a\nb\n", &Window { start: 3, end: Some(2) }).err().unwrap();
    assert_eq!(e.kind(), Some(Oops::WindowRangeError));
}

#[test]
fn numbering_is_window_relative() {
    let lines = vec!["x".to_string(), "".to_string(), "z".to_string()];
    assert_eq!(number_lines(&lines), "1 x\n2 \n3 z");
    let text = prepare_annotation("a\nb\nc\n", &Window { start: 2, end: None }).ok().unwrap();
    assert_eq!(text, "1 b\n2 c");
}

#[test]
fn numbering_past_nine() {
    let lines: Vec<String> = (0..12).map(|i| format!("l{}", i)).collect();
    let text = number_lines(&lines);
    assert!(text.ends_with("\n10 l9\n11 l10\n12 l11"));
}

#[test]
fn decoding_rebases_lines() {
    let body = "{\"annotations\":[{\"line_number\":1,\"content\":\"first\"},{\"line_number\":3,\"content\":\"third\"}]}";
    let out = decode_annotations(body, 5).ok().unwrap();
    assert_eq!(out.len(), 2);
    assert_eq!(out[0].line_number, 5);
    assert_eq!(out[0].content, "first");
    assert_eq!(out[1].line_number, 7);
    assert_eq!(out[1].content, "third");
}

#[test]
fn decoding_from_the_first_line_keeps_lines() {
    let body = "{\"annotations\":[{\"content\":\"c\",\"line_number\":4}]}";
    let out = decode_annotations(body, 1).ok().unwrap();
    assert_eq!(out[0].line_number, 4);
}

#[test]
fn decoding_rejects_text_that_is_not_json() {
    let e = decode_annotations("not json", 1).err().unwrap();
    assert_eq!(e.kind(), Some(Oops::EngineProtocolError));
}

#[test]
fn decoding_rejects_extra_members() {
    let body = "{\"annotations\":[{\"line_number\":1,\"content\":\"c\",\"extra\":true}]}";
    let e = decode_annotations(body, 1).err().unwrap();
    assert_eq!(e.kind(), Some(Oops::EngineProtocolError));
    let top = "{\"annotations\":[],\"more\":1}";
    assert!(decode_annotations(top, 1).is_err());
}

#[test]
fn decoding_rejects_wrong_types() {
    for body in [
        "{\"annotations\":[{\"line_number\":\"1\",\"content\":\"c\"}]}",
        "{\"annotations\":[{\"line_number\":1.5,\"content\":\"c\"}]}",
        "{\"annotations\":[{\"line_number\":-1,\"content\":\"c\"}]}",
        "{\"annotations\":[{\"line_number\":1,\"content\":2}]}",
        "{\"annotations\":[{\"line_number\":1}]}",
        "{\"annotations\":{}}",
        "[]",
    ] {
        let e = decode_annotations(body, 1).err().unwrap();
        assert_eq!(e.kind(), Some(Oops::EngineProtocolError), "{}", body);
    }
}

#[test]
fn decoding_accepts_an_empty_list() {
    let out = decode_annotations("{\"annotations\":[]}", 3).ok().unwrap();
    assert!(out.is_empty());
}

#[test]
fn refusal_ends_decoding() {
    let m = Message { role: Role::Assistant, content: None, refusal: Some("no".to_string()) };
    let e = decode_response(&m, 1).err().unwrap();
    assert_eq!(e.kind(), Some(Oops::EngineRefusal));
    assert!(e.render().contains("EngineRefusal :: no"));
}

#[test]
fn contradictory_message_breaks_protocol() {
    let both = Message {
        role: Role::Assistant,
        content: Some("{}".to_string()),
        refusal: Some("no".to_string()),
    };
    assert_eq!(decode_response(&both, 1).err().unwrap().kind(), Some(Oops::EngineProtocolError));
    let neither = Message { role: Role::Assistant, content: None, refusal: None };
    assert_eq!(decode_response(&neither, 1).err().unwrap().kind(), Some(Oops::EngineProtocolError));
}

#[test]
fn finishing_merges_decoded_records() {
    let body = "{\"annotations\":[{\"line_number\":1,\"content\":\"here\"}]}";
    let m = Message::new(Role::Assistant, body.to_string());
    let out = finish_annotation("a\nb\nc\n", &m, 2, typical_info()).ok().unwrap();
    assert_eq!(out, "a\n// yap :: here\nb\nc\n");
}

#[test]
fn schema_parses() {
    let v = get_json_schema().unwrap();
    assert_eq!(v["name"], "source_file_annotations");
    assert_eq!(v["strict"], true);
    assert_eq!(v["schema"]["additionalProperties"], false);
}
