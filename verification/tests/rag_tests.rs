use flowy_ai::model_list::{config_from_json, get_available_model_list, model_names, AvailableModel};
use flowy_ai::error::AiError;
use flowy_ai::rag::{normalize, normalize_all, text_size, ContentType, LoaderTag, RagMetadata};

fn meta(id: &str, loader: LoaderTag, data: &str) -> RagMetadata {
    RagMetadata {
        id: id.to_string(),
        name: format!("name-{}", id),
        source: format!("source-{}", id),
        loader,
        data: data.to_string(),
    }
}

#[test]
fn text_hello_has_size_five() {
    let e = normalize(meta("a", LoaderTag::Txt, "hello"));
    assert_eq!(e.content_type, ContentType::Text);
    assert_eq!(e.size, 5);
    assert_eq!(e.content, "hello");
    assert_eq!(e.id, "a");
    assert_eq!(e.name, "name-a");
    assert_eq!(e.source, "source-a");
    assert_eq!(e.extra, None);
}

#[test]
fn pdf_has_size_zero_whatever_it_holds() {
    for data in ["", "x", "a much longer piece of content"] {
        let e = normalize(meta("p", LoaderTag::Pdf, data));
        assert_eq!(e.content_type, ContentType::Pdf);
        assert_eq!(e.size, 0);
        assert_eq!(e.content, data);
    }
}

#[test]
fn markdown_is_sized_by_content() {
    let e = normalize(meta("m", LoaderTag::Markdown, "# Title\n"));
    assert_eq!(e.content_type, ContentType::Markdown);
    assert_eq!(e.size, 8);
}

#[test]
fn unknown_loader_maps_to_unknown() {
    let e = normalize(meta("u", LoaderTag::UnknownLoader, "whatever"));
    assert_eq!(e.content_type, ContentType::Unknown);
    assert_eq!(e.size, 0);
}

#[test]
fn size_counts_bytes_not_characters() {
    assert_eq!(text_size(""), 0);
    assert_eq!(text_size("é"), 2);
    assert_eq!(text_size("日本"), 6);
    let e = normalize(meta("t", LoaderTag::Txt, "aé"));
    assert_eq!(e.size, 3);
}

#[test]
fn normalize_all_keeps_the_order() {
    let entries = normalize_all(vec![
        meta("1", LoaderTag::Txt, "one"),
        meta("2", LoaderTag::Pdf, "two"),
        meta("3", LoaderTag::Markdown, "three"),
    ]);
    assert_eq!(entries.len(), 3);
    assert_eq!(entries[0].id, "1");
    assert_eq!(entries[0].size, 3);
    assert_eq!(entries[1].id, "2");
    assert_eq!(entries[1].size, 0);
    assert_eq!(entries[1].content_type, ContentType::Pdf);
    assert_eq!(entries[2].id, "3");
    assert_eq!(entries[2].size, 5);
    assert!(normalize_all(Vec::new()).is_empty());
}

fn model(name: &str) -> AvailableModel {
    AvailableModel { name: name.to_string(), is_default: false }
}

#[test]
fn model_names_in_order() {
    assert_eq!(model_names(vec![model("b"), model("a")]), vec!["b".to_string(), "a".to_string()]);
}

#[test]
fn model_list_is_a_json_object() {
    let config = get_available_model_list(vec![model("gpt"), model("llama")]).unwrap();
    assert_eq!(config.models, "{\"models\":[\"gpt\",\"llama\"]}");
    let empty = get_available_model_list(Vec::new()).unwrap();
    assert_eq!(empty.models, "{\"models\":[]}");
}

#[test]
fn model_list_escapes_names() {
    let config = get_available_model_list(vec![model("a\"b")]).unwrap();
    assert_eq!(config.models, "{\"models\":[\"a\\\"b\"]}");
    let parsed: serde_json::Value = serde_json::from_str(&config.models).unwrap();
    assert_eq!(parsed["models"][0].as_str(), Some("a\"b"));
}

#[test]
fn serialisation_failure_becomes_an_error() {
    let failure = serde_json::from_str::<serde_json::Value>("{").unwrap_err();
    let r = config_from_json(Err(failure));
    assert_eq!(r.err(), Some(AiError::Serialization));
    let ok = config_from_json(Ok("[]".to_string())).unwrap();
    assert_eq!(ok.models, "[]");
}
