use mdserve::render::render;
use mdserve::respond::{decode_document, handle};
use mdserve::resolve::{doc_candidate, index_candidate, resolve_base, resolve_with};

#[test]
fn short_path_does_not_resolve() {
    assert_eq!(resolve_base("/"), None);
    assert_eq!(resolve_base(""), None);
    assert_eq!(resolve_with("/", &Some(String::from("/srv/docs")), true, true), None);
}

#[test]
fn base_strips_leading_separator() {
    assert_eq!(resolve_base("/notes"), Some(String::from("notes")));
    assert_eq!(resolve_base("/a/b/c"), Some(String::from("a/b/c")));
}

#[test]
fn doc_candidate_appends_extension() {
    assert_eq!(doc_candidate("/srv/docs/page"), "/srv/docs/page.md");
}

#[test]
fn doc_candidate_replaces_extension() {
    assert_eq!(doc_candidate("/srv/docs/page.txt"), "/srv/docs/page.md");
    assert_eq!(doc_candidate("/srv/docs/archive.tar.gz"), "/srv/docs/archive.tar.md");
}

#[test]
fn doc_candidate_keeps_hidden_name_whole() {
    assert_eq!(doc_candidate("/srv/.config"), "/srv/.config.md");
}

#[test]
fn doc_candidate_leaves_empty_final_component_alone() {
    assert_eq!(doc_candidate("/"), "/");
}

#[test]
fn index_candidate_joins_filename() {
    assert_eq!(index_candidate("/srv/docs"), "/srv/docs/index.md");
    assert_eq!(index_candidate("/"), "/index.md");
}

#[test]
fn document_candidate_takes_precedence() {
    let canon = Some(String::from("/srv/docs/page"));
    assert_eq!(
        resolve_with("/page", &canon, true, true),
        Some(String::from("/srv/docs/page.md"))
    );
}

#[test]
fn index_candidate_is_fallback() {
    let canon = Some(String::from("/srv/docs"));
    assert_eq!(
        resolve_with("/docs", &canon, false, true),
        Some(String::from("/srv/docs/index.md"))
    );
}

#[test]
fn unresolvable_base_resolves_nothing() {
    assert_eq!(resolve_with("/missing", &None, true, true), None);
}

#[test]
fn no_existing_candidate_resolves_nothing() {
    let canon = Some(String::from("/srv/docs/page"));
    assert_eq!(resolve_with("/page", &canon, false, false), None);
}

#[test]
fn rendering_is_deterministic() {
    let text = "# Title\n\nSome *emphasis*, a [link](x.md) and `code`.\n\n- one\n- two\n";
    assert_eq!(render(text), render(text));
}

#[test]
fn heading_renders_to_heading_element() {
    let html = render("# Title");
    assert!(html.contains("<h1>Title</h1>"));
}

#[test]
fn malformed_markup_still_renders() {
    let html = render("*unclosed [bracket ``` stray");
    assert!(html.contains("unclosed"));
}

#[test]
fn valid_utf8_decodes() {
    let bytes = vec![104u8, 105u8];
    assert_eq!(decode_document(&bytes), Some(String::from("hi")));
}

#[test]
fn invalid_utf8_is_rejected() {
    let bytes = vec![0xffu8, 0xfe, 0xfd];
    assert_eq!(decode_document(&bytes), None);
}

#[test]
fn get_without_candidate_is_not_found() {
    let response = handle(true, None);
    assert_eq!(response.status, 404);
    assert_eq!(response.body, "This file was not found");
}

#[test]
fn non_get_is_method_not_allowed() {
    let response = handle(false, Some(vec![104u8, 105u8]));
    assert_eq!(response.status, 405);
    assert_eq!(response.body, "Method is not allowed.");
}

#[test]
fn invalid_encoding_is_not_found() {
    let response = handle(true, Some(vec![0xffu8, 0x00, 0x9f]));
    assert_eq!(response.status, 404);
    assert_eq!(response.body, "This file was not found");
}

#[test]
fn valid_document_renders_ok() {
    let doc = "# Hello\n\nbody text\n".as_bytes().to_vec();
    let response = handle(true, Some(doc));
    assert_eq!(response.status, 200);
    assert!(response.body.contains("<h1>Hello</h1>"));
}

#[test]
fn identical_requests_get_identical_responses() {
    let doc = "# Same\n\n- a\n- b\n".as_bytes().to_vec();
    let first = handle(true, Some(doc.clone()));
    let second = handle(true, Some(doc));
    assert_eq!(first.status, 200);
    assert_eq!(second.status, first.status);
    assert_eq!(second.body, first.body);
}
