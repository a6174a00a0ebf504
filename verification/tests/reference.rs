use websim::db::Database;
use websim::handler::{build_reference_materials, Method};

fn store() -> Database {
    Database::new(None).expect("in-memory store")
}

#[test]
fn test_store_roundtrip() {
    let mut db = store();
    assert_eq!(db.get("/a", "").unwrap(), None);
    db.set("/a", "", "alpha").unwrap();
    assert_eq!(db.get("/a", "").unwrap(), Some("alpha".to_string()));
    // Last writer wins.
    db.set("/a", "", "beta").unwrap();
    assert_eq!(db.get("/a", "").unwrap(), Some("beta".to_string()));
    // The query string is part of the key, byte-identical only.
    assert_eq!(db.get("/a", "x=1").unwrap(), None);
}

#[test]
fn test_ancestors_in_root_to_leaf_order() {
    let mut db = store();
    db.set("/articles", "", "A").unwrap();
    db.set("/articles/2023", "", "B").unwrap();
    let text = build_reference_materials(
        &db,
        &None,
        "/articles/2023/post",
        "",
        &Method::Get,
        "",
    );
    assert_eq!(
        text,
        "## Reference materials\n\n### /articles (parent)\n\nA\n\n### /articles/2023 (parent)\n\nB"
    );
}

#[test]
fn test_base_page_included_for_query_variation() {
    let mut db = store();
    db.set("/apples", "", "BASE").unwrap();
    let text = build_reference_materials(&db, &None, "/apples", "color=green", &Method::Get, "");
    assert_eq!(text, "## Reference materials\n\n### /apples (base page)\n\nBASE");
    // Without a query string the base block is not gathered.
    let text = build_reference_materials(&db, &None, "/apples", "", &Method::Get, "");
    assert_eq!(text, "");
}

#[test]
fn test_referer_block_has_no_section_header() {
    let mut db = store();
    db.set("/ref", "q=1", "R").unwrap();
    let target = Some(("/ref/".to_string(), "q=1".to_string()));
    let text = build_reference_materials(&db, &target, "/other", "", &Method::Get, "");
    assert_eq!(text, "### /ref\n\nR");
}

#[test]
fn test_body_is_final_block_with_other_material() {
    let mut db = store();
    db.set("/articles", "", "A").unwrap();
    let text = build_reference_materials(
        &db,
        &None,
        "/articles/post",
        "",
        &Method::Post,
        "the body",
    );
    assert!(text.ends_with("## Request Body\n\nthe body"));
    assert!(text.starts_with("## Reference materials\n\n### /articles (parent)\n\nA"));
}

#[test]
fn test_body_alone_when_nothing_else_found() {
    let db = store();
    let text = build_reference_materials(&db, &None, "/x", "", &Method::Post, "payload");
    assert_eq!(text, "## Request Body\n\npayload");
}

#[test]
fn test_body_ignored_for_read_requests() {
    let db = store();
    let text = build_reference_materials(&db, &None, "/x", "", &Method::Get, "payload");
    assert_eq!(text, "");
}

#[test]
fn test_missing_lookups_are_skipped_silently() {
    let mut db = store();
    db.set("/a/b", "", "MID").unwrap();
    let text = build_reference_materials(&db, &None, "/a/b/c/d", "", &Method::Get, "");
    assert_eq!(text, "## Reference materials\n\n### /a/b (parent)\n\nMID");
}
