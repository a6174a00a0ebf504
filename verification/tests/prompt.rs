use websim::config::ContentTypeConfig;

fn descriptor() -> ContentTypeConfig {
    ContentTypeConfig {
        model: "m".to_string(),
        system_prompt: "sys".to_string(),
        content_type_header: "text/html; charset=utf-8".to_string(),
        extensions: vec![],
    }
}

#[test]
fn test_user_prompt_builder_renders_template() {
    let prompt = descriptor()
        .user_prompt_builder("/apples?color=green".to_string())
        .headers("http://localhost:3000/".to_string())
        .reference_materials("### /apples\n\ncontent".to_string())
        .build()
        .expect("template renders");
    assert_eq!(
        prompt,
        "Generate content for path: /apples?color=green\n\nThe following materials are context-only. They are **not part of the output**.\nUse them only to stay consistent with style or data conventions.\n\nHeaders: http://localhost:3000/\nReference materials: ### /apples\n\ncontent"
    );
}

#[test]
fn test_user_prompt_builder_is_deterministic() {
    let build = || {
        descriptor()
            .user_prompt_builder("/p".to_string())
            .headers("h".to_string())
            .reference_materials("r".to_string())
            .build()
            .expect("template renders")
    };
    assert_eq!(build(), build());
}

#[test]
fn test_user_prompt_builder_defaults_to_none() {
    let prompt = descriptor()
        .user_prompt_builder("/p".to_string())
        .build()
        .expect("template renders");
    assert!(prompt.ends_with("Headers: none\nReference materials: none"));
    assert!(prompt.starts_with("Generate content for path: /p\n"));
}
