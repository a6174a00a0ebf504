use websim::config::{ContentTypeConfig, WebSimConfig};
use websim::db::Database;
use websim::handler::{
    handle_outcome, handle_request, GenerationOutcome, HandleStep, Method, RequestInput,
};
use websim::openrouter::{ChatCompletionResponse, Choice, Message, MessageRole};
use websim::state::{AppState, InFlightSet};

fn sample_config() -> WebSimConfig {
    WebSimConfig {
        content_types: vec![
            (
                "text/html".to_string(),
                ContentTypeConfig {
                    model: "m-html".to_string(),
                    system_prompt: "You write pages.".to_string(),
                    content_type_header: "text/html; charset=utf-8".to_string(),
                    extensions: vec!["html".to_string()],
                },
            ),
            (
                "application/json".to_string(),
                ContentTypeConfig {
                    model: "m-json".to_string(),
                    system_prompt: "You write JSON.".to_string(),
                    content_type_header: "application/json".to_string(),
                    extensions: vec!["json".to_string()],
                },
            ),
        ],
    }
}

fn fresh_state() -> AppState {
    AppState {
        db: Database::new(None).expect("in-memory store"),
        config: sample_config(),
        in_flight: InFlightSet::new(),
    }
}

fn get_request(path: &str, query: &str) -> RequestInput {
    let path_and_query = if query.is_empty() {
        path.to_string()
    } else {
        format!("{}?{}", path, query)
    };
    RequestInput {
        method: Method::Get,
        path: path.to_string(),
        query: query.to_string(),
        path_and_query,
        accept: None,
        referer: String::new(),
        referer_target: None,
        body: String::new(),
    }
}

fn post_request(path: &str, body: &str) -> RequestInput {
    RequestInput {
        method: Method::Post,
        path: path.to_string(),
        query: String::new(),
        path_and_query: path.to_string(),
        accept: None,
        referer: String::new(),
        referer_target: None,
        body: body.to_string(),
    }
}

fn completion(text: &str) -> ChatCompletionResponse {
    ChatCompletionResponse {
        id: "cmpl-1".to_string(),
        model: "m-html".to_string(),
        choices: vec![Choice {
            message: Message { role: MessageRole::Assistant, content: text.to_string() },
            finish_reason: Some("stop".to_string()),
        }],
    }
}

fn expect_ticket(step: HandleStep) -> websim::handler::GenerationTicket {
    match step {
        HandleStep::Generate(t) => t,
        HandleStep::Respond(resp) => {
            panic!("expected a generation ticket, got status {}", resp.status)
        }
    }
}

#[test]
fn test_cache_hit_is_served_from_store() {
    let mut state = fresh_state();
    state.db.set("/about", "", "CACHED").unwrap();
    match handle_request(&mut state, &get_request("/about", "")) {
        HandleStep::Respond(resp) => {
            assert_eq!(resp.status, 200);
            assert_eq!(resp.body, "CACHED");
            assert_eq!(resp.content_type, Some("text/html; charset=utf-8".to_string()));
        }
        HandleStep::Generate(_) => panic!("cached resource must not regenerate"),
    }
}

#[test]
fn test_generation_then_subsequent_get_hits_cache() {
    let mut state = fresh_state();
    let input = get_request("/fruit", "kind=pear");
    let ticket = expect_ticket(handle_request(&mut state, &input));
    assert!(ticket.registered);
    assert_eq!(ticket.path, "/fruit");
    assert_eq!(ticket.query, "kind=pear");
    let resp = handle_outcome(&mut state, ticket, GenerationOutcome::Success(completion("GEN")));
    assert_eq!(resp.status, 200);
    assert_eq!(resp.body, "GEN");
    // The second request is answered from the store: no ticket, no transport.
    match handle_request(&mut state, &input) {
        HandleStep::Respond(resp) => {
            assert_eq!(resp.status, 200);
            assert_eq!(resp.body, "GEN");
        }
        HandleStep::Generate(_) => panic!("second request must be a cache hit"),
    }
}

#[test]
fn test_single_flight_rejects_concurrent_duplicate() {
    let mut state = fresh_state();
    let input = get_request("/slow", "");
    let first = handle_request(&mut state, &input);
    assert!(matches!(first, HandleStep::Generate(_)));
    // While the first holds the key, an identical request is turned away.
    match handle_request(&mut state, &input) {
        HandleStep::Respond(resp) => {
            assert_eq!(resp.status, 503);
            assert_eq!(resp.retry_after, Some("1".to_string()));
            assert_eq!(resp.body, "Content generation in progress. Please retry shortly.");
        }
        HandleStep::Generate(_) => panic!("duplicate concurrent generation"),
    }
}

#[test]
fn test_in_flight_released_after_failure() {
    let mut state = fresh_state();
    let input = get_request("/flaky", "");
    let ticket = expect_ticket(handle_request(&mut state, &input));
    let resp = handle_outcome(&mut state, ticket, GenerationOutcome::Failure("boom".to_string()));
    assert_eq!(resp.status, 200);
    assert_eq!(resp.body, "<h1>Error generating page</h1><p>boom</p>");
    assert_eq!(resp.content_type, Some("text/html; charset=utf-8".to_string()));
    // The failed generation wrote nothing, but the key is free again:
    // the next request proceeds instead of reporting busy.
    let step = handle_request(&mut state, &input);
    assert!(matches!(step, HandleStep::Generate(_)));
}

#[test]
fn test_in_flight_released_after_success() {
    let mut state = fresh_state();
    let input = get_request("/ok", "");
    let ticket = expect_ticket(handle_request(&mut state, &input));
    handle_outcome(&mut state, ticket, GenerationOutcome::Success(completion("done")));
    // No busy response: the key was released and the content is cached.
    match handle_request(&mut state, &input) {
        HandleStep::Respond(resp) => assert_eq!(resp.body, "done"),
        HandleStep::Generate(_) => panic!("expected a cache hit"),
    }
}

#[test]
fn test_post_is_never_cached_and_never_registered() {
    let mut state = fresh_state();
    let input = post_request("/submit", "{\"a\":1}");
    let ticket = expect_ticket(handle_request(&mut state, &input));
    assert!(!ticket.registered);
    assert_eq!(ticket.request.model, "m-json");
    let resp = handle_outcome(&mut state, ticket, GenerationOutcome::Success(completion("OUT")));
    assert_eq!(resp.status, 200);
    assert_eq!(resp.body, "OUT");
    assert_eq!(resp.content_type, Some("application/json".to_string()));
    // Write-style output is not persisted: a repeat POST generates again.
    let again = handle_request(&mut state, &input);
    assert!(matches!(again, HandleStep::Generate(_)));
    // And the stored cache for that path is still empty for GETs.
    assert_eq!(state.db.get("/submit", "").unwrap(), None);
}

#[test]
fn test_unresolved_content_type_is_not_found() {
    let mut state = fresh_state();
    let mut input = get_request("/file.weird", "");
    input.path_and_query = "/file.weird".to_string();
    match handle_request(&mut state, &input) {
        HandleStep::Respond(resp) => {
            assert_eq!(resp.status, 404);
            assert_eq!(resp.body, "Not Found");
        }
        HandleStep::Generate(_) => panic!("unresolvable request must not generate"),
    }
}

#[test]
fn test_post_without_json_descriptor_is_server_error() {
    let mut state = fresh_state();
    state.config.content_types.retain(|(k, _)| k != "application/json");
    match handle_request(&mut state, &post_request("/x", "b")) {
        HandleStep::Respond(resp) => {
            assert_eq!(resp.status, 500);
            assert_eq!(resp.body, "application/json not configured");
        }
        HandleStep::Generate(_) => panic!("missing configuration must not generate"),
    }
}

#[test]
fn test_response_with_no_completion_yields_empty_body() {
    let mut state = fresh_state();
    let ticket = expect_ticket(handle_request(&mut state, &get_request("/empty", "")));
    let api = ChatCompletionResponse {
        id: "cmpl-2".to_string(),
        model: "m-html".to_string(),
        choices: Vec::new(),
    };
    let resp = handle_outcome(&mut state, ticket, GenerationOutcome::Success(api));
    assert_eq!(resp.status, 200);
    assert_eq!(resp.body, "");
}

#[test]
fn test_ticket_prompt_and_messages() {
    let mut state = fresh_state();
    state.db.set("/garden", "", "the garden page").unwrap();
    let mut input = get_request("/garden/roses", "color=red");
    input.referer = "http://localhost:3000/garden".to_string();
    input.referer_target = Some(("/garden".to_string(), String::new()));
    let ticket = expect_ticket(handle_request(&mut state, &input));
    assert_eq!(ticket.mime_type, "text/html");
    assert_eq!(ticket.content_type_header, "text/html; charset=utf-8");
    assert_eq!(ticket.request.model, "m-html");
    assert_eq!(ticket.request.messages.len(), 2);
    assert_eq!(ticket.request.messages[0].role, MessageRole::System);
    assert_eq!(ticket.request.messages[0].content, "You write pages.");
    assert_eq!(ticket.request.messages[1].role, MessageRole::User);
    let expected_refs =
        "### /garden\n\nthe garden page\n\n### /garden (parent)\n\nthe garden page";
    let expected_prompt = format!(
        "Generate content for path: {}\n\nThe following materials are context-only. They are **not part of the output**.\nUse them only to stay consistent with style or data conventions.\n\nHeaders: {}\nReference materials: {}",
        "/garden/roses?color=red", "http://localhost:3000/garden", expected_refs
    );
    assert_eq!(ticket.request.messages[1].content, expected_prompt);
}

#[test]
fn test_prompt_placeholders_when_nothing_supplied() {
    let mut state = fresh_state();
    let ticket = expect_ticket(handle_request(&mut state, &get_request("/plain", "")));
    let expected_prompt = "Generate content for path: /plain\n\nThe following materials are context-only. They are **not part of the output**.\nUse them only to stay consistent with style or data conventions.\n\nHeaders: none\nReference materials: none";
    assert_eq!(ticket.request.messages[1].content, expected_prompt);
}

#[test]
fn test_registry_insert_contains_remove() {
    let mut reg = InFlightSet::new();
    assert!(!reg.contains("/k"));
    reg.insert("/k");
    assert!(reg.contains("/k"));
    assert!(!reg.contains("/other"));
    reg.remove("/k");
    assert!(!reg.contains("/k"));
}
