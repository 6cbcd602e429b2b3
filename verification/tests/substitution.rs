use falcon::env::Env;
use falcon::request::PendingRequest;
use falcon::request::PendingRequestItem;

fn env_with(items: Vec<(&str, &str)>) -> Env {
    let mut env = Env::default();
    env.items = items
        .into_iter()
        .map(|(k, v)| (k.to_string(), v.to_string()))
        .collect();
    env
}

#[test]
fn positional_arguments_fill_value_template() {
    let env = env_with(vec![("API_PATH", "https://$0.example.com/v$1")]);
    let out = env.replace_variables("{{API_PATH[www,3]}}/users");
    assert_eq!(out, "https://www.example.com/v3/users");
}

#[test]
fn named_arguments_fill_value_template() {
    let env = env_with(vec![("API_PATH", "https://$sub.example.com/v$version")]);
    let out = env.replace_variables("{{API_PATH[version: 2, sub: app]}}/users");
    assert_eq!(out, "https://app.example.com/v2/users");
}

#[test]
fn unknown_key_passes_through() {
    let env = env_with(vec![("KNOWN", "value")]);
    let input = "before {{UNDEFINED}} after";
    assert_eq!(env.replace_variables(input), input);
}

#[test]
fn plain_placeholder_uses_value_verbatim() {
    let env = env_with(vec![("HOST", "example.com")]);
    assert_eq!(env.replace_variables("https://{{HOST}}/api"), "https://example.com/api");
}

#[test]
fn empty_argument_list_uses_value_verbatim() {
    let env = env_with(vec![("V", "stay $0 put")]);
    assert_eq!(env.replace_variables("{{V[]}}"), "stay $0 put");
}

#[test]
fn last_duplicate_key_wins() {
    let env = env_with(vec![("K", "first"), ("K", "second")]);
    assert_eq!(env.replace_variables("{{K}}"), "second");
}

#[test]
fn quoted_and_padded_arguments_are_trimmed() {
    let env = env_with(vec![("P", "-$0-")]);
    assert_eq!(env.replace_variables("{{P[ \"x\" ]}}"), "-x-");
}

#[test]
fn unresolved_dollar_tokens_stay() {
    let env = env_with(vec![("P", "$0 and $missing")]);
    assert_eq!(env.replace_variables("{{P[a]}}"), "a and $missing");
}

#[test]
fn env_edit_on_last_row_appends_blank_row() {
    let mut env = Env::default();
    assert_eq!(env.items, vec![(String::new(), String::new())]);
    env.update_item_key(0, "API".to_string());
    assert_eq!(env.items.len(), 2);
    assert_eq!(env.items[0], ("API".to_string(), String::new()));
    assert_eq!(env.items[1], (String::new(), String::new()));
    env.update_item_value(1, "v".to_string());
    assert_eq!(env.items.len(), 3);
    assert_eq!(env.items[2], (String::new(), String::new()));
}

#[test]
fn env_edit_on_earlier_row_keeps_length() {
    let mut env = Env::default();
    env.add_item("A".to_string(), "1".to_string());
    let before = env.items.len();
    env.update_item_key(0, "B".to_string());
    assert_eq!(env.items.len(), before);
}

#[test]
fn request_edit_on_last_row_appends_blank_row() {
    let mut req = PendingRequest::default();
    assert_eq!(req.headers.len(), 1);
    req.update_item_key(PendingRequestItem::Header, 0, "X-One".to_string());
    assert_eq!(req.headers.len(), 2);
    assert_eq!(req.headers[1], (String::new(), String::new()));
    req.update_item_value(PendingRequestItem::Cookie, 0, "tasty".to_string());
    assert_eq!(req.cookies.len(), 2);
    assert_eq!(req.cookies[1], (String::new(), String::new()));
    req.update_item_key(PendingRequestItem::Query, 0, "q".to_string());
    assert_eq!(req.queries.len(), 2);
    assert_eq!(req.queries[1], (String::new(), String::new()));
}

#[test]
fn remove_item_drops_the_row() {
    let mut req = PendingRequest::default();
    req.update_item_key(PendingRequestItem::Header, 0, "X-One".to_string());
    assert_eq!(req.headers.len(), 2);
    req.remove_item(PendingRequestItem::Header, 0);
    assert_eq!(req.headers, vec![(String::new(), String::new())]);
}
