use falcon::request_url::RequestUrl;

#[test]
fn test_extract_with_base_url() {
    let url = "http://example.com/path/to/resource".to_string();
    let var = "http://example.com".to_string();
    let result = RequestUrl::from(url).extract(&var);
    assert_eq!(result, "{{%PROJECT_BASE_URL%}}/path/to/resource");
}

#[test]
fn test_extract_with_variable() {
    let url = "{{SOME}}/path/to/resource".to_string();
    let var = "{{SOME}}".to_string();
    let result = RequestUrl::from(url).extract(&var);
    assert_eq!(result, "{{%PROJECT_BASE_URL%}}/path/to/resource");
}

#[test]
fn test_extract_with_variable_and_brackets() {
    let url = "{{SOME[extra]}}/path/to/resource".to_string();
    let var = "{{SOME}}".to_string();
    let result = RequestUrl::from(url).extract(&var);
    assert_eq!(result, "{{%PROJECT_BASE_URL[extra]%}}/path/to/resource");
}

#[test]
fn test_extract_with_invalid_variable() {
    let url = "http://example.com/path/to/resource".to_string();
    let var = "{{INVALID}}".to_string();
    let result = RequestUrl::from(url.clone()).extract(&var);
    assert_eq!(result, url);
}

#[test]
fn test_build_with_base_url() {
    let url = "{{%PROJECT_BASE_URL%}}/path/to/resource".to_string();
    let var = "http://example.com".to_string();
    let result = RequestUrl::from(url).build(&var);
    assert_eq!(result, "http://example.com/path/to/resource");
}

#[test]
fn test_build_with_variable() {
    let url = "{{%PROJECT_BASE_URL%}}/path/to/resource".to_string();
    let var = "{{SOME}}".to_string();
    let result = RequestUrl::from(url).build(&var);
    assert_eq!(result, "{{SOME}}/path/to/resource");
}

#[test]
fn test_build_with_variable_and_brackets() {
    let url = "{{%PROJECT_BASE_URL[extra]%}}/path/to/resource".to_string();
    let var = "{{SOME}}".to_string();
    let result = RequestUrl::from(url).build(&var);
    assert_eq!(result, "{{SOME[extra]}}/path/to/resource");
}

#[test]
fn test_build_with_different_variable_using_extra() {
    let url = "{{%PROJECT_BASE_URL[extra]%}}/path/to/resource".to_string();
    let var = "{{DIFFERENT}}".to_string();
    let result = RequestUrl::from(url.clone()).build(&var);
    assert_eq!(result, "{{DIFFERENT[extra]}}/path/to/resource");
}

#[test]
fn test_build_with_different_variable() {
    let url = "{{%PROJECT_BASE_URL%}}/path/to/resource".to_string();
    let var = "{{DIFFERENT}}".to_string();
    let result = RequestUrl::from(url.clone()).build(&var);
    assert_eq!(result, "{{DIFFERENT}}/path/to/resource");
}

#[test]
fn test_build_with_empty_variable() {
    let url = "{{%PROJECT_BASE_URL%}}/path/to/resource".to_string();
    let var = "".to_string();
    let result = RequestUrl::from(url.clone()).build(&var);
    assert_eq!(result, "/path/to/resource");
}

#[test]
fn test_build_with_empty_variable_and_brackets() {
    let url = "{{%PROJECT_BASE_URL[abcd]%}}/path/to/resource".to_string();
    let var = "".to_string();
    let result = RequestUrl::from(url.clone()).build(&var);
    assert_eq!(result, "/path/to/resource");
}

#[test]
fn build_then_extract_returns_sentinel_form() {
    let stored = "{{%PROJECT_BASE_URL%}}/x".to_string();
    let base = "http://example.com";
    let built = RequestUrl::from(stored.clone()).build(base);
    assert_eq!(built, "http://example.com/x");
    let back = RequestUrl::from(built).extract(base);
    assert_eq!(back, stored);
}

#[test]
fn default_request_url_is_empty() {
    let url = RequestUrl::default();
    assert_eq!(url.text(), "");
}
