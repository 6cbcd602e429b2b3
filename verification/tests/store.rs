use falcon::db::DB;
use falcon::env::Env;
use falcon::events::EnvEvent;
use falcon::events::ProjectEvent;
use falcon::events::RequestEvent;
use falcon::http_method::HttpMethod;
use falcon::project::Project;
use falcon::request::FalconAuthorization;
use falcon::request::FlBody;
use falcon::request::PendingRequest;

fn active_project_count(db: &DB) -> usize {
    db.items.iter().filter(|p| p.is_active).count()
}

fn active_env_count(db: &DB) -> usize {
    db.envs.iter().filter(|e| e.is_active).count()
}

#[test]
fn empty_store_plus_add_gives_one_active_default_project() {
    let mut db = DB::from_parts(vec![], vec![]);
    let created = ProjectEvent::Add("My API".to_string()).handle(&mut db);
    assert!(created);
    assert_eq!(db.items.len(), 1);
    let p = &db.items[0];
    assert_eq!(p.name, "My API");
    assert!(p.is_active);
    assert_eq!(p.requests.len(), 1);
    assert_eq!(p.requests[0].0, "root");
    assert_eq!(p.requests[0].1.len(), 1);
    let req = &p.requests[0].1[0];
    assert_eq!(req.url, "https://");
    assert_eq!(req.method, HttpMethod::Get);
    assert_eq!(req.headers, vec![(String::new(), String::new())]);
    assert_eq!(req.cookies, vec![(String::new(), String::new())]);
    assert_eq!(req.queries, vec![(String::new(), String::new())]);
    match &req.authorization {
        FalconAuthorization::Bearer { prefix, token } => {
            assert_eq!(prefix, "Bearer");
            assert_eq!(token, "");
        },
    }
    match &req.body {
        FlBody::ApplicationJson(json) => assert_eq!(json, ""),
    }
    assert!(req.name.is_none());
}

#[test]
fn at_most_one_project_active_across_add_select_delete() {
    let mut db = DB::from_parts(vec![], vec![]);
    assert!(ProjectEvent::Add("one".to_string()).handle(&mut db));
    assert!(active_project_count(&db) <= 1);
    assert!(ProjectEvent::Add("two".to_string()).handle(&mut db));
    assert!(active_project_count(&db) <= 1);
    let first_id = db.items[0].id.clone();
    ProjectEvent::Select(first_id.clone()).handle(&mut db);
    assert_eq!(active_project_count(&db), 1);
    assert!(db.items[0].is_active);
    ProjectEvent::Remove(first_id).handle(&mut db);
    assert!(active_project_count(&db) <= 1);
    // the collection is non-empty, so one project still resolves as active
    assert!(db.active().is_some());
}

#[test]
fn at_most_one_env_active_across_add_select_delete() {
    let mut db = DB::from_parts(vec![], vec![]);
    EnvEvent::Add.handle(&mut db);
    assert_eq!(active_env_count(&db), 1);
    EnvEvent::Add.handle(&mut db);
    assert_eq!(active_env_count(&db), 1);
    let first_id = db.envs[0].id.clone();
    EnvEvent::Select(first_id.clone()).handle(&mut db);
    assert_eq!(active_env_count(&db), 1);
    assert!(db.envs[0].is_active);
    EnvEvent::Delete(first_id).handle(&mut db);
    assert!(active_env_count(&db) <= 1);
    assert!(db.active_env().is_some());
}

#[test]
fn duplicate_env_copies_fields_under_new_id() {
    let mut db = DB::from_parts(vec![], vec![]);
    let mut env = Env::default();
    env.name = "staging".to_string();
    env.items = vec![("K".to_string(), "v".to_string())];
    env.base_url = Some("http://s.example.com".to_string());
    let id = env.id.clone();
    db.add_env(env);
    let copy = db.duplicate_env(&id).expect("the source env exists");
    assert_eq!(db.envs.len(), 2);
    assert_ne!(copy.id, id);
    assert_eq!(copy.name, "staging");
    assert_eq!(copy.items, vec![("K".to_string(), "v".to_string())]);
    assert_eq!(copy.base_url, Some("http://s.example.com".to_string()));
    // editing the copy leaves the source untouched
    let copy_id = copy.id.clone();
    EnvEvent::Select(copy_id).handle(&mut db);
    EnvEvent::NameInput("changed".to_string()).handle(&mut db);
    assert_eq!(db.envs[0].name, "staging");
    assert_eq!(db.envs[1].name, "changed");
}

#[test]
fn duplicate_project_copies_fields_under_new_id() {
    let mut db = DB::from_parts(vec![], vec![]);
    ProjectEvent::Add("orig".to_string()).handle(&mut db);
    let id = db.items[0].id.clone();
    let copy = db.duplicate_project(&id).expect("the source project exists");
    assert_eq!(db.items.len(), 2);
    assert_ne!(copy.id, id);
    assert_eq!(copy.name, "orig");
    assert_eq!(copy.requests.len(), db.items[0].requests.len());
    // editing the copy's name leaves the source untouched
    db.set_active(&copy.id);
    ProjectEvent::NameInput("renamed".to_string()).handle(&mut db);
    assert_eq!(db.items[0].name, "orig");
    assert_eq!(db.items[1].name, "renamed");
}

#[test]
fn duplicate_of_missing_id_returns_none() {
    let mut db = DB::from_parts(vec![], vec![]);
    assert!(db.duplicate_env("nope").is_none());
    assert!(db.duplicate_project("nope").is_none());
}

#[test]
fn removing_current_request_falls_back_to_a_remaining_one() {
    let mut project = Project::default();
    let extra = PendingRequest::default();
    let extra_id = extra.id.clone();
    RequestEvent::Add(extra).handle(&mut project);
    assert_eq!(project.active_request_id, Some(extra_id.clone()));
    RequestEvent::Delete(extra_id.clone()).handle(&mut project);
    // one request remains, so the project still resolves a current request
    let current = project.current_request().expect("a request remains");
    assert_ne!(current.1.id, extra_id);
    assert_eq!(project.active_request_id, Some(current.1.id.clone()));
}

#[test]
fn current_request_prefers_the_active_id() {
    let mut project = Project::default();
    let second = PendingRequest::default();
    let second_id = second.id.clone();
    project.add_request("root".to_string(), second);
    let (folder, req) = project.current_request().expect("requests exist");
    assert_eq!(folder, "root");
    assert_eq!(req.id, second_id);
}

#[test]
fn current_request_mut_creates_root_folder_on_empty_project() {
    let mut project = Project::default();
    project.requests.clear();
    let pos = project.current_request_mut();
    assert_eq!(pos, Some((0, 0)));
    assert_eq!(project.requests.len(), 1);
    assert_eq!(project.requests[0].0, "root");
    assert_eq!(project.requests[0].1.len(), 1);
    assert_eq!(
        project.active_request_id.as_deref(),
        Some(project.requests[0].1[0].id.as_str())
    );
}

#[test]
fn url_and_method_edits_land_on_the_current_request() {
    let mut project = Project::default();
    RequestEvent::UrlInput("{{%PROJECT_BASE_URL%}}/pets".to_string()).handle(&mut project);
    RequestEvent::SelectMethod(HttpMethod::Post).handle(&mut project);
    let (_, req) = project.current_request().expect("a request exists");
    assert_eq!(req.url, "{{%PROJECT_BASE_URL%}}/pets");
    assert_eq!(req.method, HttpMethod::Post);
}

#[test]
fn default_env_pointer_set_and_cleared() {
    let mut db = DB::from_parts(vec![], vec![]);
    ProjectEvent::Add("p".to_string()).handle(&mut db);
    EnvEvent::Add.handle(&mut db);
    let env_id = db.envs[0].id.clone();
    let project_id = db.items[0].id.clone();
    db.set_project_default_env(&project_id, Some(env_id.clone()));
    assert_eq!(db.items[0].default_env, Some(env_id.clone()));
    assert_eq!(db.get_project_default_env_id(), Some(env_id.clone()));
    let default_env = db.project_default_env().expect("pointer resolves");
    assert_eq!(default_env.id, env_id);
    db.set_project_default_env(&project_id, None);
    assert_eq!(db.items[0].default_env, None);
}

#[test]
fn base_url_follows_the_active_env() {
    let mut db = DB::from_parts(vec![], vec![]);
    assert_eq!(db.get_active_base_url(), "");
    EnvEvent::Add.handle(&mut db);
    EnvEvent::BaseUrlInput("http://example.com".to_string()).handle(&mut db);
    assert_eq!(db.get_active_base_url(), "http://example.com");
    EnvEvent::BaseUrlInput(String::new()).handle(&mut db);
    assert_eq!(db.get_active_base_url(), "");
}

#[test]
fn select_options_mirror_the_collections() {
    let mut db = DB::from_parts(vec![], vec![]);
    ProjectEvent::Add("alpha".to_string()).handle(&mut db);
    EnvEvent::Add.handle(&mut db);
    let opts = db.into_options();
    assert_eq!(opts.len(), 1);
    assert_eq!(opts.options()[0].label, "alpha");
    assert_eq!(opts.options()[0].value, db.items[0].id);
    let env_opts = db.env_into_options();
    assert_eq!(env_opts.len(), 1);
    assert_eq!(env_opts.options()[0].label, "Default env");
    let selected = db.selected_project().expect("a project exists");
    assert_eq!(selected.label, "alpha");
    let selected_env = db.selected_env_as_option().expect("an env exists");
    assert_eq!(selected_env.value, db.envs[0].id);
}

#[test]
fn is_active_env_matches_the_resolved_env() {
    let mut db = DB::from_parts(vec![], vec![]);
    EnvEvent::Add.handle(&mut db);
    EnvEvent::Add.handle(&mut db);
    let second_id = db.envs[1].id.clone();
    assert!(db.is_active_env(&second_id));
    assert!(!db.is_active_env(&db.envs[0].id.clone()));
}

#[test]
fn fresh_store_has_one_default_project_and_env() {
    let db = DB::new();
    assert_eq!(db.items.len(), 1);
    assert_eq!(db.items[0].name, "Unknown project");
    assert_eq!(db.envs.len(), 1);
    assert_eq!(db.envs[0].name, "Default env");
}

#[test]
fn stale_pointer_falls_back_to_the_first_request() {
    let mut project = Project::default();
    let first_id = project.requests[0].1[0].id.clone();
    project.set_current_request("no-such-request".to_string());
    // the read path already resolves the fallback
    let (_, req) = project.current_request().expect("a request exists");
    assert_eq!(req.id, first_id);
    // the mutation path now does the same: the edit lands on the first
    // request and the pointer is repaired
    RequestEvent::UrlInput("https://fixed.example.com".to_string()).handle(&mut project);
    assert_eq!(project.requests[0].1[0].url, "https://fixed.example.com");
    assert_eq!(project.active_request_id, Some(first_id));
}

#[test]
fn stale_pointer_position_comes_from_current_request_mut() {
    let mut project = Project::default();
    project.set_current_request("dangling".to_string());
    assert_eq!(project.current_request_mut(), Some((0, 0)));
    assert_eq!(
        project.active_request_id.as_deref(),
        Some(project.requests[0].1[0].id.as_str())
    );
}

#[test]
fn selecting_a_project_activates_its_default_env() {
    let mut db = DB::from_parts(vec![], vec![]);
    ProjectEvent::Add("a".to_string()).handle(&mut db);
    ProjectEvent::Add("b".to_string()).handle(&mut db);
    EnvEvent::Add.handle(&mut db);
    EnvEvent::Add.handle(&mut db);
    let env_first = db.envs[0].id.clone();
    let project_a = db.items[0].id.clone();
    db.set_project_default_env(&project_a, Some(env_first.clone()));
    // the second env is active; selecting project a switches to its default
    assert!(db.envs[1].is_active);
    ProjectEvent::Select(project_a).handle(&mut db);
    assert!(db.items[0].is_active);
    assert!(db.envs[0].is_active);
    assert!(!db.envs[1].is_active);
}

#[test]
fn selecting_a_project_without_default_env_leaves_envs_alone() {
    let mut db = DB::from_parts(vec![], vec![]);
    ProjectEvent::Add("a".to_string()).handle(&mut db);
    EnvEvent::Add.handle(&mut db);
    let before: Vec<(String, bool)> = db.envs.iter().map(|e| (e.id.clone(), e.is_active)).collect();
    let project_a = db.items[0].id.clone();
    ProjectEvent::Select(project_a).handle(&mut db);
    let after: Vec<(String, bool)> = db.envs.iter().map(|e| (e.id.clone(), e.is_active)).collect();
    assert_eq!(before, after);
}

#[test]
fn default_env_resolution_is_none_without_a_target() {
    let mut db = DB::from_parts(vec![], vec![]);
    // empty store: nothing resolves
    assert_eq!(db.get_project_default_env_id(), None);
    assert!(db.project_default_env().is_none());
    ProjectEvent::Add("p".to_string()).handle(&mut db);
    // no pointer set: nothing resolves
    assert_eq!(db.get_project_default_env_id(), None);
    // pointer at a missing environment: nothing resolves
    let project_id = db.items[0].id.clone();
    db.set_project_default_env(&project_id, Some("gone".to_string()));
    assert_eq!(db.get_project_default_env_id(), None);
    assert!(db.project_default_env().is_none());
}

#[test]
fn deleting_from_root_removes_exactly_the_named_request() {
    let mut project = Project::default();
    let keep_id = project.requests[0].1[0].id.clone();
    let extra = PendingRequest::default();
    let extra_id = extra.id.clone();
    RequestEvent::Add(extra).handle(&mut project);
    assert_eq!(project.requests[0].1.len(), 2);
    RequestEvent::Delete(extra_id.clone()).handle(&mut project);
    assert_eq!(project.requests[0].1.len(), 1);
    assert_eq!(project.requests[0].1[0].id, keep_id);
    // deleting an unknown id removes nothing
    RequestEvent::Delete("unknown".to_string()).handle(&mut project);
    assert_eq!(project.requests[0].1.len(), 1);
}
