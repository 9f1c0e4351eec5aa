use std::sync::{Arc, Mutex};

use diag_adapter::health::{
    components_of, overall_status, response_of, HealthError, HealthProvider, HealthState, Status,
    StatusHealthProvider,
};

fn state(version: &str) -> HealthState<StatusHealthProvider> {
    HealthState::new(version.to_owned())
}

fn set_component_status(state: &mut HealthState<StatusHealthProvider>, name: &str, status: Status) {
    state
        .register_provider(name.to_owned(), StatusHealthProvider::new(status))
        .unwrap();
}

#[test]
fn test_health_response_overall_status_all_up() {
    let mut state = state("1.0.0");
    set_component_status(&mut state, "database", Status::Up);
    set_component_status(&mut state, "doip", Status::Up);

    let response = state.health_response();
    assert_eq!(response.status, Status::Up);
}

#[test]
fn test_health_response_overall_status_single_failed() {
    let mut state = state("1.0.0");
    set_component_status(&mut state, "database", Status::Up);
    set_component_status(&mut state, "doip", Status::Failed);

    let response = state.health_response();
    assert_eq!(response.status, Status::Failed);
}

#[test]
fn test_health_response_overall_status_multiple_failed() {
    let mut state = state("1.0.0");
    set_component_status(&mut state, "db", Status::Failed);
    set_component_status(&mut state, "doip", Status::Failed);

    let response = state.health_response();
    assert_eq!(response.status, Status::Failed);
}

#[test]
fn test_health_response_overall_status_starting() {
    let mut state = state("1.0.0");
    set_component_status(&mut state, "database", Status::Starting);
    set_component_status(&mut state, "doip", Status::Pending);

    let response = state.health_response();
    assert_eq!(response.status, Status::Starting);
}

#[test]
fn test_health_response_failed_takes_precedence() {
    let mut state = state("1.0.0");
    set_component_status(&mut state, "c1", Status::Starting);
    set_component_status(&mut state, "c2", Status::Failed);
    set_component_status(&mut state, "c3", Status::Up);

    let response = state.health_response();
    assert_eq!(response.status, Status::Failed);
}

#[test]
fn test_health_response_metadata() {
    let mut state = state("2.1.0");
    set_component_status(&mut state, "database", Status::Up);

    let response = state.health_response();

    assert_eq!(response.version, "2.1.0");
    assert_eq!(response.components.len(), 1);
    assert_eq!(response.components.first().unwrap().name, "database");
}

#[test]
fn test_health_response_empty() {
    let state = state("1.0.0");

    let response = state.health_response();
    assert_eq!(response.status, Status::Up);
    assert_eq!(response.components.len(), 0);
}

#[test]
fn test_mixed_providers() {
    let mut state = state("1.0.0");

    // Register multiple providers
    state
        .register_provider("custom".to_owned(), StatusHealthProvider::new(Status::Up))
        .unwrap();

    set_component_status(&mut state, "database", Status::Up);

    let response = state.health_response();
    assert_eq!(response.status, Status::Up);
    assert_eq!(response.components.len(), 2);
}

#[test]
fn test_register_provider_already_exists() {
    let mut state = state("1.0.0");
    let provider1 = StatusHealthProvider::new(Status::Up);
    let provider2 = StatusHealthProvider::new(Status::Failed);
    let name = "database".to_owned();

    state.register_provider(name.clone(), provider1).unwrap();
    let result = state.register_provider(name.clone(), provider2);
    let err = result.unwrap_err();
    assert_eq!(err, HealthError::ProviderAlreadyExists(name));
    assert_eq!(err.to_string(), "Provider database already exists");
}

#[test]
fn provider_reports_updated_status() {
    let mut provider = StatusHealthProvider::new(Status::Starting);
    assert_eq!(provider.status(), Status::Starting);
    provider.update_status(Status::Up);
    assert_eq!(provider.status(), Status::Up);
}

#[test]
fn overall_status_of_lists() {
    assert_eq!(overall_status(&[]), Status::Up);
    assert_eq!(overall_status(&[Status::Up, Status::Pending]), Status::Starting);
    assert_eq!(overall_status(&[Status::Pending, Status::Failed]), Status::Failed);
}

/// A provider whose status another owner can change after it was registered.
struct SharedStatusProvider(Arc<Mutex<StatusHealthProvider>>);

impl HealthProvider for SharedStatusProvider {
    fn check_health(&self) -> Status {
        self.0.lock().unwrap().status()
    }
}

#[test]
fn test_provider_can_be_updated() {
    let mut state: HealthState<SharedStatusProvider> = HealthState::new("1.0.0".to_owned());
    let provider = Arc::new(Mutex::new(StatusHealthProvider::new(Status::Starting)));
    let provider_clone = Arc::clone(&provider);
    state
        .register_provider("database".to_owned(), SharedStatusProvider(provider_clone))
        .unwrap();

    let response1 = state.health_response();
    assert_eq!(response1.status, Status::Starting);

    // Update the provider status
    provider.lock().unwrap().update_status(Status::Up);

    let response2 = state.health_response();
    assert_eq!(response2.status, Status::Up);
}

#[test]
fn test_components_of_pairs_names_and_statuses() {
    let names = vec!["db".to_owned(), "net".to_owned()];
    let statuses = vec![Status::Pending, Status::Up];
    let components = components_of(&names, &statuses);
    assert_eq!(components.len(), 2);
    assert_eq!(components[0].name, "db");
    assert_eq!(components[0].status, Status::Pending);
    assert_eq!(components[1].name, "net");
    assert_eq!(components[1].status, Status::Up);
}

#[test]
fn test_response_of_uses_the_reported_statuses() {
    let names = vec!["a".to_owned(), "b".to_owned(), "c".to_owned()];
    let statuses = vec![Status::Up, Status::Failed, Status::Starting];
    let response = response_of(&"2.0".to_owned(), &names, &statuses);
    assert_eq!(response.version, "2.0");
    assert_eq!(response.status, Status::Failed);
    let got: Vec<(String, Status)> = response
        .components
        .iter()
        .map(|c| (c.name.clone(), c.status))
        .collect();
    assert_eq!(
        got,
        vec![
            ("a".to_owned(), Status::Up),
            ("b".to_owned(), Status::Failed),
            ("c".to_owned(), Status::Starting)
        ]
    );
}

#[test]
fn test_health_response_reports_each_provider_status() {
    let mut state = state("1.0.0");
    set_component_status(&mut state, "first", Status::Pending);
    set_component_status(&mut state, "second", Status::Up);
    let response = state.health_response();
    assert_eq!(response.components.len(), 2);
    assert_eq!(response.components[0].name, "first");
    assert_eq!(response.components[0].status, Status::Pending);
    assert_eq!(response.components[1].name, "second");
    assert_eq!(response.components[1].status, Status::Up);
    assert_eq!(response.status, Status::Starting);
    // a second registration under a taken name keeps the first provider
    let err = state.register_provider("first".to_owned(), StatusHealthProvider::new(Status::Failed));
    assert!(err.is_err());
    let response = state.health_response();
    assert_eq!(response.components[0].status, Status::Pending);
}
