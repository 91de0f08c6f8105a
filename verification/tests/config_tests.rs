use openapi_kit::commands::{
    flavour_config_path, language_config_path, language_dir, output_file_path, split_reference,
    template_file_name, template_input_path, version_label,
};
use openapi_kit::config::{resolve_inputs, AppConfig, FlavourInput, InputError};
use openapi_kit::name_map::NameMap;
use openapi_kit::workspace::{schema_path_default, Reference, ReferenceError, Workspace, WorkspaceError};
use std::path::PathBuf;

fn strings(items: &[&str]) -> Vec<String> {
    items.iter().map(|s| s.to_string()).collect()
}

#[test]
fn app_config_defaults() {
    let config = AppConfig::new(None, None, vec![]);
    assert_eq!(config.schema, "openapi.yaml");
    assert_eq!(config.flavour, "default");
    assert_eq!(config.inputs.len(), 0);
}

#[test]
fn app_config_pairs_inputs() {
    let config = AppConfig::new(
        Some("api.yaml".to_string()),
        Some("rust".to_string()),
        strings(&["name", "pets", "version", "1", "name", "animals", "dangling"]),
    );
    assert_eq!(config.schema, "api.yaml");
    assert_eq!(config.flavour, "rust");
    assert_eq!(config.inputs.len(), 2);
    assert_eq!(config.inputs.get("name").map(|s| s.as_str()), Some("animals"));
    assert_eq!(config.inputs.get("version").map(|s| s.as_str()), Some("1"));
    assert!(config.inputs.get("dangling").is_none());
    let keys: Vec<&str> = config.inputs.entries().iter().map(|(k, _)| k.as_str()).collect();
    assert_eq!(keys, vec!["name", "version"]);
}

fn declared() -> NameMap<FlavourInput> {
    let mut d = NameMap::new();
    d.insert("crate".to_string(), FlavourInput { required: true, default: None });
    d.insert("edition".to_string(), FlavourInput { required: false, default: Some("2021".to_string()) });
    d.insert("license".to_string(), FlavourInput { required: false, default: None });
    d
}

#[test]
fn inputs_take_given_values_then_defaults() {
    let mut given = NameMap::new();
    given.insert("crate".to_string(), "pets".to_string());
    given.insert("unused".to_string(), "x".to_string());
    let data = resolve_inputs(&Some(declared()), &given).unwrap();
    assert_eq!(data.get("crate").map(|s| s.as_str()), Some("pets"));
    assert_eq!(data.get("edition").map(|s| s.as_str()), Some("2021"));
    assert!(data.get("license").is_none());
    assert!(data.get("unused").is_none());
    given.insert("edition".to_string(), "2018".to_string());
    let data = resolve_inputs(&Some(declared()), &given).unwrap();
    assert_eq!(data.get("edition").map(|s| s.as_str()), Some("2018"));
}

#[test]
fn missing_required_input_is_an_error() {
    let given = NameMap::new();
    match resolve_inputs(&Some(declared()), &given) {
        Err(e) => {
            let InputError::MissingRequired(key) = &e;
            assert_eq!(key, "crate");
            assert_eq!(e.message(), "Missing required input parameter \"crate\".");
        }
        Ok(_) => panic!("a required input is missing"),
    }
}

#[test]
fn no_declared_inputs_gives_no_data() {
    let mut given = NameMap::new();
    given.insert("crate".to_string(), "pets".to_string());
    assert_eq!(resolve_inputs(&None, &given).unwrap().len(), 0);
}

#[test]
fn name_map_keeps_first_place() {
    let mut m = NameMap::new();
    m.insert("a".to_string(), 1);
    m.insert("b".to_string(), 2);
    m.insert("a".to_string(), 3);
    let got: Vec<(&str, i32)> = m.entries().iter().map(|(k, v)| (k.as_str(), *v)).collect();
    assert_eq!(got, vec![("a", 3), ("b", 2)]);
    assert_eq!(m.get("a"), Some(&3));
    assert_eq!(m.get("c"), None);
}

#[test]
fn references_read() {
    let r = Reference::parse("api:models").ok().unwrap();
    assert_eq!((r.project.as_str(), r.template.as_str()), ("api", "models"));
    let r = Reference::parse("api:a:b").ok().unwrap();
    assert_eq!((r.project.as_str(), r.template.as_str()), ("api", "a:b"));
}

#[test]
fn references_refused() {
    let err = |s: &str| Reference::parse(s).err().unwrap();
    assert_eq!(err("api"), ReferenceError::MissingSeparator);
    assert_eq!(err(":models"), ReferenceError::EmptyProject);
    assert_eq!(err("api:"), ReferenceError::EmptyTemplate);
    assert_eq!(err(":"), ReferenceError::EmptyProject);
    assert_eq!(ReferenceError::MissingSeparator.message(), "Expected pattern <project>:<template>");
    assert_eq!(ReferenceError::EmptyProject.message(), "Project name can not be empty");
    assert_eq!(ReferenceError::EmptyTemplate.message(), "Template name can not be empty");
}

#[test]
fn command_line_references_split() {
    assert_eq!(split_reference("api:models"), ("api".to_string(), Some("models".to_string())));
    assert_eq!(split_reference("api"), ("api".to_string(), None));
    assert_eq!(split_reference("api:a:b"), ("api".to_string(), Some("a".to_string())));
    assert_eq!(split_reference("api:"), ("api".to_string(), Some("".to_string())));
}

#[test]
fn nearest_workspace_is_found() {
    let candidates = vec![
        (PathBuf::from("/home/u/proj/src"), false),
        (PathBuf::from("/home/u/proj"), true),
        (PathBuf::from("/home/u"), true),
    ];
    let ws = Workspace::load_recursive(candidates).ok().unwrap();
    assert_eq!(ws.path, PathBuf::from("/home/u/proj"));
}

#[test]
fn no_workspace_is_an_error() {
    let candidates = vec![(PathBuf::from("/a/b"), false), (PathBuf::from("/a"), false)];
    assert!(matches!(Workspace::load_recursive(candidates), Err(WorkspaceError::NoWorkspaceFound)));
    assert!(matches!(Workspace::load_recursive(vec![]), Err(WorkspaceError::NoWorkspaceFound)));
}

#[test]
fn file_names() {
    assert_eq!(schema_path_default(), "openapi.yaml");
    assert_eq!(language_dir("rust"), ".openapi/languages/rust");
    assert_eq!(language_config_path("rust"), ".openapi/languages/rust/config.yaml");
    assert_eq!(flavour_config_path("axum"), ".openapi/flavours/axum/config.yaml");
    assert_eq!(template_input_path("axum", "models"), "axum/models");
    assert_eq!(output_file_path("out", "models.rs"), "out/models.rs");
    assert_eq!(template_file_name("axum/models"), "axum/models.tera");
    assert_eq!(version_label(None), "0.0.0");
    assert_eq!(version_label(Some("1.2.0".to_string())), "1.2.0");
}

#[test]
fn io_errors_become_workspace_errors() {
    let e: WorkspaceError = std::io::Error::new(std::io::ErrorKind::NotFound, "gone").into();
    assert!(matches!(e, WorkspaceError::IO(_)));
}
