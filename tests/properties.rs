use ddai::business::{AdditionalPrompt, AnalyzeParameters, Architecture, Definition, Language};
use ddai::error::{CoreError, FsErrorKind, Validator};
use ddai::json::Json;
use ddai::registry::{Directory, FileItem, FileName, Registry, RegistryError};
use ddai::version::FileVersion;

fn fault_of(v: &str) -> Option<String> {
    match FileVersion::from(v).validate() {
        Ok(()) => None,
        Err(CoreError::ValidationError(msg)) => Some(msg),
        Err(_) => panic!("unexpected error kind"),
    }
}

#[test]
fn valid_versions_pass() {
    for v in ["1.2.3", "255.255.255", "0.0.1", "0.1.0", "10.0.255", "007.1.1"] {
        assert_eq!(fault_of(v), None, "{v}");
    }
}

#[test]
fn each_version_rule_has_its_message() {
    assert_eq!(fault_of("").unwrap(), "File version cannot be empty");
    assert_eq!(
        fault_of("1.a.0").unwrap(),
        "File version can only contain digit characters & dots"
    );
    assert_eq!(
        fault_of("1..2").unwrap(),
        "File version must contain at least one non-empty part"
    );
    assert_eq!(
        fault_of(".1.2").unwrap(),
        "File version must contain at least one non-empty part"
    );
    assert_eq!(fault_of("1.2").unwrap(), "File version can have at most three parts");
    assert_eq!(fault_of("1.2.3.4").unwrap(), "File version can have at most three parts");
    assert_eq!(
        fault_of("4294967296.0.0").unwrap(),
        "Each part of the file version must be a valid unsigned integer"
    );
    assert_eq!(fault_of("0.0.0").unwrap(), "File version cannot be zero");
    assert_eq!(fault_of("00.000.0").unwrap(), "File version cannot be zero");
    assert_eq!(
        fault_of("256.0.0").unwrap(),
        "Each part of the file version must be between 0 and 255"
    );
    assert_eq!(
        fault_of("4294967295.0.0").unwrap(),
        "Each part of the file version must be between 0 and 255"
    );
}

#[test]
fn new_entry_holds_genesis_only() {
    let item = FileItem::new(FileName::from("readme"));
    assert_eq!(item.name.as_str(), "readme");
    assert_eq!(item.versions.len(), 1);
    assert_eq!(item.versions[0].as_str(), "0.1.0");
    assert_eq!(item.get_last_version().unwrap().as_str(), "0.1.0");
}

#[test]
fn update_twice_equals_update_once() {
    let mut once = FileItem::new(FileName::from("readme"));
    once.update(FileVersion::from("1.0.0"));
    let mut twice = FileItem::new(FileName::from("readme"));
    twice.update(FileVersion::from("1.0.0"));
    twice.update(FileVersion::from("1.0.0"));
    assert_eq!(once, twice);
    assert_eq!(twice.get_last_version().unwrap().as_str(), "1.0.0");
}

#[test]
fn last_version_of_empty_entry_is_none() {
    let item = FileItem { name: FileName::from("x"), versions: Vec::new() };
    assert!(item.get_last_version().is_none());
}

#[test]
fn add_then_get_returns_added_and_replaces() {
    let mut registry = Registry::new(Directory::from("docs"));
    registry.add_file(FileItem::new(FileName::from("a")));
    registry.add_file(FileItem::new(FileName::from("b")));
    let mut replacement = FileItem { name: FileName::from("a"), versions: Vec::new() };
    replacement.update(FileVersion::from("2.0.0"));
    registry.add_file(replacement.clone());
    assert_eq!(registry.files.len(), 2);
    assert_eq!(registry.get_file(&FileName::from("a")), Some(&replacement));
    assert_eq!(registry.files[0].name.as_str(), "b");
    assert_eq!(registry.files[1].name.as_str(), "a");
    assert_eq!(registry.files[1].versions.len(), 1);
}

#[test]
fn remove_absent_name_changes_nothing() {
    let mut registry = Registry::new(Directory::from("docs"));
    registry.add_file(FileItem::new(FileName::from("a")));
    let before = registry.clone();
    registry.remove_file(&FileName::from("zzz"));
    assert_eq!(registry, before);
}

fn sample_registry() -> Registry {
    let mut registry = Registry::new(Directory::from("docs"));
    let mut a = FileItem::new(FileName::from("a"));
    a.update(FileVersion::from("1.0.0"));
    a.update(FileVersion::from("1.1.0"));
    registry.add_file(a);
    registry.add_file(FileItem::new(FileName::from("b")));
    registry.add_file(FileItem { name: FileName::from("c"), versions: Vec::new() });
    registry
}

#[test]
fn round_trip_keeps_registry() {
    let registry = sample_registry();
    let back = Registry::from_json(&registry.to_json()).unwrap();
    assert_eq!(back, registry);
}

fn entry(name: &str, versions: &[&str]) -> Json {
    Json::Object(vec![
        ("name".to_string(), Json::Str(name.to_string())),
        (
            "versions".to_string(),
            Json::Array(versions.iter().map(|v| Json::Str(v.to_string())).collect()),
        ),
    ])
}

fn document(files: Vec<Json>) -> Json {
    Json::Object(vec![
        ("files".to_string(), Json::Array(files)),
        ("directory".to_string(), Json::Str("docs".to_string())),
    ])
}

fn is_schema_error(r: Result<Registry, RegistryError>) -> bool {
    match r {
        Err(RegistryError::FsError(e)) => e.kind() == FsErrorKind::InvalidData,
        _ => false,
    }
}

#[test]
fn parse_accepts_fields_in_any_order() {
    let parsed = Registry::from_json(&document(vec![entry("a", &["0.1.0", "1.0.0"])])).unwrap();
    assert_eq!(parsed.directory.as_str(), "docs");
    assert_eq!(parsed.files.len(), 1);
    assert_eq!(parsed.files[0].versions.len(), 2);
}

#[test]
fn parse_refuses_documents_off_the_schema() {
    // an extra field
    let extra = Json::Object(vec![
        ("directory".to_string(), Json::Str("docs".to_string())),
        ("files".to_string(), Json::Array(Vec::new())),
        ("extra".to_string(), Json::Null),
    ]);
    assert!(is_schema_error(Registry::from_json(&extra)));
    // a missing field
    let missing = Json::Object(vec![("directory".to_string(), Json::Str("docs".to_string()))]);
    assert!(is_schema_error(Registry::from_json(&missing)));
    // a field of the wrong type
    let wrong = Json::Object(vec![
        ("directory".to_string(), Json::Number("3".to_string())),
        ("files".to_string(), Json::Array(Vec::new())),
    ]);
    assert!(is_schema_error(Registry::from_json(&wrong)));
    // a version that is no string
    let bad_version = document(vec![Json::Object(vec![
        ("name".to_string(), Json::Str("a".to_string())),
        ("versions".to_string(), Json::Array(vec![Json::Bool(true)])),
    ])]);
    assert!(is_schema_error(Registry::from_json(&bad_version)));
    // two entries of one name
    let duplicate = document(vec![entry("a", &["0.1.0"]), entry("a", &["1.0.0"])]);
    assert!(is_schema_error(Registry::from_json(&duplicate)));
    // not an object at all
    assert!(is_schema_error(Registry::from_json(&Json::Array(Vec::new()))));
}

#[test]
fn registry_error_text() {
    assert_eq!(RegistryError::FileNotFound.to_string(), "[registry error] file not found");
    assert_eq!(
        RegistryError::InvalidVersion("x".to_string()).to_string(),
        "[registry error] invalid version: x"
    );
    let core = RegistryError::CoreError(CoreError::ValidationError("bad".to_string()));
    assert_eq!(
        core.to_string(),
        "[registry error] core error: [core error] validation error: bad"
    );
}

#[test]
fn json_error_text_has_prefix() {
    let err = serde_json::from_str::<serde_json::Value>("{").unwrap_err();
    let text = CoreError::JSONError(err).to_string();
    assert!(text.starts_with("[core error] json error: "));
    assert!(text.len() > "[core error] json error: ".len());
}

#[test]
fn analyze_parameters_build_and_check() {
    let params = AnalyzeParameters::new(
        Definition::from("orders"),
        FileVersion::from("1.0.0"),
        Language::from("Rust"),
        Architecture::from("Modular Monolith"),
    );
    assert!(params.additional_prompt.is_none());
    assert!(!params.use_c4 && !params.only_json);
    assert!(params.validate().is_ok());
    let params = params
        .with_additional_prompt("more".to_string())
        .with_use_c4(true)
        .with_only_json(true);
    assert_eq!(params.additional_prompt.as_deref(), Some("more"));
    assert!(params.use_c4 && params.only_json);
    assert!(params.validate().is_ok());

    let bad = AnalyzeParameters::new(
        Definition::from("orders"),
        FileVersion::from("1.0"),
        Language::from(""),
        Architecture::from("x"),
    );
    match bad.validate() {
        Err(CoreError::ValidationError(msg)) => {
            assert_eq!(msg, "File version can have at most three parts")
        }
        _ => panic!("Expected a validation error"),
    }
    let no_prompt = AnalyzeParameters::new(
        Definition::from("orders"),
        FileVersion::from("1.0.0"),
        Language::from("Rust"),
        Architecture::from("x"),
    )
    .with_additional_prompt(String::new());
    match no_prompt.validate() {
        Err(CoreError::ValidationError(msg)) => assert_eq!(msg, "Additional prompt cannot be empty"),
        _ => panic!("Expected a validation error"),
    }
    assert!(AdditionalPrompt::from("").validate().is_err());
    assert_eq!(Definition::from("orders").to_filename().as_str(), "orders");
}
