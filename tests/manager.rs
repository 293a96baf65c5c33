use ddai::business::{App as BusinessApp, BusinessError, Definition, Processor};
use ddai::error::{CoreError, FsErrorKind};
use ddai::json::Json;
use ddai::manager::{build_registry, update_registry, Step};
use ddai::registry::{Directory, FileItem, FileName, Registry, RegistryError};
use ddai::version::FileVersion;

/// What the filesystem looks like to an operation, and what it records.
struct Scene {
    scope_exists: bool,
    registry_exists: bool,
    dir_name: Option<String>,
    on_disk: Option<Registry>,
    steps: Vec<&'static str>,
}

impl Scene {
    fn new(scope_exists: bool, registry_exists: bool, dir_name: Option<&str>) -> Scene {
        Scene {
            scope_exists,
            registry_exists,
            dir_name: dir_name.map(|d| d.to_string()),
            on_disk: None,
            steps: Vec::new(),
        }
    }

    fn with_registry(mut self, registry: Registry) -> Scene {
        self.registry_exists = true;
        self.on_disk = Some(registry);
        self
    }

    /// Runs the operation to its end: the stored registry, or the error.
    fn run(&mut self, first: Step) -> Result<Registry, RegistryError> {
        let mut step = first;
        loop {
            step = match step {
                Step::CheckScope(check) => {
                    self.steps.push("scope");
                    check.answer(self.scope_exists)
                }
                Step::CheckRegistryFile(check) => {
                    self.steps.push("registry");
                    check.answer(self.registry_exists)
                }
                Step::ResolveDirName(query) => {
                    self.steps.push("dir_name");
                    query.answer(self.dir_name.clone())
                }
                Step::Load(request) => {
                    self.steps.push("load");
                    let loaded = match &self.on_disk {
                        Some(registry) => Ok(registry.clone()),
                        None => Err(RegistryError::FileNotFound),
                    };
                    request.answer(loaded)
                }
                Step::Store(registry) => {
                    self.steps.push("store");
                    self.on_disk = Some(registry.clone());
                    self.registry_exists = true;
                    return Ok(registry);
                }
                Step::Fail(err) => return Err(err),
            };
        }
    }
}

fn versions_of(registry: &Registry, name: &str) -> Vec<String> {
    registry
        .get_file(&FileName::from(name))
        .map(|f| f.versions.iter().map(|v| v.to_string()).collect())
        .unwrap_or_default()
}

#[test]
fn test_build_registry() {
    let mut expected_registry = Registry::new(Directory::from("output"));
    expected_registry.add_file(FileItem::new(FileName::from("test_file")));

    let mut scene = Scene::new(true, false, Some("output"));
    let result = scene.run(build_registry(FileName::from("test_file")));

    assert!(result.is_ok());
    assert_eq!(result.unwrap(), expected_registry);
}

#[test]
fn test_build_registry_file_exists() {
    let mut scene = Scene::new(true, true, Some("output"));
    let result = scene.run(build_registry(FileName::from("test_file")));

    assert!(result.is_err());
    assert!(matches!(result, Err(RegistryError::FsError(_))));

    match result {
        Err(RegistryError::FsError(err)) => {
            assert_eq!(err.kind(), FsErrorKind::AlreadyExists);
            assert_eq!(err.to_string(), "Registry file already exists");
        }
        _ => panic!("Expected FsError"),
    }
}

#[test]
fn test_build_registry_missing_dir_name() {
    let mut scene = Scene::new(false, false, None);
    let result = scene.run(build_registry(FileName::from("test_file")));

    assert!(result.is_err());
    assert!(matches!(result, Err(RegistryError::FsError(_))));

    match result {
        Err(RegistryError::FsError(err)) => {
            assert_eq!(err.kind(), FsErrorKind::NotFound);
            assert_eq!(err.to_string(), "Output directory is missing or invalid");
        }
        _ => panic!("Expected FsError"),
    }
}

#[test]
fn test_build_registry_invalid_file_name() {
    let mut scene = Scene::new(true, false, Some("output"));
    let result = scene.run(build_registry(FileName::from("")));
    assert!(result.is_err());
    assert!(matches!(result, Err(RegistryError::CoreError(_))));

    match result {
        Err(RegistryError::CoreError(err)) => {
            assert_eq!(
                err.to_string(),
                "[core error] validation error: File name cannot be empty"
            );
        }
        _ => panic!("Expected CoreError"),
    }
}

#[test]
fn test_update_registry() {
    let mut registry = Registry::new(Directory::from("output"));
    let file_name = FileName::from("test_file");
    let file_version = FileVersion::from("1.0.0");
    let mut file_item = FileItem::new(file_name.clone());
    file_item.update(file_version.clone());
    registry.add_file(file_item);

    let cloned_registry = registry.clone();
    let mut scene = Scene::new(true, true, Some("output")).with_registry(registry);
    let result = scene.run(update_registry(
        FileName::from("test_file"),
        FileVersion::from("1.0.0"),
    ));
    assert!(result.is_ok());
    assert_eq!(result.unwrap(), cloned_registry);
}

#[test]
fn test_update_registry_file_not_exist() {
    let mut expected_registry = Registry::new(Directory::from("output"));
    expected_registry.add_file(FileItem::new(FileName::from("test_file")));

    let mut scene = Scene::new(true, false, Some("output"));
    let result = scene.run(update_registry(
        FileName::from("test_file"),
        FileVersion::from("1.0.0"),
    ));
    assert!(result.is_ok());
    assert_eq!(result.unwrap(), expected_registry);
    assert_eq!(scene.steps, vec!["registry", "scope", "registry", "dir_name", "store"]);
}

#[test]
fn test_update_registry_invalid_version() {
    let mut scene = Scene::new(true, true, Some("output"));
    let result = scene.run(update_registry(
        FileName::from("test_file"),
        FileVersion::from("invalid_version"),
    ));

    assert!(result.is_err());
    assert!(matches!(result, Err(RegistryError::CoreError(_))));

    match result {
        Err(RegistryError::CoreError(err)) => {
            assert_eq!(
                err.to_string(),
                "[core error] validation error: File version can only contain digit characters & dots"
            );
        }
        _ => panic!("Expected CoreError"),
    }
}

struct FakeProcessor {
    definition: &'static str,
    version: &'static str,
}

impl Processor for FakeProcessor {
    fn define(&self, definition: Definition, version: FileVersion) -> Result<(), BusinessError> {
        assert_eq!(definition, Definition::from(self.definition));
        assert_eq!(version, FileVersion::from(self.version));
        Ok(())
    }
}

#[test]
fn test_define_new_business_def() {
    let processor = FakeProcessor { definition: "test_file", version: "0.1.0" };
    let expected_registry = Registry::new(Directory::from("output"));
    let mut scene = Scene::new(true, true, Some("output")).with_registry(expected_registry);

    let manager = BusinessApp::new(processor);
    let result = manager
        .define(Definition::from("test_file"), None)
        .map(|step| scene.run(step));
    assert!(matches!(result, Ok(Ok(_))));
}

#[test]
fn test_define_existed_business_def() {
    let processor = FakeProcessor { definition: "test_file", version: "1.0.0" };

    let mut expected_file_item = FileItem::new(FileName::from("test_file"));
    expected_file_item.update(FileVersion::from("1.0.0"));

    let mut expected_registry = Registry::new(Directory::from("output"));
    expected_registry.add_file(expected_file_item);
    let mut scene = Scene::new(true, true, Some("output")).with_registry(expected_registry.clone());

    let manager = BusinessApp::new(processor);
    let result = manager
        .define(Definition::from("test_file"), Some(FileVersion::from("1.0.0")))
        .map(|step| scene.run(step));
    assert!(matches!(result, Ok(Ok(_))));
    assert_eq!(scene.on_disk, Some(expected_registry));
}

#[test]
fn define_refuses_an_empty_definition() {
    let processor = FakeProcessor { definition: "", version: "0.1.0" };
    let manager = BusinessApp::new(processor);
    match manager.define(Definition::from(""), None) {
        Err(BusinessError::InvalidDefinition(msg)) => assert_eq!(
            msg,
            "[core error] validation error: Definition cannot be empty"
        ),
        _ => panic!("Expected InvalidDefinition"),
    }
}

#[test]
fn build_in_empty_directory_writes_one_genesis_entry() {
    let mut scene = Scene::new(true, false, Some("docs"));
    let stored = scene.run(build_registry(FileName::from("readme"))).unwrap();
    assert_eq!(stored.directory.as_str(), "docs");
    assert_eq!(stored.files.len(), 1);
    assert_eq!(versions_of(&stored, "readme"), vec!["0.1.0"]);
    match stored.to_json() {
        Json::Object(fields) => {
            assert_eq!(fields.len(), 2);
            assert_eq!(fields[0].0, "directory");
            assert!(matches!(&fields[0].1, Json::Str(d) if d == "docs"));
            assert_eq!(fields[1].0, "files");
            match &fields[1].1 {
                Json::Array(entries) => {
                    assert_eq!(entries.len(), 1);
                    match &entries[0] {
                        Json::Object(entry) => {
                            assert_eq!(entry[0].0, "name");
                            assert!(matches!(&entry[0].1, Json::Str(n) if n == "readme"));
                            assert_eq!(entry[1].0, "versions");
                            match &entry[1].1 {
                                Json::Array(vs) => {
                                    assert_eq!(vs.len(), 1);
                                    assert!(matches!(&vs[0], Json::Str(v) if v == "0.1.0"));
                                }
                                _ => panic!("versions is not an array"),
                            }
                        }
                        _ => panic!("entry is not an object"),
                    }
                }
                _ => panic!("files is not an array"),
            }
        }
        _ => panic!("document is not an object"),
    }
}

#[test]
fn build_twice_fails_with_already_exists() {
    let mut scene = Scene::new(true, false, Some("docs"));
    assert!(scene.run(build_registry(FileName::from("readme"))).is_ok());
    match scene.run(build_registry(FileName::from("readme"))) {
        Err(RegistryError::FsError(err)) => {
            assert_eq!(err.kind(), FsErrorKind::AlreadyExists);
            assert_eq!(err.to_string(), "Registry file already exists");
        }
        _ => panic!("Expected FsError"),
    }
}

#[test]
fn update_existing_entry_appends_version() {
    let mut scene = Scene::new(true, false, Some("docs"));
    scene.run(build_registry(FileName::from("readme"))).unwrap();
    let stored = scene
        .run(update_registry(FileName::from("readme"), FileVersion::from("1.0.0")))
        .unwrap();
    assert_eq!(versions_of(&stored, "readme"), vec!["0.1.0", "1.0.0"]);
    assert_eq!(stored.files.len(), 1);
}

#[test]
fn update_missing_entry_gets_genesis_only() {
    let mut registry = Registry::new(Directory::from("docs"));
    registry.add_file(FileItem::new(FileName::from("readme")));
    let mut scene = Scene::new(true, true, Some("docs")).with_registry(registry);
    let stored = scene
        .run(update_registry(FileName::from("newfile"), FileVersion::from("1.0.0")))
        .unwrap();
    assert_eq!(versions_of(&stored, "newfile"), vec!["0.1.0"]);
    assert_eq!(versions_of(&stored, "readme"), vec!["0.1.0"]);
    assert_eq!(stored.files.len(), 2);
}

#[test]
fn update_with_bad_version_leaves_registry_untouched() {
    let mut registry = Registry::new(Directory::from("docs"));
    registry.add_file(FileItem::new(FileName::from("readme")));
    let mut scene = Scene::new(true, true, Some("docs")).with_registry(registry.clone());
    let result = scene.run(update_registry(
        FileName::from("readme"),
        FileVersion::from("bad.version"),
    ));
    match result {
        Err(RegistryError::CoreError(CoreError::ValidationError(msg))) => assert_eq!(
            msg,
            "File version can only contain digit characters & dots"
        ),
        _ => panic!("Expected a validation error"),
    }
    assert_eq!(scene.steps, vec!["registry"]);
    assert_eq!(scene.on_disk, Some(registry));
}

#[test]
fn update_passes_load_failure_through() {
    let mut scene = Scene::new(true, true, Some("docs"));
    let result = scene.run(update_registry(FileName::from("readme"), FileVersion::from("1.0.0")));
    assert!(matches!(result, Err(RegistryError::FileNotFound)));
    assert_eq!(scene.steps, vec!["registry", "load"]);
}

#[test]
fn build_without_directory_label_fails() {
    let mut scene = Scene::new(true, false, None);
    match scene.run(build_registry(FileName::from("readme"))) {
        Err(RegistryError::FsError(err)) => {
            assert_eq!(err.kind(), FsErrorKind::NotFound);
            assert_eq!(err.to_string(), "Output directory is missing or invalid");
        }
        _ => panic!("Expected FsError"),
    }
}
