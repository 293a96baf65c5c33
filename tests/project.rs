use ddai::error::{validate, CoreError};
use ddai::project::{App, Builder, Desc, Name, Project, ProjectError, Timestamp};

const STAMP: Timestamp = Timestamp { seconds: 1_700_000_000, nanos: 0 };

#[test]
fn test_project_creation() {
    let project = Project::new(
        Name::from("Test Project"),
        Some(Desc::from("This is a test project.")),
        STAMP,
    );
    assert_eq!(project.name.as_str(), "Test Project");
    assert_eq!(project.created_at, STAMP);
    assert_eq!(
        project.description.unwrap().as_str(),
        "This is a test project."
    );
}

#[test]
fn test_default_project() {
    let project: Project = Default::default();
    assert_eq!(project.name.as_str(), "");
    assert!(project.description.is_none());
    assert_eq!(project.created_at, Timestamp { seconds: 0, nanos: 0 });
}

#[test]
fn empty_name() {
    let project = Project::new(Name::default(), None, STAMP);
    let result = validate(&project);
    assert!(result.is_err());

    let err = result.unwrap_err();
    assert!(matches!(err, CoreError::ValidationError(_)));
    assert!(err.to_string().contains("Project name cannot be empty"));
}

#[test]
fn empty_description() {
    let project = Project::new(Name::from("Valid Name"), Some(Desc::default()), STAMP);
    let result = validate(&project);
    assert!(result.is_err());

    let err = result.unwrap_err();
    assert!(matches!(err, CoreError::ValidationError(_)));
    assert!(err
        .to_string()
        .contains("Project description cannot be empty"));
}

struct FakeAppBuilder {
    outcome: Option<&'static str>,
}

impl Builder for FakeAppBuilder {
    fn initiate(&self, project: Project) -> Result<(), ProjectError> {
        assert!(!project.name.as_str().is_empty(), "an invalid project reached the builder");
        match self.outcome {
            None => Ok(()),
            Some(msg) => Err(ProjectError::InitiateError(msg.to_string())),
        }
    }
}

#[test]
fn test_fail_on_validation() {
    let builder = FakeAppBuilder { outcome: None };

    let app = App::new(builder);
    let name = Name::from(""); // Empty name to trigger validation error
    let desc = Some(Desc::from("This is a test project"));

    let result = app.init(name, desc, STAMP);
    assert!(result.is_err());

    let err = result.unwrap_err();
    assert!(matches!(err, ProjectError::ValidationError(_)));
    match err {
        ProjectError::ValidationError(msg) => {
            assert!(msg.to_string().contains("Project name cannot be empty"))
        }
        _ => panic!("Expected ValidationError"),
    }
}

#[test]
fn test_initiate_error() {
    let builder = FakeAppBuilder { outcome: Some("Failed to initiate") };

    let app = App::new(builder);
    let name = Name::from("Test Project");
    let desc = Some(Desc::from("This is a test project"));

    let result = app.init(name, desc, STAMP);
    assert!(result.is_err());

    let err = result.unwrap_err();
    assert!(matches!(err, ProjectError::InitiateError(_)));
    match err {
        ProjectError::InitiateError(msg) => assert!(msg.contains("Failed to initiate")),
        _ => panic!("Expected InitiateError"),
    }
}

#[test]
fn test_successful_initiation() {
    let builder = FakeAppBuilder { outcome: None };

    let app = App::new(builder);
    let name = Name::from("Test Project");
    let desc = Some(Desc::from("This is a test project"));

    let result = app.init(name, desc, STAMP);
    assert!(result.is_ok());
}

#[test]
fn project_error_text_carries_prefix() {
    let err = ProjectError::InitiateError("boom".to_string());
    assert_eq!(err.to_string(), "[project error] project unable to initiate: boom");
    let err = ProjectError::ValidationError(CoreError::ValidationError("bad".to_string()));
    assert_eq!(
        err.to_string(),
        "[project error] validation error: [core error] validation error: bad"
    );
}

#[test]
fn name_and_desc_text() {
    let name = Name::from("Sample".to_string());
    assert_eq!(name.as_str(), "Sample");
    assert_eq!(name.to_string(), "Sample");
    let desc = Desc::from("About it");
    assert_eq!(desc.as_str(), "About it");
    assert_eq!(desc.to_string(), "About it");
    assert_eq!(Desc::default().as_str(), "");
}
