//! A project: its name, an optional description and when it was created.
use vstd::prelude::*;
use vstd::string::*;

use crate::error::{validate, CoreError, FsError, Validator};

verus! {

pub const PROJECT_DIR_NAME: &'static str = ".ddai";

pub const PROJECT_FILE_NAME: &'static str = "project.json";

pub const PROJECT_CREDENTIAL_NAME: &'static str = "credentials.json";

pub const PROJECT_BUSINESS_DIR_NAME: &'static str = "businesses";

pub const PROJECT_KNOWLEDGE_DIR_NAME: &'static str = "knowledges";

pub const PROJECT_ARCHITECTURE_DIR_NAME: &'static str = "architectures";

pub const MSG_PROJECT_NAME_EMPTY: &'static str = "Project name cannot be empty";

pub const MSG_PROJECT_DESC_EMPTY: &'static str = "Project description cannot be empty";

pub const PROJECT_INITIATE_PREFIX: &'static str = "[project error] project unable to initiate: ";

pub const PROJECT_FS_PREFIX: &'static str = "[project error] filesystem error: ";

pub const PROJECT_VALIDATION_PREFIX: &'static str = "[project error] validation error: ";

/// Errors of setting up a project.
#[derive(Debug)]
pub enum ProjectError {
    InitiateError(String),
    FsError(FsError),
    ValidationError(CoreError),
}

impl ProjectError {
    /// The error as a line of text, prefixed by the kind of error.
    pub fn to_string(&self) -> (r: String)
        ensures
            match self {
                ProjectError::InitiateError(m) => r@ == PROJECT_INITIATE_PREFIX@ + m@,
                ProjectError::FsError(e) => r@ == PROJECT_FS_PREFIX@ + e.message@,
                ProjectError::ValidationError(e) => r@.len() >= PROJECT_VALIDATION_PREFIX@.len()
                    && r@.subrange(0, PROJECT_VALIDATION_PREFIX@.len() as int)
                    == PROJECT_VALIDATION_PREFIX@,
            },
    {
        match self {
            ProjectError::InitiateError(m) => {
                let mut out = String::from_str(PROJECT_INITIATE_PREFIX);
                out.append(m.as_str());
                out
            },
            ProjectError::FsError(e) => {
                let mut out = String::from_str(PROJECT_FS_PREFIX);
                out.append(e.message.as_str());
                out
            },
            ProjectError::ValidationError(e) => {
                let mut out = String::from_str(PROJECT_VALIDATION_PREFIX);
                let inner = e.to_string();
                out.append(inner.as_str());
                proof {
                    assert(out@.subrange(0, PROJECT_VALIDATION_PREFIX@.len() as int)
                        =~= PROJECT_VALIDATION_PREFIX@);
                }
                out
            },
        }
    }
}

/// The name of a project.
#[derive(Debug)]
pub struct Name(pub String);

impl View for Name {
    type V = Seq<char>;

    open spec fn view(&self) -> Seq<char> {
        self.0@
    }
}

impl Name {
    pub fn as_str(&self) -> (r: &str)
        ensures
            r@ == self@,
    {
        self.0.as_str()
    }

    pub fn to_string(&self) -> (r: String)
        ensures
            r@ == self@,
    {
        self.0.clone()
    }
}

impl Default for Name {
    fn default() -> (r: Name)
        ensures
            r@ == Seq::<char>::empty(),
    {
        Name(String::new())
    }
}

impl From<String> for Name {
    fn from(name: String) -> (r: Name)
        ensures
            r@ == name@,
    {
        Name(name)
    }
}

impl vstd::std_specs::convert::FromSpecImpl<String> for Name {
    open spec fn obeys_from_spec() -> bool {
        true
    }

    open spec fn from_spec(v: String) -> Name {
        Name(v)
    }
}

impl<'a> From<&'a str> for Name {
    fn from(name: &'a str) -> (r: Name)
        ensures
            r@ == name@,
    {
        Name(String::from_str(name))
    }
}

impl<'a> vstd::std_specs::convert::FromSpecImpl<&'a str> for Name {
    open spec fn obeys_from_spec() -> bool {
        false
    }

    open spec fn from_spec(v: &'a str) -> Name {
        arbitrary()
    }
}

impl Clone for Name {
    fn clone(&self) -> (r: Name)
        ensures
            r == *self,
    {
        Name(self.0.clone())
    }
}

/// The description of a project.
#[derive(Debug)]
pub struct Desc(pub String);

impl View for Desc {
    type V = Seq<char>;

    open spec fn view(&self) -> Seq<char> {
        self.0@
    }
}

impl Desc {
    pub fn as_str(&self) -> (r: &str)
        ensures
            r@ == self@,
    {
        self.0.as_str()
    }

    pub fn to_string(&self) -> (r: String)
        ensures
            r@ == self@,
    {
        self.0.clone()
    }
}

impl Default for Desc {
    fn default() -> (r: Desc)
        ensures
            r@ == Seq::<char>::empty(),
    {
        Desc(String::new())
    }
}

impl From<String> for Desc {
    fn from(desc: String) -> (r: Desc)
        ensures
            r@ == desc@,
    {
        Desc(desc)
    }
}

impl vstd::std_specs::convert::FromSpecImpl<String> for Desc {
    open spec fn obeys_from_spec() -> bool {
        true
    }

    open spec fn from_spec(v: String) -> Desc {
        Desc(v)
    }
}

impl<'a> From<&'a str> for Desc {
    fn from(desc: &'a str) -> (r: Desc)
        ensures
            r@ == desc@,
    {
        Desc(String::from_str(desc))
    }
}

impl<'a> vstd::std_specs::convert::FromSpecImpl<&'a str> for Desc {
    open spec fn obeys_from_spec() -> bool {
        false
    }

    open spec fn from_spec(v: &'a str) -> Desc {
        arbitrary()
    }
}

impl Clone for Desc {
    fn clone(&self) -> (r: Desc)
        ensures
            r == *self,
    {
        Desc(self.0.clone())
    }
}

/// A moment in UTC: whole seconds since the Unix epoch, and the nanoseconds past them.
#[derive(Debug, Clone, Copy, PartialEq, Eq, Structural)]
pub struct Timestamp {
    pub seconds: i64,
    pub nanos: u32,
}

/// The message of the first rule that a project with this name and description breaks.
pub open spec fn project_fault(name: Seq<char>, description: Option<Seq<char>>) -> Option<
    Seq<char>,
> {
    if name.len() == 0 {
        Some(MSG_PROJECT_NAME_EMPTY@)
    } else if description matches Some(d) && d.len() == 0 {
        Some(MSG_PROJECT_DESC_EMPTY@)
    } else {
        None
    }
}

pub open spec fn desc_view(d: Option<Desc>) -> Option<Seq<char>> {
    match d {
        Some(d) => Some(d@),
        None => None,
    }
}

/// A project, stamped with the moment it was made. The caller reads the clock.
#[derive(Debug)]
pub struct Project {
    pub name: Name,
    pub description: Option<Desc>,
    pub created_at: Timestamp,
}

impl Project {
    /// A project made at `created_at`.
    pub fn new(name: Name, description: Option<Desc>, created_at: Timestamp) -> (r: Project)
        ensures
            r.name@ == name@,
            desc_view(r.description) == desc_view(description),
            r.created_at == created_at,
    {
        Project { name, description, created_at }
    }
}

impl Default for Project {
    /// A project with an empty name and no description, stamped at the Unix epoch.
    fn default() -> (r: Project)
        ensures
            r.name@ == Seq::<char>::empty(),
            r.description is None,
            r.created_at == (Timestamp { seconds: 0, nanos: 0 }),
    {
        Project { name: Name::default(), description: None, created_at: Timestamp { seconds: 0, nanos: 0 } }
    }
}

impl Validator for Project {
    open spec fn fault(&self) -> Option<Seq<char>> {
        project_fault(self.name@, desc_view(self.description))
    }

    fn validate(&self) -> (r: Result<(), CoreError>) {
        if self.name.as_str().unicode_len() == 0 {
            return Err(CoreError::validation(MSG_PROJECT_NAME_EMPTY));
        }
        match &self.description {
            Some(desc) => {
                if desc.as_str().unicode_len() == 0 {
                    return Err(CoreError::validation(MSG_PROJECT_DESC_EMPTY));
                }
            },
            None => {},
        }
        Ok(())
    }
}

/// Lays out a project on disk. It is only ever handed a project that breaks no rule.
pub trait Builder {
    fn initiate(&self, project: Project) -> (r: Result<(), ProjectError>)
        requires
            project_fault(project.name@, desc_view(project.description)) is None,
    ;
}

/// Sets up projects through a `Builder`.
pub struct App<T: Builder> {
    pub builder: T,
}

impl<T: Builder> App<T> {
    pub fn new(builder: T) -> (r: App<T>)
        ensures
            r.builder == builder,
    {
        App { builder }
    }

    /// Makes a project of `name` and `desc`, stamped `created_at`, checks it, and hands
    /// it to the builder. A project that breaks a rule never reaches the builder (its
    /// `requires` says so); a builder failure comes back as an initiate error.
    pub fn init(&self, name: Name, desc: Option<Desc>, created_at: Timestamp) -> (r: Result<
        (),
        ProjectError,
    >)
        ensures
            match project_fault(name@, desc_view(desc)) {
                Some(m) => r matches Err(ProjectError::ValidationError(CoreError::ValidationError(e)))
                    && e@ == m,
                None => r is Ok || (r matches Err(ProjectError::InitiateError(_))),
            },
    {
        let project = Project::new(name, desc, created_at);
        match validate(&project) {
            Err(err) => Err(ProjectError::ValidationError(err)),
            Ok(()) => match self.builder.initiate(project) {
                Ok(()) => Ok(()),
                Err(err) => Err(ProjectError::InitiateError(err.to_string())),
            },
        }
    }
}

} // verus!
