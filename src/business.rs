//! Business definitions: what a definition is made of, how it is checked, and how
//! defining one leads to a registry update.
use vstd::prelude::*;
use vstd::string::*;

use crate::error::{validate, CoreError, FsError, Validator, CORE_VALIDATION_PREFIX};
use crate::manager::{update_registry, Step};
use crate::registry::{FileName, RegistryError};
use crate::version::{version_fault_message, FileVersion, REGISTRY_VERSION_GENESIS};

verus! {

/// The directory, inside a project, that holds business definitions.
pub const BUSINESS_DIR_NAME: &'static str = "businesses";

pub const MSG_DEFINITION_EMPTY: &'static str = "Definition cannot be empty";

pub const MSG_LANGUAGE_EMPTY: &'static str = "Language cannot be empty";

pub const MSG_ARCHITECTURE_EMPTY: &'static str = "Architecture cannot be empty";

pub const MSG_PROMPT_EMPTY: &'static str = "Additional prompt cannot be empty";

pub const BUSINESS_NOT_FOUND_PREFIX: &'static str = "[business error] business definition not found: ";

pub const BUSINESS_EXISTS_PREFIX: &'static str = "[business error] business definition already exists: ";

pub const BUSINESS_INVALID_PREFIX: &'static str = "[business error] invalid business definition: ";

pub const BUSINESS_CORE_PREFIX: &'static str = "[business error] core error: ";

pub const BUSINESS_FS_PREFIX: &'static str = "[business error] fs error: ";

pub const BUSINESS_REGISTRY_PREFIX: &'static str = "[business error] registry error: ";

/// Errors of defining a business.
#[derive(Debug)]
pub enum BusinessError {
    NotFound(String),
    AlreadyExists(String),
    InvalidDefinition(String),
    CoreError(CoreError),
    FsError(FsError),
    RegistryError(RegistryError),
}

fn prefixed(prefix: &str, text: &str) -> (r: String)
    ensures
        r@ == prefix@ + text@,
{
    let mut out = String::from_str(prefix);
    out.append(text);
    out
}

impl BusinessError {
    /// The error as a line of text, prefixed by the kind of error.
    pub fn to_string(&self) -> (r: String)
        ensures
            match self {
                BusinessError::NotFound(m) => r@ == BUSINESS_NOT_FOUND_PREFIX@ + m@,
                BusinessError::AlreadyExists(m) => r@ == BUSINESS_EXISTS_PREFIX@ + m@,
                BusinessError::InvalidDefinition(m) => r@ == BUSINESS_INVALID_PREFIX@ + m@,
                BusinessError::FsError(e) => r@ == BUSINESS_FS_PREFIX@ + e.message@,
                BusinessError::CoreError(_) => r@.len() >= BUSINESS_CORE_PREFIX@.len()
                    && r@.subrange(0, BUSINESS_CORE_PREFIX@.len() as int) == BUSINESS_CORE_PREFIX@,
                BusinessError::RegistryError(_) => r@.len() >= BUSINESS_REGISTRY_PREFIX@.len()
                    && r@.subrange(0, BUSINESS_REGISTRY_PREFIX@.len() as int)
                    == BUSINESS_REGISTRY_PREFIX@,
            },
    {
        match self {
            BusinessError::NotFound(m) => prefixed(BUSINESS_NOT_FOUND_PREFIX, m.as_str()),
            BusinessError::AlreadyExists(m) => prefixed(BUSINESS_EXISTS_PREFIX, m.as_str()),
            BusinessError::InvalidDefinition(m) => prefixed(BUSINESS_INVALID_PREFIX, m.as_str()),
            BusinessError::FsError(e) => prefixed(BUSINESS_FS_PREFIX, e.message.as_str()),
            BusinessError::CoreError(e) => {
                let inner = e.to_string();
                let out = prefixed(BUSINESS_CORE_PREFIX, inner.as_str());
                proof {
                    assert(out@.subrange(0, BUSINESS_CORE_PREFIX@.len() as int) =~= BUSINESS_CORE_PREFIX@);
                }
                out
            },
            BusinessError::RegistryError(e) => {
                let inner = e.to_string();
                let out = prefixed(BUSINESS_REGISTRY_PREFIX, inner.as_str());
                proof {
                    assert(out@.subrange(0, BUSINESS_REGISTRY_PREFIX@.len() as int)
                        =~= BUSINESS_REGISTRY_PREFIX@);
                }
                out
            },
        }
    }
}

pub open spec fn nonempty_fault(s: Seq<char>, msg: Seq<char>) -> Option<Seq<char>> {
    if s.len() == 0 {
        Some(msg)
    } else {
        None
    }
}

fn check_nonempty(s: &String, msg: &str) -> (r: Result<(), CoreError>)
    ensures
        match nonempty_fault(s@, msg@) {
            None => r is Ok,
            Some(m) => r matches Err(CoreError::ValidationError(e)) && e@ == m,
        },
{
    if s.as_str().unicode_len() == 0 {
        Err(CoreError::validation(msg))
    } else {
        Ok(())
    }
}

/// The name of a business definition.
#[derive(Debug)]
pub struct Definition(pub String);

impl View for Definition {
    type V = Seq<char>;

    open spec fn view(&self) -> Seq<char> {
        self.0@
    }
}

impl Definition {
    pub fn as_str(&self) -> (r: &str)
        ensures
            r@ == self@,
    {
        self.0.as_str()
    }

    /// The registry file name that records this definition.
    pub fn to_filename(&self) -> (r: FileName)
        ensures
            r@ == self@,
    {
        FileName::from(self.as_str())
    }
}

impl From<String> for Definition {
    fn from(def: String) -> (r: Definition)
        ensures
            r@ == def@,
    {
        Definition(def)
    }
}

impl vstd::std_specs::convert::FromSpecImpl<String> for Definition {
    open spec fn obeys_from_spec() -> bool {
        true
    }

    open spec fn from_spec(v: String) -> Definition {
        Definition(v)
    }
}

impl<'a> From<&'a str> for Definition {
    fn from(def: &'a str) -> (r: Definition)
        ensures
            r@ == def@,
    {
        Definition(String::from_str(def))
    }
}

impl<'a> vstd::std_specs::convert::FromSpecImpl<&'a str> for Definition {
    open spec fn obeys_from_spec() -> bool {
        false
    }

    open spec fn from_spec(v: &'a str) -> Definition {
        arbitrary()
    }
}

impl Clone for Definition {
    fn clone(&self) -> (r: Definition)
        ensures
            r == *self,
    {
        Definition(self.0.clone())
    }
}

impl PartialEq for Definition {
    fn eq(&self, other: &Definition) -> (r: bool)
        ensures
            r == (self@ == other@),
    {
        self.0 == other.0
    }
}

impl vstd::std_specs::cmp::PartialEqSpecImpl for Definition {
    open spec fn obeys_eq_spec() -> bool {
        true
    }

    open spec fn eq_spec(&self, other: &Definition) -> bool {
        self@ == other@
    }
}

impl Validator for Definition {
    open spec fn fault(&self) -> Option<Seq<char>> {
        nonempty_fault(self@, MSG_DEFINITION_EMPTY@)
    }

    fn validate(&self) -> (r: Result<(), CoreError>) {
        check_nonempty(&self.0, MSG_DEFINITION_EMPTY)
    }
}

/// The programming language chosen for the technical stack.
#[derive(Debug)]
pub struct Language(pub String);

impl View for Language {
    type V = Seq<char>;

    open spec fn view(&self) -> Seq<char> {
        self.0@
    }
}

impl Language {
    pub fn as_str(&self) -> (r: &str)
        ensures
            r@ == self@,
    {
        self.0.as_str()
    }

    pub fn to_string(&self) -> (r: String)
        ensures
            r@ == self@,
    {
        self.0.clone()
    }
}

impl From<String> for Language {
    fn from(lang: String) -> (r: Language)
        ensures
            r@ == lang@,
    {
        Language(lang)
    }
}

impl vstd::std_specs::convert::FromSpecImpl<String> for Language {
    open spec fn obeys_from_spec() -> bool {
        true
    }

    open spec fn from_spec(v: String) -> Language {
        Language(v)
    }
}

impl<'a> From<&'a str> for Language {
    fn from(lang: &'a str) -> (r: Language)
        ensures
            r@ == lang@,
    {
        Language(String::from_str(lang))
    }
}

impl<'a> vstd::std_specs::convert::FromSpecImpl<&'a str> for Language {
    open spec fn obeys_from_spec() -> bool {
        false
    }

    open spec fn from_spec(v: &'a str) -> Language {
        arbitrary()
    }
}

impl Validator for Language {
    open spec fn fault(&self) -> Option<Seq<char>> {
        nonempty_fault(self@, MSG_LANGUAGE_EMPTY@)
    }

    fn validate(&self) -> (r: Result<(), CoreError>) {
        check_nonempty(&self.0, MSG_LANGUAGE_EMPTY)
    }
}

/// The architecture style chosen for the technical stack.
#[derive(Debug)]
pub struct Architecture(pub String);

impl View for Architecture {
    type V = Seq<char>;

    open spec fn view(&self) -> Seq<char> {
        self.0@
    }
}

impl From<String> for Architecture {
    fn from(arch: String) -> (r: Architecture)
        ensures
            r@ == arch@,
    {
        Architecture(arch)
    }
}

impl vstd::std_specs::convert::FromSpecImpl<String> for Architecture {
    open spec fn obeys_from_spec() -> bool {
        true
    }

    open spec fn from_spec(v: String) -> Architecture {
        Architecture(v)
    }
}

impl<'a> From<&'a str> for Architecture {
    fn from(arch: &'a str) -> (r: Architecture)
        ensures
            r@ == arch@,
    {
        Architecture(String::from_str(arch))
    }
}

impl<'a> vstd::std_specs::convert::FromSpecImpl<&'a str> for Architecture {
    open spec fn obeys_from_spec() -> bool {
        false
    }

    open spec fn from_spec(v: &'a str) -> Architecture {
        arbitrary()
    }
}

impl Validator for Architecture {
    open spec fn fault(&self) -> Option<Seq<char>> {
        nonempty_fault(self@, MSG_ARCHITECTURE_EMPTY@)
    }

    fn validate(&self) -> (r: Result<(), CoreError>) {
        check_nonempty(&self.0, MSG_ARCHITECTURE_EMPTY)
    }
}

/// Extra context for the analysis.
#[derive(Debug)]
pub struct AdditionalPrompt(pub String);

impl View for AdditionalPrompt {
    type V = Seq<char>;

    open spec fn view(&self) -> Seq<char> {
        self.0@
    }
}

impl AdditionalPrompt {
    pub fn as_str(&self) -> (r: &str)
        ensures
            r@ == self@,
    {
        self.0.as_str()
    }

    pub fn to_string(&self) -> (r: String)
        ensures
            r@ == self@,
    {
        self.0.clone()
    }
}

impl From<String> for AdditionalPrompt {
    fn from(prompt: String) -> (r: AdditionalPrompt)
        ensures
            r@ == prompt@,
    {
        AdditionalPrompt(prompt)
    }
}

impl vstd::std_specs::convert::FromSpecImpl<String> for AdditionalPrompt {
    open spec fn obeys_from_spec() -> bool {
        true
    }

    open spec fn from_spec(v: String) -> AdditionalPrompt {
        AdditionalPrompt(v)
    }
}

impl<'a> From<&'a str> for AdditionalPrompt {
    fn from(prompt: &'a str) -> (r: AdditionalPrompt)
        ensures
            r@ == prompt@,
    {
        AdditionalPrompt(String::from_str(prompt))
    }
}

impl<'a> vstd::std_specs::convert::FromSpecImpl<&'a str> for AdditionalPrompt {
    open spec fn obeys_from_spec() -> bool {
        false
    }

    open spec fn from_spec(v: &'a str) -> AdditionalPrompt {
        arbitrary()
    }
}

impl Validator for AdditionalPrompt {
    open spec fn fault(&self) -> Option<Seq<char>> {
        nonempty_fault(self@, MSG_PROMPT_EMPTY@)
    }

    fn validate(&self) -> (r: Result<(), CoreError>) {
        check_nonempty(&self.0, MSG_PROMPT_EMPTY)
    }
}

/// The parameters of analysing a business definition.
#[derive(Debug)]
pub struct AnalyzeParameters {
    pub definition: Definition,
    pub version: FileVersion,
    pub language: Language,
    pub architecture: Architecture,
    pub additional_prompt: Option<String>,
    pub use_c4: bool,
    pub only_json: bool,
}

/// The first fault among `faults`, in order.
pub open spec fn first_of(faults: Seq<Option<Seq<char>>>) -> Option<Seq<char>>
    decreases faults.len(),
{
    if faults.len() == 0 {
        None
    } else if faults[0] is Some {
        faults[0]
    } else {
        first_of(faults.drop_first())
    }
}

impl AnalyzeParameters {
    /// Parameters without an additional prompt, and with both flags off.
    pub fn new(
        definition: Definition,
        version: FileVersion,
        language: Language,
        architecture: Architecture,
    ) -> (r: AnalyzeParameters)
        ensures
            r.definition@ == definition@,
            r.version@ == version@,
            r.language@ == language@,
            r.architecture@ == architecture@,
            r.additional_prompt is None,
            !r.use_c4,
            !r.only_json,
    {
        AnalyzeParameters {
            definition,
            version,
            language,
            architecture,
            additional_prompt: None,
            use_c4: false,
            only_json: false,
        }
    }

    pub fn with_additional_prompt(self, additional_prompt: String) -> (r: AnalyzeParameters)
        ensures
            r == (AnalyzeParameters { additional_prompt: Some(additional_prompt), ..self }),
    {
        let mut out = self;
        out.additional_prompt = Some(additional_prompt);
        out
    }

    pub fn with_use_c4(self, use_c4: bool) -> (r: AnalyzeParameters)
        ensures
            r == (AnalyzeParameters { use_c4, ..self }),
    {
        let mut out = self;
        out.use_c4 = use_c4;
        out
    }

    pub fn with_only_json(self, only_json: bool) -> (r: AnalyzeParameters)
        ensures
            r == (AnalyzeParameters { only_json, ..self }),
    {
        let mut out = self;
        out.only_json = only_json;
        out
    }
}

/// What each rule of analysis parameters says of `a`, in the order they are checked:
/// the definition, the version, the language, the architecture, the additional prompt.
pub open spec fn analyze_faults(a: &AnalyzeParameters) -> Seq<Option<Seq<char>>> {
    seq![
        nonempty_fault(a.definition@, MSG_DEFINITION_EMPTY@),
        version_fault_message(a.version@),
        nonempty_fault(a.language@, MSG_LANGUAGE_EMPTY@),
        nonempty_fault(a.architecture@, MSG_ARCHITECTURE_EMPTY@),
        match a.additional_prompt {
            Some(p) => nonempty_fault(p@, MSG_PROMPT_EMPTY@),
            None => None,
        },
    ]
}

impl Validator for AnalyzeParameters {
    open spec fn fault(&self) -> Option<Seq<char>> {
        first_of(analyze_faults(self))
    }

    fn validate(&self) -> (r: Result<(), CoreError>) {
        let ghost faults = analyze_faults(self);
        proof {
            reveal_with_fuel(first_of, 6);
            assert(faults.drop_first() =~= faults.subrange(1, 5));
            assert(faults.subrange(1, 5).drop_first() =~= faults.subrange(2, 5));
            assert(faults.subrange(2, 5).drop_first() =~= faults.subrange(3, 5));
            assert(faults.subrange(3, 5).drop_first() =~= faults.subrange(4, 5));
            assert(faults.subrange(4, 5).drop_first() =~= Seq::<Option<Seq<char>>>::empty());
        }
        if let Err(e) = self.definition.validate() {
            return Err(e);
        }
        if let Err(e) = self.version.validate() {
            return Err(e);
        }
        if let Err(e) = self.language.validate() {
            return Err(e);
        }
        if let Err(e) = self.architecture.validate() {
            return Err(e);
        }
        match &self.additional_prompt {
            Some(prompt) => check_nonempty(prompt, MSG_PROMPT_EMPTY),
            None => Ok(()),
        }
    }
}

/// Creates the document of a business definition at a version. It is only ever
/// handed a definition with a name.
pub trait Processor {
    fn define(&self, definition: Definition, version: FileVersion) -> (r: Result<(), BusinessError>)
        requires
            definition@.len() > 0,
    ;
}

/// Defines businesses through a `Processor`, and records them in the registry.
pub struct App<P: Processor> {
    pub processor: P,
}

impl<P: Processor> App<P> {
    pub fn new(processor: P) -> (r: App<P>)
        ensures
            r.processor == processor,
    {
        App { processor }
    }

    /// Checks `definition`, has the processor define it at `version` (the genesis
    /// version where none is given), and then returns the first step of recording
    /// that version for the definition in the registry.
    pub fn define(&self, definition: Definition, version: Option<FileVersion>) -> (r: Result<
        Step,
        BusinessError,
    >)
        ensures
            definition@.len() == 0 ==> (r matches Err(BusinessError::InvalidDefinition(m)) && m@
                == CORE_VALIDATION_PREFIX@ + MSG_DEFINITION_EMPTY@),
            definition@.len() > 0 ==> (r matches Ok(step) ==> step matches Step::CheckRegistryFile(c)
                && c.file@ == definition@ && (c.version matches Some(v) && v@ == match version {
                Some(given) => given@,
                None => REGISTRY_VERSION_GENESIS@,
            })),
    {
        match validate(&definition) {
            Err(e) => {
                return Err(BusinessError::InvalidDefinition(e.to_string()));
            },
            Ok(()) => {},
        }
        let file_version = match version {
            Some(v) => v,
            None => FileVersion::new(),
        };
        match self.processor.define(definition.clone(), file_version.clone()) {
            Err(e) => Err(e),
            Ok(()) => Ok(update_registry(definition.to_filename(), file_version)),
        }
    }
}

} // verus!
