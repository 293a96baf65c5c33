//! The read-modify-write protocol of a registry file, as a machine of steps.
//!
//! An operation starts with `build_registry` or `update_registry`, which return the
//! first `Step`. The caller carries out each step against the filesystem and hands
//! what it found to the step's `answer`, which returns the next step, until the
//! operation stores a registry or fails. The caller does all the I/O; every decision
//! is made here.
use vstd::prelude::*;

use crate::error::{CoreError, FsError, FsErrorKind, Validator};
use crate::registry::{
    lookup, with_file, with_version, Directory, FileItem, FileItemModel,
    FileName, Registry, RegistryError, RegistryModel, MSG_NAME_EMPTY,
};
use crate::version::{
    fault_message, lemma_genesis_valid, version_fault, FileVersion, REGISTRY_VERSION_GENESIS,
};

verus! {

/// The name of the registry file inside the scope directory.
pub const REGISTRY_FILE_NAME: &'static str = "registry.json";

pub const MSG_DIR_MISSING: &'static str = "Output directory is missing or invalid";

pub const MSG_REGISTRY_EXISTS: &'static str = "Registry file already exists";

/// The entries of a registry after recording `version` for the file `name`: an entry
/// that is there gets the version (if it lacks it) and is added again; a file without
/// an entry gets a new entry that holds the genesis version only, not `version`.
pub open spec fn updated_files(
    files: Seq<FileItemModel>,
    name: Seq<char>,
    version: Seq<char>,
) -> Seq<FileItemModel> {
    match lookup(files, name) {
        Some(f) => with_file(
            files,
            FileItemModel { name: f.name, versions: with_version(f.versions, version) },
        ),
        None => with_file(
            files,
            FileItemModel { name, versions: seq![REGISTRY_VERSION_GENESIS@] },
        ),
    }
}

/// The registry that a new scope starts with: one entry for `name`, at the genesis version.
pub open spec fn initial_registry(directory: Seq<char>, name: Seq<char>) -> RegistryModel {
    RegistryModel {
        directory,
        files: seq![FileItemModel { name, versions: seq![REGISTRY_VERSION_GENESIS@] }],
    }
}

/// What the caller does next for a registry operation.
pub enum Step {
    /// Find out whether the scope directory exists, and tell `ScopeCheck::answer`.
    CheckScope(ScopeCheck),
    /// Find out whether the registry file exists, and tell `RegistryFileCheck::answer`.
    CheckRegistryFile(RegistryFileCheck),
    /// Find out the label of the scope directory, and tell `DirNameQuery::answer`.
    ResolveDirName(DirNameQuery),
    /// Read and decode the registry file, and hand the outcome to `LoadRequest::answer`.
    Load(LoadRequest),
    /// Write this registry to the registry file; the outcome of the write is the
    /// outcome of the operation.
    Store(Registry),
    /// The operation ends with this error; nothing is written.
    Fail(RegistryError),
}

/// Waiting to learn whether the scope directory exists.
pub struct ScopeCheck {
    pub file: FileName,
}

/// Waiting to learn whether the registry file exists. `version` is `Some` while
/// updating, `None` while building.
pub struct RegistryFileCheck {
    pub file: FileName,
    pub version: Option<FileVersion>,
}

/// Waiting to learn the label of the scope directory.
pub struct DirNameQuery {
    pub file: FileName,
}

/// Waiting for the registry that the registry file holds.
pub struct LoadRequest {
    pub file: FileName,
    pub version: FileVersion,
}

fn dir_missing() -> (e: RegistryError)
    ensures
        e matches RegistryError::FsError(fe) && fe.kind == FsErrorKind::NotFound && fe.message@
            == MSG_DIR_MISSING@,
{
    RegistryError::FsError(FsError::new(FsErrorKind::NotFound, MSG_DIR_MISSING))
}

/// Starts creating the registry of a scope, with one entry for `file`. It fails
/// where the scope directory is missing, where the registry file is already there,
/// where the scope has no label, or where `file` makes no valid entry.
pub fn build_registry(file: FileName) -> (r: Step)
    ensures
        r matches Step::CheckScope(c) && c.file@ == file@,
{
    Step::CheckScope(ScopeCheck { file })
}

/// Starts recording `version` for `file` in the registry of a scope. Where there is
/// no registry file yet, this turns into `build_registry(file)` and `version` is not
/// used; otherwise `version` is checked before the registry is read.
pub fn update_registry(file: FileName, version: FileVersion) -> (r: Step)
    ensures
        r matches Step::CheckRegistryFile(c) && c.file@ == file@ && (c.version matches Some(v)
            && v@ == version@),
{
    Step::CheckRegistryFile(RegistryFileCheck { file, version: Some(version) })
}

impl ScopeCheck {
    pub fn answer(self, scope_exists: bool) -> (r: Step)
        ensures
            !scope_exists ==> (r matches Step::Fail(RegistryError::FsError(e)) && e.kind
                == FsErrorKind::NotFound && e.message@ == MSG_DIR_MISSING@),
            scope_exists ==> (r matches Step::CheckRegistryFile(c) && c.file@ == self.file@
                && c.version is None),
    {
        if !scope_exists {
            return Step::Fail(dir_missing());
        }
        Step::CheckRegistryFile(RegistryFileCheck { file: self.file, version: None })
    }
}

impl RegistryFileCheck {
    pub fn answer(self, registry_exists: bool) -> (r: Step)
        ensures
            self.version is None && registry_exists ==> (r matches Step::Fail(
                RegistryError::FsError(e),
            ) && e.kind == FsErrorKind::AlreadyExists && e.message@ == MSG_REGISTRY_EXISTS@),
            self.version is None && !registry_exists ==> (r matches Step::ResolveDirName(q)
                && q.file@ == self.file@),
            self.version is Some && !registry_exists ==> (r matches Step::CheckScope(c) && c.file@
                == self.file@),
            registry_exists ==> (self.version matches Some(v) ==> match version_fault(v@) {
                Some(f) => r matches Step::Fail(RegistryError::CoreError(CoreError::ValidationError(m)))
                    && m@ == fault_message(f),
                None => r matches Step::Load(l) && l.file@ == self.file@ && l.version@ == v@,
            }),
    {
        match self.version {
            None => {
                if registry_exists {
                    Step::Fail(
                        RegistryError::FsError(
                            FsError::new(FsErrorKind::AlreadyExists, MSG_REGISTRY_EXISTS),
                        ),
                    )
                } else {
                    Step::ResolveDirName(DirNameQuery { file: self.file })
                }
            },
            Some(version) => {
                if !registry_exists {
                    return build_registry(self.file);
                }
                match version.validate() {
                    Err(e) => Step::Fail(RegistryError::CoreError(e)),
                    Ok(()) => Step::Load(LoadRequest { file: self.file, version }),
                }
            },
        }
    }
}

impl DirNameQuery {
    pub fn answer(self, dir_name: Option<String>) -> (r: Step)
        ensures
            match dir_name {
                None => r matches Step::Fail(RegistryError::FsError(e)) && e.kind
                    == FsErrorKind::NotFound && e.message@ == MSG_DIR_MISSING@,
                Some(d) => if self.file@.len() == 0 {
                    r matches Step::Fail(RegistryError::CoreError(CoreError::ValidationError(m)))
                        && m@ == MSG_NAME_EMPTY@
                } else {
                    r matches Step::Store(reg) && reg@ == initial_registry(d@, self.file@) && reg.wf()
                },
            },
    {
        match dir_name {
            None => Step::Fail(dir_missing()),
            Some(d) => {
                let ghost name = self.file@;
                let file_item = FileItem::new(self.file);
                proof {
                    lemma_genesis_valid();
                    let vs = file_item@.versions;
                    assert(vs.drop_first() =~= Seq::<Seq<char>>::empty());
                    assert(vs[0] == REGISTRY_VERSION_GENESIS@);
                    assert(crate::registry::first_version_fault(vs.drop_first()) is None);
                    assert(crate::registry::first_version_fault(vs) is None);
                }
                match crate::error::validate(&file_item) {
                    Err(e) => Step::Fail(RegistryError::CoreError(e)),
                    Ok(()) => {
                        let mut registry = Registry::new(Directory::from(d));
                        registry.add_file(file_item);
                        proof {
                            reveal(Seq::filter);
                            assert(registry@.files =~= initial_registry(registry@.directory, name).files);
                        }
                        Step::Store(registry)
                    },
                }
            },
        }
    }
}

/// `registry` after recording `version` for `file` (see `updated_files`).
pub fn apply_update(registry: Registry, file: &FileName, version: FileVersion) -> (r: Registry)
    ensures
        r@ == (RegistryModel {
            directory: registry@.directory,
            files: updated_files(registry@.files, file@, version@),
        }),
        registry.wf() ==> r.wf(),
{
    let mut registry = registry;
    let found = match registry.get_file(file) {
        Some(f) => Some(f.clone()),
        None => None,
    };
    match found {
        Some(mut item) => {
            proof {
                crate::registry::lemma_lookup_none(registry@.files, file@);
            }
            item.update(version);
            registry.add_file(item);
        },
        None => {
            registry.add_file(FileItem::new(file.clone()));
        },
    }
    registry
}

impl LoadRequest {
    pub fn answer(self, loaded: Result<Registry, RegistryError>) -> (r: Step)
        ensures
            loaded matches Err(e) ==> r == Step::Fail(e),
            loaded matches Ok(reg) ==> (r matches Step::Store(out) && out@ == (RegistryModel {
                directory: reg@.directory,
                files: updated_files(reg@.files, self.file@, self.version@),
            }) && (reg.wf() ==> out.wf())),
    {
        match loaded {
            Err(e) => Step::Fail(e),
            Ok(registry) => Step::Store(apply_update(registry, &self.file, self.version)),
        }
    }
}

} // verus!

verus! {

/// After recording `version` for `name`, the entry for `name` holds its earlier
/// versions with `version` recorded at the end; a name without an entry gets the
/// genesis version alone.
pub proof fn lemma_update_then_get(files: Seq<FileItemModel>, name: Seq<char>, version: Seq<char>)
    ensures
        lookup(updated_files(files, name, version), name) == match lookup(files, name) {
            Some(f) => Some(FileItemModel { name, versions: with_version(f.versions, version) }),
            None => Some(FileItemModel { name, versions: seq![REGISTRY_VERSION_GENESIS@] }),
        },
{
    crate::registry::lemma_lookup_none(files, name);
    match lookup(files, name) {
        Some(f) => {
            crate::registry::lemma_add_then_get(
                files,
                FileItemModel { name: f.name, versions: with_version(f.versions, version) },
            );
        },
        None => {
            crate::registry::lemma_add_then_get(
                files,
                FileItemModel { name, versions: seq![REGISTRY_VERSION_GENESIS@] },
            );
        },
    }
}

} // verus!
