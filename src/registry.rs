use vstd::prelude::*;
use vstd::string::*;

use crate::error::{CoreError, FsError, Validator};
use crate::version::{version_fault_message, FileVersion, REGISTRY_VERSION_GENESIS};

verus! {

pub const MSG_NAME_EMPTY: &'static str = "File name cannot be empty";

pub const MSG_NO_VERSION: &'static str = "File must have at least one version";

/// The name of a tracked file.
#[derive(Debug)]
pub struct FileName(pub String);

impl View for FileName {
    type V = Seq<char>;

    open spec fn view(&self) -> Seq<char> {
        self.0@
    }
}

impl FileName {
    pub fn as_str(&self) -> (r: &str)
        ensures
            r@ == self@,
    {
        self.0.as_str()
    }

    pub fn to_string(&self) -> (r: String)
        ensures
            r@ == self@,
    {
        self.0.clone()
    }
}

impl From<String> for FileName {
    fn from(name: String) -> (r: FileName)
        ensures
            r@ == name@,
    {
        FileName(name)
    }
}

impl vstd::std_specs::convert::FromSpecImpl<String> for FileName {
    open spec fn obeys_from_spec() -> bool {
        true
    }

    open spec fn from_spec(v: String) -> FileName {
        FileName(v)
    }
}

impl<'a> From<&'a str> for FileName {
    fn from(name: &'a str) -> (r: FileName)
        ensures
            r@ == name@,
    {
        FileName(String::from_str(name))
    }
}

impl<'a> vstd::std_specs::convert::FromSpecImpl<&'a str> for FileName {
    open spec fn obeys_from_spec() -> bool {
        false
    }

    open spec fn from_spec(v: &'a str) -> FileName {
        arbitrary()
    }
}

impl Clone for FileName {
    fn clone(&self) -> (r: FileName)
        ensures
            r == *self,
    {
        FileName(self.0.clone())
    }
}

impl PartialEq for FileName {
    fn eq(&self, other: &FileName) -> (r: bool)
        ensures
            r == (self@ == other@),
    {
        self.0 == other.0
    }
}

impl vstd::std_specs::cmp::PartialEqSpecImpl for FileName {
    open spec fn obeys_eq_spec() -> bool {
        true
    }

    open spec fn eq_spec(&self, other: &FileName) -> bool {
        self@ == other@
    }
}

/// The label of the directory that a registry describes.
#[derive(Debug)]
pub struct Directory(pub String);

impl View for Directory {
    type V = Seq<char>;

    open spec fn view(&self) -> Seq<char> {
        self.0@
    }
}

impl Directory {
    pub fn as_str(&self) -> (r: &str)
        ensures
            r@ == self@,
    {
        self.0.as_str()
    }

    pub fn to_string(&self) -> (r: String)
        ensures
            r@ == self@,
    {
        self.0.clone()
    }
}

impl From<String> for Directory {
    fn from(dir: String) -> (r: Directory)
        ensures
            r@ == dir@,
    {
        Directory(dir)
    }
}

impl vstd::std_specs::convert::FromSpecImpl<String> for Directory {
    open spec fn obeys_from_spec() -> bool {
        true
    }

    open spec fn from_spec(v: String) -> Directory {
        Directory(v)
    }
}

impl<'a> From<&'a str> for Directory {
    fn from(dir: &'a str) -> (r: Directory)
        ensures
            r@ == dir@,
    {
        Directory(String::from_str(dir))
    }
}

impl<'a> vstd::std_specs::convert::FromSpecImpl<&'a str> for Directory {
    open spec fn obeys_from_spec() -> bool {
        false
    }

    open spec fn from_spec(v: &'a str) -> Directory {
        arbitrary()
    }
}

impl Clone for Directory {
    fn clone(&self) -> (r: Directory)
        ensures
            r == *self,
    {
        Directory(self.0.clone())
    }
}

impl PartialEq for Directory {
    fn eq(&self, other: &Directory) -> (r: bool)
        ensures
            r == (self@ == other@),
    {
        self.0 == other.0
    }
}

impl vstd::std_specs::cmp::PartialEqSpecImpl for Directory {
    open spec fn obeys_eq_spec() -> bool {
        true
    }

    open spec fn eq_spec(&self, other: &Directory) -> bool {
        self@ == other@
    }
}

/// A file entry as a value: its name and its versions, oldest first.
pub ghost struct FileItemModel {
    pub name: Seq<char>,
    pub versions: Seq<Seq<char>>,
}

/// `vs` after recording `v`: unchanged if `v` is already there, else `v` appended.
pub open spec fn with_version(vs: Seq<Seq<char>>, v: Seq<char>) -> Seq<Seq<char>> {
    if vs.contains(v) {
        vs
    } else {
        vs.push(v)
    }
}

/// The message of the first version in `vs` that breaks a version rule.
pub open spec fn first_version_fault(vs: Seq<Seq<char>>) -> Option<Seq<char>>
    decreases vs.len(),
{
    if vs.len() == 0 {
        None
    } else {
        match version_fault_message(vs[0]) {
            Some(m) => Some(m),
            None => first_version_fault(vs.drop_first()),
        }
    }
}

/// The message of the first rule that the file entry `f` breaks.
pub open spec fn file_item_fault(f: FileItemModel) -> Option<Seq<char>> {
    if f.name.len() == 0 {
        Some(MSG_NAME_EMPTY@)
    } else if f.versions.len() == 0 {
        Some(MSG_NO_VERSION@)
    } else {
        first_version_fault(f.versions)
    }
}

/// A tracked file and the versions recorded for it, oldest first.
#[derive(Debug)]
pub struct FileItem {
    pub name: FileName,
    pub versions: Vec<FileVersion>,
}

impl View for FileItem {
    type V = FileItemModel;

    open spec fn view(&self) -> FileItemModel {
        FileItemModel { name: self.name@, versions: self.versions@.map_values(|v: FileVersion| v@) }
    }
}

impl FileItem {
    /// The entry holds at least one version, and no version twice.
    pub open spec fn wf(&self) -> bool {
        self@.versions.len() > 0 && self@.versions.no_duplicates()
    }

    /// A new entry for `name`, holding the genesis version alone.
    pub fn new(name: FileName) -> (r: FileItem)
        ensures
            r@ == (FileItemModel { name: name@, versions: seq![REGISTRY_VERSION_GENESIS@] }),
            r.wf(),
    {
        let mut versions = Vec::<FileVersion>::new();
        versions.push(FileVersion::new());
        let r = FileItem { name, versions };
        proof {
            assert(r@.versions =~= seq![REGISTRY_VERSION_GENESIS@]);
        }
        r
    }

    /// The most recently recorded version.
    pub fn get_last_version(&self) -> (r: Option<FileVersion>)
        ensures
            match r {
                None => self@.versions.len() == 0,
                Some(v) => self@.versions.len() > 0 && v@ == self@.versions.last(),
            },
    {
        let n = self.versions.len();
        if n == 0 {
            None
        } else {
            Some(self.versions[n - 1].clone())
        }
    }

    /// Records `version` at the end, unless it is already recorded.
    pub fn update(&mut self, version: FileVersion)
        ensures
            final(self)@ == (FileItemModel {
                name: old(self)@.name,
                versions: with_version(old(self)@.versions, version@),
            }),
            old(self).wf() ==> final(self).wf(),
    {
        let ghost vs = self@.versions;
        let n = self.versions.len();
        let mut i: usize = 0;
        while i < n
            invariant
                n == self.versions@.len(),
                vs == self@.versions,
                i <= n,
                forall|k: int| 0 <= k < i ==> vs[k] != version@,
            decreases n - i,
        {
            if self.versions[i] == version {
                proof {
                    assert(vs[i as int] == version@);
                }
                return;
            }
            i = i + 1;
        }
        proof {
            assert(!vs.contains(version@));
        }
        self.versions.push(version);
        proof {
            assert(self@.versions =~= vs.push(version@));
            let nv = self@.versions;
            assert forall|a: int, b: int|
                0 <= a < nv.len() && 0 <= b < nv.len() && a != b && vs.no_duplicates() implies nv[a]
                != nv[b] by {
                if a < vs.len() && b < vs.len() {
                } else if a < vs.len() {
                    assert(nv[a] == vs[a]);
                } else {
                    assert(nv[b] == vs[b]);
                }
            }
        }
    }
}

impl<'a> From<&'a FileItem> for FileItem {
    fn from(file_item: &'a FileItem) -> (r: FileItem)
        ensures
            r@ == file_item@,
    {
        file_item.clone()
    }
}

impl<'a> vstd::std_specs::convert::FromSpecImpl<&'a FileItem> for FileItem {
    open spec fn obeys_from_spec() -> bool {
        false
    }

    open spec fn from_spec(v: &'a FileItem) -> FileItem {
        arbitrary()
    }
}

impl Clone for FileItem {
    fn clone(&self) -> (r: FileItem)
        ensures
            r@ == self@,
    {
        let r = FileItem { name: self.name.clone(), versions: self.versions.clone() };
        proof {
            assert(r.versions@ =~= self.versions@);
            assert(r@.versions =~= self@.versions);
        }
        r
    }
}

impl PartialEq for FileItem {
    fn eq(&self, other: &FileItem) -> (r: bool)
        ensures
            r == (self@ == other@),
    {
        if self.name != other.name {
            return false;
        }
        let n = self.versions.len();
        if n != other.versions.len() {
            proof {
                assert(self@.versions.len() != other@.versions.len());
            }
            return false;
        }
        let mut i: usize = 0;
        while i < n
            invariant
                n == self.versions@.len(),
                n == other.versions@.len(),
                i <= n,
                forall|k: int| 0 <= k < i ==> self@.versions[k] == other@.versions[k],
            decreases n - i,
        {
            if self.versions[i] != other.versions[i] {
                proof {
                    assert(self@.versions[i as int] != other@.versions[i as int]);
                }
                return false;
            }
            i = i + 1;
        }
        proof {
            assert(self@.versions =~= other@.versions);
        }
        true
    }
}

impl vstd::std_specs::cmp::PartialEqSpecImpl for FileItem {
    open spec fn obeys_eq_spec() -> bool {
        true
    }

    open spec fn eq_spec(&self, other: &FileItem) -> bool {
        self@ == other@
    }
}

impl Validator for FileItem {
    open spec fn fault(&self) -> Option<Seq<char>> {
        file_item_fault(self@)
    }

    fn validate(&self) -> (r: Result<(), CoreError>) {
        let name_len = self.name.as_str().unicode_len();
        if name_len == 0 {
            return Err(CoreError::validation(MSG_NAME_EMPTY));
        }

        let n = self.versions.len();
        if n == 0 {
            return Err(CoreError::validation(MSG_NO_VERSION));
        }
        let ghost vs = self@.versions;
        let mut i: usize = 0;
        proof {
            assert(vs.skip(0) =~= vs);
        }
        while i < n
            invariant
                n == vs.len(),
                vs == self@.versions,
                self@.name.len() > 0,
                i <= n,
                first_version_fault(vs) == first_version_fault(vs.skip(i as int)),
            decreases n - i,
        {
            let checked = self.versions[i].validate();
            match checked {
                Err(e) => {
                    proof {
                        assert(vs.skip(i as int)[0] == vs[i as int]);
                        assert(vs[i as int] == self.versions@[i as int]@);
                        assert(version_fault_message(vs[i as int]) is Some);
                        assert(first_version_fault(vs.skip(i as int)) == version_fault_message(
                            vs[i as int],
                        ));
                
                    }
                    return Err(e);
                },
                Ok(()) => {
                    proof {
                        assert(vs.skip(i as int)[0] == vs[i as int]);
                        assert(vs.skip(i as int).drop_first() =~= vs.skip(i as int + 1));
                    }
                },
            }
            i = i + 1;
        }
        proof {
            assert(vs.skip(n as int) =~= Seq::<Seq<char>>::empty());
        }
        Ok(())
    }
}

} // verus!

verus! {

/// A registry as a value: the directory label and the file entries, in order.
pub ghost struct RegistryModel {
    pub directory: Seq<char>,
    pub files: Seq<FileItemModel>,
}

/// No two entries of `files` share a name.
pub open spec fn names_unique(files: Seq<FileItemModel>) -> bool {
    forall|i: int, j: int|
        0 <= i < files.len() && 0 <= j < files.len() && i != j ==> #[trigger] files[i].name
            != #[trigger] files[j].name
}

/// `files` without the entries named `name`, the others kept in order.
pub open spec fn without(files: Seq<FileItemModel>, name: Seq<char>) -> Seq<FileItemModel> {
    files.filter(|f: FileItemModel| f.name != name)
}

/// `files` after adding `f`: any entry of the same name is dropped and `f` goes last.
pub open spec fn with_file(files: Seq<FileItemModel>, f: FileItemModel) -> Seq<FileItemModel> {
    without(files, f.name).push(f)
}

/// The first entry of `files` named `name`.
pub open spec fn lookup(files: Seq<FileItemModel>, name: Seq<char>) -> Option<FileItemModel>
    decreases files.len(),
{
    if files.len() == 0 {
        None
    } else if files[0].name == name {
        Some(files[0])
    } else {
        lookup(files.drop_first(), name)
    }
}

pub open spec fn has_name(files: Seq<FileItemModel>, name: Seq<char>) -> bool {
    exists|i: int| 0 <= i < files.len() && (#[trigger] files[i]).name == name
}

proof fn lemma_lookup_skip(files: Seq<FileItemModel>, name: Seq<char>, i: int)
    requires
        0 <= i <= files.len(),
        forall|k: int| 0 <= k < i ==> (#[trigger] files[k]).name != name,
    ensures
        lookup(files, name) == lookup(files.skip(i), name),
    decreases i,
{
    if i > 0 {
        assert(files.skip(1) =~= files.drop_first());
        let rest = files.drop_first();
        assert forall|k: int| 0 <= k < i - 1 implies (#[trigger] rest[k]).name != name by {
            assert(rest[k] == files[k + 1]);
        }
        lemma_lookup_skip(rest, name, i - 1);
        assert(rest.skip(i - 1) =~= files.skip(i));
    } else {
        assert(files.skip(0) =~= files);
    }
}

pub(crate) proof fn lemma_lookup_none(files: Seq<FileItemModel>, name: Seq<char>)
    ensures
        lookup(files, name) is None <==> !has_name(files, name),
        lookup(files, name) matches Some(f) ==> f.name == name,
    decreases files.len(),
{
    if files.len() > 0 {
        let rest = files.drop_first();
        lemma_lookup_none(rest, name);
        if has_name(rest, name) {
            let k = choose|k: int| 0 <= k < rest.len() && (#[trigger] rest[k]).name == name;
            assert(files[k + 1] == rest[k]);
        }
        if has_name(files, name) && files[0].name != name {
            let k = choose|k: int| 0 <= k < files.len() && (#[trigger] files[k]).name == name;
            assert(rest[k - 1] == files[k]);
        }
    }
}

/// Dropping entries of a name that no entry has changes nothing.
proof fn lemma_without_absent(files: Seq<FileItemModel>, name: Seq<char>)
    requires
        !has_name(files, name),
    ensures
        without(files, name) == files,
    decreases files.len(),
{
    reveal(Seq::filter);
    if files.len() > 0 {
        let init = files.drop_last();
        assert(!has_name(init, name)) by {
            if has_name(init, name) {
                let k = choose|k: int| 0 <= k < init.len() && (#[trigger] init[k]).name == name;
                assert(files[k] == init[k]);
            }
        }
        lemma_without_absent(init, name);
        assert(files.last() == files[files.len() - 1]);
        assert(init.push(files.last()) =~= files);
    }
}

proof fn lemma_without_step(files: Seq<FileItemModel>, name: Seq<char>, k: int)
    requires
        0 <= k < files.len(),
    ensures
        without(files.take(k + 1), name) == if files[k].name != name {
            without(files.take(k), name).push(files[k])
        } else {
            without(files.take(k), name)
        },
{
    reveal(Seq::filter);
    assert(files.take(k + 1).drop_last() =~= files.take(k));
    assert(files.take(k + 1).last() == files[k]);
}

/// The names left after dropping `name` are all other than `name`, and each was there before.
proof fn lemma_without_names(files: Seq<FileItemModel>, name: Seq<char>)
    ensures
        !has_name(without(files, name), name),
        forall|n: Seq<char>| has_name(without(files, name), n) ==> has_name(files, n),
        names_unique(files) ==> names_unique(without(files, name)),
        has_name(files, name) && names_unique(files) ==> without(files, name).len() + 1
            == files.len(),
        !has_name(files, name) ==> without(files, name).len() == files.len(),
    decreases files.len(),
{
    reveal(Seq::filter);
    let w = without(files, name);
    if files.len() == 0 {
        assert(w.len() == 0);
    } else {
        let init = files.drop_last();
        let last = files.last();
        lemma_without_names(init, name);
        let wi = without(init, name);
        assert forall|n: Seq<char>| has_name(init, n) implies has_name(files, n) by {
            let k = choose|k: int| 0 <= k < init.len() && (#[trigger] init[k]).name == n;
            assert(files[k] == init[k]);
        }
        assert(files[files.len() - 1] == last);
        if last.name != name {
            assert(w == wi.push(last));
            assert forall|n: Seq<char>| has_name(w, n) implies has_name(files, n) by {
                let k = choose|k: int| 0 <= k < w.len() && (#[trigger] w[k]).name == n;
                if k < wi.len() {
                    assert(w[k] == wi[k]);
                    assert(has_name(wi, n));
                }
            }
            if has_name(w, name) {
                let k = choose|k: int| 0 <= k < w.len() && (#[trigger] w[k]).name == name;
                assert(w[k] == wi[k]);
            }
            if names_unique(files) {
                assert(names_unique(init)) by {
                    assert forall|i: int, j: int|
                        0 <= i < init.len() && 0 <= j < init.len() && i != j implies #[trigger] init[i].name
                        != #[trigger] init[j].name by {
                        assert(init[i] == files[i] && init[j] == files[j]);
                    }
                }
                assert forall|i: int, j: int|
                    0 <= i < w.len() && 0 <= j < w.len() && i != j implies #[trigger] w[i].name
                    != #[trigger] w[j].name by {
                    if i < wi.len() && j < wi.len() {
                        assert(w[i] == wi[i] && w[j] == wi[j]);
                    } else if i < wi.len() {
                        assert(w[i] == wi[i]);
                        assert(has_name(wi, w[i].name));
                        assert(has_name(init, w[i].name));
                        let k = choose|k: int|
                            0 <= k < init.len() && (#[trigger] init[k]).name == w[i].name;
                        assert(files[k] == init[k]);
                    } else if j < wi.len() {
                        assert(w[j] == wi[j]);
                        assert(has_name(wi, w[j].name));
                        assert(has_name(init, w[j].name));
                        let k = choose|k: int|
                            0 <= k < init.len() && (#[trigger] init[k]).name == w[j].name;
                        assert(files[k] == init[k]);
                    }
                }
                if has_name(files, name) {
                    let k = choose|k: int| 0 <= k < files.len() && (#[trigger] files[k]).name == name;
                    assert(k < init.len());
                    assert(init[k] == files[k]);
                }
            }
            if !has_name(files, name) {
                assert(!has_name(init, name));
            }
        } else {
            assert(w == wi);
            if names_unique(files) {
                assert(names_unique(init)) by {
                    assert forall|i: int, j: int|
                        0 <= i < init.len() && 0 <= j < init.len() && i != j implies #[trigger] init[i].name
                        != #[trigger] init[j].name by {
                        assert(init[i] == files[i] && init[j] == files[j]);
                    }
                }
                assert(!has_name(init, name)) by {
                    if has_name(init, name) {
                        let k = choose|k: int| 0 <= k < init.len() && (#[trigger] init[k]).name == name;
                        assert(files[k] == init[k]);
                    }
                }
            }
        }
    }
}

/// A registry of file entries for one directory.
///
/// Its invariant (`wf`) is that no two entries share a name.
#[derive(Debug)]
pub struct Registry {
    pub directory: Directory,
    pub files: Vec<FileItem>,
}

impl View for Registry {
    type V = RegistryModel;

    open spec fn view(&self) -> RegistryModel {
        RegistryModel {
            directory: self.directory@,
            files: self.files@.map_values(|f: FileItem| f@),
        }
    }
}

impl Registry {
    pub open spec fn wf(&self) -> bool {
        names_unique(self@.files)
    }

    /// An empty registry for `directory`.
    pub fn new(directory: Directory) -> (r: Registry)
        ensures
            r@ == (RegistryModel { directory: directory@, files: Seq::empty() }),
            r.wf(),
    {
        let r = Registry { directory, files: Vec::new() };
        proof {
            assert(r@.files =~= Seq::<FileItemModel>::empty());
        }
        r
    }

    /// Drops every entry named `file_name`; a name that is absent changes nothing.
    pub fn remove_file(&mut self, file_name: &FileName)
        ensures
            final(self)@ == (RegistryModel {
                directory: old(self)@.directory,
                files: without(old(self)@.files, file_name@),
            }),
            old(self).wf() ==> final(self).wf(),
    {
        let ghost orig = self@.files;
        let mut rest: Vec<FileItem> = Vec::new();
        std::mem::swap(&mut self.files, &mut rest);
        let mut kept: Vec<FileItem> = Vec::new();
        let ghost total = orig.len();
        proof {
            assert(rest@.map_values(|f: FileItem| f@) == orig);
            assert(orig.take(0) =~= Seq::<FileItemModel>::empty());
            assert(kept@.map_values(|f: FileItem| f@) =~= Seq::<FileItemModel>::empty());
        }
        while rest.len() > 0
            invariant
                total == orig.len(),
                rest@.len() <= total,
                rest@.map_values(|f: FileItem| f@) =~= orig.skip(total - rest@.len()),
                kept@.map_values(|f: FileItem| f@) == without(
                    orig.take(total - rest@.len()),
                    file_name@,
                ),
                self.directory == old(self).directory,
            decreases rest@.len(),
        {
            let ghost k = total - rest@.len();
            let ghost before = rest@.map_values(|f: FileItem| f@);
            let ghost rest_before = rest@;
            let f = rest.remove(0);
            proof {
                assert(rest@ == rest_before.remove(0));
                assert(rest@.map_values(|f: FileItem| f@) =~= before.subrange(1, before.len() as int));
                assert(before[0] == f@);
                assert(orig[k] == before[0]);
                lemma_without_step(orig, file_name@, k);
                assert(rest@.map_values(|f: FileItem| f@) =~= orig.skip(k + 1));
            }
            if f.name != *file_name {
                let ghost kept_before = kept@.map_values(|f: FileItem| f@);
                kept.push(f);
                proof {
                    assert(kept@.map_values(|f: FileItem| f@) =~= kept_before.push(orig[k]));
                }
            }
        }
        proof {
            assert(orig.take(total as int) =~= orig);
        }
        self.files = kept;
        proof {
            lemma_without_names(orig, file_name@);
        }
    }

    /// Adds `file`, replacing wholesale any entry of the same name.
    pub fn add_file(&mut self, file: FileItem)
        ensures
            final(self)@ == (RegistryModel {
                directory: old(self)@.directory,
                files: with_file(old(self)@.files, file@),
            }),
            old(self).wf() ==> final(self).wf(),
    {
        let ghost files = self@.files;
        let found = self.get_file(&file.name).is_some();
        if found {
            self.remove_file(&file.name);
        } else {
            proof {
                lemma_lookup_none(files, file@.name);
                lemma_without_absent(files, file@.name);
            }
        }
        let ghost kept = self@.files;
        self.files.push(file);
        proof {
            assert(self@.files =~= kept.push(file@));
            lemma_without_names(files, file@.name);
            lemma_with_file_unique(files, file@);
        }
    }

    /// The first entry named `file_name`, if any; the registry is not changed.
    pub fn get_file(&self, file_name: &FileName) -> (r: Option<&FileItem>)
        ensures
            match r {
                None => lookup(self@.files, file_name@) is None,
                Some(f) => lookup(self@.files, file_name@) == Some(f@),
            },
    {
        let n = self.files.len();
        let mut i: usize = 0;
        while i < n
            invariant
                n == self@.files.len(),
                i <= n,
                forall|k: int| 0 <= k < i ==> (#[trigger] self@.files[k]).name != file_name@,
            decreases n - i,
        {
            if self.files[i].name == *file_name {
                proof {
                    lemma_lookup_skip(self@.files, file_name@, i as int);
                    assert(self@.files.skip(i as int)[0] == self@.files[i as int]);
                }
                return Some(&self.files[i]);
            }
            i = i + 1;
        }
        proof {
            lemma_lookup_skip(self@.files, file_name@, n as int);
        }
        None
    }
}

proof fn lemma_with_file_unique(files: Seq<FileItemModel>, f: FileItemModel)
    ensures
        names_unique(files) ==> names_unique(with_file(files, f)),
{
    lemma_without_names(files, f.name);
    let w = without(files, f.name);
    let r = with_file(files, f);
    if names_unique(files) {
        assert forall|i: int, j: int|
            0 <= i < r.len() && 0 <= j < r.len() && i != j implies #[trigger] r[i].name
            != #[trigger] r[j].name by {
            if i < w.len() && j < w.len() {
                assert(r[i] == w[i] && r[j] == w[j]);
            } else if i < w.len() {
                assert(r[i] == w[i]);
            } else {
                assert(r[j] == w[j]);
            }
        }
    }
}

} // verus!

verus! {

/// Recording the same version twice leaves the versions as recording it once.
pub proof fn lemma_update_idempotent(versions: Seq<Seq<char>>, v: Seq<char>)
    ensures
        with_version(with_version(versions, v), v) == with_version(versions, v),
{
    if !versions.contains(v) {
        assert(versions.push(v)[versions.len() as int] == v);
        assert(versions.push(v).contains(v));
    }
}

/// After adding an entry, looking up its name finds that entry; where an entry of
/// that name was there before, the new one takes its place and the count stays.
pub proof fn lemma_add_then_get(files: Seq<FileItemModel>, f: FileItemModel)
    ensures
        lookup(with_file(files, f), f.name) == Some(f),
        names_unique(files) ==> names_unique(with_file(files, f)),
        names_unique(files) && has_name(files, f.name) ==> with_file(files, f).len()
            == files.len(),
{
    lemma_without_names(files, f.name);
    lemma_with_file_unique(files, f);
    let w = without(files, f.name);
    let r = with_file(files, f);
    assert forall|k: int| 0 <= k < w.len() implies (#[trigger] r[k]).name != f.name by {
        assert(r[k] == w[k]);
    }
    lemma_lookup_skip(r, f.name, w.len() as int);
    assert(r.skip(w.len() as int) =~= seq![f]);
    assert(seq![f].drop_first() =~= Seq::<FileItemModel>::empty());
}

/// Removing a name that no entry has leaves the entries as they were.
pub proof fn lemma_remove_absent(files: Seq<FileItemModel>, name: Seq<char>)
    requires
        lookup(files, name) is None,
    ensures
        without(files, name) == files,
{
    lemma_lookup_none(files, name);
    lemma_without_absent(files, name);
}

} // verus!

verus! {

impl Clone for Registry {
    fn clone(&self) -> (r: Registry)
        ensures
            r@ == self@,
    {
        let r = Registry { directory: self.directory.clone(), files: self.files.clone() };
        proof {
            assert(r@.files =~= self@.files);
        }
        r
    }
}

impl PartialEq for Registry {
    fn eq(&self, other: &Registry) -> (r: bool)
        ensures
            r == (self@ == other@),
    {
        if self.directory != other.directory {
            return false;
        }
        let n = self.files.len();
        if n != other.files.len() {
            proof {
                assert(self@.files.len() != other@.files.len());
            }
            return false;
        }
        let mut i: usize = 0;
        while i < n
            invariant
                n == self.files@.len(),
                n == other.files@.len(),
                i <= n,
                forall|k: int| 0 <= k < i ==> self@.files[k] == other@.files[k],
            decreases n - i,
        {
            if self.files[i] != other.files[i] {
                proof {
                    assert(self@.files[i as int] != other@.files[i as int]);
                }
                return false;
            }
            i = i + 1;
        }
        proof {
            assert(self@.files =~= other@.files);
        }
        true
    }
}

impl vstd::std_specs::cmp::PartialEqSpecImpl for Registry {
    open spec fn obeys_eq_spec() -> bool {
        true
    }

    open spec fn eq_spec(&self, other: &Registry) -> bool {
        self@ == other@
    }
}

pub const REGISTRY_INVALID_VERSION_PREFIX: &'static str = "[registry error] invalid version: ";

pub const REGISTRY_FILE_NOT_FOUND: &'static str = "[registry error] file not found";

pub const REGISTRY_FS_PREFIX: &'static str = "[registry error] filesystem error: ";

pub const REGISTRY_CORE_PREFIX: &'static str = "[registry error] core error: ";

/// Errors of reading, changing and writing a registry.
#[derive(Debug)]
pub enum RegistryError {
    InvalidVersion(String),
    FileNotFound,
    FsError(FsError),
    CoreError(CoreError),
}

impl RegistryError {
    /// The error as a line of text, prefixed by the kind of error.
    pub fn to_string(&self) -> (r: String)
        ensures
            match self {
                RegistryError::InvalidVersion(v) => r@ == REGISTRY_INVALID_VERSION_PREFIX@ + v@,
                RegistryError::FileNotFound => r@ == REGISTRY_FILE_NOT_FOUND@,
                RegistryError::FsError(e) => r@ == REGISTRY_FS_PREFIX@ + e.message@,
                RegistryError::CoreError(e) => r@.len() >= REGISTRY_CORE_PREFIX@.len()
                    && r@.subrange(0, REGISTRY_CORE_PREFIX@.len() as int) == REGISTRY_CORE_PREFIX@
                    && (e matches CoreError::ValidationError(m) ==> r@ == REGISTRY_CORE_PREFIX@
                    + crate::error::CORE_VALIDATION_PREFIX@ + m@),
            },
    {
        match self {
            RegistryError::InvalidVersion(v) => {
                let mut out = String::from_str(REGISTRY_INVALID_VERSION_PREFIX);
                out.append(v.as_str());
                out
            },
            RegistryError::FileNotFound => String::from_str(REGISTRY_FILE_NOT_FOUND),
            RegistryError::FsError(e) => {
                let mut out = String::from_str(REGISTRY_FS_PREFIX);
                out.append(e.message.as_str());
                out
            },
            RegistryError::CoreError(e) => {
                let mut out = String::from_str(REGISTRY_CORE_PREFIX);
                let inner = e.to_string();
                out.append(inner.as_str());
                proof {
                    assert(out@.subrange(0, REGISTRY_CORE_PREFIX@.len() as int)
                        =~= REGISTRY_CORE_PREFIX@);
                    if e is ValidationError {
                        assert(out@ =~= REGISTRY_CORE_PREFIX@ + inner@);
                    }
                }
                out
            },
        }
    }
}

} // verus!
