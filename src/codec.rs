//! The registry document: how a registry is laid out as JSON, and read back.
//!
//! ```text
//! { "directory": "<label>", "files": [ { "name": "<name>", "versions": ["<v>", ...] } ] }
//! ```
use vstd::prelude::*;
use vstd::string::*;

use crate::error::{FsError, FsErrorKind};
use crate::json::{field_of_pair, pair_field, Json, JsonModel};
use crate::registry::{
    lookup, names_unique, Directory, FileItem, FileItemModel, FileName, Registry, RegistryError,
    RegistryModel,
};
use crate::version::FileVersion;

verus! {

pub const KEY_DIRECTORY: &'static str = "directory";

pub const KEY_FILES: &'static str = "files";

pub const KEY_NAME: &'static str = "name";

pub const KEY_VERSIONS: &'static str = "versions";

pub const MSG_SCHEMA: &'static str = "registry document does not match the registry schema";

pub open spec fn encode_entry(f: FileItemModel) -> JsonModel {
    JsonModel::Object(
        seq![
            (KEY_NAME@, JsonModel::Str(f.name)),
            (KEY_VERSIONS@, JsonModel::Array(f.versions.map_values(|v: Seq<char>| JsonModel::Str(v)))),
        ],
    )
}

/// The JSON document that stands for the registry `r`.
pub open spec fn encode_registry(r: RegistryModel) -> JsonModel {
    JsonModel::Object(
        seq![
            (KEY_DIRECTORY@, JsonModel::Str(r.directory)),
            (KEY_FILES@, JsonModel::Array(r.files.map_values(|f: FileItemModel| encode_entry(f)))),
        ],
    )
}

pub open spec fn decode_versions(j: JsonModel) -> Option<Seq<Seq<char>>> {
    match j {
        JsonModel::Array(items) => if forall|i: int|
            0 <= i < items.len() ==> (#[trigger] items[i]) is Str {
            Some(items.map_values(|x: JsonModel| x->Str_0))
        } else {
            None
        },
        _ => None,
    }
}

pub open spec fn decode_entry(j: JsonModel) -> Option<FileItemModel> {
    match j {
        JsonModel::Object(fields) => match (
            field_of_pair(fields, KEY_NAME@, KEY_VERSIONS@),
            field_of_pair(fields, KEY_VERSIONS@, KEY_NAME@),
        ) {
            (Some(JsonModel::Str(name)), Some(vs)) => match decode_versions(vs) {
                Some(versions) => Some(FileItemModel { name, versions }),
                None => None,
            },
            _ => None,
        },
        _ => None,
    }
}

/// The entries that `items` stand for, where each of them is a file entry.
pub open spec fn decode_entries(items: Seq<JsonModel>) -> Option<Seq<FileItemModel>> {
    if forall|i: int| 0 <= i < items.len() ==> (#[trigger] decode_entry(items[i])) is Some {
        Some(items.map_values(|x: JsonModel| decode_entry(x)->Some_0))
    } else {
        None
    }
}

/// The registry that the JSON document `j` stands for: an object with exactly the fields
/// `directory` (a string) and `files` (an array of file entries with distinct names),
/// each entry an object with exactly the fields `name` (a string) and `versions`
/// (an array of strings).
pub open spec fn decode_registry(j: JsonModel) -> Option<RegistryModel> {
    match j {
        JsonModel::Object(fields) => match (
            field_of_pair(fields, KEY_DIRECTORY@, KEY_FILES@),
            field_of_pair(fields, KEY_FILES@, KEY_DIRECTORY@),
        ) {
            (Some(JsonModel::Str(directory)), Some(JsonModel::Array(items))) => match decode_entries(
                items,
            ) {
                Some(files) => if names_unique(files) {
                    Some(RegistryModel { directory, files })
                } else {
                    None
                },
                None => None,
            },
            _ => None,
        },
        _ => None,
    }
}

fn entry_to_json(f: &FileItem) -> (j: Json)
    ensures
        j@ == encode_entry(f@),
{
    let mut items: Vec<Json> = Vec::new();
    let n = f.versions.len();
    let mut i: usize = 0;
    while i < n
        invariant
            n == f.versions@.len(),
            i <= n,
            items@.len() == i,
            forall|k: int| 0 <= k < i ==> (#[trigger] items@[k])@ == JsonModel::Str(f@.versions[k]),
        decreases n - i,
    {
        items.push(Json::Str(f.versions[i].to_string()));
        i = i + 1;
    }
    let versions = Json::Array(items);
    proof {
        assert(versions@->Array_0 =~= f@.versions.map_values(|v: Seq<char>| JsonModel::Str(v)));
    }
    let mut fields: Vec<(String, Json)> = Vec::new();
    fields.push((String::from_str(KEY_NAME), Json::Str(f.name.to_string())));
    fields.push((String::from_str(KEY_VERSIONS), versions));
    let j = Json::Object(fields);
    proof {
        let m = j@->Object_0;
        assert(m.len() == 2);
        assert(m[0] == (fields@[0].0@, fields@[0].1@));
        assert(m[1] == (fields@[1].0@, fields@[1].1@));
        assert(m =~= encode_entry(f@)->Object_0);
    }
    j
}

fn schema_error() -> (e: RegistryError)
    ensures
        e matches RegistryError::FsError(fe) && fe.kind == FsErrorKind::InvalidData && fe.message@
            == MSG_SCHEMA@,
{
    RegistryError::FsError(FsError::new(FsErrorKind::InvalidData, MSG_SCHEMA))
}

fn entry_from_json(j: &Json) -> (r: Option<FileItem>)
    ensures
        match r {
            None => decode_entry(j@) is None,
            Some(f) => decode_entry(j@) == Some(f@),
        },
{
    let key_name = String::from_str(KEY_NAME);
    let key_versions = String::from_str(KEY_VERSIONS);
    match j {
        Json::Object(fields) => {
            proof {
                assert(j@ == Json::Object(*fields)@);
            }
            let name = pair_field(fields, &key_name, &key_versions);
            let versions = pair_field(fields, &key_versions, &key_name);
            match (name, versions) {
                (Some(Json::Str(name)), Some(Json::Array(items))) => {
                    let ghost model = Json::Array(*items)@->Array_0;
                    proof {
                        assert(decode_entry(j@) == match decode_versions(JsonModel::Array(model)) {
                            Some(versions) => Some(FileItemModel { name: name@, versions }),
                            None => None,
                        });
                    }
                    let mut out: Vec<FileVersion> = Vec::new();
                    let n = items.len();
                    let mut i: usize = 0;
                    while i < n
                        invariant
                            n == items@.len(),
                            model == Json::Array(*items)@->Array_0,
                            model.len() == n,
                            decode_entry(j@) == match decode_versions(JsonModel::Array(model)) {
                                Some(versions) => Some(FileItemModel { name: name@, versions }),
                                None => None,
                            },
                            i <= n,
                            out@.len() == i,
                            forall|k: int|
                                0 <= k < i ==> model[k] == JsonModel::Str(#[trigger] out@[k]@),
                        decreases n - i,
                    {
                        proof {
                            assert(model[i as int] == items@[i as int]@);
                        }
                        match &items[i] {
                            Json::Str(v) => {
                                out.push(FileVersion::from(v.clone()));
                            },
                            _ => {
                                proof {
                                    assert(!(model[i as int] is Str));
                                    assert(decode_versions(JsonModel::Array(model)) is None);
                                }
                                return None;
                            },
                        }
                        i = i + 1;
                    }
                    proof {
                        assert forall|k: int| 0 <= k < model.len() implies (#[trigger] model[k]) is Str by {
                            assert(model[k] == JsonModel::Str(out@[k]@));
                        }
                    }
                    let f = FileItem { name: FileName::from(name.clone()), versions: out };
                    proof {
                        let vs = decode_versions(JsonModel::Array(model))->Some_0;
                        assert(vs =~= f@.versions);
                    }
                    Some(f)
                },
                (Some(Json::Str(_)), Some(other)) => {
                    proof {
                        assert(!(other@ is Array));
                    }
                    None
                },
                (Some(Json::Str(_)), None) => None,
                (Some(other), _) => {
                    proof {
                        assert(!(other@ is Str));
                    }
                    None
                },
                (None, _) => None,
            }
        },
        _ => None,
    }
}

impl Registry {
    /// The JSON document that stands for this registry.
    pub fn to_json(&self) -> (j: Json)
        ensures
            j@ == encode_registry(self@),
    {
        let mut items: Vec<Json> = Vec::new();
        let n = self.files.len();
        let mut i: usize = 0;
        while i < n
            invariant
                n == self.files@.len(),
                i <= n,
                items@.len() == i,
                forall|k: int| 0 <= k < i ==> (#[trigger] items@[k])@ == encode_entry(self@.files[k]),
            decreases n - i,
        {
            items.push(entry_to_json(&self.files[i]));
            i = i + 1;
        }
        let files = Json::Array(items);
        proof {
            assert(files@->Array_0 =~= self@.files.map_values(|f: FileItemModel| encode_entry(f)));
        }
        let mut fields: Vec<(String, Json)> = Vec::new();
        fields.push((String::from_str(KEY_DIRECTORY), Json::Str(self.directory.to_string())));
        fields.push((String::from_str(KEY_FILES), files));
        let j = Json::Object(fields);
        proof {
            let m = j@->Object_0;
            assert(m.len() == 2);
            assert(m[0] == (fields@[0].0@, fields@[0].1@));
            assert(m[1] == (fields@[1].0@, fields@[1].1@));
            assert(m =~= encode_registry(self@)->Object_0);
        }
        j
    }

    /// Reads a registry back from its JSON document; a document that does not follow
    /// the registry layout is refused with an invalid-data filesystem error.
    pub fn from_json(j: &Json) -> (r: Result<Registry, RegistryError>)
        ensures
            match decode_registry(j@) {
                Some(m) => r matches Ok(reg) && reg@ == m && reg.wf(),
                None => r matches Err(RegistryError::FsError(e)) && e.kind == FsErrorKind::InvalidData
                    && e.message@ == MSG_SCHEMA@,
            },
    {
        let key_directory = String::from_str(KEY_DIRECTORY);
        let key_files = String::from_str(KEY_FILES);
        match j {
            Json::Object(fields) => {
                let directory = pair_field(fields, &key_directory, &key_files);
                let files = pair_field(fields, &key_files, &key_directory);
                match (directory, files) {
                    (Some(Json::Str(directory)), Some(Json::Array(items))) => {
                        let ghost model = Json::Array(*items)@->Array_0;
                        proof {
                            assert(j@ == Json::Object(*fields)@);
                        }
                        let mut registry = Registry::new(Directory::from(directory.clone()));
                        let n = items.len();
                        let mut i: usize = 0;
                        while i < n
                            invariant
                                n == items@.len(),
                                model == Json::Array(*items)@->Array_0,
                                model.len() == n,
                                i <= n,
                                registry@.directory == directory@,
                                decode_registry(j@) == match decode_entries(model) {
                                    Some(all) => if names_unique(all) {
                                        Some(RegistryModel { directory: directory@, files: all })
                                    } else {
                                        None
                                    },
                                    None => None,
                                },
                                registry@.files.len() == i,
                                registry.wf(),
                                forall|k: int|
                                    0 <= k < i ==> decode_entry(#[trigger] model[k]) == Some(
                                        registry@.files[k],
                                    ),
                            decreases n - i,
                        {
                            proof {
                                assert(model[i as int] == items@[i as int]@);
                            }
                            match entry_from_json(&items[i]) {
                                None => {
                                    proof {
                                        assert(decode_entries(model) is None);
                                    }
                                    return Err(schema_error());
                                },
                                Some(entry) => {
                                    if registry.get_file(&entry.name).is_some() {
                                        proof {
                                            lemma_duplicate_refused(model, registry@.files, i as int, entry@);
                                        }
                                        return Err(schema_error());
                                    }
                                    let ghost before = registry@.files;
                                    registry.files.push(entry);
                                    proof {
                                        assert(registry@.files =~= before.push(entry@));
                                        lemma_push_unique(before, entry@);
                                    }
                                },
                            }
                            i = i + 1;
                        }
                        proof {
                            assert(registry@.files =~= model.map_values(
                                |x: JsonModel| decode_entry(x)->Some_0,
                            ));
                        }
                        Ok(registry)
                    },
                    _ => Err(schema_error()),
                }
            },
            _ => Err(schema_error()),
        }
    }
}

proof fn lemma_push_unique(files: Seq<FileItemModel>, f: FileItemModel)
    requires
        names_unique(files),
        lookup(files, f.name) is None,
    ensures
        names_unique(files.push(f)),
{
    crate::registry::lemma_lookup_none(files, f.name);
    let r = files.push(f);
    assert forall|i: int, j: int|
        0 <= i < r.len() && 0 <= j < r.len() && i != j implies #[trigger] r[i].name
        != #[trigger] r[j].name by {
        if i < files.len() && j < files.len() {
            assert(r[i] == files[i] && r[j] == files[j]);
        } else if i < files.len() {
            assert(r[i] == files[i]);
        } else {
            assert(r[j] == files[j]);
        }
    }
}

proof fn lemma_duplicate_refused(
    model: Seq<JsonModel>,
    files: Seq<FileItemModel>,
    i: int,
    f: FileItemModel,
)
    requires
        0 <= i < model.len(),
        files.len() == i,
        decode_entry(model[i]) == Some(f),
        forall|k: int| 0 <= k < i ==> decode_entry(#[trigger] model[k]) == Some(files[k]),
        lookup(files, f.name) is Some,
    ensures
        match decode_entries(model) {
            Some(all) => !names_unique(all),
            None => true,
        },
{
    crate::registry::lemma_lookup_none(files, f.name);
    let k = choose|k: int| 0 <= k < files.len() && (#[trigger] files[k]).name == f.name;
    if let Some(all) = decode_entries(model) {
        assert(all[k] == files[k]);
        assert(all[i] == f);
    }
}

} // verus!

verus! {

proof fn lemma_keys_distinct()
    ensures
        KEY_DIRECTORY@ != KEY_FILES@,
        KEY_NAME@ != KEY_VERSIONS@,
{
    reveal_strlit("directory");
    reveal_strlit("files");
    reveal_strlit("name");
    reveal_strlit("versions");
    assert(KEY_DIRECTORY@.len() != KEY_FILES@.len());
    assert(KEY_NAME@.len() != KEY_VERSIONS@.len());
}

proof fn lemma_entry_round_trip(f: FileItemModel)
    ensures
        decode_entry(encode_entry(f)) == Some(f),
{
    lemma_keys_distinct();
    let j = encode_entry(f);
    let fields = j->Object_0;
    assert(field_of_pair(fields, KEY_NAME@, KEY_VERSIONS@) == Some(JsonModel::Str(f.name)));
    let items = f.versions.map_values(|v: Seq<char>| JsonModel::Str(v));
    assert(field_of_pair(fields, KEY_VERSIONS@, KEY_NAME@) == Some(JsonModel::Array(items)));
    assert(forall|i: int| 0 <= i < items.len() ==> (#[trigger] items[i]) is Str);
    let vs = decode_versions(JsonModel::Array(items))->Some_0;
    assert(vs =~= f.versions);
}

/// Writing a registry as its JSON document and reading the document back gives the
/// same registry.
pub proof fn lemma_round_trip(r: RegistryModel)
    requires
        names_unique(r.files),
    ensures
        decode_registry(encode_registry(r)) == Some(r),
{
    lemma_keys_distinct();
    let j = encode_registry(r);
    let fields = j->Object_0;
    let items = r.files.map_values(|f: FileItemModel| encode_entry(f));
    assert(field_of_pair(fields, KEY_DIRECTORY@, KEY_FILES@) == Some(JsonModel::Str(r.directory)));
    assert(field_of_pair(fields, KEY_FILES@, KEY_DIRECTORY@) == Some(JsonModel::Array(items)));
    assert forall|i: int| 0 <= i < items.len() implies (#[trigger] decode_entry(items[i])) == Some(
        r.files[i],
    ) by {
        lemma_entry_round_trip(r.files[i]);
    }
    assert(forall|i: int| 0 <= i < items.len() ==> (#[trigger] decode_entry(items[i])) is Some);
    let files = decode_entries(items)->Some_0;
    assert(files =~= r.files);
}

} // verus!
