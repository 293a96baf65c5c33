use vstd::prelude::*;

verus! {

broadcast use {
    vstd::std_specs::vec::axiom_vec_index_decreases,
    vstd::std_specs::vec::axiom_vec_decreases_to_view,
};

/// A JSON document as a tree of values; numbers are kept as their text.
#[derive(Debug)]
pub enum Json {
    Null,
    Bool(bool),
    Number(String),
    Str(String),
    Array(Vec<Json>),
    Object(Vec<(String, Json)>),
}

/// A JSON document as a mathematical value.
pub ghost enum JsonModel {
    Null,
    Bool(bool),
    Number(Seq<char>),
    Str(Seq<char>),
    Array(Seq<JsonModel>),
    Object(Seq<(Seq<char>, JsonModel)>),
}

impl View for Json {
    type V = JsonModel;

    open spec fn view(&self) -> JsonModel
        decreases self,
    {
        match self {
            Json::Null => JsonModel::Null,
            Json::Bool(b) => JsonModel::Bool(*b),
            Json::Number(n) => JsonModel::Number(n@),
            Json::Str(s) => JsonModel::Str(s@),
            Json::Array(items) => JsonModel::Array(
                Seq::new(
                    items@.len(),
                    |i: int|
                        if 0 <= i < items@.len() {
                            items@[i]@
                        } else {
                            JsonModel::Null
                        },
                ),
            ),
            Json::Object(fields) => JsonModel::Object(
                Seq::new(
                    fields@.len(),
                    |i: int|
                        if 0 <= i < fields@.len() {
                            (fields@[i].0@, fields@[i].1@)
                        } else {
                            (Seq::empty(), JsonModel::Null)
                        },
                ),
            ),
        }
    }
}

/// The value of `key` in an object whose fields are exactly `key` and `other`, in either order.
pub open spec fn field_of_pair(
    fields: Seq<(Seq<char>, JsonModel)>,
    key: Seq<char>,
    other: Seq<char>,
) -> Option<JsonModel> {
    if fields.len() == 2 && fields[0].0 == key && fields[1].0 == other {
        Some(fields[0].1)
    } else if fields.len() == 2 && fields[0].0 == other && fields[1].0 == key {
        Some(fields[1].1)
    } else {
        None
    }
}

/// The value of `key` in an object whose fields are exactly `key` and `other`, in either order.
pub fn pair_field<'a>(fields: &'a Vec<(String, Json)>, key: &String, other: &String) -> (r: Option<
    &'a Json,
>)
    ensures
        match r {
            None => field_of_pair(Json::Object(*fields)@->Object_0, key@, other@) is None,
            Some(v) => field_of_pair(Json::Object(*fields)@->Object_0, key@, other@) == Some(v@),
        },
{
    let ghost model = Json::Object(*fields)@->Object_0;
    proof {
        if fields@.len() == 2 {
            assert(model[0] == (fields@[0].0@, fields@[0].1@));
            assert(model[1] == (fields@[1].0@, fields@[1].1@));
        }
    }
    if fields.len() != 2 {
        return None;
    }
    if fields[0].0 == *key && fields[1].0 == *other {
        Some(&fields[0].1)
    } else if fields[0].0 == *other && fields[1].0 == *key {
        Some(&fields[1].1)
    } else {
        None
    }
}

} // verus!
