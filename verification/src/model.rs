//! Trained models: what a model file says about its model, and the cache
//! of known models that the model manager keeps. Reading, writing and
//! scanning files is done by the caller.

use vstd::prelude::*;
use crate::error::TrainError;
use crate::text::{lowercase_text, to_lowercase, uuid_parse, parse_uuid, uuid_string, uuid_text, str_eq};
use crate::train::ModelType;
use crate::types::Timestamp;

verus! {

/// A trained model known to the manager.
#[derive(Debug)]
pub struct TrainModel {
    pub id: u128,
    pub name: String,
    pub model_type: ModelType,
    pub created_at: Timestamp,
    pub file_path: String,
}

/// A model's fields, with texts as characters.
pub struct TrainModelView {
    pub id: u128,
    pub name: Seq<char>,
    pub model_type: ModelType,
    pub created_at: Timestamp,
    pub file_path: Seq<char>,
}

impl View for TrainModel {
    type V = TrainModelView;

    open spec fn view(&self) -> TrainModelView {
        TrainModelView {
            id: self.id,
            name: self.name@,
            model_type: self.model_type,
            created_at: self.created_at,
            file_path: self.file_path@,
        }
    }
}

impl Clone for TrainModel {
    fn clone(&self) -> (r: Self)
        ensures
            r@ == self@,
    {
        TrainModel {
            id: self.id,
            name: self.name.clone(),
            model_type: self.model_type,
            created_at: self.created_at,
            file_path: self.file_path.clone(),
        }
    }
}

/// The text fields a model file's JSON holds (each `None` where the key
/// is missing or not a string).
#[derive(Debug)]
pub struct ModelFields {
    pub model_id: Option<String>,
    pub name: Option<String>,
    pub model_type: Option<String>,
    pub created_at: Option<String>,
}

/// The fields as texts.
pub open spec fn fields_view(f: Option<ModelFields>) -> Option<
    (Option<Seq<char>>, Option<Seq<char>>, Option<Seq<char>>, Option<Seq<char>>),
> {
    match f {
        Some(x) => Some(
            (
                crate::types::opt_text(x.model_id),
                crate::types::opt_text(x.name),
                crate::types::opt_text(x.model_type),
                crate::types::opt_text(x.created_at),
            ),
        ),
        None => None,
    }
}

/// The members of a JSON object, with their string values, as texts.
pub open spec fn members_view(v: Seq<(String, Option<String>)>) -> Seq<(Seq<char>, Option<Seq<char>>)> {
    v.map_values(|p: (String, Option<String>)| (p.0@, crate::types::opt_text(p.1)))
}

/// The members of a list of members, if there is a list.
pub open spec fn opt_members_view(o: Option<Vec<(String, Option<String>)>>) -> Option<
    Seq<(Seq<char>, Option<Seq<char>>)>,
> {
    match o {
        Some(v) => Some(members_view(v@)),
        None => None,
    }
}

/// What `serde_json` reads from a text: `None` when the text is not JSON;
/// otherwise the members of the top-level value (none unless it is an
/// object), in the order of `serde_json`'s map, each with its value when
/// that value is a string.
pub uninterp spec fn json_members(content: Seq<char>) -> Option<Seq<(Seq<char>, Option<Seq<char>>)>>;

/// Calls `serde_json::from_str::<serde_json::Value>` on the text and, when
/// it parses, lists the top-level object's members (`Value::as_object`),
/// each value read with `as_str`; the result is named `json_members`.
#[verifier::external_body]
fn read_json_members(content: &str) -> (r: Option<Vec<(String, Option<String>)>>)
    ensures
        opt_members_view(r) == json_members(content@),
{
    match serde_json::from_str::<serde_json::Value>(content) {
        Ok(v) => Some(match v.as_object() {
            Some(o) => o.iter().map(|(k, x)| (k.clone(), x.as_str().map(str::to_string))).collect(),
            None => Vec::new(),
        }),
        Err(_) => None,
    }
}

/// The value of the first member with the key, if it has a string value.
pub open spec fn member_lookup(s: Seq<(Seq<char>, Option<Seq<char>>)>, key: Seq<char>) -> Option<Seq<char>>
    decreases s.len(),
{
    if s.len() == 0 {
        None
    } else if s[0].0 == key {
        s[0].1
    } else {
        member_lookup(s.drop_first(), key)
    }
}

/// The string value of the first member with the key.
fn member_text(members: &Vec<(String, Option<String>)>, key: &str) -> (r: Option<String>)
    ensures
        crate::types::opt_text(r) == member_lookup(members_view(members@), key@),
{
    let ghost s = members_view(members@);
    let mut i: usize = 0;
    assert(s.skip(0) =~= s);
    while i < members.len()
        invariant
            i <= members@.len(),
            s == members_view(members@),
            member_lookup(s.skip(i as int), key@) == member_lookup(s, key@),
        decreases members.len() - i,
    {
        proof {
            assert(s.skip(i as int)[0] == s[i as int]);
            assert(s.skip(i as int).drop_first() =~= s.skip(i + 1));
        }
        if str_eq(members[i].0.as_str(), key) {
            return crate::types::clone_opt_string(&members[i].1);
        }
        i = i + 1;
    }
    proof {
        assert(s.skip(i as int).len() == 0);
    }
    None
}

/// What a model file's JSON says: `None` when the text is not JSON;
/// otherwise the strings stored under "model_id", "name", "model_type"
/// and "created_at".
pub open spec fn json_model_fields(content: Seq<char>) -> Option<
    (Option<Seq<char>>, Option<Seq<char>>, Option<Seq<char>>, Option<Seq<char>>),
> {
    match json_members(content) {
        Some(m) => Some(
            (
                member_lookup(m, "model_id"@),
                member_lookup(m, "name"@),
                member_lookup(m, "model_type"@),
                member_lookup(m, "created_at"@),
            ),
        ),
        None => None,
    }
}

/// The four fields of a model file's JSON.
fn read_model_fields(content: &str) -> (r: Option<ModelFields>)
    ensures
        fields_view(r) == json_model_fields(content@),
{
    match read_json_members(content) {
        Some(members) => Some(ModelFields {
            model_id: member_text(&members, "model_id"),
            name: member_text(&members, "name"),
            model_type: member_text(&members, "model_type"),
            created_at: member_text(&members, "created_at"),
        }),
        None => None,
    }
}

/// What `chrono::DateTime::parse_from_rfc3339` gives for a text, as
/// microseconds since the Unix epoch in UTC (`None` when it does not
/// parse).
pub uninterp spec fn rfc3339_micros(s: Seq<char>) -> Option<Timestamp>;

/// Calls `chrono::DateTime::parse_from_rfc3339` and reads the instant as
/// UTC microseconds (`timestamp_micros`); the value is named
/// `rfc3339_micros`. On failure the parser's error text is returned;
/// nothing is stated of that text.
#[verifier::external_body]
pub(crate) fn parse_rfc3339(s: &str) -> (r: Result<Timestamp, String>)
    ensures
        r is Ok <==> rfc3339_micros(s@) is Some,
        r matches Ok(t) ==> rfc3339_micros(s@) == Some(t),
{
    match chrono::DateTime::parse_from_rfc3339(s) {
        Ok(dt) => Ok(dt.with_timezone(&chrono::Utc).timestamp_micros()),
        Err(e) => Err(e.to_string()),
    }
}

/// An instant whose UTC year lies in 0..=9999, the years RFC 3339 writes
/// with four digits.
pub open spec fn four_digit_year(t: Timestamp) -> bool {
    -62_167_219_200_000_000 <= t <= 253_402_300_799_999_999
}

/// What `chrono::DateTime::<Utc>::to_rfc3339` writes for an instant given
/// in microseconds since the Unix epoch (`None` where
/// `DateTime::from_timestamp_micros` holds no such instant).
pub uninterp spec fn rfc3339_text(t: Timestamp) -> Option<Seq<char>>;

/// Calls `chrono::DateTime::from_timestamp_micros(t)` and writes the instant
/// with `to_rfc3339`; the result is named `rfc3339_text(t)`. Within the
/// four-digit years the instant exists and the text parses back to it
/// (`write_rfc3339` writes the year with four digits there, every non-zero
/// fraction of a second, and the offset `+00:00`).
#[verifier::external_body]
pub(crate) fn format_rfc3339(t: Timestamp) -> (r: Option<String>)
    ensures
        crate::types::opt_text(r) == rfc3339_text(t),
        four_digit_year(t) ==> r is Some,
        four_digit_year(t) && r is Some ==> rfc3339_micros(r->Some_0@) == Some(t),
{
    chrono::DateTime::from_timestamp_micros(t).map(|d| d.to_rfc3339())
}

/// The type a model file names, read case-insensitively: "classifier" and
/// "reranker" are recognised, anything else (or nothing) is an embedding
/// model.
pub open spec fn type_from_name(lowered: Option<Seq<char>>) -> ModelType {
    match lowered {
        Some(t) => if t == "classifier"@ {
            ModelType::Classifier
        } else if t == "reranker"@ {
            ModelType::Reranker
        } else {
            ModelType::Embedding
        },
        None => ModelType::Embedding,
    }
}

/// What a model file says about its model, given what its JSON fields
/// parse to: a JSON file gives its identifier (or `fresh_id` when missing
/// or not a UUID), its name (or "Unknown"), its type, and its creation
/// instant (or `now`); any other file gives `fresh_id`, the file's stem
/// (or "model"), an embedding model, and `now`.
pub open spec fn model_from_fields_spec(
    fields: Option<(Option<Seq<char>>, Option<Seq<char>>, Option<Seq<char>>, Option<Seq<char>>)>,
    path: Seq<char>,
    stem: Option<Seq<char>>,
    fresh_id: u128,
    now: Timestamp,
) -> TrainModelView {
    match fields {
        Some((id, name, ty, created)) => TrainModelView {
            id: match id {
                Some(s) => match uuid_parse(s) {
                    Some(u) => u,
                    None => fresh_id,
                },
                None => fresh_id,
            },
            name: match name {
                Some(n) => n,
                None => "Unknown"@,
            },
            model_type: type_from_name(
                match ty {
                    Some(t) => Some(lowercase_text(t)),
                    None => None,
                },
            ),
            created_at: match created {
                Some(c) => match rfc3339_micros(c) {
                    Some(t) => t,
                    None => now,
                },
                None => now,
            },
            file_path: path,
        },
        None => TrainModelView {
            id: fresh_id,
            name: match stem {
                Some(s) => s,
                None => "model"@,
            },
            model_type: ModelType::Embedding,
            created_at: now,
            file_path: path,
        },
    }
}

/// What a model file says about its model, given its JSON fields (see
/// `model_from_fields_spec`).
pub fn model_from_fields(
    fields: Option<ModelFields>,
    path: &str,
    stem: Option<&str>,
    fresh_id: u128,
    now: Timestamp,
) -> (r: TrainModel)
    ensures
        r@ == model_from_fields_spec(
            fields_view(fields),
            path@,
            match stem {
                Some(s) => Some(s@),
                None => None,
            },
            fresh_id,
            now,
        ),
{
    match fields {
        Some(f) => {
            let id = match &f.model_id {
                Some(s) => match parse_uuid(s.as_str()) {
                    Ok(u) => u,
                    Err(_) => fresh_id,
                },
                None => fresh_id,
            };
            let name = match f.name {
                Some(n) => n,
                None => "Unknown".to_string(),
            };
            let model_type = match &f.model_type {
                Some(t) => {
                    let lowered = to_lowercase(t.as_str());
                    if str_eq(lowered.as_str(), "classifier") {
                        ModelType::Classifier
                    } else if str_eq(lowered.as_str(), "reranker") {
                        ModelType::Reranker
                    } else {
                        ModelType::Embedding
                    }
                },
                None => ModelType::Embedding,
            };
            let created_at = match &f.created_at {
                Some(c) => match parse_rfc3339(c.as_str()) {
                    Ok(t) => t,
                    Err(_) => now,
                },
                None => now,
            };
            TrainModel { id, name, model_type, created_at, file_path: path.to_string() }
        },
        None => {
            let name = match stem {
                Some(s) => s.to_string(),
                None => "model".to_string(),
            };
            TrainModel {
                id: fresh_id,
                name,
                model_type: ModelType::Embedding,
                created_at: now,
                file_path: path.to_string(),
            }
        },
    }
}

/// What a model file with the given text says about its model.
pub fn load_model_metadata(
    content: &str,
    path: &str,
    stem: Option<&str>,
    fresh_id: u128,
    now: Timestamp,
) -> (r: TrainModel)
    ensures
        r@ == model_from_fields_spec(
            json_model_fields(content@),
            path@,
            match stem {
                Some(s) => Some(s@),
                None => None,
            },
            fresh_id,
            now,
        ),
{
    let fields = read_model_fields(content);
    model_from_fields(fields, path, stem, fresh_id, now)
}

/// The first position of the cache that holds a model with the
/// identifier (the cache's length when none does).
pub open spec fn first_with_id(s: Seq<TrainModelView>, id: u128, from: int) -> int
    decreases s.len() - from,
{
    if from >= s.len() {
        s.len() as int
    } else if s[from].id == id {
        from
    } else {
        first_with_id(s, id, from + 1)
    }
}

/// Models seen through their views.
pub open spec fn models_view(v: Seq<TrainModel>) -> Seq<TrainModelView> {
    v.map_values(|m: TrainModel| m@)
}

/// The model manager's state: its directory and the models it knows.
pub struct ModelManager {
    models_dir: String,
    cache: Vec<TrainModel>,
}

/// The error of an unknown model.
pub open spec fn model_not_found(e: TrainError, id: u128) -> bool {
    e matches TrainError::ModelNotFound(m) && m@ == uuid_text(id)
}

proof fn lemma_first_with_id_bounds(s: Seq<TrainModelView>, id: u128, from: int)
    requires
        0 <= from <= s.len(),
    ensures
        from <= first_with_id(s, id, from) <= s.len(),
        first_with_id(s, id, from) < s.len() ==> s[first_with_id(s, id, from)].id == id,
        forall|k: int| from <= k < first_with_id(s, id, from) ==> s[k].id != id,
    decreases s.len() - from,
{
    if from < s.len() && s[from].id != id {
        lemma_first_with_id_bounds(s, id, from + 1);
    }
}

impl ModelManager {
    pub closed spec fn models_dir_spec(&self) -> Seq<char> {
        self.models_dir@
    }

    /// The models known, in the order they were found or saved.
    pub closed spec fn models(&self) -> Seq<TrainModelView> {
        models_view(self.cache@)
    }

    /// A manager of the directory, knowing no model yet.
    pub fn new(models_dir: String) -> (r: Self)
        ensures
            r.models_dir_spec() == models_dir@,
            r.models() == Seq::<TrainModelView>::empty(),
    {
        let r = ModelManager { models_dir, cache: Vec::new() };
        assert(r.models() =~= Seq::<TrainModelView>::empty());
        r
    }

    /// The models directory.
    pub fn models_dir(&self) -> (r: &str)
        ensures
            r@ == self.models_dir_spec(),
    {
        self.models_dir.as_str()
    }

    /// Replaces the known models with those a scan of the directory found.
    pub fn replace_models(&mut self, models: Vec<TrainModel>)
        ensures
            final(self).models_dir_spec() == old(self).models_dir_spec(),
            final(self).models() == models_view(models@),
    {
        self.cache = models;
    }

    /// Records a saved model after those already known.
    pub fn record_saved(&mut self, model: TrainModel)
        ensures
            final(self).models_dir_spec() == old(self).models_dir_spec(),
            final(self).models() == old(self).models().push(model@),
    {
        let ghost m = model@;
        self.cache.push(model);
        assert(self.models() =~= old(self).models().push(m));
    }

    /// Copies of the known models, in order.
    pub fn list_models(&self) -> (r: Vec<TrainModel>)
        ensures
            models_view(r@) == self.models(),
    {
        let mut out: Vec<TrainModel> = Vec::new();
        let mut i: usize = 0;
        while i < self.cache.len()
            invariant
                i <= self.cache@.len(),
                models_view(out@) == models_view(self.cache@.take(i as int)),
            decreases self.cache.len() - i,
        {
            let c = self.cache[i].clone();
            let ghost prev = out@;
            out.push(c);
            assert(self.cache@.take(i + 1) =~= self.cache@.take(i as int).push(self.cache@[i as int]));
            assert(models_view(out@) =~= models_view(prev).push(c@));
            assert(models_view(self.cache@.take(i + 1)) =~= models_view(self.cache@.take(i as int)).push(
                self.cache@[i as int]@,
            ));
            i = i + 1;
        }
        assert(self.cache@.take(self.cache@.len() as int) =~= self.cache@);
        out
    }

    fn position_of(&self, model_id: u128) -> (r: Option<usize>)
        ensures
            r is None ==> first_with_id(self.models(), model_id, 0) == self.models().len(),
            r matches Some(i) ==> i == first_with_id(self.models(), model_id, 0) && i < self.models().len(),
    {
        let ghost s = self.models();
        let mut i: usize = 0;
        while i < self.cache.len()
            invariant
                s == self.models(),
                i <= self.cache@.len(),
                first_with_id(s, model_id, 0) == first_with_id(s, model_id, i as int),
            decreases self.cache.len() - i,
        {
            if self.cache[i].id == model_id {
                return Some(i);
            }
            i = i + 1;
        }
        None
    }

    /// A copy of the first known model with the identifier; an unknown
    /// identifier is `ModelNotFound`.
    pub fn get_model(&self, model_id: u128) -> (r: Result<TrainModel, TrainError>)
        ensures
            first_with_id(self.models(), model_id, 0) < self.models().len() ==> (r matches Ok(m) && m@
                == self.models()[first_with_id(self.models(), model_id, 0)]),
            first_with_id(self.models(), model_id, 0) >= self.models().len() ==> (r matches Err(e)
                && model_not_found(e, model_id)),
    {
        match self.position_of(model_id) {
            Some(i) => Ok(self.cache[i].clone()),
            None => Err(TrainError::ModelNotFound(uuid_string(model_id))),
        }
    }

    /// Forgets the first known model with the identifier and returns it
    /// (so its file can be deleted); an unknown identifier is
    /// `ModelNotFound`.
    pub fn remove_model(&mut self, model_id: u128) -> (r: Result<TrainModel, TrainError>)
        ensures
            final(self).models_dir_spec() == old(self).models_dir_spec(),
            first_with_id(old(self).models(), model_id, 0) < old(self).models().len() ==> (r matches Ok(m)
                && m@ == old(self).models()[first_with_id(old(self).models(), model_id, 0)]
                && final(self).models() == old(self).models().remove(
                first_with_id(old(self).models(), model_id, 0),
            )),
            first_with_id(old(self).models(), model_id, 0) >= old(self).models().len() ==> (r matches Err(e)
                && model_not_found(e, model_id)) && final(self).models() == old(self).models(),
    {
        match self.position_of(model_id) {
            Some(i) => {
                let m = self.cache.remove(i);
                assert(self.models() =~= old(self).models().remove(i as int));
                Ok(m)
            },
            None => Err(TrainError::ModelNotFound(uuid_string(model_id))),
        }
    }
}

} // verus!
