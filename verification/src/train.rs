//! Training support: choosing and labelling the texts that memories
//! contribute to a training set, the checks a training request must pass,
//! the name of a trained model's file, and the hash-based embeddings the
//! service hands out.

use vstd::prelude::*;
use vstd::utf8::encode_utf8;
use crate::error::TrainError;
use crate::floats::{F32_MINUS_ONE, F32_ONE, F32_ZERO, f32_le, le};
use crate::text::{decimal, decimal_spec, join_sep, join_with, join3, uuid_string, uuid_text};
use crate::types::{
    ContentView, EntryView, MemoryContent, MemoryEntry, MemoryStatus, SearchQuery, WorkspaceId,
    content_view,
};

verus! {

/// The kind of model a training run produces.
#[derive(PartialEq, Eq, Structural, Clone, Copy, Debug)]
pub enum ModelType {
    Embedding,
    Classifier,
    Reranker,
}

/// The name of a model type in file names and model files.
pub open spec fn model_type_label(t: ModelType) -> Seq<char> {
    match t {
        ModelType::Embedding => "embedding"@,
        ModelType::Classifier => "classifier"@,
        ModelType::Reranker => "reranker"@,
    }
}

/// The fewest training texts a model type accepts.
pub open spec fn min_samples_spec(t: ModelType) -> nat {
    match t {
        ModelType::Embedding => 10,
        ModelType::Classifier => 20,
        ModelType::Reranker => 30,
    }
}

impl ModelType {
    /// The name of the model type: "embedding", "classifier" or "reranker".
    pub fn label(&self) -> (r: &'static str)
        ensures
            r@ == model_type_label(*self),
    {
        match self {
            ModelType::Embedding => "embedding",
            ModelType::Classifier => "classifier",
            ModelType::Reranker => "reranker",
        }
    }

    /// The fewest training texts the model type accepts: 10 for embeddings,
    /// 20 for classifiers, 30 for rerankers.
    pub fn min_samples(&self) -> (r: usize)
        ensures
            r == min_samples_spec(*self),
    {
        match self {
            ModelType::Embedding => 10,
            ModelType::Classifier => 20,
            ModelType::Reranker => 30,
        }
    }
}

/// Bit pattern of `0.001f32`, the default learning rate.
pub const DEFAULT_LEARNING_RATE: u32 = 0x3A83_126Fu32;

/// Training parameters.
#[derive(Debug)]
pub struct TrainParams {
    pub model_type: ModelType,
    pub epochs: u32,
    pub batch_size: u32,
    /// The learning rate, as the bit pattern of an `f32`.
    pub learning_rate: u32,
    /// The directory the model file is written to.
    pub output_dir: String,
}

impl Default for TrainParams {
    fn default() -> (r: Self)
        ensures
            r.model_type == ModelType::Embedding,
            r.epochs == 10,
            r.batch_size == 32,
            r.learning_rate == DEFAULT_LEARNING_RATE,
            r.output_dir@ == "models"@,
    {
        TrainParams {
            model_type: ModelType::Embedding,
            epochs: 10,
            batch_size: 32,
            learning_rate: DEFAULT_LEARNING_RATE,
            output_dir: "models".to_string(),
        }
    }
}

/// Training data: texts, optional labels (one per text) and optional
/// embeddings (components as `f32` bit patterns).
#[derive(Debug)]
pub struct TrainData {
    pub texts: Vec<String>,
    pub labels: Option<Vec<String>>,
    pub embeddings: Option<Vec<Vec<u32>>>,
}

/// The device training runs on.
#[derive(PartialEq, Eq, Structural, Clone, Copy, Debug)]
pub enum TrainingDevice {
    Cpu,
}

impl Default for TrainingDevice {
    fn default() -> (r: Self)
        ensures
            r == TrainingDevice::Cpu,
    {
        TrainingDevice::Cpu
    }
}

/// The first error a training request meets, if any: no texts, fewer texts
/// than the model type needs, zero epochs, a zero batch size, or a learning
/// rate that is not positive (`lr <= 0.0` in IEEE terms, so a NaN passes).
pub open spec fn request_error(n_texts: nat, p: TrainParams) -> Option<(nat, Seq<char>)> {
    if n_texts == 0 {
        Some((0, "Training data contains no texts"@))
    } else if n_texts < min_samples_spec(p.model_type) {
        Some(
            (
                0,
                "Insufficient training samples: have "@ + decimal_spec(n_texts)
                    + ", need at least "@ + decimal_spec(min_samples_spec(p.model_type)),
            ),
        )
    } else if p.epochs == 0 {
        Some((1, "Epochs must be greater than 0"@))
    } else if p.batch_size == 0 {
        Some((1, "Batch size must be greater than 0"@))
    } else if f32_le(p.learning_rate, F32_ZERO) {
        Some((1, "Learning rate must be positive"@))
    } else {
        None
    }
}

/// The error carries the text of `request_error`: kind 0 is
/// `InsufficientData`, kind 1 `InvalidParameters`.
pub open spec fn is_request_error(e: TrainError, k: (nat, Seq<char>)) -> bool {
    if k.0 == 0 {
        e matches TrainError::InsufficientData(m) && m@ == k.1
    } else {
        e matches TrainError::InvalidParameters(m) && m@ == k.1
    }
}

/// The simplified trainer.
pub struct Trainer {
    device: TrainingDevice,
}

impl Trainer {
    /// A trainer on the CPU.
    pub fn new() -> (r: Self)
        ensures
            r.device_spec() == TrainingDevice::Cpu,
    {
        Trainer { device: TrainingDevice::Cpu }
    }

    /// A trainer on the given device.
    pub fn with_device(device: TrainingDevice) -> (r: Self)
        ensures
            r.device_spec() == device,
    {
        Trainer { device }
    }

    pub closed spec fn device_spec(&self) -> TrainingDevice {
        self.device
    }

    /// The device.
    pub fn device(&self) -> (r: TrainingDevice)
        ensures
            r == self.device_spec(),
    {
        self.device
    }

    /// The checks on parameters: epochs and batch size must be non-zero and
    /// the learning rate positive.
    pub fn validate_params(&self, params: &TrainParams) -> (r: Result<(), TrainError>)
        ensures
            params.epochs == 0 ==> (r matches Err(TrainError::InvalidParameters(m)) && m@
                == "Epochs must be greater than 0"@),
            params.epochs != 0 && params.batch_size == 0 ==> (r matches Err(
                TrainError::InvalidParameters(m),
            ) && m@ == "Batch size must be greater than 0"@),
            params.epochs != 0 && params.batch_size != 0 && f32_le(params.learning_rate, F32_ZERO)
                ==> (r matches Err(TrainError::InvalidParameters(m)) && m@
                == "Learning rate must be positive"@),
            r is Ok <==> (params.epochs != 0 && params.batch_size != 0 && !f32_le(
                params.learning_rate,
                F32_ZERO,
            )),
    {
        if params.epochs == 0 {
            return Err(TrainError::InvalidParameters("Epochs must be greater than 0".to_string()));
        }
        if params.batch_size == 0 {
            return Err(
                TrainError::InvalidParameters("Batch size must be greater than 0".to_string()),
            );
        }
        if le(params.learning_rate, F32_ZERO) {
            return Err(TrainError::InvalidParameters("Learning rate must be positive".to_string()));
        }
        Ok(())
    }

    /// The checks a training request passes before any work is done: the
    /// data must hold enough texts for the model type, and the parameters
    /// must be valid.
    pub fn check_request(&self, data: &TrainData, params: &TrainParams) -> (r: Result<(), TrainError>)
        ensures
            r is Ok <==> request_error(data.texts@.len(), *params) is None,
            r matches Err(e) ==> is_request_error(e, request_error(data.texts@.len(), *params).unwrap()),
    {
        let n = data.texts.len();
        if n == 0 {
            return Err(TrainError::InsufficientData("Training data contains no texts".to_string()));
        }
        let min = params.model_type.min_samples();
        if n < min {
            let have = decimal(n as u64);
            let need = decimal(min as u64);
            let head = join3("Insufficient training samples: have ", have.as_str(), ", need at least ");
            let msg = crate::text::join2(head.as_str(), need.as_str());
            return Err(TrainError::InsufficientData(msg));
        }
        self.validate_params(params)
    }

    /// The file name of a trained model: its type, an underscore, its
    /// identifier and ".model".
    pub fn model_file_name(model_type: ModelType, model_id: u128) -> (r: String)
        ensures
            r@ == model_type_label(model_type) + "_"@ + uuid_text(model_id) + ".model"@,
    {
        let head = join3(model_type.label(), "_", uuid_string(model_id).as_str());
        crate::text::join2(head.as_str(), ".model")
    }
}

impl Default for Trainer {
    fn default() -> (r: Self)
        ensures
            r.device_spec() == TrainingDevice::Cpu,
    {
        Trainer::new()
    }
}

/// The options of a data preparer.
pub struct PreparerOptions {
    pub min_text_length: usize,
    pub include_code: bool,
    pub include_files: bool,
    pub extract_labels: bool,
}

/// The training text of a content, if it gives one: a text as it is, code
/// as "language: code" (when code is included), a file as its content
/// (when files are included), and a composite as the texts of its parts,
/// each followed by a newline (none when no part gives a text).
pub open spec fn prep_text(p: PreparerOptions, c: ContentView) -> Option<Seq<char>>
    decreases c, 0int,
{
    match c {
        ContentView::Text(s) => Some(s),
        ContentView::Code { language, code, .. } => if p.include_code {
            Some(language + ": "@ + code)
        } else {
            None
        },
        ContentView::File { content, .. } => if p.include_files {
            Some(content)
        } else {
            None
        },
        ContentView::Composite(items) => {
            let comb = prep_concat(p, items, items.len() as int);
            if comb.len() == 0 {
                None
            } else {
                Some(comb)
            }
        },
    }
}

/// The texts of the first `n` parts of a composite, each followed by a
/// newline.
pub open spec fn prep_concat(p: PreparerOptions, items: Seq<ContentView>, n: int) -> Seq<char>
    decreases items, n,
{
    if n <= 0 || n > items.len() {
        Seq::empty()
    } else {
        let prev = prep_concat(p, items, n - 1);
        match prep_text(p, items[n - 1]) {
            Some(t) => prev + t + "\n"@,
            None => prev,
        }
    }
}

/// The text a memory contributes: its training text, if it is at least
/// `min_text_length` bytes long in UTF-8.
pub open spec fn contributed(p: PreparerOptions, m: EntryView) -> Option<Seq<char>> {
    match prep_text(p, m.content) {
        Some(t) => if encode_utf8(t).len() >= p.min_text_length {
            Some(t)
        } else {
            None
        },
        None => None,
    }
}

/// The label of a memory: its tags joined by commas, or "default" when it
/// has none.
pub open spec fn label_of(m: EntryView) -> Seq<char> {
    if m.metadata.tags.len() == 0 {
        "default"@
    } else {
        join_sep(m.metadata.tags, ","@)
    }
}

/// The texts the memories contribute, in order.
pub open spec fn prepared_texts(p: PreparerOptions, ms: Seq<EntryView>) -> Seq<Seq<char>>
    decreases ms.len(),
{
    if ms.len() == 0 {
        Seq::empty()
    } else {
        let prev = prepared_texts(p, ms.drop_last());
        match contributed(p, ms.last()) {
            Some(t) => prev.push(t),
            None => prev,
        }
    }
}

/// The labels of the memories that contribute a text, in order.
pub open spec fn prepared_labels(p: PreparerOptions, ms: Seq<EntryView>) -> Seq<Seq<char>>
    decreases ms.len(),
{
    if ms.len() == 0 {
        Seq::empty()
    } else {
        let prev = prepared_labels(p, ms.drop_last());
        match contributed(p, ms.last()) {
            Some(_) => prev.push(label_of(ms.last())),
            None => prev,
        }
    }
}

/// Each prepared text has its label: the two lists have the same length,
/// and no prepared text is shorter than the preparer's minimum.
pub proof fn lemma_labels_match_texts(p: PreparerOptions, ms: Seq<EntryView>)
    ensures
        prepared_labels(p, ms).len() == prepared_texts(p, ms).len(),
        forall|i: int|
            0 <= i < prepared_texts(p, ms).len() ==> encode_utf8(#[trigger] prepared_texts(p, ms)[i]).len()
                >= p.min_text_length,
    decreases ms.len(),
{
    if ms.len() > 0 {
        lemma_labels_match_texts(p, ms.drop_last());
        let prev = prepared_texts(p, ms.drop_last());
        assert forall|i: int| 0 <= i < prepared_texts(p, ms).len() implies encode_utf8(
            #[trigger] prepared_texts(p, ms)[i],
        ).len() >= p.min_text_length by {
            if i < prev.len() {
                assert(prepared_texts(p, ms)[i] == prev[i]);
            }
        }
    }
}

/// The views of a list of entries.
pub open spec fn entry_views(v: Seq<MemoryEntry>) -> Seq<EntryView> {
    v.map_values(|e: MemoryEntry| e@)
}

/// Texts seen as their characters.
pub open spec fn strings_view(v: Seq<String>) -> Seq<Seq<char>> {
    v.map_values(|s: String| s@)
}

/// Prepares training data from memory entries.
pub struct DataPreparer {
    min_text_length: usize,
    include_code: bool,
    include_files: bool,
    extract_labels: bool,
}

impl DataPreparer {
    pub closed spec fn options(&self) -> PreparerOptions {
        PreparerOptions {
            min_text_length: self.min_text_length,
            include_code: self.include_code,
            include_files: self.include_files,
            extract_labels: self.extract_labels,
        }
    }

    /// A preparer with the defaults: texts of at least 10 bytes, code and
    /// files included, labels extracted.
    pub fn new() -> (r: Self)
        ensures
            r.options() == (PreparerOptions {
                min_text_length: 10,
                include_code: true,
                include_files: true,
                extract_labels: true,
            }),
    {
        DataPreparer { min_text_length: 10, include_code: true, include_files: true, extract_labels: true }
    }

    /// Sets the minimum text length, in bytes.
    pub fn with_min_text_length(self, length: usize) -> (r: Self)
        ensures
            r.options() == (PreparerOptions { min_text_length: length, ..self.options() }),
    {
        let mut p = self;
        p.min_text_length = length;
        p
    }

    /// Sets whether code contributes texts.
    pub fn with_include_code(self, enabled: bool) -> (r: Self)
        ensures
            r.options() == (PreparerOptions { include_code: enabled, ..self.options() }),
    {
        let mut p = self;
        p.include_code = enabled;
        p
    }

    /// Sets whether files contribute texts.
    pub fn with_include_files(self, enabled: bool) -> (r: Self)
        ensures
            r.options() == (PreparerOptions { include_files: enabled, ..self.options() }),
    {
        let mut p = self;
        p.include_files = enabled;
        p
    }

    /// Sets whether labels are extracted from tags.
    pub fn with_extract_labels(self, extract: bool) -> (r: Self)
        ensures
            r.options() == (PreparerOptions { extract_labels: extract, ..self.options() }),
    {
        let mut p = self;
        p.extract_labels = extract;
        p
    }

    /// The training text of a content, if it gives one.
    #[verifier::loop_isolation(false)]
    pub fn extract_text(&self, content: &MemoryContent) -> (r: Option<String>)
        ensures
            match r {
                Some(s) => prep_text(self.options(), content@) == Some(s@),
                None => prep_text(self.options(), content@) is None,
            },
        decreases content,
    {
        match content {
            MemoryContent::Text(t) => {
                assert(content@ == ContentView::Text(t@));
                Some(t.as_str().to_string())
            },
            MemoryContent::Code(c) => {
                assert(content@ == (ContentView::Code {
                    language: c.language@,
                    code: c.code@,
                    ast_hash: crate::types::opt_text(c.ast_hash),
                }));
                if self.include_code {
                    Some(join3(c.language.as_str(), ": ", c.code.as_str()))
                } else {
                    None
                }
            },
            MemoryContent::File(f) => {
                assert(content@ == (ContentView::File {
                    path: f.path@,
                    content: f.content@,
                    file_type: f.file_type,
                }));
                if self.include_files {
                    Some(f.content.as_str().to_string())
                } else {
                    None
                }
            },
            MemoryContent::Composite(items) => {
                let ghost cv = Seq::new(
                    items@.len(),
                    |k: int|
                        if 0 <= k < items@.len() {
                            content_view(items@[k])
                        } else {
                            ContentView::Text(Seq::empty())
                        },
                );
                assert(content@ is Composite);
                let ghost a = content@->Composite_0;
                assert(a.len() == items@.len());
                assert(forall|k: int| 0 <= k < a.len() ==> a[k] == #[trigger] items@[k]@);
                let mut combined = String::new();
                let mut i: usize = 0;
                while i < items.len()
                    invariant
                        i <= items.len(),
                        a.len() == items@.len(),
                        forall|k: int| 0 <= k < a.len() ==> a[k] == #[trigger] items@[k]@,
                        combined@ == prep_concat(self.options(), a, i as int),
                    decreases items.len() - i,
                {
                    proof {
                        broadcast use vstd::std_specs::vec::axiom_vec_index_decreases;

                        assert(decreases_to!(*items => items[i as int]));
                        assert(decreases_to!(*content => content->Composite_0));
                        assert(decreases_to!(*content => items[i as int]));
                        assert(a[i as int] == items@[i as int]@);
                    }
                    match self.extract_text(&items[i]) {
                        Some(t) => {
                            combined.append(t.as_str());
                            combined.append("\n");
                        },
                        None => {},
                    }
                    i = i + 1;
                }
                assert(prep_text(self.options(), content@) == (if prep_concat(
                    self.options(),
                    a,
                    a.len() as int,
                ).len() == 0 {
                    None
                } else {
                    Some(prep_concat(self.options(), a, a.len() as int))
                }));
                if combined.as_str().is_empty() {
                    None
                } else {
                    Some(combined)
                }
            },
        }
    }

    /// The training data of the memories: the texts they contribute (those
    /// of at least `min_text_length` bytes), in order, and, when labels are
    /// extracted, one label per text. When no memory contributes a text the
    /// result is `InsufficientData`.
    pub fn prepare(&self, memories: Vec<MemoryEntry>) -> (r: Result<TrainData, TrainError>)
        ensures
            prepared_texts(self.options(), entry_views(memories@)).len() == 0 ==> (r matches Err(
                TrainError::InsufficientData(m),
            ) && m@ == "No valid text content found in memories"@),
            prepared_texts(self.options(), entry_views(memories@)).len() > 0 ==> (r matches Ok(d)
                && strings_view(d.texts@) == prepared_texts(self.options(), entry_views(memories@))
                && d.embeddings is None),
            prepared_texts(self.options(), entry_views(memories@)).len() > 0
                && self.options().extract_labels ==> (r matches Ok(d) && d.labels matches Some(l)
                && strings_view(l@) == prepared_labels(self.options(), entry_views(memories@))),
            prepared_texts(self.options(), entry_views(memories@)).len() > 0
                && !self.options().extract_labels ==> (r matches Ok(d) && d.labels is None),
    {
        let ghost ms = entry_views(memories@);
        let mut texts: Vec<String> = Vec::new();
        let mut labels: Vec<String> = Vec::new();
        let mut i: usize = 0;
        while i < memories.len()
            invariant
                i <= memories@.len(),
                ms == entry_views(memories@),
                strings_view(texts@) == prepared_texts(self.options(), ms.take(i as int)),
                strings_view(labels@) == prepared_labels(self.options(), ms.take(i as int)),
            decreases memories.len() - i,
        {
            proof {
                assert(ms.take(i + 1).drop_last() =~= ms.take(i as int));
                assert(ms.take(i + 1).last() == memories@[i as int]@);
            }
            let m = &memories[i];
            proof {
                assert(m@.metadata.tags =~= m.metadata.tags@.map_values(|s: String| s@));
                assert(ms[i as int] == m@);
            }
            match self.extract_text(&m.content) {
                Some(t) => {
                    if t.as_str().as_bytes().len() >= self.min_text_length {
                        let label = if m.metadata.tags.len() > 0 {
                            join_with(&m.metadata.tags, ",")
                        } else {
                            "default".to_string()
                        };
                        proof {
                            assert(strings_view(texts@.push(t)) =~= strings_view(texts@).push(t@));
                            assert(strings_view(labels@.push(label)) =~= strings_view(labels@).push(
                                label@,
                            ));
                        }
                        texts.push(t);
                        labels.push(label);
                    }
                },
                None => {},
            }
            proof {
                let next = ms.take(i + 1);
                assert(next.drop_last() =~= ms.take(i as int));
                assert(next.last() == m@);
                assert(next.len() > 0);
                assert(prepared_texts(self.options(), next) == match contributed(self.options(), m@) {
                    Some(t) => prepared_texts(self.options(), ms.take(i as int)).push(t),
                    None => prepared_texts(self.options(), ms.take(i as int)),
                });
                assert(prepared_labels(self.options(), next) == match contributed(self.options(), m@) {
                    Some(_) => prepared_labels(self.options(), ms.take(i as int)).push(label_of(m@)),
                    None => prepared_labels(self.options(), ms.take(i as int)),
                });
            }
            i = i + 1;
        }
        proof {
            assert(ms.take(memories@.len() as int) =~= ms);
        }
        if texts.len() == 0 {
            return Err(
                TrainError::InsufficientData("No valid text content found in memories".to_string()),
            );
        }
        let labels = if self.extract_labels {
            Some(labels)
        } else {
            None
        };
        Ok(TrainData { texts, labels, embeddings: None })
    }

    /// The query that fetches a workspace's memories for training: its
    /// Active memories, at most 10000, from the first.
    pub fn create_search_query(&self, workspace_id: WorkspaceId) -> (r: SearchQuery)
        ensures
            r.text is None,
            r.tags is None,
            r.workspace_id == Some(workspace_id),
            r.status == Some(MemoryStatus::Active),
            r.date_range is None,
            r.limit == 10000,
            r.offset == 0,
    {
        SearchQuery {
            text: None,
            tags: None,
            workspace_id: Some(workspace_id),
            status: Some(MemoryStatus::Active),
            date_range: None,
            limit: 10000,
            offset: 0,
        }
    }
}

impl Default for DataPreparer {
    fn default() -> (r: Self)
        ensures
            r.options() == (PreparerOptions {
                min_text_length: 10,
                include_code: true,
                include_files: true,
                extract_labels: true,
            }),
    {
        DataPreparer::new()
    }
}

/// A 64-bit value rotated left by five bits.
pub open spec fn rotl5(h: u64) -> u64 {
    (h << 5u64) | (h >> 59u64)
}

/// The hash after the first `n` bytes: each byte, times its position plus
/// one, is added (wrapping) and the sum rotated left by five bits.
pub open spec fn hash_prefix(bytes: Seq<u8>, n: int) -> u64
    decreases n,
{
    if n <= 0 || n > bytes.len() {
        0
    } else {
        let h = hash_prefix(bytes, n - 1);
        rotl5(h.wrapping_add((bytes[n - 1] as u64).wrapping_mul(n as u64)))
    }
}

/// The hash of a text's UTF-8 bytes, with zero replaced by one.
pub open spec fn simple_hash_spec(s: Seq<char>) -> u64 {
    let h = hash_prefix(encode_utf8(s), encode_utf8(s).len() as int);
    if h == 0 {
        1
    } else {
        h
    }
}

/// The hash of a text's UTF-8 bytes, never zero.
pub fn simple_hash(text: &str) -> (r: u64)
    ensures
        r == simple_hash_spec(text@),
        r != 0,
{
    let bytes = text.as_bytes();
    let mut hash: u64 = 0;
    let mut i: usize = 0;
    while i < bytes.len()
        invariant
            i <= bytes@.len(),
            bytes@ == encode_utf8(text@),
            hash == hash_prefix(bytes@, i as int),
        decreases bytes.len() - i,
    {
        let b = bytes[i];
        let pos: u64 = i as u64 + 1;
        hash = hash.wrapping_add((b as u64).wrapping_mul(pos));
        hash = (hash << 5u64) | (hash >> 59u64);
        i = i + 1;
    }
    if hash == 0 {
        hash = 1;
    }
    hash
}

/// The number of components of a hash-based embedding.
pub const EMBEDDING_DIM: usize = 128;

/// Component `i` of the embedding of a hash: `1.0` where bit `i mod 64` of
/// the hash is set, `-1.0` elsewhere (as `f32` bit patterns).
pub open spec fn embedding_component(h: u64, i: int) -> u32 {
    if (h >> ((i % 64) as u64)) & 1u64 == 1u64 {
        F32_ONE
    } else {
        F32_MINUS_ONE
    }
}

/// The hash-based embedding of a text.
pub fn simple_embedding(text: &str) -> (r: Vec<u32>)
    ensures
        r@.len() == EMBEDDING_DIM,
        forall|i: int| 0 <= i < EMBEDDING_DIM ==> #[trigger] r@[i] == embedding_component(simple_hash_spec(text@), i),
{
    let hash = simple_hash(text);
    let mut out: Vec<u32> = Vec::new();
    let mut i: usize = 0;
    while i < EMBEDDING_DIM
        invariant
            i <= EMBEDDING_DIM,
            hash == simple_hash_spec(text@),
            out@.len() == i,
            forall|k: int| 0 <= k < i ==> #[trigger] out@[k] == embedding_component(hash, k),
        decreases EMBEDDING_DIM - i,
    {
        let shift: u64 = (i % 64) as u64;
        let bit = (hash >> shift) & 1u64;
        let v = if bit == 1u64 {
            F32_ONE
        } else {
            F32_MINUS_ONE
        };
        out.push(v);
        i = i + 1;
    }
    out
}

/// The hash-based embeddings of texts, one per text, in order.
pub fn generate_simple_embeddings(texts: &Vec<String>) -> (r: Vec<Vec<u32>>)
    ensures
        r@.len() == texts@.len(),
        forall|j: int|
            0 <= j < texts@.len() ==> (#[trigger] r@[j])@.len() == EMBEDDING_DIM && forall|i: int|
                0 <= i < EMBEDDING_DIM ==> r@[j]@[i] == embedding_component(
                    simple_hash_spec(texts@[j]@),
                    i,
                ),
{
    let mut out: Vec<Vec<u32>> = Vec::new();
    let mut j: usize = 0;
    while j < texts.len()
        invariant
            j <= texts@.len(),
            out@.len() == j,
            forall|k: int|
                0 <= k < j ==> (#[trigger] out@[k])@.len() == EMBEDDING_DIM && forall|i: int|
                    0 <= i < EMBEDDING_DIM ==> out@[k]@[i] == embedding_component(
                        simple_hash_spec(texts@[k]@),
                        i,
                    ),
        decreases texts.len() - j,
    {
        let e = simple_embedding(texts[j].as_str());
        out.push(e);
        j = j + 1;
    }
    out
}

} // verus!
