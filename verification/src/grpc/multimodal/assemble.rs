//! Assembly: from preprocessing results to what the target backend takes.
//!
//! For TokenSpeed this also splits the batched preprocessing output into
//! per-item encoder inputs and per-item content hashes used for encode routing.

use crate::grpc::multimodal::serialize::{
    model_specific_to_tensor_bytes, take_rows, volume, ModelSpecificValue, Tensor, TensorBytes,
    TensorText, ValueText,
};
use crate::grpc::multimodal::types::{Modality, PlaceholderRange};
use crate::grpc::proto_wrapper::request::{backend_name, backend_text, Engine};
use crate::outside::{blake3_digest, blake3_hash};
use crate::text::{decimal, decimal_text, same};
use vstd::prelude::*;
use vstd::utf8::encode_utf8;

verus! {

/// A fetched image or video: its bytes, and a hash of them.
pub struct MediaItem {
    pub raw_bytes: Vec<u8>,
    pub hash: String,
}

/// How a tensor's first dimension relates to the items of a request.
pub enum FieldLayout {
    /// One row per item.
    Batched,
    /// As many rows for each item as another tensor says.
    Flat { sizes_key: String },
}

/// What the vision preprocessor hands over.
pub struct PreprocessedEncoderInputs {
    pub encoder_input: Tensor,
    pub feature_token_counts: Vec<usize>,
    pub item_sizes: Vec<(u32, u32)>,
    pub model_specific: Vec<(String, ModelSpecificValue)>,
}

/// Preprocessing results, not yet serialized.
pub struct PrecomputedMultimodalIntermediate {
    /// Active modality for this preprocessed payload.
    pub modality: Modality,
    /// Preprocessed encoder input and model-specific tensors.
    pub preprocessed: PreprocessedEncoderInputs,
    pub images: Vec<MediaItem>,
    pub videos: Vec<MediaItem>,
    /// Full structural placeholder ranges.
    pub placeholders: Vec<PlaceholderRange>,
    /// Patch-only placeholder offsets.
    pub patch_offsets: Option<Vec<(u32, u32)>>,
    /// Placeholder token ID from model config for the active modality.
    pub placeholder_token_id: Option<u32>,
    /// Per-tensor field layout classification from the model spec.
    pub field_layouts: Vec<(String, FieldLayout)>,
    /// Tensor keys that should remain on CPU.
    pub keep_on_cpu_keys: Vec<String>,
}

impl PreprocessedEncoderInputs {
    /// Tensors have as many elements as their shapes say.
    pub open spec fn wf(&self) -> bool {
        &&& self.encoder_input.wf()
        &&& forall|i: int|
            0 <= i < self.model_specific@.len() ==> (#[trigger] self.model_specific@[i]).1.wf()
    }
}

/// Why assembly fails.
#[derive(Debug)]
pub enum AssembleError {
    NoItems,
    MediaCountMismatch { modality: Modality, media_count: usize, item_count: usize },
    TokenCountMismatch { modality: Modality, token_count: usize, item_count: usize },
    PlaceholderCountMismatch { modality: Modality, placeholder_count: usize, item_count: usize },
    SliceRangeOverflow,
    SliceExceeds { start: usize, end: usize, rows: usize },
    MissingFlatSizes { key: String },
    InvalidFlatSizes { key: String },
    MissingFlatSize { item_index: usize },
    FlatSizeOffsetOverflow,
    ModelSpecificSlice { key: String },
    FlatModelSpecificSlice { key: String },
    ImageOnly { backend: Engine, modality: Modality },
}

/// The text of a mismatch.
pub open spec fn mismatch_text(
    what: Seq<char>,
    modality: Modality,
    count: usize,
    item_count: usize,
) -> Seq<char> {
    "precomputed multimodal assembly "@ + what + " count mismatch: modality="@ + modality.text()
        + ", "@ + what + "_count="@ + decimal_text(count as nat) + ", item_count="@ + decimal_text(
        item_count as nat,
    )
}

fn mismatch_message(what: &str, modality: Modality, count: usize, item_count: usize) -> (s: String)
    ensures
        s@ == mismatch_text(what@, modality, count, item_count),
{
    let mut s = "precomputed multimodal assembly ".to_owned();
    s.append(what);
    s.append(" count mismatch: modality=");
    s.append(modality.name());
    s.append(", ");
    s.append(what);
    s.append("_count=");
    s.append(decimal(count as u128).as_str());
    s.append(", item_count=");
    s.append(decimal(item_count as u128).as_str());
    s
}

fn joined(front: &str, back: &str) -> (s: String)
    ensures
        s@ == front@ + back@,
{
    let mut s = front.to_owned();
    s.append(back);
    s
}

impl AssembleError {
    /// What is said of the error.
    pub open spec fn text(&self) -> Seq<char> {
        match *self {
            AssembleError::NoItems =>
                "precomputed multimodal assembly requires at least one item"@,
            AssembleError::MediaCountMismatch { modality, media_count, item_count } =>
                mismatch_text("media"@, modality, media_count, item_count),
            AssembleError::TokenCountMismatch { modality, token_count, item_count } =>
                mismatch_text("token"@, modality, token_count, item_count),
            AssembleError::PlaceholderCountMismatch { modality, placeholder_count, item_count } =>
                mismatch_text("placeholder"@, modality, placeholder_count, item_count),
            AssembleError::SliceRangeOverflow => "array slice range overflow"@,
            AssembleError::SliceExceeds { start, end, rows } => "array first-dimension slice "@
                + decimal_text(start as nat) + ".."@ + decimal_text(end as nat) + " exceeds "@
                + decimal_text(rows as nat),
            AssembleError::MissingFlatSizes { key } => "missing flat sizes tensor "@ + key@,
            AssembleError::InvalidFlatSizes { key } => "invalid flat sizes tensor "@ + key@,
            AssembleError::MissingFlatSize { item_index } => "missing flat size for item "@
                + decimal_text(item_index as nat),
            AssembleError::FlatSizeOffsetOverflow => "flat size offset overflow"@,
            AssembleError::ModelSpecificSlice { key } => "failed to slice model_specific tensor "@
                + key@,
            AssembleError::FlatModelSpecificSlice { key } =>
                "failed to slice flat model_specific tensor "@ + key@,
            AssembleError::ImageOnly { backend, modality } => backend_text(backend)
                + " multimodal path currently supports image inputs only; got "@
                + modality.text(),
        }
    }

    pub fn message(&self) -> (s: String)
        ensures
            s@ == self.text(),
    {
        match self {
            AssembleError::NoItems =>
                "precomputed multimodal assembly requires at least one item".to_owned(),
            AssembleError::MediaCountMismatch { modality, media_count, item_count } =>
                mismatch_message("media", *modality, *media_count, *item_count),
            AssembleError::TokenCountMismatch { modality, token_count, item_count } =>
                mismatch_message("token", *modality, *token_count, *item_count),
            AssembleError::PlaceholderCountMismatch { modality, placeholder_count, item_count } =>
                mismatch_message("placeholder", *modality, *placeholder_count, *item_count),
            AssembleError::SliceRangeOverflow => "array slice range overflow".to_owned(),
            AssembleError::SliceExceeds { start, end, rows } => {
                let mut s = "array first-dimension slice ".to_owned();
                s.append(decimal(*start as u128).as_str());
                s.append("..");
                s.append(decimal(*end as u128).as_str());
                s.append(" exceeds ");
                s.append(decimal(*rows as u128).as_str());
                s
            },
            AssembleError::MissingFlatSizes { key } => joined(
                "missing flat sizes tensor ",
                key.as_str(),
            ),
            AssembleError::InvalidFlatSizes { key } => joined(
                "invalid flat sizes tensor ",
                key.as_str(),
            ),
            AssembleError::MissingFlatSize { item_index } => joined(
                "missing flat size for item ",
                decimal(*item_index as u128).as_str(),
            ),
            AssembleError::FlatSizeOffsetOverflow => "flat size offset overflow".to_owned(),
            AssembleError::ModelSpecificSlice { key } => joined(
                "failed to slice model_specific tensor ",
                key.as_str(),
            ),
            AssembleError::FlatModelSpecificSlice { key } => joined(
                "failed to slice flat model_specific tensor ",
                key.as_str(),
            ),
            AssembleError::ImageOnly { backend, modality } => {
                let mut s = backend_name(*backend).to_owned();
                s.append(" multimodal path currently supports image inputs only; got ");
                s.append(modality.name());
                s
            },
        }
    }
}

/// The greatest of three numbers.
pub open spec fn greatest(a: int, b: int, c: int) -> int {
    if a >= b && a >= c {
        a
    } else if b >= c {
        b
    } else {
        c
    }
}

impl PrecomputedMultimodalIntermediate {
    /// How many media items of the active modality there are.
    pub open spec fn media_count(&self) -> int {
        match self.modality {
            Modality::Image | Modality::ImageEmbeds => self.images@.len() as int,
            Modality::Video => self.videos@.len() as int,
            Modality::Audio => 0,
        }
    }

    /// How many items the payload has, or why that cannot be said: there must
    /// be as many token counts, placeholders and, unless there is none,
    /// media.
    pub open spec fn item_count(&self) -> Result<int, AssembleError> {
        let media = self.media_count();
        let tokens = self.preprocessed.feature_token_counts@.len() as int;
        let placeholders = self.placeholders@.len() as int;
        let items = greatest(tokens, media, placeholders);
        if items == 0 {
            Err(AssembleError::NoItems)
        } else if media > 0 && media != items {
            Err(
                AssembleError::MediaCountMismatch {
                    modality: self.modality,
                    media_count: media as usize,
                    item_count: items as usize,
                },
            )
        } else if tokens != items {
            Err(
                AssembleError::TokenCountMismatch {
                    modality: self.modality,
                    token_count: tokens as usize,
                    item_count: items as usize,
                },
            )
        } else if placeholders != items {
            Err(
                AssembleError::PlaceholderCountMismatch {
                    modality: self.modality,
                    placeholder_count: placeholders as usize,
                    item_count: items as usize,
                },
            )
        } else {
            Ok(items)
        }
    }
}

pub fn precomputed_multimodal_item_count(intermediate: &PrecomputedMultimodalIntermediate) -> (r:
    Result<usize, AssembleError>)
    ensures
        match r {
            Ok(n) => intermediate.item_count() == Ok::<int, AssembleError>(n as int),
            Err(e) => intermediate.item_count() == Err::<int, AssembleError>(e),
        },
{
    let media_count: usize = match intermediate.modality {
        Modality::Image | Modality::ImageEmbeds => intermediate.images.len(),
        Modality::Video => intermediate.videos.len(),
        Modality::Audio => 0,
    };
    let token_count: usize = intermediate.preprocessed.feature_token_counts.len();
    let placeholder_count: usize = intermediate.placeholders.len();
    let mut item_count: usize = token_count;
    if media_count > item_count {
        item_count = media_count;
    }
    if placeholder_count > item_count {
        item_count = placeholder_count;
    }
    if item_count == 0 {
        return Err(AssembleError::NoItems);
    }
    if media_count > 0 && media_count != item_count {
        return Err(
            AssembleError::MediaCountMismatch {
                modality: intermediate.modality,
                media_count,
                item_count,
            },
        );
    }
    if token_count != item_count {
        return Err(
            AssembleError::TokenCountMismatch {
                modality: intermediate.modality,
                token_count,
                item_count,
            },
        );
    }
    if placeholder_count != item_count {
        return Err(
            AssembleError::PlaceholderCountMismatch {
                modality: intermediate.modality,
                placeholder_count,
                item_count,
            },
        );
    }
    Ok(item_count)
}

/// The first entry of `list` under `key`.
pub open spec fn entry_of<V>(list: Seq<(String, V)>, key: Seq<char>) -> Option<int>
    decreases list.len(),
{
    if list.len() == 0 {
        None
    } else {
        match entry_of(list.drop_last(), key) {
            Some(i) => Some(i),
            None => if list.last().0@ == key {
                Some(list.len() - 1)
            } else {
                None
            },
        }
    }
}

/// The first entry of `list` under `key`.
pub fn find_entry<V>(list: &Vec<(String, V)>, key: &str) -> (r: Option<usize>)
    ensures
        match r {
            Some(i) => entry_of(list@, key@) == Some(i as int) && i < list@.len(),
            None => entry_of(list@, key@) is None,
        },
{
    let mut i: usize = 0;
    assert(list@.take(0) =~= Seq::<(String, V)>::empty());
    while i < list.len()
        invariant
            i <= list@.len(),
            entry_of(list@.take(i as int), key@) is None,
        decreases list@.len() - i,
    {
        proof {
            assert(list@.take(i + 1).drop_last() =~= list@.take(i as int));
            lemma_entry_stays(list@, key@, i + 1);
        }
        if same(list[i].0.as_str(), key) {
            return Some(i);
        }
        i += 1;
    }
    assert(list@.take(list@.len() as int) =~= list@);
    None
}

proof fn lemma_entry_stays<V>(list: Seq<(String, V)>, key: Seq<char>, n: int)
    requires
        0 <= n <= list.len(),
    ensures
        entry_of(list.take(n), key) is Some ==> entry_of(list, key) == entry_of(
            list.take(n),
            key,
        ),
    decreases list.len() - n,
{
    if n < list.len() {
        lemma_entry_stays(list, key, n + 1);
        assert(list.take(n + 1).drop_last() =~= list.take(n));
    } else {
        assert(list.take(n) =~= list);
    }
}

/// An entry that is found is one under the key.
proof fn lemma_entry_is<V>(list: Seq<(String, V)>, key: Seq<char>)
    ensures
        entry_of(list, key) matches Some(i) ==> 0 <= i < list.len() && list[i].0@ == key,
    decreases list.len(),
{
    if list.len() > 0 {
        lemma_entry_is(list.drop_last(), key);
    }
}

/// The sum of the first `n` of `sizes`.
pub open spec fn size_sum(sizes: Seq<usize>, n: int) -> nat
    decreases n,
{
    if n <= 0 {
        0
    } else {
        size_sum(sizes, n - 1) + sizes[n - 1] as nat
    }
}

/// Where the rows of an item start, and how many there are.
pub open spec fn span_of(sizes: Seq<usize>, item_index: int) -> Result<
    (int, int),
    AssembleError,
> {
    if item_index >= sizes.len() {
        Err(AssembleError::MissingFlatSize { item_index: item_index as usize })
    } else if size_sum(sizes, item_index) > usize::MAX {
        Err(AssembleError::FlatSizeOffsetOverflow)
    } else {
        Ok((size_sum(sizes, item_index) as int, sizes[item_index] as int))
    }
}

proof fn lemma_size_sum_grows(sizes: Seq<usize>, m: int, n: int)
    requires
        0 <= m <= n,
    ensures
        size_sum(sizes, m) <= size_sum(sizes, n),
    decreases n - m,
{
    if m < n {
        lemma_size_sum_grows(sizes, m, n - 1);
    }
}

pub fn item_span(sizes: &Vec<usize>, item_index: usize) -> (r: Result<
    (usize, usize),
    AssembleError,
>)
    ensures
        match r {
            Ok((start, len)) => span_of(sizes@, item_index as int)
                == Ok::<(int, int), AssembleError>((start as int, len as int)),
            Err(e) => span_of(sizes@, item_index as int) == Err::<(int, int), AssembleError>(e),
        },
{
    if item_index >= sizes.len() {
        return Err(AssembleError::MissingFlatSize { item_index });
    }
    let mut start: usize = 0;
    let mut i: usize = 0;
    while i < item_index
        invariant
            i <= item_index < sizes@.len(),
            start == size_sum(sizes@, i as int),
        decreases item_index - i,
    {
        proof {
            lemma_size_sum_grows(sizes@, i + 1, item_index as int);
        }
        match start.checked_add(sizes[i]) {
            Some(sum) => {
                start = sum;
            },
            None => {
                return Err(AssembleError::FlatSizeOffsetOverflow);
            },
        }
        i += 1;
    }
    Ok((start, sizes[item_index]))
}

/// The sizes that a value holds, if it holds sizes.
pub open spec fn sizes_in(value: ModelSpecificValue) -> Option<Seq<usize>> {
    match value {
        ModelSpecificValue::UintTensor { data, .. } => Some(
            data@.map_values(|x: u32| x as usize),
        ),
        ModelSpecificValue::UintVec(v) => Some(v@.map_values(|x: u32| x as usize)),
        ModelSpecificValue::IntTensor { data, .. } => if all_sizes(data@) {
            Some(data@.map_values(|x: i64| x as usize))
        } else {
            None
        },
        ModelSpecificValue::IntVec(v) => if all_sizes(v@) {
            Some(v@.map_values(|x: i64| x as usize))
        } else {
            None
        },
        _ => None,
    }
}

/// Each of `v` is a size.
pub open spec fn all_sizes(v: Seq<i64>) -> bool {
    forall|i: int| 0 <= i < v.len() ==> 0 <= #[trigger] v[i] <= usize::MAX
}

fn unsigned_sizes(v: &Vec<u32>) -> (r: Vec<usize>)
    ensures
        r@ == v@.map_values(|x: u32| x as usize),
{
    let mut r: Vec<usize> = Vec::new();
    let mut i: usize = 0;
    while i < v.len()
        invariant
            i <= v@.len(),
            r@ =~= v@.take(i as int).map_values(|x: u32| x as usize),
        decreases v@.len() - i,
    {
        r.push(v[i] as usize);
        i += 1;
    }
    assert(v@.take(v@.len() as int) =~= v@);
    r
}

fn signed_sizes(v: &Vec<i64>) -> (r: Option<Vec<usize>>)
    ensures
        match r {
            Some(s) => all_sizes(v@) && s@ == v@.map_values(|x: i64| x as usize),
            None => !all_sizes(v@),
        },
{
    let mut r: Vec<usize> = Vec::new();
    let mut i: usize = 0;
    while i < v.len()
        invariant
            i <= v@.len(),
            forall|j: int| 0 <= j < i ==> 0 <= #[trigger] v@[j] <= usize::MAX,
            r@ =~= v@.take(i as int).map_values(|x: i64| x as usize),
        decreases v@.len() - i,
    {
        let x: i64 = v[i];
        if x < 0 || x as u64 > usize::MAX as u64 {
            assert(!(0 <= v@[i as int] <= usize::MAX));
            return None;
        }
        r.push(x as usize);
        i += 1;
    }
    assert(v@.take(v@.len() as int) =~= v@);
    Some(r)
}

impl ModelSpecificValue {
    /// The sizes that the value holds, if it holds sizes.
    pub fn as_flat_sizes(&self) -> (r: Option<Vec<usize>>)
        ensures
            match r {
                Some(s) => sizes_in(*self) == Some(s@),
                None => sizes_in(*self) is None,
            },
    {
        match self {
            ModelSpecificValue::UintTensor { data, .. } => Some(unsigned_sizes(data)),
            ModelSpecificValue::UintVec(v) => Some(unsigned_sizes(v)),
            ModelSpecificValue::IntTensor { data, .. } => signed_sizes(data),
            ModelSpecificValue::IntVec(v) => signed_sizes(v),
            _ => None,
        }
    }
}

/// The flat sizes that `model_specific` holds under `key`.
pub open spec fn flat_sizes(
    model_specific: Seq<(String, ModelSpecificValue)>,
    key: String,
) -> Result<Seq<usize>, AssembleError> {
    match entry_of(model_specific, key@) {
        None => Err(AssembleError::MissingFlatSizes { key }),
        Some(i) => match sizes_in(model_specific[i].1) {
            None => Err(AssembleError::InvalidFlatSizes { key }),
            Some(s) => Ok(s),
        },
    }
}

fn tensor_sizes_from_model_specific(
    model_specific: &Vec<(String, ModelSpecificValue)>,
    key: &String,
) -> (r: Result<Vec<usize>, AssembleError>)
    ensures
        match r {
            Ok(s) => flat_sizes(model_specific@, *key) == Ok::<Seq<usize>, AssembleError>(s@),
            Err(e) => flat_sizes(model_specific@, *key) == Err::<Seq<usize>, AssembleError>(e),
        },
{
    match find_entry(model_specific, key.as_str()) {
        None => Err(AssembleError::MissingFlatSizes { key: key.clone() }),
        Some(i) => match model_specific[i].1.as_flat_sizes() {
            None => Err(AssembleError::InvalidFlatSizes { key: key.clone() }),
            Some(s) => Ok(s),
        },
    }
}

/// Which rows belong to an item under a flat layout.
pub open spec fn flat_span(
    model_specific: Seq<(String, ModelSpecificValue)>,
    sizes_key: String,
    item_index: int,
) -> Result<(int, int), AssembleError> {
    match flat_sizes(model_specific, sizes_key) {
        Err(e) => Err(e),
        Ok(sizes) => span_of(sizes, item_index),
    }
}

fn flat_rows(
    model_specific: &Vec<(String, ModelSpecificValue)>,
    sizes_key: &String,
    item_index: usize,
) -> (r: Result<(usize, usize), AssembleError>)
    ensures
        match r {
            Ok((start, len)) => flat_span(model_specific@, *sizes_key, item_index as int)
                == Ok::<(int, int), AssembleError>((start as int, len as int)),
            Err(e) => flat_span(model_specific@, *sizes_key, item_index as int)
                == Err::<(int, int), AssembleError>(e),
        },
{
    match tensor_sizes_from_model_specific(model_specific, sizes_key) {
        Err(e) => Err(e),
        Ok(sizes) => item_span(&sizes, item_index),
    }
}

/// Which rows of the encoder input belong to an item.
pub open spec fn encoder_span(
    pre: PreprocessedEncoderInputs,
    layouts: Seq<(String, FieldLayout)>,
    item_index: int,
) -> Result<(int, int), AssembleError> {
    match entry_of(layouts, "pixel_values"@) {
        Some(k) => match layouts[k].1 {
            FieldLayout::Batched => Ok((item_index, 1)),
            FieldLayout::Flat { sizes_key } => flat_span(
                pre.model_specific@,
                sizes_key,
                item_index,
            ),
        },
        None => Ok((item_index, 1)),
    }
}

/// How many rows a tensor has: its first dimension, none where it has no
/// dimensions.
pub open spec fn rows_in(shape: Seq<usize>) -> usize {
    if shape.len() > 0 {
        shape[0]
    } else {
        0
    }
}

/// What is wrong with rows `start..start + len` of a tensor with `rows` rows.
pub open spec fn slice_problem(rows: usize, start: int, len: int) -> Option<AssembleError> {
    if start + len > usize::MAX {
        Some(AssembleError::SliceRangeOverflow)
    } else if start + len > rows {
        Some(
            AssembleError::SliceExceeds {
                start: start as usize,
                end: (start + len) as usize,
                rows,
            },
        )
    } else {
        None
    }
}

/// `t` is rows `start..start + len` of `of`.
pub open spec fn is_rows_of(t: Tensor, of: Tensor, start: int, len: int) -> bool {
    let row = volume(of.shape@.skip(1)) as int;
    &&& t.bits@ == of.bits@.subrange(start * row, (start + len) * row)
    &&& t.shape@ == of.shape@.update(0, len as usize)
}

/// Rows `start..start + len` of a tensor. Of a tensor without dimensions there is
/// not even an empty range of rows.
pub fn slice_array_axis0(t: &Tensor, start: usize, len: usize) -> (r: Result<
    Tensor,
    AssembleError,
>)
    requires
        t.wf(),
        t.shape@.len() > 0 || start + len > 0,
    ensures
        match r {
            Ok(s) => slice_problem(rows_in(t.shape@), start as int, len as int) is None && is_rows_of(
                s,
                *t,
                start as int,
                len as int,
            ) && s.wf(),
            Err(e) => slice_problem(rows_in(t.shape@), start as int, len as int) == Some(e),
        },
{
    let end: usize = match start.checked_add(len) {
        Some(end) => end,
        None => {
            return Err(AssembleError::SliceRangeOverflow);
        },
    };
    let rows: usize = if t.shape.len() > 0 {
        t.shape[0]
    } else {
        0
    };
    if end > rows {
        return Err(AssembleError::SliceExceeds { start, end, rows });
    }
    let (bits, shape) = take_rows(&t.bits, &t.shape, start, len);
    Ok(Tensor { shape, bits })
}

/// Why an item has no encoder input of its own.
pub open spec fn encoder_problem(
    pre: PreprocessedEncoderInputs,
    layouts: Seq<(String, FieldLayout)>,
    item_index: int,
) -> Option<AssembleError> {
    match encoder_span(pre, layouts, item_index) {
        Err(e) => Some(e),
        Ok((start, len)) => slice_problem(rows_in(pre.encoder_input.shape@), start, len),
    }
}

/// `t` is the encoder input of an item.
pub open spec fn is_encoder_input(
    t: Tensor,
    pre: PreprocessedEncoderInputs,
    layouts: Seq<(String, FieldLayout)>,
    item_index: int,
) -> bool {
    encoder_span(pre, layouts, item_index) matches Ok((start, len)) && is_rows_of(
        t,
        pre.encoder_input,
        start,
        len,
    )
}

/// The encoder input can be looked at for an item: it has dimensions, or not an
/// empty range of rows is asked for.
pub open spec fn can_slice(
    pre: PreprocessedEncoderInputs,
    layouts: Seq<(String, FieldLayout)>,
    item_index: int,
) -> bool {
    pre.encoder_input.shape@.len() > 0 || encoder_span(pre, layouts, item_index) != Ok::<
        (int, int),
        AssembleError,
    >((0, 0))
}

/// Which rows of the encoder input belong to an item.
pub fn encoder_rows(
    pre: &PreprocessedEncoderInputs,
    field_layouts: &Vec<(String, FieldLayout)>,
    item_index: usize,
) -> (r: Result<(usize, usize), AssembleError>)
    ensures
        match r {
            Ok((start, len)) => encoder_span(*pre, field_layouts@, item_index as int) == Ok::<
                (int, int),
                AssembleError,
            >((start as int, len as int)),
            Err(e) => encoder_span(*pre, field_layouts@, item_index as int) == Err::<
                (int, int),
                AssembleError,
            >(e),
        },
{
    // The layout key mirrors the vision kwargs contract; the tensor is the
    // encoder input of whatever modality is active.
    match find_entry(field_layouts, "pixel_values") {
        Some(k) => match &field_layouts[k].1 {
            FieldLayout::Batched => Ok((item_index, 1)),
            FieldLayout::Flat { sizes_key } => flat_rows(
                &pre.model_specific,
                sizes_key,
                item_index,
            ),
        },
        None => Ok((item_index, 1)),
    }
}

/// The rows of the encoder input that belong to an item.
pub fn encoder_input_for_item(
    pre: &PreprocessedEncoderInputs,
    field_layouts: &Vec<(String, FieldLayout)>,
    item_index: usize,
) -> (r: Result<Tensor, AssembleError>)
    requires
        pre.wf(),
        can_slice(*pre, field_layouts@, item_index as int),
    ensures
        match r {
            Ok(t) => encoder_problem(*pre, field_layouts@, item_index as int) is None
                && is_encoder_input(t, *pre, field_layouts@, item_index as int) && t.wf(),
            Err(e) => encoder_problem(*pre, field_layouts@, item_index as int) == Some(e),
        },
{
    match encoder_rows(pre, field_layouts, item_index) {
        Err(e) => Err(e),
        Ok((start, len)) => slice_array_axis0(&pre.encoder_input, start, len),
    }
}

/// What entry `k` of the model-specific values comes to for an item: the part
/// that belongs to it, or all of it where no layout is known.
pub open spec fn value_for_item(
    model_specific: Seq<(String, ModelSpecificValue)>,
    layouts: Seq<(String, FieldLayout)>,
    item_index: int,
    k: int,
) -> Result<Option<ValueText>, AssembleError> {
    let key = model_specific[k].0;
    let value = model_specific[k].1@;
    match entry_of(layouts, key@) {
        None => Ok(value),
        Some(l) => match layouts[l].1 {
            FieldLayout::Batched => if value is Some && value->0.has_rows(item_index, 1) {
                Ok(Some(value->0.rows(item_index, 1)))
            } else {
                Err(AssembleError::ModelSpecificSlice { key })
            },
            FieldLayout::Flat { sizes_key } => match flat_span(
                model_specific,
                sizes_key,
                item_index,
            ) {
                Err(e) => Err(e),
                Ok((start, len)) => if value is Some && value->0.has_rows(start, len) {
                    Ok(Some(value->0.rows(start, len)))
                } else {
                    Err(AssembleError::FlatModelSpecificSlice { key })
                },
            },
        },
    }
}

/// The model-specific tensors of an item that the first `n` entries come to;
/// entries that do not travel as tensors are left out.
pub open spec fn tensors_for_item(
    model_specific: Seq<(String, ModelSpecificValue)>,
    layouts: Seq<(String, FieldLayout)>,
    item_index: int,
    n: int,
) -> Result<Seq<(Seq<char>, TensorText)>, AssembleError>
    decreases n,
{
    if n <= 0 {
        Ok(Seq::empty())
    } else {
        match tensors_for_item(model_specific, layouts, item_index, n - 1) {
            Err(e) => Err(e),
            Ok(list) => match value_for_item(model_specific, layouts, item_index, n - 1) {
                Err(e) => Err(e),
                Ok(Some(v)) => Ok(list.push((model_specific[n - 1].0@, v.tensor()))),
                Ok(None) => Ok(list),
            },
        }
    }
}

/// What a list of named tensors says.
pub open spec fn named_tensors(list: Seq<(String, TensorBytes)>) -> Seq<(Seq<char>, TensorText)> {
    list.map_values(|e: (String, TensorBytes)| (e.0@, e.1@))
}

proof fn lemma_tensors_error_stays(
    model_specific: Seq<(String, ModelSpecificValue)>,
    layouts: Seq<(String, FieldLayout)>,
    item_index: int,
    m: int,
    n: int,
)
    requires
        0 <= m <= n,
    ensures
        tensors_for_item(model_specific, layouts, item_index, m) is Err ==> tensors_for_item(
            model_specific,
            layouts,
            item_index,
            n,
        ) == tensors_for_item(model_specific, layouts, item_index, m),
    decreases n,
{
    if m < n {
        lemma_tensors_error_stays(model_specific, layouts, item_index, m, n - 1);
    }
}

/// The tensor bytes of entry `k` for an item, none if it does not travel as a
/// tensor.
fn serialize_entry_for_item(
    model_specific: &Vec<(String, ModelSpecificValue)>,
    field_layouts: &Vec<(String, FieldLayout)>,
    item_index: usize,
    k: usize,
) -> (r: Result<Option<TensorBytes>, AssembleError>)
    requires
        k < model_specific@.len(),
        forall|i: int| 0 <= i < model_specific@.len() ==> (#[trigger] model_specific@[i]).1.wf(),
    ensures
        match r {
            Ok(t) => value_for_item(
                model_specific@,
                field_layouts@,
                item_index as int,
                k as int,
            ) matches Ok(v) && match v {
                Some(v) => t is Some && t->0@ == v.tensor(),
                None => t is None,
            },
            Err(e) => value_for_item(
                model_specific@,
                field_layouts@,
                item_index as int,
                k as int,
            ) == Err::<Option<ValueText>, AssembleError>(e),
        },
{
    let key: &String = &model_specific[k].0;
    let value: &ModelSpecificValue = &model_specific[k].1;
    assert(model_specific@[k as int].1.wf());
    match find_entry(field_layouts, key.as_str()) {
        None => Ok(model_specific_to_tensor_bytes(value)),
        Some(l) => match &field_layouts[l].1 {
            FieldLayout::Batched => match value.slice_first_dim(item_index, 1) {
                Some(part) => Ok(model_specific_to_tensor_bytes(&part)),
                None => Err(AssembleError::ModelSpecificSlice { key: key.clone() }),
            },
            FieldLayout::Flat { sizes_key } => match flat_rows(
                model_specific,
                sizes_key,
                item_index,
            ) {
                Err(e) => Err(e),
                Ok((start, len)) => match value.slice_first_dim(start, len) {
                    Some(part) => Ok(model_specific_to_tensor_bytes(&part)),
                    None => Err(AssembleError::FlatModelSpecificSlice { key: key.clone() }),
                },
            },
        },
    }
}

/// The model-specific tensors of an item.
pub fn serialize_model_specific_for_item(
    model_specific: &Vec<(String, ModelSpecificValue)>,
    field_layouts: &Vec<(String, FieldLayout)>,
    item_index: usize,
) -> (r: Result<Vec<(String, TensorBytes)>, AssembleError>)
    requires
        forall|i: int| 0 <= i < model_specific@.len() ==> (#[trigger] model_specific@[i]).1.wf(),
    ensures
        match r {
            Ok(list) => tensors_for_item(
                model_specific@,
                field_layouts@,
                item_index as int,
                model_specific@.len() as int,
            ) == Ok::<Seq<(Seq<char>, TensorText)>, AssembleError>(named_tensors(list@)),
            Err(e) => tensors_for_item(
                model_specific@,
                field_layouts@,
                item_index as int,
                model_specific@.len() as int,
            ) == Err::<Seq<(Seq<char>, TensorText)>, AssembleError>(e),
        },
{
    let mut serialized: Vec<(String, TensorBytes)> = Vec::new();
    let mut k: usize = 0;
    assert(named_tensors(serialized@) =~= Seq::<(Seq<char>, TensorText)>::empty());
    while k < model_specific.len()
        invariant
            k <= model_specific@.len(),
            forall|i: int|
                0 <= i < model_specific@.len() ==> (#[trigger] model_specific@[i]).1.wf(),
            tensors_for_item(model_specific@, field_layouts@, item_index as int, k as int)
                == Ok::<Seq<(Seq<char>, TensorText)>, AssembleError>(named_tensors(serialized@)),
        decreases model_specific@.len() - k,
    {
        proof {
            lemma_tensors_error_stays(
                model_specific@,
                field_layouts@,
                item_index as int,
                k + 1,
                model_specific@.len() as int,
            );
        }
        match serialize_entry_for_item(model_specific, field_layouts, item_index, k) {
            Err(e) => {
                return Err(e);
            },
            Ok(Some(tensor)) => {
                let ghost before = serialized@;
                serialized.push((model_specific[k].0.clone(), tensor));
                assert(named_tensors(serialized@) =~= named_tensors(before).push(
                    (model_specific@[k as int].0@, tensor@),
                ));
            },
            Ok(None) => {},
        }
        k += 1;
    }
    Ok(serialized)
}

/// A patch range lies inside `start..end`.
pub open spec fn patch_inside(p: (u32, u32), start: int, end: int) -> bool {
    p.0 >= start && (if p.0 + p.1 <= u32::MAX {
        p.0 + p.1
    } else {
        u32::MAX as int
    }) <= end
}

/// The placeholders of an item: the patch ranges inside its range, or the
/// range itself where there are none.
pub open spec fn item_placeholders(
    placeholder: PlaceholderRange,
    patch_offsets: Seq<(u32, u32)>,
) -> Seq<(u32, u32)> {
    let start = placeholder.offset as u32;
    let length = placeholder.length as u32;
    let inside = patch_offsets.filter(
        |p: (u32, u32)| patch_inside(p, start as int, start + length),
    );
    if inside.len() == 0 {
        seq![(start, length)]
    } else {
        inside
    }
}

pub fn placeholders_for_item(
    item_index: usize,
    placeholders: &Vec<PlaceholderRange>,
    patch_offsets: &Vec<(u32, u32)>,
) -> (r: Vec<(u32, u32)>)
    requires
        item_index < placeholders@.len() ==> (placeholders@[item_index as int].offset as u32)
            + (placeholders@[item_index as int].length as u32) <= u32::MAX,
    ensures
        r@ == if item_index < placeholders@.len() {
            item_placeholders(placeholders@[item_index as int], patch_offsets@)
        } else {
            Seq::empty()
        },
{
    if item_index >= placeholders.len() {
        return Vec::new();
    }
    let placeholder: PlaceholderRange = placeholders[item_index];
    let start: u32 = placeholder.offset as u32;
    let end: u32 = start + placeholder.length as u32;
    let ghost keep = |p: (u32, u32)| patch_inside(p, start as int, end as int);
    let mut inside: Vec<(u32, u32)> = Vec::new();
    let mut i: usize = 0;
    proof {
        reveal(Seq::filter);
        assert(patch_offsets@.take(0).filter(keep) =~= Seq::<(u32, u32)>::empty());
    }
    while i < patch_offsets.len()
        invariant
            i <= patch_offsets@.len(),
            keep == (|p: (u32, u32)| patch_inside(p, start as int, end as int)),
            inside@ == patch_offsets@.take(i as int).filter(keep),
        decreases patch_offsets@.len() - i,
    {
        let p: (u32, u32) = patch_offsets[i];
        proof {
            reveal(Seq::filter);
            assert(patch_offsets@.take(i + 1).drop_last() =~= patch_offsets@.take(i as int));
            assert(patch_offsets@.take(i + 1).last() == p);
        }
        if p.0 >= start && p.0.saturating_add(p.1) <= end {
            inside.push(p);
        }
        i += 1;
    }
    assert(patch_offsets@.take(patch_offsets@.len() as int) =~= patch_offsets@);
    if inside.len() == 0 {
        let mut whole: Vec<(u32, u32)> = Vec::new();
        whole.push((start, end - start));
        assert(whole@ =~= seq![(start, placeholder.length as u32)]);
        whole
    } else {
        inside
    }
}

/// The bytes of the texts of `hashes`, one after the other.
pub open spec fn hash_bytes(hashes: Seq<String>) -> Seq<u8>
    decreases hashes.len(),
{
    if hashes.len() == 0 {
        Seq::empty()
    } else {
        hash_bytes(hashes.drop_last()) + encode_utf8(hashes.last()@)
    }
}

/// A digest of hashes that are given as text.
pub fn hash_hex_strings(hashes: &Vec<String>) -> (r: Vec<u8>)
    ensures
        r@ == blake3_digest(hash_bytes(hashes@)),
{
    let mut all: Vec<u8> = Vec::new();
    let mut i: usize = 0;
    assert(hashes@.take(0) =~= Seq::<String>::empty());
    while i < hashes.len()
        invariant
            i <= hashes@.len(),
            all@ == hash_bytes(hashes@.take(i as int)),
        decreases hashes@.len() - i,
    {
        let ghost before = all@;
        all.extend_from_slice(hashes[i].as_str().as_bytes());
        assert(hashes@.take(i + 1).drop_last() =~= hashes@.take(i as int));
        assert(all@ =~= before + encode_utf8(hashes@[i as int]@));
        i += 1;
    }
    assert(hashes@.take(hashes@.len() as int) =~= hashes@);
    blake3_hash(&all)
}

impl PrecomputedMultimodalIntermediate {
    /// The hash of an item's media, none where the modality has none.
    pub open spec fn media_hash(&self, item_index: int) -> Option<String> {
        match self.modality {
            Modality::Image | Modality::ImageEmbeds => if item_index < self.images@.len() {
                Some(self.images@[item_index].hash)
            } else {
                None
            },
            Modality::Video => if item_index < self.videos@.len() {
                Some(self.videos@[item_index].hash)
            } else {
                None
            },
            Modality::Audio => None,
        }
    }

    /// The content hash of an item: a digest of its media's hash.
    pub open spec fn content_hash(&self, item_index: int) -> Seq<u8> {
        match self.media_hash(item_index) {
            Some(hash) => blake3_digest(hash_bytes(seq![hash])),
            None => Seq::empty(),
        }
    }
}

pub fn content_hash_for_item(
    intermediate: &PrecomputedMultimodalIntermediate,
    item_index: usize,
) -> (r: Vec<u8>)
    ensures
        r@ == intermediate.content_hash(item_index as int),
{
    let hash: Option<&String> = match intermediate.modality {
        Modality::Image | Modality::ImageEmbeds => if item_index < intermediate.images.len() {
            Some(&intermediate.images[item_index].hash)
        } else {
            None
        },
        Modality::Video => if item_index < intermediate.videos.len() {
            Some(&intermediate.videos[item_index].hash)
        } else {
            None
        },
        Modality::Audio => None,
    };
    match hash {
        Some(hash) => {
            let mut one: Vec<String> = Vec::new();
            one.push(hash.clone());
            assert(one@ =~= seq![*hash]);
            hash_hex_strings(&one)
        },
        None => Vec::new(),
    }
}

/// The content hashes by which a request's items are routed to encoders.
pub fn precomputed_encode_routing_hashes(
    intermediate: &PrecomputedMultimodalIntermediate,
) -> (r: Result<Vec<Vec<u8>>, AssembleError>)
    ensures
        match r {
            Ok(hashes) => {
                &&& intermediate.item_count() == Ok::<int, AssembleError>(hashes@.len() as int)
                &&& forall|i: int|
                    0 <= i < hashes@.len() ==> (#[trigger] hashes@[i])@
                        == intermediate.content_hash(i)
            },
            Err(e) => intermediate.item_count() == Err::<int, AssembleError>(e),
        },
{
    let count: usize = match precomputed_multimodal_item_count(intermediate) {
        Ok(n) => n,
        Err(e) => {
            return Err(e);
        },
    };
    let mut hashes: Vec<Vec<u8>> = Vec::new();
    let mut i: usize = 0;
    while i < count
        invariant
            i <= count,
            hashes@.len() == i,
            forall|j: int|
                0 <= j < i ==> (#[trigger] hashes@[j])@ == intermediate.content_hash(j),
        decreases count - i,
    {
        hashes.push(content_hash_for_item(intermediate, i));
        i += 1;
    }
    Ok(hashes)
}

/// No key occurs twice.
pub open spec fn distinct_keys<V>(list: Seq<(String, V)>) -> bool {
    forall|i: int, j: int|
        0 <= i < j < list.len() ==> (#[trigger] list[i]).0@ != (#[trigger] list[j]).0@
}

/// Where the values of a request have distinct names, so have the tensors of
/// each of its items: each tensor comes from one value, in order.
pub proof fn tensor_names_stay_distinct(
    model_specific: Seq<(String, ModelSpecificValue)>,
    layouts: Seq<(String, FieldLayout)>,
    item_index: int,
    n: int,
)
    requires
        distinct_keys(model_specific),
        0 <= n <= model_specific.len(),
    ensures
        tensors_for_item(model_specific, layouts, item_index, n) matches Ok(list) ==> {
            &&& list.len() <= n
            &&& forall|k: int|
                0 <= k < list.len() ==> exists|j: int|
                    0 <= j < n && (#[trigger] model_specific[j]).0@ == (#[trigger] list[k]).0
            &&& forall|k: int, l: int|
                0 <= k < l < list.len() ==> (#[trigger] list[k]).0 != (#[trigger] list[l]).0
        },
    decreases n,
{
    if n > 0 {
        tensor_names_stay_distinct(model_specific, layouts, item_index, n - 1);
        if let Ok(list) = tensors_for_item(model_specific, layouts, item_index, n) {
            let before = tensors_for_item(model_specific, layouts, item_index, n - 1)->Ok_0;
            assert forall|k: int| 0 <= k < list.len() implies exists|j: int|
                0 <= j < n && (#[trigger] model_specific[j]).0@ == (#[trigger] list[k]).0 by {
                if k < before.len() {
                    assert(list[k] == before[k]);
                    let j = choose|j: int|
                        0 <= j < n - 1 && (#[trigger] model_specific[j]).0@ == before[k].0;
                    assert(model_specific[j].0@ == list[k].0);
                } else {
                    assert(model_specific[n - 1].0@ == list[k].0);
                }
            }
            assert forall|k: int, l: int| 0 <= k < l < list.len() implies (
            #[trigger] list[k]).0 != (#[trigger] list[l]).0 by {
                assert(list[k] == before[k]);
                if l < before.len() {
                    assert(list[l] == before[l]);
                } else {
                    let j = choose|j: int|
                        0 <= j < n - 1 && (#[trigger] model_specific[j]).0@ == before[k].0;
                    assert(model_specific[j].0@ != model_specific[n - 1].0@);
                }
            }
        }
    }
}

/// The rows of one item end where those of the next begin, from the first row
/// on: no row belongs to two items, and none between them is left out.
pub proof fn items_split_the_rows(sizes: Seq<usize>, i: int)
    requires
        0 <= i,
    ensures
        sizes.len() > 0 ==> span_of(sizes, 0) == Ok::<(int, int), AssembleError>(
            (0, sizes[0] as int),
        ),
        span_of(sizes, i + 1) is Ok ==> {
            &&& span_of(sizes, i) is Ok
            &&& span_of(sizes, i)->Ok_0.0 + span_of(sizes, i)->Ok_0.1 == span_of(
                sizes,
                i + 1,
            )->Ok_0.0
        },
{
}

/// The first entry of a list under a key is the one that is found: none before it is
/// under the key, and where none is, none is found.
pub proof fn first_entry_is_found<V>(list: Seq<(String, V)>, key: Seq<char>)
    ensures
        match entry_of(list, key) {
            Some(i) => {
                &&& 0 <= i < list.len()
                &&& list[i].0@ == key
                &&& forall|j: int| 0 <= j < i ==> (#[trigger] list[j]).0@ != key
            },
            None => forall|j: int| 0 <= j < list.len() ==> (#[trigger] list[j]).0@ != key,
        },
    decreases list.len(),
{
    if list.len() > 0 {
        let front = list.drop_last();
        first_entry_is_found(front, key);
        assert forall|j: int| 0 <= j < front.len() implies front[j] == list[j] by {}
        if entry_of(front, key) is None {
            assert forall|j: int| 0 <= j < list.len() - 1 implies (#[trigger] list[j]).0@
                != key by {
                assert(front[j].0@ != key);
            }
        } else {
            let i = entry_of(front, key)->0;
            assert forall|j: int| 0 <= j < i implies (#[trigger] list[j]).0@ != key by {
                assert(front[j].0@ != key);
            }
        }
    }
}

/// Whatever the layout, the items split the encoder input: the rows of the first
/// begin at the first row, and those of each next one where the rows before end.
pub proof fn items_split_the_encoder_input(
    pre: PreprocessedEncoderInputs,
    layouts: Seq<(String, FieldLayout)>,
    i: int,
)
    requires
        0 <= i,
    ensures
        encoder_span(pre, layouts, 0) matches Ok((start, _)) ==> start == 0,
        encoder_span(pre, layouts, i) matches Ok((start, len)) ==> 0 <= start && 0 <= len,
        encoder_span(pre, layouts, i + 1) matches Ok((start, _)) ==> (encoder_span(pre, layouts, i)
            matches Ok((before, len)) && before + len == start),
{
}

/// Without flat sizes, an item is one row: item `i` carries exactly the elements of
/// row `i`, as many as the tensor has per row.
pub proof fn an_item_is_a_row(
    t: Tensor,
    pre: PreprocessedEncoderInputs,
    layouts: Seq<(String, FieldLayout)>,
    i: int,
    row: int,
)
    requires
        pre.wf(),
        pre.encoder_input.shape@.len() > 0,
        forall|k: int|
            0 <= k < layouts.len() && (#[trigger] layouts[k]).0@ == "pixel_values"@
                ==> layouts[k].1 is Batched,
        0 <= i < pre.encoder_input.shape@[0],
        pre.encoder_input.bits@.len() == pre.encoder_input.shape@[0] * row,
        is_encoder_input(t, pre, layouts, i),
    ensures
        t.bits@ == pre.encoder_input.bits@.subrange(i * row, i * row + row),
        t.bits@.len() == row,
        t.shape@.len() == pre.encoder_input.shape@.len(),
        t.shape@[0] == 1,
        forall|d: int|
            1 <= d < t.shape@.len() ==> #[trigger] t.shape@[d] == pre.encoder_input.shape@[d],
{
    first_entry_is_found(layouts, "pixel_values"@);
    let n = pre.encoder_input.shape@[0] as int;
    let v = volume(pre.encoder_input.shape@.skip(1)) as int;
    assert(n * v == n * row ==> v == row) by (nonlinear_arith)
        requires
            n > 0,
    ;
    assert((i + 1) * row == i * row + row) by (nonlinear_arith);
    assert(0 <= i * row && i * row + row <= n * row) by (nonlinear_arith)
        requires
            0 <= i < n,
            0 <= row,
            n > 0,
    ;
}

/// With flat sizes, an item has as many rows as its size says, behind the rows of
/// the items before it.
pub proof fn an_item_has_its_size(
    pre: PreprocessedEncoderInputs,
    layouts: Seq<(String, FieldLayout)>,
    k: int,
    sizes_key: String,
    m: int,
    sizes: Seq<u32>,
    i: int,
)
    requires
        0 <= k < layouts.len(),
        layouts[k].0@ == "pixel_values"@,
        forall|j: int| 0 <= j < k ==> (#[trigger] layouts[j]).0@ != "pixel_values"@,
        layouts[k].1 == (FieldLayout::Flat { sizes_key }),
        0 <= m < pre.model_specific@.len(),
        pre.model_specific@[m].0@ == sizes_key@,
        forall|j: int| 0 <= j < m ==> (#[trigger] pre.model_specific@[j]).0@ != sizes_key@,
        (pre.model_specific@[m].1 matches ModelSpecificValue::UintVec(v) && v@ == sizes) || (
        pre.model_specific@[m].1 matches ModelSpecificValue::UintTensor { data, .. } && data@
            == sizes),
        0 <= i,
    ensures
        i >= sizes.len() ==> encoder_span(pre, layouts, i) is Err,
        encoder_span(pre, layouts, i) matches Ok((start, len)) ==> i < sizes.len() && len
            == sizes[i],
{
    first_entry_is_found(layouts, "pixel_values"@);
    first_entry_is_found(pre.model_specific@, sizes_key@);
}

/// A payload has so many items where there are as many token counts, as many
/// placeholders and, unless there are none, as many media of its kind; and at least
/// one.
pub proof fn items_add_up(p: PrecomputedMultimodalIntermediate, n: int)
    ensures
        ({
            let media = match p.modality {
                Modality::Image | Modality::ImageEmbeds => p.images@.len() as int,
                Modality::Video => p.videos@.len() as int,
                Modality::Audio => 0,
            };
            p.item_count() == Ok::<int, AssembleError>(n) <==> {
                &&& n > 0
                &&& p.preprocessed.feature_token_counts@.len() == n
                &&& p.placeholders@.len() == n
                &&& media == n || media == 0
            }
        }),
{
}

/// An item is told where its patches are: those of the patch ranges that lie inside
/// its own range, all of them and in order; and its whole range where there are none.
pub proof fn items_know_their_patches(
    range: PlaceholderRange,
    patches: Seq<(u32, u32)>,
    i: int,
    j: int,
)
    requires
        range.offset + range.length <= u32::MAX,
    ensures
        ({
            let r = item_placeholders(range, patches);
            let inside = |p: (u32, u32)|
                range.offset <= p.0 && p.0 + p.1 <= range.offset + range.length;
            &&& 0 <= i < patches.len() && inside(patches[i]) ==> r.contains(patches[i])
            &&& 0 <= j < r.len() ==> (patches.contains(r[j]) && range.offset <= r[j].0 && (r[j].0
                + r[j].1 <= range.offset + range.length || r[j].0 + r[j].1 > u32::MAX)) || (r.len()
                == 1 && r[0].0 == range.offset && r[0].1 == range.length)
            &&& (forall|k: int| 0 <= k < patches.len() ==> !inside(#[trigger] patches[k]) && patches[
            k].0 + patches[k].1 <= u32::MAX) ==> r == seq![
                (range.offset as u32, range.length as u32),
            ]
        }),
{
    let start = range.offset as u32;
    let length = range.length as u32;
    let f = |p: (u32, u32)| patch_inside(p, start as int, start + length);
    patches.filter_lemma(f);
    let kept = patches.filter(f);
    let r = item_placeholders(range, patches);
    lemma_filtered_from(patches, f);
    if 0 <= i < patches.len() && range.offset <= patches[i].0 && patches[i].0 + patches[i].1
        <= range.offset + range.length {
        assert(f(patches[i]));
        assert(patches.contains(patches[i]));
        assert(kept.contains(patches[i]));
    }
    if 0 <= j < r.len() && kept.len() > 0 {
        assert(f(kept[j]));
        assert(kept.contains(kept[j]));
        assert(patches.contains(kept[j]));
    }
    if forall|k: int|
        0 <= k < patches.len() ==> !(range.offset <= (#[trigger] patches[k]).0 && patches[k].0
            + patches[k].1 <= range.offset + range.length) && patches[k].0 + patches[k].1
            <= u32::MAX {
        if kept.len() > 0 {
            assert(kept.contains(kept[0]));
            assert(patches.contains(kept[0]));
            let k = choose|k: int| 0 <= k < patches.len() && patches[k] == kept[0];
            assert(f(kept[0]));
            assert(false);
        }
    }
}

/// The content hash of an item is the digest of the hash of its own media.
pub proof fn items_have_their_own_hash(p: PrecomputedMultimodalIntermediate, i: int)
    requires
        0 <= i,
    ensures
        p.modality == Modality::Image && i < p.images@.len() ==> p.content_hash(i) == blake3_digest(
            encode_utf8(p.images@[i].hash@),
        ),
        p.modality == Modality::Video && i < p.videos@.len() ==> p.content_hash(i) == blake3_digest(
            encode_utf8(p.videos@[i].hash@),
        ),
        p.modality == Modality::ImageEmbeds && i < p.images@.len() ==> p.content_hash(i)
            == blake3_digest(encode_utf8(p.images@[i].hash@)),
        p.modality == Modality::Audio ==> p.content_hash(i).len() == 0,
        p.modality == Modality::Image && i >= p.images@.len() ==> p.content_hash(i).len() == 0,
        p.modality == Modality::Video && i >= p.videos@.len() ==> p.content_hash(i).len() == 0,
{
    if p.media_hash(i) is Some {
        let h = p.media_hash(i)->0;
        let one = seq![h];
        assert(one.drop_last() =~= Seq::<String>::empty());
        assert(hash_bytes(Seq::<String>::empty()) =~= Seq::<u8>::empty());
        assert(one.last() == h);
        assert(hash_bytes(one) =~= encode_utf8(h@));
    }
}

/// A model-specific tensor with one row per item is split by rows: item `i` gets the
/// elements of row `i`.
pub proof fn values_are_split_by_rows(
    model_specific: Seq<(String, ModelSpecificValue)>,
    layouts: Seq<(String, FieldLayout)>,
    i: int,
    k: int,
    l: int,
    data: Seq<u32>,
    shape: Seq<usize>,
    row: int,
    v: ValueText,
)
    requires
        0 <= k < model_specific.len(),
        model_specific[k].1.wf(),
        model_specific[k].1 matches ModelSpecificValue::UintTensor { data: d, shape: s } && d@
            == data && s@ == shape,
        0 <= l < layouts.len(),
        layouts[l].0@ == model_specific[k].0@,
        forall|j: int| 0 <= j < l ==> (#[trigger] layouts[j]).0@ != model_specific[k].0@,
        layouts[l].1 is Batched,
        shape.len() > 0,
        0 <= i < shape[0],
        data.len() == shape[0] * row,
        value_for_item(model_specific, layouts, i, k) == Ok::<Option<ValueText>, AssembleError>(
            Some(v),
        ),
    ensures
        v.elements.len() == row,
        forall|e: int| 0 <= e < row ==> #[trigger] v.elements[e] == data[i * row + e],
        v.shape.len() == shape.len(),
        v.shape[0] == 1,
        forall|d: int| 1 <= d < shape.len() ==> #[trigger] v.shape[d] == shape[d],
{
    first_entry_is_found(layouts, model_specific[k].0@);
    let n = shape[0] as int;
    let w = volume(shape.skip(1)) as int;
    let whole = model_specific[k].1@->0;
    assert(whole.elements.len() == data.len());
    assert(n * w == n * row ==> w == row) by (nonlinear_arith)
        requires
            n > 0,
    ;
    assert((i + 1) * row == i * row + row) by (nonlinear_arith);
    assert(0 <= i * row && i * row + row <= n * row) by (nonlinear_arith)
        requires
            0 <= i < n,
            0 <= row,
            n > 0,
    ;
}

/// Every model-specific value that travels is sent with the item, under its own name,
/// and nothing else is.
pub proof fn every_value_is_sent(
    model_specific: Seq<(String, ModelSpecificValue)>,
    layouts: Seq<(String, FieldLayout)>,
    i: int,
    n: int,
    list: Seq<(Seq<char>, TensorText)>,
)
    requires
        0 <= n <= model_specific.len(),
        tensors_for_item(model_specific, layouts, i, n) == Ok::<
            Seq<(Seq<char>, TensorText)>,
            AssembleError,
        >(list),
    ensures
        list.len() <= n,
        forall|k: int|
            0 <= k < n ==> (match #[trigger] value_for_item(model_specific, layouts, i, k) {
                Ok(Some(v)) => list.contains((model_specific[k].0@, v.tensor())),
                Ok(None) => true,
                Err(_) => false,
            }),
    decreases n,
{
    if n > 0 {
        let before = tensors_for_item(model_specific, layouts, i, n - 1)->Ok_0;
        every_value_is_sent(model_specific, layouts, i, n - 1, before);
        assert forall|k: int| 0 <= k < n implies (match #[trigger] value_for_item(
            model_specific,
            layouts,
            i,
            k,
        ) {
            Ok(Some(v)) => list.contains((model_specific[k].0@, v.tensor())),
            Ok(None) => true,
            Err(_) => false,
        }) by {
            if k < n - 1 {
                if let Ok(Some(v)) = value_for_item(model_specific, layouts, i, k) {
                    let t = (model_specific[k].0@, v.tensor());
                    let j = choose|j: int| 0 <= j < before.len() && before[j] == t;
                    assert(list[j] == t);
                }
            } else if let Ok(Some(v)) = value_for_item(model_specific, layouts, i, k) {
                assert(list[before.len() as int] == (model_specific[k].0@, v.tensor()));
            }
        }
    }
}

/// What a filter keeps was there.
proof fn lemma_filtered_from(s: Seq<(u32, u32)>, f: spec_fn((u32, u32)) -> bool)
    ensures
        forall|j: int| 0 <= j < s.filter(f).len() ==> s.contains(#[trigger] s.filter(f)[j]),
    decreases s.len(),
{
    reveal(Seq::filter);
    if s.len() > 0 {
        let front = s.drop_last();
        lemma_filtered_from(front, f);
        assert forall|j: int| 0 <= j < s.filter(f).len() implies s.contains(
            #[trigger] s.filter(f)[j],
        ) by {
            if j < front.filter(f).len() {
                let x = front.filter(f)[j];
                assert(front.contains(x));
                let i = choose|i: int| 0 <= i < front.len() && front[i] == x;
                assert(s[i] == x);
            } else {
                assert(s[s.len() - 1] == s.filter(f)[j]);
            }
        }
    }
}

/// The elements that the first `n` items get of entry `k`, one item's after the
/// other's.
pub open spec fn given_out(
    model_specific: Seq<(String, ModelSpecificValue)>,
    layouts: Seq<(String, FieldLayout)>,
    k: int,
    n: int,
) -> Seq<nat>
    decreases n,
{
    if n <= 0 {
        Seq::empty()
    } else {
        given_out(model_specific, layouts, k, n - 1) + match value_for_item(
            model_specific,
            layouts,
            n - 1,
            k,
        ) {
            Ok(Some(v)) => v.elements,
            _ => Seq::empty(),
        }
    }
}

/// A value with a layout is shared out in order and without gaps: what the first
/// items get is what it begins with. A part is of the kind of the whole. A value
/// without a layout goes to every item whole.
pub proof fn values_are_shared_out(
    model_specific: Seq<(String, ModelSpecificValue)>,
    layouts: Seq<(String, FieldLayout)>,
    k: int,
    n: int,
)
    requires
        0 <= k < model_specific.len(),
        model_specific[k].1@ is Some,
        model_specific[k].1.wf(),
        0 <= n,
        forall|i: int|
            0 <= i < n ==> (#[trigger] value_for_item(model_specific, layouts, i, k) matches Ok(
                Some(_),
            )),
    ensures
        ({
            let whole = model_specific[k].1@->0;
            let given = given_out(model_specific, layouts, k, n);
            let laid_out = exists|l: int|
                0 <= l < layouts.len() && (#[trigger] layouts[l]).0@ == model_specific[k].0@;
            &&& laid_out ==> given.len() <= whole.elements.len() && given == whole.elements.take(
                given.len() as int,
            )
            &&& !laid_out ==> forall|i: int|
                0 <= i < n ==> #[trigger] value_for_item(model_specific, layouts, i, k) == Ok::<
                    Option<ValueText>,
                    AssembleError,
                >(Some(whole))
            &&& forall|i: int|
                0 <= i < n ==> {
                    let part = (#[trigger] value_for_item(
                        model_specific,
                        layouts,
                        i,
                        k,
                    ))->Ok_0->0;
                    &&& part.width == whole.width
                    &&& part.dtype == whole.dtype
                    &&& part.shape.len() == whole.shape.len()
                    &&& forall|d: int|
                        1 <= d < part.shape.len() ==> #[trigger] part.shape[d] == whole.shape[d]
                }
        }),
{
    first_entry_is_found(layouts, model_specific[k].0@);
    if let Some(l) = entry_of(layouts, model_specific[k].0@) {
        assert(layouts[l].0@ == model_specific[k].0@);
        lemma_given_out(model_specific, layouts, k, n, l);
    }
}

/// Where the rows of item `n` start under layout `l`.
spec fn first_row(
    model_specific: Seq<(String, ModelSpecificValue)>,
    layouts: Seq<(String, FieldLayout)>,
    l: int,
    n: int,
) -> int {
    match layouts[l].1 {
        FieldLayout::Batched => n,
        FieldLayout::Flat { sizes_key } => size_sum(
            flat_sizes(model_specific, sizes_key)->Ok_0,
            n,
        ) as int,
    }
}

proof fn lemma_given_out(
    model_specific: Seq<(String, ModelSpecificValue)>,
    layouts: Seq<(String, FieldLayout)>,
    k: int,
    n: int,
    l: int,
)
    requires
        0 <= k < model_specific.len(),
        model_specific[k].1@ is Some,
        model_specific[k].1.wf(),
        0 <= n,
        entry_of(layouts, model_specific[k].0@) == Some(l),
        forall|i: int|
            0 <= i < n ==> (#[trigger] value_for_item(model_specific, layouts, i, k) matches Ok(
                Some(_),
            )),
    ensures
        ({
            let whole = model_specific[k].1@->0;
            let given = given_out(model_specific, layouts, k, n);
            let row = volume(whole.shape.skip(1)) as int;
            &&& given.len() == first_row(model_specific, layouts, l, n) * row
            &&& given.len() <= whole.elements.len()
            &&& given == whole.elements.take(given.len() as int)
        }),
    decreases n,
{
    let whole = model_specific[k].1@->0;
    let row = volume(whole.shape.skip(1)) as int;
    let given = given_out(model_specific, layouts, k, n);
    if n == 0 {
        assert(given =~= whole.elements.take(0));
        assert(first_row(model_specific, layouts, l, 0) * row == 0) by (nonlinear_arith)
            requires
                first_row(model_specific, layouts, l, 0) == 0,
        ;
    } else {
        lemma_given_out(model_specific, layouts, k, n - 1, l);
        assert(value_for_item(model_specific, layouts, n - 1, k) matches Ok(Some(_)));
        let start = first_row(model_specific, layouts, l, n - 1);
        let end = first_row(model_specific, layouts, l, n);
        let part = value_for_item(model_specific, layouts, n - 1, k)->Ok_0->0;
        assert(part.elements == whole.elements.subrange(start * row, end * row));
        let rows = whole.shape[0] as int;
        assert(0 <= start <= end <= rows);
        assert(whole.elements.len() == rows * row);
        assert(0 <= start * row <= end * row <= rows * row) by (nonlinear_arith)
            requires
                0 <= start <= end <= rows,
                0 <= row,
        ;
        assert(given =~= whole.elements.take(end * row));
    }
}

/// An item's encoder input is its own rows: element for element those that its span
/// begins with, as many rows as the span has.
pub proof fn an_item_is_its_rows(
    t: Tensor,
    pre: PreprocessedEncoderInputs,
    layouts: Seq<(String, FieldLayout)>,
    i: int,
    row: int,
    e: int,
)
    requires
        pre.wf(),
        pre.encoder_input.shape@.len() > 0,
        pre.encoder_input.shape@[0] > 0,
        pre.encoder_input.bits@.len() == pre.encoder_input.shape@[0] * row,
        0 <= i,
        encoder_problem(pre, layouts, i) is None,
        is_encoder_input(t, pre, layouts, i),
    ensures
        encoder_span(pre, layouts, i) matches Ok((start, len)) && {
            &&& start + len <= pre.encoder_input.shape@[0]
            &&& t.shape@.len() == pre.encoder_input.shape@.len()
            &&& t.shape@[0] == len
            &&& forall|d: int|
                1 <= d < t.shape@.len() ==> #[trigger] t.shape@[d] == pre.encoder_input.shape@[d]
            &&& t.bits@.len() == len * row
            &&& 0 <= e < len * row ==> t.bits@[e] == pre.encoder_input.bits@[start * row + e]
        },
{
    let (start, len) = encoder_span(pre, layouts, i)->Ok_0;
    items_split_the_encoder_input(pre, layouts, i);
    let n = pre.encoder_input.shape@[0] as int;
    let v = volume(pre.encoder_input.shape@.skip(1)) as int;
    assert(n * v == n * row ==> v == row) by (nonlinear_arith)
        requires
            n > 0,
    ;
    assert(row >= 0);
    assert((start + len) * row == start * row + len * row) by (nonlinear_arith);
    assert(0 <= start * row && 0 <= len * row && start * row + len * row <= n * row)
        by (nonlinear_arith)
        requires
            0 <= start,
            0 <= len,
            start + len <= n,
            0 <= row,
    ;
}

/// An item is refused exactly where its rows are not all there.
pub proof fn missing_rows_are_refused(
    pre: PreprocessedEncoderInputs,
    layouts: Seq<(String, FieldLayout)>,
    i: int,
)
    requires
        0 <= i,
        pre.encoder_input.shape@.len() > 0,
    ensures
        encoder_problem(pre, layouts, i) is None <==> (encoder_span(pre, layouts, i) matches Ok(
            (start, len),
        ) && start + len <= pre.encoder_input.shape@[0]),
        encoder_problem(pre, layouts, i) matches Some(AssembleError::SliceExceeds {
            start,
            end,
            rows,
        }) ==> end > rows && rows == pre.encoder_input.shape@[0] && encoder_span(pre, layouts, i)
            == Ok::<(int, int), AssembleError>((start as int, end - start)),
{
    items_split_the_encoder_input(pre, layouts, i);
}

/// Counts that do not agree are told: the number of items is the greatest of them,
/// and the one that is told is another.
pub proof fn mismatches_are_told(p: PrecomputedMultimodalIntermediate)
    ensures
        match p.item_count() {
            Err(AssembleError::NoItems) => p.preprocessed.feature_token_counts@.len() == 0
                && p.placeholders@.len() == 0,
            Err(
                AssembleError::MediaCountMismatch { modality, media_count, item_count },
            ) => modality == p.modality && 0 < media_count < item_count && (item_count
                == p.preprocessed.feature_token_counts@.len() || item_count
                == p.placeholders@.len()),
            Err(
                AssembleError::TokenCountMismatch { modality, token_count, item_count },
            ) => modality == p.modality && token_count < item_count && token_count
                == p.preprocessed.feature_token_counts@.len(),
            Err(
                AssembleError::PlaceholderCountMismatch { modality, placeholder_count, item_count },
            ) => modality == p.modality && placeholder_count < item_count && placeholder_count
                == p.placeholders@.len(),
            Err(_) => false,
            Ok(_) => true,
        },
{
    assert(p.images.len() == p.images@.len());
    assert(p.videos.len() == p.videos@.len());
    assert(p.placeholders.len() == p.placeholders@.len());
    assert(p.preprocessed.feature_token_counts.len()
        == p.preprocessed.feature_token_counts@.len());
}

/// Sizes are read as they stand, signed or not; a negative one is no size.
pub proof fn sizes_are_read(value: ModelSpecificValue, j: int)
    ensures
        value matches ModelSpecificValue::UintVec(v) ==> (sizes_in(value) matches Some(s) && s.len()
            == v@.len() && (0 <= j < s.len() ==> s[j] == v@[j])),
        value matches ModelSpecificValue::UintTensor { data, .. } ==> (sizes_in(value) matches Some(
            s,
        ) && s.len() == data@.len() && (0 <= j < s.len() ==> s[j] == data@[j])),
        value matches ModelSpecificValue::IntVec(v) ==> {
            &&& sizes_in(value) matches Some(s) ==> s.len() == v@.len() && (0 <= j < s.len() ==> s[j]
                == v@[j])
            &&& 0 <= j < v@.len() && v@[j] < 0 ==> sizes_in(value) is None
        },
        value matches ModelSpecificValue::IntTensor { data, .. } ==> {
            &&& sizes_in(value) matches Some(s) ==> s.len() == data@.len() && (0 <= j < s.len()
                ==> s[j] == data@[j])
            &&& 0 <= j < data@.len() && data@[j] < 0 ==> sizes_in(value) is None
        },
        value is Tensor || value is FloatVec || value is Other ==> sizes_in(value) is None,
{
    if let Some(s) = sizes_in(value) {
        match value {
            ModelSpecificValue::IntVec(v) => {
                if 0 <= j < v@.len() {
                    assert(0 <= v@[j] <= usize::MAX);
                }
            },
            ModelSpecificValue::IntTensor { data, .. } => {
                if 0 <= j < data@.len() {
                    assert(0 <= data@[j] <= usize::MAX);
                }
            },
            _ => {},
        }
    }
}

/// The rows that items get follow each other: those of the next item begin where
/// those of this one end. With one row per item, item `i` gets row `i`.
pub proof fn next_rows_follow(
    pre: PreprocessedEncoderInputs,
    layouts: Vec<(String, FieldLayout)>,
    i: usize,
    this: (usize, usize),
    next: (usize, usize),
)
    requires
        i < usize::MAX,
        call_ensures(
            encoder_rows,
            (&pre, &layouts, i),
            Ok::<(usize, usize), AssembleError>(this),
        ),
        call_ensures(
            encoder_rows,
            (&pre, &layouts, (i + 1) as usize),
            Ok::<(usize, usize), AssembleError>(next),
        ),
    ensures
        next.0 == this.0 + this.1,
        i == 0 ==> this.0 == 0,
        (forall|k: int|
            0 <= k < layouts@.len() && (#[trigger] layouts@[k]).0@ == "pixel_values"@
                ==> layouts@[k].1 is Batched) ==> this.0 == i && this.1 == 1,
{
    items_split_the_encoder_input(pre, layouts@, i as int);
    first_entry_is_found(layouts@, "pixel_values"@);
}

/// An item's span is known exactly where it has a size and the rows before it can be
/// counted.
pub proof fn spans_are_known(sizes: Seq<usize>, i: int)
    requires
        0 <= i,
    ensures
        i >= sizes.len() ==> span_of(sizes, i) is Err,
        span_of(sizes, i) is Ok ==> i < sizes.len() && span_of(sizes, i)->Ok_0.1 == sizes[i],
        i + 1 < sizes.len() && span_of(sizes, i) is Ok && span_of(sizes, i)->Ok_0.0 + sizes[i]
            <= usize::MAX ==> span_of(sizes, i + 1) is Ok,
        i < sizes.len() && span_of(sizes, i) is Err ==> (span_of(sizes, i) matches Err(e) && e
            is FlatSizeOffsetOverflow),
        sizes.len() > 0 ==> span_of(sizes, 0) is Ok,
{
}

} // verus!
