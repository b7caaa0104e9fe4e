//! Assembly for TokenSpeed, item by item.
//!
//! An item's encoder input may be put into shared memory on the way. Where
//! assembly fails after that, the failure names every segment that was
//! created, so that none is left behind.

use crate::grpc::multimodal::assemble::{
    can_slice, content_hash_for_item, encoder_input_for_item, encoder_problem, encoder_rows,
    encoder_span, first_entry_is_found, item_placeholders, named_tensors, placeholders_for_item,
    precomputed_multimodal_item_count, serialize_model_specific_for_item, tensors_for_item,
    AssembleError, FieldLayout, PrecomputedMultimodalIntermediate, PreprocessedEncoderInputs,
};
use crate::grpc::multimodal::serialize::{
    encoded, formats_are_found_by_name, has_volume, numbers_reach_the_wire,
    serialize_array_as_dtype, volume, wire_dtype, wire_shape, FloatDtype, Tensor, TensorText,
};
use crate::grpc::multimodal::types::Modality;
use crate::grpc::proto::common::ShmHandle;
use crate::grpc::proto_wrapper::data::{
    TokenSpeedModality, TokenSpeedMultimodalData, TokenSpeedMultimodalItem,
    TokenSpeedTensor, TokenSpeedTensorStorage,
};
use crate::text::{bare_text_stays, lowered, trimmed};
use vstd::prelude::*;

verus! {

/// What is decided once for all items of a request.
pub struct TokenSpeedAssemblyOptions {
    pub shm_enabled: bool,
    pub shm_min_bytes: usize,
    pub encoder_input_dtype: String,
    /// The embeddings arrive out of band, so no item needs its pixels.
    pub skip_pixel_values: bool,
}

/// The serialized encoder input of an item, and whether it should go into
/// shared memory.
pub struct EncoderDraft {
    pub data: Vec<u8>,
    pub shape: Vec<u32>,
    pub dtype: String,
    pub wants_shm: bool,
}

/// Why assembly failed, and the segments of shared memory that nobody will
/// read now.
pub struct AssemblyFailure {
    pub error: AssembleError,
    pub cleanup: Vec<ShmHandle>,
}

/// The segments that hold the encoder inputs of `items`.
pub open spec fn encoder_segments(items: Seq<TokenSpeedMultimodalItem>) -> Seq<ShmHandle>
    decreases items.len(),
{
    if items.len() == 0 {
        Seq::empty()
    } else {
        encoder_segments(items.drop_last()) + segment_of(items.last().encoder_input)
    }
}

/// The segment that holds a tensor, if one does.
pub open spec fn segment_of(tensor: TokenSpeedTensor) -> Seq<ShmHandle> {
    match tensor.storage {
        TokenSpeedTensorStorage::Shm(handle) => seq![handle],
        _ => Seq::empty(),
    }
}

/// The segments that hold the encoder inputs of `items` and of an item that is
/// not built yet: what has to be unlinked when assembly is given up.
pub fn cleanup_tokenspeed_items_encoder_shm(
    items: &Vec<TokenSpeedMultimodalItem>,
    pending: Option<&TokenSpeedTensor>,
) -> (handles: Vec<ShmHandle>)
    ensures
        handles@ == encoder_segments(items@) + match pending {
            Some(tensor) => segment_of(*tensor),
            None => Seq::empty(),
        },
{
    let mut handles: Vec<ShmHandle> = Vec::new();
    let mut i: usize = 0;
    assert(items@.take(0) =~= Seq::<TokenSpeedMultimodalItem>::empty());
    while i < items.len()
        invariant
            i <= items@.len(),
            handles@ == encoder_segments(items@.take(i as int)),
        decreases items@.len() - i,
    {
        assert(items@.take(i + 1).drop_last() =~= items@.take(i as int));
        let ghost before = handles@;
        if let TokenSpeedTensorStorage::Shm(handle) = &items[i].encoder_input.storage {
            handles.push(handle.copy());
        }
        assert(handles@ =~= before + segment_of(items@[i as int].encoder_input));
        i += 1;
    }
    assert(items@.take(items@.len() as int) =~= items@);
    let ghost built = handles@;
    if let Some(tensor) = pending {
        if let TokenSpeedTensorStorage::Shm(handle) = &tensor.storage {
            handles.push(handle.copy());
        }
        assert(handles@ =~= built + segment_of(*tensor));
    } else {
        assert(handles@ =~= built + Seq::<ShmHandle>::empty());
    }
    handles
}

/// The modality as TokenSpeed knows it.
pub open spec fn tokenspeed_modality(modality: Modality) -> TokenSpeedModality {
    match modality {
        Modality::Image | Modality::ImageEmbeds => TokenSpeedModality::Image,
        Modality::Video => TokenSpeedModality::Video,
        Modality::Audio => TokenSpeedModality::Audio,
    }
}

/// The patch ranges of a request, none where there are no patches.
pub open spec fn patches(intermediate: PrecomputedMultimodalIntermediate) -> Seq<(u32, u32)> {
    match intermediate.patch_offsets {
        Some(v) => v@,
        None => Seq::empty(),
    }
}

/// The rows of the encoder input that belong to an item: their bits.
pub open spec fn encoder_bits(
    pre: PreprocessedEncoderInputs,
    layouts: Seq<(String, FieldLayout)>,
    i: int,
) -> Seq<u32> {
    let (start, len) = encoder_span(pre, layouts, i)->Ok_0;
    let row = volume(pre.encoder_input.shape@.skip(1)) as int;
    pre.encoder_input.bits@.subrange(start * row, (start + len) * row)
}

/// The rows of the encoder input that belong to an item: their shape.
pub open spec fn encoder_shape(
    pre: PreprocessedEncoderInputs,
    layouts: Seq<(String, FieldLayout)>,
    i: int,
) -> Seq<usize> {
    let (start, len) = encoder_span(pre, layouts, i)->Ok_0;
    pre.encoder_input.shape@.update(0, len as usize)
}

/// The bytes of an item's encoder input.
pub open spec fn encoder_bytes(
    intermediate: PrecomputedMultimodalIntermediate,
    options: TokenSpeedAssemblyOptions,
    i: int,
) -> Seq<u8> {
    if options.skip_pixel_values {
        Seq::empty()
    } else {
        encoded(
            encoder_bits(intermediate.preprocessed, intermediate.field_layouts@, i),
            wire_dtype(options.encoder_input_dtype@),
        )
    }
}

/// The encoder input of an item should go into shared memory.
pub open spec fn wants_shm(
    intermediate: PrecomputedMultimodalIntermediate,
    options: TokenSpeedAssemblyOptions,
    i: int,
) -> bool {
    !options.skip_pixel_values && options.shm_enabled && encoder_bytes(
        intermediate,
        options,
        i,
    ).len() >= options.shm_min_bytes
}

/// `shape` and `dtype` are those of an item's encoder input.
pub open spec fn describes_encoder_input(
    intermediate: PrecomputedMultimodalIntermediate,
    options: TokenSpeedAssemblyOptions,
    i: int,
    shape: Seq<u32>,
    dtype: Seq<char>,
) -> bool {
    if options.skip_pixel_values {
        shape == Seq::<u32>::empty() && dtype == options.encoder_input_dtype@
    } else {
        shape == wire_shape(
            encoder_shape(intermediate.preprocessed, intermediate.field_layouts@, i),
        ) && dtype == wire_dtype(options.encoder_input_dtype@).text()
    }
}

/// `draft` is the encoder input of item `i`.
pub open spec fn drafts(
    draft: EncoderDraft,
    intermediate: PrecomputedMultimodalIntermediate,
    options: TokenSpeedAssemblyOptions,
    i: int,
) -> bool {
    &&& draft.data@ == encoder_bytes(intermediate, options, i)
    &&& describes_encoder_input(intermediate, options, i, draft.shape@, draft.dtype@)
    &&& draft.wants_shm == wants_shm(intermediate, options, i)
}

/// `item` is item `i` of the request. Its encoder input is inline, with the
/// bytes it should have, or, only if it should be, in shared memory.
pub open spec fn is_item(
    item: TokenSpeedMultimodalItem,
    intermediate: PrecomputedMultimodalIntermediate,
    options: TokenSpeedAssemblyOptions,
    i: int,
) -> bool {
    &&& item.modality == tokenspeed_modality(intermediate.modality)
    &&& describes_encoder_input(
        intermediate,
        options,
        i,
        item.encoder_input.shape@,
        item.encoder_input.dtype@,
    )
    &&& match item.encoder_input.storage {
        TokenSpeedTensorStorage::Inline(data) => data@ == encoder_bytes(intermediate, options, i),
        TokenSpeedTensorStorage::Shm(_) => wants_shm(intermediate, options, i),
        TokenSpeedTensorStorage::Remote(_) => false,
    }
    &&& tensors_for_item(
        intermediate.preprocessed.model_specific@,
        intermediate.field_layouts@,
        i,
        intermediate.preprocessed.model_specific@.len() as int,
    ) == Ok::<Seq<(Seq<char>, TensorText)>, AssembleError>(
        named_tensors(item.model_specific_tensors@),
    )
    &&& item.placeholder_token_id == intermediate.placeholder_token_id
    &&& item.mm_placeholders@ == item_placeholders(
        intermediate.placeholders@[i],
        patches(intermediate),
    )
    &&& item.content_hash@ == intermediate.content_hash(i)
}

/// The results of preprocessing are whole, positions fit the wire format, and the
/// encoder input can be looked at, if it is. Without dimensions it has no rows, so
/// that nothing is built beyond the first item.
pub open spec fn assemblable(
    intermediate: PrecomputedMultimodalIntermediate,
    skip_pixel_values: bool,
) -> bool {
    &&& intermediate.preprocessed.wf()
    &&& skip_pixel_values || intermediate.item_count() is Err || can_slice(
        intermediate.preprocessed,
        intermediate.field_layouts@,
        0,
    )
    &&& forall|i: int|
        0 <= i < intermediate.placeholders@.len() ==> ((
        #[trigger] intermediate.placeholders@[i]).offset as u32) + (
        intermediate.placeholders@[i].length as u32) <= u32::MAX
}

/// Whether a request can be assembled without asking for what is not there: see
/// [`assemblable`].
pub fn is_assemblable(
    intermediate: &PrecomputedMultimodalIntermediate,
    skip_pixel_values: bool,
) -> (r: bool)
    ensures
        r == assemblable(*intermediate, skip_pixel_values),
{
    let pre = &intermediate.preprocessed;
    if !has_volume(&pre.encoder_input.shape, pre.encoder_input.bits.len()) {
        return false;
    }
    if !skip_pixel_values && pre.encoder_input.shape.len() == 0
        && precomputed_multimodal_item_count(intermediate).is_ok() {
        if let Ok((start, len)) = encoder_rows(pre, &intermediate.field_layouts, 0) {
            if start == 0 && len == 0 {
                return false;
            }
        }
    }
    let mut i: usize = 0;
    while i < pre.model_specific.len()
        invariant
            i <= pre.model_specific@.len(),
            pre == &intermediate.preprocessed,
            forall|j: int| 0 <= j < i ==> (#[trigger] pre.model_specific@[j]).1.wf(),
        decreases pre.model_specific@.len() - i,
    {
        if !pre.model_specific[i].1.is_whole() {
            assert(!pre.model_specific@[i as int].1.wf());
            return false;
        }
        i += 1;
    }
    let list = &intermediate.placeholders;
    let mut k: usize = 0;
    while k < list.len()
        invariant
            k <= list@.len(),
            list == &intermediate.placeholders,
            forall|j: int|
                0 <= j < k ==> ((#[trigger] list@[j]).offset as u32) + (list@[j].length as u32)
                    <= u32::MAX,
        decreases list@.len() - k,
    {
        let offset: u32 = list[k].offset as u32;
        let length: u32 = list[k].length as u32;
        if offset > u32::MAX - length {
            assert(!((list@[k as int].offset as u32) + (list@[k as int].length as u32)
                <= u32::MAX));
            return false;
        }
        k += 1;
    }
    true
}

/// Why item `i` cannot be built.
pub open spec fn item_problem(
    intermediate: PrecomputedMultimodalIntermediate,
    options: TokenSpeedAssemblyOptions,
    i: int,
) -> Option<AssembleError> {
    let layouts = intermediate.field_layouts@;
    let specific = intermediate.preprocessed.model_specific@;
    if !options.skip_pixel_values && encoder_problem(
        intermediate.preprocessed,
        layouts,
        i,
    ) is Some {
        encoder_problem(intermediate.preprocessed, layouts, i)
    } else {
        match tensors_for_item(specific, layouts, i, specific.len() as int) {
            Err(e) => Some(e),
            Ok(_) => None,
        }
    }
}

/// The assembly of a request, with the items built so far.
pub struct TokenSpeedAssembly {
    options: TokenSpeedAssemblyOptions,
    item_count: usize,
    items: Vec<TokenSpeedMultimodalItem>,
}

impl TokenSpeedAssembly {
    pub closed spec fn decided(&self) -> TokenSpeedAssemblyOptions {
        self.options
    }

    /// How many items there will be.
    pub closed spec fn goal(&self) -> int {
        self.item_count as int
    }

    /// The items built so far.
    pub closed spec fn built(&self) -> Seq<TokenSpeedMultimodalItem> {
        self.items@
    }

    /// The items built so far are the first ones of the request.
    pub open spec fn wf(&self, intermediate: PrecomputedMultimodalIntermediate) -> bool {
        &&& intermediate.item_count() == Ok::<int, AssembleError>(self.goal())
        &&& self.built().len() <= self.goal()
        &&& forall|i: int|
            0 <= i < self.built().len() ==> is_item(
                #[trigger] self.built()[i],
                intermediate,
                self.decided(),
                i,
            ) && item_problem(intermediate, self.decided(), i) is None
    }

    /// Starts an assembly.
    pub fn begin(
        intermediate: &PrecomputedMultimodalIntermediate,
        options: TokenSpeedAssemblyOptions,
    ) -> (r: Result<Self, AssembleError>)
        ensures
            match r {
                Ok(a) => a.wf(*intermediate) && a.decided() == options && a.built().len() == 0,
                Err(e) => intermediate.item_count() == Err::<int, AssembleError>(e),
            },
    {
        match precomputed_multimodal_item_count(intermediate) {
            Ok(item_count) => Ok(TokenSpeedAssembly { options, item_count, items: Vec::new() }),
            Err(e) => Err(e),
        }
    }

    /// The encoder input of the next item, none once all are built.
    pub fn next_encoder_input(
        &self,
        intermediate: &PrecomputedMultimodalIntermediate,
    ) -> (r: Result<Option<EncoderDraft>, AssemblyFailure>)
        requires
            assemblable(*intermediate, self.decided().skip_pixel_values),
            self.wf(*intermediate),
        ensures
            match r {
                Ok(None) => self.built().len() == self.goal(),
                Ok(Some(draft)) => {
                    &&& self.built().len() < self.goal()
                    &&& drafts(draft, *intermediate, self.decided(), self.built().len() as int)
                    &&& self.decided().skip_pixel_values || encoder_problem(
                        intermediate.preprocessed,
                        intermediate.field_layouts@,
                        self.built().len() as int,
                    ) is None
                },
                Err(failure) => {
                    &&& self.built().len() < self.goal()
                    &&& !self.decided().skip_pixel_values
                    &&& encoder_problem(
                        intermediate.preprocessed,
                        intermediate.field_layouts@,
                        self.built().len() as int,
                    ) == Some(failure.error)
                    &&& item_problem(
                        *intermediate,
                        self.decided(),
                        self.built().len() as int,
                    ) == Some(failure.error)
                    &&& failure.cleanup@ == encoder_segments(self.built())
                },
            },
    {
        let i: usize = self.items.len();
        if i == self.item_count {
            return Ok(None);
        }
        if self.options.skip_pixel_values {
            let draft = EncoderDraft {
                data: Vec::new(),
                shape: Vec::new(),
                dtype: self.options.encoder_input_dtype.clone(),
                wants_shm: false,
            };
            return Ok(Some(draft));
        }
        proof {
            if intermediate.preprocessed.encoder_input.shape@.len() == 0 && i > 0 {
                // The first item was built from rows that are not there.
                assert(is_item(self.built()[0], *intermediate, self.decided(), 0));
                assert(item_problem(*intermediate, self.decided(), 0) is None);
            }
        }
        let part: Tensor = match encoder_input_for_item(
            &intermediate.preprocessed,
            &intermediate.field_layouts,
            i,
        ) {
            Ok(t) => t,
            Err(error) => {
                let cleanup = cleanup_tokenspeed_items_encoder_shm(&self.items, None);
                assert(cleanup@ =~= encoder_segments(self.items@));
                return Err(AssemblyFailure { error, cleanup });
            },
        };
        let (data, shape, format) = serialize_array_as_dtype(
            &part,
            self.options.encoder_input_dtype.as_str(),
        );
        let wants_shm = self.options.shm_enabled && data.len() >= self.options.shm_min_bytes;
        Ok(Some(EncoderDraft { data, shape, dtype: format.name(), wants_shm }))
    }

    /// Builds the next item from its encoder input, which `shm` holds if it
    /// was put into shared memory.
    pub fn add_item(
        &mut self,
        intermediate: &PrecomputedMultimodalIntermediate,
        draft: EncoderDraft,
        shm: Option<ShmHandle>,
    ) -> (r: Result<(), AssemblyFailure>)
        requires
            assemblable(*intermediate, old(self).decided().skip_pixel_values),
            old(self).wf(*intermediate),
            old(self).built().len() < old(self).goal(),
            drafts(draft, *intermediate, old(self).decided(), old(self).built().len() as int),
            old(self).decided().skip_pixel_values || encoder_problem(
                intermediate.preprocessed,
                intermediate.field_layouts@,
                old(self).built().len() as int,
            ) is None,
            shm is Some ==> draft.wants_shm,
        ensures
            final(self).wf(*intermediate),
            final(self).decided() == old(self).decided(),
            final(self).goal() == old(self).goal(),
            match r {
                Ok(_) => {
                    &&& final(self).built().len() == old(self).built().len() + 1
                    &&& final(self).built().drop_last() == old(self).built()
                    &&& segment_of(final(self).built().last().encoder_input) == match shm {
                        Some(handle) => seq![handle],
                        None => Seq::empty(),
                    }
                },
                Err(failure) => {
                    &&& final(self).built() == old(self).built()
                    &&& item_problem(
                        *intermediate,
                        old(self).decided(),
                        old(self).built().len() as int,
                    ) == Some(failure.error)
                    &&& failure.cleanup@ == encoder_segments(old(self).built()) + match shm {
                        Some(handle) => seq![handle],
                        None => Seq::empty(),
                    }
                },
            },
    {
        let i: usize = self.items.len();
        let encoder_input = match shm {
            Some(handle) => TokenSpeedTensor::shm(handle, draft.shape, draft.dtype),
            None => TokenSpeedTensor::inline(draft.data, draft.shape, draft.dtype),
        };
        let model_specific_tensors = match serialize_model_specific_for_item(
            &intermediate.preprocessed.model_specific,
            &intermediate.field_layouts,
            i,
        ) {
            Ok(value) => value,
            Err(error) => {
                let cleanup = cleanup_tokenspeed_items_encoder_shm(
                    &self.items,
                    Some(&encoder_input),
                );
                return Err(AssemblyFailure { error, cleanup });
            },
        };
        let none: Vec<(u32, u32)> = Vec::new();
        let patch_offsets: &Vec<(u32, u32)> = match &intermediate.patch_offsets {
            Some(v) => v,
            None => &none,
        };
        assert(patch_offsets@ =~= patches(*intermediate));
        assert(i < intermediate.placeholders@.len());
        let mm_placeholders = placeholders_for_item(i, &intermediate.placeholders, patch_offsets);
        let content_hash = content_hash_for_item(intermediate, i);
        let modality: TokenSpeedModality = match intermediate.modality {
            Modality::Image | Modality::ImageEmbeds => TokenSpeedModality::Image,
            Modality::Video => TokenSpeedModality::Video,
            Modality::Audio => TokenSpeedModality::Audio,
        };
        let item = TokenSpeedMultimodalItem {
            modality,
            encoder_input,
            model_specific_tensors,
            placeholder_token_id: intermediate.placeholder_token_id,
            mm_placeholders,
            content_hash,
        };
        let ghost before = *self;
        self.items.push(item);
        proof {
            assert(self.built().drop_last() =~= before.built());
            assert forall|k: int| 0 <= k < self.built().len() implies is_item(
                #[trigger] self.built()[k],
                *intermediate,
                self.decided(),
                k,
            ) && item_problem(*intermediate, self.decided(), k) is None by {
                if k < before.built().len() {
                    assert(self.built()[k] == before.built()[k]);
                }
            }
        }
        Ok(())
    }

    /// The data of the whole request.
    pub fn finish(self) -> (r: TokenSpeedMultimodalData)
        ensures
            r.items@ == self.built(),
            r.shm_enabled == self.decided().shm_enabled,
            r.shm_min_bytes == self.decided().shm_min_bytes,
    {
        TokenSpeedMultimodalData {
            items: self.items,
            shm_enabled: self.options.shm_enabled,
            shm_min_bytes: self.options.shm_min_bytes,
        }
    }
}

/// `data` is the whole request.
pub open spec fn is_assembled(
    data: TokenSpeedMultimodalData,
    intermediate: PrecomputedMultimodalIntermediate,
    options: TokenSpeedAssemblyOptions,
) -> bool {
    &&& intermediate.item_count() == Ok::<int, AssembleError>(data.items@.len() as int)
    &&& forall|i: int|
        0 <= i < data.items@.len() ==> is_item(
            #[trigger] data.items@[i],
            intermediate,
            options,
            i,
        )
    &&& forall|i: int|
        0 <= i < data.items@.len() ==> #[trigger] item_problem(intermediate, options, i) is None
    &&& data.shm_enabled == options.shm_enabled
    &&& data.shm_min_bytes == options.shm_min_bytes
}

/// Why a request cannot be assembled: its items do not add up, or the first of
/// them that cannot be built.
pub open spec fn assembly_problem(
    intermediate: PrecomputedMultimodalIntermediate,
    options: TokenSpeedAssemblyOptions,
    e: AssembleError,
) -> bool {
    match intermediate.item_count() {
        Err(err) => e == err,
        Ok(n) => exists|i: int|
            {
                &&& 0 <= i < n
                &&& #[trigger] item_problem(intermediate, options, i) == Some(e)
                &&& forall|j: int|
                    0 <= j < i ==> #[trigger] item_problem(intermediate, options, j) is None
            },
    }
}

/// Assembles a request with every encoder input inline, as it is when none can
/// be put into shared memory.
pub fn assemble_tokenspeed_with_options(
    intermediate: &PrecomputedMultimodalIntermediate,
    options: TokenSpeedAssemblyOptions,
) -> (r: Result<TokenSpeedMultimodalData, AssembleError>)
    requires
        assemblable(*intermediate, options.skip_pixel_values),
    ensures
        match r {
            Ok(data) => is_assembled(data, *intermediate, options) && encoder_segments(
                data.items@,
            ) == Seq::<ShmHandle>::empty(),
            Err(e) => assembly_problem(*intermediate, options, e),
        },
{
    let mut assembly = match TokenSpeedAssembly::begin(intermediate, options) {
        Ok(a) => a,
        Err(e) => {
            return Err(e);
        },
    };
    loop
        invariant
            assemblable(*intermediate, options.skip_pixel_values),
            assembly.wf(*intermediate),
            assembly.decided() == options,
            encoder_segments(assembly.built()) == Seq::<ShmHandle>::empty(),
        decreases assembly.goal() - assembly.built().len(),
    {
        proof {
            assert forall|j: int| 0 <= j < assembly.built().len() implies #[trigger] item_problem(
                *intermediate,
                options,
                j,
            ) is None by {
                assert(is_item(assembly.built()[j], *intermediate, options, j));
            }
        }
        match assembly.next_encoder_input(intermediate) {
            Ok(None) => {
                return Ok(assembly.finish());
            },
            Err(failure) => {
                return Err(failure.error);
            },
            Ok(Some(draft)) => {
                if let Err(failure) = assembly.add_item(intermediate, draft, None) {
                    return Err(failure.error);
                }
                assert(Seq::<ShmHandle>::empty() + Seq::<ShmHandle>::empty()
                    =~= Seq::<ShmHandle>::empty());
            },
        }
    }
}

/// Holds assembled data until the awaiting task accepts it; if that never
/// happens, it names the segments that have to be unlinked.
pub struct PendingTokenSpeedAssembly {
    data: Option<TokenSpeedMultimodalData>,
}

impl PendingTokenSpeedAssembly {
    pub closed spec fn held(&self) -> Option<TokenSpeedMultimodalData> {
        self.data
    }

    pub fn new(data: TokenSpeedMultimodalData) -> (r: Self)
        ensures
            r.held() == Some(data),
    {
        PendingTokenSpeedAssembly { data: Some(data) }
    }

    /// Hands the data over.
    pub fn into_inner(&mut self) -> (r: Option<TokenSpeedMultimodalData>)
        ensures
            r == old(self).held(),
            final(self).held() is None,
    {
        self.data.take()
    }

    /// The segments to unlink when this is dropped: none once the data was
    /// handed over.
    pub fn abandoned(&self) -> (handles: Vec<ShmHandle>)
        ensures
            handles@ == match self.held() {
                Some(data) => encoder_segments(data.items@),
                None => Seq::empty(),
            },
    {
        match &self.data {
            Some(data) => {
                let handles = cleanup_tokenspeed_items_encoder_shm(&data.items, None);
                assert(handles@ =~= encoder_segments(data.items@));
                handles
            },
            None => Vec::new(),
        }
    }
}

/// Without flat sizes, item `i` of a request is sent with row `i` of the encoder
/// input and no other: in single precision, each of its numbers stands in four bytes,
/// lowest first.
pub proof fn items_carry_their_own_pixels(
    item: TokenSpeedMultimodalItem,
    intermediate: PrecomputedMultimodalIntermediate,
    options: TokenSpeedAssemblyOptions,
    i: int,
    row: int,
    e: int,
)
    requires
        is_item(item, intermediate, options, i),
        item_problem(intermediate, options, i) is None,
        !options.skip_pixel_values,
        options.encoder_input_dtype@ == "float32"@,
        item.encoder_input.storage is Inline,
        intermediate.preprocessed.wf(),
        intermediate.preprocessed.encoder_input.shape@.len() > 0,
        forall|k: int|
            0 <= k < intermediate.field_layouts@.len() && (
            #[trigger] intermediate.field_layouts@[k]).0@ == "pixel_values"@
                ==> intermediate.field_layouts@[k].1 is Batched,
        0 <= i < intermediate.preprocessed.encoder_input.shape@[0],
        intermediate.preprocessed.encoder_input.bits@.len()
            == intermediate.preprocessed.encoder_input.shape@[0] * row,
        0 <= e < row,
    ensures
        ({
            let data = item.encoder_input.storage->Inline_0@;
            &&& data.len() == 4 * row
            &&& data[4 * e] + 0x100 * data[4 * e + 1] + 0x1_0000 * data[4 * e + 2] + 0x100_0000
                * data[4 * e + 3] == intermediate.preprocessed.encoder_input.bits@[i * row + e]
        }),
{
    let pre = intermediate.preprocessed;
    let bits = encoder_bits(pre, intermediate.field_layouts@, i);
    first_entry_is_found(intermediate.field_layouts@, "pixel_values"@);
    let n = pre.encoder_input.shape@[0] as int;
    let v = volume(pre.encoder_input.shape@.skip(1)) as int;
    assert(n * v == n * row ==> v == row) by (nonlinear_arith)
        requires
            n > 0,
    ;
    assert((i + 1) * row == i * row + row) by (nonlinear_arith);
    assert(0 <= i * row && i * row + row <= n * row) by (nonlinear_arith)
        requires
            0 <= i < n,
            0 <= row,
            n > 0,
    ;
    assert(bits.len() == row && bits[e] == pre.encoder_input.bits@[i * row + e]);
    lemma_single_precision();
    numbers_reach_the_wire(bits, e);
}

/// Single precision is found under its own name.
proof fn lemma_single_precision()
    ensures
        wire_dtype("float32"@) == FloatDtype::Float32,
{
    reveal_strlit("float32");
    let s = "float32"@;
    assert(s[0] == 'f' && s[6] == '2');
    assert forall|i: int| 0 <= i < s.len() implies !('A' <= #[trigger] s[i] <= 'Z') by {
        assert(s[0] == 'f' && s[1] == 'l' && s[2] == 'o' && s[3] == 'a' && s[4] == 't' && s[5]
            == '3' && s[6] == '2');
    }
    bare_text_stays(s);
    formats_are_found_by_name(s);
}

/// An item is described as what it is: with the modality, the placeholder token and
/// the hash of its media, the tensors and the places that are its own, and the shape
/// and format of the rows it carries. Without pixels it carries nothing, in no shape.
pub proof fn items_are_described(
    item: TokenSpeedMultimodalItem,
    intermediate: PrecomputedMultimodalIntermediate,
    options: TokenSpeedAssemblyOptions,
    i: int,
)
    requires
        is_item(item, intermediate, options, i),
    ensures
        item.modality is Image <==> intermediate.modality is Image || intermediate.modality
            is ImageEmbeds,
        item.modality is Video <==> intermediate.modality is Video,
        item.modality is Audio <==> intermediate.modality is Audio,
        item.placeholder_token_id == intermediate.placeholder_token_id,
        item.content_hash@ == intermediate.content_hash(i),
        item.mm_placeholders@ == item_placeholders(
            intermediate.placeholders@[i],
            patches(intermediate),
        ),
        item.encoder_input.storage !is Remote,
        item.encoder_input.storage is Shm ==> options.shm_enabled && !options.skip_pixel_values,
        options.skip_pixel_values ==> {
            &&& item.encoder_input.storage matches TokenSpeedTensorStorage::Inline(data)
                && data@.len() == 0
            &&& item.encoder_input.shape@.len() == 0
            &&& item.encoder_input.dtype@ == options.encoder_input_dtype@
        },
        !options.skip_pixel_values && intermediate.preprocessed.encoder_input.shape@.len() > 0 ==> {
            let shape = intermediate.preprocessed.encoder_input.shape@;
            &&& item.encoder_input.shape@.len() == shape.len()
            &&& forall|d: int|
                1 <= d < shape.len() && shape[d] <= u32::MAX ==> #[trigger] item.encoder_input.shape@[
                    d
                ] == shape[d]
            &&& encoder_span(intermediate.preprocessed, intermediate.field_layouts@, i) matches Ok(
                (_, len),
            ) ==> (0 <= len <= u32::MAX ==> item.encoder_input.shape@[0] == len)
            &&& item.encoder_input.dtype@ == "float32"@ || item.encoder_input.dtype@ == "bfloat16"@
                || item.encoder_input.dtype@ == "float16"@
            &&& lowered(trimmed(options.encoder_input_dtype@)) == "bfloat16"@
                ==> item.encoder_input.dtype@ == "bfloat16"@
            &&& lowered(trimmed(options.encoder_input_dtype@)) == "float16"@
                ==> item.encoder_input.dtype@ == "float16"@
            &&& lowered(trimmed(options.encoder_input_dtype@)) == "float32"@
                ==> item.encoder_input.dtype@ == "float32"@
        },
        tensors_for_item(
            intermediate.preprocessed.model_specific@,
            intermediate.field_layouts@,
            i,
            intermediate.preprocessed.model_specific@.len() as int,
        ) matches Ok(list) && list.len() == item.model_specific_tensors@.len() && forall|j: int|
            0 <= j < list.len() ==> (#[trigger] item.model_specific_tensors@[j]).0@ == list[j].0
                && item.model_specific_tensors@[j].1@ == list[j].1,
{
    formats_are_found_by_name(options.encoder_input_dtype@);
    let list = named_tensors(item.model_specific_tensors@);
    assert forall|j: int| 0 <= j < list.len() implies (
    #[trigger] item.model_specific_tensors@[j]).0@ == list[j].0
        && item.model_specific_tensors@[j].1@ == list[j].1 by {}
}

/// A request is assembled whole: one item for each placeholder range, in order, with
/// the settings that were decided for all.
pub proof fn requests_are_assembled_whole(
    data: TokenSpeedMultimodalData,
    intermediate: PrecomputedMultimodalIntermediate,
    options: TokenSpeedAssemblyOptions,
    i: int,
)
    requires
        is_assembled(data, intermediate, options),
    ensures
        data.items@.len() > 0,
        data.items@.len() == intermediate.placeholders@.len(),
        data.items@.len() == intermediate.preprocessed.feature_token_counts@.len(),
        data.shm_enabled == options.shm_enabled,
        data.shm_min_bytes == options.shm_min_bytes,
        0 <= i < data.items@.len() ==> data.items@[i].content_hash@ == intermediate.content_hash(i),
        0 <= i < data.items@.len() ==> item_problem(intermediate, options, i) is None,
{
    if 0 <= i < data.items@.len() {
        assert(is_item(data.items@[i], intermediate, options, i));
        assert(item_problem(intermediate, options, i) is None);
    }
}

/// Assembly fails over the first item that cannot be built: whatever it fails with is
/// what stands in that item's way.
pub proof fn the_first_problem_is_told(
    intermediate: PrecomputedMultimodalIntermediate,
    options: TokenSpeedAssemblyOptions,
    i: int,
    e: AssembleError,
)
    requires
        assembly_problem(intermediate, options, e),
    ensures
        intermediate.item_count() matches Err(err) ==> e == err,
        intermediate.item_count() matches Ok(n) ==> (0 <= i < n && (forall|j: int|
            0 <= j < i ==> #[trigger] item_problem(intermediate, options, j) is None)
            && item_problem(intermediate, options, i) is Some ==> item_problem(
            intermediate,
            options,
            i,
        ) == Some(e)),
{
    if let Ok(n) = intermediate.item_count() {
        let k = choose|k: int|
            {
                &&& 0 <= k < n
                &&& #[trigger] item_problem(intermediate, options, k) == Some(e)
                &&& forall|j: int|
                    0 <= j < k ==> #[trigger] item_problem(intermediate, options, j) is None
            };
        assert(item_problem(intermediate, options, k) == Some(e));
    }
}

/// An item is refused for its pixels only where its pixels are sent.
pub proof fn unsent_pixels_refuse_nothing(
    intermediate: PrecomputedMultimodalIntermediate,
    options: TokenSpeedAssemblyOptions,
    i: int,
)
    ensures
        ({
            let tensors = tensors_for_item(
                intermediate.preprocessed.model_specific@,
                intermediate.field_layouts@,
                i,
                intermediate.preprocessed.model_specific@.len() as int,
            );
            let pixels = encoder_problem(
                intermediate.preprocessed,
                intermediate.field_layouts@,
                i,
            );
            &&& item_problem(intermediate, options, i) is None <==> tensors is Ok && (
            options.skip_pixel_values || pixels is None)
            &&& item_problem(intermediate, options, i) matches Some(e) ==> (
            !options.skip_pixel_values && pixels == Some(e)) || tensors == Err::<
                Seq<(Seq<char>, TensorText)>,
                AssembleError,
            >(e)
        }),
{
}

/// The segments that are listed of items are those that hold an encoder input.
pub proof fn held_segments_are_listed(
    items: Seq<TokenSpeedMultimodalItem>,
    handle: ShmHandle,
)
    ensures
        encoder_segments(items).contains(handle) <==> exists|k: int|
            0 <= k < items.len() && (#[trigger] items[k]).encoder_input.storage
                == TokenSpeedTensorStorage::Shm(handle),
    decreases items.len(),
{
    if items.len() > 0 {
        let front = items.drop_last();
        let own = segment_of(items.last().encoder_input);
        let before = encoder_segments(front);
        let all = encoder_segments(items);
        held_segments_are_listed(front, handle);
        if all.contains(handle) {
            let i = all.index_of(handle);
            if i < before.len() {
                assert(before[i] == handle);
                let k = choose|k: int|
                    0 <= k < front.len() && (#[trigger] front[k]).encoder_input.storage
                        == TokenSpeedTensorStorage::Shm(handle);
                assert(items[k].encoder_input.storage == TokenSpeedTensorStorage::Shm(handle));
            } else {
                assert(own[i - before.len()] == handle);
                assert(items[items.len() - 1].encoder_input.storage == TokenSpeedTensorStorage::Shm(
                    handle,
                ));
            }
        }
        if exists|k: int|
            0 <= k < items.len() && (#[trigger] items[k]).encoder_input.storage
                == TokenSpeedTensorStorage::Shm(handle) {
            let k = choose|k: int|
                0 <= k < items.len() && (#[trigger] items[k]).encoder_input.storage
                    == TokenSpeedTensorStorage::Shm(handle);
            if k < front.len() {
                assert(front[k].encoder_input.storage == TokenSpeedTensorStorage::Shm(handle));
                let i = before.index_of(handle);
                assert(all[i] == handle);
            } else {
                assert(all[before.len() as int] == handle);
            }
        }
    }
}

} // verus!
