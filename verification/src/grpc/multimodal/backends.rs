//! Assembly for SGLang, vLLM and TRT-LLM, which take a request's items
//! together, and the choice between the backends.

use crate::grpc::context::WorkerSelection;
use crate::grpc::multimodal::assemble::{
    named_tensors, AssembleError, FieldLayout, MediaItem, PrecomputedMultimodalIntermediate,
};
use crate::grpc::multimodal::serialize::{
    encoded, model_specific_to_tensor_bytes, numbers_reach_the_wire, serialize_array, wire_shape,
    FloatDtype, ModelSpecificValue, TensorBytes, TensorText,
};
use crate::grpc::multimodal::tokenspeed::{
    assemblable, assemble_tokenspeed_with_options, assembly_problem, encoder_segments,
    is_assembled, TokenSpeedAssemblyOptions,
};
use crate::grpc::multimodal::transport::{
    min_bytes_for, options_for, resolve_mm_shm_min_bytes, shm_enabled_here,
    tokenspeed_assembly_options, TransportSetting,
};
use crate::grpc::multimodal::types::{Modality, PlaceholderRange};
use crate::grpc::proto::common::{Modality as WireModality, ShmHandle};
use crate::grpc::proto_wrapper::data::{
    MultimodalData, SglangMultimodalData, TokenSpeedMultimodalData, TrtllmMultimodalData,
    VllmMultimodalData,
};
use crate::grpc::proto_wrapper::request::Engine;
use vstd::prelude::*;

verus! {

/// The model-specific tensors of a whole request; values that do not travel as
/// tensors are left out.
pub open spec fn request_tensors(list: Seq<(String, ModelSpecificValue)>) -> Seq<
    (Seq<char>, TensorText),
>
    decreases list.len(),
{
    if list.len() == 0 {
        Seq::empty()
    } else {
        let before = request_tensors(list.drop_last());
        match list.last().1@ {
            Some(v) => before.push((list.last().0@, v.tensor())),
            None => before,
        }
    }
}

pub fn serialize_model_specific(model_specific: &Vec<(String, ModelSpecificValue)>) -> (r: Vec<
    (String, TensorBytes),
>)
    ensures
        named_tensors(r@) == request_tensors(model_specific@),
{
    let mut out: Vec<(String, TensorBytes)> = Vec::new();
    let mut i: usize = 0;
    assert(model_specific@.take(0) =~= Seq::<(String, ModelSpecificValue)>::empty());
    assert(named_tensors(out@) =~= Seq::<(Seq<char>, TensorText)>::empty());
    while i < model_specific.len()
        invariant
            i <= model_specific@.len(),
            named_tensors(out@) == request_tensors(model_specific@.take(i as int)),
        decreases model_specific@.len() - i,
    {
        assert(model_specific@.take(i + 1).drop_last() =~= model_specific@.take(i as int));
        let ghost before = out@;
        if let Some(tensor) = model_specific_to_tensor_bytes(&model_specific[i].1) {
            out.push((model_specific[i].0.clone(), tensor));
            assert(named_tensors(out@) =~= named_tensors(before).push(
                (model_specific@[i as int].0@, tensor@),
            ));
        }
        i += 1;
    }
    assert(model_specific@.take(i as int) =~= model_specific@);
    out
}

/// The raw bytes of media.
pub open spec fn raw(media: Seq<MediaItem>) -> Seq<Seq<u8>> {
    media.map_values(|m: MediaItem| m.raw_bytes@)
}

/// The contents of byte strings.
pub open spec fn contents(list: Seq<Vec<u8>>) -> Seq<Seq<u8>> {
    list.map_values(|v: Vec<u8>| v@)
}

fn raw_bytes(media: &Vec<MediaItem>) -> (r: Vec<Vec<u8>>)
    ensures
        contents(r@) == raw(media@),
{
    let mut out: Vec<Vec<u8>> = Vec::new();
    let mut i: usize = 0;
    while i < media.len()
        invariant
            i <= media@.len(),
            contents(out@) =~= raw(media@.take(i as int)),
        decreases media@.len() - i,
    {
        let ghost before = out@;
        let mut copy: Vec<u8> = Vec::new();
        copy.extend_from_slice(media[i].raw_bytes.as_slice());
        assert(copy@ =~= media@[i as int].raw_bytes@);
        out.push(copy);
        assert(contents(out@) =~= contents(before).push(copy@));
        i += 1;
    }
    assert(media@.take(i as int) =~= media@);
    out
}

/// Full ranges, as they stand on the wire.
pub open spec fn full_ranges(placeholders: Seq<PlaceholderRange>) -> Seq<(u32, u32)> {
    placeholders.map_values(|p: PlaceholderRange| (p.offset as u32, p.length as u32))
}

fn wire_placeholders(placeholders: &Vec<PlaceholderRange>) -> (r: Vec<(u32, u32)>)
    ensures
        r@ == full_ranges(placeholders@),
{
    let mut out: Vec<(u32, u32)> = Vec::new();
    let mut i: usize = 0;
    while i < placeholders.len()
        invariant
            i <= placeholders@.len(),
            out@ =~= full_ranges(placeholders@.take(i as int)),
        decreases placeholders@.len() - i,
    {
        out.push((placeholders[i].offset as u32, placeholders[i].length as u32));
        i += 1;
    }
    assert(placeholders@.take(i as int) =~= placeholders@);
    out
}

/// The patch ranges of a request, or its full ranges where there are none.
pub open spec fn patches_or_ranges(intermediate: PrecomputedMultimodalIntermediate) -> Seq<
    (u32, u32),
> {
    match intermediate.patch_offsets {
        Some(v) => if v@.len() > 0 {
            v@
        } else {
            full_ranges(intermediate.placeholders@)
        },
        None => full_ranges(intermediate.placeholders@),
    }
}

/// `data` is the request for SGLang.
pub open spec fn is_sglang(
    data: SglangMultimodalData,
    intermediate: PrecomputedMultimodalIntermediate,
) -> bool {
    &&& contents(data.image_data@) == raw(intermediate.images@)
    &&& data.pixel_values@ == encoded(
        intermediate.preprocessed.encoder_input.bits@,
        FloatDtype::Float32,
    )
    &&& data.pixel_values_shape@ == wire_shape(intermediate.preprocessed.encoder_input.shape@)
    &&& named_tensors(data.model_specific_tensors@) == request_tensors(
        intermediate.preprocessed.model_specific@,
    )
    &&& data.im_token_id == intermediate.placeholder_token_id
    &&& data.mm_placeholders@ == patches_or_ranges(intermediate)
}

pub fn assemble_sglang(intermediate: PrecomputedMultimodalIntermediate) -> (r:
    SglangMultimodalData)
    ensures
        is_sglang(r, intermediate),
{
    let (pixel_values, pixel_values_shape) = serialize_array(
        &intermediate.preprocessed.encoder_input,
    );
    let model_specific_tensors = serialize_model_specific(
        &intermediate.preprocessed.model_specific,
    );
    let image_data = raw_bytes(&intermediate.images);
    // Patch-only offsets where there are any; else the full ranges.
    let ranges = wire_placeholders(&intermediate.placeholders);
    let mm_placeholders: Vec<(u32, u32)> = match intermediate.patch_offsets {
        Some(v) => if v.len() > 0 {
            v
        } else {
            ranges
        },
        None => ranges,
    };
    SglangMultimodalData {
        image_data,
        pixel_values,
        pixel_values_shape,
        model_specific_tensors,
        im_token_id: intermediate.placeholder_token_id,
        mm_placeholders,
    }
}

/// The hashes of media.
pub open spec fn hashes_of(media: Seq<MediaItem>) -> Seq<String> {
    media.map_values(|m: MediaItem| m.hash)
}

fn media_hashes(media: &Vec<MediaItem>) -> (r: Vec<String>)
    ensures
        r@ == hashes_of(media@),
{
    let mut out: Vec<String> = Vec::new();
    let mut i: usize = 0;
    while i < media.len()
        invariant
            i <= media@.len(),
            out@ =~= hashes_of(media@.take(i as int)),
        decreases media@.len() - i,
    {
        out.push(media[i].hash.clone());
        i += 1;
    }
    assert(media@.take(i as int) =~= media@);
    out
}

/// The keys of tensors with one row per item.
pub open spec fn batched(layouts: Seq<(String, FieldLayout)>) -> Seq<String>
    decreases layouts.len(),
{
    if layouts.len() == 0 {
        Seq::empty()
    } else {
        let before = batched(layouts.drop_last());
        match layouts.last().1 {
            FieldLayout::Batched => before.push(layouts.last().0),
            FieldLayout::Flat { .. } => before,
        }
    }
}

/// The keys of flat tensors, each with the key of its sizes.
pub open spec fn flat(layouts: Seq<(String, FieldLayout)>) -> Seq<(String, String)>
    decreases layouts.len(),
{
    if layouts.len() == 0 {
        Seq::empty()
    } else {
        let before = flat(layouts.drop_last());
        match layouts.last().1 {
            FieldLayout::Batched => before,
            FieldLayout::Flat { sizes_key } => before.push((layouts.last().0, sizes_key)),
        }
    }
}

pub fn batched_keys(layouts: &Vec<(String, FieldLayout)>) -> (r: Vec<String>)
    ensures
        r@ == batched(layouts@),
{
    let mut out: Vec<String> = Vec::new();
    let mut i: usize = 0;
    assert(layouts@.take(0) =~= Seq::<(String, FieldLayout)>::empty());
    while i < layouts.len()
        invariant
            i <= layouts@.len(),
            out@ == batched(layouts@.take(i as int)),
        decreases layouts@.len() - i,
    {
        assert(layouts@.take(i + 1).drop_last() =~= layouts@.take(i as int));
        if let FieldLayout::Batched = &layouts[i].1 {
            out.push(layouts[i].0.clone());
        }
        i += 1;
    }
    assert(layouts@.take(i as int) =~= layouts@);
    out
}

pub fn flat_keys(layouts: &Vec<(String, FieldLayout)>) -> (r: Vec<(String, String)>)
    ensures
        r@ == flat(layouts@),
{
    let mut out: Vec<(String, String)> = Vec::new();
    let mut i: usize = 0;
    assert(layouts@.take(0) =~= Seq::<(String, FieldLayout)>::empty());
    while i < layouts.len()
        invariant
            i <= layouts@.len(),
            out@ == flat(layouts@.take(i as int)),
        decreases layouts@.len() - i,
    {
        assert(layouts@.take(i + 1).drop_last() =~= layouts@.take(i as int));
        if let FieldLayout::Flat { sizes_key } = &layouts[i].1 {
            out.push((layouts[i].0.clone(), sizes_key.clone()));
        }
        i += 1;
    }
    assert(layouts@.take(i as int) =~= layouts@);
    out
}

/// `data` is the request for vLLM.
pub open spec fn is_vllm(
    data: VllmMultimodalData,
    intermediate: PrecomputedMultimodalIntermediate,
    workers: Option<&WorkerSelection>,
    setting: TransportSetting,
) -> bool {
    &&& data.pixel_values@ == encoded(
        intermediate.preprocessed.encoder_input.bits@,
        FloatDtype::Float32,
    )
    &&& data.pixel_values_shape@ == wire_shape(intermediate.preprocessed.encoder_input.shape@)
    &&& named_tensors(data.model_specific_tensors@) == request_tensors(
        intermediate.preprocessed.model_specific@,
    )
    &&& data.im_token_id == intermediate.placeholder_token_id
    &&& data.mm_placeholders@ == full_ranges(intermediate.placeholders@)
    &&& data.mm_hashes@ == hashes_of(intermediate.images@)
    &&& data.batched_keys@ == batched(intermediate.field_layouts@)
    &&& data.flat_keys@ == flat(intermediate.field_layouts@)
    &&& data.keep_on_cpu_keys == intermediate.keep_on_cpu_keys
    &&& data.modality == WireModality::Image
    &&& data.shm_enabled == shm_enabled_here(workers, false, setting)
    &&& data.shm_min_bytes == min_bytes_for(workers, setting.defaults)
}

pub fn assemble_vllm(
    intermediate: PrecomputedMultimodalIntermediate,
    workers: Option<&WorkerSelection>,
    setting: &TransportSetting,
) -> (r: VllmMultimodalData)
    ensures
        is_vllm(r, intermediate, workers, *setting),
{
    let (pixel_values, pixel_values_shape) = serialize_array(
        &intermediate.preprocessed.encoder_input,
    );
    let model_specific_tensors = serialize_model_specific(
        &intermediate.preprocessed.model_specific,
    );
    let mm_hashes = media_hashes(&intermediate.images);
    let mm_placeholders = wire_placeholders(&intermediate.placeholders);
    let batched_keys = batched_keys(&intermediate.field_layouts);
    let flat_keys = flat_keys(&intermediate.field_layouts);
    VllmMultimodalData {
        pixel_values,
        pixel_values_shape,
        model_specific_tensors,
        im_token_id: intermediate.placeholder_token_id,
        mm_placeholders,
        mm_hashes,
        batched_keys,
        flat_keys,
        keep_on_cpu_keys: intermediate.keep_on_cpu_keys,
        modality: WireModality::Image,
        shm_enabled: setting.shm_enabled(workers, false),
        shm_min_bytes: resolve_mm_shm_min_bytes(workers, &setting.defaults),
    }
}

pub fn assemble_trtllm(intermediate: &PrecomputedMultimodalIntermediate) -> (r:
    TrtllmMultimodalData)
    ensures
        contents(r.image_data@) == raw(intermediate.images@),
{
    TrtllmMultimodalData { image_data: raw_bytes(&intermediate.images) }
}

/// Why a backend that takes images only cannot take a request.
pub open spec fn image_problem(modality: Modality, backend: Engine) -> Option<AssembleError> {
    if modality == Modality::Image {
        None
    } else {
        Some(AssembleError::ImageOnly { backend, modality })
    }
}

pub fn ensure_image_only(
    intermediate: &PrecomputedMultimodalIntermediate,
    backend: Engine,
) -> (r: Result<(), AssembleError>)
    ensures
        match image_problem(intermediate.modality, backend) {
            None => r is Ok,
            Some(e) => r == Err::<(), AssembleError>(e),
        },
{
    if intermediate.modality != Modality::Image {
        return Err(AssembleError::ImageOnly { backend, modality: intermediate.modality });
    }
    Ok(())
}

/// Assembles a request for TokenSpeed with every encoder input inline.
pub fn assemble_tokenspeed(
    intermediate: &PrecomputedMultimodalIntermediate,
    workers: Option<&WorkerSelection>,
    skip_pixel_values: bool,
    setting: &TransportSetting,
) -> (r: Result<TokenSpeedMultimodalData, AssembleError>)
    requires
        assemblable(*intermediate, skip_pixel_values),
    ensures
        is_tokenspeed_outcome(r, *intermediate, workers, skip_pixel_values, *setting),
{
    let options = tokenspeed_assembly_options(
        intermediate.modality,
        workers,
        skip_pixel_values,
        setting,
    );
    assert(options_for(options, intermediate.modality, workers, skip_pixel_values, *setting));
    assemble_tokenspeed_with_options(intermediate, options)
}

/// `r` is what an assembly for TokenSpeed comes to, under the options that the
/// workers and this machine give. None of its items is in a segment yet.
pub open spec fn is_tokenspeed_outcome(
    r: Result<TokenSpeedMultimodalData, AssembleError>,
    intermediate: PrecomputedMultimodalIntermediate,
    workers: Option<&WorkerSelection>,
    skip_pixel_values: bool,
    setting: TransportSetting,
) -> bool {
    exists|options: TokenSpeedAssemblyOptions|
        {
            &&& #[trigger] options_for(
                options,
                intermediate.modality,
                workers,
                skip_pixel_values,
                setting,
            )
            &&& match r {
                Ok(data) => is_assembled(data, intermediate, options) && encoder_segments(
                    data.items@,
                ) == Seq::<ShmHandle>::empty(),
                Err(e) => assembly_problem(intermediate, options, e),
            }
        }
}

/// Assembles a request for the backend it goes to.
///
/// `after_encode` says that the embeddings come from encode workers, so that
/// the pixels are left out.
pub fn assemble_multimodal_data(
    intermediate: PrecomputedMultimodalIntermediate,
    backend: Engine,
    workers: Option<&WorkerSelection>,
    after_encode: bool,
    setting: &TransportSetting,
) -> (r: Result<MultimodalData, AssembleError>)
    requires
        backend == Engine::TokenSpeed ==> assemblable(intermediate, after_encode),
        backend != Engine::Mlx,
    ensures
        match backend {
            Engine::TokenSpeed => exists|t: Result<TokenSpeedMultimodalData, AssembleError>|
                {
                    &&& #[trigger] is_tokenspeed_outcome(
                        t,
                        intermediate,
                        workers,
                        after_encode,
                        *setting,
                    )
                    &&& match t {
                        Ok(data) => r == Ok::<MultimodalData, AssembleError>(
                            MultimodalData::TokenSpeed(data),
                        ),
                        Err(e) => r == Err::<MultimodalData, AssembleError>(e),
                    }
                },
            _ => match image_problem(intermediate.modality, backend) {
                Some(e) => r == Err::<MultimodalData, AssembleError>(e),
                None => match r {
                    Ok(MultimodalData::Sglang(data)) => backend == Engine::Sglang && is_sglang(
                        data,
                        intermediate,
                    ),
                    Ok(MultimodalData::Vllm(data)) => backend == Engine::Vllm && is_vllm(
                        data,
                        intermediate,
                        workers,
                        *setting,
                    ),
                    Ok(MultimodalData::Trtllm(data)) => backend == Engine::Trtllm && contents(
                        data.image_data@,
                    ) == raw(intermediate.images@),
                    _ => false,
                },
            },
        },
{
    match backend {
        Engine::Sglang => match ensure_image_only(&intermediate, backend) {
            Ok(_) => Ok(MultimodalData::Sglang(assemble_sglang(intermediate))),
            Err(e) => Err(e),
        },
        Engine::Vllm => match ensure_image_only(&intermediate, backend) {
            Ok(_) => Ok(MultimodalData::Vllm(assemble_vllm(intermediate, workers, setting))),
            Err(e) => Err(e),
        },
        Engine::Trtllm => match ensure_image_only(&intermediate, backend) {
            Ok(_) => Ok(MultimodalData::Trtllm(assemble_trtllm(&intermediate))),
            Err(e) => Err(e),
        },
        Engine::TokenSpeed => match assemble_tokenspeed(
            &intermediate,
            workers,
            after_encode,
            setting,
        ) {
            Ok(data) => {
                assert(is_tokenspeed_outcome(
                    Ok(data),
                    intermediate,
                    workers,
                    after_encode,
                    *setting,
                ));
                Ok(MultimodalData::TokenSpeed(data))
            },
            Err(e) => {
                assert(is_tokenspeed_outcome(
                    Err(e),
                    intermediate,
                    workers,
                    after_encode,
                    *setting,
                ));
                Err(e)
            },
        },
        Engine::Mlx => {
            assert(false);
            vstd::pervasive::unreached()
        },
    }
}

/// What goes to SGLang is the request's own: its images as they came, its pixels in
/// single precision, lowest byte first, and where its patches are.
pub proof fn sglang_gets_the_request(
    data: SglangMultimodalData,
    p: PrecomputedMultimodalIntermediate,
    i: int,
    e: int,
)
    requires
        is_sglang(data, p),
    ensures
        data.image_data@.len() == p.images@.len(),
        0 <= i < p.images@.len() ==> data.image_data@[i]@ == p.images@[i].raw_bytes@,
        ({
            let d = data.pixel_values@;
            let bits = p.preprocessed.encoder_input.bits@;
            0 <= e < bits.len() ==> d.len() == 4 * bits.len() && d[4 * e] + 0x100 * d[4 * e + 1]
                + 0x1_0000 * d[4 * e + 2] + 0x100_0000 * d[4 * e + 3] == bits[e]
        }),
        data.pixel_values_shape@.len() == p.preprocessed.encoder_input.shape@.len(),
        0 <= i < p.preprocessed.encoder_input.shape@.len() && p.preprocessed.encoder_input.shape@[i]
            <= u32::MAX ==> data.pixel_values_shape@[i] == p.preprocessed.encoder_input.shape@[i],
        named_tensors(data.model_specific_tensors@) == request_tensors(
            p.preprocessed.model_specific@,
        ),
        data.im_token_id == p.placeholder_token_id,
        p.patch_offsets is Some && p.patch_offsets->0@.len() > 0 ==> data.mm_placeholders@
            == p.patch_offsets->0@,
        p.patch_offsets is None || p.patch_offsets->0@.len() == 0 ==> {
            &&& data.mm_placeholders@.len() == p.placeholders@.len()
            &&& 0 <= i < p.placeholders@.len() && p.placeholders@[i].offset <= u32::MAX
                && p.placeholders@[i].length <= u32::MAX ==> data.mm_placeholders@[i].0
                == p.placeholders@[i].offset && data.mm_placeholders@[i].1
                == p.placeholders@[i].length
        },
{
    assert(contents(data.image_data@).len() == data.image_data@.len());
    if 0 <= i < p.images@.len() {
        assert(contents(data.image_data@)[i] == raw(p.images@)[i]);
    }
    let bits = p.preprocessed.encoder_input.bits@;
    if 0 <= e < bits.len() {
        numbers_reach_the_wire(bits, e);
    }
}

/// What goes to vLLM is the request's own: its pixels in single precision, lowest
/// byte first, its full ranges, and the hashes of its images in order.
pub proof fn vllm_gets_the_request(
    data: VllmMultimodalData,
    p: PrecomputedMultimodalIntermediate,
    workers: Option<&WorkerSelection>,
    setting: TransportSetting,
    i: int,
    e: int,
)
    requires
        is_vllm(data, p, workers, setting),
    ensures
        ({
            let d = data.pixel_values@;
            let bits = p.preprocessed.encoder_input.bits@;
            0 <= e < bits.len() ==> d.len() == 4 * bits.len() && d[4 * e] + 0x100 * d[4 * e + 1]
                + 0x1_0000 * d[4 * e + 2] + 0x100_0000 * d[4 * e + 3] == bits[e]
        }),
        data.mm_placeholders@.len() == p.placeholders@.len(),
        0 <= i < p.placeholders@.len() && p.placeholders@[i].offset <= u32::MAX
            && p.placeholders@[i].length <= u32::MAX ==> data.mm_placeholders@[i].0
            == p.placeholders@[i].offset && data.mm_placeholders@[i].1
            == p.placeholders@[i].length,
        data.mm_hashes@.len() == p.images@.len(),
        0 <= i < p.images@.len() ==> data.mm_hashes@[i] == p.images@[i].hash,
        data.im_token_id == p.placeholder_token_id,
        data.keep_on_cpu_keys == p.keep_on_cpu_keys,
        data.modality == WireModality::Image,
        data.pixel_values_shape@.len() == p.preprocessed.encoder_input.shape@.len(),
        0 <= i < p.preprocessed.encoder_input.shape@.len() && p.preprocessed.encoder_input.shape@[i]
            <= u32::MAX ==> data.pixel_values_shape@[i] == p.preprocessed.encoder_input.shape@[i],
        data.shm_enabled == shm_enabled_here(workers, false, setting),
        data.shm_min_bytes == min_bytes_for(workers, setting.defaults),
        named_tensors(data.model_specific_tensors@) == request_tensors(
            p.preprocessed.model_specific@,
        ),
        data.batched_keys@ == batched(p.field_layouts@),
        data.flat_keys@ == flat(p.field_layouts@),
{
    let bits = p.preprocessed.encoder_input.bits@;
    if 0 <= e < bits.len() {
        numbers_reach_the_wire(bits, e);
    }
}

/// Every layout is listed once: a batched one by its key, a flat one by its key and
/// that of its sizes, in order.
pub proof fn layouts_are_listed(layouts: Seq<(String, FieldLayout)>, key: String, l: FieldLayout)
    ensures
        batched(Seq::<(String, FieldLayout)>::empty()).len() == 0,
        flat(Seq::<(String, FieldLayout)>::empty()).len() == 0,
        l is Batched ==> batched(layouts.push((key, l))) == batched(layouts).push(key) && flat(
            layouts.push((key, l)),
        ) == flat(layouts),
        l matches FieldLayout::Flat { sizes_key } ==> flat(layouts.push((key, l))) == flat(
            layouts,
        ).push((key, sizes_key)) && batched(layouts.push((key, l))) == batched(layouts),
{
    assert(layouts.push((key, l)).drop_last() =~= layouts);
}

/// Every model-specific value that travels as a tensor is in the request, under its
/// own name and in order.
pub proof fn tensors_are_listed(
    list: Seq<(String, ModelSpecificValue)>,
    key: String,
    value: ModelSpecificValue,
)
    ensures
        request_tensors(Seq::<(String, ModelSpecificValue)>::empty()).len() == 0,
        value@ matches Some(v) ==> request_tensors(list.push((key, value))) == request_tensors(
            list,
        ).push((key@, v.tensor())),
        value is Other ==> request_tensors(list.push((key, value))) == request_tensors(list),
        value@ is None <==> value is Other,
{
    assert(list.push((key, value)).drop_last() =~= list);
}

/// Backends that take images only refuse every other kind of media, and say which it
/// was.
pub proof fn only_images_are_taken(modality: Modality, backend: Engine)
    ensures
        image_problem(modality, backend) is None <==> modality is Image,
        image_problem(modality, backend) matches Some(e) ==> (e matches AssembleError::ImageOnly {
            backend: b,
            modality: m,
        } && b == backend && m == modality),
{
}

} // verus!
