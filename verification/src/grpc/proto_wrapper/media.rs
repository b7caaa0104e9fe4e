//! Multimodal data on its way into a request, and the segments of shared
//! memory it travels through.
//!
//! Writing a segment is left to the caller: a conversion is handed, for each
//! tensor in order, the segment that was written for it, if one was.

use crate::grpc::multimodal::serialize::TensorBytes;
use crate::grpc::proto::common::{
    Modality, Payload, PlaceholderRange, RemoteTensorHandle, ShmHandle, TensorData,
};
use crate::grpc::proto::{sglang, tokenspeed, trtllm, vllm};
use crate::grpc::proto_wrapper::data::{
    SglangMultimodalData, TokenSpeedModality, TokenSpeedMultimodalData,
    TokenSpeedMultimodalItem, TokenSpeedTensor, TokenSpeedTensorStorage, TrtllmMultimodalData,
    VllmMultimodalData,
};
use crate::grpc::proto_wrapper::request::ProtoGenerateRequest;
use crate::grpc::rdma::{
    export_pixel_buffer, leased, next_descriptor, SlotPool, FRAME_OVERHEAD,
};
use crate::outside::random_room;
use crate::text::{
    begins_with, decimal, decimal_round_trip, decimal_text, from_chars, parse_unsigned, same,
    starts_with, to_chars, unsigned_value,
};
use std::sync::Arc;
use vstd::prelude::*;

verus! {

/// A tensor of `nbytes` bytes goes into shared memory.
pub open spec fn uses_shm(nbytes: int, shm_enabled: bool, min_bytes: usize) -> bool {
    shm_enabled && nbytes >= min_bytes
}

/// Whether a tensor of `nbytes` bytes goes into shared memory.
pub fn mm_tensor_uses_shm(nbytes: usize, shm_enabled: bool, min_bytes: usize) -> (r: bool)
    ensures
        r == uses_shm(nbytes as int, shm_enabled, min_bytes),
{
    shm_enabled && nbytes >= min_bytes
}

/// The segment written for tensor `i`, if one was.
pub open spec fn segment_at(segments: Seq<Option<ShmHandle>>, i: int) -> Option<ShmHandle> {
    if 0 <= i < segments.len() {
        segments[i]
    } else {
        None
    }
}

fn segment(segments: &Vec<Option<ShmHandle>>, base: usize, j: usize) -> (r: Option<ShmHandle>)
    ensures
        r == segment_at(segments@, base + j),
{
    if base < segments.len() && j < segments.len() - base {
        match &segments[base + j] {
            Some(h) => Some(h.copy()),
            None => None,
        }
    } else {
        None
    }
}

/// How the bytes of a tensor travel: in the segment written for them, where
/// they should and one was written; else inline.
pub open spec fn payload_of(
    data: Vec<u8>,
    shm_enabled: bool,
    min_bytes: usize,
    segment: Option<ShmHandle>,
) -> Payload {
    match segment {
        Some(handle) => if uses_shm(data@.len() as int, shm_enabled, min_bytes) {
            Payload::Shm(handle)
        } else {
            Payload::Inline(data)
        },
        None => Payload::Inline(data),
    }
}

/// The inline-vs-shared-memory decision for a tensor payload. A failure to
/// write the segment falls back to inline.
pub fn resolve_mm_tensor_payload(
    data: Vec<u8>,
    shm_enabled: bool,
    min_bytes: usize,
    segment: Option<ShmHandle>,
) -> (r: Payload)
    ensures
        r == payload_of(data, shm_enabled, min_bytes, segment),
{
    if !mm_tensor_uses_shm(data.len(), shm_enabled, min_bytes) {
        return Payload::Inline(data);
    }
    match segment {
        Some(handle) => Payload::Shm(handle),
        None => Payload::Inline(data),
    }
}

/// A named tensor on the wire.
pub open spec fn tensor_proto(
    t: TensorBytes,
    shm_enabled: bool,
    min_bytes: usize,
    segment: Option<ShmHandle>,
) -> TensorData {
    TensorData {
        shape: t.shape,
        dtype: t.dtype,
        payload: Some(payload_of(t.data, shm_enabled, min_bytes, segment)),
    }
}

pub fn tensor_bytes_to_proto(
    value: TensorBytes,
    shm_enabled: bool,
    min_bytes: usize,
    segment: Option<ShmHandle>,
) -> (r: TensorData)
    ensures
        r == tensor_proto(value, shm_enabled, min_bytes, segment),
{
    let TensorBytes { data, shape, dtype } = value;
    TensorData {
        shape,
        dtype,
        payload: Some(resolve_mm_tensor_payload(data, shm_enabled, min_bytes, segment)),
    }
}

/// `out` are the tensors of `list` on the wire; their segments start at `base`.
pub open spec fn are_protos(
    out: Seq<(String, TensorData)>,
    list: Seq<(String, TensorBytes)>,
    shm_enabled: bool,
    min_bytes: usize,
    segments: Seq<Option<ShmHandle>>,
    base: int,
) -> bool {
    &&& out.len() == list.len()
    &&& forall|j: int|
        0 <= j < out.len() ==> #[trigger] out[j] == (
            list[j].0,
            tensor_proto(list[j].1, shm_enabled, min_bytes, segment_at(segments, base + j)),
        )
}

fn tensors_to_proto(
    list: Vec<(String, TensorBytes)>,
    shm_enabled: bool,
    min_bytes: usize,
    segments: &Vec<Option<ShmHandle>>,
    base: usize,
) -> (out: Vec<(String, TensorData)>)
    ensures
        are_protos(out@, list@, shm_enabled, min_bytes, segments@, base as int),
{
    let mut out: Vec<(String, TensorData)> = Vec::new();
    let ghost all = list@;
    for entry in it: list
        invariant
            it.seq() == all,
            are_protos(
                out@,
                all.take(it.index()),
                shm_enabled,
                min_bytes,
                segments@,
                base as int,
            ),
    {
        let (key, value) = entry;
        let j: usize = out.len();
        let s: Option<ShmHandle> = segment(segments, base, j);
        out.push((key, tensor_bytes_to_proto(value, shm_enabled, min_bytes, s)));
    }
    assert(all.take(all.len() as int) =~= all);
    out
}

/// A list of ranges on the wire.
pub open spec fn wire_ranges(v: Seq<(u32, u32)>) -> Seq<PlaceholderRange> {
    v.map_values(|p: (u32, u32)| PlaceholderRange { offset: p.0, length: p.1 })
}

fn ranges_to_proto(v: &Vec<(u32, u32)>) -> (r: Vec<PlaceholderRange>)
    ensures
        r@ == wire_ranges(v@),
{
    let mut r: Vec<PlaceholderRange> = Vec::new();
    let mut i: usize = 0;
    while i < v.len()
        invariant
            i <= v@.len(),
            r@ =~= wire_ranges(v@.take(i as int)),
        decreases v@.len() - i,
    {
        r.push(PlaceholderRange { offset: v[i].0, length: v[i].1 });
        i += 1;
    }
    assert(v@.take(i as int) =~= v@);
    r
}

impl SglangMultimodalData {
    /// Convert to SGLang's multimodal inputs.
    pub fn into_proto(self) -> (r: sglang::MultimodalInputs)
        ensures
            r.image_urls@.len() == 0,
            r.video_urls@.len() == 0,
            r.audio_urls@.len() == 0,
            r.image_data@ == self.image_data@,
            r.video_data@.len() == 0,
            r.audio_data@.len() == 0,
            r.modalities@.len() == 1,
            r.modalities@[0]@ == "image"@,
            r.pixel_values is Some,
            r.pixel_values->0.data == self.pixel_values,
            r.pixel_values->0.shape == self.pixel_values_shape,
            r.pixel_values->0.dtype@ == "float32"@,
            r.model_specific_tensors@ == self.model_specific_tensors@,
            r.im_token_id == self.im_token_id,
            r.mm_placeholders@ == wire_ranges(self.mm_placeholders@),
    {
        let mm_placeholders = ranges_to_proto(&self.mm_placeholders);
        let mut modalities: Vec<String> = Vec::new();
        modalities.push("image".to_owned());
        sglang::MultimodalInputs {
            image_urls: Arc::new(Vec::new()),
            video_urls: Arc::new(Vec::new()),
            audio_urls: Arc::new(Vec::new()),
            image_data: Arc::new(self.image_data),
            video_data: Arc::new(Vec::new()),
            audio_data: Arc::new(Vec::new()),
            modalities: Arc::new(modalities),
            pixel_values: Some(
                Arc::new(
                    TensorBytes {
                        data: self.pixel_values,
                        shape: self.pixel_values_shape,
                        dtype: "float32".to_owned(),
                    },
                ),
            ),
            model_specific_tensors: Arc::new(self.model_specific_tensors),
            im_token_id: self.im_token_id,
            mm_placeholders: Arc::new(mm_placeholders),
        }
    }
}

impl VllmMultimodalData {
    /// Convert to vLLM's multimodal inputs. The first segment is that of the
    /// pixels; those of the other tensors follow in order.
    pub fn into_proto(self, segments: &Vec<Option<ShmHandle>>) -> (r: vllm::MultimodalInputs)
        ensures
            r.pixel_values is Some,
            r.pixel_values->0.shape == self.pixel_values_shape,
            r.pixel_values->0.dtype@ == "float32"@,
            r.pixel_values->0.payload == Some(
                payload_of(
                    self.pixel_values,
                    self.shm_enabled,
                    self.shm_min_bytes,
                    segment_at(segments@, 0),
                ),
            ),
            are_protos(
                r.model_specific_tensors@,
                self.model_specific_tensors@,
                self.shm_enabled,
                self.shm_min_bytes,
                segments@,
                1,
            ),
            r.im_token_id == self.im_token_id,
            r.mm_placeholders@ == wire_ranges(self.mm_placeholders@),
            r.mm_hashes@ == self.mm_hashes@,
            r.batched_keys@ == self.batched_keys@,
            r.flat_keys@ == self.flat_keys@,
            r.keep_on_cpu_keys@ == self.keep_on_cpu_keys@,
            r.modality == self.modality,
    {
        let first: Option<ShmHandle> = segment(segments, 0, 0);
        let mm_placeholders = ranges_to_proto(&self.mm_placeholders);
        vllm::MultimodalInputs {
            pixel_values: Some(
                Arc::new(
                    TensorData {
                        shape: self.pixel_values_shape,
                        dtype: "float32".to_owned(),
                        payload: Some(
                            resolve_mm_tensor_payload(
                                self.pixel_values,
                                self.shm_enabled,
                                self.shm_min_bytes,
                                first,
                            ),
                        ),
                    },
                ),
            ),
            model_specific_tensors: Arc::new(
                tensors_to_proto(
                    self.model_specific_tensors,
                    self.shm_enabled,
                    self.shm_min_bytes,
                    segments,
                    1,
                ),
            ),
            im_token_id: self.im_token_id,
            mm_placeholders: Arc::new(mm_placeholders),
            mm_hashes: Arc::new(self.mm_hashes),
            batched_keys: Arc::new(self.batched_keys),
            flat_keys: Arc::new(self.flat_keys),
            keep_on_cpu_keys: Arc::new(self.keep_on_cpu_keys),
            modality: self.modality,
        }
    }
}

impl TrtllmMultimodalData {
    /// Convert to TRT-LLM's multimodal input.
    pub fn into_proto(self) -> (r: trtllm::MultimodalInput)
        ensures
            r.image_data == self.image_data,
    {
        trtllm::MultimodalInput { image_data: self.image_data }
    }
}

/// How an encoder input travels: where it already is, or as any tensor.
pub open spec fn encoder_payload(
    storage: TokenSpeedTensorStorage,
    shm_enabled: bool,
    min_bytes: usize,
    segment: Option<ShmHandle>,
) -> Payload {
    match storage {
        TokenSpeedTensorStorage::Inline(data) => payload_of(data, shm_enabled, min_bytes, segment),
        TokenSpeedTensorStorage::Shm(handle) => Payload::Shm(handle),
        TokenSpeedTensorStorage::Remote(handle) => Payload::Remote(handle),
    }
}

pub fn tokenspeed_tensor_to_proto(
    value: TokenSpeedTensor,
    shm_enabled: bool,
    shm_min_bytes: usize,
    segment: Option<ShmHandle>,
) -> (r: TensorData)
    ensures
        r.shape == value.shape,
        r.dtype == value.dtype,
        r.payload == Some(encoder_payload(value.storage, shm_enabled, shm_min_bytes, segment)),
{
    let TokenSpeedTensor { storage, shape, dtype } = value;
    let payload = match storage {
        TokenSpeedTensorStorage::Inline(data) => resolve_mm_tensor_payload(
            data,
            shm_enabled,
            shm_min_bytes,
            segment,
        ),
        TokenSpeedTensorStorage::Shm(handle) => Payload::Shm(handle),
        TokenSpeedTensorStorage::Remote(handle) => Payload::Remote(handle),
    };
    TensorData { shape, dtype, payload: Some(payload) }
}

/// The modality on the wire.
pub open spec fn wire_modality(m: TokenSpeedModality) -> Modality {
    match m {
        TokenSpeedModality::Image => Modality::Image,
        TokenSpeedModality::Audio => Modality::Audio,
        TokenSpeedModality::Video => Modality::Video,
    }
}

/// `p` is `item` on the wire; its segments start at `base`.
pub open spec fn is_item_proto(
    p: tokenspeed::MultimodalItem,
    item: TokenSpeedMultimodalItem,
    shm_enabled: bool,
    min_bytes: usize,
    segments: Seq<Option<ShmHandle>>,
    base: int,
) -> bool {
    &&& p.modality == wire_modality(item.modality)
    &&& *p.content_hash == item.content_hash
    &&& p.encoder_input is Some
    &&& p.encoder_input->0.shape == item.encoder_input.shape
    &&& p.encoder_input->0.dtype == item.encoder_input.dtype
    &&& p.encoder_input->0.payload == Some(
        encoder_payload(
            item.encoder_input.storage,
            shm_enabled,
            min_bytes,
            segment_at(segments, base),
        ),
    )
    &&& are_protos(
        p.model_specific_tensors@,
        item.model_specific_tensors@,
        shm_enabled,
        min_bytes,
        segments,
        base + 1,
    )
    &&& p.placeholders@ == wire_ranges(item.mm_placeholders@)
    &&& p.placeholder_token_id == item.placeholder_token_id
}

/// Where the segments of item `k` start: each item before it takes one for its
/// encoder input and one for each of its tensors.
pub open spec fn first_segment(items: Seq<TokenSpeedMultimodalItem>, k: int) -> int
    decreases k,
{
    if k <= 0 {
        0
    } else {
        first_segment(items, k - 1) + 1 + items[k - 1].model_specific_tensors@.len()
    }
}

impl TokenSpeedMultimodalItem {
    fn into_proto(
        self,
        shm_enabled: bool,
        shm_min_bytes: usize,
        segments: &Vec<Option<ShmHandle>>,
        base: usize,
    ) -> (r: tokenspeed::MultimodalItem)
        requires
            base < usize::MAX,
        ensures
            is_item_proto(r, self, shm_enabled, shm_min_bytes, segments@, base as int),
    {
        let first: Option<ShmHandle> = segment(segments, base, 0);
        let placeholders = ranges_to_proto(&self.mm_placeholders);
        let modality: Modality = match self.modality {
            TokenSpeedModality::Image => Modality::Image,
            TokenSpeedModality::Audio => Modality::Audio,
            TokenSpeedModality::Video => Modality::Video,
        };
        let tensors = tensors_to_proto(
            self.model_specific_tensors,
            shm_enabled,
            shm_min_bytes,
            segments,
            base + 1,
        );
        tokenspeed::MultimodalItem {
            modality,
            content_hash: Arc::new(self.content_hash),
            encoder_input: Some(
                Arc::new(
                    tokenspeed_tensor_to_proto(
                        self.encoder_input,
                        shm_enabled,
                        shm_min_bytes,
                        first,
                    ),
                ),
            ),
            model_specific_tensors: Arc::new(tensors),
            placeholders: Arc::new(placeholders),
            placeholder_token_id: self.placeholder_token_id,
        }
    }
}

impl TokenSpeedMultimodalData {
    /// Convert to TokenSpeed's multimodal inputs. Each item takes one segment
    /// for its encoder input and then one for each of its tensors.
    pub fn into_proto(self, segments: &Vec<Option<ShmHandle>>) -> (r: tokenspeed::MultimodalInputs)
        requires
            first_segment(self.items@, self.items@.len() as int) <= usize::MAX,
        ensures
            r.items@.len() == self.items@.len(),
            forall|k: int|
                0 <= k < r.items@.len() ==> is_item_proto(
                    #[trigger] r.items@[k],
                    self.items@[k],
                    self.shm_enabled,
                    self.shm_min_bytes,
                    segments@,
                    first_segment(self.items@, k),
                ),
    {
        let shm_enabled = self.shm_enabled;
        let shm_min_bytes: usize = self.shm_min_bytes;
        let ghost all = self.items@;
        let mut items: Vec<tokenspeed::MultimodalItem> = Vec::new();
        let mut base: usize = 0;
        for item in it: self.items
            invariant
                it.seq() == all,
                first_segment(all, all.len() as int) <= usize::MAX,
                base == first_segment(all, it.index()),
                items@.len() == it.index(),
                forall|k: int|
                    0 <= k < items@.len() ==> is_item_proto(
                        #[trigger] items@[k],
                        all[k],
                        shm_enabled,
                        shm_min_bytes,
                        segments@,
                        first_segment(all, k),
                    ),
        {
            proof {
                lemma_segments_grow(all, it.index() + 1, all.len() as int);
            }
            let next: usize = base + 1 + item.model_specific_tensors.len();
            items.push(item.into_proto(shm_enabled, shm_min_bytes, segments, base));
            base = next;
        }
        tokenspeed::MultimodalInputs { items }
    }

    /// Hands inline encoder inputs over to the RDMA lane, each under a fresh room
    /// of its own. Requests that go through encode workers do this per item
    /// instead, because there the room is part of the handshake.
    pub fn try_export_encoder_inputs_nixl_remote(
        self,
        enabled: bool,
        arena: &mut Option<SlotPool>,
        listen_ip: &str,
        listen_port: u16,
        now: u128,
    ) -> (r: Self)
        requires
            *old(arena) matches Some(p) ==> p.wf(),
        ensures
            *final(arena) matches Some(p) ==> p.wf(),
            !enabled ==> r == self && *final(arena) == *old(arena),
            r.shm_enabled == self.shm_enabled,
            r.shm_min_bytes == self.shm_min_bytes,
            enabled ==> exists|rooms: Seq<i64>| #[trigger]
                exported_under(
                    self.items@,
                    r.items@,
                    *old(arena),
                    *final(arena),
                    rooms,
                    listen_ip@,
                    listen_port,
                    now,
                ) && drawn_rooms(rooms),
            enabled ==> forall|k: int|
                0 <= k < r.items@.len() ==> ((#[trigger] r.items@[k]).encoder_input.storage
                    is Remote <==> self.items@[k].encoder_input.storage is Remote || moves(
                    self.items@,
                    k,
                    *old(arena),
                    listen_ip@,
                )),
    {
        if !enabled {
            return self;
        }
        let n: usize = self.items.len();
        let mut rooms: Vec<i64> = Vec::new();
        while rooms.len() < n
            invariant
                rooms@.len() <= n,
                drawn_rooms(rooms@),
            decreases n - rooms@.len(),
        {
            rooms.push(random_room());
        }
        self.export_encoder_inputs(&rooms, arena, listen_ip, listen_port, now)
    }

    /// Hands inline encoder inputs over to the RDMA lane, item `k` under room
    /// `rooms[k]`.
    pub fn export_encoder_inputs(
        self,
        rooms: &Vec<i64>,
        arena: &mut Option<SlotPool>,
        listen_ip: &str,
        listen_port: u16,
        now: u128,
    ) -> (r: Self)
        requires
            *old(arena) matches Some(p) ==> p.wf(),
            rooms@.len() >= self.items@.len(),
        ensures
            *final(arena) matches Some(p) ==> p.wf(),
            r.shm_enabled == self.shm_enabled,
            r.shm_min_bytes == self.shm_min_bytes,
            exported_under(
                self.items@,
                r.items@,
                *old(arena),
                *final(arena),
                rooms@,
                listen_ip@,
                listen_port,
                now,
            ),
            forall|k: int|
                0 <= k < r.items@.len() ==> ((#[trigger] r.items@[k]).encoder_input.storage
                    is Remote <==> self.items@[k].encoder_input.storage is Remote || moves(
                    self.items@,
                    k,
                    *old(arena),
                    listen_ip@,
                )),
    {
        let ghost start = *arena;
        let shm_enabled = self.shm_enabled;
        let shm_min_bytes: usize = self.shm_min_bytes;
        let ghost all = self.items@;
        let ghost mut arenas: Seq<Option<SlotPool>> = seq![start];
        let mut items: Vec<TokenSpeedMultimodalItem> = Vec::new();
        for item in it: self.items
            invariant
                it.seq() == all,
                rooms@.len() >= all.len(),
                *arena matches Some(p) ==> p.wf(),
                *arena is Some == start is Some,
                start is Some ==> {
                    &&& (*arena)->0.slot_bytes() == start->0.slot_bytes()
                    &&& (*arena)->0.free_slots().len() + moved_before(
                        all,
                        it.index(),
                        start,
                        listen_ip@,
                    ) == start->0.free_slots().len()
                },
                items@.len() == it.index(),
                arenas.len() == it.index() + 1,
                arenas[0] == start,
                arenas.last() == *arena,
                forall|k: int|
                    #![trigger items@[k]]
                    0 <= k < items@.len() ==> export_step(
                        all[k],
                        items@[k],
                        arenas[k],
                        arenas[k + 1],
                        rooms@[k],
                        listen_ip@,
                        listen_port,
                        now,
                    ),
                forall|k: int|
                    0 <= k < items@.len() ==> ((#[trigger] items@[k]).encoder_input.storage
                        is Remote <==> all[k].encoder_input.storage is Remote || moves(
                        all,
                        k,
                        start,
                        listen_ip@,
                    )),
        {
            let room: i64 = rooms[items.len()];
            let mut item = item;
            let encoder_input = item.encoder_input;
            item.encoder_input = encoder_input.try_export_nixl_remote(
                room,
                true,
                arena,
                listen_ip,
                listen_port,
                now,
            );
            proof {
                arenas = arenas.push(*arena);
            }
            items.push(item);
        }
        assert(is_export(all, items@, arenas, rooms@, listen_ip@, listen_port, now));
        TokenSpeedMultimodalData { items, shm_enabled, shm_min_bytes }
    }
}

/// What handing one item over to the RDMA lane makes of the item and of the
/// arena: where the lane takes the encoder input, its bytes are leased a slot
/// under `room`, and the item tells where to read them; else both stay.
pub open spec fn export_step(
    before: TokenSpeedMultimodalItem,
    after: TokenSpeedMultimodalItem,
    arena: Option<SlotPool>,
    next: Option<SlotPool>,
    room: i64,
    listen_ip: Seq<char>,
    listen_port: u16,
    now: u128,
) -> bool {
    let stored = before.encoder_input.storage;
    &&& exported_item(before, after)
    &&& if stored is Inline && lane_takes(arena, listen_ip, stored->Inline_0@.len() as int) {
        &&& after.encoder_input.storage is Remote
        &&& after.encoder_input.storage->Remote_0.descriptor@ == next_descriptor(
            arena->0,
            room,
            listen_port,
            listen_ip,
        )
        &&& next is Some
        &&& leased(arena->0, next->0, room, stored->Inline_0@, now)
    } else {
        &&& after.encoder_input.storage is Remote == stored is Remote
        &&& next == arena
    }
}

/// `after` are the items `before`, handed over one by one: item `k` under room
/// `rooms[k]`, which turns `arenas[k]` into `arenas[k + 1]`.
pub open spec fn is_export(
    before: Seq<TokenSpeedMultimodalItem>,
    after: Seq<TokenSpeedMultimodalItem>,
    arenas: Seq<Option<SlotPool>>,
    rooms: Seq<i64>,
    listen_ip: Seq<char>,
    listen_port: u16,
    now: u128,
) -> bool {
    &&& after.len() == before.len()
    &&& arenas.len() == before.len() + 1
    &&& rooms.len() >= before.len()
    &&& forall|k: int|
        #![trigger after[k]]
        0 <= k < after.len() ==> export_step(
            before[k],
            after[k],
            arenas[k],
            arenas[k + 1],
            rooms[k],
            listen_ip,
            listen_port,
            now,
        )
}

/// Handing the items over, each under its room, makes `after` of `before` and
/// `last` of the arena `first`.
pub open spec fn exported_under(
    before: Seq<TokenSpeedMultimodalItem>,
    after: Seq<TokenSpeedMultimodalItem>,
    first: Option<SlotPool>,
    last: Option<SlotPool>,
    rooms: Seq<i64>,
    listen_ip: Seq<char>,
    listen_port: u16,
    now: u128,
) -> bool {
    exists|arenas: Seq<Option<SlotPool>>| #[trigger]
        is_export(before, after, arenas, rooms, listen_ip, listen_port, now) && arenas[0] == first
            && arenas.last() == last
}

/// Rooms as they are drawn.
pub open spec fn drawn_rooms(rooms: Seq<i64>) -> bool {
    forall|k: int| 0 <= k < rooms.len() ==> 0 <= #[trigger] rooms[k] < i64::MAX
}

/// An item's encoder input could go to the RDMA lane, were there a free slot.
pub open spec fn could_move(
    item: TokenSpeedMultimodalItem,
    arena: Option<SlotPool>,
    listen_ip: Seq<char>,
) -> bool {
    match item.encoder_input.storage {
        TokenSpeedTensorStorage::Inline(data) => {
            &&& data@.len() > 0
            &&& listen_ip.len() > 0
            &&& arena is Some
            &&& data@.len() + FRAME_OVERHEAD <= arena->0.slot_bytes()
        },
        _ => false,
    }
}

/// How many of the first `k` items go to the RDMA lane, whose free slots they
/// take one after the other.
pub open spec fn moved_before(
    items: Seq<TokenSpeedMultimodalItem>,
    k: int,
    arena: Option<SlotPool>,
    listen_ip: Seq<char>,
) -> nat
    decreases k,
{
    if k <= 0 {
        0
    } else {
        let before = moved_before(items, k - 1, arena, listen_ip);
        if could_move(items[k - 1], arena, listen_ip) && before < arena->0.free_slots().len() {
            before + 1
        } else {
            before
        }
    }
}

/// Item `k` goes to the RDMA lane.
pub open spec fn moves(
    items: Seq<TokenSpeedMultimodalItem>,
    k: int,
    arena: Option<SlotPool>,
    listen_ip: Seq<char>,
) -> bool {
    could_move(items[k], arena, listen_ip) && moved_before(items, k, arena, listen_ip)
        < arena->0.free_slots().len()
}

/// A tensor after an attempt to hand it over: still what it was, or remote with
/// the same shape, dtype and number of bytes.
pub open spec fn exported_tensor(before: TokenSpeedTensor, after: TokenSpeedTensor) -> bool {
    &&& after.shape == before.shape
    &&& after.dtype == before.dtype
    &&& match after.storage {
        TokenSpeedTensorStorage::Remote(handle) => before.storage == after.storage || {
            &&& before.storage is Inline
            &&& handle.transport@ == "nixl"@
            &&& handle.nbytes as nat == before.storage->Inline_0@.len()
        },
        TokenSpeedTensorStorage::Inline(data) => before.storage is Inline
            && before.storage->Inline_0@ == data@,
        _ => before.storage == after.storage,
    }
}

/// An item after such an attempt: only its encoder input may have moved.
pub open spec fn exported_item(
    before: TokenSpeedMultimodalItem,
    after: TokenSpeedMultimodalItem,
) -> bool {
    &&& exported_tensor(before.encoder_input, after.encoder_input)
    &&& after == (TokenSpeedMultimodalItem { encoder_input: after.encoder_input, ..before })
}

/// The RDMA lane takes `len` bytes: a listener is known, there is an arena, and
/// it has a free slot that is large enough.
pub open spec fn lane_takes(arena: Option<SlotPool>, listen_ip: Seq<char>, len: int) -> bool {
    &&& len > 0
    &&& listen_ip.len() > 0
    &&& arena is Some
    &&& len + FRAME_OVERHEAD <= arena->0.slot_bytes()
    &&& arena->0.free_slots().len() > 0
}

impl TokenSpeedTensor {
    /// Hands an inline tensor over to the RDMA lane, if the lane is enabled and
    /// takes it; else it stays what it is.
    pub fn try_export_nixl_remote(
        self,
        room: i64,
        enabled: bool,
        arena: &mut Option<SlotPool>,
        listen_ip: &str,
        listen_port: u16,
        now: u128,
    ) -> (r: Self)
        requires
            *old(arena) matches Some(p) ==> p.wf(),
        ensures
            *final(arena) matches Some(p) ==> p.wf(),
            exported_tensor(self, r),
            ({
                let takes = enabled && self.storage is Inline && lane_takes(
                    *old(arena),
                    listen_ip@,
                    self.storage->Inline_0@.len() as int,
                );
                &&& !takes ==> *final(arena) == *old(arena) && r.storage is Remote
                    == self.storage is Remote
                &&& takes ==> {
                    &&& r.storage is Remote
                    &&& r.storage->Remote_0.descriptor@ == next_descriptor(
                        (*old(arena))->0,
                        room,
                        listen_port,
                        listen_ip@,
                    )
                    &&& *final(arena) is Some
                    &&& leased(
                        (*old(arena))->0,
                        (*final(arena))->0,
                        room,
                        self.storage->Inline_0@,
                        now,
                    )
                }
            }),
    {
        if !enabled {
            return self;
        }
        let TokenSpeedTensor { storage, shape, dtype } = self;
        let data = match storage {
            TokenSpeedTensorStorage::Inline(data) => data,
            storage => {
                return TokenSpeedTensor { storage, shape, dtype };
            },
        };
        if data.len() == 0 {
            return TokenSpeedTensor::inline(data, shape, dtype);
        }
        let nbytes: u64 = data.len() as u64;
        match export_pixel_buffer(arena, listen_ip, listen_port, room, data, now) {
            Ok(descriptor) => TokenSpeedTensor::remote(
                RemoteTensorHandle { transport: "nixl".to_owned(), descriptor, nbytes },
                shape,
                dtype,
            ),
            Err(data) => TokenSpeedTensor::inline(data, shape, dtype),
        }
    }
}

proof fn lemma_segments_grow(items: Seq<TokenSpeedMultimodalItem>, m: int, n: int)
    requires
        0 <= m <= n,
    ensures
        first_segment(items, m) <= first_segment(items, n),
    decreases n - m,
{
    if m < n {
        lemma_segments_grow(items, m, n - 1);
    }
}

/// The segment that holds a tensor on the wire, if one does.
pub open spec fn wire_segment(tensor: TensorData) -> Seq<ShmHandle> {
    match tensor.payload {
        Some(Payload::Shm(handle)) => seq![handle],
        _ => Seq::empty(),
    }
}

/// The segments that hold named tensors.
pub open spec fn named_segments(list: Seq<(String, TensorData)>) -> Seq<ShmHandle>
    decreases list.len(),
{
    if list.len() == 0 {
        Seq::empty()
    } else {
        named_segments(list.drop_last()) + wire_segment(list.last().1)
    }
}

/// The segment that holds the encoder input of an item, if one does.
pub open spec fn encoder_segment(item: tokenspeed::MultimodalItem) -> Seq<ShmHandle> {
    match item.encoder_input {
        Some(t) => wire_segment(*t),
        None => Seq::empty(),
    }
}

/// The segments that hold an item.
pub open spec fn item_segments(item: tokenspeed::MultimodalItem) -> Seq<ShmHandle> {
    encoder_segment(item) + named_segments(item.model_specific_tensors@)
}

/// The segments that hold the items of a request.
pub open spec fn request_segments(items: Seq<tokenspeed::MultimodalItem>) -> Seq<ShmHandle>
    decreases items.len(),
{
    if items.len() == 0 {
        Seq::empty()
    } else {
        request_segments(items.drop_last()) + item_segments(items.last())
    }
}

fn collect_tensor(tensor: &TensorData, handles: &mut Vec<ShmHandle>)
    ensures
        final(handles)@ == old(handles)@ + wire_segment(*tensor),
{
    if let Some(Payload::Shm(handle)) = &tensor.payload {
        handles.push(handle.copy());
    }
    assert(handles@ =~= old(handles)@ + wire_segment(*tensor));
}

fn collect_named(list: &Vec<(String, TensorData)>, handles: &mut Vec<ShmHandle>)
    ensures
        final(handles)@ == old(handles)@ + named_segments(list@),
{
    let mut i: usize = 0;
    assert(list@.take(0) =~= Seq::<(String, TensorData)>::empty());
    assert(handles@ =~= old(handles)@ + named_segments(list@.take(0)));
    while i < list.len()
        invariant
            i <= list@.len(),
            handles@ == old(handles)@ + named_segments(list@.take(i as int)),
        decreases list@.len() - i,
    {
        collect_tensor(&list[i].1, handles);
        assert(list@.take(i + 1).drop_last() =~= list@.take(i as int));
        assert(handles@ =~= old(handles)@ + named_segments(list@.take(i + 1)));
        i += 1;
    }
    assert(list@.take(i as int) =~= list@);
}

/// Every segment that holds part of the inputs.
pub fn collect_tokenspeed_multimodal_inputs_shm_handles(inputs: &tokenspeed::MultimodalInputs) -> (
handles: Vec<ShmHandle>)
    ensures
        handles@ == request_segments(inputs.items@),
{
    let mut handles: Vec<ShmHandle> = Vec::new();
    let mut i: usize = 0;
    assert(inputs.items@.take(0) =~= Seq::<tokenspeed::MultimodalItem>::empty());
    while i < inputs.items.len()
        invariant
            i <= inputs.items@.len(),
            handles@ == request_segments(inputs.items@.take(i as int)),
        decreases inputs.items@.len() - i,
    {
        let item = &inputs.items[i];
        let ghost before = handles@;
        if let Some(t) = &item.encoder_input {
            collect_tensor(t, &mut handles);
        }
        collect_named(&item.model_specific_tensors, &mut handles);
        assert(handles@ =~= before + item_segments(*item));
        assert(inputs.items@.take(i + 1).drop_last() =~= inputs.items@.take(i as int));
        i += 1;
    }
    assert(inputs.items@.take(i as int) =~= inputs.items@);
    handles
}

pub fn collect_tokenspeed_generate_request_shm_handles(request: &tokenspeed::GenerateRequest) -> (
handles: Vec<ShmHandle>)
    ensures
        handles@ == tokenspeed_media_segments(request.mm_inputs),
{
    match &request.mm_inputs {
        Some(m) => collect_tokenspeed_multimodal_inputs_shm_handles(m),
        None => Vec::new(),
    }
}

/// The segments that hold vLLM's inputs.
pub open spec fn vllm_segments(inputs: vllm::MultimodalInputs) -> Seq<ShmHandle> {
    (match inputs.pixel_values {
        Some(t) => wire_segment(*t),
        None => Seq::empty(),
    }) + named_segments(inputs.model_specific_tensors@)
}

pub fn collect_vllm_multimodal_inputs_shm_handles(inputs: &vllm::MultimodalInputs) -> (handles:
    Vec<ShmHandle>)
    ensures
        handles@ == vllm_segments(*inputs),
{
    let mut handles: Vec<ShmHandle> = Vec::new();
    if let Some(t) = &inputs.pixel_values {
        collect_tensor(t, &mut handles);
    }
    collect_named(&inputs.model_specific_tensors, &mut handles);
    assert(handles@ =~= vllm_segments(*inputs));
    handles
}

pub fn collect_vllm_generate_request_shm_handles(request: &vllm::GenerateRequest) -> (handles: Vec<
    ShmHandle,
>)
    ensures
        handles@ == vllm_media_segments(request.mm_inputs),
{
    match &request.mm_inputs {
        Some(m) => collect_vllm_multimodal_inputs_shm_handles(m),
        None => Vec::new(),
    }
}

/// A request that could not be built: why, and the segments that nobody will
/// read now.
pub struct BuildFailure {
    pub error: String,
    pub cleanup: Vec<ShmHandle>,
}

/// The segments of a TokenSpeed request's media.
pub open spec fn tokenspeed_media_segments(mm: Option<tokenspeed::MultimodalInputs>) -> Seq<
    ShmHandle,
> {
    match mm {
        Some(m) => request_segments(m.items@),
        None => Seq::empty(),
    }
}

/// The segments of a vLLM request's media.
pub open spec fn vllm_media_segments(mm: Option<vllm::MultimodalInputs>) -> Seq<ShmHandle> {
    match mm {
        Some(m) => vllm_segments(m),
        None => Seq::empty(),
    }
}

/// Builds a TokenSpeed request with `build`, which takes the media; where that
/// fails, gives back the segments that hold them.
pub fn finish_tokenspeed_request<
    F: FnOnce(Option<tokenspeed::MultimodalInputs>) -> Result<tokenspeed::GenerateRequest, String>,
>(tokenspeed_mm: Option<tokenspeed::MultimodalInputs>, build: F) -> (r: Result<
    ProtoGenerateRequest,
    BuildFailure,
>)
    requires
        build.requires((tokenspeed_mm,)),
    ensures
        exists|built: Result<tokenspeed::GenerateRequest, String>| #[trigger]
            build.ensures((tokenspeed_mm,), built) && match built {
                Ok(req) => r matches Ok(p) && p is TokenSpeed && *p->TokenSpeed_0 == req,
                Err(e) => r matches Err(f) && f.error == e && f.cleanup@ == tokenspeed_media_segments(tokenspeed_mm),
            },
{
    let shm_handles: Vec<ShmHandle> = match &tokenspeed_mm {
        Some(m) => collect_tokenspeed_multimodal_inputs_shm_handles(m),
        None => Vec::new(),
    };
    match build(tokenspeed_mm) {
        Ok(req) => Ok(ProtoGenerateRequest::TokenSpeed(Box::new(req))),
        Err(error) => Err(BuildFailure { error, cleanup: shm_handles }),
    }
}

/// Builds a vLLM request with `build`, which takes the media; where that
/// fails, gives back the segments that hold them.
pub fn finish_vllm_request<
    F: FnOnce(Option<vllm::MultimodalInputs>) -> Result<vllm::GenerateRequest, String>,
>(vllm_mm: Option<vllm::MultimodalInputs>, build: F) -> (r: Result<
    ProtoGenerateRequest,
    BuildFailure,
>)
    requires
        build.requires((vllm_mm,)),
    ensures
        exists|built: Result<vllm::GenerateRequest, String>| #[trigger]
            build.ensures((vllm_mm,), built) && match built {
                Ok(req) => r matches Ok(p) && p is Vllm && *p->Vllm_0 == req,
                Err(e) => r matches Err(f) && f.error == e && f.cleanup@ == vllm_media_segments(vllm_mm),
            },
{
    let shm_handles: Vec<ShmHandle> = match &vllm_mm {
        Some(m) => collect_vllm_multimodal_inputs_shm_handles(m),
        None => Vec::new(),
    };
    match build(vllm_mm) {
        Ok(req) => Ok(ProtoGenerateRequest::Vllm(Box::new(req))),
        Err(error) => Err(BuildFailure { error, cleanup: shm_handles }),
    }
}

/// What the name of every segment begins with.
pub const TOKENSPEED_SHM_NAME_PREFIX: &'static str = "smg-tokenspeed-";

/// The name of a segment.
pub open spec fn segment_name(pid: u32, nanos: u128, seq: u64) -> Seq<char> {
    TOKENSPEED_SHM_NAME_PREFIX@ + decimal_text(pid as nat) + "-"@ + decimal_text(nanos as nat)
        + "-"@ + decimal_text(seq as nat)
}

/// The name of the next segment that process `pid` creates.
pub fn next_tokenspeed_shm_name(pid: u32, nanos: u128, seq: u64) -> (s: String)
    ensures
        s@ == segment_name(pid, nanos, seq),
{
    let mut s = TOKENSPEED_SHM_NAME_PREFIX.to_owned();
    s.append(decimal(pid as u128).as_str());
    s.append("-");
    s.append(decimal(nanos).as_str());
    s.append("-");
    s.append(decimal(seq as u128).as_str());
    s
}

/// The handle of a segment that process `pid` wrote.
pub fn tokenspeed_shm_handle(name: String, nbytes: usize, pid: u32) -> (r: ShmHandle)
    ensures
        r.name == name,
        r.offset == 0,
        r.nbytes == nbytes,
        r.owner_id@ == "smg:"@ + decimal_text(pid as nat),
{
    let mut owner_id = "smg:".to_owned();
    owner_id.append(decimal(pid as u128).as_str());
    ShmHandle { name, offset: 0, nbytes: nbytes as u64, owner_id }
}

/// `name` without one slash in front.
pub open spec fn bare_name(name: Seq<char>) -> Seq<char> {
    if name.len() > 0 && name[0] == '/' {
        name.skip(1)
    } else {
        name
    }
}

/// `name` names a segment of this transport, and nothing outside its directory.
pub open spec fn may_unlink(name: Seq<char>) -> bool {
    &&& begins_with(name, TOKENSPEED_SHM_NAME_PREFIX@)
    &&& !name.contains('/')
    &&& !name.contains('\0')
}

/// The name under which a segment may be unlinked, none where it may not:
/// cleanup touches only what this transport created.
pub fn validate_tokenspeed_shm_name_for_cleanup(name: &str) -> (r: Option<String>)
    ensures
        match r {
            Some(s) => s@ == bare_name(name@) && may_unlink(s@),
            None => !may_unlink(bare_name(name@)),
        },
{
    let chars: Vec<char> = to_chars(name);
    let start: usize = if chars.len() > 0 && chars[0] == '/' {
        1
    } else {
        0
    };
    let bare = from_chars(&chars, start, chars.len());
    assert(bare@ =~= bare_name(name@));
    let mut i: usize = start;
    while i < chars.len()
        invariant
            start <= i <= chars@.len(),
            bare@ == chars@.subrange(start as int, chars@.len() as int),
            bare@ == bare_name(name@),
            forall|j: int| start <= j < i ==> #[trigger] chars@[j] != '/' && chars@[j] != '\0',
        decreases chars@.len() - i,
    {
        if chars[i] == '/' || chars[i] == '\0' {
            assert(bare@[i - start] == chars@[i as int]);
            return None;
        }
        i += 1;
    }
    proof {
        assert forall|j: int| 0 <= j < bare@.len() implies bare@[j] != '/' && bare@[j] != '\0' by {
            assert(bare@[j] == chars@[start + j]);
        }
    }
    if starts_with(bare.as_str(), TOKENSPEED_SHM_NAME_PREFIX) {
        Some(bare)
    } else {
        None
    }
}

/// Of `handles`, the names that may be unlinked, in order.
pub fn cleanup_mm_shm_handles(handles: &Vec<ShmHandle>) -> (names: Vec<String>)
    ensures
        crate::text::texts(names@) == unlinkable(handles@),
{
    let mut names: Vec<String> = Vec::new();
    let mut i: usize = 0;
    assert(handles@.take(0) =~= Seq::<ShmHandle>::empty());
    assert(crate::text::texts(names@) =~= Seq::<Seq<char>>::empty());
    while i < handles.len()
        invariant
            i <= handles@.len(),
            crate::text::texts(names@) == unlinkable(handles@.take(i as int)),
        decreases handles@.len() - i,
    {
        assert(handles@.take(i + 1).drop_last() =~= handles@.take(i as int));
        let ghost before = names@;
        if let Some(name) = validate_tokenspeed_shm_name_for_cleanup(handles[i].name.as_str()) {
            names.push(name);
            assert(crate::text::texts(names@) =~= crate::text::texts(before).push(name@));
        }
        i += 1;
    }
    assert(handles@.take(i as int) =~= handles@);
    names
}

/// The names of `handles` that may be unlinked.
pub open spec fn unlinkable(handles: Seq<ShmHandle>) -> Seq<Seq<char>>
    decreases handles.len(),
{
    if handles.len() == 0 {
        Seq::empty()
    } else {
        let before = unlinkable(handles.drop_last());
        let name = bare_name(handles.last().name@);
        if may_unlink(name) {
            before.push(name)
        } else {
            before
        }
    }
}

/// The characters of `s` before the first hyphen.
pub open spec fn before_hyphen(s: Seq<char>) -> Seq<char>
    decreases s.len(),
{
    if s.len() == 0 || s[0] == '-' {
        Seq::empty()
    } else {
        seq![s[0]] + before_hyphen(s.skip(1))
    }
}

/// The process that created the segment `name`, if it is one of this
/// transport's.
pub open spec fn producer_of(name: Seq<char>) -> Option<nat> {
    if begins_with(name, TOKENSPEED_SHM_NAME_PREFIX@) {
        unsigned_value(
            before_hyphen(name.skip(TOKENSPEED_SHM_NAME_PREFIX@.len() as int)),
            u32::MAX as nat,
        )
    } else {
        None
    }
}

/// The process that created the segment `name`, if it is one of this
/// transport's.
pub fn shm_producer(name: &str) -> (r: Option<u32>)
    ensures
        match r {
            Some(pid) => producer_of(name@) == Some(pid as nat),
            None => producer_of(name@) is None,
        },
{
    if !starts_with(name, TOKENSPEED_SHM_NAME_PREFIX) {
        return None;
    }
    let chars: Vec<char> = to_chars(name);
    let from: usize = TOKENSPEED_SHM_NAME_PREFIX.unicode_len();
    let mut to: usize = from;
    let ghost rest = name@.skip(from as int);
    assert(chars@.subrange(from as int, from as int) + before_hyphen(rest) =~= before_hyphen(rest));
    while to < chars.len() && chars[to] != '-'
        invariant
            from <= to <= chars@.len(),
            chars@ == name@,
            rest == name@.skip(from as int),
            chars@.subrange(from as int, to as int) + before_hyphen(name@.skip(to as int))
                == before_hyphen(rest),
        decreases chars@.len() - to,
    {
        proof {
            assert(name@.skip(to as int).skip(1) =~= name@.skip(to + 1));
            assert(chars@.subrange(from as int, to + 1) + before_hyphen(name@.skip(to + 1))
                =~= chars@.subrange(from as int, to as int) + before_hyphen(
                name@.skip(to as int),
            ));
        }
        to += 1;
    }
    let field = from_chars(&chars, from, to);
    assert(field@ =~= before_hyphen(rest));
    match parse_unsigned(field.as_str(), u32::MAX as u64) {
        Some(pid) => Some(pid as u32),
        None => None,
    }
}

/// Whether a file is a segment that a dead process left behind: it names its
/// producer, which is not this process and is no longer alive.
pub fn is_orphan_shm(producer: Option<u32>, my_pid: u32, producer_alive: bool) -> (r: bool)
    ensures
        r == (producer is Some && producer->0 != my_pid && !producer_alive),
{
    match producer {
        Some(pid) => pid != my_pid && !producer_alive,
        None => false,
    }
}

/// A sweep recognises every segment that a process created as that process's.
pub proof fn segment_names_tell_their_producer(pid: u32, nanos: u128, seq: u64)
    ensures
        producer_of(segment_name(pid, nanos, seq)) == Some(pid as nat),
        may_unlink(segment_name(pid, nanos, seq)),
{
    reveal_strlit("smg-tokenspeed-");
    reveal_strlit("-");
    let p = TOKENSPEED_SHM_NAME_PREFIX@;
    let d = decimal_text(pid as nat);
    let tail = "-"@ + decimal_text(nanos as nat) + "-"@ + decimal_text(seq as nat);
    let name = segment_name(pid, nanos, seq);
    assert(name =~= p + d + tail);
    assert(name.subrange(0, p.len() as int) =~= p);
    assert(name.skip(p.len() as int) =~= d + tail);
    crate::text::decimal_is_digits(pid as nat);
    crate::text::decimal_is_digits(nanos as nat);
    crate::text::decimal_is_digits(seq as nat);
    lemma_before_hyphen(d, tail);
    crate::text::decimal_round_trip(pid as nat, u32::MAX as nat);
    assert forall|i: int| 0 <= i < name.len() implies name[i] != '/' && name[i] != '\0' by {
        if i < p.len() {
            assert(name[i] == p[i]);
        } else if i < p.len() + d.len() {
            assert(name[i] == d[i - p.len()]);
        } else {
            let k = i - p.len() - d.len();
            assert(name[i] == tail[k]);
            let n = decimal_text(nanos as nat);
            let s = decimal_text(seq as nat);
            if 1 <= k < 1 + n.len() {
                assert(tail[k] == n[k - 1]);
            } else if k >= 2 + n.len() {
                assert(tail[k] == s[k - 2 - n.len()]);
            }
        }
    }
}

proof fn lemma_before_hyphen(digits: Seq<char>, tail: Seq<char>)
    requires
        forall|i: int| 0 <= i < digits.len() ==> #[trigger] digits[i] != '-',
        tail.len() > 0,
        tail[0] == '-',
    ensures
        before_hyphen(digits + tail) == digits,
    decreases digits.len(),
{
    let s = digits + tail;
    if digits.len() == 0 {
        assert(s =~= tail);
        assert(before_hyphen(s) =~= digits);
    } else {
        assert(s.skip(1) =~= digits.skip(1) + tail);
        assert forall|i: int| 0 <= i < digits.skip(1).len() implies #[trigger] digits.skip(1)[i]
            != '-' by {
            assert(digits.skip(1)[i] == digits[i + 1]);
        }
        lemma_before_hyphen(digits.skip(1), tail);
        assert(s[0] == digits[0]);
        assert(seq![digits[0]] + digits.skip(1) =~= digits);
    }
}

proof fn lemma_named_segment(list: Seq<(String, TensorData)>, j: int, handle: ShmHandle)
    requires
        0 <= j < list.len(),
        list[j].1.payload == Some(Payload::Shm(handle)),
    ensures
        named_segments(list).contains(handle),
    decreases list.len(),
{
    let before = named_segments(list.drop_last());
    let own = wire_segment(list.last().1);
    if j < list.len() - 1 {
        lemma_named_segment(list.drop_last(), j, handle);
        let k = before.index_of(handle);
        assert((before + own)[k] == handle);
    } else {
        assert((before + own)[before.len() as int] == handle);
    }
}

proof fn lemma_item_segment(items: Seq<tokenspeed::MultimodalItem>, k: int, handle: ShmHandle)
    requires
        0 <= k < items.len(),
        item_segments(items[k]).contains(handle),
    ensures
        request_segments(items).contains(handle),
    decreases items.len(),
{
    let before = request_segments(items.drop_last());
    let own = item_segments(items.last());
    if k < items.len() - 1 {
        lemma_item_segment(items.drop_last(), k, handle);
        let i = before.index_of(handle);
        assert((before + own)[i] == handle);
    } else {
        let i = own.index_of(handle);
        assert((before + own)[before.len() + i] == handle);
    }
}

/// Cleaning up a request finds every segment that it was built with: those that
/// hold encoder inputs, and those that were written for its tensors.
pub proof fn no_segment_is_lost(
    protos: Seq<tokenspeed::MultimodalItem>,
    items: Seq<TokenSpeedMultimodalItem>,
    shm_enabled: bool,
    min_bytes: usize,
    segments: Seq<Option<ShmHandle>>,
    k: int,
    j: int,
    handle: ShmHandle,
)
    requires
        protos.len() == items.len(),
        forall|i: int|
            0 <= i < items.len() ==> is_item_proto(
                #[trigger] protos[i],
                items[i],
                shm_enabled,
                min_bytes,
                segments,
                first_segment(items, i),
            ),
        0 <= k < items.len(),
    ensures
        items[k].encoder_input.storage == TokenSpeedTensorStorage::Shm(handle)
            ==> request_segments(protos).contains(handle),
        items[k].encoder_input.storage is Inline && uses_shm(
            items[k].encoder_input.storage->Inline_0@.len() as int,
            shm_enabled,
            min_bytes,
        ) && segment_at(segments, first_segment(items, k)) == Some(handle) ==> request_segments(
            protos,
        ).contains(handle),
        0 <= j < items[k].model_specific_tensors@.len() && uses_shm(
            items[k].model_specific_tensors@[j].1.data@.len() as int,
            shm_enabled,
            min_bytes,
        ) && segment_at(segments, first_segment(items, k) + 1 + j) == Some(handle)
            ==> request_segments(protos).contains(handle),
{
    let p = protos[k];
    let item = items[k];
    assert(is_item_proto(
        p,
        item,
        shm_enabled,
        min_bytes,
        segments,
        first_segment(items, k),
    ));
    let front = encoder_segment(p);
    let named = named_segments(p.model_specific_tensors@);
    assert(item_segments(p) =~= front + named);
    if front == seq![handle] {
        assert((front + named)[0] == handle);
        lemma_item_segment(protos, k, handle);
    }
    if 0 <= j < item.model_specific_tensors@.len() && uses_shm(
        item.model_specific_tensors@[j].1.data@.len() as int,
        shm_enabled,
        min_bytes,
    ) && segment_at(segments, first_segment(items, k) + 1 + j) == Some(handle) {
        assert(p.model_specific_tensors@[j].1.payload == Some(Payload::Shm(handle)));
        lemma_named_segment(p.model_specific_tensors@, j, handle);
        let i = named.index_of(handle);
        assert((front + named)[front.len() + i] == handle);
        lemma_item_segment(protos, k, handle);
    }
}

/// A tensor's bytes travel inline, or in the segment that was written for it;
/// in the segment exactly where there is one, segments are in use, and the
/// tensor is large enough.
pub proof fn payloads_carry_the_bytes(
    data: Vec<u8>,
    shm_enabled: bool,
    min_bytes: usize,
    segment: Option<ShmHandle>,
)
    ensures
        !shm_enabled || data@.len() < min_bytes || segment is None ==> payload_of(
            data,
            shm_enabled,
            min_bytes,
            segment,
        ) == Payload::Inline(data),
        shm_enabled && data@.len() >= min_bytes ==> (segment matches Some(handle) ==> payload_of(
            data,
            shm_enabled,
            min_bytes,
            segment,
        ) == Payload::Shm(handle)),
{
}

/// On the wire an item keeps its kind, its hash, its shapes, its element types,
/// the names of its tensors and the places of its tokens, and its inline bytes
/// where no segments are in use.
pub proof fn items_travel_whole(
    p: tokenspeed::MultimodalItem,
    item: TokenSpeedMultimodalItem,
    shm_enabled: bool,
    min_bytes: usize,
    segments: Seq<Option<ShmHandle>>,
    base: int,
)
    requires
        is_item_proto(p, item, shm_enabled, min_bytes, segments, base),
    ensures
        item.modality is Image <==> p.modality is Image,
        item.modality is Audio <==> p.modality is Audio,
        item.modality is Video <==> p.modality is Video,
        p.content_hash@ == item.content_hash@,
        p.placeholder_token_id == item.placeholder_token_id,
        p.encoder_input is Some,
        p.encoder_input->0.shape@ == item.encoder_input.shape@,
        p.encoder_input->0.dtype@ == item.encoder_input.dtype@,
        item.encoder_input.storage matches TokenSpeedTensorStorage::Shm(handle)
            ==> p.encoder_input->0.payload == Some(Payload::Shm(handle)),
        item.encoder_input.storage matches TokenSpeedTensorStorage::Remote(handle)
            ==> p.encoder_input->0.payload == Some(Payload::Remote(handle)),
        !shm_enabled ==> (item.encoder_input.storage matches TokenSpeedTensorStorage::Inline(data)
            ==> p.encoder_input->0.payload == Some(Payload::Inline(data))),
        item.encoder_input.storage matches TokenSpeedTensorStorage::Inline(data)
            ==> p.encoder_input->0.payload == Some(Payload::Inline(data)) || (0 <= base
            < segments.len() && segments[base] is Some && p.encoder_input->0.payload == Some(
            Payload::Shm(segments[base]->0),
        )),
        p.model_specific_tensors@.len() == item.model_specific_tensors@.len(),
        forall|j: int|
            #![trigger p.model_specific_tensors@[j]]
            0 <= j < p.model_specific_tensors@.len() ==> {
                let sent = p.model_specific_tensors@[j];
                let own = item.model_specific_tensors@[j];
                &&& sent.0 == own.0
                &&& sent.1.shape == own.1.shape
                &&& sent.1.dtype == own.1.dtype
                &&& !shm_enabled ==> sent.1.payload == Some(Payload::Inline(own.1.data))
                &&& sent.1.payload == Some(Payload::Inline(own.1.data)) || (0 <= base + 1 + j
                    < segments.len() && segments[base + 1 + j] is Some && sent.1.payload == Some(
                    Payload::Shm(segments[base + 1 + j]->0),
                ))
            },
        p.placeholders@.len() == item.mm_placeholders@.len(),
        forall|j: int|
            #![trigger p.placeholders@[j]]
            0 <= j < p.placeholders@.len() ==> p.placeholders@[j].offset
                == item.mm_placeholders@[j].0 && p.placeholders@[j].length
                == item.mm_placeholders@[j].1,
{
    assert(p.placeholders@ == wire_ranges(item.mm_placeholders@));
}

/// No two tensors of a request share a segment: an item has one for its encoder
/// input and one for each of its tensors, and the next item's come after them.
pub proof fn tensors_have_their_own_segments(
    items: Seq<TokenSpeedMultimodalItem>,
    k: int,
    later: int,
)
    requires
        0 <= k < later <= items.len(),
    ensures
        first_segment(items, 0) == 0,
        first_segment(items, k) >= k,
        first_segment(items, k + 1) - first_segment(items, k) == 1
            + items[k].model_specific_tensors@.len(),
        first_segment(items, later) > first_segment(items, k)
            + items[k].model_specific_tensors@.len(),
    decreases later,
{
    if later > k + 1 {
        tensors_have_their_own_segments(items, k, later - 1);
    }
    if k > 0 {
        tensors_have_their_own_segments(items, k - 1, k);
    }
}

/// The segments of two runs of items are those of the first and then those of
/// the second.
pub proof fn segments_add_up(
    front: Seq<tokenspeed::MultimodalItem>,
    back: Seq<tokenspeed::MultimodalItem>,
)
    ensures
        request_segments(front + back) == request_segments(front) + request_segments(back),
    decreases back.len(),
{
    if back.len() == 0 {
        assert(front + back =~= front);
        assert(request_segments(front) =~= request_segments(front) + request_segments(back));
    } else {
        segments_add_up(front, back.drop_last());
        assert((front + back).drop_last() =~= front + back.drop_last());
        assert((front + back).last() == back.last());
        assert(request_segments(front + back) =~= request_segments(front) + request_segments(back));
    }
}

/// What is collected for cleanup is in the request: a segment that no tensor
/// travels in is never touched.
pub proof fn only_used_segments_are_collected(
    list: Seq<(String, TensorData)>,
    handle: ShmHandle,
)
    requires
        named_segments(list).contains(handle),
    ensures
        exists|j: int|
            0 <= j < list.len() && (#[trigger] list[j]).1.payload == Some(Payload::Shm(handle)),
    decreases list.len(),
{
    if list.len() > 0 {
        let before = named_segments(list.drop_last());
        let i = named_segments(list).index_of(handle);
        if i < before.len() {
            assert(before[i] == handle);
            only_used_segments_are_collected(list.drop_last(), handle);
            let j = choose|j: int|
                0 <= j < list.drop_last().len() && (#[trigger] list.drop_last()[j]).1.payload
                    == Some(Payload::Shm(handle));
            assert(list[j].1.payload == Some(Payload::Shm(handle)));
        } else {
            assert(wire_segment(list.last().1)[i - before.len()] == handle);
            assert(list[list.len() - 1].1.payload == Some(Payload::Shm(handle)));
        }
    }
}

/// The same of whole items.
pub proof fn only_used_segments_are_given_back(
    items: Seq<tokenspeed::MultimodalItem>,
    handle: ShmHandle,
)
    requires
        request_segments(items).contains(handle),
    ensures
        exists|k: int|
            0 <= k < items.len() && {
                let item = #[trigger] items[k];
                ||| item.encoder_input matches Some(t) && t.payload == Some(Payload::Shm(handle))
                ||| exists|j: int|
                    0 <= j < item.model_specific_tensors@.len() && (
                    #[trigger] item.model_specific_tensors@[j]).1.payload == Some(
                        Payload::Shm(handle),
                    )
            },
    decreases items.len(),
{
    if items.len() > 0 {
        let before = request_segments(items.drop_last());
        let i = request_segments(items).index_of(handle);
        let item = items.last();
        if i < before.len() {
            assert(before[i] == handle);
            only_used_segments_are_given_back(items.drop_last(), handle);
            let k = choose|k: int|
                0 <= k < items.drop_last().len() && {
                    let item = #[trigger] items.drop_last()[k];
                    ||| item.encoder_input matches Some(t) && t.payload == Some(
                        Payload::Shm(handle),
                    )
                    ||| exists|j: int|
                        0 <= j < item.model_specific_tensors@.len() && (
                        #[trigger] item.model_specific_tensors@[j]).1.payload == Some(
                            Payload::Shm(handle),
                        )
                };
            assert(items[k] == items.drop_last()[k]);
        } else {
            let own = i - before.len();
            let front = encoder_segment(item);
            assert(item_segments(item)[own] == handle);
            assert(items[items.len() - 1] == item);
            if own >= front.len() {
                assert(named_segments(item.model_specific_tensors@)[own - front.len()] == handle);
                only_used_segments_are_collected(item.model_specific_tensors@, handle);
            }
        }
    }
}

/// Cleanup unlinks only names of this transport that stay in its directory, and
/// every one of those it was asked to.
pub proof fn only_own_names_are_unlinked(handles: Seq<ShmHandle>)
    ensures
        unlinkable(handles).len() <= handles.len(),
        forall|i: int|
            0 <= i < unlinkable(handles).len() ==> {
                let name = #[trigger] unlinkable(handles)[i];
                &&& name.len() >= 15
                &&& name.take(15) == "smg-tokenspeed-"@
                &&& !name.contains('/')
                &&& !name.contains('\0')
            },
        forall|k: int, name: Seq<char>|
            0 <= k < handles.len() && ((#[trigger] handles[k]).name@ == name || handles[k].name@
                == seq!['/'] + name) && name.len() >= 15 && name.take(15) == "smg-tokenspeed-"@
                && !name.contains('/') && !name.contains('\0') ==> #[trigger] unlinkable(
                handles,
            ).contains(name),
    decreases handles.len(),
{
    reveal_strlit("smg-tokenspeed-");
    assert(TOKENSPEED_SHM_NAME_PREFIX@.len() == 15);
    if handles.len() > 0 {
        let front = handles.drop_last();
        only_own_names_are_unlinked(front);
        let own = bare_name(handles.last().name@);
        let all = unlinkable(handles);
        assert forall|i: int| 0 <= i < all.len() implies {
            let name = #[trigger] all[i];
            &&& name.len() >= 15
            &&& name.take(15) == "smg-tokenspeed-"@
            &&& !name.contains('/')
            &&& !name.contains('\0')
        } by {
            if i < unlinkable(front).len() {
                assert(all[i] == unlinkable(front)[i]);
            } else {
                assert(all[i] == own && may_unlink(own));
                assert(own.take(15) =~= own.subrange(0, 15));
            }
        }
        assert forall|k: int, name: Seq<char>|
            0 <= k < handles.len() && ((#[trigger] handles[k]).name@ == name || handles[k].name@
                == seq!['/'] + name) && name.len() >= 15 && name.take(15) == "smg-tokenspeed-"@
                && !name.contains('/') && !name.contains('\0') implies #[trigger] all.contains(
            name,
        ) by {
            if k < front.len() {
                assert(front[k] == handles[k]);
                assert(unlinkable(front).contains(name));
                let i = unlinkable(front).index_of(name);
                assert(all[i] == name);
            } else {
                assert(name[0] != '/') by {
                    if name[0] == '/' {
                        assert(name.contains('/'));
                    }
                }
                if handles[k].name@ == seq!['/'] + name {
                    assert((seq!['/'] + name).skip(1) =~= name);
                }
                assert(own == name);
                assert(name.subrange(0, 15) =~= name.take(15));
                assert(may_unlink(own));
                assert(all[all.len() - 1] == name);
            }
        }
    }
}

/// An encoder input moves to the RDMA lane where it is inline, not empty, an
/// address is known and a slot is free that holds it with its frame; elsewhere
/// it stays what it was. Nothing else of the item changes.
pub proof fn exports_move_what_fits(
    before: TokenSpeedMultimodalItem,
    after: TokenSpeedMultimodalItem,
    arena: Option<SlotPool>,
    next: Option<SlotPool>,
    room: i64,
    listen_ip: Seq<char>,
    listen_port: u16,
    now: u128,
)
    requires
        export_step(before, after, arena, next, room, listen_ip, listen_port, now),
    ensures
        after.modality == before.modality,
        after.content_hash@ == before.content_hash@,
        after.model_specific_tensors@ == before.model_specific_tensors@,
        after.mm_placeholders@ == before.mm_placeholders@,
        after.placeholder_token_id == before.placeholder_token_id,
        after.encoder_input.shape@ == before.encoder_input.shape@,
        after.encoder_input.dtype@ == before.encoder_input.dtype@,
        before.encoder_input.storage !is Inline ==> after.encoder_input.storage
            == before.encoder_input.storage,
        before.encoder_input.storage matches TokenSpeedTensorStorage::Inline(data) ==> {
            let moved = data@.len() > 0 && listen_ip.len() > 0 && (arena matches Some(pool)
                && pool.free_slots().len() > 0 && data@.len() + FRAME_OVERHEAD
                <= pool.slot_bytes());
            &&& moved ==> (after.encoder_input.storage matches TokenSpeedTensorStorage::Remote(h)
                && h.nbytes == data@.len() && h.transport@ == "nixl"@)
            &&& !moved ==> (after.encoder_input.storage matches TokenSpeedTensorStorage::Inline(d)
                && d@ == data@) && next == arena
        },
{
}

/// The exports of a request go from the pool as it was to the pool as it is, one item
/// after the other: an item that does not move leaves the pool alone, and as many
/// slots are taken as items move.
pub proof fn exports_go_through_one_pool(
    before: Seq<TokenSpeedMultimodalItem>,
    after: Seq<TokenSpeedMultimodalItem>,
    first: Option<SlotPool>,
    last: Option<SlotPool>,
    rooms: Seq<i64>,
    listen_ip: Seq<char>,
    listen_port: u16,
    now: u128,
)
    requires
        exported_under(before, after, first, last, rooms, listen_ip, listen_port, now),
    ensures
        after.len() == before.len(),
        first is None ==> last is None && forall|k: int|
            0 <= k < after.len() ==> ((#[trigger] after[k]).encoder_input.storage is Remote
                ==> before[k].encoder_input.storage == after[k].encoder_input.storage),
        listen_ip.len() == 0 ==> last == first,
        (forall|k: int|
            0 <= k < before.len() ==> !((#[trigger] before[k]).encoder_input.storage is Inline))
            ==> last == first,
        before.len() == 1 && before[0].encoder_input.storage is Inline && last != first
            ==> after[0].encoder_input.storage is Remote,
        forall|k: int|
            0 <= k < after.len() ==> {
                let b = before[k];
                let a = #[trigger] after[k];
                &&& a.modality == b.modality
                &&& a.content_hash@ == b.content_hash@
                &&& a.model_specific_tensors@ == b.model_specific_tensors@
                &&& a.mm_placeholders@ == b.mm_placeholders@
                &&& a.encoder_input.shape@ == b.encoder_input.shape@
                &&& a.encoder_input.dtype@ == b.encoder_input.dtype@
                &&& b.encoder_input.storage !is Inline ==> a.encoder_input.storage
                    == b.encoder_input.storage
            },
{
    let arenas = choose|arenas: Seq<Option<SlotPool>>| #[trigger]
        is_export(before, after, arenas, rooms, listen_ip, listen_port, now) && arenas[0] == first
            && arenas.last() == last;
    assert(is_export(before, after, arenas, rooms, listen_ip, listen_port, now));
    let n = after.len() as int;
    assert forall|k: int| 0 <= k < n implies exported_item(before[k], #[trigger] after[k]) by {}
    let idle = first is None || listen_ip.len() == 0 || forall|k: int|
        0 <= k < before.len() ==> !((#[trigger] before[k]).encoder_input.storage is Inline);
    if idle {
        lemma_idle_exports(before, after, arenas, rooms, listen_ip, listen_port, now, n);
        if first is None {
            assert forall|k: int|
                0 <= k < n && (
                #[trigger] after[k]).encoder_input.storage is Remote implies before[k].encoder_input.storage
                == after[k].encoder_input.storage by {
                lemma_idle_exports(before, after, arenas, rooms, listen_ip, listen_port, now, k);
                assert(export_step(
                    before[k],
                    after[k],
                    arenas[k],
                    arenas[k + 1],
                    rooms[k],
                    listen_ip,
                    listen_port,
                    now,
                ));
            }
        }
    }
    if before.len() == 1 {
        assert(export_step(
            before[0],
            after[0],
            arenas[0],
            arenas[1],
            rooms[0],
            listen_ip,
            listen_port,
            now,
        ));
    }
}

proof fn lemma_idle_exports(
    before: Seq<TokenSpeedMultimodalItem>,
    after: Seq<TokenSpeedMultimodalItem>,
    arenas: Seq<Option<SlotPool>>,
    rooms: Seq<i64>,
    listen_ip: Seq<char>,
    listen_port: u16,
    now: u128,
    n: int,
)
    requires
        is_export(before, after, arenas, rooms, listen_ip, listen_port, now),
        0 <= n <= after.len(),
        arenas[0] is None || listen_ip.len() == 0 || forall|k: int|
            0 <= k < before.len() ==> !((#[trigger] before[k]).encoder_input.storage is Inline),
    ensures
        arenas[n] == arenas[0],
    decreases n,
{
    if n > 0 {
        lemma_idle_exports(before, after, arenas, rooms, listen_ip, listen_port, now, n - 1);
        let b = before[n - 1];
        let a = after[n - 1];
        assert(export_step(
            b,
            a,
            arenas[n - 1],
            arenas[n],
            rooms[n - 1],
            listen_ip,
            listen_port,
            now,
        ));
    }
}

/// Items move in order for as long as slots are free: as many as could move, or as
/// many as there are slots.
pub proof fn slots_go_to_the_first(
    items: Seq<TokenSpeedMultimodalItem>,
    k: int,
    arena: Option<SlotPool>,
    listen_ip: Seq<char>,
)
    requires
        0 <= k < items.len(),
    ensures
        moved_before(items, 0, arena, listen_ip) == 0,
        moved_before(items, k + 1, arena, listen_ip) == moved_before(items, k, arena, listen_ip) + (
        if moves(items, k, arena, listen_ip) {
            1int
        } else {
            0
        }),
        arena matches Some(pool) ==> moved_before(items, k, arena, listen_ip)
            <= pool.free_slots().len(),
        arena matches Some(pool) ==> (moved_before(items, k, arena, listen_ip)
            < pool.free_slots().len() ==> (moves(items, k, arena, listen_ip) <==> (
        items[k].encoder_input.storage matches TokenSpeedTensorStorage::Inline(data) && data@.len()
            > 0 && listen_ip.len() > 0 && data@.len() + FRAME_OVERHEAD <= pool.slot_bytes()))),
        arena matches Some(pool) ==> (moved_before(items, k, arena, listen_ip)
            == pool.free_slots().len() ==> !moves(items, k, arena, listen_ip)),
        arena is None ==> !moves(items, k, arena, listen_ip),
    decreases k,
{
    if k > 0 {
        slots_go_to_the_first(items, k - 1, arena, listen_ip);
    }
}

/// The segment that vLLM's pixels travel in, if they do.
spec fn pixel_segment(inputs: vllm::MultimodalInputs) -> Seq<ShmHandle> {
    match inputs.pixel_values {
        Some(t) => wire_segment(*t),
        None => Seq::empty(),
    }
}

/// The segments of vLLM's inputs are those that its pixels and its tensors travel in.
pub proof fn vllm_segments_are_used(inputs: vllm::MultimodalInputs, handle: ShmHandle)
    ensures
        inputs.pixel_values matches Some(t) ==> (t.payload == Some(Payload::Shm(handle))
            ==> vllm_segments(inputs).contains(handle)),
        (exists|j: int|
            0 <= j < inputs.model_specific_tensors@.len() && (
            #[trigger] inputs.model_specific_tensors@[j]).1.payload == Some(Payload::Shm(handle)))
            ==> vllm_segments(inputs).contains(handle),
        vllm_segments(inputs).contains(handle) ==> (inputs.pixel_values matches Some(t) && t.payload
            == Some(Payload::Shm(handle))) || exists|j: int|
            0 <= j < inputs.model_specific_tensors@.len() && (
            #[trigger] inputs.model_specific_tensors@[j]).1.payload == Some(Payload::Shm(handle)),
        vllm_media_segments(Some(inputs)) == vllm_segments(inputs),
        vllm_media_segments(None).len() == 0,
{
    let front = pixel_segment(inputs);
    let named = named_segments(inputs.model_specific_tensors@);
    let all = vllm_segments(inputs);
    assert(all == front + named);
    if front == seq![handle] {
        assert(all[0] == handle);
    }
    if exists|j: int|
        0 <= j < inputs.model_specific_tensors@.len() && (
        #[trigger] inputs.model_specific_tensors@[j]).1.payload == Some(Payload::Shm(handle)) {
        let j = choose|j: int|
            0 <= j < inputs.model_specific_tensors@.len() && (
            #[trigger] inputs.model_specific_tensors@[j]).1.payload == Some(Payload::Shm(handle));
        lemma_named_segment(inputs.model_specific_tensors@, j, handle);
        let i = named.index_of(handle);
        assert(all[front.len() + i] == handle);
    }
    if all.contains(handle) {
        let i = all.index_of(handle);
        if i >= front.len() {
            assert(named[i - front.len()] == handle);
            only_used_segments_are_collected(inputs.model_specific_tensors@, handle);
        } else {
            assert(front[i] == handle);
        }
    }
}

/// Only what a process that is gone left behind is swept away.
pub proof fn only_the_dead_leave_orphans(
    producer: Option<u32>,
    my_pid: u32,
    producer_alive: bool,
    r: bool,
)
    requires
        call_ensures(is_orphan_shm, (producer, my_pid, producer_alive), r),
    ensures
        producer_alive ==> !r,
        producer is None ==> !r,
        producer == Some(my_pid) ==> !r,
        !producer_alive && producer is Some && producer != Some(my_pid) ==> r,
{
}

/// SGLang gets its images, pixels, tensors and places, and nothing of other media.
pub proof fn sglang_gets_what_was_assembled(
    data: SglangMultimodalData,
    r: sglang::MultimodalInputs,
    i: int,
)
    requires
        call_ensures(SglangMultimodalData::into_proto, (data,), r),
    ensures
        r.image_data@ == data.image_data@,
        r.pixel_values matches Some(t) && t.data@ == data.pixel_values@ && t.shape@
            == data.pixel_values_shape@ && t.dtype@ == "float32"@,
        r.model_specific_tensors@ == data.model_specific_tensors@,
        r.im_token_id == data.im_token_id,
        r.video_data@.len() == 0 && r.audio_data@.len() == 0 && r.image_urls@.len() == 0,
        r.mm_placeholders@.len() == data.mm_placeholders@.len(),
        0 <= i < r.mm_placeholders@.len() ==> r.mm_placeholders@[i].offset
            == data.mm_placeholders@[i].0 && r.mm_placeholders@[i].length
            == data.mm_placeholders@[i].1,
{
}

/// vLLM gets its pixels, tensors, hashes, keys and places as they were assembled, and
/// its bytes inline where no segments are in use.
pub proof fn vllm_gets_what_was_assembled(
    data: VllmMultimodalData,
    segments: Vec<Option<ShmHandle>>,
    r: vllm::MultimodalInputs,
    i: int,
)
    requires
        call_ensures(VllmMultimodalData::into_proto, (data, &segments), r),
    ensures
        r.pixel_values matches Some(t) && t.shape@ == data.pixel_values_shape@ && t.dtype@
            == "float32"@ && (!data.shm_enabled || data.pixel_values@.len() < data.shm_min_bytes
            ==> t.payload == Some(Payload::Inline(data.pixel_values))),
        data.shm_enabled && data.pixel_values@.len() >= data.shm_min_bytes && segments@.len() > 0 ==> (
        segments@[0] matches Some(h) ==> r.pixel_values->0.payload == Some(Payload::Shm(h))),
        r.model_specific_tensors@.len() == data.model_specific_tensors@.len(),
        0 <= i < r.model_specific_tensors@.len() ==> r.model_specific_tensors@[i].0
            == data.model_specific_tensors@[i].0 && r.model_specific_tensors@[i].1.shape
            == data.model_specific_tensors@[i].1.shape && r.model_specific_tensors@[i].1.dtype
            == data.model_specific_tensors@[i].1.dtype,
        r.mm_hashes@ == data.mm_hashes@,
        r.batched_keys@ == data.batched_keys@,
        r.flat_keys@ == data.flat_keys@,
        r.keep_on_cpu_keys@ == data.keep_on_cpu_keys@,
        r.modality == data.modality,
        r.im_token_id == data.im_token_id,
        r.mm_placeholders@.len() == data.mm_placeholders@.len(),
        0 <= i < r.mm_placeholders@.len() ==> r.mm_placeholders@[i].offset
            == data.mm_placeholders@[i].0 && r.mm_placeholders@[i].length
            == data.mm_placeholders@[i].1,
{
}

/// A segment's handle says how large it is and who owns it.
pub proof fn handles_name_their_owner(name: String, nbytes: usize, pid: u32, r: ShmHandle)
    requires
        call_ensures(tokenspeed_shm_handle, (name, nbytes, pid), r),
    ensures
        r.name@ == name@,
        r.offset == 0,
        r.nbytes == nbytes,
        r.owner_id@.take(4) == "smg:"@,
        unsigned_value(r.owner_id@.skip(4), u32::MAX as nat) == Some(pid as nat),
{
    reveal_strlit("smg:");
    assert(r.owner_id@.take(4) =~= "smg:"@);
    assert(r.owner_id@.skip(4) =~= decimal_text(pid as nat));
    decimal_round_trip(pid as nat, u32::MAX as nat);
}

} // verus!
