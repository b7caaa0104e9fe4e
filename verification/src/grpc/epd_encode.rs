//! Encode planning: which encode worker gets which item of a request, and where
//! the prefill worker will find the embedding.

use crate::bytes::from_le_bytes;
use crate::grpc::context::{ClientSelection, EncodeAssignment, WorkerSelection};
use crate::grpc::multimodal::assemble::{AssembleError, PrecomputedMultimodalIntermediate};
use crate::grpc::multimodal::backends::{assemble_tokenspeed, is_tokenspeed_outcome};
use crate::grpc::multimodal::tokenspeed::{assemblable, segment_of};
use crate::grpc::multimodal::transport::TransportSetting;
use crate::grpc::proto::common::{Payload, ShmHandle};
use crate::grpc::proto::tokenspeed::MultimodalInputs;
use crate::grpc::proto_wrapper::data::{
    TokenSpeedMultimodalData, TokenSpeedMultimodalItem, TokenSpeedTensorStorage,
};
use crate::grpc::proto_wrapper::media::{
    collect_tokenspeed_multimodal_inputs_shm_handles, exported_item, first_segment, is_item_proto,
    lane_takes, mm_tensor_uses_shm, request_segments, uses_shm,
};
use crate::grpc::proto_wrapper::request::{
    backend_name, backend_text, EncodeItemBootstrapInfo, Engine,
};
use crate::grpc::rdma::{
    descriptors_say_what_is_leased, leased, next_descriptor, SlotPool,
};
use crate::outside::{is_uuid_text, random_room, uuid_v7_text};
use crate::text::{decimal, decimal_text};
use vstd::prelude::*;
use vstd::utf8::encode_utf8;

verus! {

/// Why no encode plan can be made.
#[derive(Debug)]
pub enum EncodePlanError {
    WorkersNotSelected,
    ClientsNotAcquired,
    NotDisaggregatedClients,
    NotImplemented { backend: Engine },
    NoEncodeWorkers,
    CountMismatch { items: usize, assignments: usize },
    OrderMismatch { expected: usize, got: usize },
}

impl EncodePlanError {
    /// What is said of the error.
    pub open spec fn text(&self) -> Seq<char> {
        match *self {
            EncodePlanError::WorkersNotSelected => "Worker selection stage not completed"@,
            EncodePlanError::ClientsNotAcquired => "Client acquisition stage not completed"@,
            EncodePlanError::NotDisaggregatedClients =>
                "Encode planning requires EPD client selection"@,
            EncodePlanError::NotImplemented { backend } => "EPD encode is not implemented for "@
                + backend_text(backend) + " backend"@,
            EncodePlanError::NoEncodeWorkers => "Encode planning requires EPD worker selection"@,
            EncodePlanError::CountMismatch { items, assignments } =>
                "EPD encode item/assignment count mismatch: "@ + decimal_text(items as nat)
                + " items, "@ + decimal_text(assignments as nat) + " assignments"@,
            EncodePlanError::OrderMismatch { expected, got } =>
                "EPD encode assignment order mismatch: expected item "@ + decimal_text(
                expected as nat,
            ) + ", got "@ + decimal_text(got as nat),
        }
    }

    pub fn message(&self) -> (s: String)
        ensures
            s@ == self.text(),
    {
        match self {
            EncodePlanError::WorkersNotSelected =>
                "Worker selection stage not completed".to_owned(),
            EncodePlanError::ClientsNotAcquired =>
                "Client acquisition stage not completed".to_owned(),
            EncodePlanError::NotDisaggregatedClients =>
                "Encode planning requires EPD client selection".to_owned(),
            EncodePlanError::NotImplemented { backend } => {
                let mut s = "EPD encode is not implemented for ".to_owned();
                s.append(backend_name(*backend));
                s.append(" backend");
                s
            },
            EncodePlanError::NoEncodeWorkers =>
                "Encode planning requires EPD worker selection".to_owned(),
            EncodePlanError::CountMismatch { items, assignments } => {
                let mut s = "EPD encode item/assignment count mismatch: ".to_owned();
                s.append(decimal(*items as u128).as_str());
                s.append(" items, ");
                s.append(decimal(*assignments as u128).as_str());
                s.append(" assignments");
                s
            },
            EncodePlanError::OrderMismatch { expected, got } => {
                let mut s = "EPD encode assignment order mismatch: expected item ".to_owned();
                s.append(decimal(*expected as u128).as_str());
                s.append(", got ");
                s.append(decimal(*got as u128).as_str());
                s
            },
        }
    }
}

/// An item on its way to an encode worker. Until it is dispatched, its segment
/// of shared memory is this side's to unlink.
pub struct PreparedEncodeItem {
    item: Option<TokenSpeedMultimodalItem>,
    shm_enabled: bool,
    shm_min_bytes: usize,
}

/// One item, where it goes and under which room.
pub struct PreparedEncodeJob {
    pub item: PreparedEncodeItem,
    pub endpoint: String,
    pub bootstrap_room: i64,
}

/// The jobs of a request.
pub struct EncodeDispatchPlan {
    jobs: Vec<PreparedEncodeJob>,
}

/// The jobs of a request, and what the prefill worker is told of them.
pub struct EncodePlan {
    bootstrap_info: Vec<EncodeItemBootstrapInfo>,
    dispatch: EncodeDispatchPlan,
}

/// A request to an encode worker.
pub struct EncodeRequest {
    pub request_id: String,
    pub mm_inputs: MultimodalInputs,
    pub rooms: Vec<i64>,
}

/// The RDMA lane, and what is needed to put something on it.
pub struct PixelLane {
    pub enabled: bool,
    pub arena: Option<SlotPool>,
    pub listen_ip: String,
    pub listen_port: u16,
    pub now: u128,
}

impl PixelLane {
    pub open spec fn wf(&self) -> bool {
        self.arena matches Some(pool) ==> pool.wf()
    }

    /// The lane takes the encoder input of `item`.
    pub open spec fn takes(&self, item: TokenSpeedMultimodalItem) -> bool {
        self.enabled && item.encoder_input.storage is Inline && lane_takes(
            self.arena,
            self.listen_ip@,
            item.encoder_input.storage->Inline_0@.len() as int,
        )
    }
}

/// `request` asks for `item` to be encoded under `room`. Where `lane` takes the
/// item's encoder input, the request tells where on the lane it is; else it
/// carries what the item holds.
pub open spec fn is_encode_request(
    request: EncodeRequest,
    item: TokenSpeedMultimodalItem,
    room: i64,
    shm_enabled: bool,
    shm_min_bytes: usize,
    segments: Seq<Option<ShmHandle>>,
    lane: PixelLane,
) -> bool {
    &&& request.rooms@ == seq![room]
    &&& is_encode_id(request.request_id@)
    &&& request.mm_inputs.items@.len() == 1
    &&& exists|after: TokenSpeedMultimodalItem|
        {
            &&& #[trigger] exported_item(item, after)
            &&& (after.encoder_input.storage is Remote <==> lane.takes(item)
                || item.encoder_input.storage is Remote)
            &&& is_item_proto(
                request.mm_inputs.items@[0],
                after,
                shm_enabled,
                shm_min_bytes,
                segments,
                0,
            )
        }
    &&& lane.takes(item) ==> (request.mm_inputs.items@[0].encoder_input->0.payload matches Some(
        Payload::Remote(handle),
    ) && handle.descriptor@ == next_descriptor(
        lane.arena->0,
        room,
        lane.listen_port,
        lane.listen_ip@,
    ))
}

/// `id` is the id of a request to an encode worker.
pub open spec fn is_encode_id(id: Seq<char>) -> bool {
    exists|fresh: Seq<char>|
        #![trigger is_uuid_text(fresh, '7')]
        is_uuid_text(fresh, '7') && id == "encode-"@ + fresh
}

impl PreparedEncodeItem {
    pub closed spec fn held(&self) -> Option<TokenSpeedMultimodalItem> {
        self.item
    }

    pub closed spec fn may_use_shm(&self) -> bool {
        self.shm_enabled
    }

    pub closed spec fn min_bytes(&self) -> usize {
        self.shm_min_bytes
    }

    pub fn tokenspeed(
        item: TokenSpeedMultimodalItem,
        shm_enabled: bool,
        shm_min_bytes: usize,
    ) -> (r: Self)
        ensures
            r.held() == Some(item),
            r.may_use_shm() == shm_enabled,
            r.min_bytes() == shm_min_bytes,
    {
        PreparedEncodeItem { item: Some(item), shm_enabled, shm_min_bytes }
    }

    /// The item, until it is dispatched.
    pub fn item(&self) -> (r: Option<&TokenSpeedMultimodalItem>)
        ensures
            match r {
                Some(item) => self.held() == Some(*item),
                None => self.held() is None,
            },
    {
        match &self.item {
            Some(item) => Some(item),
            None => None,
        }
    }

    /// Whether a tensor of `nbytes` bytes goes into shared memory.
    pub fn wants_segment(&self, nbytes: usize) -> (r: bool)
        ensures
            r == uses_shm(nbytes as int, self.may_use_shm(), self.min_bytes()),
    {
        mm_tensor_uses_shm(nbytes, self.shm_enabled, self.shm_min_bytes)
    }

    /// The request that dispatches the item, once, and the segments that go with
    /// it. From then on those are cleaned up with the request.
    ///
    /// The room is also the key of the item's slot on the RDMA lane, where that
    /// takes it. `segments` are those that were written for the item's tensors.
    pub fn encode_request(
        &mut self,
        room: i64,
        lane: &mut PixelLane,
        segments: &Vec<Option<ShmHandle>>,
    ) -> (r: Result<(EncodeRequest, Vec<ShmHandle>), String>)
        requires
            old(lane).wf(),
            old(self).held() matches Some(item) ==> item.model_specific_tensors@.len()
                < usize::MAX,
        ensures
            final(lane).wf(),
            final(self).held() is None,
            match old(self).held() {
                None => {
                    &&& r matches Err(e)
                    &&& e@ == "encode item was already dispatched"@
                    &&& *final(lane) == *old(lane)
                },
                Some(item) => {
                    let moved = old(lane).takes(item);
                    &&& r is Ok
                    &&& is_encode_request(
                        r->Ok_0.0,
                        item,
                        room,
                        old(self).may_use_shm(),
                        old(self).min_bytes(),
                        segments@,
                        *old(lane),
                    )
                    &&& r->Ok_0.1@ == request_segments(r->Ok_0.0.mm_inputs.items@)
                    &&& *final(lane) == (PixelLane { arena: final(lane).arena, ..*old(lane) })
                    &&& if moved {
                        final(lane).arena is Some && leased(
                            old(lane).arena->0,
                            final(lane).arena->0,
                            room,
                            item.encoder_input.storage->Inline_0@,
                            old(lane).now,
                        )
                    } else {
                        final(lane).arena == old(lane).arena
                    }
                },
            },
    {
        let mut item = match self.item.take() {
            Some(item) => item,
            None => {
                return Err("encode item was already dispatched".to_owned());
            },
        };
        let ghost before = item;
        let encoder_input = item.encoder_input;
        item.encoder_input = encoder_input.try_export_nixl_remote(
            room,
            lane.enabled,
            &mut lane.arena,
            lane.listen_ip.as_str(),
            lane.listen_port,
            lane.now,
        );
        let ghost after = item;
        assert(exported_item(before, after));
        let mut items: Vec<TokenSpeedMultimodalItem> = Vec::new();
        items.push(item);
        let data = TokenSpeedMultimodalData {
            items,
            shm_enabled: self.shm_enabled,
            shm_min_bytes: self.shm_min_bytes,
        };
        proof {
            assert(first_segment(data.items@, 0) == 0);
            assert(first_segment(data.items@, 1) == 1 + after.model_specific_tensors@.len());
        }
        let mm_inputs = data.into_proto(segments);
        assert(is_item_proto(
            mm_inputs.items@[0],
            after,
            self.shm_enabled,
            self.shm_min_bytes,
            segments@,
            0,
        ));
        let handles = collect_tokenspeed_multimodal_inputs_shm_handles(&mm_inputs);
        let mut rooms: Vec<i64> = Vec::new();
        rooms.push(room);
        assert(rooms@ =~= seq![room]);
        Ok((EncodeRequest { request_id: encode_request_id(), mm_inputs, rooms }, handles))
    }

    /// The segment to unlink if the item is dropped now: none once it was
    /// dispatched.
    pub fn abandoned(&self) -> (r: Option<ShmHandle>)
        ensures
            match r {
                Some(h) => self.held() is Some && segment_of(self.held()->0.encoder_input)
                    == seq![h],
                None => self.held() is None || segment_of(self.held()->0.encoder_input).len()
                    == 0,
            },
    {
        match &self.item {
            Some(item) => match &item.encoder_input.storage {
                TokenSpeedTensorStorage::Shm(handle) => Some(handle.copy()),
                _ => None,
            },
            None => None,
        }
    }
}

impl EncodeDispatchPlan {
    pub closed spec fn job_list(&self) -> Seq<PreparedEncodeJob> {
        self.jobs@
    }

    pub fn new(jobs: Vec<PreparedEncodeJob>) -> (r: Self)
        ensures
            r.job_list() == jobs@,
    {
        EncodeDispatchPlan { jobs }
    }

    pub fn is_empty(&self) -> (r: bool)
        ensures
            r == (self.job_list().len() == 0),
    {
        self.jobs.len() == 0
    }

    pub fn len(&self) -> (r: usize)
        ensures
            r == self.job_list().len(),
    {
        self.jobs.len()
    }

    pub fn into_jobs(self) -> (r: Vec<PreparedEncodeJob>)
        ensures
            r@ == self.job_list(),
    {
        self.jobs
    }
}

impl EncodePlan {
    pub closed spec fn info(&self) -> Seq<EncodeItemBootstrapInfo> {
        self.bootstrap_info@
    }

    pub closed spec fn job_list(&self) -> Seq<PreparedEncodeJob> {
        self.dispatch.job_list()
    }

    pub fn is_empty(&self) -> (r: bool)
        ensures
            r == (self.job_list().len() == 0),
    {
        self.dispatch.is_empty()
    }

    pub fn into_parts(self) -> (r: (Vec<EncodeItemBootstrapInfo>, EncodeDispatchPlan))
        ensures
            r.0@ == self.info(),
            r.1.job_list() == self.job_list(),
    {
        (self.bootstrap_info, self.dispatch)
    }
}

/// Why items cannot be encoded with the clients that were acquired.
pub open spec fn client_problem(
    workers_selected: bool,
    clients: Option<ClientSelection>,
) -> Option<EncodePlanError> {
    if !workers_selected {
        Some(EncodePlanError::WorkersNotSelected)
    } else {
        match clients {
            None => Some(EncodePlanError::ClientsNotAcquired),
            Some(ClientSelection::Single { .. }) => Some(EncodePlanError::NotDisaggregatedClients),
            Some(ClientSelection::Disaggregated { prefill, .. }) => if prefill
                == Engine::TokenSpeed {
                None
            } else {
                Some(EncodePlanError::NotImplemented { backend: prefill })
            },
        }
    }
}

/// Whether items can be encoded with the clients that were acquired; only then
/// they are assembled.
pub fn prepare_items(
    workers_selected: bool,
    clients: Option<&ClientSelection>,
) -> (r: Result<(), EncodePlanError>)
    ensures
        match client_problem(
            workers_selected,
            match clients {
                Some(c) => Some(*c),
                None => None,
            },
        ) {
            None => r is Ok,
            Some(e) => r == Err::<(), EncodePlanError>(e),
        },
{
    if !workers_selected {
        return Err(EncodePlanError::WorkersNotSelected);
    }
    match clients {
        None => Err(EncodePlanError::ClientsNotAcquired),
        Some(c) => match c {
            ClientSelection::Single { .. } => Err(EncodePlanError::NotDisaggregatedClients),
            ClientSelection::Disaggregated { prefill, .. } => match prefill {
                Engine::TokenSpeed => Ok(()),
                other => Err(EncodePlanError::NotImplemented { backend: *other }),
            },
        },
    }
}

/// The encode workers of a selection.
pub open spec fn assignments_of(workers: WorkerSelection) -> Seq<EncodeAssignment> {
    match workers {
        WorkerSelection::Disaggregated { encode_assignments: Some(v), .. } => v@,
        _ => Seq::empty(),
    }
}

/// The first assignment that is not for the item at its place.
pub open spec fn first_misplaced(assignments: Seq<EncodeAssignment>, from: int) -> Option<int>
    decreases assignments.len() - from,
{
    if from < 0 || from >= assignments.len() {
        None
    } else if assignments[from].item_index != from {
        Some(from)
    } else {
        first_misplaced(assignments, from + 1)
    }
}

/// Why `count` items cannot be given to the encode workers.
pub open spec fn assignment_problem(
    count: int,
    assignments: Seq<EncodeAssignment>,
) -> Option<EncodePlanError> {
    if count == 0 {
        None
    } else if assignments.len() == 0 {
        Some(EncodePlanError::NoEncodeWorkers)
    } else if assignments.len() != count {
        Some(
            EncodePlanError::CountMismatch {
                items: count as usize,
                assignments: assignments.len() as usize,
            },
        )
    } else {
        match first_misplaced(assignments, 0) {
            Some(i) => Some(
                EncodePlanError::OrderMismatch {
                    expected: i as usize,
                    got: assignments[i].item_index,
                },
            ),
            None => None,
        }
    }
}

/// `plan` gives each item to its worker under its room, and tells the prefill
/// worker of it.
pub open spec fn is_plan(
    plan: EncodePlan,
    data: TokenSpeedMultimodalData,
    assignments: Seq<EncodeAssignment>,
    rooms: Seq<i64>,
) -> bool {
    &&& plan.job_list().len() == data.items@.len()
    &&& plan.info().len() == data.items@.len()
    &&& forall|i: int|
        0 <= i < data.items@.len() ==> is_job(
            #[trigger] plan.job_list()[i],
            data.items@[i],
            data,
            assignments[i],
            rooms[i],
        )
    &&& forall|i: int|
        0 <= i < data.items@.len() ==> is_info(
            #[trigger] plan.info()[i],
            i,
            assignments[i],
            rooms[i],
        )
}

/// `job` is for `item`, at its worker, under `room`.
pub open spec fn is_job(
    job: PreparedEncodeJob,
    item: TokenSpeedMultimodalItem,
    data: TokenSpeedMultimodalData,
    assignment: EncodeAssignment,
    room: i64,
) -> bool {
    &&& job.item.held() == Some(item)
    &&& job.item.may_use_shm() == data.shm_enabled
    &&& job.item.min_bytes() == data.shm_min_bytes
    &&& job.endpoint@ == assignment.worker.url@
    &&& job.bootstrap_room == room
}

/// `info` tells where item `i` will be found.
pub open spec fn is_info(
    info: EncodeItemBootstrapInfo,
    i: int,
    assignment: EncodeAssignment,
    room: i64,
) -> bool {
    &&& info.item_index == i as u32
    &&& info.bootstrap_host@ == assignment.worker.bootstrap_host@
    &&& info.bootstrap_port == assignment.worker.bootstrap() as i32
    &&& info.bootstrap_room == room
}

/// Plans the encoding of assembled items under given rooms.
pub fn build_plan_with_rooms(
    data: TokenSpeedMultimodalData,
    workers: &WorkerSelection,
    rooms: &Vec<i64>,
) -> (r: Result<EncodePlan, EncodePlanError>)
    requires
        rooms@.len() >= data.items@.len(),
    ensures
        match assignment_problem(data.items@.len() as int, assignments_of(*workers)) {
            None => r matches Ok(plan) && is_plan(plan, data, assignments_of(*workers), rooms@),
            Some(e) => r == Err::<EncodePlan, EncodePlanError>(e),
        },
{
    let ghost all = data.items@;
    let ghost assignments = assignments_of(*workers);
    let count: usize = data.items.len();
    if count == 0 {
        return Ok(
            EncodePlan {
                bootstrap_info: Vec::new(),
                dispatch: EncodeDispatchPlan::new(Vec::new()),
            },
        );
    }
    let none: Vec<EncodeAssignment> = Vec::new();
    let list: &Vec<EncodeAssignment> = match workers {
        WorkerSelection::Disaggregated { encode_assignments: Some(v), .. } => v,
        _ => &none,
    };
    assert(list@ =~= assignments);
    if list.len() == 0 {
        return Err(EncodePlanError::NoEncodeWorkers);
    }
    if list.len() != count {
        return Err(EncodePlanError::CountMismatch { items: count, assignments: list.len() });
    }
    let mut i: usize = 0;
    while i < list.len()
        invariant
            i <= list@.len(),
            list@ == assignments,
            list@.len() == count,
            count == all.len(),
            count > 0,
            assignments == assignments_of(*workers),
            all == data.items@,
            first_misplaced(assignments, 0) == first_misplaced(assignments, i as int),
        decreases list@.len() - i,
    {
        if list[i].item_index != i {
            return Err(
                EncodePlanError::OrderMismatch { expected: i, got: list[i].item_index },
            );
        }
        i += 1;
    }
    let shm_enabled = data.shm_enabled;
    let shm_min_bytes: usize = data.shm_min_bytes;
    let mut bootstrap_info: Vec<EncodeItemBootstrapInfo> = Vec::new();
    let mut jobs: Vec<PreparedEncodeJob> = Vec::new();
    for item in it: data.items
        invariant
            it.seq() == all,
            list@ == assignments,
            list@.len() == all.len(),
            rooms@.len() >= all.len(),
            shm_enabled == data.shm_enabled,
            shm_min_bytes == data.shm_min_bytes,
            jobs@.len() == it.index(),
            bootstrap_info@.len() == it.index(),
            forall|k: int|
                0 <= k < it.index() ==> is_job(
                    #[trigger] jobs@[k],
                    all[k],
                    data,
                    assignments[k],
                    rooms@[k],
                ),
            forall|k: int|
                0 <= k < it.index() ==> is_info(
                    #[trigger] bootstrap_info@[k],
                    k,
                    assignments[k],
                    rooms@[k],
                ),
    {
        let k: usize = jobs.len();
        let worker = &list[k].worker;
        bootstrap_info.push(
            EncodeItemBootstrapInfo {
                item_index: k as u32,
                bootstrap_host: worker.bootstrap_host.clone(),
                bootstrap_port: worker.bootstrap_port_or_default() as i32,
                bootstrap_room: rooms[k],
            },
        );
        jobs.push(
            PreparedEncodeJob {
                item: PreparedEncodeItem::tokenspeed(item, shm_enabled, shm_min_bytes),
                endpoint: worker.url.clone(),
                bootstrap_room: rooms[k],
            },
        );
    }
    Ok(EncodePlan { bootstrap_info, dispatch: EncodeDispatchPlan::new(jobs) })
}

/// Plans the encoding of assembled items. Each gets a room of its own from a
/// space so wide that two of them hardly ever meet.
pub fn build_plan(data: TokenSpeedMultimodalData, workers: &WorkerSelection) -> (r: Result<
    EncodePlan,
    EncodePlanError,
>)
    ensures
        match assignment_problem(data.items@.len() as int, assignments_of(*workers)) {
            None => r is Ok && exists|rooms: Seq<i64>|
                #![trigger is_plan(r->Ok_0, data, assignments_of(*workers), rooms)]
                {
                    &&& rooms.len() == data.items@.len()
                    &&& forall|i: int| 0 <= i < rooms.len() ==> 0 <= #[trigger] rooms[i] < i64::MAX
                    &&& is_plan(r->Ok_0, data, assignments_of(*workers), rooms)
                },
            Some(e) => r == Err::<EncodePlan, EncodePlanError>(e),
        },
{
    let mut rooms: Vec<i64> = Vec::new();
    let count: usize = data.items.len();
    while rooms.len() < count
        invariant
            rooms@.len() <= count,
            forall|i: int| 0 <= i < rooms@.len() ==> 0 <= #[trigger] rooms@[i] < i64::MAX,
        decreases count - rooms@.len(),
    {
        rooms.push(random_room());
    }
    build_plan_with_rooms(data, workers, &rooms)
}

/// The id of a request to an encode worker.
pub fn encode_request_id() -> (r: String)
    ensures
        is_encode_id(r@),
{
    let fresh = uuid_v7_text();
    let mut id = "encode-".to_owned();
    id.append(fresh.as_str());
    assert(is_uuid_text(fresh@, '7'));
    id
}

/// Why no encode plan can be made for media that were preprocessed.
#[derive(Debug)]
pub enum EncodeFailure {
    Plan(EncodePlanError),
    Assemble(AssembleError),
}

impl EncodeFailure {
    /// What is said of the failure.
    pub open spec fn text(&self) -> Seq<char> {
        match *self {
            EncodeFailure::Plan(e) => e.text(),
            EncodeFailure::Assemble(e) => e.text(),
        }
    }

    pub fn message(&self) -> (s: String)
        ensures
            s@ == self.text(),
    {
        match self {
            EncodeFailure::Plan(e) => e.message(),
            EncodeFailure::Assemble(e) => e.message(),
        }
    }
}

/// `r` is what planning comes to, once the items are assembled to `assembled`.
pub open spec fn is_plan_outcome(
    r: Result<EncodePlan, EncodeFailure>,
    assembled: Result<TokenSpeedMultimodalData, AssembleError>,
    workers: WorkerSelection,
) -> bool {
    match assembled {
        Err(e) => r == Err::<EncodePlan, EncodeFailure>(EncodeFailure::Assemble(e)),
        Ok(data) => match assignment_problem(data.items@.len() as int, assignments_of(workers)) {
            Some(e) => r == Err::<EncodePlan, EncodeFailure>(EncodeFailure::Plan(e)),
            None => r is Ok && exists|rooms: Seq<i64>|
                #![trigger is_plan(r->Ok_0, data, assignments_of(workers), rooms)]
                {
                    &&& rooms.len() == data.items@.len()
                    &&& forall|i: int| 0 <= i < rooms.len() ==> 0 <= #[trigger] rooms[i] < i64::MAX
                    &&& is_plan(r->Ok_0, data, assignments_of(workers), rooms)
                },
        },
    }
}

/// Plans the encoding of media that were preprocessed, with every encoder input
/// inline.
pub fn build_plan_from_intermediate(
    intermediate: &PrecomputedMultimodalIntermediate,
    clients: Option<&ClientSelection>,
    workers: Option<&WorkerSelection>,
    setting: &TransportSetting,
) -> (r: Result<EncodePlan, EncodeFailure>)
    requires
        assemblable(*intermediate, false),
    ensures
        match client_problem(
            workers is Some,
            match clients {
                Some(c) => Some(*c),
                None => None,
            },
        ) {
            Some(e) => r == Err::<EncodePlan, EncodeFailure>(EncodeFailure::Plan(e)),
            None => exists|assembled: Result<TokenSpeedMultimodalData, AssembleError>|
                #[trigger] is_tokenspeed_outcome(
                    assembled,
                    *intermediate,
                    workers,
                    false,
                    *setting,
                ) && is_plan_outcome(r, assembled, *workers->0),
        },
{
    if let Err(e) = prepare_items(workers.is_some(), clients) {
        return Err(EncodeFailure::Plan(e));
    }
    let selected: &WorkerSelection = match workers {
        Some(w) => w,
        None => {
            assert(false);
            return Err(EncodeFailure::Plan(EncodePlanError::WorkersNotSelected));
        },
    };
    match assemble_tokenspeed(intermediate, workers, false, setting) {
        Err(e) => {
            assert(is_tokenspeed_outcome(Err(e), *intermediate, workers, false, *setting));
            Err(EncodeFailure::Assemble(e))
        },
        Ok(data) => {
            assert(is_tokenspeed_outcome(Ok(data), *intermediate, workers, false, *setting));
            match build_plan(data, selected) {
                Ok(plan) => {
                    let ghost assignments = assignments_of(*selected);
                    let ghost rooms = choose|rooms: Seq<i64>|
                        #![trigger is_plan(plan, data, assignments, rooms)]
                        {
                            &&& rooms.len() == data.items@.len()
                            &&& forall|i: int|
                                0 <= i < rooms.len() ==> 0 <= #[trigger] rooms[i] < i64::MAX
                            &&& is_plan(plan, data, assignments, rooms)
                        };
                    let r: Result<EncodePlan, EncodeFailure> = Ok(plan);
                    assert(is_plan(r->Ok_0, data, assignments, rooms));
                    assert(is_plan_outcome(r, Ok(data), *selected));
                    r
                },
                Err(e) => Err(EncodeFailure::Plan(e)),
            }
        },
    }
}

/// What became of a request to an encode worker.
pub enum EncodeReply {
    NotConnected { error: String },
    Failed { message: String },
    Answered { accepted: bool },
}

/// What is said of an encode worker that did not take a request.
pub open spec fn refusal(endpoint: Seq<char>, reply: EncodeReply) -> Option<Seq<char>> {
    match reply {
        EncodeReply::NotConnected { error } => Some(
            "connect to encode worker "@ + endpoint + " failed: "@ + error@,
        ),
        EncodeReply::Failed { message } => Some(
            "encode RPC to "@ + endpoint + " failed: "@ + message@,
        ),
        EncodeReply::Answered { accepted } => if accepted {
            None
        } else {
            Some("encode worker "@ + endpoint + " did not accept the request"@)
        },
    }
}

/// What a request to an encode worker comes to.
pub fn encode_outcome(endpoint: &str, reply: EncodeReply) -> (r: Result<(), String>)
    ensures
        match refusal(endpoint@, reply) {
            None => r is Ok,
            Some(text) => r is Err && r->Err_0@ == text,
        },
{
    match reply {
        EncodeReply::NotConnected { error } => {
            let mut e = "connect to encode worker ".to_owned();
            e.append(endpoint);
            e.append(" failed: ");
            e.append(error.as_str());
            Err(e)
        },
        EncodeReply::Failed { message } => {
            let mut e = "encode RPC to ".to_owned();
            e.append(endpoint);
            e.append(" failed: ");
            e.append(message.as_str());
            Err(e)
        },
        EncodeReply::Answered { accepted } => {
            if accepted {
                return Ok(());
            }
            let mut e = "encode worker ".to_owned();
            e.append(endpoint);
            e.append(" did not accept the request");
            Err(e)
        },
    }
}

/// Each item is looked for where it is sent: the prefill worker is told of every
/// job, in order, under the room the encode worker gets.
pub proof fn rooms_match(
    plan: EncodePlan,
    data: TokenSpeedMultimodalData,
    assignments: Seq<EncodeAssignment>,
    rooms: Seq<i64>,
)
    requires
        is_plan(plan, data, assignments, rooms),
    ensures
        plan.info().len() == plan.job_list().len(),
        forall|i: int|
            0 <= i < plan.info().len() ==> (#[trigger] plan.info()[i]).bootstrap_room
                == plan.job_list()[i].bootstrap_room && plan.info()[i].item_index == i as u32,
{
    assert forall|i: int| 0 <= i < plan.info().len() implies (
    #[trigger] plan.info()[i]).bootstrap_room == plan.job_list()[i].bootstrap_room
        && plan.info()[i].item_index == i as u32 by {
        assert(is_job(
            plan.job_list()[i],
            data.items@[i],
            data,
            assignments[i],
            rooms[i],
        ));
    }
}

/// Items can be given out exactly where there is one assignment for each, in the
/// order of the items, or where there are no items.
pub proof fn every_item_needs_a_worker(count: int, assignments: Seq<EncodeAssignment>)
    requires
        0 <= count <= usize::MAX,
        assignments.len() <= usize::MAX,
    ensures
        assignment_problem(count, assignments) is None <==> count == 0 || (assignments.len()
            == count && forall|i: int|
            0 <= i < assignments.len() ==> (#[trigger] assignments[i]).item_index == i),
        assignment_problem(count, assignments) matches Some(EncodePlanError::CountMismatch {
            items,
            assignments: given,
        }) ==> items == count && given == assignments.len() && items != given,
        assignment_problem(count, assignments) matches Some(EncodePlanError::OrderMismatch {
            expected,
            got,
        }) ==> expected != got && 0 <= expected < assignments.len()
            && assignments[expected as int].item_index == got && forall|i: int|
            0 <= i < expected ==> (#[trigger] assignments[i]).item_index == i,
        assignment_problem(count, assignments) matches Some(EncodePlanError::NoEncodeWorkers)
            ==> count != 0 && assignments.len() == 0,
        assignment_problem(count, assignments) matches Some(e) ==> e is NoEncodeWorkers
            || e is CountMismatch || e is OrderMismatch,
{
    lemma_first_misplaced(assignments, 0);
}

proof fn lemma_first_misplaced(assignments: Seq<EncodeAssignment>, from: int)
    requires
        0 <= from,
    ensures
        match first_misplaced(assignments, from) {
            Some(i) => {
                &&& from <= i < assignments.len()
                &&& assignments[i].item_index != i
                &&& forall|j: int|
                    from <= j < i ==> (#[trigger] assignments[j]).item_index == j
            },
            None => forall|j: int|
                from <= j < assignments.len() ==> (#[trigger] assignments[j]).item_index == j,
        },
    decreases assignments.len() - from,
{
    if from < assignments.len() && assignments[from].item_index == from {
        lemma_first_misplaced(assignments, from + 1);
    }
}

/// Each item goes to the worker that was chosen for it, and the prefill worker is
/// told to fetch it from that worker.
pub proof fn items_go_to_their_workers(
    plan: EncodePlan,
    data: TokenSpeedMultimodalData,
    assignments: Seq<EncodeAssignment>,
    rooms: Seq<i64>,
    k: int,
)
    requires
        data.items@.len() <= u32::MAX,
        assignment_problem(data.items@.len() as int, assignments) is None,
        is_plan(plan, data, assignments, rooms),
        0 <= k < assignments.len(),
        data.items@.len() > 0,
    ensures
        plan.job_list().len() == assignments.len(),
        plan.info().len() == assignments.len(),
        0 <= assignments[k].item_index < plan.job_list().len(),
        ({
            let at = assignments[k].item_index as int;
            let worker = assignments[k].worker;
            &&& plan.job_list()[at].item.held() == Some(data.items@[at])
            &&& plan.job_list()[at].item.may_use_shm() == data.shm_enabled
            &&& plan.job_list()[at].item.min_bytes() == data.shm_min_bytes
            &&& plan.job_list()[at].endpoint@ == worker.url@
            &&& plan.job_list()[at].bootstrap_room == rooms[at]
            &&& plan.info()[at].item_index == at
            &&& plan.info()[at].bootstrap_host@ == worker.bootstrap_host@
            &&& plan.info()[at].bootstrap_room == rooms[at]
            &&& worker.bootstrap_port matches Some(port) ==> plan.info()[at].bootstrap_port == port
            &&& worker.bootstrap_port is None ==> plan.info()[at].bootstrap_port == 8998
        }),
{
    lemma_first_misplaced(assignments, 0);
    assert(assignments[k].item_index == k);
    assert(is_job(plan.job_list()[k], data.items@[k], data, assignments[k], rooms[k]));
    assert(is_info(plan.info()[k], k, assignments[k], rooms[k]));
}

/// Only a disaggregated selection with a TokenSpeed prefill worker encodes items.
pub proof fn only_tokenspeed_encodes(workers_selected: bool, clients: Option<ClientSelection>)
    ensures
        client_problem(workers_selected, clients) is None <==> workers_selected && (clients matches
            Some(ClientSelection::Disaggregated { prefill, .. }) && prefill is TokenSpeed),
        client_problem(workers_selected, clients) is Some ==> {
            let e = client_problem(workers_selected, clients)->0;
            &&& e is WorkersNotSelected <==> !workers_selected
            &&& e is ClientsNotAcquired ==> clients is None
            &&& e is NotDisaggregatedClients ==> (clients matches Some(c) && c is Single)
            &&& e matches EncodePlanError::NotImplemented { backend } ==> (clients matches Some(
                ClientSelection::Disaggregated { prefill, .. },
            ) && backend == prefill)
            &&& !(e is NoEncodeWorkers || e is CountMismatch || e is OrderMismatch)
        },
{
}

/// A request to an encode worker succeeded exactly where the worker accepted it;
/// any refusal names the worker, and ends with the cause where there is one.
pub proof fn refusals_name_the_worker(endpoint: Seq<char>, reply: EncodeReply)
    ensures
        refusal(endpoint, reply) is None <==> (reply matches EncodeReply::Answered { accepted }
            && accepted),
        refusal(endpoint, reply) matches Some(text) ==> exists|front: Seq<char>, back: Seq<char>|
            #[trigger] (front + endpoint + back) == text && match reply {
                EncodeReply::NotConnected { error } => back == " failed: "@ + error@,
                EncodeReply::Failed { message } => back == " failed: "@ + message@,
                EncodeReply::Answered { .. } => back == " did not accept the request"@,
            },
{
    match reply {
        EncodeReply::NotConnected { error } => {
            assert("connect to encode worker "@ + endpoint + (" failed: "@ + error@)
                =~= "connect to encode worker "@ + endpoint + " failed: "@ + error@);
        },
        EncodeReply::Failed { message } => {
            assert("encode RPC to "@ + endpoint + (" failed: "@ + message@)
                =~= "encode RPC to "@ + endpoint + " failed: "@ + message@);
        },
        EncodeReply::Answered { .. } => {
            assert("encode worker "@ + endpoint + " did not accept the request"@
                =~= "encode worker "@ + endpoint + " did not accept the request"@);
        },
    }
}

/// A request to an encode worker carries one item, under the room that was given,
/// with an id of its own kind; what the item holds inline travels inline, in its
/// segment or on the lane, and is described as the item describes it.
pub proof fn encode_requests_carry_the_item(
    request: EncodeRequest,
    item: TokenSpeedMultimodalItem,
    room: i64,
    shm_enabled: bool,
    shm_min_bytes: usize,
    segments: Seq<Option<ShmHandle>>,
    lane: PixelLane,
)
    requires
        is_encode_request(request, item, room, shm_enabled, shm_min_bytes, segments, lane),
    ensures
        request.rooms@.len() == 1,
        request.rooms@[0] == room,
        request.request_id@.len() == 43,
        request.request_id@.take(7) == "encode-"@,
        request.mm_inputs.items@.len() == 1,
        ({
            let sent = request.mm_inputs.items@[0];
            &&& sent.content_hash@ == item.content_hash@
            &&& sent.placeholder_token_id == item.placeholder_token_id
            &&& sent.encoder_input is Some
            &&& sent.encoder_input->0.shape@ == item.encoder_input.shape@
            &&& sent.encoder_input->0.dtype@ == item.encoder_input.dtype@
            &&& sent.model_specific_tensors@.len() == item.model_specific_tensors@.len()
            &&& sent.placeholders@.len() == item.mm_placeholders@.len()
            &&& !lane.enabled && !shm_enabled ==> (item.encoder_input.storage matches
                TokenSpeedTensorStorage::Inline(data)
                ==> (sent.encoder_input->0.payload matches Some(Payload::Inline(d)) && d@ == data@))
            &&& lane.takes(item) ==> (sent.encoder_input->0.payload matches Some(
                Payload::Remote(handle),
            ) && (room >= 0 ==> from_le_bytes(handle.descriptor@.subrange(24, 32)) == room)
                && from_le_bytes(handle.descriptor@.subrange(32, 34)) == lane.listen_port
                && handle.descriptor@.skip(34) == encode_utf8(lane.listen_ip@))
        }),
{
    if lane.takes(item) {
        let pool = lane.arena->0;
        descriptors_say_what_is_leased(
            (pool.base() + pool.slot_start(pool.free_slots().last())) as u64,
            pool.next_gen(),
            room,
            lane.listen_port,
            lane.listen_ip@,
        );
    }
    reveal_strlit("encode-");
    let fresh = choose|fresh: Seq<char>|
        #![trigger is_uuid_text(fresh, '7')]
        is_uuid_text(fresh, '7') && request.request_id@ == "encode-"@ + fresh;
    assert(is_uuid_text(fresh, '7') && request.request_id@ == "encode-"@ + fresh);
    assert(("encode-"@ + fresh).take(7) =~= "encode-"@);
    assert("encode-"@.len() == 7);
    let after = choose|after: TokenSpeedMultimodalItem|
        {
            &&& #[trigger] exported_item(item, after)
            &&& (after.encoder_input.storage is Remote <==> lane.takes(item)
                || item.encoder_input.storage is Remote)
            &&& is_item_proto(
                request.mm_inputs.items@[0],
                after,
                shm_enabled,
                shm_min_bytes,
                segments,
                0,
            )
        };
    assert(exported_item(item, after));
}

/// Assignments are those of the selection, where it has any.
pub proof fn assignments_come_from_the_selection(
    workers: WorkerSelection,
    r: Result<EncodePlan, EncodeFailure>,
    assembled: Result<TokenSpeedMultimodalData, AssembleError>,
)
    ensures
        workers is Single ==> assignments_of(workers).len() == 0,
        workers matches WorkerSelection::Disaggregated { encode_assignments: Some(v), .. }
            ==> assignments_of(workers) == v@,
        workers matches WorkerSelection::Disaggregated { encode_assignments: None, .. }
            ==> assignments_of(workers).len() == 0,
        is_plan_outcome(r, assembled, workers) ==> {
            &&& assembled matches Err(e) ==> (r matches Err(EncodeFailure::Assemble(f)) && f == e)
            &&& assembled matches Ok(data) ==> (data.items@.len() > 0 && workers is Single ==> (
            r matches Err(EncodeFailure::Plan(f)) && f is NoEncodeWorkers))
            &&& r matches Ok(plan) ==> (assembled matches Ok(data) && plan.job_list().len()
                == data.items@.len() && plan.info().len() == data.items@.len())
        },
{
}

} // verus!
