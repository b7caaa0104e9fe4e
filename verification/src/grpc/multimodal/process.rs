//! Multimodal processing: from fetched media to what assembly takes.
//!
//! Fetching and preprocessing are done elsewhere. What they are asked for, and
//! what their results come to, is decided here.

use crate::grpc::multimodal::assemble::{
    FieldLayout, MediaItem, PrecomputedMultimodalIntermediate, PreprocessedEncoderInputs,
};
use crate::grpc::multimodal::expand::{expand_tokens, expands_to, expansion, ExpandedTokens};
use crate::grpc::multimodal::types::{Modality, PromptReplacement};
use vstd::prelude::*;

verus! {

/// Something that was fetched.
pub enum TrackedMedia {
    Image(MediaItem),
    Video(MediaItem),
    Other,
}

/// Why a request's media cannot be processed.
#[derive(Debug)]
pub enum ProcessError {
    Mixed,
    NoMedia,
    NotOneVideo,
    ModelNotSupported { model: String },
    NoProcessor { model: String },
    UnsupportedModality { modality: Modality },
}

impl ProcessError {
    /// What is said of the error.
    pub open spec fn text(&self) -> Seq<char> {
        match *self {
            ProcessError::Mixed =>
                "Mixed image and video multimodal requests are not supported yet"@,
            ProcessError::NoMedia => "No media was successfully fetched for multimodal request"@,
            ProcessError::NotOneVideo =>
                "Exactly one video is supported per request for the initial video path"@,
            ProcessError::ModelNotSupported { model } => "Multimodal not supported for model: "@
                + model@,
            ProcessError::NoProcessor { model } => "No vision processor found for model: "@
                + model@,
            ProcessError::UnsupportedModality { modality } =>
                "Unsupported modality for preprocessing: "@ + modality.text(),
        }
    }

    pub fn message(&self) -> (s: String)
        ensures
            s@ == self.text(),
    {
        match self {
            ProcessError::Mixed =>
                "Mixed image and video multimodal requests are not supported yet".to_owned(),
            ProcessError::NoMedia =>
                "No media was successfully fetched for multimodal request".to_owned(),
            ProcessError::NotOneVideo =>
                "Exactly one video is supported per request for the initial video path".to_owned(),
            ProcessError::ModelNotSupported { model } => {
                let mut s = "Multimodal not supported for model: ".to_owned();
                s.append(model.as_str());
                s
            },
            ProcessError::NoProcessor { model } => {
                let mut s = "No vision processor found for model: ".to_owned();
                s.append(model.as_str());
                s
            },
            ProcessError::UnsupportedModality { modality } => {
                let mut s = "Unsupported modality for preprocessing: ".to_owned();
                s.append(modality.name());
                s
            },
        }
    }
}

/// The images among fetched media, in order.
pub open spec fn images_in(media: Seq<TrackedMedia>) -> Seq<MediaItem>
    decreases media.len(),
{
    if media.len() == 0 {
        Seq::empty()
    } else {
        let before = images_in(media.drop_last());
        match media.last() {
            TrackedMedia::Image(item) => before.push(item),
            _ => before,
        }
    }
}

/// The videos among fetched media, in order.
pub open spec fn videos_in(media: Seq<TrackedMedia>) -> Seq<MediaItem>
    decreases media.len(),
{
    if media.len() == 0 {
        Seq::empty()
    } else {
        let before = videos_in(media.drop_last());
        match media.last() {
            TrackedMedia::Video(item) => before.push(item),
            _ => before,
        }
    }
}

/// Takes the images out of what was fetched as images, and the videos out of
/// what was fetched as videos.
pub fn collect_media(
    tracked_images: Vec<TrackedMedia>,
    tracked_videos: Vec<TrackedMedia>,
) -> (r: (Vec<MediaItem>, Vec<MediaItem>))
    ensures
        r.0@ == images_in(tracked_images@),
        r.1@ == videos_in(tracked_videos@),
{
    let ghost all_images = tracked_images@;
    let ghost all_videos = tracked_videos@;
    let mut images: Vec<MediaItem> = Vec::new();
    assert(all_images.take(0) =~= Seq::<TrackedMedia>::empty());
    for media in it: tracked_images
        invariant
            it.seq() == all_images,
            images@ == images_in(all_images.take(it.index())),
    {
        assert(all_images.take(it.index() + 1).drop_last() =~= all_images.take(it.index()));
        if let TrackedMedia::Image(item) = media {
            images.push(item);
        }
    }
    assert(all_images.take(all_images.len() as int) =~= all_images);
    let mut videos: Vec<MediaItem> = Vec::new();
    assert(all_videos.take(0) =~= Seq::<TrackedMedia>::empty());
    for media in it: tracked_videos
        invariant
            it.seq() == all_videos,
            videos@ == videos_in(all_videos.take(it.index())),
    {
        assert(all_videos.take(it.index() + 1).drop_last() =~= all_videos.take(it.index()));
        if let TrackedMedia::Video(item) = media {
            videos.push(item);
        }
    }
    assert(all_videos.take(all_videos.len() as int) =~= all_videos);
    (images, videos)
}

/// The modality of a request with so many images and videos.
pub open spec fn modality_for(images: nat, videos: nat) -> Result<Modality, ProcessError> {
    if images > 0 && videos > 0 {
        Err(ProcessError::Mixed)
    } else if images > 0 {
        Ok(Modality::Image)
    } else if videos == 0 {
        Err(ProcessError::NoMedia)
    } else if videos == 1 {
        Ok(Modality::Video)
    } else {
        Err(ProcessError::NotOneVideo)
    }
}

/// The modality of a request: images, or exactly one video.
pub fn request_modality(images: usize, videos: usize) -> (r: Result<Modality, ProcessError>)
    ensures
        r == modality_for(images as nat, videos as nat),
{
    let modality: Modality = match (images == 0, videos == 0) {
        (false, true) => Modality::Image,
        (true, false) => Modality::Video,
        (false, false) => {
            return Err(ProcessError::Mixed);
        },
        (true, true) => {
            return Err(ProcessError::NoMedia);
        },
    };
    if modality == Modality::Video && videos != 1 {
        return Err(ProcessError::NotOneVideo);
    }
    Ok(modality)
}

/// How media are turned into an encoder input.
#[derive(Debug, Clone, Copy, PartialEq, Eq, Structural)]
pub enum Preprocessing {
    /// All images together.
    Images,
    /// The frames that the video was decoded into.
    Frames,
    /// The video's RGB planes, without making frames of them first.
    RgbPlanes,
    /// Frames made of the RGB planes.
    MaterializedFrames,
}

/// What is known of a video before it is preprocessed.
#[derive(Debug, Clone, Copy, PartialEq, Eq, Structural)]
pub struct VideoShape {
    pub frames: usize,
    /// Whether there are RGB planes, and then whether they can be read as
    /// frames.
    pub rgb: Option<bool>,
}

/// What to try first.
pub open spec fn first_preprocessing(modality: Modality, video: VideoShape) -> Result<
    Preprocessing,
    ProcessError,
> {
    match modality {
        Modality::Image => Ok(Preprocessing::Images),
        Modality::Video => Ok(
            if video.frames > 0 {
                Preprocessing::Frames
            } else if video.rgb == Some(true) {
                Preprocessing::RgbPlanes
            } else {
                Preprocessing::MaterializedFrames
            },
        ),
        _ => Err(ProcessError::UnsupportedModality { modality }),
    }
}

pub fn start_preprocessing(modality: Modality, video: VideoShape) -> (r: Result<
    Preprocessing,
    ProcessError,
>)
    ensures
        r == first_preprocessing(modality, video),
{
    match modality {
        Modality::Image => Ok(Preprocessing::Images),
        Modality::Video => {
            if video.frames > 0 {
                return Ok(Preprocessing::Frames);
            }
            match video.rgb {
                Some(true) => Ok(Preprocessing::RgbPlanes),
                _ => Ok(Preprocessing::MaterializedFrames),
            }
        },
        _ => Err(ProcessError::UnsupportedModality { modality }),
    }
}

/// What to fall back on: only the fast path over RGB planes has something.
pub open spec fn fallback(failed: Preprocessing) -> Option<Preprocessing> {
    if failed == Preprocessing::RgbPlanes {
        Some(Preprocessing::MaterializedFrames)
    } else {
        None
    }
}

/// What to try after something failed, if anything.
pub fn retry_preprocessing(failed: Preprocessing) -> (r: Option<Preprocessing>)
    ensures
        r == fallback(failed),
{
    match failed {
        Preprocessing::RgbPlanes => Some(Preprocessing::MaterializedFrames),
        _ => None,
    }
}

/// What is said when a way of preprocessing failed for good. Making frames can
/// fail too, before they are preprocessed.
pub fn preprocessing_failure(failed: Preprocessing, making_frames: bool, error: &str) -> (s: String)
    ensures
        s@ == (if failed == Preprocessing::Images {
            "Image preprocessing failed: "@
        } else if making_frames {
            "Video frame materialization failed: "@
        } else {
            "Video preprocessing failed: "@
        }) + error@,
{
    let mut s = if let Preprocessing::Images = failed {
        "Image preprocessing failed: ".to_owned()
    } else if making_frames {
        "Video frame materialization failed: ".to_owned()
    } else {
        "Video preprocessing failed: ".to_owned()
    };
    s.append(error);
    s
}

/// Whether the configuration for videos is used; it is where there is one.
pub fn uses_video_config(modality: Modality, has_video_config: bool) -> (r: bool)
    ensures
        r == (modality == Modality::Video && has_video_config),
{
    matches!(modality, Modality::Video) && has_video_config
}

/// The id that stands for an item's patches: what the model's configuration
/// declares, else what the tokenizer emits.
pub open spec fn patch_token(declared: Option<i32>, search: Option<u32>) -> Option<u32> {
    match declared {
        Some(id) => Some(id as u32),
        None => search,
    }
}

pub fn placeholder_token_id(declared: Option<i32>, search_token_id: Option<u32>) -> (r: Option<
    u32,
>)
    ensures
        r == patch_token(declared, search_token_id),
{
    match declared {
        Some(id) => Some(id as u32),
        None => search_token_id,
    }
}

/// The text that stands for an item in a prompt, such as `<|image|>`. `found` is
/// what the model's entry answers, and none where no entry takes the model as a
/// multimodal one.
pub fn resolve_placeholder_token(found: Option<Result<String, String>>) -> (r: Result<
    Option<String>,
    String,
>)
    ensures
        match found {
            None => r == Ok::<Option<String>, String>(None),
            Some(Ok(token)) => r == Ok::<Option<String>, String>(Some(token)),
            Some(Err(e)) => r is Err && r->Err_0@ == "Failed to get placeholder token: "@ + e@,
        },
{
    match found {
        None => Ok(None),
        Some(Ok(token)) => Ok(Some(token)),
        Some(Err(error)) => {
            let mut e = "Failed to get placeholder token: ".to_owned();
            e.append(error.as_str());
            Err(e)
        },
    }
}

/// Output of the multimodal processing pipeline.
pub struct MultimodalOutput {
    /// Token IDs with placeholder tokens expanded to the correct count per media item.
    pub expanded_token_ids: Vec<u32>,
    pub intermediate: PrecomputedMultimodalIntermediate,
}

/// What a model says of its multimodal inputs.
pub struct ModelFields {
    /// The placeholder's id in the tokenizer.
    pub search_token_id: Option<u32>,
    /// The placeholder's id in the model's configuration.
    pub declared_token_id: Option<i32>,
    pub field_layouts: Vec<(String, FieldLayout)>,
    pub keep_on_cpu_keys: Vec<String>,
}

/// Media, preprocessed.
pub struct PreparedMedia {
    pub modality: Modality,
    pub preprocessed: PreprocessedEncoderInputs,
    pub images: Vec<MediaItem>,
    pub videos: Vec<MediaItem>,
}

/// The expansion has fewer positions than the wire format can count, or none
/// is looked for.
pub open spec fn expansion_fits(
    token_ids: Seq<u32>,
    model: ModelFields,
    replacements: Seq<PromptReplacement>,
) -> bool {
    model.search_token_id is Some ==> expansion(
        token_ids,
        model.search_token_id->0,
        replacements,
    ).len() <= u32::MAX
}

/// Expands the placeholders of a prompt, and puts together what assembly takes.
pub fn finish_processing(
    token_ids: &Vec<u32>,
    media: PreparedMedia,
    model: ModelFields,
    replacements: &Vec<PromptReplacement>,
) -> (r: MultimodalOutput)
    requires
        expansion_fits(token_ids@, model, replacements@),
    ensures
        expands_to(
            token_ids@,
            model.search_token_id,
            patch_token(model.declared_token_id, model.search_token_id),
            replacements@,
            (ExpandedTokens {
                token_ids: r.expanded_token_ids,
                placeholders: r.intermediate.placeholders,
                patch_offsets: r.intermediate.patch_offsets,
            }),
        ),
        r.intermediate.modality == media.modality,
        r.intermediate.preprocessed == media.preprocessed,
        r.intermediate.images == media.images,
        r.intermediate.videos == media.videos,
        r.intermediate.placeholder_token_id == patch_token(
            model.declared_token_id,
            model.search_token_id,
        ),
        r.intermediate.field_layouts == model.field_layouts,
        r.intermediate.keep_on_cpu_keys == model.keep_on_cpu_keys,
{
    let placeholder_token_id: Option<u32> = placeholder_token_id(
        model.declared_token_id,
        model.search_token_id,
    );
    let expanded = expand_tokens(
        token_ids,
        model.search_token_id,
        placeholder_token_id,
        replacements,
    );
    MultimodalOutput {
        expanded_token_ids: expanded.token_ids,
        intermediate: PrecomputedMultimodalIntermediate {
            modality: media.modality,
            preprocessed: media.preprocessed,
            images: media.images,
            videos: media.videos,
            placeholders: expanded.placeholders,
            patch_offsets: expanded.patch_offsets,
            placeholder_token_id,
            field_layouts: model.field_layouts,
            keep_on_cpu_keys: model.keep_on_cpu_keys,
        },
    }
}

/// A request's media on their way through processing.
pub struct MultimodalRun {
    model_id: String,
    token_ids: Vec<u32>,
    modality: Modality,
    images: Vec<MediaItem>,
    videos: Vec<MediaItem>,
    video: VideoShape,
}

/// What the model's side of processing gives back at the end.
pub struct PromptFields {
    /// What the placeholders stand for, or why that cannot be said.
    pub replacements: Result<Vec<PromptReplacement>, String>,
    /// What the model says of its inputs, or why its placeholder is unknown.
    pub model: Result<ModelFields, String>,
}

/// What is said when a prompt cannot be expanded.
pub open spec fn prompt_problem(fields: PromptFields) -> Option<Seq<char>> {
    match (fields.replacements, fields.model) {
        (Err(e), _) => Some("Failed to compute prompt replacements: "@ + e@),
        (Ok(_), Err(e)) => Some("Failed to get placeholder token: "@ + e@),
        (Ok(_), Ok(_)) => None,
    }
}

impl MultimodalRun {
    pub closed spec fn model_name(&self) -> String {
        self.model_id
    }

    pub closed spec fn prompt(&self) -> Seq<u32> {
        self.token_ids@
    }

    pub closed spec fn active(&self) -> Modality {
        self.modality
    }

    pub closed spec fn image_items(&self) -> Seq<MediaItem> {
        self.images@
    }

    pub closed spec fn video_items(&self) -> Seq<MediaItem> {
        self.videos@
    }

    pub closed spec fn video_shape(&self) -> VideoShape {
        self.video
    }

    /// Takes in what was fetched.
    pub fn start(
        model_id: String,
        token_ids: Vec<u32>,
        tracked_images: Vec<TrackedMedia>,
        tracked_videos: Vec<TrackedMedia>,
        video: VideoShape,
    ) -> (r: Result<Self, ProcessError>)
        ensures
            match modality_for(
                images_in(tracked_images@).len(),
                videos_in(tracked_videos@).len(),
            ) {
                Err(e) => r == Err::<Self, ProcessError>(e),
                Ok(modality) => {
                    &&& r matches Ok(run)
                    &&& run.model_name() == model_id
                    &&& run.prompt() == token_ids@
                    &&& run.active() == modality
                    &&& run.image_items() == images_in(tracked_images@)
                    &&& run.video_items() == videos_in(tracked_videos@)
                    &&& run.video_shape() == video
                },
            },
    {
        let (images, videos) = collect_media(tracked_images, tracked_videos);
        match request_modality(images.len(), videos.len()) {
            Err(e) => Err(e),
            Ok(modality) => Ok(
                MultimodalRun { model_id, token_ids, modality, images, videos, video },
            ),
        }
    }

    /// The modality of the media.
    pub fn modality(&self) -> (r: Modality)
        ensures
            r == self.active(),
    {
        self.modality
    }

    /// Takes in whether the model is known, and whether there is a processor
    /// for it; says how to preprocess.
    pub fn on_model(&self, supported: bool, has_processor: bool) -> (r: Result<
        Preprocessing,
        ProcessError,
    >)
        ensures
            r == if !supported {
                Err(ProcessError::ModelNotSupported { model: self.model_name() })
            } else if !has_processor {
                Err(ProcessError::NoProcessor { model: self.model_name() })
            } else {
                first_preprocessing(self.active(), self.video_shape())
            },
    {
        if !supported {
            return Err(ProcessError::ModelNotSupported { model: self.model_id.clone() });
        }
        if !has_processor {
            return Err(ProcessError::NoProcessor { model: self.model_id.clone() });
        }
        start_preprocessing(self.modality, self.video)
    }

    /// Puts everything together.
    pub fn finish(self, preprocessed: PreprocessedEncoderInputs, fields: PromptFields) -> (r: Result<
        MultimodalOutput,
        String,
    >)
        requires
            prompt_problem(fields) is None ==> expansion_fits(
                self.prompt(),
                fields.model->Ok_0,
                fields.replacements->Ok_0@,
            ),
        ensures
            match prompt_problem(fields) {
                Some(text) => r matches Err(e) && e@ == text,
                None => r is Ok && is_output(
                    r->Ok_0,
                    self,
                    preprocessed,
                    fields.model->Ok_0,
                    fields.replacements->Ok_0@,
                ),
            },
    {
        let replacements = match fields.replacements {
            Ok(v) => v,
            Err(error) => {
                let mut e = "Failed to compute prompt replacements: ".to_owned();
                e.append(error.as_str());
                return Err(e);
            },
        };
        let model = match fields.model {
            Ok(m) => m,
            Err(error) => {
                let mut e = "Failed to get placeholder token: ".to_owned();
                e.append(error.as_str());
                return Err(e);
            },
        };
        let media = PreparedMedia {
            modality: self.modality,
            preprocessed,
            images: self.images,
            videos: self.videos,
        };
        Ok(finish_processing(&self.token_ids, media, model, &replacements))
    }
}

/// `r` is the output of a run.
pub open spec fn is_output(
    r: MultimodalOutput,
    run: MultimodalRun,
    preprocessed: PreprocessedEncoderInputs,
    model: ModelFields,
    replacements: Seq<PromptReplacement>,
) -> bool {
    let patch = patch_token(model.declared_token_id, model.search_token_id);
    &&& expands_to(
        run.prompt(),
        model.search_token_id,
        patch,
        replacements,
        (ExpandedTokens {
            token_ids: r.expanded_token_ids,
            placeholders: r.intermediate.placeholders,
            patch_offsets: r.intermediate.patch_offsets,
        }),
    )
    &&& r.intermediate.modality == run.active()
    &&& r.intermediate.preprocessed == preprocessed
    &&& r.intermediate.images@ == run.image_items()
    &&& r.intermediate.videos@ == run.video_items()
    &&& r.intermediate.placeholder_token_id == patch
    &&& r.intermediate.field_layouts == model.field_layouts
    &&& r.intermediate.keep_on_cpu_keys == model.keep_on_cpu_keys
}

/// Preprocessing is tried at most twice: after the second try nothing is left
/// to fall back on.
pub proof fn fallback_happens_once(modality: Modality, video: VideoShape)
    ensures
        first_preprocessing(modality, video) matches Ok(way) ==> match fallback(way) {
            Some(second) => fallback(second) is None,
            None => true,
        },
{
}

/// What was fetched is kept in order: of images the images, of videos the videos.
pub proof fn media_keep_their_order(a: Seq<TrackedMedia>, m: TrackedMedia)
    ensures
        images_in(Seq::<TrackedMedia>::empty()).len() == 0,
        videos_in(Seq::<TrackedMedia>::empty()).len() == 0,
        m matches TrackedMedia::Image(item) ==> images_in(a.push(m)) == images_in(a).push(item)
            && videos_in(a.push(m)) == videos_in(a),
        m matches TrackedMedia::Video(item) ==> videos_in(a.push(m)) == videos_in(a).push(item)
            && images_in(a.push(m)) == images_in(a),
        m is Other ==> images_in(a.push(m)) == images_in(a) && videos_in(a.push(m)) == videos_in(
            a,
        ),
{
    assert(a.push(m).drop_last() =~= a);
}

/// A request is for images, any number of them, or for one video; never for both.
pub proof fn requests_have_one_modality(images: nat, videos: nat)
    ensures
        modality_for(images, videos) == Ok::<Modality, ProcessError>(Modality::Image) <==> images
            > 0 && videos == 0,
        modality_for(images, videos) == Ok::<Modality, ProcessError>(Modality::Video) <==> images
            == 0 && videos == 1,
        modality_for(images, videos) is Err <==> (images > 0 && videos > 0) || (images == 0
            && videos == 0) || (images == 0 && videos > 1),
        images > 0 && videos > 0 ==> modality_for(images, videos) == Err::<Modality, ProcessError>(
            ProcessError::Mixed,
        ),
        images == 0 && videos == 0 ==> modality_for(images, videos) == Err::<
            Modality,
            ProcessError,
        >(ProcessError::NoMedia),
{
}

/// Images are preprocessed as images; a video by its frames where it has some, else
/// by its planes where they can be read, else by frames made of them. Only the planes
/// have something to fall back on.
pub proof fn the_cheapest_way_comes_first(video: VideoShape, way: Preprocessing)
    ensures
        first_preprocessing(Modality::Image, video) == Ok::<Preprocessing, ProcessError>(
            Preprocessing::Images,
        ),
        video.frames > 0 ==> first_preprocessing(Modality::Video, video) == Ok::<
            Preprocessing,
            ProcessError,
        >(Preprocessing::Frames),
        video.frames == 0 && video.rgb == Some(true) ==> first_preprocessing(Modality::Video, video)
            == Ok::<Preprocessing, ProcessError>(Preprocessing::RgbPlanes),
        video.frames == 0 && video.rgb != Some(true) ==> first_preprocessing(Modality::Video, video)
            == Ok::<Preprocessing, ProcessError>(Preprocessing::MaterializedFrames),
        first_preprocessing(Modality::Audio, video) is Err,
        fallback(way) is Some <==> way == Preprocessing::RgbPlanes,
        fallback(way) matches Some(next) ==> next == Preprocessing::MaterializedFrames,
{
}

/// What a model declares of its placeholder wins over the tokenizer.
pub proof fn declared_tokens_win(declared: Option<i32>, search: Option<u32>)
    ensures
        declared is None ==> patch_token(declared, search) == search,
        declared is Some && declared->0 >= 0 ==> patch_token(declared, search) is Some
            && patch_token(declared, search)->0 == declared->0,
{
}

/// The output of a run is for its own prompt and media: the prompt is expanded, and
/// what was fetched and preprocessed goes on to assembly as it is.
pub proof fn runs_hand_on_what_they_got(
    r: MultimodalOutput,
    run: MultimodalRun,
    preprocessed: PreprocessedEncoderInputs,
    model: ModelFields,
    replacements: Seq<PromptReplacement>,
)
    requires
        is_output(r, run, preprocessed, model, replacements),
    ensures
        r.intermediate.images@ == run.image_items(),
        r.intermediate.videos@ == run.video_items(),
        r.intermediate.modality == run.active(),
        r.intermediate.preprocessed == preprocessed,
        r.intermediate.field_layouts == model.field_layouts,
        r.intermediate.keep_on_cpu_keys == model.keep_on_cpu_keys,
        r.intermediate.placeholder_token_id == patch_token(
            model.declared_token_id,
            model.search_token_id,
        ),
        model.search_token_id is None ==> r.expanded_token_ids@ == run.prompt()
            && r.intermediate.placeholders@.len() == 0,
        model.search_token_id matches Some(id) ==> r.expanded_token_ids@ == expansion(
            run.prompt(),
            id,
            replacements,
        ),
{
}

/// A prompt is expanded where its replacements and its placeholder are known; what is
/// missing is told, the replacements first.
pub proof fn missing_fields_are_told(fields: PromptFields)
    ensures
        prompt_problem(fields) is None <==> fields.replacements is Ok && fields.model is Ok,
        fields.replacements matches Err(e) ==> prompt_problem(fields) == Some(
            "Failed to compute prompt replacements: "@ + e@,
        ),
        fields.replacements is Ok ==> (fields.model matches Err(e) ==> prompt_problem(fields)
            == Some("Failed to get placeholder token: "@ + e@)),
{
}

} // verus!
