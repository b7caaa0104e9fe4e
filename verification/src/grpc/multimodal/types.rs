//! Values shared by the multimodal phases.

use vstd::prelude::*;

verus! {

/// What kind of media an item is.
#[derive(Clone, Copy, Debug, PartialEq, Eq, Structural)]
pub enum Modality {
    Image,
    Audio,
    Video,
    ImageEmbeds,
}

impl Modality {
    /// The modality's name.
    pub open spec fn text(self) -> Seq<char> {
        match self {
            Modality::Image => "image"@,
            Modality::Audio => "audio"@,
            Modality::Video => "video"@,
            Modality::ImageEmbeds => "image_embeds"@,
        }
    }

    pub fn name(&self) -> (r: &'static str)
        ensures
            r@ == self.text(),
    {
        match self {
            Modality::Image => "image",
            Modality::Audio => "audio",
            Modality::Video => "video",
            Modality::ImageEmbeds => "image_embeds",
        }
    }
}

/// How large tensors travel to a worker.
#[derive(Clone, Copy, Debug, PartialEq, Eq, Structural)]
pub enum TransportMode {
    Inline,
    Shm,
    Auto,
    Rdma,
}

impl Default for TransportMode {
    fn default() -> (r: Self)
        ensures
            r == TransportMode::Inline,
    {
        TransportMode::Inline
    }
}

/// What one placeholder token of a prompt stands for.
pub struct PromptReplacement {
    pub modality: Modality,
    pub placeholder_token: String,
    pub tokens: Vec<i32>,
}

/// A range of token positions.
#[derive(Clone, Copy, Debug, PartialEq, Eq, Structural)]
pub struct PlaceholderRange {
    pub offset: usize,
    pub length: usize,
}

/// Modalities are named for what they are.
pub proof fn modalities_have_names(modality: Modality)
    ensures
        modality is Image ==> modality.text() == "image"@,
        modality is Audio ==> modality.text() == "audio"@,
        modality is Video ==> modality.text() == "video"@,
        modality is ImageEmbeds ==> modality.text() == "image_embeds"@,
{
}

} // verus!
