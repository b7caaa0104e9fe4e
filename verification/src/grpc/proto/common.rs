//! Message parts that several backends share.

use vstd::prelude::*;

verus! {

/// A segment of shared memory that holds a tensor.
#[derive(Debug, Clone, PartialEq, Eq)]
pub struct ShmHandle {
    pub name: String,
    pub offset: u64,
    pub nbytes: u64,
    pub owner_id: String,
}

impl ShmHandle {
    /// A handle of its own for the same segment.
    pub fn copy(&self) -> (r: Self)
        ensures
            r == *self,
    {
        ShmHandle {
            name: self.name.clone(),
            offset: self.offset,
            nbytes: self.nbytes,
            owner_id: self.owner_id.clone(),
        }
    }
}

/// A tensor that its reader fetches over another transport.
#[derive(Debug, Clone, PartialEq, Eq)]
pub struct RemoteTensorHandle {
    pub transport: String,
    pub descriptor: Vec<u8>,
    pub nbytes: u64,
}

/// What kind of media an item is.
#[derive(Debug, Clone, Copy, PartialEq, Eq, Structural)]
pub enum Modality {
    Image,
    Audio,
    Video,
}

/// A range of token positions.
#[derive(Debug, Clone, Copy, PartialEq, Eq, Structural)]
pub struct PlaceholderRange {
    pub offset: u32,
    pub length: u32,
}

/// Where the bytes of a tensor are.
#[derive(Debug, Clone, PartialEq, Eq)]
pub enum Payload {
    Inline(Vec<u8>),
    Shm(ShmHandle),
    Remote(RemoteTensorHandle),
}

/// A tensor with its payload.
#[derive(Debug, Clone, PartialEq, Eq)]
pub struct TensorData {
    pub shape: Vec<u32>,
    pub dtype: String,
    pub payload: Option<Payload>,
}

/// Why a generation stopped.
#[derive(Debug, Clone, PartialEq, Eq)]
pub enum MatchedStop {
    MatchedTokenId(u32),
    MatchedStopStr(String),
}

/// What a [`MatchedStop`] says.
pub enum StopText {
    TokenId(u32),
    Str(Seq<char>),
}

impl View for MatchedStop {
    type V = StopText;

    open spec fn view(&self) -> StopText {
        match *self {
            MatchedStop::MatchedTokenId(id) => StopText::TokenId(id),
            MatchedStop::MatchedStopStr(s) => StopText::Str(s@),
        }
    }
}

/// The likeliest tokens at one position.
#[derive(Debug, Clone, PartialEq, Eq)]
pub struct TopLogProbs {
    pub values: Vec<u32>,
    pub token_ids: Vec<u32>,
}

/// Log probabilities of generated tokens.
#[derive(Debug, Clone, PartialEq, Eq)]
pub struct OutputLogProbs {
    pub token_logprobs: Vec<u32>,
    pub token_ids: Vec<u32>,
    pub top_logprobs: Vec<TopLogProbs>,
}

/// Log probability of one prompt token; the first one has none.
#[derive(Debug, Clone, Copy, PartialEq, Eq, Structural)]
pub struct InputTokenLogProb {
    pub value: Option<u32>,
}

/// Log probabilities of prompt tokens.
#[derive(Debug, Clone, PartialEq, Eq)]
pub struct InputLogProbs {
    pub token_logprobs: Vec<InputTokenLogProb>,
    pub token_ids: Vec<u32>,
    pub top_logprobs: Vec<TopLogProbs>,
}

/// What log probabilities say: of each token, of the likeliest tokens at each
/// position as values and ids, and the ids of the tokens.
pub struct LogProbsText {
    pub token_logprobs: Seq<Option<u32>>,
    pub token_ids: Seq<u32>,
    pub top_logprobs: Seq<(Seq<u32>, Seq<u32>)>,
}

/// What lists of likeliest tokens say.
pub open spec fn top_text(v: Seq<TopLogProbs>) -> Seq<(Seq<u32>, Seq<u32>)> {
    v.map_values(|t: TopLogProbs| (t.values@, t.token_ids@))
}

impl View for OutputLogProbs {
    type V = LogProbsText;

    open spec fn view(&self) -> LogProbsText {
        LogProbsText {
            token_logprobs: self.token_logprobs@.map_values(|b: u32| Some(b)),
            token_ids: self.token_ids@,
            top_logprobs: top_text(self.top_logprobs@),
        }
    }
}

impl View for InputLogProbs {
    type V = LogProbsText;

    open spec fn view(&self) -> LogProbsText {
        LogProbsText {
            token_logprobs: self.token_logprobs@.map_values(|t: InputTokenLogProb| t.value),
            token_ids: self.token_ids@,
            top_logprobs: top_text(self.top_logprobs@),
        }
    }
}

/// What optional output log probabilities say.
pub open spec fn output_text(lp: Option<OutputLogProbs>) -> Option<LogProbsText> {
    match lp {
        Some(lp) => Some(lp@),
        None => None,
    }
}

/// What optional input log probabilities say.
pub open spec fn input_text(lp: Option<InputLogProbs>) -> Option<LogProbsText> {
    match lp {
        Some(lp) => Some(lp@),
        None => None,
    }
}

/// What an optional text says.
pub open spec fn opt_text(s: Option<String>) -> Option<Seq<char>> {
    match s {
        Some(s) => Some(s@),
        None => None,
    }
}

/// What an optional stop says.
pub open spec fn stop_text(m: Option<MatchedStop>) -> Option<StopText> {
    match m {
        Some(m) => Some(m@),
        None => None,
    }
}

} // verus!
