//! Finds the media in chat and Messages requests.

use crate::grpc::multimodal::types::Modality;
use crate::grpc::proto::common::opt_text;
use crate::text::{lowered, same, to_ascii_lowercase};
use vstd::prelude::*;

verus! {

/// How closely an image is to be looked at.
#[derive(Debug, Clone, Copy, PartialEq, Eq, Structural)]
pub enum ImageDetail {
    Auto,
    Low,
    High,
}

/// A piece of content, ready to be fetched.
#[derive(Debug)]
pub enum MediaContentPart {
    Text { text: String },
    ImageUrl { url: String, detail: Option<ImageDetail>, uuid: Option<String> },
    VideoUrl { url: String, uuid: Option<String> },
}

/// What a piece of content says.
pub enum PartText {
    Text(Seq<char>),
    /// Where the image is, in what detail it is looked at, and its id.
    Image(Seq<char>, Option<ImageDetail>, Option<Seq<char>>),
    /// Where the video is, and its id.
    Video(Seq<char>, Option<Seq<char>>),
}

impl View for MediaContentPart {
    type V = PartText;

    open spec fn view(&self) -> PartText {
        match *self {
            MediaContentPart::Text { text } => PartText::Text(text@),
            MediaContentPart::ImageUrl { url, detail, uuid } => PartText::Image(
                url@,
                detail,
                opt_text(uuid),
            ),
            MediaContentPart::VideoUrl { url, uuid } => PartText::Video(
                url@,
                opt_text(uuid),
            ),
        }
    }
}

/// What some pieces of content say.
pub open spec fn part_texts(parts: Seq<MediaContentPart>) -> Seq<PartText> {
    parts.map_values(|p: MediaContentPart| p@)
}

#[derive(Debug)]
pub struct ImageUrl {
    pub url: String,
    pub detail: Option<String>,
}

#[derive(Debug)]
pub struct VideoUrl {
    pub url: String,
}

/// A piece of a chat message.
#[derive(Debug)]
pub enum ContentPart {
    Text { text: String },
    ImageUrl { image_url: ImageUrl },
    VideoUrl { video_url: VideoUrl },
}

#[derive(Debug)]
pub enum MessageContent {
    Text(String),
    Parts(Vec<ContentPart>),
}

/// A chat message, as far as media are concerned.
#[derive(Debug)]
#[allow(inconsistent_fields)]
pub enum ChatMessage {
    System { content: MessageContent, name: Option<String> },
    User { content: MessageContent, name: Option<String> },
    Developer { content: MessageContent, name: Option<String> },
    Tool { content: MessageContent, tool_call_id: String },
    /// A message whose media are not looked at.
    Other,
}

impl ChatMessage {
    /// The pieces of the message, none if it is plain text.
    pub open spec fn parts(&self) -> Seq<ContentPart> {
        match *self {
            ChatMessage::System { content: MessageContent::Parts(v), .. } => v@,
            ChatMessage::User { content: MessageContent::Parts(v), .. } => v@,
            ChatMessage::Developer { content: MessageContent::Parts(v), .. } => v@,
            ChatMessage::Tool { content: MessageContent::Parts(v), .. } => v@,
            _ => Seq::empty(),
        }
    }

    fn content_parts(&self) -> (r: Option<&Vec<ContentPart>>)
        ensures
            match r {
                Some(v) => v@ == self.parts(),
                None => self.parts().len() == 0,
            },
    {
        let content = match self {
            ChatMessage::System { content, .. } => content,
            ChatMessage::User { content, .. } => content,
            ChatMessage::Developer { content, .. } => content,
            ChatMessage::Tool { content, .. } => content,
            ChatMessage::Other => {
                return None;
            },
        };
        match content {
            MessageContent::Parts(v) => Some(v),
            MessageContent::Text(_) => None,
        }
    }
}

/// The detail that a word stands for.
pub open spec fn detail_named(word: Seq<char>) -> Option<ImageDetail> {
    let s = lowered(word);
    if s == "auto"@ {
        Some(ImageDetail::Auto)
    } else if s == "low"@ {
        Some(ImageDetail::Low)
    } else if s == "high"@ {
        Some(ImageDetail::High)
    } else {
        None
    }
}

pub fn parse_detail(detail: &str) -> (r: Option<ImageDetail>)
    ensures
        r == detail_named(detail@),
{
    let s = to_ascii_lowercase(detail);
    let s = s.as_str();
    if same(s, "auto") {
        Some(ImageDetail::Auto)
    } else if same(s, "low") {
        Some(ImageDetail::Low)
    } else if same(s, "high") {
        Some(ImageDetail::High)
    } else {
        None
    }
}

/// What a piece of a chat message comes to.
pub open spec fn chat_part(part: ContentPart) -> PartText {
    match part {
        ContentPart::Text { text } => PartText::Text(text@),
        ContentPart::ImageUrl { image_url } => PartText::Image(
            image_url.url@,
            match image_url.detail {
                Some(d) => detail_named(d@),
                None => None,
            },
            None,
        ),
        ContentPart::VideoUrl { video_url } => PartText::Video(video_url.url@, None),
    }
}

/// What the pieces of chat messages come to, in order.
pub open spec fn chat_parts(messages: Seq<ChatMessage>) -> Seq<PartText>
    decreases messages.len(),
{
    if messages.len() == 0 {
        Seq::empty()
    } else {
        chat_parts(messages.drop_last()) + messages.last().parts().map_values(
            |p: ContentPart| chat_part(p),
        )
    }
}

/// What kind of media a piece is.
pub open spec fn kind_of(part: PartText) -> Option<Modality> {
    match part {
        PartText::Image(..) => Some(Modality::Image),
        PartText::Video(..) => Some(Modality::Video),
        _ => None,
    }
}

/// The kinds of media among some pieces, each once, in the order in which they
/// first occur.
pub open spec fn kinds_among(parts: Seq<PartText>) -> Seq<Modality>
    decreases parts.len(),
{
    if parts.len() == 0 {
        Seq::empty()
    } else {
        let before = kinds_among(parts.drop_last());
        match kind_of(parts.last()) {
            Some(m) => if before.contains(m) {
                before
            } else {
                before.push(m)
            },
            None => before,
        }
    }
}

/// Among `parts` there is something to fetch.
pub open spec fn has_media(parts: Seq<PartText>) -> bool {
    exists|i: int| 0 <= i < parts.len() && kind_of(#[trigger] parts[i]) is Some
}

fn push_unique(modalities: &mut Vec<Modality>, modality: Modality)
    ensures
        final(modalities)@ == if old(modalities)@.contains(modality) {
            old(modalities)@
        } else {
            old(modalities)@.push(modality)
        },
{
    let mut i: usize = 0;
    while i < modalities.len()
        invariant
            i <= modalities@.len(),
            modalities@ == old(modalities)@,
            forall|j: int| 0 <= j < i ==> modalities@[j] != modality,
        decreases modalities@.len() - i,
    {
        if modalities[i] == modality {
            assert(modalities@[i as int] == modality);
            return;
        }
        i += 1;
    }
    modalities.push(modality);
}

/// The kinds of media in chat messages, each once.
pub fn chat_modalities(messages: &Vec<ChatMessage>) -> (r: Vec<Modality>)
    ensures
        r@ == kinds_among(chat_parts(messages@)),
{
    let mut modalities: Vec<Modality> = Vec::new();
    let mut i: usize = 0;
    assert(messages@.take(0) =~= Seq::<ChatMessage>::empty());
    while i < messages.len()
        invariant
            i <= messages@.len(),
            modalities@ == kinds_among(chat_parts(messages@.take(i as int))),
        decreases messages@.len() - i,
    {
        assert(messages@.take(i + 1).drop_last() =~= messages@.take(i as int));
        let ghost before = chat_parts(messages@.take(i as int));
        let ghost own = messages@[i as int].parts().map_values(|p: ContentPart| chat_part(p));
        if let Some(parts) = messages[i].content_parts() {
            let mut j: usize = 0;
            assert(before + own.take(0) =~= before);
            while j < parts.len()
                invariant
                    j <= parts@.len(),
                    own == parts@.map_values(|p: ContentPart| chat_part(p)),
                    modalities@ == kinds_among(before + own.take(j as int)),
                decreases parts@.len() - j,
            {
                assert((before + own.take(j + 1)).drop_last() =~= before + own.take(j as int));
                assert((before + own.take(j + 1)).last() == chat_part(parts@[j as int]));
                match &parts[j] {
                    ContentPart::ImageUrl { .. } => push_unique(&mut modalities, Modality::Image),
                    ContentPart::VideoUrl { .. } => push_unique(&mut modalities, Modality::Video),
                    ContentPart::Text { .. } => {},
                }
                j += 1;
            }
            assert(own.take(j as int) =~= own);
        } else {
            assert(before + own =~= before);
        }
        i += 1;
    }
    assert(messages@.take(i as int) =~= messages@);
    modalities
}

/// Whether chat messages hold media.
pub fn has_multimodal_content(messages: &Vec<ChatMessage>) -> (r: bool)
    ensures
        r == has_media(chat_parts(messages@)),
{
    let kinds = chat_modalities(messages);
    proof {
        kinds_are_listed_once(chat_parts(messages@));
    }
    kinds.len() != 0
}

/// The pieces of chat messages, ready to be fetched.
pub fn extract_content_parts(messages: &Vec<ChatMessage>) -> (r: Vec<MediaContentPart>)
    ensures
        part_texts(r@) == chat_parts(messages@),
{
    let mut parts: Vec<MediaContentPart> = Vec::new();
    let mut i: usize = 0;
    assert(messages@.take(0) =~= Seq::<ChatMessage>::empty());
    assert(part_texts(parts@) =~= Seq::<PartText>::empty());
    while i < messages.len()
        invariant
            i <= messages@.len(),
            part_texts(parts@) == chat_parts(messages@.take(i as int)),
        decreases messages@.len() - i,
    {
        assert(messages@.take(i + 1).drop_last() =~= messages@.take(i as int));
        let ghost before = chat_parts(messages@.take(i as int));
        let ghost own = messages@[i as int].parts().map_values(|p: ContentPart| chat_part(p));
        if let Some(message_parts) = messages[i].content_parts() {
            let mut j: usize = 0;
            assert(before + own.take(0) =~= before);
            while j < message_parts.len()
                invariant
                    j <= message_parts@.len(),
                    own == message_parts@.map_values(|p: ContentPart| chat_part(p)),
                    part_texts(parts@) == before + own.take(j as int),
                decreases message_parts@.len() - j,
            {
                let part = match &message_parts[j] {
                    ContentPart::ImageUrl { image_url } => {
                        let detail: Option<ImageDetail> = match &image_url.detail {
                            Some(d) => parse_detail(d.as_str()),
                            None => None,
                        };
                        MediaContentPart::ImageUrl {
                            url: image_url.url.clone(),
                            detail,
                            uuid: None,
                        }
                    },
                    ContentPart::Text { text } => MediaContentPart::Text { text: text.clone() },
                    ContentPart::VideoUrl { video_url } => MediaContentPart::VideoUrl {
                        url: video_url.url.clone(),
                        uuid: None,
                    },
                };
                let ghost so_far = parts@;
                parts.push(part);
                assert(part_texts(parts@) =~= part_texts(so_far).push(part@));
                assert(own.take(j + 1) =~= own.take(j as int).push(own[j as int]));
                assert(part_texts(parts@) =~= before + own.take(j + 1));
                j += 1;
            }
            assert(own.take(j as int) =~= own);
        } else {
            assert(before + own =~= before);
        }
        i += 1;
    }
    assert(messages@.take(i as int) =~= messages@);
    parts
}

/// Who speaks in the Messages API.
#[derive(Debug, Clone, Copy, PartialEq, Eq, Structural)]
pub enum Role {
    User,
    Assistant,
}

#[derive(Debug)]
pub enum ImageSource {
    Base64 { media_type: String, data: String },
    Url { url: String },
}

/// A block of a message in the Messages API, as far as media are concerned.
#[derive(Debug)]
pub enum InputContentBlock {
    Image { source: ImageSource },
    Text { text: String },
    /// A block that is not looked at.
    Other,
}

#[derive(Debug)]
pub enum InputContent {
    Text(String),
    Blocks(Vec<InputContentBlock>),
}

#[derive(Debug)]
pub struct InputMessage {
    pub role: Role,
    pub content: InputContent,
}

impl InputMessage {
    /// The blocks that are looked at: those of a user.
    pub open spec fn blocks(&self) -> Seq<InputContentBlock> {
        match (self.role, self.content) {
            (Role::User, InputContent::Blocks(v)) => v@,
            _ => Seq::empty(),
        }
    }

    fn content_blocks(&self) -> (r: Option<&Vec<InputContentBlock>>)
        ensures
            match r {
                Some(v) => v@ == self.blocks(),
                None => self.blocks().len() == 0,
            },
    {
        match self.role {
            Role::User => match &self.content {
                InputContent::Blocks(v) => Some(v),
                InputContent::Text(_) => None,
            },
            Role::Assistant => None,
        }
    }
}

/// Where an image is: its URL, or its data as one.
pub open spec fn source_url(source: ImageSource) -> Seq<char> {
    match source {
        ImageSource::Base64 { media_type, data } => "data:"@ + media_type@ + ";base64,"@ + data@,
        ImageSource::Url { url } => url@,
    }
}

fn image_url(source: &ImageSource) -> (r: String)
    ensures
        r@ == source_url(*source),
{
    match source {
        ImageSource::Base64 { media_type, data } => {
            let mut url = "data:".to_owned();
            url.append(media_type.as_str());
            url.append(";base64,");
            url.append(data.as_str());
            url
        },
        ImageSource::Url { url } => url.clone(),
    }
}

/// What blocks come to: images and texts, in order.
pub open spec fn block_parts(blocks: Seq<InputContentBlock>) -> Seq<PartText>
    decreases blocks.len(),
{
    if blocks.len() == 0 {
        Seq::empty()
    } else {
        let before = block_parts(blocks.drop_last());
        match blocks.last() {
            InputContentBlock::Image { source } => before.push(
                PartText::Image(source_url(source), None, None),
            ),
            InputContentBlock::Text { text } => before.push(PartText::Text(text@)),
            InputContentBlock::Other => before,
        }
    }
}

/// What the blocks of messages come to, in order.
pub open spec fn input_parts(messages: Seq<InputMessage>) -> Seq<PartText>
    decreases messages.len(),
{
    if messages.len() == 0 {
        Seq::empty()
    } else {
        input_parts(messages.drop_last()) + block_parts(messages.last().blocks())
    }
}

/// Among the blocks there is an image.
pub open spec fn has_image(blocks: Seq<InputContentBlock>) -> bool {
    exists|i: int| 0 <= i < blocks.len() && (#[trigger] blocks[i]) is Image
}

fn blocks_hold_image(blocks: &Vec<InputContentBlock>) -> (r: bool)
    ensures
        r == has_image(blocks@),
{
    let mut i: usize = 0;
    while i < blocks.len()
        invariant
            i <= blocks@.len(),
            forall|j: int| 0 <= j < i ==> !((#[trigger] blocks@[j]) is Image),
        decreases blocks@.len() - i,
    {
        if let InputContentBlock::Image { .. } = &blocks[i] {
            assert(blocks@[i as int] is Image);
            return true;
        }
        i += 1;
    }
    false
}

/// Whether messages of the Messages API hold media: images in a user's blocks.
pub fn has_multimodal_content_messages(messages: &Vec<InputMessage>) -> (r: bool)
    ensures
        r == exists|i: int| 0 <= i < messages@.len() && has_image(#[trigger] messages@[i].blocks()),
{
    let mut i: usize = 0;
    while i < messages.len()
        invariant
            i <= messages@.len(),
            forall|j: int| 0 <= j < i ==> !has_image(#[trigger] messages@[j].blocks()),
        decreases messages@.len() - i,
    {
        if let Some(blocks) = messages[i].content_blocks() {
            if blocks_hold_image(blocks) {
                assert(has_image(messages@[i as int].blocks()));
                return true;
            }
        }
        i += 1;
    }
    false
}

/// The pieces of messages of the Messages API, ready to be fetched.
pub fn extract_content_parts_messages(messages: &Vec<InputMessage>) -> (r: Vec<MediaContentPart>)
    ensures
        part_texts(r@) == input_parts(messages@),
{
    let mut parts: Vec<MediaContentPart> = Vec::new();
    let mut i: usize = 0;
    assert(messages@.take(0) =~= Seq::<InputMessage>::empty());
    assert(part_texts(parts@) =~= Seq::<PartText>::empty());
    while i < messages.len()
        invariant
            i <= messages@.len(),
            part_texts(parts@) == input_parts(messages@.take(i as int)),
        decreases messages@.len() - i,
    {
        assert(messages@.take(i + 1).drop_last() =~= messages@.take(i as int));
        let ghost before = input_parts(messages@.take(i as int));
        if let Some(blocks) = messages[i].content_blocks() {
            let mut j: usize = 0;
            assert(blocks@.take(0) =~= Seq::<InputContentBlock>::empty());
            assert(before + block_parts(blocks@.take(0)) =~= before);
            while j < blocks.len()
                invariant
                    j <= blocks@.len(),
                    part_texts(parts@) == before + block_parts(blocks@.take(j as int)),
                decreases blocks@.len() - j,
            {
                assert(blocks@.take(j + 1).drop_last() =~= blocks@.take(j as int));
                let ghost so_far = parts@;
                match &blocks[j] {
                    InputContentBlock::Image { source } => {
                        let part = MediaContentPart::ImageUrl {
                            url: image_url(source),
                            detail: None,
                            uuid: None,
                        };
                        parts.push(part);
                        assert(part_texts(parts@) =~= part_texts(so_far).push(part@));
                    },
                    InputContentBlock::Text { text } => {
                        let part = MediaContentPart::Text { text: text.clone() };
                        parts.push(part);
                        assert(part_texts(parts@) =~= part_texts(so_far).push(part@));
                    },
                    InputContentBlock::Other => {},
                }
                assert(part_texts(parts@) =~= before + block_parts(blocks@.take(j + 1)));
                j += 1;
            }
            assert(blocks@.take(j as int) =~= blocks@);
        } else {
            assert(messages@[i as int].blocks() =~= Seq::<InputContentBlock>::empty());
            assert(before + block_parts(messages@[i as int].blocks()) =~= before);
        }
        i += 1;
    }
    assert(messages@.take(i as int) =~= messages@);
    parts
}

/// The kinds of media are listed once each, and exactly those that occur.
pub proof fn kinds_are_listed_once(parts: Seq<PartText>)
    ensures
        kinds_among(parts).no_duplicates(),
        forall|m: Modality| #[trigger]
            kinds_among(parts).contains(m) <==> exists|i: int|
                0 <= i < parts.len() && kind_of(#[trigger] parts[i]) == Some(m),
        has_media(parts) <==> kinds_among(parts).len() > 0,
    decreases parts.len(),
{
    if parts.len() > 0 {
        let init = parts.drop_last();
        let before = kinds_among(init);
        let kinds = kinds_among(parts);
        kinds_are_listed_once(init);
        assert forall|m: Modality| #[trigger] kinds.contains(m) <==> exists|i: int|
            0 <= i < parts.len() && kind_of(#[trigger] parts[i]) == Some(m) by {
            if kinds.contains(m) {
                if before.contains(m) {
                    let i = choose|i: int|
                        0 <= i < init.len() && kind_of(#[trigger] init[i]) == Some(m);
                    assert(parts[i] == init[i]);
                } else {
                    assert(kind_of(parts[parts.len() - 1]) == Some(m));
                }
            }
            if exists|i: int| 0 <= i < parts.len() && kind_of(#[trigger] parts[i]) == Some(m) {
                let i = choose|i: int|
                    0 <= i < parts.len() && kind_of(#[trigger] parts[i]) == Some(m);
                if i < init.len() {
                    assert(init[i] == parts[i]);
                    assert(before.contains(m));
                    let k = before.index_of(m);
                    assert(kinds[k] == m);
                } else {
                    if !before.contains(m) {
                        assert(kinds[before.len() as int] == m);
                    } else {
                        let k = before.index_of(m);
                        assert(kinds[k] == m);
                    }
                }
            }
        }
        if has_media(parts) {
            let i = choose|i: int| 0 <= i < parts.len() && kind_of(#[trigger] parts[i]) is Some;
            let m = kind_of(parts[i])->0;
            assert(kind_of(parts[i]) == Some(m));
            assert(kinds.contains(m));
        }
        if kinds.len() > 0 {
            assert(kinds.contains(kinds[0]));
            let i = choose|i: int|
                0 <= i < parts.len() && kind_of(#[trigger] parts[i]) == Some(kinds[0]);
            assert(kind_of(parts[i]) is Some);
        }
    }
}

proof fn lemma_block_media(blocks: Seq<InputContentBlock>)
    ensures
        has_media(block_parts(blocks)) <==> has_image(blocks),
    decreases blocks.len(),
{
    if blocks.len() > 0 {
        let init = blocks.drop_last();
        let before = block_parts(init);
        let parts = block_parts(blocks);
        lemma_block_media(init);
        if has_media(parts) {
            let i = choose|i: int| 0 <= i < parts.len() && kind_of(#[trigger] parts[i]) is Some;
            if i < before.len() {
                assert(parts[i] == before[i]);
                let k = choose|k: int| 0 <= k < init.len() && (#[trigger] init[k]) is Image;
                assert(blocks[k] == init[k]);
            } else {
                assert(blocks[blocks.len() - 1] is Image);
            }
        }
        if has_image(blocks) {
            let k = choose|k: int| 0 <= k < blocks.len() && (#[trigger] blocks[k]) is Image;
            if k < init.len() {
                assert(init[k] == blocks[k]);
                let i = choose|i: int|
                    0 <= i < before.len() && kind_of(#[trigger] before[i]) is Some;
                assert(parts[i] == before[i]);
            } else {
                assert(kind_of(parts[before.len() as int]) is Some);
            }
        }
    }
}

/// Messages are said to hold media exactly when something to fetch is
/// extracted from them.
pub proof fn detection_agrees_with_extraction(messages: Seq<InputMessage>)
    ensures
        (exists|i: int| 0 <= i < messages.len() && has_image(#[trigger] messages[i].blocks()))
            <==> has_media(input_parts(messages)),
    decreases messages.len(),
{
    if messages.len() > 0 {
        let init = messages.drop_last();
        let before = input_parts(init);
        let own = block_parts(messages.last().blocks());
        let parts = input_parts(messages);
        detection_agrees_with_extraction(init);
        lemma_block_media(messages.last().blocks());
        if exists|i: int| 0 <= i < messages.len() && has_image(#[trigger] messages[i].blocks()) {
            let i = choose|i: int|
                0 <= i < messages.len() && has_image(#[trigger] messages[i].blocks());
            if i < init.len() {
                assert(has_image(init[i].blocks()));
                let k = choose|k: int|
                    0 <= k < before.len() && kind_of(#[trigger] before[k]) is Some;
                assert(parts[k] == before[k]);
            } else {
                let k = choose|k: int| 0 <= k < own.len() && kind_of(#[trigger] own[k]) is Some;
                assert(parts[before.len() + k] == own[k]);
            }
        }
        if has_media(parts) {
            let k = choose|k: int| 0 <= k < parts.len() && kind_of(#[trigger] parts[k]) is Some;
            if k < before.len() {
                assert(before[k] == parts[k]);
                let i = choose|i: int|
                    0 <= i < init.len() && has_image(#[trigger] init[i].blocks());
                assert(has_image(messages[i].blocks()));
            } else {
                assert(own[k - before.len()] == parts[k]);
                assert(has_image(messages[messages.len() - 1].blocks()));
            }
        }
    }
}

/// Chat messages are read in order, and each for itself.
pub proof fn messages_are_read_in_order(a: Seq<ChatMessage>, b: Seq<ChatMessage>)
    ensures
        chat_parts(a + b) == chat_parts(a) + chat_parts(b),
    decreases b.len(),
{
    if b.len() > 0 {
        messages_are_read_in_order(a, b.drop_last());
        assert((a + b).drop_last() =~= a + b.drop_last());
        assert((a + b).last() == b.last());
        let own = b.last().parts().map_values(|p: ContentPart| chat_part(p));
        assert(chat_parts(a) + chat_parts(b) =~= chat_parts(a) + chat_parts(b.drop_last()) + own);
    } else {
        assert(a + b =~= a);
        assert(chat_parts(a) + chat_parts(b) =~= chat_parts(a));
    }
}

/// Every piece of a chat message is taken over: its text, or where its image or video
/// is, and the detail that is asked for. Plain text holds no pieces.
pub proof fn pieces_are_taken_over(m: ChatMessage, v: Vec<ContentPart>, k: int)
    requires
        match m {
            ChatMessage::System { content, .. } => content == MessageContent::Parts(v),
            ChatMessage::User { content, .. } => content == MessageContent::Parts(v),
            ChatMessage::Developer { content, .. } => content == MessageContent::Parts(v),
            ChatMessage::Tool { content, .. } => content == MessageContent::Parts(v),
            ChatMessage::Other => false,
        },
        0 <= k < v@.len(),
    ensures
        chat_parts(seq![m]).len() == v@.len(),
        match v@[k] {
            ContentPart::Text { text } => chat_parts(seq![m])[k] == PartText::Text(text@),
            ContentPart::VideoUrl { video_url } => chat_parts(seq![m])[k] == PartText::Video(
                video_url.url@,
                None,
            ),
            ContentPart::ImageUrl { image_url } => match image_url.detail {
                None => chat_parts(seq![m])[k] == PartText::Image(image_url.url@, None, None),
                Some(word) => {
                    &&& chat_parts(seq![m])[k] matches PartText::Image(url, detail, None)
                    &&& url == image_url.url@
                    &&& lowered(word@) == "low"@ ==> detail == Some(ImageDetail::Low)
                    &&& lowered(word@) == "high"@ ==> detail == Some(ImageDetail::High)
                    &&& lowered(word@) == "auto"@ ==> detail == Some(ImageDetail::Auto)
                    &&& lowered(word@) != "low"@ && lowered(word@) != "high"@ && lowered(word@)
                        != "auto"@ ==> detail is None
                },
            },
        },
{
    let one = seq![m];
    assert(one.drop_last() =~= Seq::<ChatMessage>::empty());
    assert(chat_parts(Seq::<ChatMessage>::empty()) =~= Seq::<PartText>::empty());
    assert(one.last() == m);
    let own = m.parts().map_values(|p: ContentPart| chat_part(p));
    assert(chat_parts(one) =~= own);
    reveal_strlit("auto");
    reveal_strlit("low");
    reveal_strlit("high");
    assert("auto"@[0] == 'a' && "high"@[0] == 'h');
    assert("auto"@ != "high"@ && "auto"@ != "low"@ && "low"@ != "high"@);
}

/// Plain text and messages that are not looked at hold no pieces.
pub proof fn plain_messages_hold_nothing(m: ChatMessage)
    requires
        match m {
            ChatMessage::System { content, .. } => content is Text,
            ChatMessage::User { content, .. } => content is Text,
            ChatMessage::Developer { content, .. } => content is Text,
            ChatMessage::Tool { content, .. } => content is Text,
            ChatMessage::Other => true,
        },
    ensures
        chat_parts(seq![m]).len() == 0,
{
    let one = seq![m];
    assert(one.drop_last() =~= Seq::<ChatMessage>::empty());
    assert(chat_parts(Seq::<ChatMessage>::empty()) =~= Seq::<PartText>::empty());
    assert(one.last() == m);
}

/// A piece is media exactly where it is an image or a video.
pub proof fn images_and_videos_are_media(p: PartText)
    ensures
        kind_of(p) == Some(Modality::Image) <==> p is Image,
        kind_of(p) == Some(Modality::Video) <==> p is Video,
        kind_of(p) is None <==> p is Text,
{
}

/// Messages of the Messages API are read in order, block by block: images and texts
/// of users, and nothing of assistants.
pub proof fn blocks_are_taken_over(
    a: Seq<InputMessage>,
    b: Seq<InputMessage>,
    blocks: Seq<InputContentBlock>,
    block: InputContentBlock,
    m: InputMessage,
)
    ensures
        input_parts(a + b) == input_parts(a) + input_parts(b),
        block_parts(blocks.push(block)) == match block {
            InputContentBlock::Image { source: ImageSource::Url { url } } => block_parts(
                blocks,
            ).push(PartText::Image(url@, None, None)),
            InputContentBlock::Image { source: ImageSource::Base64 { media_type, data } } =>
                block_parts(blocks).push(
                PartText::Image(
                    "data:"@ + media_type@ + ";base64,"@ + data@,
                    None,
                    None,
                ),
            ),
            InputContentBlock::Text { text } => block_parts(blocks).push(PartText::Text(text@)),
            InputContentBlock::Other => block_parts(blocks),
        },
        block_parts(Seq::<InputContentBlock>::empty()).len() == 0,
        m.role == Role::Assistant || m.content is Text ==> input_parts(seq![m]).len() == 0,
        m.role == Role::User ==> (m.content matches InputContent::Blocks(v) ==> input_parts(seq![m])
            == block_parts(v@)),
    decreases b.len(),
{
    assert(blocks.push(block).drop_last() =~= blocks);
    let one = seq![m];
    assert(one.drop_last() =~= Seq::<InputMessage>::empty());
    assert(input_parts(Seq::<InputMessage>::empty()) =~= Seq::<PartText>::empty());
    assert(one.last() == m);
    assert(input_parts(one) =~= block_parts(m.blocks()));
    if b.len() > 0 {
        blocks_are_taken_over(a, b.drop_last(), blocks, block, m);
        assert((a + b).drop_last() =~= a + b.drop_last());
        assert((a + b).last() == b.last());
        let own = block_parts(b.last().blocks());
        assert(input_parts(a) + input_parts(b) =~= input_parts(a) + input_parts(b.drop_last())
            + own);
    } else {
        assert(a + b =~= a);
        assert(input_parts(a) + input_parts(b) =~= input_parts(a));
    }
}

} // verus!
