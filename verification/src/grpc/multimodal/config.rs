//! The configuration files of multimodal models, cached by tokenizer.

use crate::dash::{
    config_map_get, config_map_insert, config_map_new, config_map_remove, configs_in, ConfigMap,
};
use crate::outside::{json_fields, json_member, json_read, json_read_member};
use std::sync::Arc;
use vstd::prelude::*;
use vstd::utf8::encode_utf8;

verus! {

/// Cached model configuration files.
#[derive(Debug)]
pub struct MultimodalModelConfig {
    /// The model's configuration, as JSON.
    pub config: String,
    /// The preprocessor's configuration, as JSON; none stands for defaults.
    pub preprocessor_config: Option<String>,
    /// The preprocessor's configuration for videos, where the model has one.
    pub video_preprocessor_config: Option<String>,
}

/// Shared cache of multimodal model configuration files keyed by tokenizer id.
pub struct MultimodalConfigRegistry {
    configs: ConfigMap,
}

/// What to do for a configuration that is asked for.
pub enum GetOrLoad {
    Cached(Arc<MultimodalModelConfig>),
    /// Read the files and hand them in.
    Load,
}

/// What was found where a model's files are.
pub struct ModelFiles {
    /// Where the model's configuration is.
    pub config_path: String,
    /// The model's configuration, none if it cannot be read.
    pub config: Option<String>,
    /// The preprocessor's configuration, none if it is missing or cannot be
    /// used.
    pub preprocessor_config: Option<String>,
    pub video_preprocessor_config: Option<String>,
}

/// `text` is JSON.
pub open spec fn is_json(text: Seq<char>) -> bool {
    json_fields(encode_utf8(text), ""@, ""@) is Ok
}

/// Whether a text is JSON.
fn parses(text: &String) -> (r: bool)
    ensures
        r == is_json(text@),
{
    let mut bytes: Vec<u8> = Vec::new();
    bytes.extend_from_slice(text.as_str().as_bytes());
    assert(bytes@ =~= encode_utf8(text@));
    json_read(&bytes, "", "").is_ok()
}

/// What a model's files come to, given whether its configuration is JSON.
pub open spec fn config_in(files: ModelFiles, is_json: bool) -> Result<
    MultimodalModelConfig,
    Seq<char>,
> {
    match files.config {
        None => Err("Failed to read config.json at "@ + files.config_path@),
        Some(config) => if is_json {
            Ok(
                MultimodalModelConfig {
                    config,
                    preprocessor_config: files.preprocessor_config,
                    video_preprocessor_config: files.video_preprocessor_config,
                },
            )
        } else {
            Err("Failed to parse config.json at "@ + files.config_path@)
        },
    }
}

/// A model's configuration from its files; `is_json` says whether the model's
/// own is JSON.
pub fn model_config(files: ModelFiles, is_json: bool) -> (r: Result<MultimodalModelConfig, String>)
    ensures
        match config_in(files, is_json) {
            Ok(c) => r == Ok::<MultimodalModelConfig, String>(c),
            Err(text) => r matches Err(e) && e@ == text,
        },
{
    match files.config {
        None => {
            let mut e = "Failed to read config.json at ".to_owned();
            e.append(files.config_path.as_str());
            Err(e)
        },
        Some(config) => if is_json {
            Ok(
                MultimodalModelConfig {
                    config,
                    preprocessor_config: files.preprocessor_config,
                    video_preprocessor_config: files.video_preprocessor_config,
                },
            )
        } else {
            let mut e = "Failed to parse config.json at ".to_owned();
            e.append(files.config_path.as_str());
            Err(e)
        },
    }
}

impl MultimodalConfigRegistry {
    /// The cached configurations.
    pub closed spec fn cached(&self) -> Map<Seq<char>, Arc<MultimodalModelConfig>> {
        configs_in(self.configs)
    }

    pub fn new() -> (r: Self)
        ensures
            forall|id: Seq<char>| !r.cached().dom().contains(id),
    {
        MultimodalConfigRegistry { configs: config_map_new() }
    }

    pub fn get(&self, tokenizer_id: &str) -> (r: Option<Arc<MultimodalModelConfig>>)
        ensures
            r == if self.cached().dom().contains(tokenizer_id@) {
                Some(self.cached()[tokenizer_id@])
            } else {
                None
            },
    {
        config_map_get(&self.configs, tokenizer_id)
    }

    pub fn insert(&mut self, tokenizer_id: String, config: Arc<MultimodalModelConfig>)
        ensures
            final(self).cached() == old(self).cached().insert(tokenizer_id@, config),
    {
        config_map_insert(&mut self.configs, tokenizer_id, config);
    }

    /// Drop the cached configuration for a tokenizer, so that stale entries do
    /// not accumulate.
    pub fn remove(&mut self, tokenizer_id: &str) -> (r: Option<Arc<MultimodalModelConfig>>)
        ensures
            final(self).cached() == old(self).cached().remove(tokenizer_id@),
            r == if old(self).cached().dom().contains(tokenizer_id@) {
                Some(old(self).cached()[tokenizer_id@])
            } else {
                None
            },
    {
        config_map_remove(&mut self.configs, tokenizer_id)
    }

    /// The cached configuration, or the order to load it: the source is not
    /// touched where there is one.
    pub fn get_or_load(&self, tokenizer_id: &str) -> (r: GetOrLoad)
        ensures
            match r {
                GetOrLoad::Cached(c) => self.cached().dom().contains(tokenizer_id@) && c
                    == self.cached()[tokenizer_id@],
                GetOrLoad::Load => !self.cached().dom().contains(tokenizer_id@),
            },
    {
        match self.get(tokenizer_id) {
            Some(c) => GetOrLoad::Cached(c),
            None => GetOrLoad::Load,
        }
    }

    /// Takes in the files that were loaded for a tokenizer.
    pub fn loaded(&mut self, tokenizer_id: &str, files: ModelFiles) -> (r: Result<
        Arc<MultimodalModelConfig>,
        String,
    >)
        ensures
            match config_in(files, files.config is Some && is_json(files.config->0@)) {
                Ok(config) => {
                    &&& r matches Ok(c)
                    &&& *c == config
                    &&& final(self).cached() == old(self).cached().insert(tokenizer_id@, c)
                },
                Err(text) => {
                    &&& r matches Err(e)
                    &&& e@ == text
                    &&& final(self).cached() == old(self).cached()
                },
            },
    {
        let json: bool = match &files.config {
            Some(text) => parses(text),
            None => false,
        };
        match model_config(files, json) {
            Err(e) => Err(e),
            Ok(config) => {
                let config = Arc::new(config);
                config_map_insert(
                    &mut self.configs,
                    tokenizer_id.to_owned(),
                    Arc::clone(&config),
                );
                Ok(config)
            },
        }
    }
}

/// Where the configuration for videos is taken from, if anywhere.
pub enum VideoConfigSource {
    /// From the file of its own, which can be used.
    OwnFile(String),
    /// From a member of the processor's configuration, if that can be used.
    Member(String),
    Nothing,
}

/// Where the configuration for videos is taken from, given what the
/// processor's configuration says of it.
pub open spec fn video_source(
    own_file: Option<String>,
    member: Option<Seq<char>>,
    source: VideoConfigSource,
) -> bool {
    match own_file {
        Some(text) => source == VideoConfigSource::OwnFile(text),
        None => match member {
            Some(m) => source matches VideoConfigSource::Member(s) && s@ == m,
            None => source is Nothing,
        },
    }
}

/// Where the configuration for videos is taken from: `own_file` is that of its
/// own file, if it can be used; `processor` is the processor's configuration,
/// if it can be read.
pub fn load_video_preprocessor_config(
    own_file: Option<String>,
    processor: Option<&String>,
) -> (r: VideoConfigSource)
    ensures
        video_source(
            own_file,
            match processor {
                Some(text) => match json_member(encode_utf8(text@), "video_processor"@) {
                    Some(m) => m,
                    None => None,
                },
                None => None,
            },
            r,
        ),
{
    if let Some(text) = own_file {
        return VideoConfigSource::OwnFile(text);
    }
    match processor {
        None => VideoConfigSource::Nothing,
        Some(text) => {
            let mut bytes: Vec<u8> = Vec::new();
            bytes.extend_from_slice(text.as_str().as_bytes());
            assert(bytes@ =~= encode_utf8(text@));
            match json_read_member(&bytes, "video_processor") {
                Some(Some(member)) => VideoConfigSource::Member(member),
                _ => VideoConfigSource::Nothing,
            }
        },
    }
}

/// A model's configuration is what its files hold; without one that can be read and
/// is JSON there is none, and the reason names where it was looked for.
pub proof fn configurations_are_what_the_files_hold(files: ModelFiles, json: bool)
    ensures
        config_in(files, json) is Ok <==> files.config is Some && json,
        config_in(files, json) matches Ok(c) ==> {
            &&& c.config == files.config->0
            &&& c.preprocessor_config == files.preprocessor_config
            &&& c.video_preprocessor_config == files.video_preprocessor_config
        },
        config_in(files, json) matches Err(text) ==> files.config_path@.is_suffix_of(text),
{
    if let Err(text) = config_in(files, json) {
        let path = files.config_path@;
        assert(text.subrange(text.len() - path.len(), text.len() as int) =~= path);
    }
}

/// A file of its own wins for videos; else the processor's configuration is asked.
pub proof fn own_files_win(
    own_file: Option<String>,
    member: Option<Seq<char>>,
    source: VideoConfigSource,
)
    requires
        video_source(own_file, member, source),
    ensures
        own_file matches Some(text) ==> source == VideoConfigSource::OwnFile(text),
        own_file is None && member is Some ==> source is Member && source->Member_0@ == member->0,
        own_file is None && member is None ==> source is Nothing,
{
}

} // verus!
