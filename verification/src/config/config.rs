//! The gateway's configuration: where the containers come from and which
//! models they serve.

use crate::config::context_size::ContextSize;
use crate::model::Model;
use crate::services::vram_estimator::KvQuant;
use crate::text::{chars_of, same_text};
use vstd::prelude::*;
use vstd::string::StringExecFns;

verus! {

/// The quantisations that the inference server offers for a cache.
#[derive(Clone, Copy, Debug, PartialEq, Eq)]
pub enum CacheQuantType {
    F32,
    F16,
    Bf16,
    Q8_0,
    Q4_0,
    Q4_1,
    Iq4Nl,
    Q5_0,
    Q5_1,
}

impl CacheQuantType {
    /// The name that the inference server knows the quantisation by.
    pub open spec fn name(self) -> Seq<char> {
        match self {
            CacheQuantType::F32 => "f32"@,
            CacheQuantType::F16 => "f16"@,
            CacheQuantType::Bf16 => "bf16"@,
            CacheQuantType::Q8_0 => "q8_0"@,
            CacheQuantType::Q4_0 => "q4_0"@,
            CacheQuantType::Q4_1 => "q4_1"@,
            CacheQuantType::Iq4Nl => "iq4_nl"@,
            CacheQuantType::Q5_0 => "q5_0"@,
            CacheQuantType::Q5_1 => "q5_1"@,
        }
    }

    /// The quantisation that `name` names, the first in the list above if
    /// there is one.
    pub open spec fn named(name: Seq<char>) -> Option<CacheQuantType> {
        if name == "f32"@ {
            Some(CacheQuantType::F32)
        } else if name == "f16"@ {
            Some(CacheQuantType::F16)
        } else if name == "bf16"@ {
            Some(CacheQuantType::Bf16)
        } else if name == "q8_0"@ {
            Some(CacheQuantType::Q8_0)
        } else if name == "q4_0"@ {
            Some(CacheQuantType::Q4_0)
        } else if name == "q4_1"@ {
            Some(CacheQuantType::Q4_1)
        } else if name == "iq4_nl"@ {
            Some(CacheQuantType::Iq4Nl)
        } else if name == "q5_0"@ {
            Some(CacheQuantType::Q5_0)
        } else if name == "q5_1"@ {
            Some(CacheQuantType::Q5_1)
        } else {
            None
        }
    }

    /// The name of the quantisation as a borrowed text.
    pub fn as_str(&self) -> (name: &'static str)
        ensures
            name@ == self.name(),
    {
        match self {
            CacheQuantType::F32 => "f32",
            CacheQuantType::F16 => "f16",
            CacheQuantType::Bf16 => "bf16",
            CacheQuantType::Q8_0 => "q8_0",
            CacheQuantType::Q4_0 => "q4_0",
            CacheQuantType::Q4_1 => "q4_1",
            CacheQuantType::Iq4Nl => "iq4_nl",
            CacheQuantType::Q5_0 => "q5_0",
            CacheQuantType::Q5_1 => "q5_1",
        }
    }

    /// The name of the quantisation.
    pub fn to_string(&self) -> (name: String)
        ensures
            name@ == self.name(),
    {
        String::from_str(self.as_str())
    }

    /// Reads the name of a quantisation. Any other text is refused with a
    /// message that repeats it.
    pub fn from_str(s: &str) -> (r: Result<CacheQuantType, String>)
        ensures
            match CacheQuantType::named(s@) {
                Some(t) => r == Ok::<CacheQuantType, String>(t),
                None => r matches Err(message) && message@ == "Invalid cache type: "@ + s@,
            },
    {
        let chars = chars_of(s);
        let len = chars.len();
        assert(chars@.subrange(0, len as int) == s@);
        if same_text(chars.as_slice(), 0, len, "f32") {
            Ok(CacheQuantType::F32)
        } else if same_text(chars.as_slice(), 0, len, "f16") {
            Ok(CacheQuantType::F16)
        } else if same_text(chars.as_slice(), 0, len, "bf16") {
            Ok(CacheQuantType::Bf16)
        } else if same_text(chars.as_slice(), 0, len, "q8_0") {
            Ok(CacheQuantType::Q8_0)
        } else if same_text(chars.as_slice(), 0, len, "q4_0") {
            Ok(CacheQuantType::Q4_0)
        } else if same_text(chars.as_slice(), 0, len, "q4_1") {
            Ok(CacheQuantType::Q4_1)
        } else if same_text(chars.as_slice(), 0, len, "iq4_nl") {
            Ok(CacheQuantType::Iq4Nl)
        } else if same_text(chars.as_slice(), 0, len, "q5_0") {
            Ok(CacheQuantType::Q5_0)
        } else if same_text(chars.as_slice(), 0, len, "q5_1") {
            Ok(CacheQuantType::Q5_1)
        } else {
            Err(String::from_str("Invalid cache type: ").concat(s))
        }
    }
}

/// The name of a quantisation names that quantisation and no other.
pub proof fn lemma_cache_type_round_trip(t: CacheQuantType)
    ensures
        CacheQuantType::named(t.name()) == Some(t),
{
    reveal_strlit("f32");
    reveal_strlit("f16");
    reveal_strlit("bf16");
    reveal_strlit("q8_0");
    reveal_strlit("q4_0");
    reveal_strlit("q4_1");
    reveal_strlit("iq4_nl");
    reveal_strlit("q5_0");
    reveal_strlit("q5_1");
    assert("f32"@[1] != "f16"@[1]);
    assert("f32"@ != "f16"@);
    assert("f32"@.len() != "bf16"@.len());
    assert("f32"@ != "bf16"@);
    assert("f16"@.len() != "bf16"@.len());
    assert("f16"@ != "bf16"@);
    assert("f32"@.len() != "q8_0"@.len());
    assert("f32"@ != "q8_0"@);
    assert("f16"@.len() != "q8_0"@.len());
    assert("f16"@ != "q8_0"@);
    assert("bf16"@[0] != "q8_0"@[0]);
    assert("bf16"@ != "q8_0"@);
    assert("f32"@.len() != "q4_0"@.len());
    assert("f32"@ != "q4_0"@);
    assert("f16"@.len() != "q4_0"@.len());
    assert("f16"@ != "q4_0"@);
    assert("bf16"@[0] != "q4_0"@[0]);
    assert("bf16"@ != "q4_0"@);
    assert("q8_0"@[1] != "q4_0"@[1]);
    assert("q8_0"@ != "q4_0"@);
    assert("f32"@.len() != "q4_1"@.len());
    assert("f32"@ != "q4_1"@);
    assert("f16"@.len() != "q4_1"@.len());
    assert("f16"@ != "q4_1"@);
    assert("bf16"@[0] != "q4_1"@[0]);
    assert("bf16"@ != "q4_1"@);
    assert("q8_0"@[1] != "q4_1"@[1]);
    assert("q8_0"@ != "q4_1"@);
    assert("q4_0"@[3] != "q4_1"@[3]);
    assert("q4_0"@ != "q4_1"@);
    assert("f32"@.len() != "iq4_nl"@.len());
    assert("f32"@ != "iq4_nl"@);
    assert("f16"@.len() != "iq4_nl"@.len());
    assert("f16"@ != "iq4_nl"@);
    assert("bf16"@.len() != "iq4_nl"@.len());
    assert("bf16"@ != "iq4_nl"@);
    assert("q8_0"@.len() != "iq4_nl"@.len());
    assert("q8_0"@ != "iq4_nl"@);
    assert("q4_0"@.len() != "iq4_nl"@.len());
    assert("q4_0"@ != "iq4_nl"@);
    assert("q4_1"@.len() != "iq4_nl"@.len());
    assert("q4_1"@ != "iq4_nl"@);
    assert("f32"@.len() != "q5_0"@.len());
    assert("f32"@ != "q5_0"@);
    assert("f16"@.len() != "q5_0"@.len());
    assert("f16"@ != "q5_0"@);
    assert("bf16"@[0] != "q5_0"@[0]);
    assert("bf16"@ != "q5_0"@);
    assert("q8_0"@[1] != "q5_0"@[1]);
    assert("q8_0"@ != "q5_0"@);
    assert("q4_0"@[1] != "q5_0"@[1]);
    assert("q4_0"@ != "q5_0"@);
    assert("q4_1"@[1] != "q5_0"@[1]);
    assert("q4_1"@ != "q5_0"@);
    assert("iq4_nl"@.len() != "q5_0"@.len());
    assert("iq4_nl"@ != "q5_0"@);
    assert("f32"@.len() != "q5_1"@.len());
    assert("f32"@ != "q5_1"@);
    assert("f16"@.len() != "q5_1"@.len());
    assert("f16"@ != "q5_1"@);
    assert("bf16"@[0] != "q5_1"@[0]);
    assert("bf16"@ != "q5_1"@);
    assert("q8_0"@[1] != "q5_1"@[1]);
    assert("q8_0"@ != "q5_1"@);
    assert("q4_0"@[1] != "q5_1"@[1]);
    assert("q4_0"@ != "q5_1"@);
    assert("q4_1"@[1] != "q5_1"@[1]);
    assert("q4_1"@ != "q5_1"@);
    assert("iq4_nl"@.len() != "q5_1"@.len());
    assert("iq4_nl"@ != "q5_1"@);
    assert("q5_0"@[3] != "q5_1"@[3]);
    assert("q5_0"@ != "q5_1"@);
}

impl Default for CacheQuantType {
    fn default() -> (r: CacheQuantType)
        ensures
            r == CacheQuantType::F16,
    {
        CacheQuantType::F16
    }
}

/// The companion model that a model speculates with.
#[derive(Clone, Debug, PartialEq, Eq)]
pub struct DraftModelConfig {
    pub file: String,
    pub cache_type_k: CacheQuantType,
    pub cache_type_v: CacheQuantType,
}

impl Default for DraftModelConfig {
    fn default() -> (r: DraftModelConfig)
        ensures
            r.file@ == Seq::<char>::empty(),
            r.cache_type_k == CacheQuantType::F16,
            r.cache_type_v == CacheQuantType::F16,
    {
        DraftModelConfig {
            file: String::new(),
            cache_type_k: CacheQuantType::F16,
            cache_type_v: CacheQuantType::F16,
        }
    }
}

impl DraftModelConfig {
    /// A copy of the configuration.
    pub fn duplicate(&self) -> (r: DraftModelConfig)
        ensures
            r == *self,
    {
        DraftModelConfig {
            file: self.file.clone(),
            cache_type_k: self.cache_type_k,
            cache_type_v: self.cache_type_v,
        }
    }
}

/// The parameters that a model is served with. The sampling parameters
/// that are fractions are held as the text that the inference server is
/// given for them.
#[derive(Clone, Debug, PartialEq, Eq)]
pub struct ModelParams {
    context: ContextSize,
    temperature: String,
    top_k: i32,
    top_p: String,
    min_p: String,
    repetition_penalty: String,
    cache_type_k: CacheQuantType,
    cache_type_v: CacheQuantType,
    flash_attention: bool,
    jinja: bool,
}

impl Default for ModelParams {
    fn default() -> (r: ModelParams)
        ensures
            r.context_tokens() == 0,
            r.temperature_text() == "0.8"@,
            r.top_k_value() == 40,
            r.top_p_text() == "0.9"@,
            r.min_p_text() == "0.1"@,
            r.repetition_penalty_text() == "1"@,
            r.cache_type_k_value() == CacheQuantType::F16,
            r.cache_type_v_value() == CacheQuantType::F16,
            !r.flash_attention_value(),
            !r.jinja_value(),
    {
        ModelParams {
            context: ContextSize::new(0),
            temperature: String::from_str("0.8"),
            top_k: 40,
            top_p: String::from_str("0.9"),
            min_p: String::from_str("0.1"),
            repetition_penalty: String::from_str("1"),
            cache_type_k: CacheQuantType::F16,
            cache_type_v: CacheQuantType::F16,
            flash_attention: false,
            jinja: false,
        }
    }
}

impl ModelParams {
    pub closed spec fn context_tokens(&self) -> i32 {
        self.context.tokens()
    }

    pub closed spec fn temperature_text(&self) -> Seq<char> {
        self.temperature@
    }

    pub closed spec fn top_k_value(&self) -> i32 {
        self.top_k
    }

    pub closed spec fn top_p_text(&self) -> Seq<char> {
        self.top_p@
    }

    pub closed spec fn min_p_text(&self) -> Seq<char> {
        self.min_p@
    }

    pub closed spec fn repetition_penalty_text(&self) -> Seq<char> {
        self.repetition_penalty@
    }

    pub closed spec fn cache_type_k_value(&self) -> CacheQuantType {
        self.cache_type_k
    }

    pub closed spec fn cache_type_v_value(&self) -> CacheQuantType {
        self.cache_type_v
    }

    pub closed spec fn flash_attention_value(&self) -> bool {
        self.flash_attention
    }

    pub closed spec fn jinja_value(&self) -> bool {
        self.jinja
    }

    /// Parameters with the given values.
    pub fn new(
        context: ContextSize,
        temperature: String,
        top_k: i32,
        top_p: String,
        min_p: String,
        repetition_penalty: String,
        cache_type_k: CacheQuantType,
        cache_type_v: CacheQuantType,
        flash_attention: bool,
        jinja: bool,
    ) -> (r: ModelParams)
        ensures
            r.context_tokens() == context.tokens(),
            r.temperature_text() == temperature@,
            r.top_k_value() == top_k,
            r.top_p_text() == top_p@,
            r.min_p_text() == min_p@,
            r.repetition_penalty_text() == repetition_penalty@,
            r.cache_type_k_value() == cache_type_k,
            r.cache_type_v_value() == cache_type_v,
            r.flash_attention_value() == flash_attention,
            r.jinja_value() == jinja,
    {
        ModelParams {
            context,
            temperature,
            top_k,
            top_p,
            min_p,
            repetition_penalty,
            cache_type_k,
            cache_type_v,
            flash_attention,
            jinja,
        }
    }

    pub fn context_size(&self) -> (r: i32)
        ensures
            r == self.context_tokens(),
    {
        self.context.size()
    }

    pub fn temperature(&self) -> (r: &str)
        ensures
            r@ == self.temperature_text(),
    {
        self.temperature.as_str()
    }

    pub fn top_k(&self) -> (r: i32)
        ensures
            r == self.top_k_value(),
    {
        self.top_k
    }

    pub fn top_p(&self) -> (r: &str)
        ensures
            r@ == self.top_p_text(),
    {
        self.top_p.as_str()
    }

    pub fn min_p(&self) -> (r: &str)
        ensures
            r@ == self.min_p_text(),
    {
        self.min_p.as_str()
    }

    pub fn cache_type_k(&self) -> (r: &CacheQuantType)
        ensures
            *r == self.cache_type_k_value(),
    {
        &self.cache_type_k
    }

    pub fn cache_type_v(&self) -> (r: &CacheQuantType)
        ensures
            *r == self.cache_type_v_value(),
    {
        &self.cache_type_v
    }

    pub fn flash_attention(&self) -> (r: bool)
        ensures
            r == self.flash_attention_value(),
    {
        self.flash_attention
    }

    pub fn jinja(&self) -> (r: bool)
        ensures
            r == self.jinja_value(),
    {
        self.jinja
    }

    pub fn repetition_penalty(&self) -> (r: &str)
        ensures
            r@ == self.repetition_penalty_text(),
    {
        self.repetition_penalty.as_str()
    }

    /// A copy of the parameters.
    pub fn duplicate(&self) -> (r: ModelParams)
        ensures
            r == *self,
    {
        ModelParams {
            context: self.context,
            temperature: self.temperature.clone(),
            top_k: self.top_k,
            top_p: self.top_p.clone(),
            min_p: self.min_p.clone(),
            repetition_penalty: self.repetition_penalty.clone(),
            cache_type_k: self.cache_type_k,
            cache_type_v: self.cache_type_v,
            flash_attention: self.flash_attention,
            jinja: self.jinja,
        }
    }
}

/// One configured model: its weight file, how it is served, and the draft
/// model it speculates with, if any.
#[derive(Clone, Debug, PartialEq, Eq)]
pub struct ModelConfig {
    file: String,
    params: ModelParams,
    draft: Option<DraftModelConfig>,
}

/// What the estimator is asked of the files of one model.
#[derive(Clone, Copy, Debug, PartialEq, Eq)]
pub struct EstimateRequest {
    /// The context length that the caches are estimated for.
    pub context_tokens: usize,
    /// The quantisation that the model's cache is estimated with.
    pub model_quant: KvQuant,
    /// The quantisation that the draft model's cache is estimated with.
    pub draft_quant: KvQuant,
}

/// A configured context length as a count of tokens. A length below zero
/// counts from the top of the range down, so that it is more than any
/// device holds.
pub open spec fn tokens_counted(size: i32) -> usize {
    if size >= 0 {
        size as usize
    } else {
        (usize::MAX + 1 + size) as usize
    }
}

/// The directory of the weight files inside a container.
pub open spec fn container_path(file: Seq<char>) -> Seq<char> {
    "/models/"@ + file
}

impl ModelConfig {
    pub closed spec fn file_name(&self) -> Seq<char> {
        self.file@
    }

    pub closed spec fn params_value(&self) -> ModelParams {
        self.params
    }

    pub closed spec fn draft_value(&self) -> Option<DraftModelConfig> {
        self.draft
    }

    /// A model with the given file, parameters and draft model.
    pub fn new(file: String, params: ModelParams, draft: Option<DraftModelConfig>) -> (r:
        ModelConfig)
        ensures
            r.file_name() == file@,
            r.params_value() == params,
            r.draft_value() == draft,
    {
        ModelConfig { file, params, draft }
    }

    /// The name of the weight file.
    pub fn file(&self) -> (r: &str)
        ensures
            r@ == self.file_name(),
    {
        self.file.as_str()
    }

    /// The path of the weight file inside the container.
    pub fn container_model_path(&self) -> (path: String)
        ensures
            path@ == container_path(self.file_name()),
    {
        String::from_str("/models/").concat(self.file.as_str())
    }

    pub fn params(&self) -> (r: &ModelParams)
        ensures
            *r == self.params_value(),
    {
        &self.params
    }

    pub fn draft(&self) -> (r: Option<&DraftModelConfig>)
        ensures
            r == match self.draft_value() {
                Some(d) => Some(&d),
                None => None,
            },
    {
        self.draft.as_ref()
    }

    /// What the estimator is asked of the model's files: the cache of
    /// the model is estimated at eight bits a value, the cache of its draft
    /// model at four, both for the configured context length.
    pub fn estimate_request(&self) -> (request: EstimateRequest)
        ensures
            request.context_tokens == tokens_counted(self.params_value().context_tokens()),
            request.model_quant == KvQuant::Int8,
            request.draft_quant == KvQuant::Q4,
    {
        let size = self.params.context_size();
        let context_tokens: usize = if size >= 0 {
            size as usize
        } else {
            usize::MAX - ((-(size as i64) - 1) as usize)
        };
        EstimateRequest { context_tokens, model_quant: KvQuant::Int8, draft_quant: KvQuant::Q4 }
    }

    /// A copy of the configuration.
    pub fn duplicate(&self) -> (r: ModelConfig)
        ensures
            r == *self,
    {
        ModelConfig {
            file: self.file.clone(),
            params: self.params.duplicate(),
            draft: match &self.draft {
                Some(d) => Some(d.duplicate()),
                None => None,
            },
        }
    }
}

impl Default for ModelConfig {
    fn default() -> (r: ModelConfig)
        ensures
            r.file_name() == Seq::<char>::empty(),
            r.draft_value() is None,
    {
        ModelConfig { file: String::new(), params: ModelParams::default(), draft: None }
    }
}

/// Where the containers come from.
#[derive(Clone, Debug, PartialEq, Eq)]
pub struct DockerConfig {
    image: String,
    volume_mount: String,
    network_name: String,
}

impl DockerConfig {
    pub closed spec fn image_name(&self) -> Seq<char> {
        self.image@
    }

    pub closed spec fn volume_mount_path(&self) -> Seq<char> {
        self.volume_mount@
    }

    pub closed spec fn network(&self) -> Seq<char> {
        self.network_name@
    }

    /// A configuration with the given image, mount and network.
    pub fn new(image: String, volume_mount: String, network_name: String) -> (r: DockerConfig)
        ensures
            r.image_name() == image@,
            r.volume_mount_path() == volume_mount@,
            r.network() == network_name@,
    {
        DockerConfig { image, volume_mount, network_name }
    }
}

impl Default for DockerConfig {
    fn default() -> (r: DockerConfig)
        ensures
            r.image_name() == "ghcr.io/ggml-org/llama.cpp:server-rocm"@,
            r.volume_mount_path() == "/path/to/models"@,
            r.network() == "llm-network"@,
    {
        DockerConfig {
            image: String::from_str("ghcr.io/ggml-org/llama.cpp:server-rocm"),
            volume_mount: String::from_str("/path/to/models"),
            network_name: String::from_str("llm-network"),
        }
    }
}

/// A model of the configuration under its name.
#[derive(Clone, Debug, PartialEq, Eq)]
pub struct NamedModel {
    pub name: String,
    pub config: ModelConfig,
}

/// What the estimator found for the files of one model, in megabytes:
/// nothing for a file that could not be read or estimated.
#[derive(Clone, Copy, Debug, PartialEq, Eq)]
pub struct FileEstimates {
    pub model: Option<u64>,
    pub draft: Option<u64>,
}

/// The memory that a model is taken to need. A model whose file could not
/// be estimated is taken to need more than any device has, so that it is
/// never admitted; a draft model adds what it needs, and nothing where that
/// is not known.
pub open spec fn memory_needed(has_draft: bool, estimates: FileEstimates) -> u64 {
    let model: int = match estimates.model {
        Some(mb) => mb as int,
        None => u64::MAX as int,
    };
    let draft: int = if has_draft && estimates.draft is Some {
        estimates.draft->0 as int
    } else {
        0
    };
    if model + draft > u64::MAX {
        u64::MAX
    } else {
        (model + draft) as u64
    }
}

/// The name of the container that serves the model `model_name`.
pub open spec fn container_name_of(model_name: Seq<char>) -> Seq<char> {
    "llm_"@ + model_name
}

/// The whole configuration.
#[derive(Clone, Debug, PartialEq, Eq)]
pub struct Config {
    docker: DockerConfig,
    models: Vec<NamedModel>,
}

impl Config {
    pub closed spec fn docker_value(&self) -> DockerConfig {
        self.docker
    }

    /// The configured models in the order of the configuration.
    pub closed spec fn entries(&self) -> Seq<NamedModel> {
        self.models@
    }

    /// Where the model named `name` stands first among the entries.
    pub open spec fn position_of(&self, name: Seq<char>) -> Option<int> {
        first_named(self.entries(), name, 0)
    }

    /// A configuration with the given parts.
    pub fn new(docker: DockerConfig, models: Vec<NamedModel>) -> (r: Config)
        ensures
            r.docker_value() == docker,
            r.entries() == models@,
    {
        Config { docker, models }
    }

    /// The configured models.
    pub fn models(&self) -> (r: &Vec<NamedModel>)
        ensures
            r@ == self.entries(),
    {
        &self.models
    }

    pub fn get_docker_image(&self) -> (r: String)
        ensures
            r@ == self.docker_value().image_name(),
    {
        self.docker.image.clone()
    }

    pub fn get_model_path(&self) -> (r: String)
        ensures
            r@ == self.docker_value().volume_mount_path(),
    {
        self.docker.volume_mount.clone()
    }

    pub fn get_docker_network(&self) -> (r: String)
        ensures
            r@ == self.docker_value().network(),
    {
        self.docker.network_name.clone()
    }

    /// The path of a weight file on the host.
    pub fn get_host_model_path(&self, file_name: &str) -> (path: String)
        ensures
            path@ == self.docker_value().volume_mount_path() + "/"@ + file_name@,
    {
        self.docker.volume_mount.clone().concat("/").concat(file_name)
    }

    /// The model that the configuration `model_config` describes under the
    /// name `model_name`, with the memory that it is taken to need.
    pub fn get_model_from_config(
        &self,
        model_name: &str,
        model_config: &ModelConfig,
        estimates: FileEstimates,
    ) -> (model: Model)
        ensures
            model.model_name@ == model_name@,
            model.container_name@ == container_name_of(model_name@),
            model.config == *model_config,
            model.estimated_memory_usage == memory_needed(
                model_config.draft_value() is Some,
                estimates,
            ),
    {
        let container_name = String::from_str("llm_").concat(model_name);
        let draft: u64 = match (&model_config.draft, estimates.draft) {
            (Some(_), Some(mb)) => mb,
            _ => 0,
        };
        let main: u64 = match estimates.model {
            Some(mb) => mb,
            None => u64::MAX,
        };
        let estimated_memory_usage = match main.checked_add(draft) {
            Some(mb) => mb,
            None => u64::MAX,
        };
        Model {
            estimated_memory_usage,
            model_name: String::from_str(model_name),
            container_name,
            config: model_config.duplicate(),
        }
    }

    /// The model named `model_name`, if it is configured.
    pub fn get_model(&self, model_name: &str, estimates: FileEstimates) -> (r: Option<Model>)
        ensures
            match self.position_of(model_name@) {
                Some(i) => r matches Some(model) && model.model_name@ == model_name@
                    && model.container_name@ == container_name_of(model_name@) && model.config
                    == self.entries()[i].config && model.estimated_memory_usage == memory_needed(
                    self.entries()[i].config.draft_value() is Some,
                    estimates,
                ),
                None => r is None,
            },
    {
        let wanted = chars_of(model_name);
        let len = wanted.len();
        assert(wanted@.subrange(0, len as int) == model_name@);
        let mut i: usize = 0;
        while i < self.models.len()
            invariant
                i <= self.models@.len(),
                len == wanted@.len(),
                wanted@.subrange(0, len as int) == model_name@,
                first_named(self.entries(), model_name@, 0) == first_named(
                    self.entries(),
                    model_name@,
                    i as int,
                ),
            decreases self.models@.len() - i,
        {
            if same_text(wanted.as_slice(), 0, len, self.models[i].name.as_str()) {
                let entry = &self.models[i];
                return Some(self.get_model_from_config(model_name, &entry.config, estimates));
            }
            i += 1;
        }
        None
    }

    /// All configured models, in the order of the configuration. The model
    /// at index `i` is given the estimates at index `i`, and none where
    /// `estimates` is shorter.
    pub fn get_all_models(&self, estimates: &[FileEstimates]) -> (all: Vec<Model>)
        ensures
            all@.len() == self.entries().len(),
            forall|i: int|
                0 <= i < all@.len() ==> {
                    let entry = #[trigger] self.entries()[i];
                    let model = all@[i];
                    &&& model.model_name@ == entry.name@
                    &&& model.container_name@ == container_name_of(entry.name@)
                    &&& model.config == entry.config
                    &&& model.estimated_memory_usage == memory_needed(
                        entry.config.draft_value() is Some,
                        estimates_at(estimates@, i),
                    )
                },
    {
        let mut all: Vec<Model> = Vec::new();
        let mut i: usize = 0;
        while i < self.models.len()
            invariant
                i <= self.models@.len(),
                all@.len() == i,
                forall|j: int|
                    0 <= j < i ==> {
                        let entry = #[trigger] self.entries()[j];
                        let model = all@[j];
                        &&& model.model_name@ == entry.name@
                        &&& model.container_name@ == container_name_of(entry.name@)
                        &&& model.config == entry.config
                        &&& model.estimated_memory_usage == memory_needed(
                            entry.config.draft_value() is Some,
                            estimates_at(estimates@, j),
                        )
                    },
            decreases self.models@.len() - i,
        {
            let found = if i < estimates.len() {
                estimates[i]
            } else {
                FileEstimates { model: None, draft: None }
            };
            let entry = &self.models[i];
            all.push(self.get_model_from_config(entry.name.as_str(), &entry.config, found));
            i += 1;
        }
        all
    }
}

/// The estimates for the model at index `i`: none where `estimates` is
/// shorter.
pub open spec fn estimates_at(estimates: Seq<FileEstimates>, i: int) -> FileEstimates {
    if 0 <= i < estimates.len() {
        estimates[i]
    } else {
        FileEstimates { model: None, draft: None }
    }
}

/// The first index from `from` on at which `entries` holds a model named
/// `name`.
pub open spec fn first_named(entries: Seq<NamedModel>, name: Seq<char>, from: int) -> Option<int>
    decreases entries.len() - from,
{
    if from < 0 || from >= entries.len() {
        None
    } else if entries[from].name@ == name {
        Some(from)
    } else {
        first_named(entries, name, from + 1)
    }
}

impl Default for Config {
    /// The configuration that is written out where none is found: one
    /// model with a draft model, as an example to edit.
    fn default() -> (r: Config)
        ensures
            r.docker_value().image_name() == "ghcr.io/ggml-org/llama.cpp:server-rocm"@,
            r.docker_value().volume_mount_path() == "/path/to/models"@,
            r.docker_value().network() == "llm-network"@,
            r.entries().len() == 1,
            r.entries()[0].name@ == "llama-3.1-70b"@,
            r.entries()[0].config.file_name() == "llama-3.1-70b-instruct-Q4_K_M.gguf"@,
            r.entries()[0].config.params_value().cache_type_k_value() == CacheQuantType::Q8_0,
            r.entries()[0].config.params_value().cache_type_v_value() == CacheQuantType::Q8_0,
            r.entries()[0].config.draft_value() matches Some(draft) && draft.file@
                == "llama-3.1-8b-instruct-Q4_K_M.gguf"@ && draft.cache_type_k
                == CacheQuantType::Q4_0 && draft.cache_type_v == CacheQuantType::Q4_0,
    {
        let mut params = ModelParams::default();
        params.cache_type_k = CacheQuantType::Q8_0;
        params.cache_type_v = CacheQuantType::Q8_0;
        let mut models: Vec<NamedModel> = Vec::new();
        models.push(
            NamedModel {
                name: String::from_str("llama-3.1-70b"),
                config: ModelConfig {
                    file: String::from_str("llama-3.1-70b-instruct-Q4_K_M.gguf"),
                    params,
                    draft: Some(
                        DraftModelConfig {
                            file: String::from_str("llama-3.1-8b-instruct-Q4_K_M.gguf"),
                            cache_type_k: CacheQuantType::Q4_0,
                            cache_type_v: CacheQuantType::Q4_0,
                        },
                    ),
                },
            },
        );
        Config { docker: DockerConfig::default(), models }
    }
}

} // verus!
