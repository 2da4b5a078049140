use llm_gateway::config::config::{
    CacheQuantType, Config, DockerConfig, DraftModelConfig, FileEstimates, ModelConfig,
    ModelParams, NamedModel,
};
use llm_gateway::config::context_size::ContextSize;
use llm_gateway::model::Model;
use llm_gateway::repositories::docker_repository::{DockerRepository, Health};
use llm_gateway::services::vram_estimator::KvQuant;

#[test]
fn cache_types_have_names() {
    let all = [
        (CacheQuantType::F32, "f32"),
        (CacheQuantType::F16, "f16"),
        (CacheQuantType::Bf16, "bf16"),
        (CacheQuantType::Q8_0, "q8_0"),
        (CacheQuantType::Q4_0, "q4_0"),
        (CacheQuantType::Q4_1, "q4_1"),
        (CacheQuantType::Iq4Nl, "iq4_nl"),
        (CacheQuantType::Q5_0, "q5_0"),
        (CacheQuantType::Q5_1, "q5_1"),
    ];
    for (t, name) in all {
        assert_eq!(t.to_string(), name);
        assert_eq!(t.as_str(), name);
        assert_eq!(CacheQuantType::from_str(name), Ok(t));
    }
    assert_eq!(
        CacheQuantType::from_str("q9"),
        Err("Invalid cache type: q9".to_string())
    );
    assert_eq!(CacheQuantType::from_str("F16"), Err("Invalid cache type: F16".to_string()));
    assert_eq!(CacheQuantType::default(), CacheQuantType::F16);
}

#[test]
fn default_configuration_holds_one_model() {
    let config = Config::default();
    assert_eq!(config.get_docker_image(), "ghcr.io/ggml-org/llama.cpp:server-rocm");
    assert_eq!(config.get_model_path(), "/path/to/models");
    assert_eq!(config.get_docker_network(), "llm-network");
    assert_eq!(config.models().len(), 1);
    assert_eq!(config.models()[0].name, "llama-3.1-70b");
    let model = &config.models()[0].config;
    assert_eq!(model.file(), "llama-3.1-70b-instruct-Q4_K_M.gguf");
    assert_eq!(model.container_model_path(), "/models/llama-3.1-70b-instruct-Q4_K_M.gguf");
    assert_eq!(*model.params().cache_type_k(), CacheQuantType::Q8_0);
    assert_eq!(*model.params().cache_type_v(), CacheQuantType::Q8_0);
    let draft = model.draft().unwrap();
    assert_eq!(draft.file, "llama-3.1-8b-instruct-Q4_K_M.gguf");
    assert_eq!(draft.cache_type_k, CacheQuantType::Q4_0);
    assert_eq!(draft.cache_type_v, CacheQuantType::Q4_0);
    assert_eq!(
        config.get_host_model_path("a.gguf"),
        "/path/to/models/a.gguf"
    );
}

#[test]
fn default_parameters() {
    let params = ModelParams::default();
    assert_eq!(params.context_size(), 0);
    assert_eq!(params.temperature(), "0.8");
    assert_eq!(params.top_k(), 40);
    assert_eq!(params.top_p(), "0.9");
    assert_eq!(params.min_p(), "0.1");
    assert_eq!(params.repetition_penalty(), "1");
    assert_eq!(*params.cache_type_k(), CacheQuantType::F16);
    assert_eq!(*params.cache_type_v(), CacheQuantType::F16);
    assert!(!params.flash_attention());
    assert!(!params.jinja());
    assert_eq!(params.duplicate(), params);
}

fn estimates(model: Option<u64>, draft: Option<u64>) -> FileEstimates {
    FileEstimates { model, draft }
}

#[test]
fn models_are_found_by_name() {
    let config = Config::default();
    let found = config.get_model("llama-3.1-70b", estimates(Some(40_000), Some(5_000))).unwrap();
    assert_eq!(found.model_name, "llama-3.1-70b");
    assert_eq!(found.container_name, "llm_llama-3.1-70b");
    assert_eq!(found.estimated_memory_usage, 45_000);
    assert_eq!(found.config, config.models()[0].config);
    assert!(config.get_model("llama", estimates(Some(1), None)).is_none());
    assert!(config.get_model("", estimates(Some(1), None)).is_none());
}

#[test]
fn memory_of_a_model_includes_its_draft() {
    let config = Config::default();
    let with_draft = &config.models()[0].config;
    let plain = ModelConfig::default();
    let need = |c: &ModelConfig, e: FileEstimates| {
        config.get_model_from_config("m", c, e).estimated_memory_usage
    };
    assert_eq!(need(with_draft, estimates(Some(10), Some(3))), 13);
    assert_eq!(need(with_draft, estimates(Some(10), None)), 10);
    assert_eq!(need(with_draft, estimates(None, Some(3))), u64::MAX);
    assert_eq!(need(with_draft, estimates(None, None)), u64::MAX);
    assert_eq!(need(with_draft, estimates(Some(u64::MAX - 1), Some(3))), u64::MAX);
    assert_eq!(need(&plain, estimates(Some(10), Some(3))), 10);
    assert_eq!(need(&plain, estimates(None, Some(3))), u64::MAX);
}

#[test]
fn all_models_come_in_the_order_of_the_configuration() {
    let entry = |name: &str| NamedModel { name: name.to_string(), config: ModelConfig::default() };
    let config = Config::new(DockerConfig::default(), vec![entry("b"), entry("a"), entry("c")]);
    let all = config.get_all_models(&[estimates(Some(1), None), estimates(Some(2), None)]);
    let names: Vec<&str> = all.iter().map(|m| m.model_name.as_str()).collect();
    assert_eq!(names, vec!["b", "a", "c"]);
    let needs: Vec<u64> = all.iter().map(|m| m.estimated_memory_usage).collect();
    assert_eq!(needs, vec![1, 2, u64::MAX]);
    assert_eq!(all[1].container_name, "llm_a");
}

fn served(params: ModelParams, draft: Option<DraftModelConfig>) -> Model {
    Config::default().get_model_from_config(
        "m",
        &ModelConfig::new("weights.gguf".to_string(), params, draft),
        estimates(Some(1), None),
    )
}

#[test]
fn command_line_of_a_plain_model() {
    let model = served(ModelParams::default(), None);
    assert_eq!(
        DockerRepository::new(Config::default()).server_command(&model),
        vec![
            "-m", "/models/weights.gguf", "--host", "0.0.0.0", "--port", "8080", "--threads",
            "32", "--ctx-size", "0", "--temp", "0.8", "--top-k", "40", "--top-p", "0.9",
            "--min-p", "0.1", "--repeat-penalty", "1", "--cache-type-k", "f16",
            "--cache-type-v", "f16", "--flash-attn", "off", "--no-mmap",
        ]
    );
}

#[test]
fn command_line_with_every_switch() {
    let params = ModelParams::new(
        ContextSize::new(32768),
        "0.25".to_string(),
        -3,
        String::new(),
        "0.05".to_string(),
        "1.1".to_string(),
        CacheQuantType::Q8_0,
        CacheQuantType::Iq4Nl,
        true,
        true,
    );
    let draft = DraftModelConfig {
        file: "small.gguf".to_string(),
        cache_type_k: CacheQuantType::Q4_0,
        cache_type_v: CacheQuantType::Q5_1,
    };
    let model = served(params, Some(draft));
    assert_eq!(
        DockerRepository::new(Config::default()).server_command(&model),
        vec![
            "-m", "/models/weights.gguf", "--host", "0.0.0.0", "--port", "8080", "--threads",
            "32", "--ctx-size", "32768", "--temp", "0.25", "--top-k", "-3", "--top-p",
            "--min-p", "0.05", "--repeat-penalty", "1.1", "--cache-type-k", "q8_0",
            "--cache-type-v", "iq4_nl", "--flash-attn", "on", "--no-mmap", "--jinja",
            "--model-draft", "/models/small.gguf", "--cache-type-k-draft", "q4_0",
            "--cache-type-v-draft", "q5_1",
        ]
    );
}

#[test]
fn hostname_is_the_container_and_the_port() {
    let model = served(ModelParams::default(), None);
    assert_eq!(DockerRepository::new(Config::default()).get_hostname(&model), "llm_m:8080");
}

#[test]
fn health_tells_running_and_healthy() {
    let host = DockerRepository::new(Config::default());
    assert!(host.is_running(Health::Healthy));
    assert!(host.is_running(Health::Starting));
    assert!(!host.is_running(Health::Unhealthy));
    assert!(!host.is_running(Health::Unreported));
    assert!(host.is_healthy(Health::Healthy));
    assert!(!host.is_healthy(Health::Starting));
    assert!(!host.is_healthy(Health::Unhealthy));
    assert!(!host.is_healthy(Health::Unreported));
    assert_eq!(Health::default(), Health::Unreported);
}

#[test]
fn container_is_created_from_the_configuration() {
    let docker = DockerConfig::new(
        "image:tag".to_string(),
        "/srv/weights".to_string(),
        "net".to_string(),
    );
    let host = DockerRepository::new(Config::new(docker, Vec::new()));
    let model = served(ModelParams::default(), None);
    let spec = host.create_server_container(&model);
    assert_eq!(spec.name, "llm_m");
    assert_eq!(spec.image, "image:tag");
    assert_eq!(spec.cmd, host.server_command(&model));
    assert_eq!(spec.exposed_port, "8080/tcp");
    assert_eq!(spec.host_port, "8080");
    assert_eq!(spec.host_ip, "0.0.0.0");
    assert!(!spec.restart);
    assert_eq!(spec.security_opt, vec!["seccomp:unconfined"]);
    assert_eq!(spec.group_add, vec!["video"]);
    assert_eq!(spec.devices.len(), 2);
    assert_eq!(spec.devices[0].path_on_host, "/dev/dri");
    assert_eq!(spec.devices[0].path_in_container, "/dev/dri");
    assert_eq!(spec.devices[0].cgroup_permissions, "rwm");
    assert_eq!(spec.devices[1].path_on_host, "/dev/kfd");
    assert_eq!(spec.devices[1].path_in_container, "/dev/kfd");
    assert_eq!(spec.devices[1].cgroup_permissions, "rwm");
    assert_eq!(spec.mount_source, "/srv/weights");
    assert_eq!(spec.mount_target, "/models");
    assert_eq!(spec.network, "net");
}

fn with_context(tokens: i32) -> ModelConfig {
    let defaults = ModelParams::default();
    let params = ModelParams::new(
        ContextSize::new(tokens),
        defaults.temperature().to_string(),
        defaults.top_k(),
        defaults.top_p().to_string(),
        defaults.min_p().to_string(),
        defaults.repetition_penalty().to_string(),
        *defaults.cache_type_k(),
        *defaults.cache_type_v(),
        false,
        false,
    );
    ModelConfig::new("weights.gguf".to_string(), params, None)
}

#[test]
fn the_estimator_is_asked_for_the_configured_context() {
    let request = with_context(32768).estimate_request();
    assert_eq!(request.context_tokens, 32768);
    assert_eq!(request.model_quant, KvQuant::Int8);
    assert_eq!(request.draft_quant, KvQuant::Q4);
    assert_eq!(with_context(0).estimate_request().context_tokens, 0);
    assert_eq!(with_context(i32::MAX).estimate_request().context_tokens, 2147483647);
    assert_eq!(with_context(-1).estimate_request().context_tokens, usize::MAX);
    assert_eq!(with_context(-5).estimate_request().context_tokens, -5i32 as usize);
    assert_eq!(with_context(i32::MIN).estimate_request().context_tokens, i32::MIN as usize);
}
