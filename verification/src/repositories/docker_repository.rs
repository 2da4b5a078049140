//! What the gateway asks of the container host, as far as it can be said
//! without talking to the host: the command line a container is created
//! with, the name under which it is reached, and what its reported health
//! means.

use crate::config::config::{container_path, Config, DraftModelConfig, ModelConfig};
use crate::model::Model;
use crate::text::{push_signed_decimal, signed_decimal};
use vstd::prelude::*;
use vstd::string::StringExecFns;

verus! {

/// The health of a container as the host reports it.
#[derive(Debug, Clone, Copy, PartialEq, Eq)]
pub enum Health {
    Healthy,
    Starting,
    Unhealthy,
    /// The host reports no health for the container.
    Unreported,
}

impl Default for Health {
    fn default() -> (r: Health)
        ensures
            r == Health::Unreported,
    {
        Health::Unreported
    }
}

/// The container's side of the gateway. It holds no connection: the
/// questions that need the host are asked by the caller, and their answers
/// are read here.
#[derive(Debug, Clone, PartialEq, Eq)]
pub struct DockerRepository {
    config: Config,
}

/// A device of the host that a container is given.
#[derive(Debug, Clone, PartialEq, Eq)]
pub struct DeviceMapping {
    pub path_on_host: String,
    pub path_in_container: String,
    pub cgroup_permissions: String,
}

/// Everything that the host is told when a model's container is created.
#[derive(Debug, Clone, PartialEq, Eq)]
pub struct ContainerSpec {
    /// The container's name.
    pub name: String,
    /// The image that the container runs.
    pub image: String,
    /// The command line of the inference server.
    pub cmd: Vec<String>,
    /// The port that the container exposes, with its protocol.
    pub exposed_port: String,
    /// The port of the host that the exposed port is bound to.
    pub host_port: String,
    /// The address of the host that the exposed port is bound to.
    pub host_ip: String,
    /// Whether the host restarts the container by itself.
    pub restart: bool,
    pub security_opt: Vec<String>,
    pub group_add: Vec<String>,
    pub devices: Vec<DeviceMapping>,
    /// The directory of the host that holds the weight files.
    pub mount_source: String,
    /// Where the container finds that directory.
    pub mount_target: String,
    /// The network that the container is attached to.
    pub network: String,
}

/// The two devices through which a container reaches the graphics card.
pub open spec fn is_gpu_devices(devices: Seq<DeviceMapping>) -> bool {
    &&& devices.len() == 2
    &&& devices[0].path_on_host@ == "/dev/dri"@
    &&& devices[0].path_in_container@ == "/dev/dri"@
    &&& devices[0].cgroup_permissions@ == "rwm"@
    &&& devices[1].path_on_host@ == "/dev/kfd"@
    &&& devices[1].path_in_container@ == "/dev/kfd"@
    &&& devices[1].cgroup_permissions@ == "rwm"@
}

/// The texts of a sequence of strings.
pub open spec fn texts(strings: Seq<String>) -> Seq<Seq<char>> {
    Seq::new(strings.len(), |i: int| strings[i]@)
}

/// An option of the command line with its value: the option alone where
/// the value is empty.
pub open spec fn option_with(key: Seq<char>, value: Seq<char>) -> Seq<Seq<char>> {
    if value.len() == 0 {
        seq![key]
    } else {
        seq![key, value]
    }
}

/// The part of the command line that selects a draft model.
pub open spec fn draft_options(draft: Option<DraftModelConfig>) -> Seq<Seq<char>> {
    match draft {
        Some(d) => seq![
            "--model-draft"@,
            container_path(d.file@),
            "--cache-type-k-draft"@,
            d.cache_type_k.name(),
            "--cache-type-v-draft"@,
            d.cache_type_v.name(),
        ],
        None => Seq::empty(),
    }
}

/// The command line of the inference server for `config`: the model's
/// path, the address and port to listen on, the number of threads, the
/// context length, the sampling parameters, the quantisation of the two
/// caches, flash attention, no memory mapping; then the template switch
/// where it is set, and the draft model where there is one.
pub open spec fn command_of(config: ModelConfig) -> Seq<Seq<char>> {
    let params = config.params_value();
    option_with("-m"@, container_path(config.file_name())) + option_with("--host"@, "0.0.0.0"@)
        + option_with("--port"@, "8080"@) + option_with("--threads"@, "32"@) + option_with(
        "--ctx-size"@,
        signed_decimal(params.context_tokens() as int),
    ) + option_with("--temp"@, params.temperature_text()) + option_with(
        "--top-k"@,
        signed_decimal(params.top_k_value() as int),
    ) + option_with("--top-p"@, params.top_p_text()) + option_with(
        "--min-p"@,
        params.min_p_text(),
    ) + option_with("--repeat-penalty"@, params.repetition_penalty_text()) + option_with(
        "--cache-type-k"@,
        params.cache_type_k_value().name(),
    ) + option_with("--cache-type-v"@, params.cache_type_v_value().name()) + option_with(
        "--flash-attn"@,
        if params.flash_attention_value() {
            "on"@
        } else {
            "off"@
        },
    ) + seq!["--no-mmap"@] + if params.jinja_value() {
        seq!["--jinja"@]
    } else {
        Seq::empty()
    } + draft_options(config.draft_value())
}

/// Appends an option and its value to a command line.
fn push_option(cmd: &mut Vec<String>, key: &str, value: &str)
    ensures
        texts(final(cmd)@) == texts(old(cmd)@) + option_with(key@, value@),
{
    cmd.push(String::from_str(key));
    if value.unicode_len() != 0 {
        cmd.push(String::from_str(value));
    }
    assert(texts(cmd@) =~= texts(old(cmd)@) + option_with(key@, value@));
}

/// Appends one word to a command line.
fn push_word(cmd: &mut Vec<String>, word: String)
    ensures
        texts(final(cmd)@) == texts(old(cmd)@) + seq![word@],
{
    cmd.push(word);
    assert(texts(cmd@) =~= texts(old(cmd)@) + seq![word@]);
}

/// The decimal text of a number.
fn number_text(v: i32) -> (text: String)
    ensures
        text@ == signed_decimal(v as int),
{
    let mut text = String::new();
    push_signed_decimal(&mut text, v as i64);
    assert(Seq::<char>::empty() + signed_decimal(v as int) =~= signed_decimal(v as int));
    text
}

/// A device that the container sees under the path it has on the host,
/// with the right to read, write and create it.
fn device(path: &str) -> (d: DeviceMapping)
    ensures
        d.path_on_host@ == path@,
        d.path_in_container@ == path@,
        d.cgroup_permissions@ == "rwm"@,
{
    DeviceMapping {
        path_on_host: String::from_str(path),
        path_in_container: String::from_str(path),
        cgroup_permissions: String::from_str("rwm"),
    }
}

impl DockerRepository {
    /// The configuration that containers are created from.
    pub closed spec fn configuration(&self) -> Config {
        self.config
    }

    pub fn new(config: Config) -> (r: DockerRepository)
        ensures
            r.configuration() == config,
    {
        DockerRepository { config }
    }

    /// What the host is told to create the model's container: the image
    /// and network of the configuration, the server's command line, port
    /// 8080 bound to the same port of the host on every address, no restart
    /// by the host, the graphics devices, and the directory of the weight
    /// files mounted at `/models`.
    pub fn create_server_container(&self, model: &Model) -> (spec: ContainerSpec)
        ensures
            spec.name@ == model.container_name@,
            spec.image@ == self.configuration().docker_value().image_name(),
            texts(spec.cmd@) == command_of(model.config),
            spec.exposed_port@ == "8080/tcp"@,
            spec.host_port@ == "8080"@,
            spec.host_ip@ == "0.0.0.0"@,
            !spec.restart,
            texts(spec.security_opt@) == seq!["seccomp:unconfined"@],
            texts(spec.group_add@) == seq!["video"@],
            is_gpu_devices(spec.devices@),
            spec.mount_source@ == self.configuration().docker_value().volume_mount_path(),
            spec.mount_target@ == "/models"@,
            spec.network@ == self.configuration().docker_value().network(),
    {
        let mut security_opt: Vec<String> = Vec::new();
        security_opt.push(String::from_str("seccomp:unconfined"));
        assert(texts(security_opt@) =~= seq!["seccomp:unconfined"@]);
        let mut group_add: Vec<String> = Vec::new();
        group_add.push(String::from_str("video"));
        assert(texts(group_add@) =~= seq!["video"@]);
        let mut devices: Vec<DeviceMapping> = Vec::new();
        devices.push(device("/dev/dri"));
        devices.push(device("/dev/kfd"));
        ContainerSpec {
            name: model.container_name.clone(),
            image: self.config.get_docker_image(),
            cmd: self.server_command(model),
            exposed_port: String::from_str("8080/tcp"),
            host_port: String::from_str("8080"),
            host_ip: String::from_str("0.0.0.0"),
            restart: false,
            security_opt,
            group_add,
            devices,
            mount_source: self.config.get_model_path(),
            mount_target: String::from_str("/models"),
            network: self.config.get_docker_network(),
        }
    }

    /// The name and port under which the model's server is reached.
    pub fn get_hostname(&self, model: &Model) -> (hostname: String)
        ensures
            hostname@ == model.container_name@ + ":8080"@,
    {
        model.container_name.clone().concat(":8080")
    }

    /// The command line that the model's container is created with.
    pub fn server_command(&self, model: &Model) -> (cmd: Vec<String>)
        ensures
            texts(cmd@) == command_of(model.config),
    {
        let params = model.config.params();
        let mut cmd: Vec<String> = Vec::new();
        assert(texts(cmd@) =~= Seq::empty());
        let path = model.config.container_model_path();
        push_option(&mut cmd, "-m", path.as_str());
        push_option(&mut cmd, "--host", "0.0.0.0");
        push_option(&mut cmd, "--port", "8080");
        push_option(&mut cmd, "--threads", "32");
        let ctx_size = number_text(params.context_size());
        push_option(&mut cmd, "--ctx-size", ctx_size.as_str());
        push_option(&mut cmd, "--temp", params.temperature());
        let top_k = number_text(params.top_k());
        push_option(&mut cmd, "--top-k", top_k.as_str());
        push_option(&mut cmd, "--top-p", params.top_p());
        push_option(&mut cmd, "--min-p", params.min_p());
        push_option(&mut cmd, "--repeat-penalty", params.repetition_penalty());
        push_option(&mut cmd, "--cache-type-k", params.cache_type_k().as_str());
        push_option(&mut cmd, "--cache-type-v", params.cache_type_v().as_str());
        let flash_attn = if params.flash_attention() {
            "on"
        } else {
            "off"
        };
        push_option(&mut cmd, "--flash-attn", flash_attn);
        push_word(&mut cmd, String::from_str("--no-mmap"));
        let ghost fixed = texts(cmd@);
        if params.jinja() {
            push_word(&mut cmd, String::from_str("--jinja"));
        }
        let ghost switched = texts(cmd@);
        assert(switched =~= fixed + if params.jinja_value() {
            seq!["--jinja"@]
        } else {
            Seq::empty()
        });
        match model.config.draft() {
            Some(draft) => {
                push_word(&mut cmd, String::from_str("--model-draft"));
                push_word(&mut cmd, String::from_str("/models/").concat(draft.file.as_str()));
                push_word(&mut cmd, String::from_str("--cache-type-k-draft"));
                push_word(&mut cmd, draft.cache_type_k.to_string());
                push_word(&mut cmd, String::from_str("--cache-type-v-draft"));
                push_word(&mut cmd, draft.cache_type_v.to_string());
                assert(texts(cmd@) =~= switched + draft_options(model.config.draft_value()));
            },
            None => {
                assert(texts(cmd@) =~= switched + draft_options(model.config.draft_value()));
            },
        }
        assert(texts(cmd@) =~= command_of(model.config));
        cmd
    }

    /// Whether a container of this health is running: it is while it
    /// starts and while it is healthy.
    pub fn is_running(&self, health: Health) -> (running: bool)
        ensures
            running == (health == Health::Healthy || health == Health::Starting),
    {
        matches!(health, Health::Healthy | Health::Starting)
    }

    /// Whether a container of this health can serve requests.
    pub fn is_healthy(&self, health: Health) -> (healthy: bool)
        ensures
            healthy == (health == Health::Healthy),
    {
        matches!(health, Health::Healthy)
    }
}

} // verus!
