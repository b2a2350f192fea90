//! The data a job carries: what the orchestrator asks for and what an
//! execution hands back.

use vstd::prelude::*;

verus! {

/// The text of an optional string.
pub open spec fn opt_text(o: Option<String>) -> Option<Seq<char>> {
    match o {
        Some(s) => Some(s@),
        None => None,
    }
}

/// The texts of a list of strings, in order.
pub open spec fn texts(v: Seq<String>) -> Seq<Seq<char>> {
    v.map_values(|s: String| s@)
}

/// Four independent byte caps: how much of each stream is kept, and how much
/// of it is returned inline with the result.
#[derive(Clone, Copy, Debug, PartialEq, Eq, Structural)]
pub struct OutputLimits {
    pub max_stdout_file_length: u64,
    pub max_stdout_return_length: u64,
    pub max_stderr_file_length: u64,
    pub max_stderr_return_length: u64,
}

impl OutputLimits {
    /// Limits that never cut anything.
    pub fn unlimited() -> (r: Self)
        ensures
            r.max_stdout_file_length == u64::MAX,
            r.max_stdout_return_length == u64::MAX,
            r.max_stderr_file_length == u64::MAX,
            r.max_stderr_return_length == u64::MAX,
    {
        OutputLimits {
            max_stdout_file_length: u64::MAX,
            max_stdout_return_length: u64::MAX,
            max_stderr_file_length: u64::MAX,
            max_stderr_return_length: u64::MAX,
        }
    }
}

/// A volume as the backend mounts it.
#[derive(Debug)]
pub struct StorageVolume {
    pub kind: i32,
    pub read_only: bool,
    pub source: String,
    pub target: String,
}

/// The model of a [`StorageVolume`].
pub struct StorageVolumeView {
    pub kind: int,
    pub read_only: bool,
    pub source: Seq<char>,
    pub target: Seq<char>,
}

impl View for StorageVolume {
    type V = StorageVolumeView;

    open spec fn view(&self) -> StorageVolumeView {
        StorageVolumeView {
            kind: self.kind as int,
            read_only: self.read_only,
            source: self.source@,
            target: self.target@,
        }
    }
}

/// An engine- or source-specific configuration, known here only by its type.
#[derive(Debug)]
pub struct SpecConfig {
    pub kind: String,
}

/// The model of a [`SpecConfig`].
pub struct SpecConfigView {
    pub kind: Seq<char>,
}

impl View for SpecConfig {
    type V = SpecConfigView;

    open spec fn view(&self) -> SpecConfigView {
        SpecConfigView { kind: self.kind@ }
    }
}

/// Where an input comes from and where the job expects it.
#[derive(Debug)]
pub struct InputSource {
    pub source: SpecConfig,
    pub alias: String,
    pub target: String,
}

/// The model of an [`InputSource`].
pub struct InputSourceView {
    pub source: SpecConfigView,
    pub alias: Seq<char>,
    pub target: Seq<char>,
}

impl View for InputSource {
    type V = InputSourceView;

    open spec fn view(&self) -> InputSourceView {
        InputSourceView { source: self.source@, alias: self.alias@, target: self.target@ }
    }
}

/// An input bound to the volume that holds it.
#[derive(Debug)]
pub struct PreparedStorage {
    pub input_source: InputSource,
    pub volume: StorageVolume,
}

/// The model of a [`PreparedStorage`].
pub struct PreparedStorageView {
    pub input_source: InputSourceView,
    pub volume: StorageVolumeView,
}

impl View for PreparedStorage {
    type V = PreparedStorageView;

    open spec fn view(&self) -> PreparedStorageView {
        PreparedStorageView { input_source: self.input_source@, volume: self.volume@ }
    }
}

/// A named output and its path below the results directory.
#[derive(Debug)]
pub struct ResultPath {
    pub name: String,
    pub path: String,
}

/// The model of a [`ResultPath`].
pub struct ResultPathView {
    pub name: Seq<char>,
    pub path: Seq<char>,
}

impl View for ResultPath {
    type V = ResultPathView;

    open spec fn view(&self) -> ResultPathView {
        ResultPathView { name: self.name@, path: self.path@ }
    }
}

/// What a job needs of the node. The processor share is held in thousandths
/// of a core, the other three in bytes and in whole devices.
#[derive(Clone, Copy, Debug, PartialEq, Eq, Structural)]
pub struct Resources {
    pub cpu_millis: u64,
    pub memory: u64,
    pub disk: u64,
    pub gpu: u64,
}

/// The network mode in which a job runs without any network.
pub const NETWORK_NONE: i32 = 0;

/// The network mode in which a job shares the host's network.
pub const NETWORK_HOST: i32 = 1;

/// The network mode in which a job sits behind the backend's bridge.
pub const NETWORK_BRIDGE: i32 = 2;

/// The network mode in which a job reaches only the listed domains.
pub const NETWORK_ALLOW_LIST: i32 = 3;

/// The network a job asks for.
#[derive(Debug)]
pub struct NetworkConfig {
    pub kind: i32,
    pub domains: Vec<String>,
}

/// The model of a [`NetworkConfig`].
pub struct NetworkConfigView {
    pub kind: int,
    pub domains: Seq<Seq<char>>,
}

impl View for NetworkConfig {
    type V = NetworkConfigView;

    open spec fn view(&self) -> NetworkConfigView {
        NetworkConfigView { kind: self.kind as int, domains: texts(self.domains@) }
    }
}

/// The model of an optional [`NetworkConfig`].
pub open spec fn opt_network(o: Option<NetworkConfig>) -> Option<NetworkConfigView> {
    match o {
        Some(n) => Some(n@),
        None => None,
    }
}

/// The model of an optional [`SpecConfig`].
pub open spec fn opt_config(o: Option<SpecConfig>) -> Option<SpecConfigView> {
    match o {
        Some(c) => Some(c@),
        None => None,
    }
}

/// The model of an optional list of outputs.
pub open spec fn opt_outputs(o: Option<Vec<ResultPath>>) -> Option<Seq<ResultPathView>> {
    match o {
        Some(v) => Some(v@.map_values(|p: ResultPath| p@)),
        None => None,
    }
}

/// The model of an optional list of inputs.
pub open spec fn opt_inputs(o: Option<Vec<PreparedStorage>>) -> Option<Seq<PreparedStorageView>> {
    match o {
        Some(v) => Some(v@.map_values(|p: PreparedStorage| p@)),
        None => None,
    }
}

/// A job as the orchestrator submits it.
#[derive(Debug)]
pub struct RunCommandRequest {
    pub job_id: Option<String>,
    pub execution_id: String,
    pub resources: Option<Resources>,
    pub network: Option<NetworkConfig>,
    pub outputs: Option<Vec<ResultPath>>,
    pub inputs: Option<Vec<PreparedStorage>>,
    pub results_dir: Option<String>,
    pub engine_params: Option<SpecConfig>,
    pub output_limits: Option<OutputLimits>,
}

/// The model of a [`RunCommandRequest`].
pub struct RunCommandRequestView {
    pub job_id: Option<Seq<char>>,
    pub execution_id: Seq<char>,
    pub resources: Option<Resources>,
    pub network: Option<NetworkConfigView>,
    pub outputs: Option<Seq<ResultPathView>>,
    pub inputs: Option<Seq<PreparedStorageView>>,
    pub results_dir: Option<Seq<char>>,
    pub engine_params: Option<SpecConfigView>,
    pub output_limits: Option<OutputLimits>,
}

impl View for RunCommandRequest {
    type V = RunCommandRequestView;

    open spec fn view(&self) -> RunCommandRequestView {
        RunCommandRequestView {
            job_id: opt_text(self.job_id),
            execution_id: self.execution_id@,
            resources: self.resources,
            network: opt_network(self.network),
            outputs: opt_outputs(self.outputs),
            inputs: opt_inputs(self.inputs),
            results_dir: opt_text(self.results_dir),
            engine_params: opt_config(self.engine_params),
            output_limits: self.output_limits,
        }
    }
}

impl RunCommandRequest {
    /// A job that asks for nothing but its identifier.
    pub fn new(execution_id: String) -> (r: Self)
        ensures
            r@ == (RunCommandRequestView {
                job_id: None,
                execution_id: execution_id@,
                resources: None,
                network: None,
                outputs: None,
                inputs: None,
                results_dir: None,
                engine_params: None,
                output_limits: None,
            }),
    {
        RunCommandRequest {
            job_id: None,
            execution_id,
            resources: None,
            network: None,
            outputs: None,
            inputs: None,
            results_dir: None,
            engine_params: None,
            output_limits: None,
        }
    }
}

/// The terminal snapshot of one execution.
#[derive(Debug)]
pub struct RunCommandResponse {
    pub stdout: String,
    pub stdout_truncated: bool,
    pub stderr: String,
    pub stderr_truncated: bool,
    pub exit_code: i32,
    pub error_msg: Option<String>,
}

/// The model of a [`RunCommandResponse`].
pub struct RunCommandResponseView {
    pub stdout: Seq<char>,
    pub stdout_truncated: bool,
    pub stderr: Seq<char>,
    pub stderr_truncated: bool,
    pub exit_code: int,
    pub error_msg: Option<Seq<char>>,
}

impl View for RunCommandResponse {
    type V = RunCommandResponseView;

    open spec fn view(&self) -> RunCommandResponseView {
        RunCommandResponseView {
            stdout: self.stdout@,
            stdout_truncated: self.stdout_truncated,
            stderr: self.stderr@,
            stderr_truncated: self.stderr_truncated,
            exit_code: self.exit_code as int,
            error_msg: opt_text(self.error_msg),
        }
    }
}

/// The model of the response that carries nothing.
pub open spec fn empty_response() -> RunCommandResponseView {
    RunCommandResponseView {
        stdout: Seq::empty(),
        stdout_truncated: false,
        stderr: Seq::empty(),
        stderr_truncated: false,
        exit_code: 0,
        error_msg: None,
    }
}

impl Default for RunCommandResponse {
    fn default() -> (r: Self)
        ensures
            r@ == empty_response(),
    {
        RunCommandResponse {
            stdout: String::new(),
            stdout_truncated: false,
            stderr: String::new(),
            stderr_truncated: false,
            exit_code: 0,
            error_msg: None,
        }
    }
}

impl Clone for RunCommandResponse {
    fn clone(&self) -> (r: Self)
        ensures
            r@ == self@,
    {
        let error_msg = match &self.error_msg {
            Some(m) => Some(m.clone()),
            None => None,
        };
        RunCommandResponse {
            stdout: self.stdout.clone(),
            stdout_truncated: self.stdout_truncated,
            stderr: self.stderr.clone(),
            stderr_truncated: self.stderr_truncated,
            exit_code: self.exit_code,
            error_msg,
        }
    }
}

impl RunCommandResponse {
    /// A response with no output, exit code zero and no error.
    pub fn new() -> (r: Self)
        ensures
            r@ == empty_response(),
    {
        RunCommandResponse {
            stdout: String::new(),
            stdout_truncated: false,
            stderr: String::new(),
            stderr_truncated: false,
            exit_code: 0,
            error_msg: None,
        }
    }

    /// The same response with its exit code replaced.
    pub fn with_exit_code(self, code: i32) -> (r: Self)
        ensures
            r@ == (RunCommandResponseView { exit_code: code as int, ..self@ }),
    {
        let mut r = self;
        r.exit_code = code;
        r
    }

    /// The same response with its error message replaced.
    pub fn with_error(self, err: String) -> (r: Self)
        ensures
            r@ == (RunCommandResponseView { error_msg: Some(err@), ..self@ }),
    {
        let mut r = self;
        r.error_msg = Some(err);
        r
    }
}

} // verus!
