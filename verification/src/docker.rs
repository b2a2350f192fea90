//! What the engine needs to know of the container backend: the credentials it
//! is handed, and the categories its failures fall into.

use crate::btypes::opt_text;
use crate::btypes::texts;
use crate::btypes::RunCommandRequest;
use crate::btypes::RunCommandRequestView;
use crate::btypes::StorageVolume;
use crate::btypes::StorageVolumeView;
use crate::btypes::NETWORK_ALLOW_LIST;
use crate::btypes::NETWORK_BRIDGE;
use crate::btypes::NETWORK_HOST;
use crate::validate::inputs_of;
use vstd::prelude::*;
use vstd::string::StringExecFns;

verus! {

/// A failure of the container backend, by category, with the backend's own
/// words.
#[derive(Debug)]
pub enum DockerError {
    /// The backend could not be reached at all.
    ConnectionFailure(String),
    /// The backend was reached, but fetching the image failed.
    PullError(String),
    /// The container was created or started, then failed.
    ContainerFailure(String),
}

/// The model of a [`DockerError`].
pub enum DockerErrorView {
    ConnectionFailure(Seq<char>),
    PullError(Seq<char>),
    ContainerFailure(Seq<char>),
}

impl DockerErrorView {
    /// The message a failure is reported with: its category, then the
    /// backend's words.
    pub open spec fn text(self) -> Seq<char> {
        match self {
            DockerErrorView::ConnectionFailure(m) => "Failed to connect to docker: "@ + m,
            DockerErrorView::PullError(m) => "Failed to pull image: "@ + m,
            DockerErrorView::ContainerFailure(m) => "Container failed: "@ + m,
        }
    }
}

impl View for DockerError {
    type V = DockerErrorView;

    open spec fn view(&self) -> DockerErrorView {
        match self {
            DockerError::ConnectionFailure(m) => DockerErrorView::ConnectionFailure(m@),
            DockerError::PullError(m) => DockerErrorView::PullError(m@),
            DockerError::ContainerFailure(m) => DockerErrorView::ContainerFailure(m@),
        }
    }
}

impl DockerError {
    /// The message this failure is reported with.
    pub fn message(&self) -> (s: String)
        ensures
            s@ == self@.text(),
    {
        match self {
            DockerError::ConnectionFailure(m) => String::from_str(
                "Failed to connect to docker: ",
            ).concat(m.as_str()),
            DockerError::PullError(m) => String::from_str("Failed to pull image: ").concat(
                m.as_str(),
            ),
            DockerError::ContainerFailure(m) => String::from_str("Container failed: ").concat(
                m.as_str(),
            ),
        }
    }
}

/// What the backend reported when an operation failed: whether it could be
/// reached, and its words.
#[derive(Debug)]
pub struct BackendFault {
    pub unreachable: bool,
    pub message: String,
}

/// The model of a [`BackendFault`].
pub struct BackendFaultView {
    pub unreachable: bool,
    pub message: Seq<char>,
}

impl View for BackendFault {
    type V = BackendFaultView;

    open spec fn view(&self) -> BackendFaultView {
        BackendFaultView { unreachable: self.unreachable, message: self.message@ }
    }
}

/// The model of one report of a pull's progress.
pub open spec fn report_view(r: Result<(), BackendFault>) -> Result<(), BackendFaultView> {
    match r {
        Ok(()) => Ok(()),
        Err(f) => Err(f@),
    }
}

/// The category of a fault met while pulling an image.
pub open spec fn pull_fault(fault: BackendFaultView) -> DockerErrorView {
    if fault.unreachable {
        DockerErrorView::ConnectionFailure(fault.message)
    } else {
        DockerErrorView::PullError(fault.message)
    }
}

/// The outcome of a pull, by its last report.
pub open spec fn pull_outcome(last: Result<(), BackendFaultView>) -> Result<(), DockerErrorView> {
    match last {
        Ok(()) => Ok(()),
        Err(f) => Err(pull_fault(f)),
    }
}

/// The model of a pull's outcome.
pub open spec fn outcome_view(r: Result<(), DockerError>) -> Result<(), DockerErrorView> {
    match r {
        Ok(()) => Ok(()),
        Err(e) => Err(e@),
    }
}

/// Decides how a pull ended from the reports the backend streamed while it
/// ran: the last report settles it. A fault there is a connectivity failure
/// where the backend could not be reached, and a pull failure otherwise.
pub fn pull_result(reports: Vec<Result<(), BackendFault>>) -> (r: Result<(), DockerError>)
    requires
        reports.len() > 0,
    ensures
        outcome_view(r) == pull_outcome(report_view(reports@.last())),
{
    let mut reports = reports;
    match reports.pop() {
        Some(Ok(())) => Ok(()),
        Some(Err(fault)) => {
            if fault.unreachable {
                Err(DockerError::ConnectionFailure(fault.message))
            } else {
                Err(DockerError::PullError(fault.message))
            }
        },
        None => Ok(()),
    }
}

/// The category of a fault met while creating, starting or running a
/// container.
pub fn container_fault(fault: BackendFault) -> (e: DockerError)
    ensures
        e@ == if fault.unreachable {
            DockerErrorView::ConnectionFailure(fault.message@)
        } else {
            DockerErrorView::ContainerFailure(fault.message@)
        },
{
    if fault.unreachable {
        DockerError::ConnectionFailure(fault.message)
    } else {
        DockerError::ContainerFailure(fault.message)
    }
}

/// The credentials handed to the backend with one pull.
#[derive(Debug)]
pub struct Credentials {
    pub username: Option<String>,
    pub password: Option<String>,
}

/// The model of [`Credentials`].
pub struct CredentialsView {
    pub username: Option<Seq<char>>,
    pub password: Option<Seq<char>>,
}

impl View for Credentials {
    type V = CredentialsView;

    open spec fn view(&self) -> CredentialsView {
        CredentialsView { username: opt_text(self.username), password: opt_text(self.password) }
    }
}

/// A copy of an optional string.
fn copy_text(o: &Option<String>) -> (r: Option<String>)
    ensures
        opt_text(r) == opt_text(*o),
{
    match o {
        Some(s) => Some(s.clone()),
        None => None,
    }
}

/// The credentials for one pull: always present, made of copies of the
/// given name and password.
pub fn make_credentials(username: &Option<String>, password: &Option<String>) -> (r: Option<
    Credentials,
>)
    ensures
        r matches Some(c) && c@ == (CredentialsView {
            username: opt_text(*username),
            password: opt_text(*password),
        }),
{
    Some(Credentials { username: copy_text(username), password: copy_text(password) })
}

/// How the container of a job is set up: its mounts, its limits on memory
/// and processor time, its network, and the domains it may reach where its
/// network is a list of allowed domains.
#[derive(Debug)]
pub struct ContainerPlan {
    pub binds: Vec<String>,
    pub memory: i64,
    pub nano_cpus: i64,
    pub network_mode: String,
    pub allowed_domains: Vec<String>,
}

/// The model of a [`ContainerPlan`].
pub struct ContainerPlanView {
    pub binds: Seq<Seq<char>>,
    pub memory: int,
    pub nano_cpus: int,
    pub network_mode: Seq<char>,
    pub allowed_domains: Seq<Seq<char>>,
}

impl View for ContainerPlan {
    type V = ContainerPlanView;

    open spec fn view(&self) -> ContainerPlanView {
        ContainerPlanView {
            binds: texts(self.binds@),
            memory: self.memory as int,
            nano_cpus: self.nano_cpus as int,
            network_mode: self.network_mode@,
            allowed_domains: texts(self.allowed_domains@),
        }
    }
}

/// The mount of a volume as the backend reads it: source, colon, target,
/// and a mark where the volume is read-only.
pub open spec fn bind_text(volume: StorageVolumeView) -> Seq<char> {
    if volume.read_only {
        volume.source + ":"@ + volume.target + ":ro"@
    } else {
        volume.source + ":"@ + volume.target
    }
}

/// The backend's name for a network mode. A list of allowed domains runs
/// behind the bridge; a mode that is not known gets no network.
pub open spec fn network_text(kind: int) -> Seq<char> {
    if kind == NETWORK_HOST {
        "host"@
    } else if kind == NETWORK_BRIDGE || kind == NETWORK_ALLOW_LIST {
        "bridge"@
    } else {
        "none"@
    }
}

/// `x`, or the largest `i64` where `x` is larger.
pub open spec fn capped(x: nat) -> int {
    if x > i64::MAX {
        i64::MAX as int
    } else {
        x as int
    }
}

/// The set-up of the container of `job`: one mount for each input, in
/// order; the memory in bytes and the processor share in billionths of a
/// core, each cut at the largest value the backend takes, and zero, which
/// the backend reads as no limit, where the job names no resources; the
/// network, none where the job names none; and the job's domains where its
/// network is a list of allowed domains, none otherwise.
pub open spec fn plan_of(job: RunCommandRequestView) -> ContainerPlanView {
    ContainerPlanView {
        binds: inputs_of(job).map_values(|p: crate::btypes::PreparedStorageView| bind_text(p.volume)),
        memory: match job.resources {
            Some(r) => capped(r.memory as nat),
            None => 0,
        },
        nano_cpus: match job.resources {
            Some(r) => capped(r.cpu_millis as nat * 1_000_000),
            None => 0,
        },
        network_mode: match job.network {
            Some(n) => network_text(n.kind),
            None => "none"@,
        },
        allowed_domains: match job.network {
            Some(n) => if n.kind == NETWORK_ALLOW_LIST {
                n.domains
            } else {
                Seq::empty()
            },
            None => Seq::empty(),
        },
    }
}

/// The mount of a volume as the backend reads it.
pub fn bind_of(volume: &StorageVolume) -> (s: String)
    ensures
        s@ == bind_text(volume@),
{
    let mut s = volume.source.clone();
    s.append(":");
    s.append(volume.target.as_str());
    if volume.read_only {
        s.append(":ro");
    }
    assert(s@ =~= bind_text(volume@));
    s
}

/// Works out how the container of `job` is set up.
pub fn container_plan(job: &RunCommandRequest) -> (plan: ContainerPlan)
    ensures
        plan@ == plan_of(job@),
{
    let mut binds: Vec<String> = Vec::new();
    match &job.inputs {
        Some(inputs) => {
            let mut i: usize = 0;
            while i < inputs.len()
                invariant
                    0 <= i <= inputs.len(),
                    job.inputs == Some(*inputs),
                    binds@.len() == i,
                    forall|k: int|
                        0 <= k < i ==> (#[trigger] binds@[k])@ == bind_text(inputs@[k]@.volume),
                decreases inputs.len() - i,
            {
                binds.push(bind_of(&inputs[i].volume));
                i = i + 1;
            }
            assert(texts(binds@) =~= inputs_of(job@).map_values(
                |p: crate::btypes::PreparedStorageView| bind_text(p.volume),
            ));
        },
        None => {
            assert(texts(binds@) =~= inputs_of(job@).map_values(
                |p: crate::btypes::PreparedStorageView| bind_text(p.volume),
            ));
        },
    }
    let (memory, nano_cpus): (i64, i64) = match job.resources {
        Some(r) => {
            let memory: i64 = if r.memory > 0x7fff_ffff_ffff_ffff {
                0x7fff_ffff_ffff_ffff
            } else {
                r.memory as i64
            };
            let wide: u128 = r.cpu_millis as u128 * 1_000_000;
            let nano: i64 = if wide > 0x7fff_ffff_ffff_ffff {
                0x7fff_ffff_ffff_ffff
            } else {
                wide as i64
            };
            (memory, nano)
        },
        None => (0, 0),
    };
    let network_mode = match &job.network {
        Some(n) => {
            if n.kind == NETWORK_HOST {
                String::from_str("host")
            } else if n.kind == NETWORK_BRIDGE || n.kind == NETWORK_ALLOW_LIST {
                String::from_str("bridge")
            } else {
                String::from_str("none")
            }
        },
        None => String::from_str("none"),
    };
    let mut allowed_domains: Vec<String> = Vec::new();
    match &job.network {
        Some(n) => {
            if n.kind == NETWORK_ALLOW_LIST {
                let mut i: usize = 0;
                while i < n.domains.len()
                    invariant
                        0 <= i <= n.domains.len(),
                        allowed_domains@.len() == i,
                        forall|k: int|
                            0 <= k < i ==> (#[trigger] allowed_domains@[k])@ == n.domains@[k]@,
                    decreases n.domains.len() - i,
                {
                    allowed_domains.push(n.domains[i].clone());
                    i = i + 1;
                }
                assert(texts(allowed_domains@) =~= texts(n.domains@));
            } else {
                assert(texts(allowed_domains@) =~= Seq::<Seq<char>>::empty());
            }
        },
        None => {
            assert(texts(allowed_domains@) =~= Seq::<Seq<char>>::empty());
        },
    }
    ContainerPlan { binds, memory, nano_cpus, network_mode, allowed_domains }
}

} // verus!
