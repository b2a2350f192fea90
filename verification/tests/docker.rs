use python_executor::btypes::InputSource;
use python_executor::btypes::NetworkConfig;
use python_executor::btypes::PreparedStorage;
use python_executor::btypes::Resources;
use python_executor::btypes::RunCommandRequest;
use python_executor::btypes::SpecConfig;
use python_executor::btypes::StorageVolume;
use python_executor::docker::bind_of;
use python_executor::docker::container_fault;
use python_executor::docker::container_plan;
use python_executor::docker::make_credentials;
use python_executor::docker::pull_result;
use python_executor::docker::BackendFault;
use python_executor::docker::DockerError;

fn fault(unreachable: bool, message: &str) -> BackendFault {
    BackendFault { unreachable, message: String::from(message) }
}

#[test]
fn pull_that_ends_well_is_ok() {
    assert!(pull_result(vec![Ok(())]).is_ok());
    assert!(pull_result(vec![Err(fault(false, "retry")), Ok(()), Ok(())]).is_ok());
}

#[test]
fn pull_that_ends_in_a_fault_is_a_pull_error() {
    match pull_result(vec![Ok(()), Err(fault(false, "image not found"))]) {
        Err(DockerError::PullError(m)) => assert_eq!(m, "image not found"),
        other => panic!("expected a pull error, got {:?}", other),
    }
}

#[test]
fn pull_from_an_unreachable_backend_is_a_connection_failure() {
    match pull_result(vec![Err(fault(true, "connection refused"))]) {
        Err(DockerError::ConnectionFailure(m)) => assert_eq!(m, "connection refused"),
        other => panic!("expected a connection failure, got {:?}", other),
    }
}

#[test]
fn container_faults_by_category() {
    match container_fault(fault(false, "exit 1")) {
        DockerError::ContainerFailure(m) => assert_eq!(m, "exit 1"),
        other => panic!("expected a container failure, got {:?}", other),
    }
    match container_fault(fault(true, "gone")) {
        DockerError::ConnectionFailure(m) => assert_eq!(m, "gone"),
        other => panic!("expected a connection failure, got {:?}", other),
    }
}

#[test]
fn messages_name_the_category() {
    assert_eq!(
        DockerError::ConnectionFailure(String::from("x")).message(),
        "Failed to connect to docker: x"
    );
    assert_eq!(DockerError::PullError(String::from("y")).message(), "Failed to pull image: y");
    assert_eq!(DockerError::ContainerFailure(String::from("z")).message(), "Container failed: z");
    assert_eq!(DockerError::PullError(String::new()).message(), "Failed to pull image: ");
}

#[test]
fn credentials_are_always_there() {
    let c = make_credentials(&Some(String::from("")), &Some(String::from(""))).unwrap();
    assert_eq!(c.username.as_deref(), Some(""));
    assert_eq!(c.password.as_deref(), Some(""));
    let c = make_credentials(&Some(String::from("me")), &None).unwrap();
    assert_eq!(c.username.as_deref(), Some("me"));
    assert_eq!(c.password, None);
    let c = make_credentials(&None, &None).unwrap();
    assert_eq!(c.username, None);
    assert_eq!(c.password, None);
}

fn volume(source: &str, target: &str, read_only: bool) -> StorageVolume {
    StorageVolume { kind: 1, read_only, source: String::from(source), target: String::from(target) }
}

fn input(source: &str, target: &str, read_only: bool) -> PreparedStorage {
    PreparedStorage {
        input_source: InputSource {
            source: SpecConfig { kind: String::from("x") },
            alias: String::from("a"),
            target: String::from("t"),
        },
        volume: volume(source, target, read_only),
    }
}

#[test]
fn mounts_as_the_backend_reads_them() {
    assert_eq!(bind_of(&volume("/host/data", "/inputs", true)), "/host/data:/inputs:ro");
    assert_eq!(bind_of(&volume("/host/out", "/outputs", false)), "/host/out:/outputs");
    assert_eq!(bind_of(&volume("", "", false)), ":");
}

#[test]
fn plan_of_a_job_without_anything() {
    let plan = container_plan(&RunCommandRequest::new(String::from("e")));
    assert!(plan.binds.is_empty());
    assert_eq!(plan.memory, 0);
    assert_eq!(plan.nano_cpus, 0);
    assert_eq!(plan.network_mode, "none");
    assert!(plan.allowed_domains.is_empty());
}

#[test]
fn plan_passes_domains_on_for_a_list_of_allowed_domains_only() {
    let domains = vec![String::from("example.com"), String::from("pypi.org")];
    let mut job = RunCommandRequest::new(String::from("e"));
    job.network = Some(NetworkConfig { kind: 3, domains: domains.clone() });
    let plan = container_plan(&job);
    assert_eq!(plan.network_mode, "bridge");
    assert_eq!(plan.allowed_domains, domains);
    job.network = Some(NetworkConfig { kind: 2, domains: domains.clone() });
    assert!(container_plan(&job).allowed_domains.is_empty());
    job.network = Some(NetworkConfig { kind: 0, domains });
    assert!(container_plan(&job).allowed_domains.is_empty());
}

#[test]
fn plan_of_a_full_job() {
    let mut job = RunCommandRequest::new(String::from("e"));
    job.resources = Some(Resources { cpu_millis: 1500, memory: 1 << 30, disk: 5, gpu: 0 });
    job.network = Some(NetworkConfig { kind: 1, domains: vec![] });
    job.inputs = Some(vec![input("/a", "/x", true), input("/b", "/y", false)]);
    let plan = container_plan(&job);
    assert_eq!(plan.binds, vec![String::from("/a:/x:ro"), String::from("/b:/y")]);
    assert_eq!(plan.memory, 1 << 30);
    assert_eq!(plan.nano_cpus, 1_500_000_000);
    assert_eq!(plan.network_mode, "host");
}

#[test]
fn plan_limits_are_cut_at_the_largest_value() {
    let mut job = RunCommandRequest::new(String::from("e"));
    job.resources = Some(Resources { cpu_millis: u64::MAX, memory: u64::MAX, disk: 0, gpu: 0 });
    let plan = container_plan(&job);
    assert_eq!(plan.memory, i64::MAX);
    assert_eq!(plan.nano_cpus, i64::MAX);
    job.resources =
        Some(Resources { cpu_millis: 9223372036854, memory: i64::MAX as u64, disk: 0, gpu: 0 });
    let plan = container_plan(&job);
    assert_eq!(plan.memory, i64::MAX);
    assert_eq!(plan.nano_cpus, 9223372036854000000);
    job.resources = Some(Resources { cpu_millis: 9223372036855, memory: 0, disk: 0, gpu: 0 });
    assert_eq!(container_plan(&job).nano_cpus, i64::MAX);
}

#[test]
fn plan_networks_by_mode() {
    let mode = |kind: i32| {
        let mut job = RunCommandRequest::new(String::from("e"));
        job.network = Some(NetworkConfig { kind, domains: vec![String::from("example.com")] });
        container_plan(&job).network_mode
    };
    assert_eq!(mode(0), "none");
    assert_eq!(mode(1), "host");
    assert_eq!(mode(2), "bridge");
    assert_eq!(mode(3), "bridge");
    assert_eq!(mode(4), "none");
    assert_eq!(mode(-1), "none");
}
