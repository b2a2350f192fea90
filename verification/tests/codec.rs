use python_executor::bid::BidReason;
use python_executor::bid::BidResponse;
use python_executor::btypes::RunCommandResponse;
use python_executor::codec::decode_job;
use python_executor::codec::decode_resources;
use python_executor::codec::encode_bid;
use python_executor::codec::encode_response;
use python_executor::codec::job_from_json;
use python_executor::codec::limits_from_json;
use python_executor::codec::network_from_json;
use python_executor::codec::resources_from_json;
use python_executor::codec::texts_from_json;
use python_executor::codec::volume_from_json;
use python_executor::json::find;
use python_executor::json::names_match;
use python_executor::json::JsonValue;
use python_executor::json::Member;
use python_executor::json::Place;

fn member(name: &str, value: JsonValue) -> Member {
    Member { name: name.as_bytes().to_vec(), value }
}

fn number(text: &str) -> JsonValue {
    JsonValue::Number(text.as_bytes().to_vec())
}

fn text(t: &str) -> JsonValue {
    JsonValue::Text(String::from(t))
}

const FULL: &str = r#"{
  "JobID": "j-1",
  "ExecutionID": "e-1",
  "Resources": {"CPU": 0.5, "Memory": 1073741824, "Disk": 0, "GPU": 1},
  "Network": {"Type": 3, "Domains": ["example.com", "crates.io"]},
  "Outputs": [{"Name": "out", "Path": "results/out"}],
  "Inputs": [{
    "InputSource": {"Source": {"Type": "s3"}, "Alias": "data", "Target": "/inputs/data"},
    "Volume": {"type": 1, "ReadOnly": true, "Source": "/var/lib/data", "Target": "/inputs/data"}
  }],
  "ResultsDir": "/results",
  "EngineParams": {"Type": "docker", "Params": {"Image": "ubuntu"}},
  "OutputLimits": {
    "MaxStdoutFileLength": 1000,
    "MaxStdoutReturnLength": 100,
    "MaxStderrFileLength": 2000,
    "MaxStderrReturnLength": 200
  },
  "Unknown": [1, 2, {"x": null}]
}"#;

#[test]
fn decodes_a_full_job() {
    let j = decode_job(FULL.as_bytes()).unwrap();
    assert_eq!(j.job_id.as_deref(), Some("j-1"));
    assert_eq!(j.execution_id, "e-1");
    let r = j.resources.unwrap();
    assert_eq!(r.cpu_millis, 500);
    assert_eq!(r.memory, 1073741824);
    assert_eq!(r.disk, 0);
    assert_eq!(r.gpu, 1);
    let n = j.network.unwrap();
    assert_eq!(n.kind, 3);
    assert_eq!(n.domains, vec![String::from("example.com"), String::from("crates.io")]);
    let o = j.outputs.unwrap();
    assert_eq!(o.len(), 1);
    assert_eq!(o[0].name, "out");
    assert_eq!(o[0].path, "results/out");
    let i = j.inputs.unwrap();
    assert_eq!(i.len(), 1);
    assert_eq!(i[0].input_source.source.kind, "s3");
    assert_eq!(i[0].input_source.alias, "data");
    assert_eq!(i[0].input_source.target, "/inputs/data");
    assert_eq!(i[0].volume.kind, 1);
    assert!(i[0].volume.read_only);
    assert_eq!(i[0].volume.source, "/var/lib/data");
    assert_eq!(i[0].volume.target, "/inputs/data");
    assert_eq!(j.results_dir.as_deref(), Some("/results"));
    assert_eq!(j.engine_params.unwrap().kind, "docker");
    let l = j.output_limits.unwrap();
    assert_eq!(l.max_stdout_file_length, 1000);
    assert_eq!(l.max_stdout_return_length, 100);
    assert_eq!(l.max_stderr_file_length, 2000);
    assert_eq!(l.max_stderr_return_length, 200);
}

#[test]
fn decodes_the_smallest_job() {
    let j = decode_job(br#"{"ExecutionID":"only"}"#).unwrap();
    assert_eq!(j.execution_id, "only");
    assert_eq!(j.job_id, None);
    assert!(j.resources.is_none());
    assert!(j.network.is_none());
    assert!(j.outputs.is_none());
    assert!(j.inputs.is_none());
    assert_eq!(j.results_dir, None);
    assert!(j.engine_params.is_none());
    assert!(j.output_limits.is_none());
}

#[test]
fn field_names_in_any_case_and_under_plain_names() {
    let j = decode_job(
        br#"{"executionid":"a","JOBID":"b","resultsdir":"/r","RESOURCES":{"cpu":1,"MEMORY":2,"disk":3,"Gpu":4}}"#,
    )
    .unwrap();
    assert_eq!(j.execution_id, "a");
    assert_eq!(j.job_id.as_deref(), Some("b"));
    assert_eq!(j.results_dir.as_deref(), Some("/r"));
    assert_eq!(j.resources.unwrap().cpu_millis, 1000);
    let j = decode_job(
        br#"{"execution_id":"a","job_id":"b","results_dir":"/r","engine_params":{"type":"wasm"},"output_limits":{"max_stdout_file_length":1,"max_stdout_return_length":2,"max_stderr_file_length":3,"Max_Stderr_Return_Length":4}}"#,
    )
    .unwrap();
    assert_eq!(j.execution_id, "a");
    assert_eq!(j.job_id.as_deref(), Some("b"));
    assert_eq!(j.results_dir.as_deref(), Some("/r"));
    assert_eq!(j.engine_params.unwrap().kind, "wasm");
    assert_eq!(j.output_limits.unwrap().max_stderr_return_length, 4);
}

#[test]
fn null_stands_for_a_part_left_out() {
    let j = decode_job(
        br#"{"ExecutionID":"a","JobID":null,"Resources":null,"Network":null,"Outputs":null,"Inputs":null,"ResultsDir":null,"EngineParams":null,"OutputLimits":null}"#,
    )
    .unwrap();
    assert_eq!(j.job_id, None);
    assert!(j.resources.is_none());
    assert!(j.inputs.is_none());
}

#[test]
fn what_is_no_job() {
    assert!(decode_job(b"").is_none());
    assert!(decode_job(b"not json").is_none());
    assert!(decode_job(b"[]").is_none());
    assert!(decode_job(b"null").is_none());
    assert!(decode_job(b"\"ExecutionID\"").is_none());
    assert!(decode_job(b"{}").is_none());
    assert!(decode_job(br#"{"JobID":"x"}"#).is_none());
    assert!(decode_job(br#"{"ExecutionID":null}"#).is_none());
    assert!(decode_job(br#"{"ExecutionID":5}"#).is_none());
    assert!(decode_job(br#"{"ExecutionID":"a""#).is_none());
    assert!(decode_job(br#"{"ExecutionID":"a"} trailing"#).is_none());
    assert!(decode_job(br#"{"ExecutionID":"a","JobID":7}"#).is_none());
    assert!(decode_job(br#"{"ExecutionID":"a","Resources":[]}"#).is_none());
    assert!(decode_job(br#"{"ExecutionID":"a","Resources":{"CPU":1,"Memory":1,"Disk":1}}"#).is_none());
    assert!(decode_job(br#"{"ExecutionID":"a","Outputs":{}}"#).is_none());
    assert!(decode_job(br#"{"ExecutionID":"a","Outputs":[{"Name":"n"}]}"#).is_none());
    assert!(decode_job(br#"{"ExecutionID":"a","Inputs":[1]}"#).is_none());
    assert!(decode_job(br#"{"ExecutionID":"a","Network":{"Type":1}}"#).is_none());
    assert!(decode_job(br#"{"ExecutionID":"a","Network":{"Type":1,"Domains":["a",2]}}"#).is_none());
    assert!(decode_job(br#"{"ExecutionID":"a","EngineParams":{}}"#).is_none());
    assert!(decode_job(br#"{"ExecutionID":"a","OutputLimits":{"MaxStdoutFileLength":1}}"#).is_none());
}

#[test]
fn a_field_named_twice_is_rejected() {
    assert!(decode_job(br#"{"ExecutionID":"a","executionid":"b"}"#).is_none());
    assert!(decode_job(br#"{"ExecutionID":"a","execution_id":"a"}"#).is_none());
    assert!(decode_job(br#"{"ExecutionID":"a","JobID":"x","jobid":null}"#).is_none());
    assert!(decode_job(br#"{"ExecutionID":"a","Resources":null,"resources":null}"#).is_none());
}

#[test]
fn negative_and_fractional_resources_are_rejected() {
    let job = |r: &str| format!(r#"{{"ExecutionID":"a","Resources":{}}}"#, r);
    assert!(decode_job(job(r#"{"CPU":-1,"Memory":1,"Disk":1,"GPU":1}"#).as_bytes()).is_none());
    assert!(decode_job(job(r#"{"CPU":-0.5,"Memory":1,"Disk":1,"GPU":1}"#).as_bytes()).is_none());
    assert!(decode_job(job(r#"{"CPU":1,"Memory":-1,"Disk":1,"GPU":1}"#).as_bytes()).is_none());
    assert!(decode_job(job(r#"{"CPU":1,"Memory":1.5,"Disk":1,"GPU":1}"#).as_bytes()).is_none());
    assert!(decode_job(job(r#"{"CPU":1,"Memory":1,"Disk":1e3,"GPU":1}"#).as_bytes()).is_none());
    assert!(decode_job(job(r#"{"CPU":1,"Memory":1,"Disk":1,"GPU":"1"}"#).as_bytes()).is_none());
    assert!(
        decode_job(job(r#"{"CPU":1,"Memory":18446744073709551616,"Disk":1,"GPU":1}"#).as_bytes())
            .is_none()
    );
    assert!(decode_job(job(r#"{"CPU":"1","Memory":1,"Disk":1,"GPU":1}"#).as_bytes()).is_none());
    let ok = decode_job(job(r#"{"CPU":1,"Memory":18446744073709551615,"Disk":1,"GPU":1}"#).as_bytes())
        .unwrap();
    assert_eq!(ok.resources.unwrap().memory, u64::MAX);
}

#[test]
fn processor_share_in_thousandths() {
    let cpu = |text: &str| {
        let payload = format!(r#"{{"CPU":{},"Memory":0,"Disk":0,"GPU":0}}"#, text);
        decode_resources(payload.as_bytes()).map(|r| r.cpu_millis)
    };
    assert_eq!(cpu("0"), Some(0));
    assert_eq!(cpu("1"), Some(1000));
    assert_eq!(cpu("0.5"), Some(500));
    assert_eq!(cpu("0.1"), Some(100));
    assert_eq!(cpu("2.75"), Some(2750));
    assert_eq!(cpu("0.0015"), Some(1));
    assert_eq!(cpu("1e-3"), Some(1));
    assert_eq!(cpu("1e-7"), Some(0));
    assert_eq!(cpu("1.5e2"), Some(150000));
    assert_eq!(cpu("1e300"), Some(u64::MAX));
    assert_eq!(cpu("18446744073709551615"), Some(u64::MAX));
    assert_eq!(cpu("-1"), None);
    assert_eq!(cpu("true"), None);
}

#[test]
fn resources_payload() {
    let r = decode_resources(br#"{"CPU":2,"Memory":3,"Disk":4,"GPU":5}"#).unwrap();
    assert_eq!((r.cpu_millis, r.memory, r.disk, r.gpu), (2000, 3, 4, 5));
    assert!(decode_resources(b"{}").is_none());
    assert!(decode_resources(b"nonsense").is_none());
}

#[test]
fn job_from_a_tree_built_by_hand() {
    let tree = JsonValue::Object(vec![
        member("executionID", text("e")),
        member("other", JsonValue::Bool(true)),
        member(
            "resources",
            JsonValue::Object(vec![
                member("CPU", number("1.5")),
                member("Memory", number("10")),
                member("Disk", number("20")),
                member("GPU", number("0")),
            ]),
        ),
    ]);
    let j = job_from_json(&tree).unwrap();
    assert_eq!(j.execution_id, "e");
    let r = j.resources.unwrap();
    assert_eq!((r.cpu_millis, r.memory, r.disk, r.gpu), (1500, 10, 20, 0));
    assert!(job_from_json(&JsonValue::Null).is_none());
    assert!(job_from_json(&JsonValue::Array(vec![])).is_none());
    assert!(job_from_json(&text("e")).is_none());
}

#[test]
fn parts_from_trees_built_by_hand() {
    let limits = JsonValue::Object(vec![
        member("MaxStdoutFileLength", number("1")),
        member("MaxStdoutReturnLength", number("2")),
        member("MaxStderrFileLength", number("3")),
        member("MaxStderrReturnLength", number("4")),
    ]);
    let l = limits_from_json(&limits).unwrap();
    assert_eq!(
        (
            l.max_stdout_file_length,
            l.max_stdout_return_length,
            l.max_stderr_file_length,
            l.max_stderr_return_length
        ),
        (1, 2, 3, 4)
    );
    assert!(limits_from_json(&JsonValue::Object(vec![])).is_none());
    assert!(resources_from_json(&JsonValue::Array(vec![])).is_none());
    let volume = JsonValue::Object(vec![
        member("TYPE", number("-2")),
        member("readonly", JsonValue::Bool(false)),
        member("Source", text("s")),
        member("Target", text("t")),
    ]);
    let v = volume_from_json(&volume).unwrap();
    assert_eq!(v.kind, -2);
    assert!(!v.read_only);
    assert_eq!(v.source, "s");
    assert_eq!(v.target, "t");
    let network = JsonValue::Object(vec![
        member("type", number("2")),
        member("domains", JsonValue::Array(vec![])),
    ]);
    let n = network_from_json(&network).unwrap();
    assert_eq!(n.kind, 2);
    assert!(n.domains.is_empty());
    assert_eq!(
        texts_from_json(&JsonValue::Array(vec![text("a"), text("b")])),
        Some(vec![String::from("a"), String::from("b")])
    );
    assert_eq!(texts_from_json(&JsonValue::Array(vec![text("a"), JsonValue::Null])), None);
    assert_eq!(texts_from_json(&text("a")), None);
}

#[test]
fn names_are_compared_without_case() {
    assert!(names_match(b"JobID", b"jobid"));
    assert!(names_match(b"JOBID", b"JobID"));
    assert!(names_match(b"", b""));
    assert!(!names_match(b"JobID", b"job_id"));
    assert!(!names_match(b"JobID", b"JobI"));
    assert!(!names_match(b"a[", b"a{"));
    assert!(!names_match(b"@", b"`"));
}

#[test]
fn finding_a_member() {
    let members = vec![
        member("Alpha", JsonValue::Null),
        member("beta", JsonValue::Bool(true)),
        member("BETA", JsonValue::Bool(false)),
        member("plain_name", JsonValue::Null),
    ];
    assert!(matches!(find(&members, b"ALPHA", b"alpha"), Place::At(0)));
    assert!(matches!(find(&members, b"Beta", b"beta"), Place::Many));
    assert!(matches!(find(&members, b"Gamma", b"gamma"), Place::Missing));
    assert!(matches!(find(&members, b"PlainName", b"plain_name"), Place::At(3)));
    assert!(matches!(find(&Vec::new(), b"a", b"a"), Place::Missing));
}

#[test]
fn encodes_a_result() {
    let r = RunCommandResponse::new().with_exit_code(0);
    assert_eq!(
        String::from_utf8(encode_response(&r)).unwrap(),
        r#"{"stdout":"","stdout_truncated":false,"stderr":"","stderr_truncated":false,"exit_code":0,"error_msg":null}"#
    );
    let r = RunCommandResponse {
        stdout: String::from("line\n\"quoted\"\t\\"),
        stdout_truncated: true,
        stderr: String::from("é\u{1}"),
        stderr_truncated: false,
        exit_code: -7,
        error_msg: Some(String::from("Failed to pull image: x")),
    };
    assert_eq!(
        String::from_utf8(encode_response(&r)).unwrap(),
        "{\"stdout\":\"line\\n\\\"quoted\\\"\\t\\\\\",\"stdout_truncated\":true,\"stderr\":\"é\\u0001\",\"stderr_truncated\":false,\"exit_code\":-7,\"error_msg\":\"Failed to pull image: x\"}"
    );
}

#[test]
fn encodes_a_bid() {
    let yes = BidResponse { should_bid: true, reason: BidReason::Accepted };
    assert_eq!(
        String::from_utf8(encode_bid(&yes)).unwrap(),
        r#"{"ShouldBid":true,"Reason":"accepted"}"#
    );
    let no = BidResponse { should_bid: false, reason: BidReason::InsufficientMemory };
    assert_eq!(
        String::from_utf8(encode_bid(&no)).unwrap(),
        r#"{"ShouldBid":false,"Reason":"insufficient memory"}"#
    );
}
