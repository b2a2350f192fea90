//! The payloads that cross the RPC boundary: a job is read from JSON, with
//! its fields found under either of their names and in any case, and a
//! result is written as JSON.

use crate::bid::BidResponse;
use crate::btypes::opt_text;
use crate::btypes::texts;
use crate::btypes::InputSource;
use crate::btypes::InputSourceView;
use crate::btypes::NetworkConfig;
use crate::btypes::NetworkConfigView;
use crate::btypes::OutputLimits;
use crate::btypes::PreparedStorage;
use crate::btypes::PreparedStorageView;
use crate::btypes::Resources;
use crate::btypes::ResultPath;
use crate::btypes::ResultPathView;
use crate::btypes::RunCommandRequest;
use crate::btypes::RunCommandRequestView;
use crate::btypes::RunCommandResponse;
use crate::btypes::RunCommandResponseView;
use crate::btypes::SpecConfig;
use crate::btypes::SpecConfigView;
use crate::btypes::StorageVolume;
use crate::btypes::StorageVolumeView;
use crate::json::find;
use crate::json::json_of;
use crate::json::lemma_view_unfolds;
use crate::json::lookup;
use crate::json::member_views;
use crate::json::parse_json;
use crate::json::quote;
use crate::json::quoted;
use crate::json::Found;
use crate::json::JsonValue;
use crate::json::JsonView;
use crate::json::Member;
use crate::json::MemberView;
use crate::json::Place;
use crate::number::format_i32;
use crate::number::i32_of_text;
use crate::number::integer_text;
use crate::number::millis_of_text;
use crate::number::parse_i32;
use crate::number::parse_millis;
use crate::number::parse_u64;
use crate::number::u64_of_text;
use vstd::prelude::*;
use vstd::string::StrSliceExecFns;
use vstd::string::StringExecFns;
use vstd::string::StringSliceAdditionalSpecFns;
use vstd::utf8::encode_utf8;

verus! {

/// What an object holds for the field that goes by `alias` or by `plain`.
pub open spec fn field(members: Seq<MemberView>, alias: Seq<char>, plain: Seq<char>) -> Found {
    lookup(members, encode_utf8(alias), encode_utf8(plain))
}

/// The value of a field that must be there: nothing where the field is
/// missing or named twice.
pub open spec fn required(members: Seq<MemberView>, alias: Seq<char>, plain: Seq<char>) -> Option<
    JsonView,
> {
    match field(members, alias, plain) {
        Found::One(v) => Some(v),
        _ => None,
    }
}

/// The value of a field that may be left out or be null: nothing at all
/// where the field is named twice.
pub open spec fn optional(members: Seq<MemberView>, alias: Seq<char>, plain: Seq<char>) -> Option<
    Option<JsonView>,
> {
    match field(members, alias, plain) {
        Found::Missing => Some(None),
        Found::One(JsonView::Null) => Some(None),
        Found::One(v) => Some(Some(v)),
        Found::Many => None,
    }
}

/// The text that a JSON string holds.
pub open spec fn text_of(v: JsonView) -> Option<Seq<char>> {
    match v {
        JsonView::Text(t) => Some(t),
        _ => None,
    }
}

/// The truth value that a JSON boolean holds.
pub open spec fn flag_of(v: JsonView) -> Option<bool> {
    match v {
        JsonView::Bool(b) => Some(b),
        _ => None,
    }
}

/// The unsigned whole number that a JSON number holds.
pub open spec fn u64_of(v: JsonView) -> Option<u64> {
    match v {
        JsonView::Number(t) => u64_of_text(t),
        _ => None,
    }
}

/// The signed whole number of 32 bits that a JSON number holds.
pub open spec fn i32_of(v: JsonView) -> Option<i32> {
    match v {
        JsonView::Number(t) => i32_of_text(t),
        _ => None,
    }
}

/// The thousandths that a JSON number without a sign holds.
pub open spec fn millis_of(v: JsonView) -> Option<u64> {
    match v {
        JsonView::Number(t) => millis_of_text(t),
        _ => None,
    }
}

/// A required field that holds text.
pub open spec fn required_text(m: Seq<MemberView>, alias: Seq<char>, plain: Seq<char>) -> Option<
    Seq<char>,
> {
    match required(m, alias, plain) {
        Some(v) => text_of(v),
        None => None,
    }
}

/// A required field that holds a truth value.
pub open spec fn required_flag(m: Seq<MemberView>, alias: Seq<char>, plain: Seq<char>) -> Option<
    bool,
> {
    match required(m, alias, plain) {
        Some(v) => flag_of(v),
        None => None,
    }
}

/// A required field that holds an unsigned whole number.
pub open spec fn required_u64(m: Seq<MemberView>, alias: Seq<char>, plain: Seq<char>) -> Option<
    u64,
> {
    match required(m, alias, plain) {
        Some(v) => u64_of(v),
        None => None,
    }
}

/// A required field that holds a signed whole number of 32 bits.
pub open spec fn required_i32(m: Seq<MemberView>, alias: Seq<char>, plain: Seq<char>) -> Option<
    i32,
> {
    match required(m, alias, plain) {
        Some(v) => i32_of(v),
        None => None,
    }
}

/// A required field that holds a number, read in thousandths.
pub open spec fn required_millis(m: Seq<MemberView>, alias: Seq<char>, plain: Seq<char>) -> Option<
    u64,
> {
    match required(m, alias, plain) {
        Some(v) => millis_of(v),
        None => None,
    }
}

/// An optional field that holds text.
pub open spec fn optional_text(m: Seq<MemberView>, alias: Seq<char>, plain: Seq<char>) -> Option<
    Option<Seq<char>>,
> {
    match optional(m, alias, plain) {
        None => None,
        Some(None) => Some(None),
        Some(Some(v)) => match text_of(v) {
            Some(t) => Some(Some(t)),
            None => None,
        },
    }
}

/// The output limits that a JSON object gives: all four caps must be there.
pub open spec fn limits_json(v: JsonView) -> Option<OutputLimits> {
    match v {
        JsonView::Object(m) => {
            let a = required_u64(m, "MaxStdoutFileLength"@, "max_stdout_file_length"@);
            let b = required_u64(m, "MaxStdoutReturnLength"@, "max_stdout_return_length"@);
            let c = required_u64(m, "MaxStderrFileLength"@, "max_stderr_file_length"@);
            let d = required_u64(m, "MaxStderrReturnLength"@, "max_stderr_return_length"@);
            if a is Some && b is Some && c is Some && d is Some {
                Some(
                    OutputLimits {
                        max_stdout_file_length: a.unwrap(),
                        max_stdout_return_length: b.unwrap(),
                        max_stderr_file_length: c.unwrap(),
                        max_stderr_return_length: d.unwrap(),
                    },
                )
            } else {
                None
            }
        },
        _ => None,
    }
}

/// The resources that a JSON object gives: all four must be there, the
/// processor share as a number without a sign, the others as whole numbers.
pub open spec fn resources_json(v: JsonView) -> Option<Resources> {
    match v {
        JsonView::Object(m) => {
            let a = required_millis(m, "CPU"@, "cpu"@);
            let b = required_u64(m, "Memory"@, "memory"@);
            let c = required_u64(m, "Disk"@, "disk"@);
            let d = required_u64(m, "GPU"@, "gpu"@);
            if a is Some && b is Some && c is Some && d is Some {
                Some(
                    Resources {
                        cpu_millis: a.unwrap(),
                        memory: b.unwrap(),
                        disk: c.unwrap(),
                        gpu: d.unwrap(),
                    },
                )
            } else {
                None
            }
        },
        _ => None,
    }
}

/// The configuration that a JSON object gives.
pub open spec fn config_json(v: JsonView) -> Option<SpecConfigView> {
    match v {
        JsonView::Object(m) => match required_text(m, "Type"@, "type"@) {
            Some(kind) => Some(SpecConfigView { kind }),
            None => None,
        },
        _ => None,
    }
}

/// The volume that a JSON object gives.
pub open spec fn volume_json(v: JsonView) -> Option<StorageVolumeView> {
    match v {
        JsonView::Object(m) => {
            let a = required_i32(m, "type"@, "type"@);
            let b = required_flag(m, "ReadOnly"@, "read_only"@);
            let c = required_text(m, "Source"@, "source"@);
            let d = required_text(m, "Target"@, "target"@);
            if a is Some && b is Some && c is Some && d is Some {
                Some(
                    StorageVolumeView {
                        kind: a.unwrap() as int,
                        read_only: b.unwrap(),
                        source: c.unwrap(),
                        target: d.unwrap(),
                    },
                )
            } else {
                None
            }
        },
        _ => None,
    }
}

/// The input source that a JSON object gives.
pub open spec fn source_json(v: JsonView) -> Option<InputSourceView> {
    match v {
        JsonView::Object(m) => {
            let a = match required(m, "Source"@, "source"@) {
                Some(x) => config_json(x),
                None => None,
            };
            let b = required_text(m, "Alias"@, "alias"@);
            let c = required_text(m, "Target"@, "target"@);
            if a is Some && b is Some && c is Some {
                Some(InputSourceView { source: a.unwrap(), alias: b.unwrap(), target: c.unwrap() })
            } else {
                None
            }
        },
        _ => None,
    }
}

/// The prepared input that a JSON object gives.
pub open spec fn storage_json(v: JsonView) -> Option<PreparedStorageView> {
    match v {
        JsonView::Object(m) => {
            let a = match required(m, "InputSource"@, "input_source"@) {
                Some(x) => source_json(x),
                None => None,
            };
            let b = match required(m, "Volume"@, "volume"@) {
                Some(x) => volume_json(x),
                None => None,
            };
            if a is Some && b is Some {
                Some(PreparedStorageView { input_source: a.unwrap(), volume: b.unwrap() })
            } else {
                None
            }
        },
        _ => None,
    }
}

/// The named output that a JSON object gives.
pub open spec fn path_json(v: JsonView) -> Option<ResultPathView> {
    match v {
        JsonView::Object(m) => {
            let a = required_text(m, "Name"@, "name"@);
            let b = required_text(m, "Path"@, "path"@);
            if a is Some && b is Some {
                Some(ResultPathView { name: a.unwrap(), path: b.unwrap() })
            } else {
                None
            }
        },
        _ => None,
    }
}

/// The texts that a JSON array of strings gives, in order.
pub open spec fn texts_json(v: JsonView) -> Option<Seq<Seq<char>>> {
    match v {
        JsonView::Array(items) => if forall|i: int|
            0 <= i < items.len() ==> text_of(#[trigger] items[i]) is Some {
            Some(Seq::new(items.len(), |i: int| text_of(items[i]).unwrap()))
        } else {
            None
        },
        _ => None,
    }
}

/// The outputs that a JSON array gives, in order.
pub open spec fn outputs_json(v: JsonView) -> Option<Seq<ResultPathView>> {
    match v {
        JsonView::Array(items) => if forall|i: int|
            0 <= i < items.len() ==> path_json(#[trigger] items[i]) is Some {
            Some(Seq::new(items.len(), |i: int| path_json(items[i]).unwrap()))
        } else {
            None
        },
        _ => None,
    }
}

/// The inputs that a JSON array gives, in order.
pub open spec fn inputs_json(v: JsonView) -> Option<Seq<PreparedStorageView>> {
    match v {
        JsonView::Array(items) => if forall|i: int|
            0 <= i < items.len() ==> storage_json(#[trigger] items[i]) is Some {
            Some(Seq::new(items.len(), |i: int| storage_json(items[i]).unwrap()))
        } else {
            None
        },
        _ => None,
    }
}

/// The network that a JSON object gives.
pub open spec fn network_json(v: JsonView) -> Option<NetworkConfigView> {
    match v {
        JsonView::Object(m) => {
            let a = required_i32(m, "Type"@, "type"@);
            let b = match required(m, "Domains"@, "domains"@) {
                Some(x) => texts_json(x),
                None => None,
            };
            if a is Some && b is Some {
                Some(NetworkConfigView { kind: a.unwrap() as int, domains: b.unwrap() })
            } else {
                None
            }
        },
        _ => None,
    }
}

/// What an optional field gives that is read by `read` where it is there:
/// nothing at all where the field is named twice or cannot be read.
pub open spec fn optional_with<T>(found: Option<Option<JsonView>>, read: Option<T>) -> Option<
    Option<T>,
> {
    match found {
        None => None,
        Some(None) => Some(None),
        Some(Some(_)) => match read {
            Some(x) => Some(Some(x)),
            None => None,
        },
    }
}

/// The value of an optional field where it is there, else null.
pub open spec fn present(found: Option<Option<JsonView>>) -> JsonView {
    match found {
        Some(Some(v)) => v,
        _ => JsonView::Null,
    }
}

/// The job that a JSON object gives. The identifier must be there; every
/// other part may be left out or be null, but must be well-formed where it
/// is given. A field goes by the name the orchestrator uses or by its plain
/// name, in any case; members with other names are passed over.
pub open spec fn job_json(v: JsonView) -> Option<RunCommandRequestView> {
    match v {
        JsonView::Object(m) => {
            let id = required_text(m, "ExecutionID"@, "execution_id"@);
            let job_id = optional_text(m, "JobID"@, "job_id"@);
            let f_resources = optional(m, "Resources"@, "resources"@);
            let resources = optional_with(f_resources, resources_json(present(f_resources)));
            let f_network = optional(m, "Network"@, "network"@);
            let network = optional_with(f_network, network_json(present(f_network)));
            let f_outputs = optional(m, "Outputs"@, "outputs"@);
            let outputs = optional_with(f_outputs, outputs_json(present(f_outputs)));
            let f_inputs = optional(m, "Inputs"@, "inputs"@);
            let inputs = optional_with(f_inputs, inputs_json(present(f_inputs)));
            let results_dir = optional_text(m, "ResultsDir"@, "results_dir"@);
            let f_engine = optional(m, "EngineParams"@, "engine_params"@);
            let engine = optional_with(f_engine, config_json(present(f_engine)));
            let f_limits = optional(m, "OutputLimits"@, "output_limits"@);
            let limits = optional_with(f_limits, limits_json(present(f_limits)));
            if id is Some && job_id is Some && resources is Some && network is Some && outputs
                is Some && inputs is Some && results_dir is Some && engine is Some && limits
                is Some {
                Some(
                    RunCommandRequestView {
                        job_id: job_id.unwrap(),
                        execution_id: id.unwrap(),
                        resources: resources.unwrap(),
                        network: network.unwrap(),
                        outputs: outputs.unwrap(),
                        inputs: inputs.unwrap(),
                        results_dir: results_dir.unwrap(),
                        engine_params: engine.unwrap(),
                        output_limits: limits.unwrap(),
                    },
                )
            } else {
                None
            }
        },
        _ => None,
    }
}

/// The job that a payload gives: the payload must be JSON, and the JSON a
/// job.
pub open spec fn decoded_job(bytes: Seq<u8>) -> Option<RunCommandRequestView> {
    match json_of(bytes) {
        Some(v) => job_json(v),
        None => None,
    }
}

/// The resources that a payload gives.
pub open spec fn decoded_resources(bytes: Seq<u8>) -> Option<Resources> {
    match json_of(bytes) {
        Some(v) => resources_json(v),
        None => None,
    }
}

/// The model of an optional job.
pub open spec fn opt_job(o: Option<RunCommandRequest>) -> Option<RunCommandRequestView> {
    match o {
        Some(j) => Some(j@),
        None => None,
    }
}

/// The place of a required field.
fn require<'a>(m: &'a Vec<Member>, alias: &str, plain: &str) -> (r: Option<&'a JsonValue>)
    ensures
        match r {
            Some(v) => required(member_views(m@), alias@, plain@) == Some(v@),
            None => required(member_views(m@), alias@, plain@) is None,
        },
{
    match find(m, alias.as_bytes(), plain.as_bytes()) {
        Place::At(i) => Some(&m[i].value),
        _ => None,
    }
}

/// The place of an optional field.
fn allow<'a>(m: &'a Vec<Member>, alias: &str, plain: &str) -> (r: Option<Option<&'a JsonValue>>)
    ensures
        match r {
            Some(Some(v)) => optional(member_views(m@), alias@, plain@) == Some(Some(v@)) && !(v@
                is Null),
            Some(None) => optional(member_views(m@), alias@, plain@) == Some(
                None::<JsonView>,
            ),
            None => optional(member_views(m@), alias@, plain@) is None,
        },
{
    match find(m, alias.as_bytes(), plain.as_bytes()) {
        Place::Missing => Some(None),
        Place::Many => None,
        Place::At(i) => match &m[i].value {
            JsonValue::Null => Some(None),
            _ => Some(Some(&m[i].value)),
        },
    }
}

/// Reads a required field that holds text.
fn text_member(m: &Vec<Member>, alias: &str, plain: &str) -> (r: Option<String>)
    ensures
        opt_text(r) == required_text(member_views(m@), alias@, plain@),
{
    match require(m, alias, plain) {
        Some(JsonValue::Text(t)) => Some(t.clone()),
        _ => None,
    }
}

/// Reads a required field that holds a truth value.
fn flag_member(m: &Vec<Member>, alias: &str, plain: &str) -> (r: Option<bool>)
    ensures
        r == required_flag(member_views(m@), alias@, plain@),
{
    match require(m, alias, plain) {
        Some(JsonValue::Bool(b)) => Some(*b),
        _ => None,
    }
}

/// Reads a required field that holds an unsigned whole number.
fn u64_member(m: &Vec<Member>, alias: &str, plain: &str) -> (r: Option<u64>)
    ensures
        r == required_u64(member_views(m@), alias@, plain@),
{
    match require(m, alias, plain) {
        Some(JsonValue::Number(t)) => parse_u64(t.as_slice()),
        _ => None,
    }
}

/// Reads a required field that holds a signed whole number of 32 bits.
fn i32_member(m: &Vec<Member>, alias: &str, plain: &str) -> (r: Option<i32>)
    ensures
        r == required_i32(member_views(m@), alias@, plain@),
{
    match require(m, alias, plain) {
        Some(JsonValue::Number(t)) => parse_i32(t.as_slice()),
        _ => None,
    }
}

/// Reads a required field that holds a number, in thousandths.
fn millis_member(m: &Vec<Member>, alias: &str, plain: &str) -> (r: Option<u64>)
    ensures
        r == required_millis(member_views(m@), alias@, plain@),
{
    match require(m, alias, plain) {
        Some(JsonValue::Number(t)) => parse_millis(t.as_slice()),
        _ => None,
    }
}

/// Reads an optional field that holds text.
fn optional_text_member(m: &Vec<Member>, alias: &str, plain: &str) -> (r: Option<Option<String>>)
    ensures
        match r {
            Some(t) => optional_text(member_views(m@), alias@, plain@) == Some(opt_text(t)),
            None => optional_text(member_views(m@), alias@, plain@) is None,
        },
{
    match allow(m, alias, plain) {
        None => None,
        Some(None) => Some(None),
        Some(Some(JsonValue::Text(t))) => Some(Some(t.clone())),
        Some(Some(_)) => None,
    }
}

/// Reads output limits from a JSON object.
pub fn limits_from_json(v: &JsonValue) -> (r: Option<OutputLimits>)
    ensures
        r == limits_json(v@),
{
    proof {
        lemma_view_unfolds(*v);
    }
    match v {
        JsonValue::Object(m) => {
            let a = u64_member(m, "MaxStdoutFileLength", "max_stdout_file_length");
            let b = u64_member(m, "MaxStdoutReturnLength", "max_stdout_return_length");
            let c = u64_member(m, "MaxStderrFileLength", "max_stderr_file_length");
            let d = u64_member(m, "MaxStderrReturnLength", "max_stderr_return_length");
            match (a, b, c, d) {
                (Some(a), Some(b), Some(c), Some(d)) => Some(
                    OutputLimits {
                        max_stdout_file_length: a,
                        max_stdout_return_length: b,
                        max_stderr_file_length: c,
                        max_stderr_return_length: d,
                    },
                ),
                _ => None,
            }
        },
        _ => None,
    }
}

/// Reads resources from a JSON object.
pub fn resources_from_json(v: &JsonValue) -> (r: Option<Resources>)
    ensures
        r == resources_json(v@),
{
    proof {
        lemma_view_unfolds(*v);
    }
    match v {
        JsonValue::Object(m) => {
            let a = millis_member(m, "CPU", "cpu");
            let b = u64_member(m, "Memory", "memory");
            let c = u64_member(m, "Disk", "disk");
            let d = u64_member(m, "GPU", "gpu");
            match (a, b, c, d) {
                (Some(a), Some(b), Some(c), Some(d)) => Some(
                    Resources { cpu_millis: a, memory: b, disk: c, gpu: d },
                ),
                _ => None,
            }
        },
        _ => None,
    }
}

/// Reads a configuration from a JSON object.
pub fn config_from_json(v: &JsonValue) -> (r: Option<SpecConfig>)
    ensures
        match r {
            Some(c) => config_json(v@) == Some(c@),
            None => config_json(v@) is None,
        },
{
    proof {
        lemma_view_unfolds(*v);
    }
    match v {
        JsonValue::Object(m) => match text_member(m, "Type", "type") {
            Some(kind) => Some(SpecConfig { kind }),
            None => None,
        },
        _ => None,
    }
}

/// Reads a volume from a JSON object.
pub fn volume_from_json(v: &JsonValue) -> (r: Option<StorageVolume>)
    ensures
        match r {
            Some(x) => volume_json(v@) == Some(x@),
            None => volume_json(v@) is None,
        },
{
    proof {
        lemma_view_unfolds(*v);
    }
    match v {
        JsonValue::Object(m) => {
            let a = i32_member(m, "type", "type");
            let b = flag_member(m, "ReadOnly", "read_only");
            let c = text_member(m, "Source", "source");
            let d = text_member(m, "Target", "target");
            match (a, b, c, d) {
                (Some(kind), Some(read_only), Some(source), Some(target)) => Some(
                    StorageVolume { kind, read_only, source, target },
                ),
                _ => None,
            }
        },
        _ => None,
    }
}

/// Reads an input source from a JSON object.
pub fn source_from_json(v: &JsonValue) -> (r: Option<InputSource>)
    ensures
        match r {
            Some(x) => source_json(v@) == Some(x@),
            None => source_json(v@) is None,
        },
{
    proof {
        lemma_view_unfolds(*v);
    }
    match v {
        JsonValue::Object(m) => {
            let a = match require(m, "Source", "source") {
                Some(x) => config_from_json(x),
                None => None,
            };
            let b = text_member(m, "Alias", "alias");
            let c = text_member(m, "Target", "target");
            match (a, b, c) {
                (Some(source), Some(alias), Some(target)) => Some(
                    InputSource { source, alias, target },
                ),
                _ => None,
            }
        },
        _ => None,
    }
}

/// Reads a prepared input from a JSON object.
pub fn storage_from_json(v: &JsonValue) -> (r: Option<PreparedStorage>)
    ensures
        match r {
            Some(x) => storage_json(v@) == Some(x@),
            None => storage_json(v@) is None,
        },
{
    proof {
        lemma_view_unfolds(*v);
    }
    match v {
        JsonValue::Object(m) => {
            let a = match require(m, "InputSource", "input_source") {
                Some(x) => source_from_json(x),
                None => None,
            };
            let b = match require(m, "Volume", "volume") {
                Some(x) => volume_from_json(x),
                None => None,
            };
            match (a, b) {
                (Some(input_source), Some(volume)) => Some(
                    PreparedStorage { input_source, volume },
                ),
                _ => None,
            }
        },
        _ => None,
    }
}

/// Reads a named output from a JSON object.
pub fn path_from_json(v: &JsonValue) -> (r: Option<ResultPath>)
    ensures
        match r {
            Some(x) => path_json(v@) == Some(x@),
            None => path_json(v@) is None,
        },
{
    proof {
        lemma_view_unfolds(*v);
    }
    match v {
        JsonValue::Object(m) => {
            let a = text_member(m, "Name", "name");
            let b = text_member(m, "Path", "path");
            match (a, b) {
                (Some(name), Some(path)) => Some(ResultPath { name, path }),
                _ => None,
            }
        },
        _ => None,
    }
}

/// Reads a list of texts from a JSON array of strings.
pub fn texts_from_json(v: &JsonValue) -> (r: Option<Vec<String>>)
    ensures
        match r {
            Some(x) => texts_json(v@) == Some(texts(x@)),
            None => texts_json(v@) is None,
        },
{
    proof {
        lemma_view_unfolds(*v);
    }
    match v {
        JsonValue::Array(items) => {
            let ghost views = crate::json::item_views(items@);
            let mut out: Vec<String> = Vec::new();
            let mut i: usize = 0;
            while i < items.len()
                invariant
                    0 <= i <= items.len(),
                    views == crate::json::item_views(items@),
                    v@ == JsonView::Array(views),
                    out@.len() == i,
                    forall|k: int| 0 <= k < i ==> text_of(#[trigger] views[k]) == Some(out@[k]@),
                decreases items.len() - i,
            {
                match &items[i] {
                    JsonValue::Text(t) => {
                        out.push(t.clone());
                    },
                    _ => {
                        assert(text_of(views[i as int]) is None);
                        return None;
                    },
                }
                i = i + 1;
            }
            assert(texts(out@) =~= Seq::new(views.len(), |k: int| text_of(views[k]).unwrap()));
            Some(out)
        },
        _ => None,
    }
}

/// Reads a list of outputs from a JSON array.
pub fn outputs_from_json(v: &JsonValue) -> (r: Option<Vec<ResultPath>>)
    ensures
        match r {
            Some(x) => outputs_json(v@) == Some(x@.map_values(|p: ResultPath| p@)),
            None => outputs_json(v@) is None,
        },
{
    proof {
        lemma_view_unfolds(*v);
    }
    match v {
        JsonValue::Array(items) => {
            let ghost views = crate::json::item_views(items@);
            let mut out: Vec<ResultPath> = Vec::new();
            let mut i: usize = 0;
            while i < items.len()
                invariant
                    0 <= i <= items.len(),
                    views == crate::json::item_views(items@),
                    v@ == JsonView::Array(views),
                    out@.len() == i,
                    forall|k: int| 0 <= k < i ==> path_json(#[trigger] views[k]) == Some(out@[k]@),
                decreases items.len() - i,
            {
                match path_from_json(&items[i]) {
                    Some(p) => {
                        out.push(p);
                    },
                    None => {
                        assert(path_json(views[i as int]) is None);
                        return None;
                    },
                }
                i = i + 1;
            }
            assert(out@.map_values(|p: ResultPath| p@) =~= Seq::new(
                views.len(),
                |k: int| path_json(views[k]).unwrap(),
            ));
            Some(out)
        },
        _ => None,
    }
}

/// Reads a list of inputs from a JSON array.
pub fn inputs_from_json(v: &JsonValue) -> (r: Option<Vec<PreparedStorage>>)
    ensures
        match r {
            Some(x) => inputs_json(v@) == Some(x@.map_values(|p: PreparedStorage| p@)),
            None => inputs_json(v@) is None,
        },
{
    proof {
        lemma_view_unfolds(*v);
    }
    match v {
        JsonValue::Array(items) => {
            let ghost views = crate::json::item_views(items@);
            let mut out: Vec<PreparedStorage> = Vec::new();
            let mut i: usize = 0;
            while i < items.len()
                invariant
                    0 <= i <= items.len(),
                    views == crate::json::item_views(items@),
                    v@ == JsonView::Array(views),
                    out@.len() == i,
                    forall|k: int|
                        0 <= k < i ==> storage_json(#[trigger] views[k]) == Some(out@[k]@),
                decreases items.len() - i,
            {
                match storage_from_json(&items[i]) {
                    Some(p) => {
                        out.push(p);
                    },
                    None => {
                        assert(storage_json(views[i as int]) is None);
                        return None;
                    },
                }
                i = i + 1;
            }
            assert(out@.map_values(|p: PreparedStorage| p@) =~= Seq::new(
                views.len(),
                |k: int| storage_json(views[k]).unwrap(),
            ));
            Some(out)
        },
        _ => None,
    }
}

/// Reads a network from a JSON object.
pub fn network_from_json(v: &JsonValue) -> (r: Option<NetworkConfig>)
    ensures
        match r {
            Some(x) => network_json(v@) == Some(x@),
            None => network_json(v@) is None,
        },
{
    proof {
        lemma_view_unfolds(*v);
    }
    match v {
        JsonValue::Object(m) => {
            let a = i32_member(m, "Type", "type");
            let b = match require(m, "Domains", "domains") {
                Some(x) => texts_from_json(x),
                None => None,
            };
            match (a, b) {
                (Some(kind), Some(domains)) => Some(NetworkConfig { kind, domains }),
                _ => None,
            }
        },
        _ => None,
    }
}

/// Reads a job from a JSON object.
pub fn job_from_json(v: &JsonValue) -> (r: Option<RunCommandRequest>)
    ensures
        opt_job(r) == job_json(v@),
{
    proof {
        lemma_view_unfolds(*v);
    }
    match v {
        JsonValue::Object(m) => {
            let execution_id = match text_member(m, "ExecutionID", "execution_id") {
                Some(id) => id,
                None => {
                    return None;
                },
            };
            let job_id = match optional_text_member(m, "JobID", "job_id") {
                Some(x) => x,
                None => {
                    return None;
                },
            };
            let resources = match allow(m, "Resources", "resources") {
                None => {
                    return None;
                },
                Some(None) => None,
                Some(Some(x)) => match resources_from_json(x) {
                    Some(r) => Some(r),
                    None => {
                        return None;
                    },
                },
            };
            let network = match allow(m, "Network", "network") {
                None => {
                    return None;
                },
                Some(None) => None,
                Some(Some(x)) => match network_from_json(x) {
                    Some(r) => Some(r),
                    None => {
                        return None;
                    },
                },
            };
            let outputs = match allow(m, "Outputs", "outputs") {
                None => {
                    return None;
                },
                Some(None) => None,
                Some(Some(x)) => match outputs_from_json(x) {
                    Some(r) => Some(r),
                    None => {
                        return None;
                    },
                },
            };
            let inputs = match allow(m, "Inputs", "inputs") {
                None => {
                    return None;
                },
                Some(None) => None,
                Some(Some(x)) => match inputs_from_json(x) {
                    Some(r) => Some(r),
                    None => {
                        return None;
                    },
                },
            };
            let results_dir = match optional_text_member(m, "ResultsDir", "results_dir") {
                Some(x) => x,
                None => {
                    return None;
                },
            };
            let engine_params = match allow(m, "EngineParams", "engine_params") {
                None => {
                    return None;
                },
                Some(None) => None,
                Some(Some(x)) => match config_from_json(x) {
                    Some(r) => Some(r),
                    None => {
                        return None;
                    },
                },
            };
            let output_limits = match allow(m, "OutputLimits", "output_limits") {
                None => {
                    return None;
                },
                Some(None) => None,
                Some(Some(x)) => match limits_from_json(x) {
                    Some(r) => Some(r),
                    None => {
                        return None;
                    },
                },
            };
            Some(
                RunCommandRequest {
                    job_id,
                    execution_id,
                    resources,
                    network,
                    outputs,
                    inputs,
                    results_dir,
                    engine_params,
                    output_limits,
                },
            )
        },
        _ => None,
    }
}

/// Reads a job from a payload.
pub fn decode_job(bytes: &[u8]) -> (r: Option<RunCommandRequest>)
    ensures
        opt_job(r) == decoded_job(bytes@),
{
    match parse_json(bytes) {
        Some(v) => job_from_json(&v),
        None => None,
    }
}

/// Reads resources from a payload.
pub fn decode_resources(bytes: &[u8]) -> (r: Option<Resources>)
    ensures
        r == decoded_resources(bytes@),
{
    match parse_json(bytes) {
        Some(v) => resources_from_json(&v),
        None => None,
    }
}

/// A truth value as JSON writes it.
pub open spec fn flag_text(b: bool) -> Seq<char> {
    if b {
        "true"@
    } else {
        "false"@
    }
}

/// An optional text as JSON writes it: null where there is none.
pub open spec fn nullable_text(o: Option<Seq<char>>) -> Seq<char> {
    match o {
        Some(t) => quoted(t),
        None => "null"@,
    }
}

/// A result as JSON text: one object without spaces, its members in the
/// order of the result's fields and under their plain names.
pub open spec fn response_text(r: RunCommandResponseView) -> Seq<char> {
    "{\"stdout\":"@ + quoted(r.stdout) + ",\"stdout_truncated\":"@ + flag_text(r.stdout_truncated)
        + ",\"stderr\":"@ + quoted(r.stderr) + ",\"stderr_truncated\":"@ + flag_text(
        r.stderr_truncated,
    ) + ",\"exit_code\":"@ + integer_text(r.exit_code) + ",\"error_msg\":"@ + nullable_text(
        r.error_msg,
    ) + "}"@
}

/// A truth value as JSON writes it.
fn flag_str(b: bool) -> (s: &'static str)
    ensures
        s@ == flag_text(b),
{
    if b {
        "true"
    } else {
        "false"
    }
}

/// Writes a result as JSON.
pub fn encode_response(r: &RunCommandResponse) -> (bytes: Vec<u8>)
    ensures
        bytes@ == encode_utf8(response_text(r@)),
{
    let mut s = String::from_str("{\"stdout\":");
    s.append(quote(r.stdout.as_str()).as_str());
    s.append(",\"stdout_truncated\":");
    s.append(flag_str(r.stdout_truncated));
    s.append(",\"stderr\":");
    s.append(quote(r.stderr.as_str()).as_str());
    s.append(",\"stderr_truncated\":");
    s.append(flag_str(r.stderr_truncated));
    s.append(",\"exit_code\":");
    s.append(format_i32(r.exit_code).as_str());
    s.append(",\"error_msg\":");
    match &r.error_msg {
        Some(m) => {
            s.append(quote(m.as_str()).as_str());
        },
        None => {
            s.append("null");
        },
    }
    s.append("}");
    assert(s@ =~= response_text(r@));
    s.as_str().as_bytes_vec()
}

/// The answer to a bid as JSON text.
pub open spec fn bid_text(r: BidResponse) -> Seq<char> {
    "{\"ShouldBid\":"@ + flag_text(r.should_bid) + ",\"Reason\":"@ + quoted(r.reason.text())
        + "}"@
}

/// Writes the answer to a bid as JSON.
pub fn encode_bid(r: &BidResponse) -> (bytes: Vec<u8>)
    ensures
        bytes@ == encode_utf8(bid_text(*r)),
{
    let mut s = String::from_str("{\"ShouldBid\":");
    s.append(flag_str(r.should_bid));
    s.append(",\"Reason\":");
    s.append(quote(r.reason.message().as_str()).as_str());
    s.append("}");
    assert(s@ =~= bid_text(*r));
    s.as_str().as_bytes_vec()
}

} // verus!
