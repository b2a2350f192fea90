use python_executor::executor::route;
use python_executor::executor::same_text;
use python_executor::executor::Method;
use python_executor::executor::UNIMPLEMENTED;
use python_executor::handshake::get_port;
use python_executor::handshake::listen_address;
use python_executor::handshake::write_handshake;
use python_executor::handshake::DEFAULT_PORT;

#[test]
fn routes_every_method() {
    assert_eq!(route("/executor.Executor/Run"), Some(Method::Run));
    assert_eq!(route("/executor.Executor/Start"), Some(Method::Start));
    assert_eq!(route("/executor.Executor/Wait"), Some(Method::Wait));
    assert_eq!(route("/executor.Executor/Cancel"), Some(Method::Cancel));
    assert_eq!(route("/executor.Executor/IsInstalled"), Some(Method::IsInstalled));
    assert_eq!(route("/executor.Executor/ShouldBid"), Some(Method::ShouldBid));
    assert_eq!(
        route("/executor.Executor/ShouldBidBasedOnUsage"),
        Some(Method::ShouldBidBasedOnUsage)
    );
    assert_eq!(route("/executor.Executor/GetOutputStream"), Some(Method::GetOutputStream));
}

#[test]
fn unknown_paths_have_no_method() {
    assert_eq!(route(""), None);
    assert_eq!(route("/"), None);
    assert_eq!(route("/executor.Executor/run"), None);
    assert_eq!(route("/executor.Executor/Run/"), None);
    assert_eq!(route("executor.Executor/Run"), None);
    assert_eq!(route("/executor.Executor/ShouldBidBased"), None);
    assert_eq!(route("/other.Service/Run"), None);
    assert_eq!(UNIMPLEMENTED, 12);
}

#[test]
fn streaming_methods() {
    assert!(Method::Wait.is_streaming());
    assert!(Method::GetOutputStream.is_streaming());
    assert!(!Method::Run.is_streaming());
    assert!(!Method::Start.is_streaming());
    assert!(!Method::Cancel.is_streaming());
    assert!(!Method::IsInstalled.is_streaming());
    assert!(!Method::ShouldBid.is_streaming());
    assert!(!Method::ShouldBidBasedOnUsage.is_streaming());
}

#[test]
fn texts_compare_by_content() {
    assert!(same_text("", ""));
    assert!(same_text("abc", "abc"));
    assert!(!same_text("abc", "abd"));
    assert!(!same_text("abc", "ab"));
    assert!(same_text("ä", "ä"));
    assert!(!same_text("ä", "a"));
}

#[test]
fn handshake_line_for_the_default_port() {
    assert_eq!(write_handshake(2112), "1|1|tcp|127.0.0.1:2112|grpc\n");
    assert_eq!(write_handshake(DEFAULT_PORT), "1|1|tcp|127.0.0.1:2112|grpc\n");
    assert_eq!(write_handshake(0), "1|1|tcp|127.0.0.1:0|grpc\n");
    assert_eq!(write_handshake(65535), "1|1|tcp|127.0.0.1:65535|grpc\n");
    assert_eq!(write_handshake(-1), "1|1|tcp|127.0.0.1:-1|grpc\n");
}

#[test]
fn listen_address_names_the_port() {
    assert_eq!(listen_address(2112), "127.0.0.1:2112");
    assert_eq!(listen_address(8080), "127.0.0.1:8080");
}

#[test]
fn port_from_the_setting() {
    assert_eq!(get_port(None), Some(2112));
    assert_eq!(get_port(Some("8080")), Some(8080));
    assert_eq!(get_port(Some("+8080")), Some(8080));
    assert_eq!(get_port(Some("-5")), Some(-5));
    assert_eq!(get_port(Some("2147483647")), Some(i32::MAX));
    assert_eq!(get_port(Some("+2147483648")), None);
    assert_eq!(get_port(Some("2147483648")), None);
    assert_eq!(get_port(Some("")), None);
    assert_eq!(get_port(Some("+")), None);
    assert_eq!(get_port(Some("80 ")), None);
    assert_eq!(get_port(Some("http")), None);
}
