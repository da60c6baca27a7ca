use f1r3fly_client::error::ApiError;
use f1r3fly_client::hexadecimal::HexError;
use f1r3fly_client::http::{failure_text, http_error_text, Status, StatusClass};

#[test]
fn status_codes_have_three_digits() {
    assert!(Status::new(99).is_none());
    assert!(Status::new(1000).is_none());
    assert_eq!(Status::new(100).unwrap().code(), 100);
    assert_eq!(Status::new(999).unwrap().code(), 999);
}

#[test]
fn status_codes_are_classified() {
    let class = |code| Status::new(code).unwrap().class();
    assert_eq!(class(199), StatusClass::Failure);
    assert_eq!(class(200), StatusClass::Success);
    assert_eq!(class(299), StatusClass::Success);
    assert_eq!(class(300), StatusClass::Failure);
    assert_eq!(class(404), StatusClass::NotFound);
    assert_eq!(class(500), StatusClass::Failure);
}

#[test]
fn an_unreadable_body_has_a_text() {
    assert_eq!(failure_text(&None), "Unable to read response body");
    assert_eq!(failure_text(&Some("oops".to_string())), "oops");
}

#[test]
fn http_errors_name_the_status() {
    let error = |code, body: &str| {
        ApiError::Http { status: Status::new(code).unwrap(), body: body.to_string() }.message()
    };
    assert_eq!(
        error(503, "down"),
        "HTTP error 503 Service Unavailable: Service Unavailable - Response: down"
    );
    assert_eq!(error(599, ""), "HTTP error 599 <unknown status code>: Unknown - Response: ");
}

#[test]
fn fixed_messages() {
    assert_eq!(ApiError::Decode.message(), "error decoding response body");
    assert_eq!(ApiError::DeployResultMissing.message(), "Deploy result not found");
    assert_eq!(
        ApiError::ExploratoryResultMissing.message(),
        "Exploratory deploy result not found"
    );
    assert_eq!(ApiError::ProposeResponseMissing.message(), "Missing propose response");
    assert_eq!(ApiError::DataResponseMissing.message(), "No response from getDataAtName");
    assert_eq!(
        ApiError::DeployNotIncluded.message(),
        "Deploy not included in any block after 60s of polling"
    );
    assert_eq!(ApiError::FinalizationUnknown.message(), "Error checking finalization status");
    assert_eq!(
        ApiError::NodeUnreachable.message(),
        "Failed to connect to node after maximum attempts"
    );
}

#[test]
fn messages_with_details() {
    let text = |s: &str| s.to_string();
    assert_eq!(ApiError::Transport(text("t")).message(), "t");
    assert_eq!(ApiError::Service(text("s")).message(), "s");
    assert_eq!(
        ApiError::DeployIdMissing(text("r")).message(),
        "Could not extract deploy ID from response: r"
    );
    assert_eq!(ApiError::Propose(text("p")).message(), "Propose error: p");
    assert_eq!(
        ApiError::DataAtName(vec![text("a"), text("b")]).message(),
        "getDataAtName error: a; b"
    );
    assert_eq!(ApiError::BlockLookup(text("l")).message(), "Failed to look up deploy block: l");
    assert_eq!(
        ApiError::DataTimedOut { attempts: 60, deploy_id: text("30") }.message(),
        "Timed out after 60 attempts waiting for data at deploy 30"
    );
    assert_eq!(ApiError::Network(text("n")).message(), "Network error: n");
    assert_eq!(
        ApiError::BlockStream(vec![text("x"), text("y"), text("z")]).message(),
        "gRPC Error: x; y; z"
    );
}

#[test]
fn messages_on_hexadecimal() {
    assert_eq!(
        ApiError::InvalidDeployId(HexError::OddLength).message(),
        "Invalid deploy ID hex: Odd number of digits"
    );
    assert_eq!(
        ApiError::InvalidDeployId(HexError::InvalidStringLength).message(),
        "Invalid deploy ID hex: Invalid string length"
    );
    assert_eq!(
        ApiError::InvalidDeployId(HexError::InvalidHexCharacter { c: 'g', index: 12 }).message(),
        "Invalid deploy ID hex: Invalid character 'g' at position 12"
    );
    assert_eq!(
        ApiError::InvalidDeployId(HexError::InvalidHexCharacter { c: '\n', index: 0 }).message(),
        "Invalid deploy ID hex: Invalid character '\\n' at position 0"
    );
}

#[test]
fn http_errors_from_their_parts() {
    assert_eq!(
        http_error_text("418 Teapot", &Some("Teapot".to_string()), "b"),
        "HTTP error 418 Teapot: Teapot - Response: b"
    );
    assert_eq!(http_error_text("s", &None, ""), "HTTP error s: Unknown - Response: ");
}
