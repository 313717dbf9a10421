use opentainer_core::envelope::CommandResponse;

#[test]
fn command_response_ok_sets_fields() {
    let resp = CommandResponse::ok(42);
    assert!(resp.success);
    assert_eq!(resp.data, Some(42));
    assert!(resp.error.is_none());
}

#[test]
fn command_response_ok_empty_sets_fields() {
    let resp: CommandResponse<()> = CommandResponse::ok_empty();
    assert!(resp.success);
    assert!(resp.data.is_none());
    assert!(resp.error.is_none());
}

#[test]
fn command_response_err_sets_fields() {
    let resp: CommandResponse<()> = CommandResponse::err("something broke");
    assert!(!resp.success);
    assert!(resp.data.is_none());
    assert_eq!(resp.error, Some("something broke".to_string()));
}

#[test]
fn command_response_from_result_wraps_both_ways() {
    let ok: CommandResponse<u8> = CommandResponse::from_result(Ok(7));
    assert!(ok.success);
    assert_eq!(ok.data, Some(7));
    assert!(ok.error.is_none());

    let err: CommandResponse<u8> = CommandResponse::from_result(Err("down".to_string()));
    assert!(!err.success);
    assert!(err.data.is_none());
    assert_eq!(err.error, Some("down".to_string()));
}
