use label_print::errors::{bad_request, conflict};

#[test]
fn bad_request_is_400_with_message() {
    let reply = bad_request("barcode is required");
    assert_eq!(reply.status, 400);
    assert_eq!(reply.body.error, "barcode is required");
}

#[test]
fn conflict_is_409_with_message() {
    let reply = conflict("PLAN_QTY_EXCEEDED");
    assert_eq!(reply.status, 409);
    assert_eq!(reply.body.error, "PLAN_QTY_EXCEEDED");
}
