use fibers_http_server::Status;

#[test]
fn status_code_of_not_found() {
    assert_eq!(Status::NotFound.code(), 404);
    assert_eq!(Status::NotFound.reason_phrase(), "Not Found");
}

#[test]
fn status_codes() {
    assert_eq!(Status::Continue.code(), 100);
    assert_eq!(Status::SwitchingProtocols.code(), 101);
    assert_eq!(Status::Processing.code(), 102);
    assert_eq!(Status::Okay.code(), 200);
    assert_eq!(Status::ImUsed.code(), 226);
    assert_eq!(Status::PermanentRedirect.code(), 308);
    assert_eq!(Status::BadRequest.code(), 400);
    assert_eq!(Status::MethodNotAllowed.code(), 405);
    assert_eq!(Status::ExceptionFailed.code(), 417);
    assert_eq!(Status::UnavailableForLegalReasons.code(), 451);
    assert_eq!(Status::InternalServerError.code(), 500);
    assert_eq!(Status::BandwidthLimitExceeded.code(), 509);
    assert_eq!(Status::NotExtended.code(), 510);
}

#[test]
fn status_reason_phrases() {
    assert_eq!(Status::Continue.reason_phrase(), "Continue");
    assert_eq!(Status::Okay.reason_phrase(), "OK");
    assert_eq!(Status::NonAuthoritativeInformation.reason_phrase(), "Non-Authoritative Information");
    assert_eq!(Status::MultiStatus.reason_phrase(), "Multi-Status");
    assert_eq!(Status::ImUsed.reason_phrase(), "IM Used");
    assert_eq!(Status::BadRequest.reason_phrase(), "Bad Request");
    assert_eq!(Status::MethodNotAllowed.reason_phrase(), "Method Not Allowed");
    assert_eq!(Status::UriTooLong.reason_phrase(), "URI Too Long");
    assert_eq!(Status::ExceptionFailed.reason_phrase(), "Expectation Failed");
    assert_eq!(Status::ImATeapot.reason_phrase(), "I'm a teapot");
    assert_eq!(Status::UnprocessableEntity.reason_phrase(), "Unprocessable Entity");
    assert_eq!(Status::InternalServerError.reason_phrase(), "Internal Server Error");
    assert_eq!(Status::HttpVersionNotSupported.reason_phrase(), "HTTP Version Not Supported");
    assert_eq!(Status::NotExtended.reason_phrase(), "Not Extended");
}

#[test]
fn statuses_are_ordered_and_compared() {
    assert!(Status::Continue < Status::Okay);
    assert!(Status::NotFound < Status::InternalServerError);
    assert_eq!(Status::Okay, Status::Okay);
    assert_ne!(Status::Okay, Status::Created);
    let copy = Status::Gone;
    assert_eq!(copy.clone(), Status::Gone);
}

#[test]
fn status_is_displayed_with_code_and_phrase() {
    assert_eq!(Status::NotFound.text(), "404 Not Found");
    assert_eq!(Status::Okay.text(), "200 OK");
    assert_eq!(Status::Continue.text(), "100 Continue");
    assert_eq!(Status::NotExtended.text(), "510 Not Extended");
    assert_eq!(Status::BandwidthLimitExceeded.text(), "509 Bandwidth Limit Exceeded");
    assert_eq!(Status::ImATeapot.text(), "418 I'm a teapot");
    assert_eq!(Status::Processing.text(), "102 Processing");
}
