use fee_insights::AppError;

fn status_of(err: AppError) -> u16 {
    err.status_code()
}

#[test]
fn config_error_returns_500() {
    assert_eq!(status_of(AppError::Config("bad config".into())), 500);
}

#[test]
fn network_error_returns_502() {
    assert_eq!(status_of(AppError::Network("timeout".into())), 502);
}

#[test]
fn parse_error_returns_422() {
    assert_eq!(status_of(AppError::Parse("invalid json".into())), 422);
}

#[test]
fn unknown_error_returns_500() {
    assert_eq!(status_of(AppError::Unknown("something broke".into())), 500);
}

#[test]
fn display_messages_are_prefixed() {
    assert_eq!(
        AppError::Config("missing key".into()).message(),
        "Config error: missing key"
    );
    assert_eq!(
        AppError::Network("refused".into()).message(),
        "Network error: refused"
    );
    assert_eq!(
        AppError::Parse("bad field".into()).message(),
        "Parse error: bad field"
    );
    assert_eq!(
        AppError::Unknown("???".into()).message(),
        "Unknown error: ???"
    );
}
