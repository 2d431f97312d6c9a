use anchor::error::{redact_secrets, AppError};

#[test]
fn redaction_replaces_token_words() {
    assert_eq!(redact_secrets("Bearer ghp_LeakToken99 denied"), "Bearer [redacted] denied");
    assert_eq!(redact_secrets("x github_pat_11AB_cd\ny"), "x [redacted]\ny");
    assert_eq!(redact_secrets("url=https://gho_abc@github.com/x"), "url=https://[redacted]");
    assert_eq!(redact_secrets("no secrets here"), "no secrets here");
    assert_eq!(redact_secrets("ghp_"), "[redacted]");
    assert_eq!(redact_secrets("gh_x ghq_y"), "gh_x ghq_y");
}

#[test]
fn error_codes_and_statuses() {
    let cases = [
        (AppError::not_implemented(), "NOT_IMPLEMENTED", 501),
        (AppError::NotFound("a".into()), "NOT_FOUND", 404),
        (AppError::BadGateway("b".into()), "BAD_GATEWAY", 502),
        (AppError::Conflict("c".into()), "CONFLICT", 409),
        (AppError::Other("d".into()), "INTERNAL", 500),
    ];
    for (e, code, status) in cases {
        assert_eq!(e.code(), code);
        assert_eq!(e.status(), status);
        let body = e.body();
        assert_eq!(body.code, code);
        assert_eq!(body.error, e.message());
    }
    assert_eq!(AppError::not_implemented().message(), "not implemented");
}
