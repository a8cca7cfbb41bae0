use tau_gui::proto::git::GitRevertParams;
use tau_gui::proto::policy::{PromptActor, QuestionReply, Validate};

#[test]
fn revert_requires_explicit_confirmation_and_safe_path() {
    let base = GitRevertParams {
        project: "demo".into(),
        path: "src/lib.rs".into(),
        confirmed: true,
    };
    assert!(base.validate());
    assert!(
        !GitRevertParams {
            confirmed: false,
            ..base.clone()
        }
        .validate()
    );
    assert!(
        !GitRevertParams {
            path: "../secret".into(),
            ..base
        }
        .validate()
    );
}

#[test]
fn typed_replies_require_request_and_idempotency_keys() {
    let reply = QuestionReply {
        request_id: "request".into(),
        idempotency_key: "reply".into(),
        answer: "yes".into(),
        actor: PromptActor::Human,
    };
    assert!(reply.validate().is_ok());
    assert!(
        QuestionReply {
            request_id: " ".into(),
            ..reply
        }
        .validate()
        .is_err()
    );
}
