use zenvpush::encode::{encode_secret, EncodeError, RecipientKey};
use zenvpush::orchestrator::{
    start, step, Action, AuthEvent, Event, FailReason, FileEvent, ItemEvent, ItemFailure,
    PushOutcome, RemoteEvent, RunState, Stage,
};
use zenvpush::secrets::SecretEntry;

fn b64(bytes: &[u8]) -> Vec<u8> {
    base64::Engine::encode(&base64::engine::general_purpose::STANDARD, bytes).into_bytes()
}

#[test]
fn test_seal_round_trip() {
    let sk = crypto_box::SecretKey::generate(&mut crypto_box::aead::OsRng);
    let pk_bytes = sk.public_key().to_bytes();
    let rk = RecipientKey {
        key_b64: b64(&pk_bytes),
        key_id: b"568250167242549743".to_vec(),
    };
    let entry = SecretEntry {
        key: b"API_KEY".to_vec(),
        value: b"swordfish".to_vec(),
    };
    let enc = encode_secret(&entry, &rk).unwrap();
    assert_eq!(enc.key, b"API_KEY".to_vec());
    assert_eq!(enc.key_id, b"568250167242549743".to_vec());
    // the payload is not the plaintext in any dress
    assert_ne!(enc.payload, entry.value);
    assert_ne!(enc.payload, b64(b"swordfish"));
    // the holder of the secret key, and only a decode-then-unseal, recovers it
    let sealed = base64::Engine::decode(
        &base64::engine::general_purpose::STANDARD,
        &enc.payload,
    )
    .unwrap();
    let opened = sk.unseal(&sealed).unwrap();
    assert_eq!(opened, b"swordfish".to_vec());
}

#[test]
fn test_encode_rejects_malformed_key() {
    let entry = SecretEntry {
        key: b"A".to_vec(),
        value: b"1".to_vec(),
    };
    // not base64 at all
    let rk = RecipientKey {
        key_b64: b"!!!not-base64!!!".to_vec(),
        key_id: b"1".to_vec(),
    };
    assert!(matches!(
        encode_secret(&entry, &rk),
        Err(EncodeError::MalformedRecipientKey)
    ));
    // valid base64, wrong length
    let rk = RecipientKey {
        key_b64: b64(b"short"),
        key_id: b"1".to_vec(),
    };
    assert!(matches!(
        encode_secret(&entry, &rk),
        Err(EncodeError::MalformedRecipientKey)
    ));
}

#[test]
fn test_full_run_with_partial_failure() {
    let (st, act) = start();
    assert!(matches!(act, Action::FetchRemote));
    let (st, act) = step(
        st,
        Event::Remote(RemoteEvent::Url(b"https://github.com/owner/repo.git".to_vec())),
    );
    assert!(matches!(act, Action::VerifyCredential));
    let (st, act) = step(st, Event::Auth(AuthEvent::Status(200)));
    assert!(matches!(act, Action::ReadSecretsFile));
    let (st, act) = step(
        st,
        Event::File(FileEvent::Content(b"A=1\nB=2\nC=3\n".to_vec())),
    );
    assert!(matches!(act, Action::PublishEntry { index: 0 }));
    let (st, act) = step(st, Event::Item(ItemEvent::Status(201)));
    assert!(matches!(act, Action::Pace));
    let (st, act) = step(st, Event::Paced);
    assert!(matches!(act, Action::PublishEntry { index: 1 }));
    // entry B fails; C must still be attempted
    let (st, act) = step(st, Event::Item(ItemEvent::Status(500)));
    assert!(matches!(act, Action::Pace));
    let (st, act) = step(st, Event::Paced);
    assert!(matches!(act, Action::PublishEntry { index: 2 }));
    let (st, act) = step(st, Event::Item(ItemEvent::Status(204)));
    assert!(matches!(act, Action::Pace));
    let (st, act) = step(st, Event::Paced);
    assert!(matches!(act, Action::Report));
    match st {
        RunState::Done { report } => {
            assert_eq!(report.results.len(), 3);
            assert!(!report.all_ok);
            assert!(!report.nothing_to_publish);
            assert_eq!(report.results[0].key, b"A".to_vec());
            assert_eq!(report.results[1].key, b"B".to_vec());
            assert_eq!(report.results[2].key, b"C".to_vec());
            assert!(matches!(report.results[0].outcome, PushOutcome::Success));
            assert!(matches!(
                report.results[1].outcome,
                PushOutcome::Failure(ItemFailure::Http(500))
            ));
            assert!(matches!(report.results[2].outcome, PushOutcome::Success));
        },
        _ => panic!("run did not finish"),
    }
}

#[test]
fn test_all_ok_run() {
    let (st, _) = start();
    let (st, _) = step(
        st,
        Event::Remote(RemoteEvent::Url(b"git@github.com:owner/repo.git".to_vec())),
    );
    let (st, _) = step(st, Event::Auth(AuthEvent::Status(204)));
    let (st, _) = step(st, Event::File(FileEvent::Content(b"ONLY=ONE".to_vec())));
    let (st, _) = step(st, Event::Item(ItemEvent::Status(201)));
    let (st, act) = step(st, Event::Paced);
    assert!(matches!(act, Action::Report));
    match st {
        RunState::Done { report } => {
            assert!(report.all_ok);
            assert!(!report.nothing_to_publish);
            assert_eq!(report.results.len(), 1);
        },
        _ => panic!("run did not finish"),
    }
}

#[test]
fn test_verify_token_fail() {
    // an invalid credential aborts pre-flight: no publish is ever requested
    let (st, act) = start();
    assert!(matches!(act, Action::FetchRemote));
    let (st, act) = step(
        st,
        Event::Remote(RemoteEvent::Url(b"git@github.com:owner/repo.git".to_vec())),
    );
    assert!(matches!(act, Action::VerifyCredential));
    let (st, act) = step(st, Event::Auth(AuthEvent::Status(401)));
    assert!(matches!(act, Action::Abort));
    match st {
        RunState::Failed { stage, reason } => {
            assert_eq!(stage, Stage::ValidatingCredential);
            assert_eq!(reason, FailReason::AuthRejected(401));
        },
        _ => panic!("pre-flight did not abort"),
    }
}

#[test]
fn test_auth_transport_failure_is_fatal() {
    let (st, _) = start();
    let (st, _) = step(
        st,
        Event::Remote(RemoteEvent::Url(b"git@github.com:owner/repo.git".to_vec())),
    );
    let (st, _) = step(st, Event::Auth(AuthEvent::Transport));
    assert!(matches!(
        st,
        RunState::Failed { stage: Stage::ValidatingCredential, reason: FailReason::AuthTransport }
    ));
}

#[test]
fn test_nothing_to_publish() {
    let (st, _) = start();
    let (st, _) = step(
        st,
        Event::Remote(RemoteEvent::Url(b"git@github.com:owner/repo.git".to_vec())),
    );
    let (st, _) = step(st, Event::Auth(AuthEvent::Status(200)));
    let (st, act) = step(
        st,
        Event::File(FileEvent::Content(b"# only comments\n   \nno separator\n".to_vec())),
    );
    assert!(matches!(act, Action::Report));
    match st {
        RunState::Done { report } => {
            assert!(report.nothing_to_publish);
            assert!(report.all_ok);
            assert_eq!(report.results.len(), 0);
        },
        _ => panic!("empty run did not finish"),
    }
}

#[test]
fn test_remote_failures_are_fatal() {
    let (st, _) = start();
    let (st, act) = step(st, Event::Remote(RemoteEvent::Missing));
    assert!(matches!(act, Action::Abort));
    assert!(matches!(
        st,
        RunState::Failed { stage: Stage::ResolvingIdentity, reason: FailReason::RemoteMissing }
    ));
    let (st, _) = start();
    let (st, _) = step(
        st,
        Event::Remote(RemoteEvent::Url(b"ftp://example.com/a/b".to_vec())),
    );
    assert!(matches!(
        st,
        RunState::Failed { stage: Stage::ResolvingIdentity, reason: FailReason::BadRemoteUrl }
    ));
    // a configured URL that is not valid text is a parse failure too
    let (st, _) = start();
    let (st, _) = step(st, Event::Remote(RemoteEvent::NotText));
    assert!(matches!(
        st,
        RunState::Failed { stage: Stage::ResolvingIdentity, reason: FailReason::BadRemoteUrl }
    ));
}

#[test]
fn test_unreadable_file_is_fatal() {
    let (st, _) = start();
    let (st, _) = step(
        st,
        Event::Remote(RemoteEvent::Url(b"git@github.com:owner/repo.git".to_vec())),
    );
    let (st, _) = step(st, Event::Auth(AuthEvent::Status(200)));
    let (st, act) = step(st, Event::File(FileEvent::Unreadable));
    assert!(matches!(act, Action::Abort));
    assert!(matches!(
        st,
        RunState::Failed { stage: Stage::ParsingSecrets, reason: FailReason::FileUnreadable }
    ));
}
