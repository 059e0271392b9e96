use zenvpush::remote::{parse_remote_url, GitError};
use zenvpush::request::{secret_body, secret_endpoint};
use zenvpush::encode::EncodedSecret;
use zenvpush::remote::RepoIdentity;
use zenvpush::secrets::parse_secrets;
use zenvpush::status_is_success;

#[test]
fn test_get_origin_repo() {
    let res = parse_remote_url(&b"git@github.com:owner/repo.git".to_vec()).unwrap();
    assert_eq!(
        (res.owner, res.name),
        (b"owner".to_vec(), b"repo".to_vec())
    );
}

#[test]
fn test_parse_ssh_without_suffix() {
    let res = parse_remote_url(&b"git@github.com:someone/project".to_vec()).unwrap();
    assert_eq!(res.owner, b"someone".to_vec());
    assert_eq!(res.name, b"project".to_vec());
}

#[test]
fn test_parse_https_forms() {
    let res = parse_remote_url(&b"https://github.com/owner/repo.git".to_vec()).unwrap();
    assert_eq!(res.owner, b"owner".to_vec());
    assert_eq!(res.name, b"repo".to_vec());
    let res = parse_remote_url(&b"https://github.com/owner/repo".to_vec()).unwrap();
    assert_eq!(res.owner, b"owner".to_vec());
    assert_eq!(res.name, b"repo".to_vec());
}

#[test]
fn test_parse_unsupported_scheme() {
    assert!(matches!(
        parse_remote_url(&b"ftp://github.com/owner/repo".to_vec()),
        Err(GitError::ParseError)
    ));
    assert!(matches!(
        parse_remote_url(&b"ssh://git@github.com/owner/repo".to_vec()),
        Err(GitError::ParseError)
    ));
}

#[test]
fn test_parse_missing_segments() {
    assert!(matches!(
        parse_remote_url(&b"git@github.com:ownerrepo".to_vec()),
        Err(GitError::ParseError)
    ));
    assert!(matches!(
        parse_remote_url(&b"https://github.com".to_vec()),
        Err(GitError::ParseError)
    ));
    assert!(matches!(
        parse_remote_url(&b"git@github.com:/repo.git".to_vec()),
        Err(GitError::ParseError)
    ));
    assert!(matches!(
        parse_remote_url(&b"https://github.com/owner/.git".to_vec()),
        Err(GitError::ParseError)
    ));
}

#[test]
fn test_read_secrets() {
    let content = b"# comment\nKEY1=VALUE1\n   \nKEY2=VALUE2\n".to_vec();
    let secrets = parse_secrets(&content);
    assert_eq!(secrets.len(), 2);
    assert_eq!(secrets[0].key, b"KEY1".to_vec());
    assert_eq!(secrets[0].value, b"VALUE1".to_vec());
    assert_eq!(secrets[1].key, b"KEY2".to_vec());
    assert_eq!(secrets[1].value, b"VALUE2".to_vec());
}

#[test]
fn test_read_secrets_edge_cases() {
    // a surviving line without a separator is silently dropped
    let secrets = parse_secrets(&b"NOSEPARATOR\nGOOD=1\n".to_vec());
    assert_eq!(secrets.len(), 1);
    assert_eq!(secrets[0].key, b"GOOD".to_vec());
    // the first `=` splits; both halves are trimmed
    let secrets = parse_secrets(&b"  A  =  B=C  \n".to_vec());
    assert_eq!(secrets.len(), 1);
    assert_eq!(secrets[0].key, b"A".to_vec());
    assert_eq!(secrets[0].value, b"B=C".to_vec());
    // empty input and comment-only input yield nothing
    assert_eq!(parse_secrets(&b"".to_vec()).len(), 0);
    assert_eq!(parse_secrets(&b"# a\n#b\n   \n".to_vec()).len(), 0);
    // empty value is kept
    let secrets = parse_secrets(&b"EMPTY=\n".to_vec());
    assert_eq!(secrets.len(), 1);
    assert_eq!(secrets[0].value, b"".to_vec());
    // carriage returns count as surrounding whitespace
    let secrets = parse_secrets(&b"A=1\r\nB=2\r\n".to_vec());
    assert_eq!(secrets.len(), 2);
    assert_eq!(secrets[0].value, b"1".to_vec());
    assert_eq!(secrets[1].value, b"2".to_vec());
}

#[test]
fn test_secret_endpoint_exact() {
    let repo = RepoIdentity {
        owner: b"owner".to_vec(),
        name: b"repo".to_vec(),
    };
    let url = secret_endpoint(&repo, &b"MY_KEY".to_vec());
    assert_eq!(
        url,
        b"https://api.github.com/repos/owner/repo/actions/secrets/MY_KEY".to_vec()
    );
}

#[test]
fn test_secret_body_exact() {
    let enc = EncodedSecret {
        key: b"K".to_vec(),
        payload: b"cGF5bG9hZA==".to_vec(),
        key_id: b"568250167242549743".to_vec(),
    };
    let body = secret_body(&enc);
    assert_eq!(
        body,
        b"{\"encrypted_value\":\"cGF5bG9hZA==\",\"key_id\":\"568250167242549743\"}".to_vec()
    );
}

#[test]
fn test_secret_body_escapes() {
    let enc = EncodedSecret {
        key: b"K".to_vec(),
        payload: b"a\"b\\c\nd".to_vec(),
        key_id: b"1".to_vec(),
    };
    let body = secret_body(&enc);
    assert_eq!(
        body,
        b"{\"encrypted_value\":\"a\\\"b\\\\c\\u000ad\",\"key_id\":\"1\"}".to_vec()
    );
}

#[test]
fn test_publish_request_deterministic() {
    let repo = RepoIdentity {
        owner: b"o".to_vec(),
        name: b"r".to_vec(),
    };
    let enc = EncodedSecret {
        key: b"K".to_vec(),
        payload: b"Zm9v".to_vec(),
        key_id: b"7".to_vec(),
    };
    assert_eq!(
        secret_endpoint(&repo, &enc.key),
        secret_endpoint(&repo, &enc.key)
    );
    assert_eq!(secret_body(&enc), secret_body(&enc));
}

#[test]
fn test_status_ranges() {
    assert!(status_is_success(200));
    assert!(status_is_success(204));
    assert!(status_is_success(299));
    assert!(!status_is_success(199));
    assert!(!status_is_success(301));
    assert!(!status_is_success(401));
    assert!(!status_is_success(500));
}
