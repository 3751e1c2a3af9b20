use vm_rs::cli::SyncArgs;
use vm_rs::errors::SyncError;
use vm_rs::synth::{
    synthesize, synthesize_checked, synthesize_tokens, Direction, Feed, SyncRequest, Transport,
};

fn host_req(direction: Direction, listing: bool, remote: &str) -> SyncRequest {
    SyncRequest::new(
        Transport::HostBased,
        direction,
        listing,
        false,
        None,
        Some("box".to_string()),
        remote.to_string(),
        vec![],
    )
    .unwrap()
}

#[test]
fn push_command_is_exact() {
    let r = host_req(Direction::Push, false, "/srv/app");
    assert_eq!(synthesize(&r), "rsync -azsc ./ box:/srv/app");
}

#[test]
fn object_store_listing_is_exact() {
    let r = SyncRequest::new(
        Transport::ObjectStore,
        Direction::Pull,
        true,
        false,
        None,
        None,
        "bucket/key".to_string(),
        vec![],
    )
    .unwrap();
    let cmd = synthesize(&r);
    assert_eq!(cmd, "aws --profile mfa s3 ls bucket/key");
    assert!(cmd.ends_with("ls bucket/key"));
}

#[test]
fn object_store_transfer_uses_sync() {
    let r = SyncRequest::new(
        Transport::ObjectStore,
        Direction::Push,
        false,
        false,
        None,
        None,
        "bucket/key".to_string(),
        vec![],
    )
    .unwrap();
    assert_eq!(synthesize(&r), "aws --profile mfa s3 sync ./ bucket/key");
}

#[test]
fn pull_orders_remote_first() {
    let r = host_req(Direction::Pull, false, "/srv");
    assert_eq!(synthesize(&r), "rsync -azsc box:/srv ./");
}

#[test]
fn listing_host_based_uses_remote_shell() {
    let r = host_req(Direction::Push, true, "/srv");
    assert_eq!(synthesize(&r), "ssh box ls -l /srv");
}

#[test]
fn git_feed_prepends_pipeline() {
    let r = SyncRequest::new(
        Transport::HostBased,
        Direction::Push,
        false,
        true,
        None,
        Some("box".to_string()),
        "/srv".to_string(),
        vec![],
    )
    .unwrap();
    assert_eq!(r.feed, Feed::GitTracked);
    assert_eq!(synthesize(&r), "git ls-files | rsync -azsc ./ box:/srv");
}

#[test]
fn pipe_file_token_before_passthrough() {
    let r = SyncRequest::new(
        Transport::HostBased,
        Direction::Push,
        false,
        false,
        Some("list.txt".to_string()),
        Some("box".to_string()),
        "/srv".to_string(),
        vec!["-v".to_string()],
    )
    .unwrap();
    assert_eq!(synthesize(&r), "rsync -azsc '--files-from=list.txt' -v ./ box:/srv");
}

#[test]
fn listing_takes_no_file_list() {
    let r = SyncRequest::new(
        Transport::HostBased,
        Direction::Push,
        true,
        false,
        Some("list.txt".to_string()),
        Some("box".to_string()),
        "/srv".to_string(),
        vec![],
    )
    .unwrap();
    assert_eq!(synthesize(&r), "ssh box ls -l /srv");
}

#[test]
fn embedded_space_is_quoted() {
    let r = host_req(Direction::Push, false, "/my dir");
    assert_eq!(synthesize(&r), "rsync -azsc ./ 'box:/my dir'");
}

#[test]
fn git_and_pipe_rejected() {
    let r = SyncRequest::new(
        Transport::HostBased,
        Direction::Push,
        false,
        true,
        Some("x".to_string()),
        Some("h".to_string()),
        "/p".to_string(),
        vec![],
    );
    match r {
        Err(SyncError::InvalidCombination { reason }) => {
            assert_eq!(reason, "git-tracked and pipe-file sources are mutually exclusive")
        },
        other => panic!("expected InvalidCombination, got {:?}", other),
    }
}

#[test]
fn object_store_host_rejected() {
    let r = SyncRequest::new(
        Transport::ObjectStore,
        Direction::Push,
        false,
        false,
        None,
        Some("h".to_string()),
        "/p".to_string(),
        vec![],
    );
    match r {
        Err(SyncError::InvalidCombination { reason }) => {
            assert_eq!(reason, "object-store transport cannot take a host or a file-list source")
        },
        other => panic!("expected InvalidCombination, got {:?}", other),
    }
}

#[test]
fn object_store_git_rejected() {
    let r = SyncRequest::new(
        Transport::ObjectStore,
        Direction::Push,
        false,
        true,
        None,
        None,
        "/p".to_string(),
        vec![],
    );
    assert!(matches!(r, Err(SyncError::InvalidCombination { .. })));
}

#[test]
fn host_based_needs_host() {
    let r = SyncRequest::new(
        Transport::HostBased,
        Direction::Push,
        false,
        false,
        None,
        None,
        "/p".to_string(),
        vec![],
    );
    match r {
        Err(SyncError::InvalidCombination { reason }) => {
            assert_eq!(reason, "host-based transport needs a target host")
        },
        other => panic!("expected InvalidCombination, got {:?}", other),
    }
}

#[test]
fn synthesis_is_deterministic() {
    let a = host_req(Direction::Push, false, "/srv/app");
    let b = host_req(Direction::Push, false, "/srv/app");
    let c1 = synthesize(&a);
    let c2 = synthesize(&a);
    let c3 = synthesize(&b);
    assert_eq!(c1, c2);
    assert_eq!(c1, c3);
}

#[test]
fn positional_operand_counts() {
    let listing = host_req(Direction::Push, true, "/srv");
    assert_eq!(
        synthesize_tokens(&listing),
        vec!["ssh", "box", "ls", "-l", "/srv"]
            .into_iter()
            .map(String::from)
            .collect::<Vec<_>>()
    );
    let push = host_req(Direction::Push, false, "/srv");
    assert_eq!(
        synthesize_tokens(&push),
        vec!["rsync", "-azsc", "./", "box:/srv"]
            .into_iter()
            .map(String::from)
            .collect::<Vec<_>>()
    );
    let pull = host_req(Direction::Pull, false, "/srv");
    assert_eq!(
        synthesize_tokens(&pull),
        vec!["rsync", "-azsc", "box:/srv", "./"]
            .into_iter()
            .map(String::from)
            .collect::<Vec<_>>()
    );
}

#[test]
fn nul_rejected_by_checked_synthesis() {
    let bad = host_req(Direction::Push, false, "/srv\u{0}x");
    assert_eq!(synthesize_checked(&bad), None);
    let good = host_req(Direction::Push, false, "/srv");
    assert_eq!(synthesize_checked(&good), Some(synthesize(&good)));
}

#[test]
fn request_from_args() {
    let a = SyncArgs {
        path: false,
        print: false,
        list: false,
        s3: false,
        git: false,
        pipe: None,
        from: false,
        host: "vmrs-script".to_string(),
        prog_args: vec![],
    };
    assert_eq!(a.marker_filename(), ".vm-prefix");
    let r = a.to_request("/srv".to_string()).unwrap();
    assert_eq!(r.transport, Transport::HostBased);
    assert_eq!(r.host, Some("vmrs-script".to_string()));
    assert_eq!(r.feed, Feed::Unrestricted);
    assert_eq!(synthesize(&r), "rsync -azsc ./ vmrs-script:/srv");
}

#[test]
fn request_from_object_store_args() {
    let a = SyncArgs {
        path: false,
        print: true,
        list: true,
        s3: true,
        git: false,
        pipe: None,
        from: false,
        host: "vmrs-script".to_string(),
        prog_args: vec![],
    };
    assert_eq!(a.marker_filename(), ".s3-prefix");
    let r = a.to_request("bucket/key".to_string()).unwrap();
    assert_eq!(r.transport, Transport::ObjectStore);
    assert_eq!(r.host, None);
    assert_eq!(synthesize(&r), "aws --profile mfa s3 ls bucket/key");
}
