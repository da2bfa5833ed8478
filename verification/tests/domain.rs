use fed_receive::domain::verify_domains_match;
use fed_receive::errors::ReceiveError;

#[test]
fn same_authority_matches_regardless_of_path() {
    assert!(verify_domains_match("https://a.example/u/alice", "https://a.example/comment/1")
        .is_ok());
}

#[test]
fn host_comparison_is_case_insensitive() {
    assert!(verify_domains_match("https://A.EXAMPLE/u/alice", "https://a.example/x").is_ok());
}

#[test]
fn default_port_is_normalized() {
    assert!(verify_domains_match("https://a.example:443/u/alice", "https://a.example/x")
        .is_ok());
}

#[test]
fn explicit_port_must_match() {
    assert_eq!(
        verify_domains_match("https://a.example:8443/u/alice", "https://a.example/x")
            .unwrap_err(),
        ReceiveError::DomainMismatch
    );
}

#[test]
fn scheme_must_match() {
    assert_eq!(
        verify_domains_match("http://a.example/u/alice", "https://a.example/x").unwrap_err(),
        ReceiveError::DomainMismatch
    );
}

#[test]
fn different_hosts_mismatch() {
    assert_eq!(
        verify_domains_match("https://a.example/u/alice", "https://b.example/comment/9")
            .unwrap_err(),
        ReceiveError::DomainMismatch
    );
}

#[test]
fn parse_failure_fails_closed() {
    assert_eq!(
        verify_domains_match("not a url at all", "https://a.example/x").unwrap_err(),
        ReceiveError::DomainMismatch
    );
    assert_eq!(
        verify_domains_match("https://a.example/x", "").unwrap_err(),
        ReceiveError::DomainMismatch
    );
}

#[test]
fn url_without_host_fails_closed() {
    assert_eq!(
        verify_domains_match("mailto:alice@a.example", "mailto:alice@a.example").unwrap_err(),
        ReceiveError::DomainMismatch
    );
}
