use prover_bridge::bridge::{
    settle_prove_outcome, BridgeVerdict, ForeignBuffer, ProveOutcome, PROOF_LEN,
};
use prover_bridge::hexout::to_hex_text;
use prover_bridge::json::encode_request;
use prover_bridge::request::{InvocationError, ProofRequest};

/// A mock foreign layer: a canned prove reply and a count of free calls.
struct MockForeign {
    reply: Option<Vec<u8>>,
    addr: usize,
    prove_calls: usize,
    free_calls: usize,
    freed_addr: Option<usize>,
}

impl MockForeign {
    fn prove(&mut self, _request_text: &str) -> Option<(usize, Vec<u8>)> {
        self.prove_calls += 1;
        self.reply.clone().map(|bytes| (self.addr, bytes))
    }

    fn free(&mut self, addr: usize) {
        self.free_calls += 1;
        self.freed_addr = Some(addr);
    }
}

/// Drives one invocation against the mock, the way the host program drives
/// the real foreign layer.
fn invoke_against(mock: &mut MockForeign, request: &ProofRequest) -> Result<Vec<u8>, InvocationError> {
    let text = encode_request(request)?;
    let outcome = match mock.prove(&text) {
        None => ProveOutcome::Null,
        Some((addr, bytes)) => ProveOutcome::Returned(ForeignBuffer { addr, bytes }),
    };
    match settle_prove_outcome(outcome) {
        BridgeVerdict::Failed(e) => Err(e),
        BridgeVerdict::Proved(proof, release) => {
            mock.free(release.into_addr());
            Ok(proof)
        },
    }
}

fn fixed_request() -> ProofRequest {
    ProofRequest {
        idx1: 0,
        idx2: 1,
        idx3: 3,
        sig1: "ljE9Im1wDVEHpHsAqoaSp9sXBoOp9MlNIb009LlalmHYEyqE/40AEfTmMiwe3IsIEpJsWgOAAoOMpqtCDVpjj3GNeTuJyyOOrjCs/nMwzpKD02mzqUnOs8YBTICQ12bn".to_string(),
        sig2: "pQOz1Qzv4b2Jhqbz9w5sn9u9jcJyD0FojtKhSccld2UE5blRYy2x0O2wbb/ADVTlE8cpWHLDNowoix9Whr3bAfxqWV4wDb4M7wPgHoulV1Z4Hyp1SRHqFlw1jhs1BQ+L".to_string(),
        sig3: "oqAp50tTTpKyJ+4WO4dLy71KCN6iNLsOHDCDivSY1e/B87kaDm5G4uKoaXil936PEsEDw8opM3E2mx/Xo6CZq+oLeqvED90zKr2d8VXLvo6btc3zxfiJ+WQWetr5lPAQ".to_string(),
        cblk: "0100000003000000000000000100000000000000010000000000000067b4610973229d279f7fe83043242fcdb0bdfc8a2f09b7a982fcb4e1aaf34b83".to_string(),
        blk: "00000000000000000000dead".to_string(),
    }
}

fn pattern_bytes() -> Vec<u8> {
    (0..PROOF_LEN).map(|i| (i % 251) as u8).collect()
}

#[test]
fn successful_invocation_returns_fixed_length() {
    let mut mock = MockForeign {
        reply: Some(pattern_bytes()),
        addr: 0x1000,
        prove_calls: 0,
        free_calls: 0,
        freed_addr: None,
    };
    let proof = invoke_against(&mut mock, &fixed_request()).unwrap();
    assert_eq!(proof.len(), PROOF_LEN);
    assert_eq!(proof.len(), 736);
}

#[test]
fn fixed_request_against_pattern_mock_yields_matching_hex() {
    let pattern = pattern_bytes();
    let mut mock = MockForeign {
        reply: Some(pattern.clone()),
        addr: 0x2000,
        prove_calls: 0,
        free_calls: 0,
        freed_addr: None,
    };
    let proof = invoke_against(&mut mock, &fixed_request()).unwrap();
    assert_eq!(proof, pattern);
    let hex = to_hex_text(&proof);
    assert_eq!(hex.len(), 1472);
    assert_eq!(hex, to_hex_text(&pattern));
}

#[test]
fn release_happens_exactly_once_per_success() {
    let mut mock = MockForeign {
        reply: Some(pattern_bytes()),
        addr: 0x3000,
        prove_calls: 0,
        free_calls: 0,
        freed_addr: None,
    };
    let _ = invoke_against(&mut mock, &fixed_request()).unwrap();
    assert_eq!(mock.prove_calls, 1);
    assert_eq!(mock.free_calls, 1);
    assert_eq!(mock.freed_addr, Some(0x3000));
}

#[test]
fn null_reply_reports_prover_failure_without_release() {
    let mut mock = MockForeign {
        reply: None,
        addr: 0x4000,
        prove_calls: 0,
        free_calls: 0,
        freed_addr: None,
    };
    let err = invoke_against(&mut mock, &fixed_request()).unwrap_err();
    assert_eq!(err, InvocationError::ProverFailed);
    assert_eq!(mock.prove_calls, 1);
    assert_eq!(mock.free_calls, 0);
}

#[test]
fn null_byte_is_rejected_before_any_foreign_call() {
    let mut mock = MockForeign {
        reply: Some(pattern_bytes()),
        addr: 0x5000,
        prove_calls: 0,
        free_calls: 0,
        freed_addr: None,
    };
    let mut request = fixed_request();
    request.blk = "00\0ff".to_string();
    let err = invoke_against(&mut mock, &request).unwrap_err();
    assert_eq!(err, InvocationError::Encoding);
    assert_eq!(mock.prove_calls, 0);
    assert_eq!(mock.free_calls, 0);
}
