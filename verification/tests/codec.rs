use prover_bridge::json::{decode_request, encode_request};
use prover_bridge::hexout::to_hex_text;
use prover_bridge::request::{InvocationError, ProofRequest};

fn sample_request() -> ProofRequest {
    ProofRequest {
        idx1: 0,
        idx2: 1,
        idx3: 3,
        sig1: "ljE9Im1wDVEHpHsAqoaSp9sXBoOp9MlNIb009LlalmHYEyqE/40AEfTmMiwe3IsIEpJsWgOAAoOMpqtCDVpjj3GNeTuJyyOOrjCs/nMwzpKD02mzqUnOs8YBTICQ12bn".to_string(),
        sig2: "pQOz1Qzv4b2Jhqbz9w5sn9u9jcJyD0FojtKhSccld2UE5blRYy2x0O2wbb/ADVTlE8cpWHLDNowoix9Whr3bAfxqWV4wDb4M7wPgHoulV1Z4Hyp1SRHqFlw1jhs1BQ+L".to_string(),
        sig3: "oqAp50tTTpKyJ+4WO4dLy71KCN6iNLsOHDCDivSY1e/B87kaDm5G4uKoaXil936PEsEDw8opM3E2mx/Xo6CZq+oLeqvED90zKr2d8VXLvo6btc3zxfiJ+WQWetr5lPAQ".to_string(),
        cblk: "0100000003000000000000000100000000000000010000000000000067b4610973229d279f7fe83043242fcdb0bdfc8a2f09b7a982fcb4e1aaf34b83".to_string(),
        blk: "00000000000000000000dead".to_string(),
    }
}

#[test]
fn encoding_is_deterministic() {
    let a = sample_request();
    let b = sample_request();
    let ta = encode_request(&a).unwrap();
    let tb = encode_request(&b).unwrap();
    assert_eq!(ta, tb);
}

#[test]
fn encoding_has_fixed_field_order() {
    let r = ProofRequest {
        idx1: 7,
        idx2: 42,
        idx3: 4294967295,
        sig1: "a".to_string(),
        sig2: "b".to_string(),
        sig3: "c".to_string(),
        cblk: "dd".to_string(),
        blk: "ee".to_string(),
    };
    let t = encode_request(&r).unwrap();
    assert_eq!(
        t,
        "{\"idx1\":7,\"idx2\":42,\"idx3\":4294967295,\"sig1\":\"a\",\"sig2\":\"b\",\"sig3\":\"c\",\"cblk\":\"dd\",\"blk\":\"ee\"}"
    );
}

#[test]
fn round_trip_recovers_fields() {
    let r = sample_request();
    let t = encode_request(&r).unwrap();
    let back = decode_request(t.as_str()).unwrap();
    assert_eq!(back.idx1, r.idx1);
    assert_eq!(back.idx2, r.idx2);
    assert_eq!(back.idx3, r.idx3);
    assert_eq!(back.sig1, r.sig1);
    assert_eq!(back.sig2, r.sig2);
    assert_eq!(back.sig3, r.sig3);
    assert_eq!(back.cblk, r.cblk);
    assert_eq!(back.blk, r.blk);
}

#[test]
fn round_trip_with_escaped_characters() {
    let r = ProofRequest {
        idx1: 9,
        idx2: 10,
        idx3: 11,
        sig1: "quote:\" and backslash:\\".to_string(),
        sig2: "line\nbreak\ttab".to_string(),
        sig3: "control\u{1}char".to_string(),
        cblk: "plain".to_string(),
        blk: "".to_string(),
    };
    let t = encode_request(&r).unwrap();
    let back = decode_request(t.as_str()).unwrap();
    assert_eq!(back.sig1, r.sig1);
    assert_eq!(back.sig2, r.sig2);
    assert_eq!(back.sig3, r.sig3);
    assert_eq!(back.cblk, r.cblk);
    assert_eq!(back.blk, r.blk);
}

#[test]
fn embedded_null_is_rejected_as_encoding_error() {
    let mut r = sample_request();
    r.sig2 = "abc\0def".to_string();
    let res = encode_request(&r);
    assert_eq!(res.unwrap_err(), InvocationError::Encoding);
}

#[test]
fn emitted_text_is_valid_json_for_an_external_parser() {
    let r = ProofRequest {
        idx1: 1,
        idx2: 2,
        idx3: 3,
        sig1: "with \"quotes\" and \\slashes\\".to_string(),
        sig2: "with\nnewline".to_string(),
        sig3: "plain".to_string(),
        cblk: "0a0b".to_string(),
        blk: "ffff".to_string(),
    };
    let t = encode_request(&r).unwrap();
    let v: serde_json::Value = serde_json::from_str(&t).unwrap();
    assert_eq!(v["idx1"].as_u64().unwrap(), 1);
    assert_eq!(v["idx2"].as_u64().unwrap(), 2);
    assert_eq!(v["idx3"].as_u64().unwrap(), 3);
    assert_eq!(v["sig1"].as_str().unwrap(), r.sig1);
    assert_eq!(v["sig2"].as_str().unwrap(), r.sig2);
    assert_eq!(v["sig3"].as_str().unwrap(), r.sig3);
    assert_eq!(v["cblk"].as_str().unwrap(), r.cblk);
    assert_eq!(v["blk"].as_str().unwrap(), r.blk);
}

#[test]
fn malformed_texts_are_rejected() {
    assert!(decode_request("").is_none());
    assert!(decode_request("{}").is_none());
    assert!(decode_request("{\"idx1\":1}").is_none());
    let r = sample_request();
    let t = encode_request(&r).unwrap();
    let truncated = &t[..t.len() - 1];
    assert!(decode_request(truncated).is_none());
}

#[test]
fn hex_text_is_exact_and_not_the_input() {
    let bytes = vec![0xdeu8, 0xad, 0x00, 0x01, 0xf0];
    let hex = to_hex_text(&bytes);
    assert_eq!(hex, "dead0001f0");
    assert_eq!(hex.len(), 2 * bytes.len());
}
