use lightspark_crypto_ruby::error::{map_err_to_ruby, to_ruby_err, CryptoError, ErrorKind};
use lightspark_crypto_ruby::network::{to_network, Network};
use lightspark_crypto_ruby::phrase::{is_whitespace_char, join_phrase, split_phrase};
use lightspark_crypto_ruby::records::{
    to_ruby_pair, FundsRecoveryResponse, KeyPair, Pair, RecoveryKitResponse, SignedInvoice,
    StringTuple,
};

fn strings(ws: &[&str]) -> Vec<String> {
    ws.iter().map(|w| w.to_string()).collect()
}

#[test]
fn network_codes_select_networks() {
    assert_eq!(to_network(1).unwrap(), Network::Bitcoin);
    assert_eq!(to_network(2).unwrap(), Network::Testnet);
    assert_eq!(to_network(3).unwrap(), Network::Regtest);
}

#[test]
fn unknown_network_codes_are_argument_errors() {
    for code in [0i64, 4, -1, 100, i64::MAX, i64::MIN] {
        match to_network(code) {
            Err(CryptoError::UnknownNetwork(c)) => assert_eq!(c, code),
            other => panic!("unexpected result {:?}", other),
        }
    }
    let e = to_network(4).unwrap_err();
    assert_eq!(e.kind(), ErrorKind::ArgumentError);
    assert_eq!(e.message(), "unknown network: 4");
}

#[test]
fn unknown_network_messages_match_format() {
    for code in [0i64, 4, 9, 10, 99, 100, 12345, -1, -10, -987654321, i64::MAX, i64::MIN] {
        let e = CryptoError::UnknownNetwork(code);
        assert_eq!(e.message(), format!("unknown network: {}", code));
    }
    assert_eq!(
        CryptoError::UnknownNetwork(i64::MIN).message(),
        "unknown network: -9223372036854775808"
    );
}

#[test]
fn failures_are_runtime_errors() {
    let e = to_ruby_err("invalid private key".to_string());
    assert_eq!(e.kind(), ErrorKind::RuntimeError);
    assert_eq!(e.message(), "invalid private key");
}

#[test]
fn map_err_to_ruby_keeps_values_and_wraps_failures() {
    let ok: Result<Vec<u8>, String> = Ok(vec![1, 2, 3]);
    assert_eq!(map_err_to_ruby(ok).unwrap(), vec![1, 2, 3]);
    let failed: Result<Vec<u8>, String> = Err("bad seed".to_string());
    match map_err_to_ruby(failed) {
        Err(CryptoError::Failed(d)) => assert_eq!(d, "bad seed"),
        other => panic!("unexpected result {:?}", other),
    }
}

#[test]
fn whitespace_matches_char_is_whitespace() {
    for n in 0u32..=0x10FFFF {
        if let Some(c) = char::from_u32(n) {
            assert_eq!(is_whitespace_char(c), c.is_whitespace(), "code point {:x}", n);
        }
    }
}

#[test]
fn split_phrase_gives_words() {
    assert_eq!(
        split_phrase("abandon ability able about"),
        strings(&["abandon", "ability", "able", "about"])
    );
    assert_eq!(split_phrase("  a\tb\nc  "), strings(&["a", "b", "c"]));
    assert_eq!(split_phrase(""), Vec::<String>::new());
    assert_eq!(split_phrase(" \t\r\n "), Vec::<String>::new());
    assert_eq!(split_phrase("single"), strings(&["single"]));
    assert_eq!(split_phrase("あいこくしん\u{3000}あいさつ"), strings(&["あいこくしん", "あいさつ"]));
}

#[test]
fn split_phrase_matches_split_whitespace() {
    let samples = [
        "",
        " ",
        "word",
        " leading",
        "trailing ",
        "a  b   c",
        "x\u{85}y\u{a0}z\u{2028}w\u{205f}v\u{1680}u",
        "tab\tnew\nline\rcarriage\u{b}vt\u{c}ff",
        "émoji 😀 mixed\u{2003}em",
        "zero\u{200b}width stays",
    ];
    for s in samples {
        let expected: Vec<String> = s.split_whitespace().map(|w| w.to_string()).collect();
        assert_eq!(split_phrase(s), expected, "phrase {:?}", s);
    }
}

#[test]
fn join_phrase_joins_with_single_spaces() {
    assert_eq!(join_phrase(&strings(&["a", "b", "c"])), "a b c");
    assert_eq!(join_phrase(&strings(&[])), "");
    assert_eq!(join_phrase(&strings(&["only"])), "only");
    assert_eq!(join_phrase(&strings(&["a", "", "b"])), "a  b");
    let ws = strings(&["legal", "winner", "thank", "year"]);
    assert_eq!(join_phrase(&ws), ws.join(" "));
}

#[test]
fn split_after_join_gives_words_back() {
    let ws = strings(&["abandon", "ability", "able", "about", "above", "absent"]);
    assert_eq!(split_phrase(&join_phrase(&ws)), ws);
    let japanese = strings(&["あいこくしん", "あいさつ"]);
    assert_eq!(split_phrase(&join_phrase(&japanese)), japanese);
}

#[test]
fn split_join_split_is_stable() {
    let s = "  legal \t winner\n\nthank  year ";
    let first = split_phrase(s);
    let again = split_phrase(&join_phrase(&first));
    assert_eq!(first, again);
    assert_eq!(join_phrase(&first), "legal winner thank year");
}

#[test]
fn phrase_round_trip_keeps_single_spaced_phrase() {
    let phrase = "legal winner thank year wave sausage worth useful legal winner thank yellow";
    assert_eq!(join_phrase(&split_phrase(phrase)), phrase);
}

#[test]
fn records_give_back_their_fields() {
    let kp = KeyPair { public_key: vec![2, 3, 4], private_key: vec![9; 32] };
    assert_eq!(kp.public_key(), vec![2, 3, 4]);
    assert_eq!(kp.private_key(), vec![9; 32]);
    let inv = SignedInvoice { recovery_id: 1, signature: vec![7; 64] };
    assert_eq!(inv.recovery_id(), 1);
    assert_eq!(inv.signature(), vec![7; 64]);
    let p = Pair { first: "tx".to_string(), second: "ctx".to_string() };
    assert_eq!(p.first(), "tx");
    assert_eq!(p.second(), "ctx");
}

#[test]
fn to_ruby_pair_keeps_both_strings() {
    let p = to_ruby_pair(StringTuple { first: "a".to_string(), second: "b".to_string() });
    assert_eq!(p.first, "a");
    assert_eq!(p.second, "b");
}

fn tuple(a: &str, b: &str) -> StringTuple {
    StringTuple { first: a.to_string(), second: b.to_string() }
}

#[test]
fn recovery_response_is_handed_over_in_order() {
    let resp = RecoveryKitResponse {
        commitment_tx: "commit".to_string(),
        sweep_tx: "sweep".to_string(),
        htlc_inbound_tx: vec![tuple("in1", "c1"), tuple("in2", "c2")],
        htlc_outbound_tx: vec![tuple("out1", "d1")],
        counterparty_sweep_tx: "csweep".to_string(),
        counterparty_htlc_inbound_tx: strings(&["ci1", "ci2"]),
        counterparty_htlc_outbound_tx: strings(&[]),
    };
    let r = FundsRecoveryResponse::from_kit_response(resp);
    assert_eq!(r.commitment_tx(), "commit");
    assert_eq!(r.sweep_tx(), "sweep");
    assert_eq!(r.counterparty_sweep_tx(), "csweep");
    assert_eq!(r.counterparty_htlc_inbound_tx(), strings(&["ci1", "ci2"]));
    assert_eq!(r.counterparty_htlc_outbound_tx(), Vec::<String>::new());
    let inbound: Vec<(String, String)> =
        r.htlc_inbound_tx().into_iter().map(|p| (p.first(), p.second())).collect();
    assert_eq!(
        inbound,
        vec![("in1".to_string(), "c1".to_string()), ("in2".to_string(), "c2".to_string())]
    );
    let outbound: Vec<(String, String)> =
        r.htlc_outbound_tx().into_iter().map(|p| (p.first(), p.second())).collect();
    assert_eq!(outbound, vec![("out1".to_string(), "d1".to_string())]);
}
