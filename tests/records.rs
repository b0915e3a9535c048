use bech32::ToBase32;
use gen_tests_bases::records::{TestCase, TestCases};

const NAMES: [&str; 8] =
    ["bech32", "bech32m", "base32", "base32hex", "base58xmr", "base58", "base64", "base64url"];

fn records(data: &[u8]) -> Vec<TestCase> {
    let mut a = TestCases::new();
    a.add_all(data);
    a.v
}

fn exp_of(recs: &[TestCase], name: &str) -> String {
    recs.iter().find(|t| t.fn_name == name).unwrap().exp.clone()
}

#[test]
fn new_is_empty() {
    assert!(TestCases::new().v.is_empty());
}

#[test]
fn add_all_records_eight_names_in_order() {
    let recs = records(&[1, 2, 3]);
    assert_eq!(recs.len(), 8);
    for (t, n) in recs.iter().zip(NAMES.iter()) {
        assert_eq!(t.fn_name, *n);
        assert_eq!(t.data, vec![1u8, 2, 3]);
    }
}

#[test]
fn add_all_appends() {
    let mut a = TestCases::new();
    a.add_all(&[9]);
    a.add_all(&[]);
    assert_eq!(a.v.len(), 16);
    assert_eq!(a.v[0].data, vec![9u8]);
    assert!(a.v[8].data.is_empty());
}

#[test]
fn empty_input_still_gets_all_records() {
    let recs = records(&[]);
    assert_eq!(recs.len(), 8);
    assert_eq!(exp_of(&recs, "base64"), "");
    assert_eq!(exp_of(&recs, "base64url"), "");
    assert_eq!(exp_of(&recs, "base32"), "");
    assert_eq!(exp_of(&recs, "base32hex"), "");
    assert_eq!(exp_of(&recs, "base58"), "");
    assert_eq!(exp_of(&recs, "base58xmr"), "");
    assert!(exp_of(&recs, "bech32").starts_with("bech321"));
    assert!(exp_of(&recs, "bech32m").starts_with("bech32m1"));
}

#[test]
fn zero_masks_edge_case_exact_strings() {
    let data = [0x00u8, 0xFF, 0x00];
    let recs = records(&data);
    assert_eq!(exp_of(&recs, "base64"), "AP8A");
    assert_eq!(exp_of(&recs, "base64url"), "AP8A");
    assert_eq!(exp_of(&recs, "base32"), "AD7QA===");
    assert_eq!(exp_of(&recs, "base32hex"), "03VG0===");
}

#[test]
fn zero_masks_edge_case_matches_outside_encoders() {
    let data = [0x00u8, 0xFF, 0x00];
    let recs = records(&data);
    assert_eq!(exp_of(&recs, "base32"), data_encoding::BASE32.encode(&data));
    assert_eq!(exp_of(&recs, "base32hex"), data_encoding::BASE32HEX.encode(&data));
    assert_eq!(exp_of(&recs, "base64"), data_encoding::BASE64.encode(&data));
    assert_eq!(exp_of(&recs, "base64url"), data_encoding::BASE64URL.encode(&data));
    assert_eq!(exp_of(&recs, "base58"), bs58::encode(&data).into_string());
    assert_eq!(exp_of(&recs, "base58xmr"), base58_monero::encode(&data).unwrap());
    assert_eq!(
        exp_of(&recs, "bech32"),
        bech32::encode("bech32", data.to_base32(), bech32::Variant::Bech32).unwrap()
    );
    assert_eq!(
        exp_of(&recs, "bech32m"),
        bech32::encode("bech32m", data.to_base32(), bech32::Variant::Bech32m).unwrap()
    );
}

#[test]
fn single_methods_record_one_entry() {
    let data = [0xFFu8, 0x00];
    let mut a = TestCases::new();
    a.base32(&data);
    a.base32hex(&data);
    a.base58_monero(&data);
    a.base58(&data);
    a.base64(&data);
    a.base64url(&data);
    a.bech32(&data);
    a.bech32m(&data);
    let names: Vec<&str> = a.v.iter().map(|t| t.fn_name.as_str()).collect();
    assert_eq!(
        names,
        vec!["base32", "base32hex", "base58xmr", "base58", "base64", "base64url", "bech32", "bech32m"]
    );
    assert_eq!(a.v[0].exp, "74AA====");
    assert_eq!(a.v[4].exp, "/wA=");
    assert_eq!(a.v[5].exp, "_wA=");
    assert_eq!(a.v[3].exp, bs58::encode(&data).into_string());
}

#[test]
fn records_decode_back_to_their_input() {
    let inputs: Vec<Vec<u8>> =
        vec![vec![], vec![0], vec![0xFF; 9], vec![0x00, 0xFF, 0x00], (0u8..=40).collect()];
    for data in inputs {
        for t in records(&data) {
            let back = match t.fn_name.as_str() {
                "base32" => data_encoding::BASE32.decode(t.exp.as_bytes()).unwrap(),
                "base32hex" => data_encoding::BASE32HEX.decode(t.exp.as_bytes()).unwrap(),
                "base64" => data_encoding::BASE64.decode(t.exp.as_bytes()).unwrap(),
                "base64url" => data_encoding::BASE64URL.decode(t.exp.as_bytes()).unwrap(),
                "base58" => bs58::decode(&t.exp).into_vec().unwrap(),
                "base58xmr" => base58_monero::decode(&t.exp).unwrap(),
                _ => {
                    let (hrp, words, _) = bech32::decode(&t.exp).unwrap();
                    assert_eq!(hrp, t.fn_name);
                    bech32::FromBase32::from_base32(&words).unwrap()
                }
            };
            assert_eq!(back, data, "{}", t.fn_name);
        }
    }
}
