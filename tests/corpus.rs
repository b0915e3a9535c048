use gen_tests_bases::corpus::{build_corpus, generate_corpus};
use gen_tests_bases::edges::edge_cases;
use gen_tests_bases::stream::random;

const NAMES: [&str; 8] =
    ["bech32", "bech32m", "base32", "base32hex", "base58xmr", "base58", "base64", "base64url"];

#[test]
fn corpus_layout() {
    let rand = random(3, 600);
    let c = build_corpus(&rand);
    assert_eq!(c.v.len(), 512 * 3 * 8 + 256 * 8);
    for i in 0..512usize {
        let shapes = [rand[..i].to_vec(), vec![0u8; i], vec![0xFFu8; i]];
        for (k, s) in shapes.iter().enumerate() {
            for j in 0..8 {
                let t = &c.v[(3 * i + k) * 8 + j];
                assert_eq!(t.fn_name, NAMES[j]);
                assert_eq!(&t.data, s);
            }
        }
    }
    let cases = edge_cases();
    for (e, case) in cases.iter().enumerate() {
        for j in 0..8 {
            let t = &c.v[(1536 + e) * 8 + j];
            assert_eq!(t.fn_name, NAMES[j]);
            assert_eq!(&t.data, case);
        }
    }
}

#[test]
fn corpus_length_zero_inputs_are_empty() {
    let c = build_corpus(&vec![0xAB; 511]);
    for t in &c.v[..24] {
        assert!(t.data.is_empty());
    }
    assert_eq!(c.v[0].exp, c.v[8].exp);
    assert_eq!(c.v[8].exp, c.v[16].exp);
}

#[test]
fn generated_corpus_is_repeatable() {
    let a = generate_corpus();
    let b = generate_corpus();
    assert_eq!(a, b);
    let r = random(1, 4096);
    assert_eq!(a.v[3 * 100 * 8].data, r[..100].to_vec());
}
