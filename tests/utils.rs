use gen_tests_bases::utils::{bitsequence, check_output};

#[test]
fn bitsequence_counts_bits() {
    let data = [1u8, 2, 3];
    let (s, n) = bitsequence(Some(&data));
    assert_eq!(s, &data[..]);
    assert_eq!(n, 24);
}

#[test]
fn bitsequence_of_none_is_empty() {
    let (s, n) = bitsequence(None);
    assert!(s.is_empty());
    assert_eq!(n, 0);
}

#[test]
fn check_output_zero_is_ok() {
    assert_eq!(check_output("enc", 0), Ok(()));
}

#[test]
fn check_output_nonzero_fails_with_name() {
    assert_eq!(check_output("enc", 3), Err("Failed enc".to_string()));
    assert_eq!(check_output("dec", -1), Err("Failed dec".to_string()));
}
