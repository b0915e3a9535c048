use gen_tests_bases::edges::{edge_cases, edge_masks};

#[test]
fn edge_masks_in_order() {
    assert_eq!(
        edge_masks(),
        vec![
            0xFF, 0x7F, 0x3F, 0x1F, 0x0F, 0x07, 0x03, 0x01, 0x00, 0x80, 0xC0, 0xE0, 0xF0, 0xF8,
            0xFC, 0xFE
        ]
    );
}

#[test]
fn edge_cases_cover_all_pairs_once() {
    let cases = edge_cases();
    let masks = edge_masks();
    assert_eq!(cases.len(), 256);
    for (i, c) in cases.iter().enumerate() {
        assert_eq!(c.len(), 3);
        assert_eq!(c[1], 0xFF);
        assert_eq!(c[0], masks[i / 16]);
        assert_eq!(c[2], masks[i % 16]);
        for d in &cases[i + 1..] {
            assert_ne!(c, d);
        }
    }
}

#[test]
fn edge_case_of_zero_masks() {
    let cases = edge_cases();
    assert_eq!(cases[8 * 16 + 8], vec![0x00, 0xFF, 0x00]);
    assert_eq!(cases[0], vec![0xFF, 0xFF, 0xFF]);
    assert_eq!(cases[255], vec![0xFE, 0xFF, 0xFE]);
}
