use genome_encoder::encoder::{encode, genome_to_binary};

#[test]
fn encode_fixed_mapping() {
    assert_eq!(encode('A'), (1, 1));
    assert_eq!(encode('C'), (1, 0));
    assert_eq!(encode('G'), (0, 1));
    assert_eq!(encode('T'), (0, 0));
}

#[test]
fn encode_unrecognized_symbols() {
    for c in ['a', 'c', 'g', 't', 'N', 'n', 'U', 'x', ' ', '\n', '\t', '0', '-'] {
        assert_eq!(encode(c), (0, 0));
        assert_eq!(encode(c), encode('T'));
    }
}

#[test]
fn encode_empty_input() {
    let out = genome_to_binary(String::new());
    assert!(out.is_empty());
}

#[test]
fn encode_order_preserving() {
    let ac = genome_to_binary(String::from("AC"));
    assert_eq!(ac, vec![(1, 1), (1, 0)]);
    let mut pieces = genome_to_binary(String::from("A"));
    pieces.extend(genome_to_binary(String::from("C")));
    assert_eq!(ac, pieces);
}

#[test]
fn encode_mixed_text() {
    let out = genome_to_binary(String::from("ACGTnN A"));
    assert_eq!(
        out,
        vec![
            (1, 1),
            (1, 0),
            (0, 1),
            (0, 0),
            (0, 0),
            (0, 0),
            (0, 0),
            (1, 1),
        ]
    );
}
