use ckb_debugger::codec::{build_input, build_output, build_tx, decode_tx};
use ckb_debugger::tx::{CellInput, CellOutput, Hash256, OutPoint, Transaction};

fn hash32(fill: u8) -> Hash256 {
    Hash256 { bytes: vec![fill; 32] }
}

fn sample_tx() -> Transaction {
    Transaction {
        version: 7,
        deps: vec![OutPoint { hash: hash32(0x11), index: 3 }],
        inputs: vec![CellInput { previous_output: OutPoint { hash: hash32(0x22), index: 0 } }],
        outputs: vec![CellOutput { capacity: 100, lock: vec![0xAA] }],
    }
}

fn le64(v: u64) -> Vec<u8> {
    v.to_le_bytes().to_vec()
}

#[test]
fn encode_empty_tx_layout() {
    let tx = Transaction { version: 0, deps: vec![], inputs: vec![], outputs: vec![] };
    let bytes = build_tx(&tx);
    // version, dep count, input count, output count: four zero words
    assert_eq!(bytes, vec![0u8; 32]);
}

#[test]
fn encode_output_exact_bytes() {
    let out = CellOutput { capacity: 100, lock: vec![0xAA] };
    let mut expected = le64(100);
    expected.extend(le64(1));
    expected.push(0xAA);
    assert_eq!(build_output(&out), expected);
}

#[test]
fn encode_input_exact_bytes() {
    let input = CellInput { previous_output: OutPoint { hash: hash32(0x11), index: 5 } };
    let mut expected = vec![0x11u8; 32];
    expected.extend(le64(5));
    assert_eq!(build_input(&input), expected);
}

#[test]
fn encode_tx_field_order() {
    let tx = sample_tx();
    let bytes = build_tx(&tx);
    let mut expected = le64(7); // version
    expected.extend(le64(1)); // dep count
    expected.extend(vec![0x11u8; 32]); // dep hash
    expected.extend(le64(3)); // dep index
    expected.extend(le64(1)); // input count
    expected.extend(vec![0x22u8; 32]); // input hash
    expected.extend(le64(0)); // input index
    expected.extend(le64(1)); // output count
    expected.extend(le64(100)); // capacity
    expected.extend(le64(1)); // lock length
    expected.push(0xAA); // lock
    assert_eq!(bytes, expected);
}

#[test]
fn encoding_is_deterministic() {
    let a = build_tx(&sample_tx());
    let b = build_tx(&sample_tx());
    assert_eq!(a, b);
}

#[test]
fn round_trip_recovers_transaction() {
    let tx = sample_tx();
    let bytes = build_tx(&tx);
    let back = decode_tx(&bytes).expect("an encoded transaction must decode");
    assert_eq!(back.version, 7);
    assert_eq!(back.deps.len(), 1);
    assert_eq!(back.deps[0].hash.bytes, vec![0x11u8; 32]);
    assert_eq!(back.deps[0].index, 3);
    assert_eq!(back.inputs.len(), 1);
    assert_eq!(back.inputs[0].previous_output.hash.bytes, vec![0x22u8; 32]);
    assert_eq!(back.inputs[0].previous_output.index, 0);
    assert_eq!(back.outputs.len(), 1);
    assert_eq!(back.outputs[0].capacity, 100);
    assert_eq!(back.outputs[0].lock, vec![0xAA]);
}

#[test]
fn round_trip_empty_lists() {
    let tx = Transaction { version: 1, deps: vec![], inputs: vec![], outputs: vec![] };
    let back = decode_tx(&build_tx(&tx)).expect("an encoded transaction must decode");
    assert_eq!(back.version, 1);
    assert!(back.deps.is_empty());
    assert!(back.inputs.is_empty());
    assert!(back.outputs.is_empty());
}

#[test]
fn decode_rejects_truncated_bytes() {
    let mut bytes = build_tx(&sample_tx());
    bytes.pop();
    assert!(decode_tx(&bytes).is_none());
}

#[test]
fn decode_rejects_trailing_bytes() {
    let mut bytes = build_tx(&sample_tx());
    bytes.push(0);
    assert!(decode_tx(&bytes).is_none());
}

#[test]
fn decode_rejects_short_input() {
    assert!(decode_tx(&vec![1, 2, 3]).is_none());
}

#[test]
fn hash_constructor_enforces_width() {
    assert!(Hash256::new(vec![0; 31]).is_none());
    assert!(Hash256::new(vec![0; 32]).is_some());
}
