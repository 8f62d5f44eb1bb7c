use krain_aivm::layers::Layer;
use krain_aivm::weights::{split_weights, WEIGHTS_BYTES, WEIGHTS_WORDS};

#[test]
fn weights_file_size() {
    assert_eq!(WEIGHTS_WORDS, 512 * 784 + 512 + 128 * 512 + 128 + 10 * 128 + 10);
    assert_eq!(WEIGHTS_BYTES, 1_875_496);
}

#[test]
fn split_rejects_wrong_size() {
    assert!(split_weights(&[]).is_none());
    assert!(split_weights(&vec![0u8; WEIGHTS_BYTES - 4]).is_none());
    assert!(split_weights(&vec![0u8; WEIGHTS_BYTES + 1]).is_none());
}

#[test]
fn split_takes_blocks_in_file_order() {
    let data: Vec<u8> = (0..WEIGHTS_WORDS as u32).flat_map(|i| i.to_le_bytes()).collect();
    let w = split_weights(&data).unwrap();
    assert_eq!(w.fc1_w.len(), 512 * 784);
    assert_eq!(w.fc1_w[0], 0);
    assert_eq!(w.fc1_b[0], 401_408);
    assert_eq!(w.fc2_w[0], 401_920);
    assert_eq!(w.fc2_b[0], 467_456);
    assert_eq!(w.fc3_w[0], 467_584);
    assert_eq!(w.fc3_b, (468_864..468_874).collect::<Vec<u32>>());
    let (m, b) = w.layer(Layer::Fc2);
    assert_eq!((m.len(), b.len()), (128 * 512, 128));
    let joined: Vec<u32> = [&w.fc1_w, &w.fc1_b, &w.fc2_w, &w.fc2_b, &w.fc3_w, &w.fc3_b]
        .iter()
        .flat_map(|v| v.iter().copied())
        .collect();
    assert_eq!(joined, (0..WEIGHTS_WORDS as u32).collect::<Vec<u32>>());
}
