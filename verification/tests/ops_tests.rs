use krain_aivm::ops::{
    argmax, argmax_result, dropout_noop_128, dropout_noop_512, relu, relu_128, relu_512, FC1_OUT,
    FC2_OUT, FC3_OUT,
};

fn frame(values: &[f32]) -> Vec<u8> {
    values.iter().flat_map(|v| v.to_le_bytes()).collect()
}

fn special_values(n: usize) -> Vec<f32> {
    let base = [
        1.5,
        -1.5,
        0.0,
        -0.0,
        f32::NAN,
        -f32::NAN,
        f32::INFINITY,
        f32::NEG_INFINITY,
        f32::from_bits(1),
        f32::from_bits(0x8000_0001),
        3.0e38,
        -1.0e-20,
    ];
    (0..n).map(|i| base[i % base.len()] * if i % 3 == 0 { 1.0 } else { 2.0 }).collect()
}

fn reference_relu(values: &[f32]) -> Vec<u8> {
    let out: Vec<f32> = values.iter().map(|&x| if x > 0.0 { x } else { 0.0 }).collect();
    frame(&out)
}

#[test]
fn relu_512_rejects_short_input() {
    let pre = vec![0u8; FC1_OUT * 4 - 1];
    assert_eq!(relu_512(0, &pre), Err("krain-aivm: relu_512: wrong input length"));
}

#[test]
fn relu_512_rejects_long_input() {
    let pre = vec![0u8; FC1_OUT * 4 + 4];
    assert_eq!(relu_512(7, &pre), Err("krain-aivm: relu_512: wrong input length"));
}

#[test]
fn relu_512_matches_binary32_activation() {
    let values = special_values(FC1_OUT);
    let out = relu_512(0, &frame(&values)).unwrap();
    assert_eq!(out, reference_relu(&values));
    assert_eq!(out.len(), FC1_OUT * 4);
}

#[test]
fn relu_128_matches_binary32_activation() {
    let values = special_values(FC2_OUT);
    assert_eq!(relu_128(0, &frame(&values)).unwrap(), reference_relu(&values));
}

#[test]
fn relu_128_rejects_wrong_length() {
    assert_eq!(relu_128(0, &[]), Err("krain-aivm: relu_128: wrong input length"));
    assert_eq!(
        relu_128(0, &vec![0u8; FC1_OUT * 4]),
        Err("krain-aivm: relu_128: wrong input length")
    );
}

#[test]
fn relu_maps_negative_zero_and_nan_to_positive_zero() {
    let mut out = vec![99u32];
    relu(&[0x8000_0000, 0x7fc0_0000, 0xbf80_0000, 0x3f80_0000, 0x7f80_0000], &mut out);
    assert_eq!(out, vec![0, 0, 0, 0x3f80_0000, 0x7f80_0000]);
}

#[test]
fn relu_is_idempotent() {
    let values = special_values(FC2_OUT);
    let once = relu_128(0, &frame(&values)).unwrap();
    let twice = relu_128(0, &once).unwrap();
    assert_eq!(once, twice);
}

#[test]
fn dropout_noop_512_is_identity() {
    let pre = frame(&special_values(FC1_OUT));
    assert_eq!(dropout_noop_512(1, &pre).unwrap(), pre);
}

#[test]
fn dropout_noop_512_rejects_wrong_length() {
    assert_eq!(
        dropout_noop_512(1, &vec![0u8; FC2_OUT * 4]),
        Err("krain-aivm: dropout_noop_512: wrong input length")
    );
}

#[test]
fn dropout_noop_128_is_identity() {
    let pre = frame(&special_values(FC2_OUT));
    assert_eq!(dropout_noop_128(1, &pre).unwrap(), pre);
}

#[test]
fn dropout_noop_128_rejects_wrong_length() {
    assert_eq!(
        dropout_noop_128(1, &vec![0u8; FC2_OUT * 4 + 1]),
        Err("krain-aivm: dropout_noop_128: wrong input length")
    );
}

#[test]
fn argmax_result_picks_largest_logit() {
    let logits = [0.1, -3.0, 0.2, 9.5, 0.0, 1.0, 9.0, -0.5, 2.0, 3.0f32];
    let pre = frame(&logits);
    let out = argmax_result(0, &pre).unwrap();
    assert_eq!(out.len(), 1 + FC3_OUT * 4);
    assert_eq!(out[0], 3);
    assert_eq!(&out[1..], &pre[..]);
}

#[test]
fn argmax_result_prefers_first_of_equal_logits() {
    let logits = [1.0, 4.0, 2.0, 4.0, 0.0, 0.0, 0.0, 0.0, 0.0, 4.0f32];
    assert_eq!(argmax_result(0, &frame(&logits)).unwrap()[0], 1);
    let zeros = [-0.0, 0.0, 0.0, 0.0, 0.0, 0.0, 0.0, 0.0, 0.0, 0.0f32];
    assert_eq!(argmax_result(0, &frame(&zeros)).unwrap()[0], 0);
}

#[test]
fn argmax_result_skips_nan_logits() {
    let logits = [1.0, f32::NAN, 2.0, f32::NAN, 0.0, 0.0, 0.0, 0.0, 0.0, 0.0f32];
    let pre = frame(&logits);
    let out = argmax_result(0, &pre).unwrap();
    assert_eq!(out[0], 2);
    assert_eq!(&out[1..], &pre[..]);
}

#[test]
fn argmax_result_stays_at_leading_nan() {
    let logits = [f32::NAN, 1.0, 2.0, 3.0, 0.0, 0.0, 0.0, 0.0, 0.0, 9.0f32];
    assert_eq!(argmax_result(0, &frame(&logits)).unwrap()[0], 0);
}

#[test]
fn argmax_result_keeps_nan_payload_in_echo() {
    let mut pre = frame(&[0.0f32; 10]);
    pre[4..8].copy_from_slice(&0x7fa0_0001u32.to_le_bytes());
    let out = argmax_result(0, &pre).unwrap();
    assert_eq!(&out[1..], &pre[..]);
}

#[test]
fn argmax_result_rejects_wrong_length() {
    assert_eq!(
        argmax_result(0, &vec![0u8; 41]),
        Err("krain-aivm: argmax_result: wrong input length")
    );
}

#[test]
fn argmax_agrees_with_binary32_scan() {
    let values = special_values(37);
    let bits: Vec<u32> = values.iter().map(|v| v.to_bits()).collect();
    let mut best = 0;
    let mut best_val = values[0];
    for (i, &v) in values.iter().enumerate().skip(1) {
        if v > best_val {
            best_val = v;
            best = i;
        }
    }
    assert_eq!(argmax(&bits), best);
    assert_eq!(argmax(&[0xbf80_0000]), 0);
}

#[test]
fn pipeline_lengths_chain() {
    let pre = frame(&special_values(FC1_OUT));
    let a = relu_512(0, &pre).unwrap();
    let b = dropout_noop_512(0, &a).unwrap();
    assert_eq!(b.len(), FC1_OUT * 4);
    let c = frame(&special_values(FC2_OUT));
    let d = relu_128(0, &c).unwrap();
    let e = dropout_noop_128(0, &d).unwrap();
    assert_eq!(e.len(), FC2_OUT * 4);
}
