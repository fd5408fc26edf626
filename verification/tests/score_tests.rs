use gear_optimizer::score::rank_key;

#[test]
fn rank_keys_order_scores_as_the_scores_order() {
    let scores: [f32; 11] = [
        f32::NEG_INFINITY,
        -1.0e30,
        -2.5,
        -1.0,
        -1.0e-40,
        0.0,
        1.0e-40,
        1.0,
        2.5,
        1100.0,
        f32::INFINITY,
    ];
    for i in 0..scores.len() {
        for j in 0..scores.len() {
            assert_eq!(
                rank_key(scores[i].to_bits()) < rank_key(scores[j].to_bits()),
                scores[i] < scores[j]
            );
        }
    }
}

#[test]
fn both_zeros_rank_alike() {
    assert_eq!(rank_key(0.0f32.to_bits()), 0);
    assert_eq!(rank_key((-0.0f32).to_bits()), 0);
}

#[test]
fn rank_key_exact_values() {
    assert_eq!(rank_key(1.0f32.to_bits()), 0x3f80_0000);
    assert_eq!(rank_key((-1.0f32).to_bits()), -0x3f80_0000);
    assert_eq!(rank_key(f32::INFINITY.to_bits()), 0x7f80_0000);
    assert_eq!(rank_key(f32::NEG_INFINITY.to_bits()), -0x7f80_0000);
}

#[test]
fn what_is_not_a_number_ranks_last() {
    assert_eq!(rank_key(f32::NAN.to_bits()), i64::MIN);
    assert_eq!(rank_key(0xffc0_0001), i64::MIN);
    assert_eq!(rank_key(0x7f80_0001), i64::MIN);
    assert!(rank_key(f32::NAN.to_bits()) < rank_key(f32::NEG_INFINITY.to_bits()));
}
