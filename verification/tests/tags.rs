use atlas_txn_sender::tags::{bin_counter_to_tag, integer_text};

#[test]
fn test_bin_counter() {
    let bins = vec![0, 1, 2, 5, 10, 25];
    assert_eq!(bin_counter_to_tag(None, &bins), "none");
    assert_eq!(bin_counter_to_tag(Some(-100), &bins), "-inf_0");
    assert_eq!(bin_counter_to_tag(Some(0), &bins), "0_1");
    assert_eq!(bin_counter_to_tag(Some(1), &bins), "1_2");
    assert_eq!(bin_counter_to_tag(Some(2), &bins), "2_5");
    assert_eq!(bin_counter_to_tag(Some(3), &bins), "2_5");
    assert_eq!(bin_counter_to_tag(Some(17), &bins), "10_25");
    assert_eq!(bin_counter_to_tag(Some(34), &bins), "25_inf");
}

#[test]
fn integers_are_written_in_decimal() {
    for n in [0, 7, 10, 42, 1_000, 9_999, -1, -10, i128::MAX, i128::MIN] {
        assert_eq!(integer_text(n), n.to_string());
    }
}

#[test]
fn tags_tell_bins_apart() {
    let bins = vec![-5, 0, 10];
    let mut tags: Vec<String> = vec![bin_counter_to_tag(None, &bins)];
    for counter in [-6, -5, 0, 10] {
        tags.push(bin_counter_to_tag(Some(counter), &bins));
    }
    assert_eq!(tags, vec!["none", "-inf_-5", "-5_0", "0_10", "10_inf"]);
    assert_eq!(bin_counter_to_tag(Some(9), &bins), bin_counter_to_tag(Some(0), &bins));
    assert_eq!(bin_counter_to_tag(Some(3), &vec![]), "-inf_inf");
}
