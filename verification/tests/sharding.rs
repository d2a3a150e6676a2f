use mc_bot::shard_counts;

fn total_of(counts: &[u32]) -> u64 {
    counts.iter().map(|c| *c as u64).sum()
}

#[test]
fn zero_bots_zero_shards_spawned() {
    assert_eq!(shard_counts(0, 1), Vec::<u32>::new());
    assert_eq!(shard_counts(0, 8), Vec::<u32>::new());
}

#[test]
fn fewer_bots_than_shards_fold_into_one() {
    assert_eq!(shard_counts(3, 8), vec![3]);
    assert_eq!(shard_counts(1, 2), vec![1]);
}

#[test]
fn even_split_has_no_extra_shard() {
    assert_eq!(shard_counts(8, 4), vec![2, 2, 2, 2]);
    assert_eq!(shard_counts(500, 1), vec![500]);
}

#[test]
fn remainder_folds_into_one_extra_shard() {
    assert_eq!(shard_counts(10, 4), vec![2, 2, 2, 2, 2]);
    assert_eq!(shard_counts(9, 4), vec![2, 2, 2, 2, 1]);
    assert_eq!(shard_counts(11, 4), vec![2, 2, 2, 2, 3]);
}

#[test]
fn counts_always_sum_to_total() {
    for total in [0u32, 1, 2, 3, 7, 8, 9, 63, 64, 65, 499, 500, 501, 1000] {
        for shards in [1u32, 2, 3, 4, 7, 8, 16] {
            let counts = shard_counts(total, shards);
            assert_eq!(
                total_of(&counts),
                total as u64,
                "partition of {total} over {shards}"
            );
        }
    }
}

#[test]
fn balanced_when_share_and_remainder_are_close() {
    for (total, shards) in [(10u32, 4u32), (11, 4), (12, 4), (9, 4), (100, 10), (5, 2)] {
        let counts = shard_counts(total, shards);
        let max = counts.iter().max().copied().unwrap_or(0);
        let min = counts.iter().min().copied().unwrap_or(0);
        assert!(max - min <= 1, "partition of {total} over {shards}: {counts:?}");
    }
}
