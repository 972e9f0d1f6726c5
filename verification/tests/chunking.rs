use progress_copy::chunking::{block_size, chunk_plan, MIN_BLOCK_SIZE};

#[test]
fn block_size_has_a_floor_of_half_a_million() {
    assert_eq!(MIN_BLOCK_SIZE, 500_000);
    assert_eq!(block_size(0), 500_000);
    assert_eq!(block_size(50), 500_000);
    assert_eq!(block_size(1_000_000), 500_000);
    assert_eq!(block_size(4_999_999), 500_000);
    assert_eq!(block_size(5_000_000), 500_000);
    assert_eq!(block_size(5_000_009), 500_000);
}

#[test]
fn block_size_is_a_tenth_of_a_large_file() {
    assert_eq!(block_size(5_000_010), 500_001);
    assert_eq!(block_size(10_000_000), 1_000_000);
    assert_eq!(block_size(123_456_789), 12_345_678);
}

#[test]
fn one_million_bytes_take_two_blocks() {
    assert_eq!(chunk_plan(1_000_000), vec![500_000, 500_000]);
}

#[test]
fn fifty_bytes_take_one_block() {
    assert_eq!(chunk_plan(50), vec![50]);
}

#[test]
fn empty_file_takes_no_block() {
    assert_eq!(chunk_plan(0), Vec::<usize>::new());
}

#[test]
fn last_block_holds_the_rest() {
    assert_eq!(chunk_plan(500_000), vec![500_000]);
    assert_eq!(chunk_plan(500_001), vec![500_000, 1]);
    assert_eq!(chunk_plan(1_200_000), vec![500_000, 500_000, 200_000]);
}

#[test]
fn large_file_takes_ten_or_eleven_blocks() {
    let even: Vec<usize> = chunk_plan(10_000_000);
    assert_eq!(even, vec![1_000_000; 10]);
    let odd: Vec<usize> = chunk_plan(10_000_007);
    assert_eq!(odd.len(), 11);
    assert_eq!(odd[9], 1_000_000);
    assert_eq!(odd[10], 7);
    let floor: Vec<usize> = chunk_plan(5_000_009);
    assert_eq!(floor.len(), 11);
    assert_eq!(floor[10], 9);
}

#[test]
fn blocks_add_up_to_the_size() {
    let sizes: [usize; 9] = [0, 1, 50, 499_999, 500_000, 1_000_000, 4_999_999, 5_000_011, 77_777_777];
    for size in sizes {
        let plan: Vec<usize> = chunk_plan(size);
        let sum: usize = plan.iter().sum();
        assert_eq!(sum, size);
        let block: usize = block_size(size);
        for (at, n) in plan.iter().enumerate() {
            assert!(*n >= 1 && *n <= block);
            if at + 1 < plan.len() {
                assert_eq!(*n, block);
            }
        }
        assert!(plan.len() <= 11);
    }
}
