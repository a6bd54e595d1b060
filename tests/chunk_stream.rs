use skullrump::{BinaryChunkStream, BinaryEntry, StreamFlow};

fn two_records() -> Vec<u8> {
    vec![1u8, 0u8, 0u8, 0u8, 0u8, 0u8, 0u8, 0u8, 2u8, 0u8, 0u8, 0u8, 0u8, 0u8, 0u8, 0u8]
}

#[test]
fn read_no_entries_forward() {
    let mut file: Vec<u8> = vec![2u8, 0u8, 0u8, 0u8, 0u8, 0u8, 0u8, 0u8];
    assert_eq!(true, file.head::<i64>(0).is_empty());
}

#[test]
fn read_negative_n_entries_forward_return_empty() {
    let mut file = two_records();
    assert_eq!(true, file.head::<i64>(-2).is_empty());
}

#[test]
fn read_n_entries_forward() {
    let mut file: Vec<u8> = Vec::new();
    file.extend_from_slice(&[1u8, 0u8, 0u8, 0u8, 0u8, 0u8, 0u8, 0u8]);
    file.extend_from_slice(&[2u8, 0u8, 0u8, 0u8, 0u8, 0u8, 0u8, 0u8]);
    let result = file.head::<i64>(2);
    assert_eq!(1i64, *(result.get(0).unwrap()));
    assert_eq!(2i64, *(result.get(1).unwrap()));
}

#[test]
fn read_one_entry_forward_past_the_end_returns_data() {
    let mut file: Vec<u8> = Vec::new();
    file.extend_from_slice(&[1u8, 0u8, 0u8, 0u8, 0u8, 0u8, 0u8, 0u8]);
    file.extend_from_slice(&[2u8, 0u8, 0u8, 0u8, 0u8, 0u8, 0u8, 0u8]);
    let result = file.head::<i64>(3);
    assert_eq!(1i64, *(result.get(0).unwrap()));
    assert_eq!(2i64, *(result.get(1).unwrap()));
}

#[test]
fn read_no_entries_backward() {
    let mut file = two_records();
    assert_eq!(true, file.tail::<i64>(0).is_empty());
}

#[test]
fn read_n_entries_backward() {
    let mut file = two_records();
    let result = file.tail::<i64>(2);
    assert_eq!(1i64, *(result.get(0).unwrap()));
    assert_eq!(2i64, *(result.get(1).unwrap()));
}

#[test]
fn read_negative_n_entries_backward_return_empty() {
    let mut file = two_records();
    assert_eq!(true, file.tail::<i64>(-2).is_empty());
}

#[test]
fn read_1_entry_backward_past_the_end_returns_data() {
    let mut file = two_records();
    let result = file.tail::<i64>(3);
    assert_eq!(1i64, *(result.get(0).unwrap()));
    assert_eq!(2i64, *(result.get(1).unwrap()));
}

#[test]
fn head_scenarios_on_two_records() {
    let mut file = two_records();
    assert_eq!(file.head::<i64>(0), Vec::<i64>::new());
    assert_eq!(file.head::<i64>(-2), Vec::<i64>::new());
    assert_eq!(file.head::<i64>(2), vec![1i64, 2]);
    assert_eq!(file.head::<i64>(3), vec![1i64, 2]);
    assert_eq!(file.head::<i64>(1), vec![1i64]);
}

#[test]
fn tail_scenarios_on_two_records() {
    let mut file = two_records();
    assert_eq!(file.tail::<i64>(0), Vec::<i64>::new());
    assert_eq!(file.tail::<i64>(2), vec![1i64, 2]);
    assert_eq!(file.tail::<i64>(-2), Vec::<i64>::new());
    assert_eq!(file.tail::<i64>(3), vec![1i64, 2]);
    assert_eq!(file.tail::<i64>(1), vec![2i64]);
}

#[test]
fn head_and_tail_of_a_longer_file() {
    let mut file: Vec<u8> = Vec::new();
    let mut buffer: Vec<u8> = Vec::new();
    for v in [10i64, -20, 30, -40, 50] {
        file.entry_write(&mut buffer, v);
    }
    assert_eq!(file.len(), 40);
    assert_eq!(file.head::<i64>(3), vec![10i64, -20, 30]);
    assert_eq!(file.tail::<i64>(3), vec![30i64, -40, 50]);
    assert_eq!(file.head::<i64>(9), vec![10i64, -20, 30, -40, 50]);
    assert_eq!(file.tail::<i64>(9), vec![10i64, -20, 30, -40, 50]);
    assert_eq!(file.stream_in::<i64>(StreamFlow::Backward, 5), vec![10i64, -20, 30, -40, 50]);
}

#[test]
fn dangling_partial_record_is_not_read() {
    let mut file = two_records();
    file.extend_from_slice(&[9u8, 9u8, 9u8]);
    assert_eq!(file.head::<i64>(3), vec![1i64, 2]);
    assert_eq!(file.head::<i64>(2), vec![1i64, 2]);
}

#[test]
fn empty_file_reads_nothing() {
    let mut file: Vec<u8> = Vec::new();
    assert_eq!(file.head::<i64>(4), Vec::<i64>::new());
    assert_eq!(file.tail::<i64>(4), Vec::<i64>::new());
}

#[test]
fn repeated_reads_agree() {
    let mut file = two_records();
    let first = file.tail::<i64>(1);
    let second = file.tail::<i64>(1);
    assert_eq!(first, second);
    let first = file.head::<i64>(2);
    let second = file.head::<i64>(2);
    assert_eq!(first, second);
    assert_eq!(file, two_records());
}

#[test]
fn entry_write_appends_buffer_and_clears_it() {
    let mut file: Vec<u8> = vec![7u8];
    let mut buffer: Vec<u8> = vec![5u8];
    file.entry_write(&mut buffer, 258i64);
    assert_eq!(file, vec![7u8, 5, 2, 1, 0, 0, 0, 0, 0, 0]);
    assert!(buffer.is_empty());
}

#[test]
fn float_records_by_bit_pattern() {
    let mut file: Vec<u8> = Vec::new();
    let mut buffer: Vec<u8> = Vec::new();
    for v in [1.5f32, -0.25, 3.0] {
        file.entry_write(&mut buffer, v.to_bits());
    }
    assert_eq!(file.len(), 12);
    assert_eq!(&file[0..4], &1.5f32.to_le_bytes());
    let last: Vec<f32> = file.tail::<u32>(2).into_iter().map(f32::from_bits).collect();
    assert_eq!(last, vec![-0.25f32, 3.0]);
    assert_eq!(<u32 as BinaryEntry>::entry_size(), 4);
}
