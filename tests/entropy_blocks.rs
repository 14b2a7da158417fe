use entui::entropy::{analyze_bytes, byte_histogram, AnalysisError, EntropyScan};

#[test]
fn zero_block_counts_one_value() {
    let data = [0u8; 100];
    let counts = byte_histogram(&data);
    assert_eq!(counts.len(), 256);
    assert_eq!(counts[0], 100);
    assert!(counts[1..].iter().all(|&c| c == 0));
}

#[test]
fn all_byte_values_counted_once() {
    let mut data = Vec::new();
    for i in 0..=255 {
        data.push(i as u8);
    }
    let counts = byte_histogram(&data);
    assert_eq!(counts.len(), 256);
    assert!(counts.iter().all(|&c| c == 1));
}

#[test]
fn empty_block_counts_nothing() {
    let counts = byte_histogram(&[]);
    assert_eq!(counts.len(), 256);
    assert!(counts.iter().all(|&c| c == 0));
}

#[test]
fn mixed_block_counts() {
    let counts = byte_histogram(&[7, 7, 200, 7, 0]);
    assert_eq!(counts[7], 3);
    assert_eq!(counts[200], 1);
    assert_eq!(counts[0], 1);
    assert_eq!(counts.iter().sum::<usize>(), 5);
}

#[test]
fn thousand_zero_bytes_in_blocks_of_256() {
    let data = vec![0u8; 1000];
    let blocks = analyze_bytes(&data, 256).unwrap();
    let offsets: Vec<u64> = blocks.iter().map(|b| b.offset).collect();
    assert_eq!(offsets, vec![0, 256, 512, 768]);
    let lens: Vec<usize> = blocks.iter().map(|b| b.len).collect();
    assert_eq!(lens, vec![256, 256, 256, 232]);
    for b in &blocks {
        assert_eq!(b.counts[0], b.len);
    }
    let total = blocks.last().unwrap().offset + 256;
    assert_eq!(total, 1024);
}

#[test]
fn full_blocks_give_one_sample_each() {
    let data: Vec<u8> = (0..1024u32).map(|i| (i % 251) as u8).collect();
    let blocks = analyze_bytes(&data, 256).unwrap();
    assert_eq!(blocks.len(), 4);
    for (i, b) in blocks.iter().enumerate() {
        assert_eq!(b.offset, (i * 256) as u64);
        assert_eq!(b.len, 256);
    }
}

#[test]
fn trailing_partial_block_gives_one_more_sample() {
    let data = vec![9u8; 1025];
    let blocks = analyze_bytes(&data, 256).unwrap();
    assert_eq!(blocks.len(), 5);
    assert_eq!(blocks[4].offset, 1024);
    assert_eq!(blocks[4].len, 1);
    assert_eq!(blocks[4].counts[9], 1);
}

#[test]
fn block_histograms_follow_block_contents() {
    let data = [1u8, 1, 2, 3, 3, 3];
    let blocks = analyze_bytes(&data, 4).unwrap();
    assert_eq!(blocks.len(), 2);
    assert_eq!(blocks[0].counts[1], 2);
    assert_eq!(blocks[0].counts[2], 1);
    assert_eq!(blocks[0].counts[3], 1);
    assert_eq!(blocks[1].counts[3], 2);
    assert_eq!(blocks[1].counts[1], 0);
}

#[test]
fn empty_data_gives_no_samples() {
    let blocks = analyze_bytes(&[], 256).unwrap();
    assert!(blocks.is_empty());
}

#[test]
fn zero_block_size_is_rejected() {
    assert_eq!(analyze_bytes(&[1, 2, 3], 0).unwrap_err(), AnalysisError::ZeroBlockSize);
}

#[test]
fn scan_records_reads_at_their_offsets() {
    let mut scan = EntropyScan::new();
    assert_eq!(scan.last_offset(), None);
    scan.push_block(&[5, 5, 5]);
    scan.push_block(&[1, 2]);
    scan.push_block(&[]);
    assert_eq!(scan.next_offset, 5);
    assert_eq!(scan.blocks.len(), 2);
    assert_eq!(scan.blocks[0].offset, 0);
    assert_eq!(scan.blocks[1].offset, 3);
    assert_eq!(scan.blocks[1].len, 2);
    assert_eq!(scan.blocks[0].counts[5], 3);
    assert_eq!(scan.last_offset(), Some(3));
}
