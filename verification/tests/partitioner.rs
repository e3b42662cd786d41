use automata::chunks::make_chunks;

#[test]
fn hundred_cells_three_chunks() {
    let chunks = make_chunks(100, 3);
    assert_eq!(chunks.len(), 3);
    assert_eq!((chunks[0].start, chunks[0].end), (0, 33));
    assert_eq!((chunks[1].start, chunks[1].end), (33, 66));
    assert_eq!((chunks[2].start, chunks[2].end), (66, 100));
}

#[test]
fn union_covers_every_index_once() {
    let total = 100;
    let chunks = make_chunks(total, 3);
    let mut seen = vec![0u32; total];
    for c in &chunks {
        for i in c.start..c.end {
            seen[i] += 1;
        }
    }
    assert!(seen.iter().all(|&n| n == 1));
}

#[test]
fn sizes_are_nondecreasing() {
    let chunks = make_chunks(100, 3);
    let mut last = 0;
    for c in &chunks {
        let len = c.end - c.start;
        assert!(len >= last);
        last = len;
    }
}

#[test]
fn single_chunk_spans_everything() {
    let chunks = make_chunks(10, 1);
    assert_eq!(chunks.len(), 1);
    assert_eq!((chunks[0].start, chunks[0].end), (0, 10));
}

#[test]
fn one_chunk_per_cell() {
    let chunks = make_chunks(5, 5);
    assert_eq!(chunks.len(), 5);
    for (i, c) in chunks.iter().enumerate() {
        assert_eq!((c.start, c.end), (i, i + 1));
    }
}

#[test]
fn uneven_split_puts_remainder_last() {
    let chunks = make_chunks(7, 2);
    assert_eq!((chunks[0].start, chunks[0].end), (0, 3));
    assert_eq!((chunks[1].start, chunks[1].end), (3, 7));
}
