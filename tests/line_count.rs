use traderusty::line_count::LineCounter;

const CHUNK: usize = 128 * 1024;

fn count_in_chunks(data: &[u8], chunk: usize) -> usize {
    let mut counter = LineCounter::new();
    for part in data.chunks(chunk) {
        counter.feed(part);
    }
    counter.lines()
}

#[test]
fn line_counter_empty() {
    let counter = LineCounter::new();
    assert_eq!(counter.lines(), 0);
    assert_eq!(count_in_chunks(&[], CHUNK), 0);
}

#[test]
fn line_counter_no_newlines() {
    assert_eq!(count_in_chunks(b"no newline", CHUNK), 0);
    let mut data: Vec<u8> = Vec::new();
    for i in 0..256u32 {
        if i != 10 {
            data.extend(format!("{}", i as u8).bytes());
        }
    }
    assert_eq!(count_in_chunks(&data, CHUNK), 0);
}

#[test]
fn line_counter_just_newlines() {
    let mut counter = LineCounter::new();
    for i in 1..257 {
        counter.feed(b"\n");
        assert_eq!(counter.lines(), i);
    }
}

#[test]
fn line_counter_across_chunk_boundary() {
    let n = 3 * CHUNK + 17;
    let data = vec![b'\n'; n];
    assert_eq!(count_in_chunks(&data, CHUNK), n);
    assert_eq!(count_in_chunks(&data, 7), n);
}

#[test]
fn line_counter_mixed() {
    let mut buf: Vec<u8> = vec![0; 65536];
    let mut lines: usize = 0;
    for i in 0..65536usize {
        let start = i / 256;
        let count = i % 256;
        let end = start + count + 1;
        for c in i..end {
            buf[i] = c as u8;
            if c == 10 {
                lines += 1
            }
        }
    }
    assert_ne!(lines, 0);
    assert_eq!(count_in_chunks(&buf, CHUNK), lines);
    assert_eq!(count_in_chunks(&buf, 1000), lines);
}

#[test]
fn line_counter_other_bytes_ignored() {
    let data: Vec<u8> = (0..=255u8).collect();
    assert_eq!(count_in_chunks(&data, 16), 1);
}

#[test]
fn line_counter_mixed_slices() {
    let mut buf: [u8; 512] = [0; 512];
    for i in 0..512 {
        buf[i] = (i % 256) as u8;
    }
    let mut counter = LineCounter::new();
    let mut lines: usize = 0;
    for i in 0..256 {
        for j in 1..257 {
            let end = i + j;
            counter.feed(&buf[i..end]);
            if i <= 10 && end > 10 {
                lines += 1;
            }
            if i <= 266 && end > 266 {
                lines += 1;
            }
        }
    }
    assert_ne!(lines, 0);
    assert_eq!(counter.lines(), lines);
}
