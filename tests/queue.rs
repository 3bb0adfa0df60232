use cueue::{abandoned_for, cueue, Chunk, Layout, Reader, Writer};

/// A byte queue of one 4 KiB page's worth of slots; the bytes themselves are
/// kept by the test in `Slots`, indexed by the windows that the handles give.
fn byte_queue(requested: usize) -> (Writer<()>, Reader<()>) {
    let layout = Layout::new(requested, 4096, 1).unwrap();
    cueue(layout.capacity, ())
}

/// Element slots seen through both windows of the double mapping: slot `i`
/// and slot `i + capacity` are one element.
struct Slots {
    bytes: Vec<u8>,
}

impl Slots {
    fn new(capacity: usize) -> Slots {
        Slots { bytes: vec![0; capacity] }
    }

    fn fill(&mut self, chunk: Chunk, data: &[u8]) {
        assert!(data.len() <= chunk.len);
        let cap = self.bytes.len();
        assert!(chunk.start < cap && chunk.start + chunk.len <= 2 * cap);
        for (i, b) in data.iter().enumerate() {
            self.bytes[(chunk.start + i) % cap] = *b;
        }
    }

    fn get(&self, chunk: Chunk) -> Vec<u8> {
        let cap = self.bytes.len();
        assert!(chunk.start < cap && chunk.start + chunk.len <= 2 * cap);
        (0..chunk.len).map(|i| self.bytes[(chunk.start + i) % cap]).collect()
    }
}

#[test]
fn test_capacity() {
    let (w, r) = byte_queue(16);
    assert_eq!(w.capacity(), r.capacity());
    assert_eq!(w.capacity(), 4096);
    let (w, _r) = byte_queue(4097);
    assert_eq!(w.capacity(), 8192);
}

#[test]
fn test_writer() {
    let (mut w, r) = byte_queue(16);

    let cap = w.capacity();

    let buf = w.write_chunk();
    assert_eq!(buf.len, cap);
    w.commit(0);

    let buf = w.write_chunk();
    assert_eq!(buf.len, cap);
    w.commit(3);

    let buf = w.write_chunk();
    assert_eq!(buf.len, cap - 3);

    assert!(!w.is_abandoned());
    std::mem::drop(r);
    assert!(w.is_abandoned());
}

#[test]
fn test_reader() {
    let (mut w, mut r) = byte_queue(16);
    let mut slots = Slots::new(w.capacity());

    let empty = r.read_chunk();
    assert_eq!(empty.len, 0);
    r.commit();

    let buf = w.write_chunk();
    slots.fill(buf, b"foo");
    w.commit(3);

    let foo = r.read_chunk();
    assert_eq!(slots.get(foo), b"foo");
    r.commit();

    assert!(!r.is_abandoned());
    std::mem::drop(w);
    assert!(r.is_abandoned());
}

#[test]
fn test_commit_read() {
    let (mut w, mut r) = byte_queue(16);
    let mut slots = Slots::new(w.capacity());

    let empty = r.read_chunk();
    assert_eq!(empty.len, 0);
    r.commit();

    let buf = w.write_chunk();
    slots.fill(buf, b"foo");
    w.commit(3);

    let foo = r.read_chunk();
    assert_eq!(slots.get(foo), b"foo");
    r.commit_read(1);

    let foo = r.read_chunk();
    assert_eq!(slots.get(foo), b"oo");
    r.commit_read(2);

    let empty = r.read_chunk();
    assert!(empty.len == 0);
}

#[test]
fn test_full() {
    let (mut w, mut r) = byte_queue(16);

    let buf = w.write_chunk();
    let buflen = buf.len;
    assert_eq!(buf.len, w.capacity());
    w.commit(buflen);

    let empty = w.write_chunk();
    assert_eq!(empty.len, 0);

    let full = r.read_chunk();
    assert_eq!(full.len, buflen);
    assert_eq!(full.len, r.capacity());
}

#[test]
fn test_reuse() {
    let (mut w, mut r) = byte_queue(16);
    let cap = w.capacity();
    let mut slots: Vec<&str> = vec![""; cap];

    // fill the queue with strings
    let buf = w.write_chunk();
    for i in 0..buf.len {
        slots[(buf.start + i) % cap] = "foobar";
    }
    let buflen = buf.len;
    w.commit(buflen);

    // consume everything
    let full = r.read_chunk();
    assert_eq!(full.len, buflen);
    r.commit();

    // try writing again: the first slot still holds what was written
    let buf = w.write_chunk();
    assert_eq!(buf.start, 0);
    assert_eq!(slots[buf.start], "foobar");
}

#[test]
fn commit_is_clamped_to_open_chunk() {
    let (mut w, _r) = byte_queue(16);
    // no chunk is open yet
    assert_eq!(w.commit(5), 0);
    let buf = w.write_chunk();
    assert_eq!(w.commit(buf.len + 10), buf.len);
    assert_eq!(w.commit(1), 0);
}

#[test]
fn commit_zero_keeps_counter() {
    let (mut w, mut r) = byte_queue(16);
    w.write_chunk();
    assert_eq!(w.commit(0), 0);
    assert_eq!(r.read_chunk().len, 0);
    let again = w.write_chunk();
    assert_eq!(again, Chunk { start: 0, len: 4096 });
}

#[test]
fn chunk_lengths_follow_counters() {
    let (mut w, mut r) = byte_queue(16);
    let cap = w.capacity();
    w.write_chunk();
    w.commit(100);
    let rc = r.read_chunk();
    assert_eq!(rc, Chunk { start: 0, len: 100 });
    r.commit_read(40);
    let wc = w.write_chunk();
    assert_eq!(wc, Chunk { start: 100, len: cap - 60 });
    let rc = r.read_chunk();
    assert_eq!(rc, Chunk { start: 40, len: 60 });
}

#[test]
fn limited_read_chunk_caps_length() {
    let (mut w, mut r) = byte_queue(16);
    let mut slots = Slots::new(w.capacity());
    let buf = w.write_chunk();
    slots.fill(buf, b"abcdef");
    w.commit(6);
    let part = r.limited_read_chunk(4);
    assert_eq!(slots.get(part), b"abcd");
    r.commit();
    let rest = r.limited_read_chunk(10);
    assert_eq!(slots.get(rest), b"ef");
    r.commit();
    assert_eq!(r.limited_read_chunk(10).len, 0);
}

#[test]
fn read_twice_without_commit_is_same_chunk() {
    let (mut w, mut r) = byte_queue(16);
    w.write_chunk();
    w.commit(7);
    let first = r.read_chunk();
    let second = r.read_chunk();
    assert_eq!(first, second);
    w.write_chunk();
    w.commit(2);
    let third = r.read_chunk();
    assert_eq!(third.start, first.start);
    assert_eq!(third.len, 9);
}

#[test]
fn reader_commit_twice_gives_back_once() {
    let (mut w, mut r) = byte_queue(16);
    w.write_chunk();
    w.commit(5);
    assert_eq!(r.read_chunk().len, 5);
    r.commit();
    r.commit();
    assert_eq!(r.read_chunk().len, 0);
    assert_eq!(w.write_chunk().len, w.capacity());
}

#[test]
fn foobarbaz_round_trip() {
    let (mut w, mut r) = byte_queue(16);
    let cap = w.capacity();
    let mut slots = Slots::new(cap);
    let buf = w.write_chunk();
    assert_eq!(buf.len, cap);
    slots.fill(buf, b"foobarbaz");
    assert_eq!(w.commit(9), 9);
    let got = r.read_chunk();
    assert_eq!(slots.get(got), b"foobarbaz");
    r.commit();
    assert_eq!(r.read_chunk().len, 0);
}

#[test]
fn fill_to_capacity_with_pattern() {
    let (mut w, mut r) = byte_queue(16);
    let cap = w.capacity();
    let mut slots = Slots::new(cap);
    let pattern: Vec<u8> = (0..cap).map(|i| (i * 7 % 251) as u8).collect();
    let buf = w.write_chunk();
    slots.fill(buf, &pattern);
    assert_eq!(w.commit(cap), cap);
    assert_eq!(w.write_chunk().len, 0);
    let full = r.read_chunk();
    assert_eq!(full.len, cap);
    assert_eq!(slots.get(full), pattern);
}

#[test]
fn wrap_around_is_one_chunk() {
    let (mut w, mut r) = byte_queue(16);
    let cap = w.capacity();
    assert_eq!(cap, 4096);
    let mut slots = Slots::new(cap);
    let buf = w.write_chunk();
    slots.fill(buf, &vec![b'A'; 4095]);
    assert_eq!(w.commit(4095), 4095);
    let got = r.read_chunk();
    assert_eq!(slots.get(got), vec![b'A'; 4095]);
    r.commit();
    let buf = w.write_chunk();
    assert_eq!(buf.start, 4095);
    slots.fill(buf, b"XY");
    assert_eq!(w.commit(2), 2);
    let got = r.read_chunk();
    assert_eq!(got, Chunk { start: 4095, len: 2 });
    assert_eq!(slots.get(got), b"XY");
}

#[test]
fn drained_after_writer_dropped() {
    let (mut w, mut r) = byte_queue(16);
    w.write_chunk();
    w.commit(10);
    std::mem::drop(w);
    assert!(r.is_abandoned());
    assert_eq!(r.read_chunk().len, 10);
    r.commit();
    assert!(r.is_abandoned());
    assert_eq!(r.read_chunk().len, 0);
}

#[test]
fn interleaved_steps_keep_bounds_and_order() {
    let (mut w, mut r) = byte_queue(16);
    let cap = w.capacity();
    let mut slots = Slots::new(cap);
    let mut next_write: u32 = 0;
    let mut next_read: u32 = 0;
    let mut produced: usize = 0;
    let mut consumed: usize = 0;
    let mut seed: u64 = 12345;
    for _ in 0..2000 {
        seed = seed.wrapping_mul(6364136223846793005).wrapping_add(1442695040888963407);
        let amount = ((seed >> 33) % 700) as usize;
        if (seed >> 20) % 2 == 0 {
            let buf = w.write_chunk();
            assert_eq!(buf.len, cap - (produced - consumed));
            let n = amount.min(buf.len);
            let data: Vec<u8> = (0..n).map(|i| (next_write as usize + i) as u8).collect();
            slots.fill(buf, &data);
            assert_eq!(w.commit(amount), n);
            next_write += n as u32;
            produced += n;
        } else {
            let chunk = r.read_chunk();
            assert_eq!(chunk.len, produced - consumed);
            let k = amount.min(chunk.len);
            let got = slots.get(chunk);
            for (i, b) in got.iter().take(k).enumerate() {
                assert_eq!(*b, (next_read as usize + i) as u8);
            }
            r.commit_read(k);
            next_read += k as u32;
            consumed += k;
        }
        assert!(consumed <= produced && produced - consumed <= cap);
    }
    let rest = r.read_chunk();
    r.commit();
    consumed += rest.len;
    assert_eq!(consumed, produced);
}

#[test]
fn abandoned_when_alone() {
    assert!(abandoned_for(0));
    assert!(abandoned_for(1));
    assert!(!abandoned_for(2));
    assert!(!abandoned_for(3));
}

#[test]
fn push_slot_until_full() {
    let (mut w, mut r) = byte_queue(16);
    let cap = w.capacity();
    for i in 0..cap {
        assert_eq!(w.push_slot(), Some(i));
        assert_eq!(w.commit(1), 1);
    }
    assert_eq!(w.push_slot(), None);
    assert_eq!(r.read_chunk().len, cap);
    r.commit_read(1);
    assert_eq!(w.push_slot(), Some(0));
}
