use std::cell::Cell;
use std::collections::hash_map::DefaultHasher;
use std::hash::Hasher;
use udisk_tester::content::{ContentHasher, CHUNK};
use udisk_tester::transfer::{
    FileHasher, HashEvent, HashStage, RandomFileWriter, WriteEvent, WriteStage,
};

fn write_random_file(size: u64, should_stop: impl Fn() -> bool) -> (Vec<u8>, u64, u64) {
    let mut disk = Vec::new();
    let mut writer = RandomFileWriter::new(size);
    loop {
        match writer.stage() {
            WriteStage::CheckStop => writer.step(WriteEvent::Stop(should_stop())),
            WriteStage::Write => {
                let block = writer.next_block();
                assert_eq!(block.len(), writer.next_len());
                disk.extend_from_slice(&block);
                writer.step(WriteEvent::Written(block));
            }
            WriteStage::Done => break,
        }
    }
    let (hash, wrote) = writer.finish();
    (disk, hash, wrote)
}

fn hash_in_pieces(disk: &[u8], piece: usize, should_stop: impl Fn() -> bool) -> Option<(u64, u64)> {
    let mut hasher = FileHasher::new();
    let mut at = 0;
    loop {
        let event = match hasher.stage() {
            HashStage::CheckStop => HashEvent::Stop(should_stop()),
            HashStage::Read => {
                let end = std::cmp::min(disk.len(), at + piece);
                let data = disk[at..end].to_vec();
                at = end;
                HashEvent::Data(data)
            }
            _ => break,
        };
        assert!(hasher.accepts(&event));
        hasher.step(event);
    }
    hasher.finish()
}

fn hash_file(disk: &[u8], should_stop: impl Fn() -> bool) -> Option<(u64, u64)> {
    hash_in_pieces(disk, 128 * 1024, should_stop)
}

#[test]
fn write_then_hash_round_trip() {
    let (disk, hash, wrote) = write_random_file(256 * 1024, || false);
    assert_eq!(wrote, 256 * 1024, "应写满整个文件");
    let (hash2, bytes) = hash_file(&disk, || false).unwrap();
    assert_eq!(bytes, 256 * 1024, "回读字节数应与写入一致");
    assert_eq!(hash, hash2, "写入哈希与回读哈希应一致");
}

#[test]
fn corruption_detected() {
    let (mut disk, hash, _) = write_random_file(256 * 1024, || false);
    disk[128 * 1024] ^= 0xFF;
    let (hash2, _) = hash_file(&disk, || false).unwrap();
    assert_ne!(hash, hash2, "内容被篡改后哈希必须不同");
}

#[test]
fn stop_interrupts_write() {
    let calls = Cell::new(0usize);
    let should_stop = || {
        calls.set(calls.get() + 1);
        calls.get() > 8
    };
    let (disk, hash, wrote) = write_random_file(10 * 1024 * 1024, should_stop);
    assert!(wrote < 10 * 1024 * 1024, "停止后不应写满");
    assert_eq!(wrote, 8 * 128 * 1024, "应在第 8 个块后被中断");
    let (hash2, bytes) = hash_file(&disk, || false).unwrap();
    assert_eq!(bytes, wrote);
    assert_eq!(hash, hash2);
}

#[test]
fn empty_file_hashes_stable() {
    let (disk, h1, w) = write_random_file(0, || false);
    assert_eq!(w, 0, "空文件不应写入任何字节");
    let (h2, b) = hash_file(&disk, || false).unwrap();
    assert_eq!(b, 0);
    assert_eq!(h1, h2, "空文件的写入哈希与回读哈希应一致");
}

#[test]
fn multi_file_round_trip_all_pass() {
    let mut files = Vec::new();
    for i in 0..3u64 {
        let (disk, h, _) = write_random_file((i + 1) * 64 * 1024, || false);
        files.push((disk, h));
    }
    let mut errs = 0usize;
    for (disk, expected) in &files {
        let (h, _) = hash_file(disk, || false).unwrap();
        if h != *expected {
            errs += 1;
        }
    }
    assert_eq!(errs, 0, "所有文件都应校验通过");
}

#[test]
fn multi_file_corruption_isolated() {
    let mut files = Vec::new();
    for _ in 0..3u64 {
        let (disk, h, _) = write_random_file(64 * 1024, || false);
        files.push((disk, h));
    }
    files[1].0[0] ^= 0xFF;
    let mut errs: Vec<usize> = Vec::new();
    for (i, (disk, expected)) in files.iter().enumerate() {
        let (h, _) = hash_file(disk, || false).unwrap();
        if h != *expected {
            errs.push(i);
        }
    }
    assert_eq!(errs, vec![1], "只有被损坏的第 2 个文件应报错");
}

#[test]
fn hash_file_stops() {
    let (disk, _, _) = write_random_file(10 * 1024 * 1024, || false);
    let calls = Cell::new(0usize);
    let should_stop = || {
        calls.set(calls.get() + 1);
        calls.get() > 4
    };
    let r = hash_file(&disk, should_stop);
    assert!(r.is_none(), "校验过程中被停止应返回 Ok(None)");
}

#[test]
fn pieces_of_reads_do_not_matter() {
    let (disk, hash, wrote) = write_random_file(300_001, || false);
    for piece in [1000, 4096, 65_537, 131_072, 200_000, 1_000_000] {
        assert_eq!(hash_in_pieces(&disk, piece, || false), Some((hash, wrote)));
    }
}

#[test]
fn hash_is_the_standard_one() {
    let data: Vec<u8> = (0..300_000u32).map(|i| (i % 251) as u8).collect();
    let mut whole = DefaultHasher::new();
    whole.write(&data);
    let mut hasher = ContentHasher::new();
    hasher.absorb(&data[..5]);
    hasher.absorb(&data[5..]);
    assert_eq!(hasher.finish(), whole.finish());
    assert_eq!(ContentHasher::new().finish(), DefaultHasher::new().finish());
}

#[test]
fn random_blocks_are_filled() {
    let (disk, _, wrote) = write_random_file(2 * CHUNK as u64 + 5, || false);
    assert_eq!(wrote, 2 * CHUNK as u64 + 5);
    assert!(disk.iter().any(|b| *b != 0));
    assert_ne!(disk[..CHUNK], disk[CHUNK..2 * CHUNK]);
}

#[test]
fn stop_before_the_first_block_writes_nothing() {
    let (disk, _, wrote) = write_random_file(1000, || true);
    assert!(disk.is_empty());
    assert_eq!(wrote, 0);
}

#[test]
fn whole_file_is_not_asked_to_stop() {
    let calls = Cell::new(0usize);
    let (_, _, wrote) = write_random_file(0, || {
        calls.set(calls.get() + 1);
        true
    });
    assert_eq!(wrote, 0);
    assert_eq!(calls.get(), 0);
}
