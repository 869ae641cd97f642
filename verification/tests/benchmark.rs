use udisk_tester::benchmark::{
    block_position, opening, BenchEvent, BenchRequest, Benchmark, BLOCK, COUNT, SEQ_BYTES,
};
use udisk_tester::content::CHUNK;
use udisk_tester::random::{random_block, random_position};
use udisk_tester::report::{Pass, Piece, Report};

fn shown(pieces: &[Piece]) -> String {
    pieces
        .iter()
        .map(|p| match p {
            Piece::Text(s) => s.clone(),
            Piece::Gb(b) => format!("<{b}>"),
            Piece::Rate { bytes, pass, decimals } => format!("<{bytes} {pass:?} {decimals}>"),
        })
        .collect()
}

fn line(report: &Report) -> String {
    match report {
        Report::Log(v) => shown(v),
        Report::Progress { phase, cur, total } => format!("{} {cur}/{total}", shown(phase)),
        Report::Finished => "Finished".to_string(),
    }
}

struct Run {
    lines: Vec<String>,
    seq_written: usize,
    seq_read: usize,
    rand_written: usize,
    rand_read: usize,
}

/// Runs a benchmark; `stop` is asked before each move, `read` says how many
/// bytes a read returns.
fn run(exists: bool, stop: impl Fn(usize) -> bool, read: impl Fn(usize) -> usize) -> Run {
    let mut bench = Benchmark::new();
    let mut r = Run { lines: vec![line(&opening())], seq_written: 0, seq_read: 0, rand_written: 0, rand_read: 0 };
    let mut asked = 0;
    loop {
        let event = match bench.request() {
            BenchRequest::FileExists => BenchEvent::Exists(exists),
            BenchRequest::Open(_) => BenchEvent::Opened,
            BenchRequest::CheckStop => {
                asked += 1;
                BenchEvent::Stop(stop(asked))
            }
            BenchRequest::WriteNext(n) => {
                assert!(n <= CHUNK);
                r.seq_written += n;
                BenchEvent::Moved(n)
            }
            BenchRequest::ReadNext(n) => {
                assert_eq!(n, CHUNK);
                let n = read(r.seq_written - r.seq_read);
                r.seq_read += n;
                BenchEvent::Moved(n)
            }
            BenchRequest::WriteAt => {
                r.rand_written += 1;
                BenchEvent::Moved(BLOCK)
            }
            BenchRequest::ReadAt => {
                r.rand_read += 1;
                BenchEvent::Moved(BLOCK)
            }
            BenchRequest::Remove => BenchEvent::Removed,
            BenchRequest::Nothing => break,
        };
        assert!(bench.accepts(event));
        r.lines.extend(bench.step(event).iter().map(line));
    }
    r
}

#[test]
fn undisturbed_run_moves_everything() {
    let r = run(false, |_| false, |left| std::cmp::min(left, CHUNK));
    assert_eq!(r.seq_written, SEQ_BYTES);
    assert_eq!(r.seq_read, SEQ_BYTES);
    assert_eq!(r.rand_written, COUNT);
    assert_eq!(r.rand_read, COUNT);
    let mut expected = vec!["==== 简易测速开始 ====".to_string()];
    for name in ["连续写入", "连续读取"] {
        expected.push(format!("{name} 0/104857600"));
        for k in 1..=12 {
            expected.push(format!("{name} {}/104857600", k * 64 * 131072));
        }
        expected.push(format!("{name} 104857600/104857600"));
    }
    expected.push(
        "连续写入: <104857600 SeqWrite 2> MB/s | 连续读取: <104857600 SeqRead 2> MB/s".to_string(),
    );
    for name in ["4K随机写入", "4K随机读取"] {
        expected.push(format!("{name} 0/20000"));
        for k in 0..40 {
            expected.push(format!("{name} {}/20000", k * 500));
        }
        expected.push(format!("{name} 20000/20000"));
    }
    expected.push(
        "4K随机写入: <81920000 RandWrite 3> MB/s | 4K随机读取: <81920000 RandRead 3> MB/s"
            .to_string(),
    );
    expected.push("==== 测速完成 ====".to_string());
    expected.push("Finished".to_string());
    assert_eq!(r.lines, expected);
}

#[test]
fn stop_ends_each_pass() {
    let r = run(true, |asked| asked > 3, |left| std::cmp::min(left, CHUNK));
    assert_eq!(r.seq_written, 3 * CHUNK);
    assert_eq!(r.seq_read, 3 * CHUNK);
    assert_eq!((r.rand_written, r.rand_read), (0, 0));
    assert_eq!(r.lines[1], "⚠ bench_test.tmp 已存在，将被覆盖");
    assert_eq!(r.lines.iter().filter(|l| *l == "Finished").count(), 1);
    assert_eq!(r.lines.last().unwrap(), "Finished");
}

#[test]
fn short_reads_are_counted_one_by_one() {
    let r = run(false, |_| false, |left| std::cmp::min(left, 100_000));
    assert_eq!(r.seq_read, SEQ_BYTES);
    let ticks: Vec<&String> = r.lines.iter().filter(|l| l.starts_with("连续读取 ")).collect();
    assert_eq!(ticks[1], &format!("连续读取 {}/104857600", 64 * 100_000));
    assert_eq!(ticks.len(), 2 + 1049 / 64);
}

#[test]
fn read_stays_within_what_is_left() {
    let mut bench = Benchmark::new();
    bench.step(BenchEvent::Exists(false));
    assert_eq!(bench.request(), BenchRequest::Open(Pass::SeqWrite));
    assert!(!bench.accepts(BenchEvent::Moved(1)));
    assert!(!bench.accepts(BenchEvent::Removed));
    bench.step(BenchEvent::Opened);
    bench.step(BenchEvent::Stop(true));
    assert_eq!(bench.request(), BenchRequest::Open(Pass::SeqRead));
    bench.step(BenchEvent::Opened);
    assert!(bench.accepts(BenchEvent::Moved(SEQ_BYTES)));
    assert!(!bench.accepts(BenchEvent::Moved(SEQ_BYTES + 1)));
}

#[test]
fn blocks_lie_within_the_file() {
    let mut seen = Vec::new();
    for _ in 0..1000 {
        let at = block_position();
        assert!(at + BLOCK <= SEQ_BYTES);
        seen.push(at);
    }
    seen.sort();
    seen.dedup();
    assert!(seen.len() > 900);
    assert_eq!(random_position(5, 4), 0);
}

#[test]
fn random_blocks_differ() {
    let a = random_block(64);
    let b = random_block(64);
    assert_eq!(a.len(), 64);
    assert_ne!(a, b);
    assert!(random_block(0).is_empty());
}
