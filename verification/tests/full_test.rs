use udisk_tester::content::ContentHasher;
use udisk_tester::files::SPACE_MARGIN;
use udisk_tester::full_test::{opening, FullTest, TestEvent, TestRequest};
use udisk_tester::report::{fill, Piece, Report};

const MB: u64 = 1024 * 1024;

fn shown(pieces: &Vec<Piece>) -> String {
    let figures: Vec<String> = pieces
        .iter()
        .map(|p| match p {
            Piece::Gb(b) => format!("{:.2}", *b as f64 / 1024.0 / 1024.0 / 1024.0),
            _ => String::new(),
        })
        .collect();
    fill(pieces, &figures)
}

fn lines(reports: &[Report]) -> Vec<String> {
    reports
        .iter()
        .map(|r| match r {
            Report::Log(v) => shown(v),
            Report::Progress { phase, cur, total } => format!("{} {cur}/{total}", shown(phase)),
            Report::Finished => "Finished".to_string(),
        })
        .collect()
}

fn step(test: &mut FullTest, event: TestEvent) -> Vec<String> {
    assert!(test.accepts(&event));
    lines(&test.step(event))
}

fn started(files: &[(u64, u64)]) -> FullTest {
    let mut test = FullTest::new(1);
    step(&mut test, TestEvent::Free(Some(SPACE_MARGIN + 1024 * MB)));
    for f in files {
        step(&mut test, TestEvent::Stop(false));
        step(&mut test, TestEvent::Free(Some(SPACE_MARGIN + MB)));
        step(&mut test, TestEvent::Exists(false));
        step(&mut test, TestEvent::Wrote(Ok(*f)));
    }
    test
}

fn ending(errors: usize) -> Vec<String> {
    vec![
        "===== 全盘测试结果 =====".to_string(),
        format!("错误文件数：{errors}"),
        if errors == 0 {
            "✅ 全部校验通过".to_string()
        } else {
            "❌ 检测到数据损坏：扩容盘 / 闪存坏块".to_string()
        },
        "Finished".to_string(),
    ]
}

fn with_ending(mut first: Vec<String>, errors: usize) -> Vec<String> {
    first.extend(ending(errors));
    first
}

#[test]
fn faithful_drive_passes() {
    let mut test = FullTest::new(1024);
    assert_eq!(test.file_size(), 1024 * MB);
    assert_eq!(test.request(), TestRequest::FreeSpace);
    assert_eq!(
        step(&mut test, TestEvent::Free(Some(2 * 1024 * MB))),
        vec![
            "盘符剩余空间 2.00 GB".to_string(),
            format!("写入阶段 0/{}", 2 * 1024 * MB - SPACE_MARGIN),
        ]
    );
    assert_eq!(test.request(), TestRequest::CheckStop);
    assert!(step(&mut test, TestEvent::Stop(false)).is_empty());
    assert_eq!(test.request(), TestRequest::FreeSpace);
    assert!(step(&mut test, TestEvent::Free(Some(1024 * MB + SPACE_MARGIN))).is_empty());
    assert_eq!(test.request(), TestRequest::FileExists(1));
    assert_eq!(
        step(&mut test, TestEvent::Exists(true)),
        vec!["⚠ \"test_1.h2w\" 已存在，将被覆盖", "写入 \"test_1.h2w\""]
    );
    assert_eq!(test.request(), TestRequest::WriteFile(1));
    assert_eq!(
        step(&mut test, TestEvent::Wrote(Ok((77, 1024 * MB)))),
        vec![format!(
            "写入阶段 1.00 GB / 预计 1.90 GB {}/{}",
            1024 * MB,
            2 * 1024 * MB - SPACE_MARGIN
        )]
    );
    step(&mut test, TestEvent::Stop(false));
    assert_eq!(
        step(&mut test, TestEvent::Free(Some(1024 * MB + SPACE_MARGIN - 1))),
        vec![
            "剩余空间不足，停止写入。剩余 1.10 GB",
            "写入完成，总写入 1.00 GB",
            "----- 开始回读校验 -----",
        ]
    );
    assert_eq!(test.request(), TestRequest::CheckStop);
    assert_eq!(step(&mut test, TestEvent::Stop(false)), vec!["校验 \"test_1.h2w\""]);
    assert_eq!(test.request(), TestRequest::ReadFile(1));
    assert_eq!(
        step(&mut test, TestEvent::Read(Ok(Some((77, 1024 * MB))))),
        with_ending(
            vec![
                format!("校验阶段 1.00 GB / 1.00 GB {}/{}", 1024 * MB, 1024 * MB),
                "✅ \"test_1.h2w\" 校验通过".to_string(),
            ],
            0
        )
    );
    assert_eq!(test.request(), TestRequest::Nothing);
    assert!(!test.accepts(&TestEvent::Stop(false)));
}

#[test]
fn test_is_announced_before_the_drive_is_asked() {
    assert_eq!(lines(&[opening()]), vec!["===== 全盘读写校验开始 ====="]);
}

#[test]
fn unknown_space_ends_the_test() {
    let mut test = FullTest::new(1);
    assert_eq!(
        step(&mut test, TestEvent::Free(None)),
        vec!["获取磁盘空间失败", "Finished"]
    );
    assert_eq!(test.request(), TestRequest::Nothing);
}

#[test]
fn space_that_becomes_unknown_counts_as_none() {
    let mut test = started(&[]);
    step(&mut test, TestEvent::Stop(false));
    assert_eq!(
        step(&mut test, TestEvent::Free(None)),
        with_ending(
            vec![
                "剩余空间不足，停止写入。剩余 0.00 GB".to_string(),
                "写入完成，总写入 0.00 GB".to_string(),
                "----- 开始回读校验 -----".to_string(),
            ],
            0
        )
    );
}

#[test]
fn small_drive_has_no_estimate() {
    let mut test = FullTest::new(1);
    let first = step(&mut test, TestEvent::Free(Some(SPACE_MARGIN - 1)));
    assert_eq!(first[1], "写入阶段 0/0");
}

#[test]
fn bad_files_are_counted_one_by_one() {
    let mut test = started(&[(1, MB), (2, MB), (3, MB), (4, MB)]);
    step(&mut test, TestEvent::Stop(true));
    step(&mut test, TestEvent::Stop(false));
    assert_eq!(
        step(&mut test, TestEvent::Read(Ok(Some((1, MB)))))[1],
        "✅ \"test_1.h2w\" 校验通过"
    );
    step(&mut test, TestEvent::Stop(false));
    assert_eq!(
        step(&mut test, TestEvent::Read(Ok(Some((9, MB)))))[1],
        "❌ \"test_2.h2w\" 校验失败，数据损坏"
    );
    step(&mut test, TestEvent::Stop(false));
    assert_eq!(
        step(&mut test, TestEvent::Read(Err("io".to_string()))),
        vec!["读取失败 \"test_3.h2w\": io"]
    );
    step(&mut test, TestEvent::Stop(false));
    let last = step(&mut test, TestEvent::Read(Ok(Some((4, MB)))));
    assert_eq!(last[0], format!("校验阶段 0.00 GB / 0.00 GB {}/{}", 3 * MB, 4 * MB));
    assert_eq!(last[2..], ending(2));
}

#[test]
fn stopped_writing_is_followed_by_reading() {
    let mut test = started(&[(1, MB)]);
    assert_eq!(
        step(&mut test, TestEvent::Stop(true)),
        vec!["用户终止写入阶段", "写入完成，总写入 0.00 GB", "----- 开始回读校验 -----"]
    );
    assert_eq!(test.request(), TestRequest::CheckStop);
    assert_eq!(step(&mut test, TestEvent::Stop(true)), ending(0));
    assert_eq!(test.request(), TestRequest::Nothing);
}

#[test]
fn reading_stopped_within_a_file() {
    let mut test = started(&[(1, MB), (2, MB)]);
    step(&mut test, TestEvent::Stop(true));
    step(&mut test, TestEvent::Stop(false));
    assert_eq!(
        step(&mut test, TestEvent::Read(Ok(None))),
        with_ending(vec!["用户终止校验 \"test_1.h2w\"".to_string()], 0)
    );
}

#[test]
fn failed_write_ends_the_writing() {
    let mut test = started(&[(1, MB)]);
    step(&mut test, TestEvent::Stop(false));
    step(&mut test, TestEvent::Free(Some(u64::MAX)));
    assert_eq!(step(&mut test, TestEvent::Exists(false)), vec!["写入 \"test_2.h2w\""]);
    assert_eq!(
        step(&mut test, TestEvent::Wrote(Err("full".to_string()))),
        vec![
            "写入失败 \"test_2.h2w\": full",
            "写入完成，总写入 0.00 GB",
            "----- 开始回读校验 -----",
        ]
    );
}

#[test]
fn answers_that_do_not_fit_are_refused() {
    let test = started(&[]);
    assert!(test.accepts(&TestEvent::Stop(true)));
    assert!(!test.accepts(&TestEvent::Free(Some(1))));
    assert!(!test.accepts(&TestEvent::Exists(true)));
    assert!(!test.accepts(&TestEvent::Wrote(Ok((1, 1)))));
    assert!(!test.accepts(&TestEvent::Read(Ok(None))));
    let mut full = started(&[(1, u64::MAX)]);
    step(&mut full, TestEvent::Stop(false));
    step(&mut full, TestEvent::Free(Some(u64::MAX)));
    step(&mut full, TestEvent::Exists(false));
    assert!(!full.accepts(&TestEvent::Wrote(Ok((1, 1)))));
    assert!(full.accepts(&TestEvent::Wrote(Err(String::new()))));
}

#[test]
fn largest_files_never_fit() {
    let mut large = FullTest::new(u64::MAX / MB);
    step(&mut large, TestEvent::Free(Some(u64::MAX)));
    step(&mut large, TestEvent::Stop(false));
    let log = step(&mut large, TestEvent::Free(Some(u64::MAX)));
    assert!(log[0].starts_with("剩余空间不足，停止写入。剩余 "));
    assert_eq!(log[1..3], ["写入完成，总写入 0.00 GB", "----- 开始回读校验 -----"]);
    assert_eq!(log[3..], ending(0));
    assert_eq!(large.request(), TestRequest::Nothing);
}

fn hash_of(content: &[u8]) -> u64 {
    let mut hasher = ContentHasher::new();
    hasher.absorb(content);
    hasher.finish()
}

#[test]
fn log_names_the_changed_file_alone() {
    let written: Vec<Vec<u8>> = (0..3u8).map(|i| vec![i; 1000]).collect();
    let mut read = written.clone();
    read[1][0] ^= 0xFF;
    let files: Vec<(u64, u64)> = written.iter().map(|c| (hash_of(c), 1000)).collect();
    let mut test = started(&files);
    let mut log = step(&mut test, TestEvent::Stop(true));
    for content in &read {
        log.extend(step(&mut test, TestEvent::Stop(false)));
        log.extend(step(&mut test, TestEvent::Read(Ok(Some((hash_of(content), 1000))))));
    }
    let damaged: Vec<&String> = log.iter().filter(|l| l.ends_with("校验失败，数据损坏")).collect();
    assert_eq!(damaged, vec!["❌ \"test_2.h2w\" 校验失败，数据损坏"]);
    let passed: Vec<&String> = log.iter().filter(|l| l.ends_with("\" 校验通过")).collect();
    assert_eq!(passed, vec!["✅ \"test_1.h2w\" 校验通过", "✅ \"test_3.h2w\" 校验通过"]);
    assert!(log.contains(&"错误文件数：1".to_string()));
    assert_eq!(test.request(), TestRequest::Nothing);
}

#[test]
fn drive_is_filled_and_every_file_is_read_back() {
    let mut test = FullTest::new(1);
    let mut free = SPACE_MARGIN + 5 * MB + 1;
    let mut written: Vec<u64> = Vec::new();
    let mut read: Vec<u64> = Vec::new();
    loop {
        let event = match test.request() {
            TestRequest::FreeSpace => TestEvent::Free(Some(free)),
            TestRequest::CheckStop => TestEvent::Stop(false),
            TestRequest::FileExists(_) => TestEvent::Exists(false),
            TestRequest::WriteFile(index) => {
                written.push(index);
                free -= MB;
                TestEvent::Wrote(Ok((index, MB)))
            }
            TestRequest::ReadFile(index) => {
                read.push(index);
                TestEvent::Read(Ok(Some((index, MB))))
            }
            TestRequest::Nothing => break,
        };
        step(&mut test, event);
    }
    assert_eq!(free, SPACE_MARGIN + 1);
    assert_eq!(written, vec![1, 2, 3, 4, 5]);
    assert_eq!(read, written);
}
