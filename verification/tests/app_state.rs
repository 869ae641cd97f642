use std::sync::mpsc;
use udisk_tester::app_state::{AppState, Button, FontOutcome, Panel};
use udisk_tester::drives::list_drives;
use udisk_tester::report::{ProgressInfo, TaskMsg};

type App = AppState<mpsc::Sender<TaskMsg>, mpsc::Receiver<TaskMsg>>;

fn drain(app: &App) -> Vec<TaskMsg> {
    match app.task_rx.as_ref() {
        Some(rx) => rx.try_iter().collect(),
        None => Vec::new(),
    }
}

fn present(letters: &str) -> Vec<bool> {
    ('A'..='Z').map(|c| letters.contains(c)).collect()
}

fn progress(cur: u64) -> ProgressInfo {
    ProgressInfo { visible: true, phase: "写入阶段".to_string(), cur, total: 2 }
}

#[test]
fn log_queue_capped() {
    let mut app: App = AppState::default();
    for i in 0..300 {
        app.log(format!("msg {}", i));
    }
    assert_eq!(app.log_queue.len(), 200, "日志队列应被限制在 200 条");
    assert!(app.log_queue.front().unwrap().contains("msg 100"));
    assert!(app.log_queue.back().unwrap().contains("msg 299"));
}

#[test]
fn poll_messages_flow() {
    let mut app: App = AppState::default();
    let (tx, rx) = mpsc::channel();
    app.task_rx = Some(rx);
    app.running = true;

    tx.send(TaskMsg::Log("hello".to_string())).unwrap();
    tx.send(TaskMsg::Progress(ProgressInfo {
        visible: true,
        phase: "写入阶段".to_string(),
        cur: 1,
        total: 2,
    }))
    .unwrap();
    let msgs = drain(&app);
    app.poll_messages(msgs);
    assert_eq!(app.log_queue.len(), 1);
    assert!(app.log_queue.back().unwrap().contains("hello"));
    assert!(app.progress.visible);
    assert!(app.running, "未收到 Finished 前仍处于运行中");

    tx.send(TaskMsg::Finished).unwrap();
    let msgs = drain(&app);
    app.poll_messages(msgs);
    assert!(!app.running, "收到 Finished 后应停止运行");
    assert!(app.task_rx.is_none(), "Finished 后应清空消息接收端");
    assert!(app.task_tx.is_none());
    assert!(!app.progress.visible, "Finished 后进度条应隐藏");
}

#[test]
fn log_lines_carry_the_time() {
    let mut app: App = AppState::default();
    app.log_at("12:34:56", "hello".to_string());
    assert_eq!(app.log_queue[0], "[12:34:56] hello");
    app.log("now".to_string());
    let line: Vec<char> = app.log_queue[1].chars().collect();
    assert_eq!(line.len(), 14);
    assert_eq!((line[0], line[3], line[6], line[9], line[10]), ('[', ':', ':', ']', ' '));
    for i in [1, 2, 4, 5, 7, 8] {
        assert!(line[i].is_ascii_digit());
    }
    assert!(app.log_queue[1].ends_with("now"));
}

#[test]
fn log_keeps_the_newest_in_order() {
    let mut app: App = AppState::default();
    for i in 0..205 {
        app.log_at("00:00:00", i.to_string());
    }
    let expected: Vec<String> = (5..205).map(|i| format!("[00:00:00] {i}")).collect();
    assert!(app.log_queue.iter().eq(expected.iter()));
}

#[test]
fn drives_are_listed_without_the_system_drive() {
    let mut app: App = AppState::default();
    app.refresh_drives_at(&present("CDFZ"), "01:02:03");
    assert_eq!(app.drives, vec!["D:\\", "F:\\", "Z:\\"]);
    assert_eq!(app.selected_drive, "D:\\");
    assert_eq!(
        app.log_queue[0],
        format!("[01:02:03] 盘符刷新完成，已排除C盘：{:?}", app.drives)
    );
}

#[test]
fn drives_come_in_the_order_of_their_letters() {
    let (drives, _) = list_drives(&vec![true; 26]);
    let expected: Vec<String> =
        ('A'..='Z').filter(|c| *c != 'C').map(|c| format!("{c}:\\")).collect();
    assert_eq!(drives.len(), 25);
    assert_eq!(drives, expected);
}

#[test]
fn shown_drives_are_those_of_the_debug_format() {
    for letters in ["", "C", "A", "AB", "ABCDEFGHIJKLMNOPQRSTUVWXYZ", "XYZ"] {
        let (drives, shown) = list_drives(&present(letters));
        assert_eq!(format!("[{shown}]"), format!("{drives:?}"));
        assert!(!drives.contains(&"C:\\".to_string()));
        assert_eq!(drives.len(), letters.chars().filter(|c| *c != 'C').count());
    }
}

#[test]
fn selected_drive_is_kept() {
    let mut app: App = AppState::default();
    app.selected_drive = "E:\\".to_string();
    app.refresh_drives(&present("D"));
    assert_eq!(app.selected_drive, "E:\\");
    let mut none: App = AppState::default();
    none.refresh_drives(&present("C"));
    assert!(none.drives.is_empty());
    assert_eq!(none.selected_drive, "");
}

#[test]
fn new_state() {
    let app: App = AppState::new(&present("CG"));
    assert_eq!(app.file_size_mb, 1024);
    assert_eq!(app.drives, vec!["G:\\"]);
    assert_eq!(app.selected_drive, "G:\\");
    assert!(!app.running && !app.stop_flag && !app.fonts_ready);
    assert!(app.task_tx.is_none() && app.task_rx.is_none());
    assert_eq!(app.log_queue.len(), 1);
    assert!(app.log_queue[0].ends_with("盘符刷新完成，已排除C盘：[\"G:\\\\\"]"));
    let at: App = AppState::new_at(&present(""), "09:00:00");
    assert_eq!(at.log_queue[0], "[09:00:00] 盘符刷新完成，已排除C盘：[]");
}

#[test]
fn full_test_starts_once() {
    let mut app: App = AppState::new(&present("D"));
    app.stop_flag = true;
    app.progress = progress(1);
    let (tx, rx) = mpsc::channel();
    assert_eq!(app.start_full_test(tx, rx), Some(("D:\\".to_string(), 1024)));
    assert!(app.running && !app.stop_flag && !app.progress.visible);
    assert!(app.task_tx.is_some() && app.task_rx.is_some());
    let (tx, rx) = mpsc::channel();
    assert_eq!(app.start_full_test(tx, rx), None);
    let (tx, rx) = mpsc::channel();
    assert_eq!(app.run_benchmark(tx, rx), None);
    let (tx, rx) = mpsc::channel();
    assert!(!app.read_usb_vid_pid(tx, rx));
    app.poll_messages(vec![TaskMsg::Finished]);
    let (tx, rx) = mpsc::channel();
    assert_eq!(app.run_benchmark(tx, rx), Some("D:\\".to_string()));
    assert!(app.running);
}

#[test]
fn nothing_starts_without_a_drive() {
    let mut app: App = AppState::new(&present("C"));
    let (tx, rx) = mpsc::channel();
    assert_eq!(app.start_full_test(tx, rx), None);
    let (tx, rx) = mpsc::channel();
    assert_eq!(app.run_benchmark(tx, rx), None);
    assert!(!app.running);
    assert!(app.task_tx.is_none());
    let (tx, rx) = mpsc::channel();
    assert!(app.read_usb_vid_pid(tx, rx));
    assert!(app.running);
}

#[test]
fn usb_listing_keeps_the_progress() {
    let mut app: App = AppState::default();
    app.progress = progress(1);
    let (tx, rx) = mpsc::channel();
    assert!(app.read_usb_vid_pid(tx, rx));
    assert!(app.progress.visible);
}

#[test]
fn stop_is_passed_on_and_logged() {
    let mut app: App = AppState::default();
    app.stop_test();
    assert!(app.stop_flag);
    assert!(app.log_queue[0].ends_with("] 发送停止信号，后台任务正在退出"));
    app.stop_flag = false;
    app.stop_test_at("23:59:60");
    assert!(app.stop_flag);
    assert_eq!(app.log_queue[1], "[23:59:60] 发送停止信号，后台任务正在退出");
}

#[test]
fn messages_are_taken_in_order() {
    let mut app: App = AppState::default();
    app.running = true;
    app.poll_messages(vec![
        TaskMsg::Progress(progress(1)),
        TaskMsg::Log("a".to_string()),
        TaskMsg::Finished,
        TaskMsg::Log("b".to_string()),
        TaskMsg::Progress(progress(2)),
    ]);
    assert!(!app.running);
    assert_eq!(app.log_queue.len(), 2);
    assert!(app.log_queue[0].ends_with("] a") && app.log_queue[1].ends_with("] b"));
    assert_eq!(app.progress.cur, 2);
    app.poll_messages(Vec::new());
    assert_eq!(app.log_queue.len(), 2);
    app.receive_at(TaskMsg::Log("c".to_string()), "10:10:10");
    assert_eq!(app.log_queue[2], "[10:10:10] c");
}

#[test]
fn cleaning_is_logged() {
    let mut app: App = AppState::default();
    app.clean_test_files_at(&vec![true, false, true], "00:00:01");
    assert_eq!(app.log_queue[0], "[00:00:01] 清理完成，删除测试文件数量：2");
    app.clean_test_files(&Vec::new());
    assert!(app.log_queue[1].ends_with("清理完成，删除测试文件数量：0"));
    app.clean_bench_file(true);
    assert!(app.log_queue[2].ends_with("] 测速临时文件已删除"));
    app.clean_bench_file(false);
    app.clean_bench_file_at(false, "00:00:02");
    assert_eq!(app.log_queue.len(), 3);
    app.clean_bench_file_at(true, "00:00:03");
    assert_eq!(app.log_queue[3], "[00:00:03] 测速临时文件已删除");
}

#[test]
fn fonts_are_set_up_once() {
    let mut app: App = AppState::default();
    assert!(app.wants_fonts());
    assert!(!app.wants_fonts());
    app.setup_cjk_fonts(FontOutcome::Loaded("/f.ttc".to_string()));
    app.setup_cjk_fonts(FontOutcome::Unreadable("/f.ttc".to_string(), "no".to_string()));
    app.setup_cjk_fonts(FontOutcome::Missing);
    assert!(app.log_queue[0].ends_with("] 已加载中文字体：/f.ttc"));
    assert!(app.log_queue[1].ends_with("] 中文字体读取失败 /f.ttc：no"));
    assert!(app.log_queue[2].contains("建议安装 fonts-noto-cjk（Linux）"));
    app.setup_cjk_fonts_at(FontOutcome::Loaded("/g.ttc".to_string()), "12:00:00");
    assert_eq!(app.log_queue[3], "[12:00:00] 已加载中文字体：/g.ttc");
}

#[test]
fn tabs_and_buttons() {
    let mut app: App = AppState::default();
    assert_eq!(app.panel(), Some(Panel::FullTest));
    app.selected_tab = 1;
    assert_eq!(app.panel(), Some(Panel::Benchmark));
    app.selected_tab = 2;
    assert_eq!(app.panel(), Some(Panel::Usb));
    app.selected_tab = 3;
    assert_eq!(app.panel(), None);
    assert!(app.allows(Button::StartBenchmark));
    app.running = true;
    for b in [Button::StartFullTest, Button::StartBenchmark, Button::ReadUsb] {
        assert!(!app.allows(b));
    }
    for b in [Button::Stop, Button::RefreshDrives, Button::CleanTestFiles, Button::CleanBenchFile] {
        assert!(app.allows(b));
    }
}
