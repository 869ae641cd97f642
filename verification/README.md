# udisk_tester

A tester for USB flash drives. It fills a drive with random files and reads
them back, to find drives that claim more room than they have or that damage
data. It also times a drive and lists the USB devices.

`src/` decides, and is verified with Verus: what is written, checked, counted,
logged and shown. Work that takes files, time or the user's answers is a state
that says what has to happen next and takes what came of it:

- `full_test`: the test of a whole drive; `test_runs` holds the laws of its runs.
- `benchmark`: the four timed passes; `bench_runs` holds the laws of its runs.
- `transfer`, `content`, `random`: writing and hashing one file.
- `app_state`: the state behind the window, and its log.
- `report`: what a background task tells the window.
- `files`, `drives`, `fonts`, `usb`, `clock`, `text`: names, lists and texts.

`app/` is the program: the window, the threads, the files and the figures in
floating point.
