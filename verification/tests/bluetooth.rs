use lyrune::bluetooth_bridge::{off_status, BridgeState, Outcome, Round, WorkerState};
use lyrune::bluetooth_lyrics::{
    is_pixelbar_name, lyric_position, lyric_title, normalize_text, pixelbar_adapters,
    BluetoothLyrics, BluezDevice, BluezObject, Snapshot,
};
use lyrune::lyrics::parse::parse_lyrics;
use lyrune::time::{Duration, Instant};

const PATH: &str = "/dev/lyrune/BluetoothLyrics";

#[test]
fn unicode_text_and_offsets_are_safe() {
    assert_eq!(normalize_text("  你好\n世界\t "), "你好 世界");
    assert_eq!(normalize_text(&"你".repeat(200)).chars().count(), 120);
    assert_eq!(
        lyric_position(Duration::from_millis(100), 500),
        Duration::zero()
    );
    assert_eq!(
        lyric_position(Duration::from_secs(2), -500),
        Duration::from_millis(2500)
    );
    assert_eq!(
        lyric_position(Duration::from_secs(5), 9999),
        Duration::from_secs(2)
    );
}

#[test]
fn metadata_has_valid_track_paths_and_nested_dictionary() {
    let snapshot = Snapshot {
        track_id: "歌/曲 #1".into(),
        title: "你好".into(),
        ..Default::default()
    };
    let props = snapshot.properties();
    let metadata = props.metadata.unwrap();
    assert_eq!(metadata.title, "你好");
    assert!(metadata.track_path.starts_with(PATH));
    assert!(!metadata.track_path.contains(' '));
    assert_eq!(
        metadata.track_path,
        "/dev/lyrune/BluetoothLyrics/track_e6ad8c2fe69bb2202331"
    );
}

#[test]
fn progress_does_not_change_metadata_but_track_switch_does() {
    let original = Snapshot {
        track_id: "one".into(),
        title: "重复歌词".into(),
        ..Default::default()
    };
    let mut next = original.clone();
    next.position_micros = 1_000_000;
    assert!(original.same_metadata(&next));
    next.track_id = "two".into();
    assert!(!original.same_metadata(&next));
}

fn device(name: &str, connected: bool) -> BluezObject {
    BluezObject {
        path: "/org/bluez/hci0/dev_AA_BB".to_owned(),
        device: Some(BluezDevice {
            connected: Some(connected),
            name: Some(name.to_owned()),
            alias: None,
            adapter: Some("/org/bluez/hci0".to_owned()),
        }),
        media: false,
    }
}

fn adapter(path: &str) -> BluezObject {
    BluezObject {
        path: path.to_owned(),
        device: None,
        media: true,
    }
}

#[test]
fn only_connected_pixelbar_adapters_are_registered() {
    let mut objects = vec![
        adapter("/org/bluez/hci0"),
        device("花再 Halo PixelBar", true),
    ];
    assert_eq!(pixelbar_adapters(&objects), ["/org/bluez/hci0"]);
    objects[1] = device("花再 Halo PixelBar", false);
    assert!(pixelbar_adapters(&objects).is_empty());
}

#[test]
fn adapters_are_sorted_and_listed_once() {
    let mut second = device("other", true);
    if let Some(found) = &mut second.device {
        found.alias = Some("My PIXEL-bar".to_owned());
        found.adapter = Some("/org/bluez/hci1".to_owned());
    }
    let mut third = device("pixel_bar", true);
    if let Some(found) = &mut third.device {
        found.adapter = Some("/org/bluez/none".to_owned());
    }
    let objects = vec![
        second,
        device("PixelBar", true),
        device("PixelBar 2", true),
        third,
        adapter("/org/bluez/hci1"),
        adapter("/org/bluez/hci0"),
    ];
    assert_eq!(
        pixelbar_adapters(&objects),
        ["/org/bluez/hci0", "/org/bluez/hci1"]
    );
    assert!(is_pixelbar_name("halo pixel bar"));
    assert!(!is_pixelbar_name("pixelba"));
}

#[test]
fn control_characters_are_left_out() {
    assert_eq!(normalize_text("a\u{7}b\u{85}c"), "ab c");
    assert_eq!(normalize_text(""), "");
}

#[test]
fn the_title_follows_the_lyrics_and_falls_back() {
    let lyrics = parse_lyrics("[00:02.00]第一句\n[00:04.00]第二句", None, None);
    let title = "歌名".to_owned();
    let shown = |millis: u64, offset: i32| {
        lyric_title(&title, Some(&lyrics), Duration::from_millis(millis), offset)
    };
    assert_eq!(shown(1_999, 0), "歌名");
    assert_eq!(shown(2_000, 0), "第一句");
    assert_eq!(shown(4_500, 1_000), "第一句");
    assert_eq!(shown(3_500, -1_000), "第二句");
    assert_eq!(lyric_title(&title, None, Duration::from_secs(9), 0), "歌名");
}

#[test]
fn a_stopped_player_says_so() {
    let mut snapshot = Snapshot::default();
    assert_eq!(snapshot.status(), "Paused");
    snapshot.stopped = true;
    assert_eq!(snapshot.status(), "Stopped");
    snapshot.playing = true;
    assert_eq!(snapshot.status(), "Playing");
    snapshot.length_micros = -5;
    let metadata = snapshot.metadata();
    assert_eq!(metadata.length_micros, 0);
    assert_eq!(metadata.track_path, "/org/mpris/MediaPlayer2/TrackList/NoTrack");
}

#[test]
fn only_news_is_passed_on() {
    let mut lyrics = BluetoothLyrics::start();
    assert!(!lyrics.update(false, Snapshot::default()));
    assert!(lyrics.update(true, Snapshot::default()));
    assert!(!lyrics.update(true, Snapshot::default()));
    lyrics.test();
    assert_eq!(lyrics.request.test_serial, 1);
}

fn texts(list: &[&str]) -> Vec<String> {
    list.iter().map(|text| (*text).to_owned()).collect()
}

#[test]
fn reconciling_registers_exactly_what_is_desired() {
    let mut bridge = BridgeState::new();
    let plan = bridge.reconcile(":1".to_owned(), texts(&["a", "b"]));
    assert!(plan.leave.is_empty());
    assert_eq!(plan.join, ["a", "b"]);
    let snapshot = Snapshot::default();
    assert!(bridge.publish(&snapshot).unwrap().changes.is_some());
    let plan = bridge.reconcile(":1".to_owned(), texts(&["b"]));
    assert_eq!(plan.leave, ["a"]);
    assert!(plan.join.is_empty());
    let plan = bridge.reconcile(":2".to_owned(), texts(&["b"]));
    assert!(plan.leave.is_empty());
    assert_eq!(plan.join, ["b"]);
    assert!(bridge.is_registered());
    bridge.reconcile(":2".to_owned(), Vec::new());
    assert!(bridge.publish(&snapshot).is_none());
}

#[test]
fn only_changes_are_published_and_the_position_always() {
    let mut bridge = BridgeState::new();
    bridge.reconcile(":1".to_owned(), texts(&["a"]));
    let mut snapshot = Snapshot {
        track_id: "one".to_owned(),
        ..Default::default()
    };
    let first = bridge.publish(&snapshot).unwrap().changes.unwrap();
    assert!(first.metadata.is_some() && first.identity.is_none() && first.position.is_none());
    assert_eq!(first.can_control, Some(true));
    snapshot.position_micros = 9;
    let second = bridge.publish(&snapshot).unwrap();
    assert!(second.changes.is_none());
    assert_eq!(second.position.position, Some(9));
    snapshot.playing = true;
    let third = bridge.publish(&snapshot).unwrap().changes.unwrap();
    assert!(third.metadata.is_none());
    assert_eq!(third.playback_status.as_deref(), Some("Playing"));
}

fn at(seconds: u128) -> Instant {
    Instant {
        nanos: seconds * 1_000_000_000,
    }
}

#[test]
fn the_worker_tests_retries_and_reports() {
    let mut worker = WorkerState::new(at(10));
    let mut lyrics = BluetoothLyrics::start();
    assert!(matches!(worker.begin(&lyrics.request, at(10)), Round::Off));
    lyrics.update(true, Snapshot::default());
    lyrics.test();
    match worker.begin(&lyrics.request, at(11)) {
        Round::Work { snapshot, testing, connect, reconcile } => {
            assert!(testing && connect && reconcile);
            assert_eq!(snapshot.title, "PixelBar 蓝牙歌词测试");
            assert!(snapshot.playing);
        }
        _ => panic!("works"),
    }
    let status = worker.finish(Outcome::Registered, true, true, at(11));
    assert_eq!(status, "测试文字已发布，请查看音响屏幕");
    assert!(worker.report(status.clone()).is_some());
    assert!(worker.report(status).is_none());
    match worker.begin(&lyrics.request, at(12)) {
        Round::Work { testing, connect, reconcile, .. } => {
            assert!(testing && !connect && !reconcile)
        }
        _ => panic!("works"),
    }
    match worker.begin(&lyrics.request, at(16)) {
        Round::Work { testing, reconcile, .. } => assert!(!testing && reconcile),
        _ => panic!("works"),
    }
    let status = worker.finish(Outcome::Failed("bus".to_owned()), false, false, at(16));
    assert_eq!(status, "蓝牙歌词暂不可用，将自动重试：bus");
    assert!(matches!(worker.begin(&lyrics.request, at(17)), Round::Wait));
    assert!(matches!(
        worker.begin(&lyrics.request, at(18)),
        Round::Work { connect: true, .. }
    ));
    assert_eq!(
        worker.finish(Outcome::TimedOut, false, false, at(18)),
        "蓝牙服务响应超时，将自动重试"
    );
    assert_eq!(
        worker.finish(Outcome::NotRegistered, false, true, at(18)),
        "等待连接 PixelBar，请选择蓝牙输入并开启音乐可视化"
    );
    assert_eq!(off_status(), "蓝牙歌词已关闭");
}
