use kanban_core::board::{Board, Card};
use kanban_core::channel::{CommandChannel, CHANNEL_CAPACITY};
use kanban_core::codec::{decode_snapshot, encode_snapshot};
use kanban_core::handler::{
    handle_io_event, load_snapshot, prepare_boards, AppConfig, IoAction, IoEvent, LoadError,
    SAVE_DIR_NAME,
};
use kanban_core::mouse::{Mouse, RawMouseEvent, RawMouseKind};
use kanban_core::state::{AppState, Lifecycle};
use kanban_core::version::{latest_version, parse_version};

fn raw(kind: RawMouseKind, ctrl: bool, column: u16, row: u16) -> RawMouseEvent {
    RawMouseEvent { kind, ctrl, column, row }
}

fn board(name: &str, cards: &[&str]) -> Board {
    Board {
        name: name.to_string(),
        cards: cards.iter().map(|c| Card { name: c.to_string() }).collect(),
    }
}

fn boards_eq(a: &[Board], b: &[Board]) -> bool {
    a.len() == b.len()
        && a.iter().zip(b.iter()).all(|(x, y)| {
            x.name == y.name
                && x.cards.len() == y.cards.len()
                && x.cards.iter().zip(y.cards.iter()).all(|(c, d)| c.name == d.name)
        })
}

// --- the input normalizer ---

#[test]
fn ctrl_scroll_remaps_axes() {
    // scroll-down with control becomes ScrollLeft, scroll-up ScrollRight
    assert_eq!(Mouse::from(raw(RawMouseKind::ScrollDown, true, 0, 0)), Mouse::ScrollLeft);
    assert_eq!(Mouse::from(raw(RawMouseKind::ScrollUp, true, 0, 0)), Mouse::ScrollRight);
    assert_eq!(Mouse::from(raw(RawMouseKind::ScrollDown, true, 7, 9)), Mouse::ScrollLeft);
    assert_eq!(Mouse::from(raw(RawMouseKind::ScrollUp, true, 1, 2)), Mouse::ScrollRight);
}

#[test]
fn plain_scroll_keeps_direction() {
    assert_eq!(Mouse::from(raw(RawMouseKind::ScrollUp, false, 0, 0)), Mouse::ScrollUp);
    assert_eq!(Mouse::from(raw(RawMouseKind::ScrollDown, false, 0, 0)), Mouse::ScrollDown);
}

#[test]
fn buttons_map_to_presses() {
    assert_eq!(Mouse::from(raw(RawMouseKind::LeftDown, false, 3, 4)), Mouse::LeftPress);
    assert_eq!(Mouse::from(raw(RawMouseKind::RightDown, true, 3, 4)), Mouse::RightPress);
    assert_eq!(Mouse::from(raw(RawMouseKind::MiddleDown, false, 3, 4)), Mouse::MiddlePress);
    assert_eq!(Mouse::from(raw(RawMouseKind::Other, false, 3, 4)), Mouse::Unknown);
}

#[test]
fn move_preserves_coordinates() {
    assert_eq!(Mouse::from(raw(RawMouseKind::Moved, false, 0, 0)), Mouse::Move(0, 0));
    assert_eq!(Mouse::from(raw(RawMouseKind::Moved, true, 12, 34)), Mouse::Move(12, 34));
    assert_eq!(
        Mouse::from(raw(RawMouseKind::Moved, false, u16::MAX, u16::MAX)),
        Mouse::Move(65535, 65535)
    );
}

#[test]
fn labels_are_canonical() {
    assert_eq!(Mouse::LeftPress.label(), "<Mouse::Left>");
    assert_eq!(Mouse::RightPress.label(), "<Mouse::Right>");
    assert_eq!(Mouse::MiddlePress.label(), "<Mouse::Middle>");
    assert_eq!(Mouse::ScrollUp.label(), "<Mouse::ScrollUp>");
    assert_eq!(Mouse::ScrollDown.label(), "<Mouse::ScrollDown>");
    assert_eq!(Mouse::ScrollLeft.label(), "<Mouse::Ctrl + ScrollUp>");
    assert_eq!(Mouse::ScrollRight.label(), "<Mouse::Ctrl + ScrollDown>");
    assert_eq!(Mouse::Unknown.label(), "<Mouse::Unknown>");
    assert_eq!(Mouse::Move(0, 0).label(), "<Mouse::Move(0, 0)>");
    assert_eq!(Mouse::Move(3, 15).label(), "<Mouse::Move(3, 15)>");
    assert_eq!(Mouse::Move(65535, 100).label(), "<Mouse::Move(65535, 100)>");
}

// --- version parsing and selection ---

#[test]
fn parse_version_reads_suffix_after_last_v() {
    assert_eq!(parse_version("boardsv7"), 7);
    assert_eq!(parse_version("v10"), 10);
    assert_eq!(parse_version("kanban_v2_boards_v41"), 41);
    assert_eq!(parse_version("v007"), 7);
}

#[test]
fn parse_version_defaults_to_one() {
    assert_eq!(parse_version("nonsense"), 1);
    assert_eq!(parse_version(""), 1);
    assert_eq!(parse_version("v"), 1);
    assert_eq!(parse_version("v12x"), 1);
    // too large for a 32-bit version number
    assert_eq!(parse_version("v99999999999"), 1);
    assert_eq!(parse_version("v4294967295"), 4294967295);
    assert_eq!(parse_version("v4294967296"), 1);
}

#[test]
fn latest_version_compares_numerically() {
    let files = vec!["v1".to_string(), "v2".to_string(), "v10".to_string()];
    assert_eq!(latest_version(&files), "v10");
}

#[test]
fn latest_version_of_empty_set_is_fallback() {
    let files: Vec<String> = vec![];
    assert_eq!(latest_version(&files), "1");
}

#[test]
fn latest_version_keeps_first_of_equal_versions() {
    let files = vec!["av2".to_string(), "bv2".to_string(), "v1".to_string()];
    assert_eq!(latest_version(&files), "av2");
}

// --- the snapshot codec ---

#[test]
fn snapshot_round_trip() {
    let boards = vec![
        board("todo", &["write tests", "write docs"]),
        board("doing", &["verify the codec"]),
        board("done", &[]),
    ];
    let bytes = encode_snapshot(&boards);
    let back = decode_snapshot(&bytes).expect("an encoded snapshot must decode");
    assert!(boards_eq(&boards, &back));
}

#[test]
fn snapshot_round_trip_unicode_and_empty() {
    let boards = vec![board("déjà-vu 🗂", &["ünïcødé", ""]), board("", &[])];
    let bytes = encode_snapshot(&boards);
    let back = decode_snapshot(&bytes).expect("an encoded snapshot must decode");
    assert!(boards_eq(&boards, &back));

    let none: Vec<Board> = vec![];
    let bytes = encode_snapshot(&none);
    let back = decode_snapshot(&bytes).expect("an empty snapshot must decode");
    assert!(back.is_empty());
}

#[test]
fn snapshot_rejects_malformed_bytes() {
    assert!(decode_snapshot(&vec![]).is_none());
    assert!(decode_snapshot(&vec![1, 2, 3]).is_none());
    // a huge board count with no boards behind it
    assert!(decode_snapshot(&vec![255u8; 8]).is_none());
    // a valid snapshot with trailing garbage
    let mut bytes = encode_snapshot(&vec![board("a", &[])]);
    bytes.push(0);
    assert!(decode_snapshot(&bytes).is_none());
    // a valid snapshot truncated
    let bytes = encode_snapshot(&vec![board("a", &[])]);
    let shorter = bytes[..bytes.len() - 1].to_vec();
    assert!(decode_snapshot(&shorter).is_none());
}

#[test]
fn load_snapshot_errors() {
    assert_eq!(load_snapshot(None).unwrap_err(), LoadError::Missing);
    assert_eq!(load_snapshot(Some(vec![9, 9, 9])).unwrap_err(), LoadError::Corrupt);
    let bytes = encode_snapshot(&vec![board("a", &["x"])]);
    assert!(load_snapshot(Some(bytes)).is_ok());
}

// --- application state and the dispatcher ---

#[test]
fn fresh_state_is_created_and_empty() {
    let s = AppState::new();
    assert!(s.boards.is_empty());
    assert_eq!(s.lifecycle, Lifecycle::Created);
}

#[test]
fn initialize_installs_saved_boards() {
    let saved = vec![board("todo", &["a", "b"]), board("done", &["c"])];
    let bytes = encode_snapshot(&saved);
    let mut s = AppState::new();
    let action = handle_io_event(&mut s, IoEvent::Initialize, Some(bytes));
    assert!(matches!(action, IoAction::DoNothing));
    assert_eq!(s.lifecycle, Lifecycle::Initialized);
    assert!(boards_eq(&s.boards, &saved));
}

#[test]
fn initialize_without_snapshot_falls_back_to_default_board() {
    let mut s = AppState::new();
    handle_io_event(&mut s, IoEvent::Initialize, None);
    // exactly one default empty board, and not stuck in Initializing
    assert_eq!(s.boards.len(), 1);
    assert_eq!(s.boards[0].name, "");
    assert!(s.boards[0].cards.is_empty());
    assert_eq!(s.lifecycle, Lifecycle::Initialized);
}

#[test]
fn initialize_with_corrupt_snapshot_falls_back_to_default_board() {
    let mut s = AppState::new();
    handle_io_event(&mut s, IoEvent::Initialize, Some(vec![0xde, 0xad, 0xbe, 0xef]));
    assert_eq!(s.boards.len(), 1);
    assert_eq!(s.boards[0].name, "");
    assert!(s.boards[0].cards.is_empty());
    assert_eq!(s.lifecycle, Lifecycle::Initialized);
}

#[test]
fn prepare_boards_decodes_or_defaults() {
    let saved = vec![board("only", &["one"])];
    let bytes = encode_snapshot(&saved);
    assert!(boards_eq(&prepare_boards(Some(bytes)), &saved));
    let fallback = prepare_boards(None);
    assert_eq!(fallback.len(), 1);
    assert_eq!(fallback[0].name, "");
    assert!(fallback[0].cards.is_empty());
}

#[test]
fn reset_leaves_boards_untouched() {
    let saved = vec![board("todo", &["a"]), board("done", &[])];
    let bytes = encode_snapshot(&saved);
    let mut s = AppState::new();
    handle_io_event(&mut s, IoEvent::Initialize, Some(bytes));
    let action = handle_io_event(&mut s, IoEvent::Reset, None);
    match action {
        IoAction::WriteConfig(c) => assert_eq!(c.save_directory, SAVE_DIR_NAME),
        _ => panic!("reset must ask for a config write"),
    }
    assert!(boards_eq(&s.boards, &saved));
    assert_eq!(s.lifecycle, Lifecycle::Loaded);
}

#[test]
fn save_then_initialize_round_trips() {
    let saved = vec![board("todo", &["a", "b"]), board("doing", &[])];
    let bytes = encode_snapshot(&saved);
    let mut s = AppState::new();
    handle_io_event(&mut s, IoEvent::Initialize, Some(bytes));
    let action = handle_io_event(&mut s, IoEvent::SaveLocalData, None);
    let written = match action {
        IoAction::WriteSnapshot(b) => b,
        _ => panic!("save must ask for a snapshot write"),
    };
    assert!(boards_eq(&s.boards, &saved));
    // next run: initialize from what was written
    let mut s2 = AppState::new();
    handle_io_event(&mut s2, IoEvent::Initialize, Some(written));
    assert!(boards_eq(&s2.boards, &saved));
    assert_eq!(s2.lifecycle, Lifecycle::Initialized);
}

#[test]
fn placeholder_loads_install_empty_boards() {
    let mut s = AppState::new();
    handle_io_event(&mut s, IoEvent::Initialize, None);
    let action = handle_io_event(&mut s, IoEvent::GetLocalData, None);
    assert!(matches!(action, IoAction::DoNothing));
    assert!(s.boards.is_empty());
    assert_eq!(s.lifecycle, Lifecycle::Loaded);
    handle_io_event(&mut s, IoEvent::GetCloudData, None);
    assert!(s.boards.is_empty());
    assert_eq!(s.lifecycle, Lifecycle::Loaded);
}

#[test]
fn default_config_names_the_save_directory() {
    let c = AppConfig::default();
    assert_eq!(c.save_directory, "kanban_saves");
    assert_eq!(SAVE_DIR_NAME, "kanban_saves");
}

// --- the command channel ---

#[test]
fn channel_is_fifo() {
    let mut ch = CommandChannel::new();
    assert!(ch.send(IoEvent::Initialize));
    assert!(ch.send(IoEvent::Reset));
    assert!(ch.send(IoEvent::SaveLocalData));
    assert_eq!(ch.recv(), Some(IoEvent::Initialize));
    assert_eq!(ch.recv(), Some(IoEvent::Reset));
    assert_eq!(ch.recv(), Some(IoEvent::SaveLocalData));
    assert_eq!(ch.recv(), None);
}

#[test]
fn channel_capacity_is_bounded() {
    let mut ch = CommandChannel::new();
    for _ in 0..CHANNEL_CAPACITY {
        assert!(ch.send(IoEvent::GetLocalData));
    }
    // the channel is full: the send is refused, nothing is lost
    assert!(!ch.send(IoEvent::Reset));
    assert_eq!(ch.recv(), Some(IoEvent::GetLocalData));
    // one slot came free again
    assert!(ch.send(IoEvent::Reset));
}

#[test]
fn channel_preserves_per_producer_order() {
    // producer A sends Initialize then Reset; producer B sends GetLocalData
    // then SaveLocalData; the sends interleave arbitrarily
    let mut ch = CommandChannel::new();
    assert!(ch.send(IoEvent::Initialize)); // A1
    assert!(ch.send(IoEvent::GetLocalData)); // B1
    assert!(ch.send(IoEvent::Reset)); // A2
    assert!(ch.send(IoEvent::SaveLocalData)); // B2
    let mut drained = Vec::new();
    while let Some(ev) = ch.recv() {
        drained.push(ev);
    }
    let a: Vec<&IoEvent> = drained
        .iter()
        .filter(|e| matches!(e, IoEvent::Initialize | IoEvent::Reset))
        .collect();
    let b: Vec<&IoEvent> = drained
        .iter()
        .filter(|e| matches!(e, IoEvent::GetLocalData | IoEvent::SaveLocalData))
        .collect();
    assert_eq!(a, vec![&IoEvent::Initialize, &IoEvent::Reset]);
    assert_eq!(b, vec![&IoEvent::GetLocalData, &IoEvent::SaveLocalData]);
}
