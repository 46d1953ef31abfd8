//! The IO command dispatcher: what each command does to the application
//! state, and what it asks the surrounding IO layer to write.
//!
//! The surrounding layer owns the filesystem: it reads the snapshot bytes
//! before dispatching `Initialize`, and performs the returned `IoAction`
//! after a handler returns. Every decision in between is made here. A
//! handler never fails the dispatcher: every error becomes a fallback value
//! here or a logged write failure outside, and the lifecycle always
//! advances.

use vstd::prelude::*;
use crate::board::{Board, BoardModel, CardModel};
use crate::codec::{decode_snapshot, encode_snapshot, lemma_snapshot_round_trip,
    snapshot_bounded, spec_decode_snapshot, spec_encode_snapshot};
use crate::state::{AppState, Lifecycle};

verus! {

/// Directory under `<home>/.config` that holds the config file.
pub const CONFIG_DIR_NAME: &'static str = "rust_kanban";

/// Name of the config file inside the config directory.
pub const CONFIG_FILE_NAME: &'static str = "config.json";

/// Directory under the process temp directory that holds the save files.
pub const SAVE_DIR_NAME: &'static str = "kanban_saves";

/// The five commands the IO worker can be asked to perform.
#[derive(Clone, Copy, Debug, PartialEq, Eq, Structural)]
pub enum IoEvent {
    Initialize,
    GetLocalData,
    GetCloudData,
    Reset,
    SaveLocalData,
}

/// The key-value configuration record, written once at first run and
/// restored to its default by `Reset`.
pub struct AppConfig {
    pub save_directory: String,
}

impl Default for AppConfig {
    fn default() -> (c: Self)
        ensures
            c.save_directory@ == SAVE_DIR_NAME@,
    {
        AppConfig { save_directory: String::from_str(SAVE_DIR_NAME) }
    }
}

/// Why a snapshot could not be loaded.
#[derive(Clone, Copy, Debug, PartialEq, Eq, Structural)]
pub enum LoadError {
    /// No snapshot bytes could be read for the requested version.
    Missing,
    /// The bytes read are not a well-formed snapshot.
    Corrupt,
}

/// What the IO layer is asked to do after a handler returns.
pub enum IoAction {
    DoNothing,
    /// Write this configuration record to the config file.
    WriteConfig(AppConfig),
    /// Write these bytes as the new local save snapshot.
    WriteSnapshot(Vec<u8>),
}

/// The single default empty board installed when no snapshot can be loaded.
pub open spec fn fallback_boards() -> Seq<BoardModel> {
    seq![BoardModel { name: Seq::<char>::empty(), cards: Seq::<CardModel>::empty() }]
}

/// The boards the initialize path installs for given snapshot bytes: the
/// decoded snapshot when there is one, the single default board otherwise.
pub open spec fn spec_loaded_boards(snapshot: Option<Seq<u8>>) -> Seq<BoardModel> {
    match snapshot {
        Some(b) => match spec_decode_snapshot(b) {
            Some(m) => m,
            None => fallback_boards(),
        },
        None => fallback_boards(),
    }
}

/// Interpret raw snapshot bytes as a board sequence: absent bytes fail with
/// `Missing`, bytes outside the save-file format fail with `Corrupt`.
pub fn load_snapshot(raw: Option<Vec<u8>>) -> (r: Result<Vec<Board>, LoadError>)
    ensures
        r is Ok <==> (raw matches Some(b) && spec_decode_snapshot(b@) is Some),
        raw is None ==> r == Err::<Vec<Board>, LoadError>(LoadError::Missing),
        (raw matches Some(b) && spec_decode_snapshot(b@) is None) ==> r == Err::<
            Vec<Board>,
            LoadError,
        >(LoadError::Corrupt),
        r matches Ok(bs) ==> (raw matches Some(b) && spec_decode_snapshot(b@) == Some(
            bs.deep_view(),
        )),
{
    match raw {
        Some(bytes) => match decode_snapshot(&bytes) {
            Some(bs) => Ok(bs),
            None => Err(LoadError::Corrupt),
        },
        None => Err(LoadError::Missing),
    }
}

/// The boards to install at startup: the decoded snapshot, or one default
/// empty board when the snapshot is absent or corrupt. Never fails.
pub fn prepare_boards(snapshot: Option<Vec<u8>>) -> (boards: Vec<Board>)
    ensures
        boards.deep_view() == spec_loaded_boards(snapshot.deep_view()),
{
    proof {
        match &snapshot {
            Some(b) => {
                assert(b.deep_view() =~= b@);
            },
            None => {},
        }
    }
    match load_snapshot(snapshot) {
        Ok(bs) => bs,
        Err(_) => {
            let mut bs: Vec<Board> = Vec::new();
            bs.push(Board::default());
            proof {
                assert(bs.deep_view() =~= fallback_boards());
            }
            bs
        },
    }
}

/// Handle `Initialize`: install the boards the snapshot yields (or the
/// default board on any load failure) and mark the state initialized.
pub fn do_initialize(state: &mut AppState, snapshot: Option<Vec<u8>>)
    ensures
        final(state).boards.deep_view() == spec_loaded_boards(snapshot.deep_view()),
        final(state).lifecycle == Lifecycle::Initialized,
{
    state.initializing();
    let boards = prepare_boards(snapshot);
    state.set_boards(boards);
    state.initialized();
}

/// Handle `GetLocalData`: install an empty board sequence.
pub fn get_local_save(state: &mut AppState)
    ensures
        final(state).boards.deep_view() == Seq::<BoardModel>::empty(),
        final(state).lifecycle == old(state).lifecycle,
{
    state.set_boards(Vec::new());
    proof {
        assert(state.boards.deep_view() =~= Seq::<BoardModel>::empty());
    }
}

/// Handle `GetCloudData`: the cloud path has no backend yet; it installs an
/// empty board sequence, exactly as the local placeholder does.
pub fn get_cloud_save(state: &mut AppState)
    ensures
        final(state).boards.deep_view() == Seq::<BoardModel>::empty(),
        final(state).lifecycle == old(state).lifecycle,
{
    state.set_boards(Vec::new());
    proof {
        assert(state.boards.deep_view() =~= Seq::<BoardModel>::empty());
    }
}

/// Handle `Reset`: ask for the config file to be restored to its default
/// content. Board data is not touched.
pub fn reset_config() -> (action: IoAction)
    ensures
        action matches IoAction::WriteConfig(c) && c.save_directory@ == SAVE_DIR_NAME@,
{
    IoAction::WriteConfig(AppConfig::default())
}

/// Handle `SaveLocalData`: encode the current boards as a snapshot for the
/// IO layer to write. The in-memory boards are read, never changed.
pub fn save_local_data(state: &AppState) -> (action: IoAction)
    ensures
        action matches IoAction::WriteSnapshot(b) && b@ == spec_encode_snapshot(
            state.boards.deep_view(),
        ),
{
    IoAction::WriteSnapshot(encode_snapshot(&state.boards))
}

/// Round trip through the dispatcher: the snapshot bytes that
/// `SaveLocalData` produces for a board sequence load back as exactly that
/// board sequence when the next run's `Initialize` reads them - same
/// boards, same order, same cards, same order.
pub proof fn lemma_save_then_initialize_round_trip(bs: Seq<BoardModel>)
    requires
        snapshot_bounded(bs),
    ensures
        spec_loaded_boards(Some(spec_encode_snapshot(bs))) == bs,
{
    lemma_snapshot_round_trip(bs);
}

/// Dispatch one command: run its handler against the state, then mark the
/// state loaded, whatever the handler did. The returned action is what the
/// IO layer must now perform; `snapshot` is what it read for `Initialize`
/// (`None` for the other commands, which never look at it).
pub fn handle_io_event(state: &mut AppState, io_event: IoEvent, snapshot: Option<Vec<u8>>) -> (action:
    IoAction)
    ensures
        io_event == IoEvent::Initialize ==> {
            &&& final(state).boards.deep_view() == spec_loaded_boards(snapshot.deep_view())
            &&& final(state).lifecycle == Lifecycle::Initialized
            &&& action is DoNothing
        },
        (io_event == IoEvent::GetLocalData || io_event == IoEvent::GetCloudData) ==> {
            &&& final(state).boards.deep_view() == Seq::<BoardModel>::empty()
            &&& final(state).lifecycle == Lifecycle::Loaded
            &&& action is DoNothing
        },
        io_event == IoEvent::Reset ==> {
            &&& final(state).boards == old(state).boards
            &&& final(state).lifecycle == Lifecycle::Loaded
            &&& (action matches IoAction::WriteConfig(c) && c.save_directory@ == SAVE_DIR_NAME@)
        },
        io_event == IoEvent::SaveLocalData ==> {
            &&& final(state).boards == old(state).boards
            &&& final(state).lifecycle == Lifecycle::Loaded
            &&& (action matches IoAction::WriteSnapshot(b) && b@ == spec_encode_snapshot(
                old(state).boards.deep_view(),
            ))
        },
{
    let action = match io_event {
        IoEvent::Initialize => {
            do_initialize(state, snapshot);
            IoAction::DoNothing
        },
        IoEvent::GetLocalData => {
            state.loading();
            get_local_save(state);
            IoAction::DoNothing
        },
        IoEvent::GetCloudData => {
            state.loading();
            get_cloud_save(state);
            IoAction::DoNothing
        },
        IoEvent::Reset => {
            state.loading();
            reset_config()
        },
        IoEvent::SaveLocalData => {
            state.loading();
            save_local_data(state)
        },
    };
    state.loaded();
    action
}

} // verus!
