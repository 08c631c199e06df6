//! The tray menu: its toggles, the commands its items send, and the menu it
//! shows. Windows messages and the menu API stay with the caller, which feeds
//! command identifiers in and draws the items that come out.

use vstd::prelude::*;
use crate::hardware::owned;
use crate::order::{sorted_positions, stable_order};
use crate::text::{chars_of, str_to_lowercase, unicode_str_lowercase};

verus! {

pub const ID_EXIT: u16 = 1001;
pub const ID_STREAMING: u16 = 1002;
pub const ID_CHUNK_3: u16 = 1003;
pub const ID_CHUNK_8: u16 = 1004;
pub const ID_CHUNK_15: u16 = 1005;
pub const ID_OPEN_HISTORY: u16 = 1006;
pub const ID_OLLAMA: u16 = 1007;
pub const ID_OPEN_CONFIG: u16 = 1008;
/// First and last identifiers of the recent-recording items.
pub const ID_HISTORY_START: u16 = 1100;
pub const ID_HISTORY_END: u16 = 1199;
/// First and last identifiers of the model items.
pub const ID_MODEL_START: u16 = 1200;
pub const ID_MODEL_END: u16 = 1299;

/// At most this many recent recordings are listed.
pub const MENU_HISTORY_LIMIT: usize = 10;

/// Entry for the history menu.
#[derive(Debug, Clone)]
pub struct HistoryMenuEntry {
    /// 0-based index.
    pub id: usize,
    pub label: String,
}

/// Entry for the model selector menu.
#[derive(Debug, Clone)]
pub struct ModelMenuItem {
    pub index: usize,
    pub name: String,
    pub is_current: bool,
    /// Human-readable size, e.g. " (3.1 GB)"; empty if unknown.
    pub size_label: String,
}

/// The tray's runtime toggles.
#[derive(Debug, Clone, Copy, PartialEq, Eq, Structural)]
pub struct TrayState {
    pub should_exit: bool,
    pub streaming_enabled: bool,
    pub streaming_chunk_seconds: u64,
    pub ollama_enabled: bool,
}

/// The chunk lengths the tray offers.
pub open spec fn allowed_chunk(seconds: u64) -> bool {
    seconds == 3 || seconds == 8 || seconds == 15
}

/// A requested chunk length, or 15 when it is not one of those offered.
pub open spec fn normalize_chunk(seconds: u64) -> u64 {
    if allowed_chunk(seconds) {
        seconds
    } else {
        15
    }
}

/// The chunk length is always one of those offered.
pub open spec fn tray_wf(s: TrayState) -> bool {
    allowed_chunk(s.streaming_chunk_seconds)
}

impl TrayState {
    /// The toggles at start-up: streaming off with 15 s chunks, LLM
    /// correction off, no exit requested.
    pub fn new() -> (s: Self)
        ensures
            tray_wf(s),
            !s.should_exit,
            !s.streaming_enabled,
            s.streaming_chunk_seconds == 15,
            !s.ollama_enabled,
    {
        TrayState {
            should_exit: false,
            streaming_enabled: false,
            streaming_chunk_seconds: 15,
            ollama_enabled: false,
        }
    }
}

/// Whether LLM correction is enabled.
pub fn is_ollama_enabled(state: &TrayState) -> (r: bool)
    ensures
        r == state.ollama_enabled,
{
    state.ollama_enabled
}

/// Turns LLM correction on or off.
pub fn set_ollama_enabled(state: &mut TrayState, enabled: bool)
    ensures
        *final(state) == (TrayState { ollama_enabled: enabled, ..*old(state) }),
{
    state.ollama_enabled = enabled;
}

/// Whether streaming transcription is enabled.
pub fn is_streaming_enabled(state: &TrayState) -> (r: bool)
    ensures
        r == state.streaming_enabled,
{
    state.streaming_enabled
}

/// Turns streaming transcription on or off.
pub fn set_streaming_enabled(state: &mut TrayState, enabled: bool)
    ensures
        *final(state) == (TrayState { streaming_enabled: enabled, ..*old(state) }),
{
    state.streaming_enabled = enabled;
}

/// The selected streaming chunk length in seconds.
pub fn streaming_chunk_seconds(state: &TrayState) -> (r: u64)
    ensures
        r == state.streaming_chunk_seconds,
{
    state.streaming_chunk_seconds
}

/// Selects the streaming chunk length; lengths other than 3, 8 and 15
/// select 15.
pub fn set_streaming_chunk_seconds(state: &mut TrayState, seconds: u64)
    ensures
        *final(state) == (TrayState {
            streaming_chunk_seconds: normalize_chunk(seconds),
            ..*old(state)
        }),
{
    let normalized = if seconds == 3 || seconds == 8 || seconds == 15 {
        seconds
    } else {
        15
    };
    state.streaming_chunk_seconds = normalized;
}

/// Whether the user asked the application to exit.
pub fn should_exit(state: &TrayState) -> (r: bool)
    ensures
        r == state.should_exit,
{
    state.should_exit
}

/// Selecting a chunk length always leaves an offered length in place, and
/// selecting the length read back changes nothing.
pub proof fn lemma_chunk_selection(s: TrayState, seconds: u64)
    ensures
        allowed_chunk(normalize_chunk(seconds)),
        normalize_chunk(normalize_chunk(seconds)) == normalize_chunk(seconds),
        tray_wf(s) ==> normalize_chunk(s.streaming_chunk_seconds) == s.streaming_chunk_seconds,
{
}

/// What a tray command asks of the caller after the toggles are updated.
#[derive(Debug, Clone, Copy, PartialEq, Eq, Structural)]
pub enum TrayAction {
    Nothing,
    /// Leave the message loop.
    Quit,
    OpenHistoryFolder,
    /// Copy the recent recording with this 0-based index.
    CopyHistoryEntry(usize),
    /// Switch to the model with this 0-based index.
    SelectModel(usize),
    OpenConfigFile,
}

pub open spec fn tray_command(s: TrayState, cmd: u16) -> (TrayState, TrayAction) {
    if cmd == ID_EXIT {
        (TrayState { should_exit: true, ..s }, TrayAction::Quit)
    } else if cmd == ID_STREAMING {
        (TrayState { streaming_enabled: !s.streaming_enabled, ..s }, TrayAction::Nothing)
    } else if cmd == ID_CHUNK_3 {
        (TrayState { streaming_chunk_seconds: 3, ..s }, TrayAction::Nothing)
    } else if cmd == ID_CHUNK_8 {
        (TrayState { streaming_chunk_seconds: 8, ..s }, TrayAction::Nothing)
    } else if cmd == ID_CHUNK_15 {
        (TrayState { streaming_chunk_seconds: 15, ..s }, TrayAction::Nothing)
    } else if cmd == ID_OPEN_HISTORY {
        (s, TrayAction::OpenHistoryFolder)
    } else if ID_HISTORY_START <= cmd <= ID_HISTORY_END {
        (s, TrayAction::CopyHistoryEntry((cmd - ID_HISTORY_START) as usize))
    } else if ID_MODEL_START <= cmd <= ID_MODEL_END {
        (s, TrayAction::SelectModel((cmd - ID_MODEL_START) as usize))
    } else if cmd == ID_OLLAMA {
        (TrayState { ollama_enabled: !s.ollama_enabled, ..s }, TrayAction::Nothing)
    } else if cmd == ID_OPEN_CONFIG {
        (s, TrayAction::OpenConfigFile)
    } else {
        (s, TrayAction::Nothing)
    }
}

/// Applies the command of a clicked tray item (its identifier) to the
/// toggles and says what the caller must do next.
pub fn handle_tray_command(state: &mut TrayState, cmd: u16) -> (a: TrayAction)
    ensures
        (*final(state), a) == tray_command(*old(state), cmd),
{
    if cmd == ID_EXIT {
        state.should_exit = true;
        TrayAction::Quit
    } else if cmd == ID_STREAMING {
        state.streaming_enabled = !state.streaming_enabled;
        TrayAction::Nothing
    } else if cmd == ID_CHUNK_3 {
        set_streaming_chunk_seconds(state, 3);
        TrayAction::Nothing
    } else if cmd == ID_CHUNK_8 {
        set_streaming_chunk_seconds(state, 8);
        TrayAction::Nothing
    } else if cmd == ID_CHUNK_15 {
        set_streaming_chunk_seconds(state, 15);
        TrayAction::Nothing
    } else if cmd == ID_OPEN_HISTORY {
        TrayAction::OpenHistoryFolder
    } else if ID_HISTORY_START <= cmd && cmd <= ID_HISTORY_END {
        TrayAction::CopyHistoryEntry((cmd - ID_HISTORY_START) as usize)
    } else if ID_MODEL_START <= cmd && cmd <= ID_MODEL_END {
        TrayAction::SelectModel((cmd - ID_MODEL_START) as usize)
    } else if cmd == ID_OLLAMA {
        state.ollama_enabled = !state.ollama_enabled;
        TrayAction::Nothing
    } else if cmd == ID_OPEN_CONFIG {
        TrayAction::OpenConfigFile
    } else {
        TrayAction::Nothing
    }
}

/// Every tray command keeps the chunk length among those offered.
pub proof fn lemma_commands_keep_chunk_offered(s: TrayState, cmd: u16)
    requires
        tray_wf(s),
    ensures
        tray_wf(tray_command(s, cmd).0),
{
}

/// Toggling streaming (or LLM correction) twice restores the toggles.
pub proof fn lemma_toggle_twice_restores(s: TrayState)
    ensures
        tray_command(tray_command(s, ID_STREAMING).0, ID_STREAMING).0 == s,
        tray_command(tray_command(s, ID_OLLAMA).0, ID_OLLAMA).0 == s,
{
}

/// One line of the tray menu.
#[derive(Debug, Clone)]
pub enum TrayMenuItem {
    Separator,
    Entry { id: u16, label: String, checked: bool, grayed: bool },
}

/// A menu line as the contracts see it.
pub enum MenuLine {
    Separator,
    Entry(u16, Seq<char>, bool, bool),
}

pub open spec fn line_of(item: TrayMenuItem) -> MenuLine {
    match item {
        TrayMenuItem::Separator => MenuLine::Separator,
        TrayMenuItem::Entry { id, label, checked, grayed } => MenuLine::Entry(
            id,
            label@,
            checked,
            grayed,
        ),
    }
}

pub open spec fn lines_of(items: Seq<TrayMenuItem>) -> Seq<MenuLine> {
    items.map_values(|i: TrayMenuItem| line_of(i))
}

pub open spec fn entry(id: u16, label: Seq<char>, checked: bool) -> MenuLine {
    MenuLine::Entry(id, label, checked, false)
}

/// The command identifier of a model item (`ID_MODEL_START + index as u16`).
pub open spec fn model_item_id(m: ModelMenuItem) -> int {
    ID_MODEL_START + (m.index % 65536)
}

/// The command identifier of a history item (`ID_HISTORY_START + id as u16`).
pub open spec fn history_item_id(h: HistoryMenuEntry) -> int {
    ID_HISTORY_START + (h.id % 65536)
}

pub open spec fn model_lines(models: Seq<ModelMenuItem>) -> Seq<MenuLine> {
    if models.len() == 0 {
        seq![MenuLine::Entry(0, "Model: (not configured)"@, false, true)]
    } else {
        models.map_values(
            |m: ModelMenuItem| entry(model_item_id(m) as u16, m.name@ + m.size_label@, m.is_current),
        )
    }
}

pub open spec fn history_lines(history: Seq<HistoryMenuEntry>) -> Seq<MenuLine> {
    if history.len() == 0 {
        seq![MenuLine::Entry(0, "No recent recordings"@, false, true)]
    } else {
        seq![entry(0, "Recent (click to copy):"@, false)] + history.take(
            if history.len() < MENU_HISTORY_LIMIT {
                history.len() as int
            } else {
                MENU_HISTORY_LIMIT as int
            },
        ).map_values(|h: HistoryMenuEntry| entry(history_item_id(h) as u16, h.label@, false))
    }
}

/// The whole tray menu, top to bottom.
pub open spec fn tray_menu_lines(
    s: TrayState,
    models: Seq<ModelMenuItem>,
    history: Seq<HistoryMenuEntry>,
) -> Seq<MenuLine> {
    seq![
        entry(ID_STREAMING, "Streaming"@, s.streaming_enabled),
        entry(ID_CHUNK_3, "Chunk: 3s"@, s.streaming_chunk_seconds == 3),
        entry(ID_CHUNK_8, "Chunk: 8s"@, s.streaming_chunk_seconds == 8),
        entry(ID_CHUNK_15, "Chunk: 15s"@, s.streaming_chunk_seconds == 15),
        entry(ID_OLLAMA, "LLM Correction (Ollama)"@, s.ollama_enabled),
        MenuLine::Separator,
    ] + model_lines(models) + seq![MenuLine::Separator] + history_lines(history) + seq![
        MenuLine::Separator,
        entry(ID_OPEN_HISTORY, "Open Recordings Folder"@, false),
        entry(ID_OPEN_CONFIG, "Open Config File"@, false),
        MenuLine::Separator,
        entry(ID_EXIT, "Exit"@, false),
    ]
}

/// Item identifiers stay within `u16` (`index as u16` plus the range start).
pub open spec fn menu_ids_fit(models: Seq<ModelMenuItem>, history: Seq<HistoryMenuEntry>) -> bool {
    &&& forall|i: int| 0 <= i < models.len() ==> #[trigger] model_item_id(models[i]) <= u16::MAX
    &&& forall|i: int|
        0 <= i < history.len() && i < MENU_HISTORY_LIMIT ==> #[trigger] history_item_id(history[i])
            <= u16::MAX
}

fn push_entry(items: &mut Vec<TrayMenuItem>, id: u16, label: &str, checked: bool)
    ensures
        lines_of(final(items)@) == lines_of(old(items)@).push(entry(id, label@, checked)),
{
    let ghost before = items@;
    items.push(TrayMenuItem::Entry { id, label: owned(label), checked, grayed: false });
    assert(lines_of(items@) =~= lines_of(before).push(entry(id, label@, checked)));
}

fn push_grayed(items: &mut Vec<TrayMenuItem>, label: &str)
    ensures
        lines_of(final(items)@) == lines_of(old(items)@).push(MenuLine::Entry(0, label@, false, true)),
{
    let ghost before = items@;
    items.push(TrayMenuItem::Entry { id: 0, label: owned(label), checked: false, grayed: true });
    assert(lines_of(items@) =~= lines_of(before).push(MenuLine::Entry(0, label@, false, true)));
}

fn push_separator(items: &mut Vec<TrayMenuItem>)
    ensures
        lines_of(final(items)@) == lines_of(old(items)@).push(MenuLine::Separator),
{
    let ghost before = items@;
    items.push(TrayMenuItem::Separator);
    assert(lines_of(items@) =~= lines_of(before).push(MenuLine::Separator));
}

fn concat_label(a: &String, b: &String) -> (r: String)
    ensures
        r@ == a@ + b@,
{
    let mut v = crate::text::chars_of(a.as_str());
    let w = crate::text::chars_of(b.as_str());
    crate::text::push_chars(&mut v, &w);
    crate::text::string_from_chars(&v)
}

fn copy_string(a: &String) -> (r: String)
    ensures
        r@ == a@,
{
    owned(a.as_str())
}

fn push_model_lines(items: &mut Vec<TrayMenuItem>, models: &[ModelMenuItem])
    requires
        forall|i: int|
            0 <= i < models@.len() ==> #[trigger] model_item_id(models@[i]) <= u16::MAX,
    ensures
        lines_of(final(items)@) == lines_of(old(items)@) + model_lines(models@),
{
    let ghost head = lines_of(items@);
    if models.len() == 0 {
        push_grayed(items, "Model: (not configured)");
        assert(lines_of(items@) =~= head + model_lines(models@));
        return;
    }
    let mut i: usize = 0;
    while i < models.len()
        invariant
            i <= models@.len(),
            models@.len() > 0,
            forall|i: int|
                0 <= i < models@.len() ==> #[trigger] model_item_id(models@[i]) <= u16::MAX,
            lines_of(items@) == head + model_lines(models@).take(i as int),
        decreases models@.len() - i,
    {
        let m = &models[i];
        assert(model_item_id(models@[i as int]) <= u16::MAX);
        let id: u16 = ID_MODEL_START + (m.index % 65536) as u16;
        let label = concat_label(&m.name, &m.size_label);
        let ghost before = lines_of(items@);
        items.push(TrayMenuItem::Entry { id, label, checked: m.is_current, grayed: false });
        assert(lines_of(items@) =~= before.push(line_of(items@.last())));
        assert(model_lines(models@).take(i + 1) =~= model_lines(models@).take(i as int).push(
            model_lines(models@)[i as int],
        ));
        i = i + 1;
    }
    assert(model_lines(models@).take(i as int) =~= model_lines(models@));
}

fn push_history_lines(items: &mut Vec<TrayMenuItem>, history: &[HistoryMenuEntry])
    requires
        forall|i: int|
            0 <= i < history@.len() && i < MENU_HISTORY_LIMIT ==> #[trigger] history_item_id(
                history@[i],
            ) <= u16::MAX,
    ensures
        lines_of(final(items)@) == lines_of(old(items)@) + history_lines(history@),
{
    let ghost head = lines_of(items@);
    if history.len() == 0 {
        push_grayed(items, "No recent recordings");
        assert(lines_of(items@) =~= head + history_lines(history@));
        return;
    }
    push_entry(items, 0, "Recent (click to copy):", false);
    let n: usize = if history.len() < MENU_HISTORY_LIMIT {
        history.len()
    } else {
        MENU_HISTORY_LIMIT
    };
    let ghost listed = history@.take(n as int).map_values(
        |h: HistoryMenuEntry| entry(history_item_id(h) as u16, h.label@, false),
    );
    let ghost mid = lines_of(items@);
    let mut i: usize = 0;
    while i < n
        invariant
            i <= n <= history@.len(),
            n <= MENU_HISTORY_LIMIT,
            forall|i: int|
                0 <= i < history@.len() && i < MENU_HISTORY_LIMIT ==> #[trigger] history_item_id(
                    history@[i],
                ) <= u16::MAX,
            listed == history@.take(n as int).map_values(
                |h: HistoryMenuEntry| entry(history_item_id(h) as u16, h.label@, false),
            ),
            lines_of(items@) == mid + listed.take(i as int),
        decreases n - i,
    {
        let h = &history[i];
        assert(history_item_id(history@[i as int]) <= u16::MAX);
        let id: u16 = ID_HISTORY_START + (h.id % 65536) as u16;
        let label = copy_string(&h.label);
        let ghost before = lines_of(items@);
        items.push(TrayMenuItem::Entry { id, label, checked: false, grayed: false });
        assert(lines_of(items@) =~= before.push(line_of(items@.last())));
        assert(listed.take(i + 1) =~= listed.take(i as int).push(listed[i as int]));
        i = i + 1;
    }
    assert(listed.take(i as int) =~= listed);
    assert(lines_of(items@) =~= head + history_lines(history@));
}

/// The tray menu for the current toggles, the model list and the recent
/// recordings (at most ten are listed).
pub fn tray_menu(state: &TrayState, models: &[ModelMenuItem], history: &[HistoryMenuEntry]) -> (r:
    Vec<TrayMenuItem>)
    requires
        menu_ids_fit(models@, history@),
    ensures
        lines_of(r@) == tray_menu_lines(*state, models@, history@),
{
    let mut items: Vec<TrayMenuItem> = Vec::new();
    assert(lines_of(items@) =~= Seq::<MenuLine>::empty());
    push_entry(&mut items, ID_STREAMING, "Streaming", state.streaming_enabled);
    push_entry(&mut items, ID_CHUNK_3, "Chunk: 3s", state.streaming_chunk_seconds == 3);
    push_entry(&mut items, ID_CHUNK_8, "Chunk: 8s", state.streaming_chunk_seconds == 8);
    push_entry(&mut items, ID_CHUNK_15, "Chunk: 15s", state.streaming_chunk_seconds == 15);
    push_entry(&mut items, ID_OLLAMA, "LLM Correction (Ollama)", state.ollama_enabled);
    push_separator(&mut items);
    push_model_lines(&mut items, models);
    push_separator(&mut items);
    push_history_lines(&mut items, history);
    push_separator(&mut items);
    push_entry(&mut items, ID_OPEN_HISTORY, "Open Recordings Folder", false);
    push_entry(&mut items, ID_OPEN_CONFIG, "Open Config File", false);
    push_separator(&mut items);
    push_entry(&mut items, ID_EXIT, "Exit", false);
    assert(lines_of(items@) =~= tray_menu_lines(*state, models@, history@));
    items
}

/// A model that the model menu may list: its display name, where it lives,
/// and its size label.
#[derive(Debug, Clone)]
pub struct ModelCandidate {
    pub name: String,
    pub path: String,
    pub size_label: String,
}

/// The form in which two model paths are compared: forward slashes turned
/// into backslashes, then lowercased.
pub open spec fn path_match_key(p: Seq<char>) -> Seq<char> {
    unicode_str_lowercase(p.map_values(|c: char| if c == '/' {
        '\\'
    } else {
        c
    }))
}

pub open spec fn candidate_names(cs: Seq<ModelCandidate>) -> Seq<Seq<char>> {
    cs.map_values(|c: ModelCandidate| c.name@)
}

fn path_key(p: &str) -> (r: Vec<char>)
    ensures
        r@ == path_match_key(p@),
{
    let cs = chars_of(p);
    let mut v: Vec<char> = Vec::new();
    let mut i: usize = 0;
    while i < cs.len()
        invariant
            i <= cs@.len(),
            v@ == cs@.take(i as int).map_values(|c: char| if c == '/' {
                '\\'
            } else {
                c
            }),
        decreases cs@.len() - i,
    {
        let c = cs[i];
        v.push(if c == '/' { '\\' } else { c });
        assert(cs@.take(i + 1) =~= cs@.take(i as int).push(c));
        i = i + 1;
    }
    assert(cs@.take(i as int) =~= cs@);
    str_to_lowercase(&v)
}

/// The model menu: the candidates sorted by name (ties in the given order),
/// numbered from 0, each marked current when its path matches the current
/// model path (slashes and case aside).
pub fn model_menu_items(candidates: &Vec<ModelCandidate>, current_path: &str) -> (r: Vec<
    ModelMenuItem,
>)
    ensures
        r@.len() == candidates@.len(),
        forall|j: int|
            0 <= j < r@.len() ==> {
                let c = candidates@[stable_order(candidate_names(candidates@))[j]];
                &&& 0 <= stable_order(candidate_names(candidates@))[j] < candidates@.len()
                &&& (#[trigger] r@[j]).index == j
                &&& r@[j].name@ == c.name@
                &&& r@[j].size_label@ == c.size_label@
                &&& r@[j].is_current == (path_match_key(c.path@) == path_match_key(current_path@))
            },
{
    let current = path_key(current_path);
    let mut keys: Vec<Vec<char>> = Vec::new();
    let mut i: usize = 0;
    while i < candidates.len()
        invariant
            i <= candidates@.len(),
            keys@.len() == i,
            forall|j: int| 0 <= j < i ==> #[trigger] keys@[j]@ == candidates@[j].name@,
        decreases candidates@.len() - i,
    {
        keys.push(chars_of(candidates[i].name.as_str()));
        i = i + 1;
    }
    assert(crate::text::views(keys@) =~= candidate_names(candidates@));
    let order = sorted_positions(&keys);
    let ghost o = order@.map_values(|p: usize| p as int);
    let mut out: Vec<ModelMenuItem> = Vec::new();
    let mut k: usize = 0;
    while k < order.len()
        invariant
            k <= order@.len(),
            order@.len() == candidates@.len(),
            o == order@.map_values(|p: usize| p as int),
            o == stable_order(candidate_names(candidates@)),
            current@ == path_match_key(current_path@),
            forall|j: int| 0 <= j < order@.len() ==> #[trigger] order@[j] < keys@.len(),
            keys@.len() == candidates@.len(),
            out@.len() == k,
            forall|j: int|
                0 <= j < k ==> {
                    let c = candidates@[o[j]];
                    &&& 0 <= o[j] < candidates@.len()
                    &&& (#[trigger] out@[j]).index == j
                    &&& out@[j].name@ == c.name@
                    &&& out@[j].size_label@ == c.size_label@
                    &&& out@[j].is_current == (path_match_key(c.path@) == path_match_key(
                        current_path@,
                    ))
                },
        decreases order@.len() - k,
    {
        let p = order[k];
        assert(o[k as int] == p as int);
        let c = &candidates[p];
        let key = path_key(c.path.as_str());
        let is_current = crate::text::chars_equal(&key, &current);
        out.push(
            ModelMenuItem {
                index: k,
                name: owned(c.name.as_str()),
                is_current,
                size_label: owned(c.size_label.as_str()),
            },
        );
        k = k + 1;
    }
    out
}

} // verus!
