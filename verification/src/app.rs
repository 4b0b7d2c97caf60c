//! The application state and the decisions that drive it (Elm-style):
//! every message is applied by `AppState::update`, which says what the
//! caller must still do outside the library.

use vstd::prelude::*;

use fuzzy_matcher::FuzzyMatcher;

use crate::hardware::gpu::init_nvml;
use crate::hardware::ram::{new_system, BYTES_PER_MB};
use crate::hardware::{HardwareInfo, HardwareProbes};
use crate::models::compat::{evaluate, spec_evaluate};
use crate::models::{ModelEntry, Verdict};
use crate::text::push_char;

verus! {

/// Whether the user is in normal navigation or fuzzy-search mode.
#[derive(Debug, Clone, Copy, PartialEq, Eq, Structural)]
pub enum AppMode {
    Normal,
    Search,
}

/// Current connection state of the Ollama daemon.
#[derive(Debug, Clone, Copy, PartialEq, Eq, Structural)]
pub enum OllamaStatus {
    Checking,
    Running,
    Stopped,
}

/// Download state of the online model catalog.
#[derive(Debug, Clone, Copy, PartialEq, Eq, Structural)]
pub enum CatalogStatus {
    /// Initial fetch in progress.
    Loading,
    /// Catalog loaded successfully.
    Ready,
    /// Network or parse failure; showing the offline fallback.
    Failed,
}

// ---------------------------------------------------------------------------
// Fuzzy search
// ---------------------------------------------------------------------------

/// The score that the skim fuzzy matcher (default configuration) gives a
/// choice for a pattern, `None` when the pattern does not match.
pub uninterp spec fn fuzzy_score(choice: Seq<char>, pattern: Seq<char>) -> Option<i64>;

/// `fuzzy_matcher::skim::SkimMatcherV2::fuzzy_match` with the matcher's
/// default configuration (smart case): the match score of `choice` for
/// `pattern`, taken as the name `fuzzy_score`.
#[verifier::external_body]
fn skim_fuzzy_match(choice: &str, pattern: &str) -> (score: Option<i64>)
    ensures
        score == fuzzy_score(choice@, pattern@),
{
    fuzzy_matcher::skim::SkimMatcherV2::default().fuzzy_match(choice, pattern)
}

/// The text a model is matched against: name, family and description.
pub open spec fn haystack(m: ModelEntry) -> Seq<char> {
    m.name@ + seq![' '] + m.family@ + seq![' '] + m.description@
}

pub open spec fn model_score(models: Seq<ModelEntry>, query: Seq<char>, i: int) -> Option<i64> {
    fuzzy_score(haystack(models[i]), query)
}

/// Model `a` is listed before model `b`: a better score, or the same score
/// and an earlier position in the catalogue.
pub open spec fn ranked_before(models: Seq<ModelEntry>, query: Seq<char>, a: usize, b: usize) -> bool {
    let sa = model_score(models, query, a as int)->0;
    let sb = model_score(models, query, b as int)->0;
    sa > sb || (sa == sb && a < b)
}

/// `v` lists the models that the search query keeps: all of them in order
/// for an empty query; otherwise exactly those that match, best matches first.
pub open spec fn is_filtered_view(v: Seq<usize>, models: Seq<ModelEntry>, query: Seq<char>) -> bool {
    if query.len() == 0 {
        v == Seq::new(models.len(), |i: int| i as usize)
    } else {
        is_ranking(v, models, query)
    }
}

/// The verdict shown for a model on the given hardware.
pub open spec fn verdict_of(m: ModelEntry, hw: HardwareInfo) -> Option<Verdict> {
    match spec_evaluate(m, hw) {
        Some(r) => Some(r.verdict),
        None => None,
    }
}


// ---------------------------------------------------------------------------
// Messages
// ---------------------------------------------------------------------------

/// Messages that drive state updates (Elm-style).
pub enum Msg {
    /// Move list selection up.
    Up,
    /// Move list selection down.
    Down,
    /// Enter fuzzy-search mode.
    EnterSearch,
    /// Exit search mode, keeping the current query.
    ExitSearch,
    /// Append a character to the search query.
    SearchChar(char),
    /// Delete last character from the search query.
    SearchBackspace,
    /// Clear search and exit search mode.
    ClearSearch,
    /// Toggle between EN and ES.
    ToggleLang,
    /// Refresh hardware metrics.
    HardwareTick,
    /// Ollama status received from the background poller.
    OllamaUpdate { running: bool, installed: Vec<String> },
    /// Full online catalog fetched successfully.
    CatalogLoaded(Vec<ModelEntry>),
    /// Online catalog fetch failed; keep showing the offline fallback.
    CatalogFailed,
    /// Copy "ollama run <selected>" to the clipboard.
    CopyCommand,
    /// Quit the application.
    Quit,
}

/// What the caller still has to do after an update.
pub enum Effect {
    /// Nothing.
    Nothing,
    /// Put this command on the system clipboard, then report the outcome
    /// with `AppState::show_clipboard_message`.
    CopyToClipboard(String),
    /// Make this the interface's locale (the language the texts are shown in).
    SetLocale(String),
}

// ---------------------------------------------------------------------------
// Input
// ---------------------------------------------------------------------------

/// The keys the interface distinguishes.
#[derive(Debug, Clone, Copy, PartialEq, Eq, Structural)]
pub enum KeyCode {
    Char(char),
    Esc,
    Enter,
    Backspace,
    Tab,
    Up,
    Down,
    /// Any other key.
    Other,
}

/// A key event: the key, whether Control was held, and whether it is a press
/// (rather than a repeat or a release).
#[derive(Debug, Clone, Copy, PartialEq, Eq, Structural)]
pub struct KeyInput {
    pub code: KeyCode,
    pub ctrl: bool,
    pub press: bool,
}

/// A terminal event: a key, or anything else (resize, mouse, focus, paste).
#[derive(Debug, Clone, Copy, PartialEq, Eq, Structural)]
pub enum InputEvent {
    Key(KeyInput),
    Other,
}

/// The key bindings: which message a key press sends in each mode.
pub open spec fn spec_event_to_msg(event: InputEvent, mode: AppMode) -> Option<Msg> {
    match event {
        InputEvent::Other => None,
        InputEvent::Key(key) => if !key.press {
            None
        } else {
            match mode {
                AppMode::Normal => match key.code {
                    KeyCode::Char(c) => if c == 'q' || c == 'Q' {
                        Some(Msg::Quit)
                    } else if c == 'c' && key.ctrl {
                        Some(Msg::CopyCommand)
                    } else if c == '/' {
                        Some(Msg::EnterSearch)
                    } else if c == 'k' {
                        Some(Msg::Up)
                    } else if c == 'j' {
                        Some(Msg::Down)
                    } else {
                        None
                    },
                    KeyCode::Tab => Some(Msg::ToggleLang),
                    KeyCode::Up => Some(Msg::Up),
                    KeyCode::Down => Some(Msg::Down),
                    _ => None,
                },
                AppMode::Search => match key.code {
                    KeyCode::Esc => Some(Msg::ClearSearch),
                    KeyCode::Enter => Some(Msg::ExitSearch),
                    KeyCode::Backspace => Some(Msg::SearchBackspace),
                    KeyCode::Up => Some(Msg::Up),
                    KeyCode::Down => Some(Msg::Down),
                    KeyCode::Char(c) => if c == 'c' && key.ctrl {
                        Some(Msg::CopyCommand)
                    } else {
                        Some(Msg::SearchChar(c))
                    },
                    _ => None,
                },
            }
        },
    }
}

/// Translates a terminal event into an application message (key presses
/// only).
pub fn event_to_msg(event: &InputEvent, mode: AppMode) -> (msg: Option<Msg>)
    ensures
        msg == spec_event_to_msg(*event, mode),
        forall|c: char|
            mode == AppMode::Search && *event == InputEvent::Key(
                KeyInput { code: KeyCode::Char(c), ctrl: false, press: true },
            ) ==> msg == Some(Msg::SearchChar(c)),
        (msg matches Some(Msg::CopyCommand)) ==> *event == InputEvent::Key(
            KeyInput { code: KeyCode::Char('c'), ctrl: true, press: true },
        ),
{
    let key = match event {
        InputEvent::Key(k) => k,
        InputEvent::Other => return None,
    };
    // Only process key-press events (ignore repeat/release).
    if !key.press {
        return None;
    }
    match mode {
        AppMode::Normal => match key.code {
            KeyCode::Char(c) => {
                if c == 'q' || c == 'Q' {
                    Some(Msg::Quit)
                } else if c == 'c' && key.ctrl {
                    Some(Msg::CopyCommand)
                } else if c == '/' {
                    Some(Msg::EnterSearch)
                } else if c == 'k' {
                    Some(Msg::Up)
                } else if c == 'j' {
                    Some(Msg::Down)
                } else {
                    None
                }
            },
            KeyCode::Tab => Some(Msg::ToggleLang),
            KeyCode::Up => Some(Msg::Up),
            KeyCode::Down => Some(Msg::Down),
            _ => None,
        },
        AppMode::Search => match key.code {
            KeyCode::Esc => Some(Msg::ClearSearch),
            KeyCode::Enter => Some(Msg::ExitSearch),
            KeyCode::Backspace => Some(Msg::SearchBackspace),
            KeyCode::Up => Some(Msg::Up),
            KeyCode::Down => Some(Msg::Down),
            KeyCode::Char(c) => {
                if c == 'c' && key.ctrl {
                    Some(Msg::CopyCommand)
                } else {
                    Some(Msg::SearchChar(c))
                }
            },
            _ => None,
        },
    }
}

// ---------------------------------------------------------------------------
// Locale
// ---------------------------------------------------------------------------

/// `rust_i18n::locale`: the current locale of the interface (global state),
/// read once when the state is built.
#[verifier::external_body]
fn current_locale() -> String {
    rust_i18n::locale().to_string()
}


pub open spec fn spec_next_locale(current: Seq<char>) -> Seq<char> {
    if current == "en"@ {
        "es"@
    } else {
        "en"@
    }
}

/// The message that the outcome of the online catalogue fetch becomes: the
/// fetched entries when there are any, a failure (keeping the offline
/// catalogue) when the fetch failed or found nothing.
pub fn catalog_msg(fetched: Result<Vec<ModelEntry>, String>) -> (msg: Msg)
    ensures
        msg == (match fetched {
            Ok(models) => if models@.len() > 0 {
                Msg::CatalogLoaded(models)
            } else {
                Msg::CatalogFailed
            },
            Err(_) => Msg::CatalogFailed,
        }),
{
    match fetched {
        Ok(models) => if models.len() > 0 {
            Msg::CatalogLoaded(models)
        } else {
            Msg::CatalogFailed
        },
        Err(_) => Msg::CatalogFailed,
    }
}

/// The locale that the language toggle switches to: Spanish from English,
/// English from anything else.
pub fn next_locale(current: &str) -> (next: &'static str)
    ensures
        next@ == spec_next_locale(current@),
{
    if crate::text::chars_eq(&crate::text::chars_of(current), &crate::text::chars_of("en")) {
        "es"
    } else {
        "en"
    }
}

// ---------------------------------------------------------------------------
// Time
// ---------------------------------------------------------------------------

#[verifier::external_type_specification]
#[verifier::external_body]
pub struct ExInstant(std::time::Instant);

/// `std::time::Instant::now`: the current instant of the monotonic clock.
#[verifier::external_body]
fn instant_now() -> std::time::Instant {
    std::time::Instant::now()
}

/// `std::time::Instant::elapsed`, in nanoseconds: the time since the instant.
#[verifier::external_body]
fn elapsed_nanos(at: &std::time::Instant) -> u128 {
    at.elapsed().as_nanos()
}

/// The footer text for the outcome of a copy: the "copied" label, two
/// spaces and the command when the clipboard took the command, the error
/// label when it did not.
pub fn clipboard_notice(copied: bool, command: &str, copied_label: &str, error_label: &str) -> (text:
    String)
    ensures
        text@ == (if copied {
            copied_label@ + seq![' ', ' '] + command@
        } else {
            error_label@
        }),
{
    if copied {
        let mut text = String::from_str(copied_label);
        push_char(&mut text, ' ');
        push_char(&mut text, ' ');
        text.append(command);
        text
    } else {
        String::from_str(error_label)
    }
}

/// How long a clipboard notification stays in the footer (3 s).
pub const CLIPBOARD_NOTICE_NANOS: u128 = 3_000_000_000;

/// Whether a clipboard notification shown `elapsed_nanos` ago has expired:
/// strictly more than 3 seconds.
pub fn clipboard_notice_expired(elapsed_nanos: u128) -> (expired: bool)
    ensures
        expired == (elapsed_nanos > CLIPBOARD_NOTICE_NANOS),
{
    elapsed_nanos > CLIPBOARD_NOTICE_NANOS
}

/// The clipboard notification after a hardware tick, when it was shown
/// `elapsed` nanoseconds ago: gone once more than 3 seconds have passed.
pub open spec fn spec_expire_notice(
    notice: Option<(String, std::time::Instant)>,
    elapsed: u128,
) -> Option<(String, std::time::Instant)> {
    if notice is Some && elapsed > CLIPBOARD_NOTICE_NANOS {
        None
    } else {
        notice
    }
}

// ---------------------------------------------------------------------------
// State
// ---------------------------------------------------------------------------

/// Full application state.
pub struct AppState {
    pub hardware: HardwareInfo,
    /// All models currently listed (from the database or the online catalog).
    pub models: Vec<ModelEntry>,
    /// Indices into `models` that survive the current search filter.
    pub visible: Vec<usize>,
    /// Model names installed locally (from the Ollama API), each once.
    pub installed: Vec<String>,
    /// Pre-computed verdicts for each model (parallel to `models`).
    pub verdicts: Vec<Option<Verdict>>,
    pub ollama_status: OllamaStatus,
    pub catalog_status: CatalogStatus,
    pub mode: AppMode,
    /// Index into `visible` (not into `models`).
    pub selected_idx: usize,
    /// The row highlighted in the list widget (`None` when the list is empty).
    pub list_selected: Option<usize>,
    pub search_query: String,
    pub should_quit: bool,
    /// Temporary footer notification after a clipboard copy (message + time shown).
    pub clipboard_msg: Option<(String, std::time::Instant)>,
    /// The interface's locale ("en" or "es"), switched by the language toggle.
    pub locale: String,
    /// The handles through which the hardware figures are refreshed.
    pub probes: HardwareProbes,
}

impl AppState {
    /// The state's invariant: verdicts parallel the models, the visible rows
    /// are distinct models, and the selection points at a visible row (and is
    /// the row the list highlights), or is 0 with nothing highlighted when no
    /// row is visible.
    pub open spec fn wf(self) -> bool {
        &&& self.verdicts@.len() == self.models@.len()
        &&& forall|k: int| 0 <= k < self.visible@.len() ==> #[trigger] self.visible@[k] < self.models@.len()
        &&& self.visible@.no_duplicates()
        &&& self.installed@.map_values(|s: String| s@).no_duplicates()
        &&& if self.visible@.len() == 0 {
            self.selected_idx == 0 && self.list_selected is None
        } else {
            self.selected_idx < self.visible@.len() && self.list_selected == Some(self.selected_idx)
        }
    }

    /// The visible rows are those the current search query keeps.
    pub open spec fn filter_consistent(self) -> bool {
        is_filtered_view(self.visible@, self.models@, self.search_query@)
    }

    /// Every model's verdict is the one its compatibility with the current
    /// hardware gives.
    pub open spec fn verdicts_current(self) -> bool {
        &&& self.verdicts@.len() == self.models@.len()
        &&& forall|i: int|
            0 <= i < self.models@.len() ==> #[trigger] self.verdicts@[i] == verdict_of(
                self.models@[i],
                self.hardware,
            )
    }

    /// Builds the initial state: detects the hardware (RAM, GPU, and the
    /// architecture named `arch_name`), lists all `models` with no verdicts
    /// yet, and selects the first row.
    pub fn new(models: Vec<ModelEntry>, arch_name: &str) -> (state: Self)
        ensures
            state.wf(),
            state.filter_consistent(),
            state.models@ == models@,
            state.hardware.arch == crate::hardware::arch_of(arch_name@),
            state.verdicts@ == Seq::new(models@.len(), |i: int| None::<Verdict>),
            state.installed@.len() == 0,
            state.ollama_status == OllamaStatus::Checking,
            state.catalog_status == CatalogStatus::Loading,
            state.mode == AppMode::Normal,
            state.selected_idx == 0,
            state.search_query@.len() == 0,
            !state.should_quit,
            state.clipboard_msg is None,
    {
        let mut sys = new_system();
        let nvml = init_nvml();
        let hardware = HardwareInfo::detect(&mut sys, arch_name);
        let n = models.len();
        let visible = all_indices(n);
        let verdicts = none_verdicts(n);
        let list_selected = if n > 0 { Some(0) } else { None };
        let state = AppState {
            hardware,
            models,
            visible,
            installed: Vec::new(),
            verdicts,
            ollama_status: OllamaStatus::Checking,
            catalog_status: CatalogStatus::Loading,
            mode: AppMode::Normal,
            selected_idx: 0,
            list_selected,
            search_query: String::new(),
            should_quit: false,
            clipboard_msg: None,
            locale: current_locale(),
            probes: HardwareProbes::new(sys, nvml),
        };
        assert(state.installed@.map_values(|s: String| s@) =~= Seq::<Seq<char>>::empty());
        state
    }

    /// The state after moving the selection by `delta` rows, wrapping around
    /// the visible rows (unchanged when no row is visible).
    pub open spec fn after_move(self, delta: int) -> AppState {
        if self.visible@.len() == 0 {
            self
        } else {
            let next = ((self.selected_idx + delta) % (self.visible@.len() as int)) as usize;
            AppState { selected_idx: next, list_selected: Some(next), ..self }
        }
    }

    /// Moves the selection by `delta` rows, wrapping around the visible rows.
    fn move_selection(&mut self, delta: i64)
        requires
            old(self).wf(),
            delta == 1 || delta == -1,
        ensures
            *final(self) == old(self).after_move(delta as int),
    {
        let len = self.visible.len();
        if len == 0 {
            return ;
        }
        let next = if delta == 1 {
            if self.selected_idx + 1 == len {
                0
            } else {
                self.selected_idx + 1
            }
        } else {
            if self.selected_idx == 0 {
                len - 1
            } else {
                self.selected_idx - 1
            }
        };
        proof {
            let sel = self.selected_idx as int;
            let l = len as int;
            let x = sel + delta;
            let nx = next as int;
            assert(0 <= nx < l && x == nx + (if x == l { l } else if x < 0 { -l } else { 0 }));
            if x == l {
                assert(x % l == nx) by (nonlinear_arith)
                    requires
                        x == nx + l,
                        0 <= nx < l,
                ;
            } else if x < 0 {
                assert(x % l == nx) by (nonlinear_arith)
                    requires
                        x == nx - l,
                        0 <= nx < l,
                ;
            } else {
                assert(x % l == nx) by (nonlinear_arith)
                    requires
                        x == nx,
                        0 <= nx < l,
                ;
            }
        }
        self.selected_idx = next;
        self.list_selected = Some(next);
    }

    /// Pre-computes the compatibility verdict of every model for the current hardware.
    pub fn recompute_verdicts(&mut self)
        requires
            old(self).verdicts@.len() == old(self).models@.len(),
        ensures
            final(self).verdicts_current(),
            *final(self) == (AppState { verdicts: final(self).verdicts, ..*old(self) }),
    {
        let n = self.models.len();
        let mut i: usize = 0;
        while i < n
            invariant
                n == self.models@.len() == self.verdicts@.len(),
                i <= n,
                forall|k: int| 0 <= k < i ==> #[trigger] self.verdicts@[k] == verdict_of(
                    self.models@[k],
                    self.hardware,
                ),
                *self == (AppState { verdicts: self.verdicts, ..*old(self) }),
            decreases n - i,
        {
            let v = match evaluate(&self.models[i], &self.hardware) {
                Some(r) => Some(r.verdict),
                None => None,
            };
            self.verdicts.set(i, v);
            i += 1;
        }
    }
}

pub open spec fn clamp_selection(selected: usize, len: nat) -> usize {
    if len == 0 {
        0
    } else if selected < len {
        selected
    } else {
        (len - 1) as usize
    }
}

pub open spec fn names_view(v: Seq<String>) -> Seq<Seq<char>> {
    v.map_values(|s: String| s@)
}

/// The names, each once.
fn dedup_names(names: Vec<String>) -> (r: Vec<String>)
    ensures
        names_view(r@).no_duplicates(),
        forall|x: Seq<char>| names_view(r@).contains(x) <==> names_view(names@).contains(x),
{
    let mut r: Vec<String> = Vec::new();
    let mut i: usize = 0;
    while i < names.len()
        invariant
            i <= names@.len(),
            names_view(r@).no_duplicates(),
            forall|x: Seq<char>|
                names_view(r@).contains(x) <==> names_view(names@.take(i as int)).contains(x),
        decreases names@.len() - i,
    {
        let mut seen = false;
        let mut j: usize = 0;
        while j < r.len()
            invariant
                j <= r@.len(),
                i < names@.len(),
                seen <==> exists|t: int| 0 <= t < j && r@[t]@ == names@[i as int]@,
            decreases r@.len() - j,
        {
            if r[j] == names[i] {
                seen = true;
            }
            j += 1;
        }
        let ghost before = r@;
        let ghost nm = names@[i as int]@;
        let ghost prev = names_view(names@.take(i as int));
        proof {
            assert(names_view(names@.take(i + 1)) =~= prev.push(nm));
            if seen {
                let t = choose|t: int| 0 <= t < r@.len() && r@[t]@ == nm;
                assert(names_view(r@)[t] == nm);
                assert forall|x: Seq<char>|
                    names_view(r@).contains(x) <==> prev.push(nm).contains(x) by {
                    if prev.push(nm).contains(x) {
                        let q = choose|q: int| 0 <= q < prev.len() + 1 && prev.push(nm)[q] == x;
                        if q < prev.len() {
                            assert(prev.contains(x));
                        }
                    }
                    if prev.contains(x) {
                        let q = choose|q: int| 0 <= q < prev.len() && prev[q] == x;
                        assert(prev.push(nm)[q] == x);
                    }
                }
            }
        }
        if !seen {
            r.push(names[i].clone());
            proof {
                assert(names_view(r@) =~= names_view(before).push(nm));
                assert(!names_view(before).contains(nm));
                assert forall|x: Seq<char>|
                    names_view(r@).contains(x) <==> prev.push(nm).contains(x) by {
                    let bv = names_view(before);
                    if names_view(r@).contains(x) {
                        let q = choose|q: int| 0 <= q < bv.len() + 1 && bv.push(nm)[q] == x;
                        if q < bv.len() {
                            assert(bv.contains(x));
                            let w = choose|w: int| 0 <= w < prev.len() && prev[w] == x;
                            assert(prev.push(nm)[w] == x);
                        } else {
                            assert(prev.push(nm)[prev.len() as int] == x);
                        }
                    }
                    if prev.push(nm).contains(x) {
                        let q = choose|q: int| 0 <= q < prev.len() + 1 && prev.push(nm)[q] == x;
                        if q < prev.len() {
                            assert(prev.contains(x));
                            assert(bv.contains(x));
                            let w = choose|w: int| 0 <= w < bv.len() && bv[w] == x;
                            assert(bv.push(nm)[w] == x);
                        } else {
                            assert(bv.push(nm)[bv.len() as int] == x);
                        }
                    }
                }
            }
        }
        i += 1;
    }
    proof {
        assert(names@.take(names@.len() as int) =~= names@);
    }
    r
}

/// Scored entry `a` goes before scored entry `b`.
pub open spec fn pair_before(a: (i64, usize), b: (i64, usize)) -> bool {
    a.0 > b.0 || (a.0 == b.0 && a.1 < b.1)
}

/// The indices of the models that match `query`, best score first, equal
/// scores in catalogue order.
pub open spec fn is_ranking(v: Seq<usize>, models: Seq<ModelEntry>, query: Seq<char>) -> bool {
    &&& forall|k: int|
        0 <= k < v.len() ==> #[trigger] v[k] < models.len() && model_score(models, query, v[k] as int)
            is Some
    &&& forall|i: int|
        0 <= i < models.len() && (#[trigger] model_score(models, query, i)) is Some ==> v.contains(
            i as usize,
        )
    &&& forall|k: int, l: int|
        0 <= k < l < v.len() ==> ranked_before(models, query, #[trigger] v[k], #[trigger] v[l])
}

pub proof fn lemma_ranking_distinct(v: Seq<usize>, models: Seq<ModelEntry>, query: Seq<char>)
    requires
        forall|k: int, l: int|
            0 <= k < l < v.len() ==> ranked_before(models, query, #[trigger] v[k], #[trigger] v[l]),
    ensures
        v.no_duplicates(),
{
    assert forall|i: int, j: int| 0 <= i < v.len() && 0 <= j < v.len() && i != j implies v[i]
        != v[j] by {
        if i < j {
            assert(ranked_before(models, query, v[i], v[j]));
        } else {
            assert(ranked_before(models, query, v[j], v[i]));
        }
    }
}

fn haystack_of(m: &ModelEntry) -> (h: String)
    ensures
        h@ == haystack(*m),
        h@ == m.name@ + seq![' '] + m.family@ + seq![' '] + m.description@,
{
    let mut h = m.name.clone();
    push_char(&mut h, ' ');
    h.append(m.family.as_str());
    push_char(&mut h, ' ');
    h.append(m.description.as_str());
    h
}

/// The models that match `query`, ranked.
fn ranked_matches(models: &Vec<ModelEntry>, query: &str) -> (v: Vec<usize>)
    ensures
        is_ranking(v@, models@, query@),
{
    let mut scored: Vec<(i64, usize)> = Vec::new();
    let n = models.len();
    let mut i: usize = 0;
    while i < n
        invariant
            n == models@.len(),
            i <= n,
            forall|k: int|
                0 <= k < scored@.len() ==> (#[trigger] scored@[k]).1 < i && model_score(
                    models@,
                    query@,
                    scored@[k].1 as int,
                ) == Some(scored@[k].0),
            forall|j: int|
                0 <= j < i && (#[trigger] model_score(models@, query@, j)) is Some ==> exists|k: int|
                    0 <= k < scored@.len() && (#[trigger] scored@[k]).1 == j,
            forall|k: int, l: int|
                0 <= k < l < scored@.len() ==> pair_before(#[trigger] scored@[k], #[trigger] scored@[l]),
        decreases n - i,
    {
        let h = haystack_of(&models[i]);
        if let Some(score) = skim_fuzzy_match(h.as_str(), query) {
            let mut p: usize = 0;
            while p < scored.len() && scored[p].0 >= score
                invariant
                    p <= scored@.len(),
                    forall|k: int| 0 <= k < p ==> (#[trigger] scored@[k]).0 >= score,
                decreases scored@.len() - p,
            {
                p += 1;
            }
            proof {
                assert forall|k: int| p <= k < scored@.len() implies (#[trigger] scored@[k]).0 < score by {
                    if k > p {
                        assert(pair_before(scored@[p as int], scored@[k]));
                    }
                }
            }
            let ghost old_scored = scored@;
            scored.insert(p, (score, i));
            proof {
                assert(scored@ == old_scored.insert(p as int, (score, i)));
                assert forall|k: int, l: int|
                    0 <= k < l < scored@.len() implies pair_before(
                    #[trigger] scored@[k],
                    #[trigger] scored@[l],
                ) by {
                    if k < p && l < p {
                        assert(pair_before(old_scored[k], old_scored[l]));
                    } else if k < p && l == p {
                        assert(old_scored[k].1 < i);
                    } else if k < p && l > p {
                        assert(pair_before(old_scored[k], old_scored[l - 1]));
                    } else if k == p {
                        assert(old_scored[l - 1].0 < score);
                    } else {
                        assert(pair_before(old_scored[k - 1], old_scored[l - 1]));
                    }
                }
                assert forall|j: int|
                    0 <= j < i + 1 && (#[trigger] model_score(models@, query@, j)) is Some implies exists|k: int|
                    0 <= k < scored@.len() && (#[trigger] scored@[k]).1 == j by {
                    if j == i {
                        assert(scored@[p as int].1 == j);
                    } else {
                        let k0 = choose|k: int| 0 <= k < old_scored.len() && (#[trigger] old_scored[k]).1 == j;
                        if k0 < p {
                            assert(scored@[k0].1 == j);
                        } else {
                            assert(scored@[k0 + 1].1 == j);
                        }
                    }
                }
            }
        }
        i += 1;
    }
    let mut v: Vec<usize> = Vec::new();
    let mut k: usize = 0;
    while k < scored.len()
        invariant
            k <= scored@.len(),
            v@.len() == k,
            forall|t: int| 0 <= t < k ==> #[trigger] v@[t] == scored@[t].1,
        decreases scored@.len() - k,
    {
        v.push(scored[k].1);
        k += 1;
    }
    proof {
        assert forall|t: int| 0 <= t < v@.len() implies #[trigger] v@[t] < models@.len()
            && model_score(models@, query@, v@[t] as int) is Some by {
            assert(scored@[t].1 < n);
        }
        assert forall|i: int|
            0 <= i < models@.len() && (#[trigger] model_score(models@, query@, i)) is Some implies v@.contains(
            i as usize,
        ) by {
            let k0 = choose|k: int| 0 <= k < scored@.len() && (#[trigger] scored@[k]).1 == i;
            assert(v@[k0] == i as usize);
        }
        assert forall|a: int, b: int|
            0 <= a < b < v@.len() implies ranked_before(models@, query@, #[trigger] v@[a], #[trigger] v@[b]) by {
            assert(pair_before(scored@[a], scored@[b]));
        }
    }
    v
}

/// `0, 1, …, n - 1`.
fn all_indices(n: usize) -> (v: Vec<usize>)
    ensures
        v@ == Seq::new(n as nat, |i: int| i as usize),
{
    let mut v: Vec<usize> = Vec::new();
    let mut i: usize = 0;
    while i < n
        invariant
            i <= n,
            v@ == Seq::new(i as nat, |k: int| k as usize),
        decreases n - i,
    {
        v.push(i);
        i += 1;
    }
    v
}


impl AppState {
    /// The state after a re-filter of `prev`: the rows the query keeps, the
    /// selection clamped to them, and verdicts for the current hardware.
    pub open spec fn refiltered_from(self, prev: AppState) -> bool {
        &&& self.wf()
        &&& self.filter_consistent()
        &&& self.verdicts_current()
        &&& self.selected_idx == clamp_selection(prev.selected_idx, self.visible@.len())
    }

    /// Re-applies the search filter after the query or the model list changed.
    fn refilter(&mut self)
        requires
            old(self).verdicts@.len() == old(self).models@.len(),
            names_view(old(self).installed@).no_duplicates(),
        ensures
            final(self).refiltered_from(*old(self)),
            *final(self) == (AppState {
                visible: final(self).visible,
                selected_idx: final(self).selected_idx,
                list_selected: final(self).list_selected,
                verdicts: final(self).verdicts,
                ..*old(self)
            }),
    {
        if self.search_query.as_str().is_empty() {
            self.visible = all_indices(self.models.len());
            proof {
                assert forall|i: int, j: int|
                    0 <= i < self.visible@.len() && 0 <= j < self.visible@.len() && i != j implies self.visible@[i]
                    != self.visible@[j] by {}
            }
        } else {
            self.visible = ranked_matches(&self.models, self.search_query.as_str());
            proof {
                lemma_ranking_distinct(self.visible@, self.models@, self.search_query@);
            }
        }
        let new_len = self.visible.len();
        if new_len == 0 {
            self.selected_idx = 0;
            self.list_selected = None;
        } else {
            if self.selected_idx > new_len - 1 {
                self.selected_idx = new_len - 1;
            }
            self.list_selected = Some(self.selected_idx);
        }
        self.recompute_verdicts();
    }

    /// The model under the selection, if any row is visible.
    pub fn selected_model(&self) -> (m: Option<&ModelEntry>)
        requires
            self.wf(),
        ensures
            self.visible@.len() == 0 ==> m is None,
            self.visible@.len() > 0 ==> m == Some(
                &self.models@[self.visible@[self.selected_idx as int] as int],
            ),
    {
        if self.selected_idx < self.visible.len() {
            Some(&self.models[self.visible[self.selected_idx]])
        } else {
            None
        }
    }

    /// The compatibility of the selected model with the current hardware.
    pub fn selected_compat(&self) -> (r: Option<crate::models::CompatResult>)
        requires
            self.wf(),
        ensures
            self.visible@.len() == 0 ==> r is None,
            self.visible@.len() > 0 ==> r == spec_evaluate(
                self.models@[self.visible@[self.selected_idx as int] as int],
                self.hardware,
            ),
    {
        match self.selected_model() {
            Some(m) => evaluate(m, &self.hardware),
            None => None,
        }
    }

    /// Whether a model of that name is installed locally.
    pub fn is_installed(&self, name: &str) -> (b: bool)
        ensures
            b == names_view(self.installed@).contains(name@),
    {
        let target = name.to_owned();
        let mut j: usize = 0;
        while j < self.installed.len()
            invariant
                j <= self.installed@.len(),
                target@ == name@,
                forall|t: int| 0 <= t < j ==> self.installed@[t]@ != name@,
            decreases self.installed@.len() - j,
        {
            if self.installed[j] == target {
                assert(names_view(self.installed@)[j as int] == name@);
                return true;
            }
            j += 1;
        }
        proof {
            if names_view(self.installed@).contains(name@) {
                let t = choose|t: int|
                    0 <= t < self.installed@.len() && names_view(self.installed@)[t] == name@;
                assert(self.installed@[t]@ == name@);
            }
        }
        false
    }

    /// Expires the clipboard notification once it has been shown for more
    /// than 3 seconds: `elapsed_nanos` is the time since it was shown.
    pub fn expire_clipboard_notice(&mut self, elapsed_nanos: u128)
        ensures
            final(self).clipboard_msg == spec_expire_notice(old(self).clipboard_msg, elapsed_nanos),
            *final(self) == (AppState { clipboard_msg: final(self).clipboard_msg, ..*old(self) }),
    {
        if self.clipboard_msg.is_some() && clipboard_notice_expired(elapsed_nanos) {
            self.clipboard_msg = None;
        }
    }

    /// Shows a clipboard notification (the outcome of a copy) in the footer,
    /// from now until it expires.
    pub fn show_clipboard_message(&mut self, text: String)
        ensures
            final(self).clipboard_msg matches Some((t, _)) && t@ == text@,
            *final(self) == (AppState { clipboard_msg: final(self).clipboard_msg, ..*old(self) }),
    {
        let now = instant_now();
        self.clipboard_msg = Some((text, now));
    }

    /// Applies a message to the state and returns what the caller must still
    /// do outside the library.
    pub fn update(&mut self, msg: Msg) -> (effect: Effect)
        requires
            old(self).wf(),
        ensures
            final(self).wf(),
            old(self).filter_consistent() ==> final(self).filter_consistent(),
            old(self).verdicts_current() ==> final(self).verdicts_current(),
            match msg {
                Msg::Quit => *final(self) == (AppState { should_quit: true, ..*old(self) })
                    && effect is Nothing,
                Msg::Up => *final(self) == old(self).after_move(-1) && effect is Nothing,
                Msg::Down => *final(self) == old(self).after_move(1) && effect is Nothing,
                Msg::EnterSearch => *final(self) == (AppState { mode: AppMode::Search, ..*old(self) })
                    && effect is Nothing,
                Msg::ExitSearch => *final(self) == (AppState { mode: AppMode::Normal, ..*old(self) })
                    && effect is Nothing,
                Msg::ClearSearch => {
                    &&& final(self).search_query@.len() == 0
                    &&& final(self).mode == AppMode::Normal
                    &&& final(self).refiltered_from(*old(self))
                    &&& *final(self) == (AppState {
                        visible: final(self).visible,
                        selected_idx: final(self).selected_idx,
                        list_selected: final(self).list_selected,
                        verdicts: final(self).verdicts,
                        search_query: final(self).search_query,
                        mode: AppMode::Normal,
                        ..*old(self)
                    })
                    &&& effect is Nothing
                },
                Msg::SearchChar(c) => {
                    &&& final(self).search_query@ == old(self).search_query@.push(c)
                    &&& final(self).refiltered_from(*old(self))
                    &&& *final(self) == (AppState {
                        visible: final(self).visible,
                        selected_idx: final(self).selected_idx,
                        list_selected: final(self).list_selected,
                        verdicts: final(self).verdicts,
                        search_query: final(self).search_query,
                        ..*old(self)
                    })
                    &&& effect is Nothing
                },
                Msg::SearchBackspace => {
                    &&& final(self).search_query@ == (if old(self).search_query@.len() > 0 {
                        old(self).search_query@.drop_last()
                    } else {
                        old(self).search_query@
                    })
                    &&& final(self).refiltered_from(*old(self))
                    &&& *final(self) == (AppState {
                        visible: final(self).visible,
                        selected_idx: final(self).selected_idx,
                        list_selected: final(self).list_selected,
                        verdicts: final(self).verdicts,
                        search_query: final(self).search_query,
                        ..*old(self)
                    })
                    &&& effect is Nothing
                },
                Msg::ToggleLang => {
                    &&& final(self).locale@ == spec_next_locale(old(self).locale@)
                    &&& *final(self) == (AppState { locale: final(self).locale, ..*old(self) })
                    &&& effect matches Effect::SetLocale(l) && l@ == final(self).locale@
                },
                Msg::HardwareTick => {
                    &&& final(self).hardware.arch == old(self).hardware.arch
                    &&& final(self).verdicts_current()
                    &&& final(self).hardware.ram_total_mb <= u64::MAX / BYTES_PER_MB
                    &&& final(self).hardware.ram_available_mb <= u64::MAX / BYTES_PER_MB
                    &&& final(self).probes.nvml() == old(self).probes.nvml()
                    &&& old(self).probes.nvml() is None ==> final(self).hardware.gpu is None
                    &&& exists|elapsed: u128|
                        final(self).clipboard_msg == spec_expire_notice(
                            old(self).clipboard_msg,
                            elapsed,
                        )
                    &&& *final(self) == (AppState {
                        hardware: final(self).hardware,
                        verdicts: final(self).verdicts,
                        clipboard_msg: final(self).clipboard_msg,
                        probes: final(self).probes,
                        ..*old(self)
                    })
                    &&& effect is Nothing
                },
                Msg::OllamaUpdate { running, installed } => {
                    &&& final(self).ollama_status == (if running {
                        OllamaStatus::Running
                    } else {
                        OllamaStatus::Stopped
                    })
                    &&& forall|x: Seq<char>|
                        names_view(final(self).installed@).contains(x) <==> names_view(
                            installed@,
                        ).contains(x)
                    &&& *final(self) == (AppState {
                        ollama_status: final(self).ollama_status,
                        installed: final(self).installed,
                        ..*old(self)
                    })
                    &&& effect is Nothing
                },
                Msg::CatalogLoaded(new_models) => {
                    &&& final(self).catalog_status == CatalogStatus::Ready
                    &&& final(self).models@ == new_models@
                    &&& final(self).refiltered_from(*old(self))
                    &&& *final(self) == (AppState {
                        catalog_status: CatalogStatus::Ready,
                        models: final(self).models,
                        visible: final(self).visible,
                        selected_idx: final(self).selected_idx,
                        list_selected: final(self).list_selected,
                        verdicts: final(self).verdicts,
                        ..*old(self)
                    })
                    &&& effect is Nothing
                },
                Msg::CatalogFailed => *final(self) == (AppState {
                    catalog_status: CatalogStatus::Failed,
                    ..*old(self)
                }) && effect is Nothing,
                Msg::CopyCommand => {
                    &&& *final(self) == *old(self)
                    &&& old(self).visible@.len() == 0 ==> effect is Nothing
                    &&& old(self).visible@.len() > 0 ==> (effect matches Effect::CopyToClipboard(cmd)
                        && cmd@ == "ollama run "@ + old(self).models@[old(
                        self,
                    ).visible@[old(self).selected_idx as int] as int].name@)
                },
            },
    {
        match msg {
            Msg::Quit => {
                self.should_quit = true;
                Effect::Nothing
            },
            Msg::Up => {
                self.move_selection(-1);
                Effect::Nothing
            },
            Msg::Down => {
                self.move_selection(1);
                Effect::Nothing
            },
            Msg::EnterSearch => {
                self.mode = AppMode::Search;
                Effect::Nothing
            },
            Msg::ExitSearch => {
                self.mode = AppMode::Normal;
                Effect::Nothing
            },
            Msg::ClearSearch => {
                self.search_query = String::new();
                self.mode = AppMode::Normal;
                self.refilter();
                Effect::Nothing
            },
            Msg::SearchChar(c) => {
                push_char(&mut self.search_query, c);
                self.refilter();
                Effect::Nothing
            },
            Msg::SearchBackspace => {
                crate::text::pop_char(&mut self.search_query);
                self.refilter();
                Effect::Nothing
            },
            Msg::ToggleLang => {
                let next = next_locale(self.locale.as_str());
                self.locale = String::from_str(next);
                Effect::SetLocale(String::from_str(next))
            },
            Msg::CopyCommand => {
                if self.selected_idx < self.visible.len() {
                    let idx = self.visible[self.selected_idx];
                    let mut command = String::from_str("ollama run ");
                    command.append(self.models[idx].name.as_str());
                    Effect::CopyToClipboard(command)
                } else {
                    Effect::Nothing
                }
            },
            Msg::HardwareTick => {
                self.hardware.refresh(&mut self.probes);
                self.recompute_verdicts();
                // Expire the clipboard notification after 3 seconds.
                let elapsed = match &self.clipboard_msg {
                    Some((_, at)) => elapsed_nanos(at),
                    None => 0,
                };
                let ghost before = self.clipboard_msg;
                self.expire_clipboard_notice(elapsed);
                assert(self.clipboard_msg == spec_expire_notice(before, elapsed));
                Effect::Nothing
            },
            Msg::OllamaUpdate { running, installed } => {
                self.ollama_status = if running {
                    OllamaStatus::Running
                } else {
                    OllamaStatus::Stopped
                };
                self.installed = dedup_names(installed);
                Effect::Nothing
            },
            Msg::CatalogLoaded(new_models) => {
                self.catalog_status = CatalogStatus::Ready;
                // Replace the model list, keeping the current filter query.
                self.models = new_models;
                self.verdicts = none_verdicts(self.models.len());
                self.refilter();
                Effect::Nothing
            },
            Msg::CatalogFailed => {
                self.catalog_status = CatalogStatus::Failed;
                Effect::Nothing
            },
        }
    }
}

// ---------------------------------------------------------------------------
// Laws
// ---------------------------------------------------------------------------

/// A search keeps exactly the models whose text, made of the name, a space,
/// the family, a space and the description, the fuzzy matcher accepts for
/// the query: a model found through its description alone is listed.
pub proof fn law_search_covers_name_family_description(s: AppState)
    requires
        s.filter_consistent(),
        s.search_query@.len() > 0,
    ensures
        forall|i: int|
            0 <= i < s.models@.len() ==> (s.visible@.contains(i as usize) <==> fuzzy_score(
                #[trigger] s.models@[i].name@ + seq![' '] + s.models@[i].family@ + seq![' ']
                    + s.models@[i].description@,
                s.search_query@,
            ) is Some),
{
    let v = s.visible@;
    let models = s.models@;
    let q = s.search_query@;
    assert(models.len() == s.models.len());
    assert(is_ranking(v, models, q));
    assert forall|i: int| 0 <= i < models.len() implies (v.contains(i as usize) <==> fuzzy_score(
        #[trigger] models[i].name@ + seq![' '] + models[i].family@ + seq![' '] + models[i].description@,
        q,
    ) is Some) by {
        assert(model_score(models, q, i) == fuzzy_score(
            models[i].name@ + seq![' '] + models[i].family@ + seq![' '] + models[i].description@,
            q,
        ));
        if v.contains(i as usize) {
            let k = choose|k: int| 0 <= k < v.len() && v[k] == i as usize;
            assert(v[k] < models.len() && model_score(models, q, v[k] as int) is Some);
            assert(v[k] as int == i);
        }
        if model_score(models, q, i) is Some {
            assert(v.contains(i as usize));
        }
    }
}

/// In search mode a plain press of any character key types that character,
/// and the copy command comes only from Control-C, in either mode.
pub proof fn law_typing_in_search_and_copy_needs_control(c: char, event: InputEvent, mode: AppMode)
    ensures
        spec_event_to_msg(
            InputEvent::Key(KeyInput { code: KeyCode::Char(c), ctrl: false, press: true }),
            AppMode::Search,
        ) == Some(Msg::SearchChar(c)),
        spec_event_to_msg(event, mode) matches Some(Msg::CopyCommand) ==> event == InputEvent::Key(
            KeyInput { code: KeyCode::Char('c'), ctrl: true, press: true },
        ),
{
}


/// Moving the selection up and then down (or down and then up) returns to the
/// same state.
pub proof fn law_up_down_inverse(s: AppState)
    requires
        s.wf(),
    ensures
        s.after_move(-1).after_move(1) == s,
        s.after_move(1).after_move(-1) == s,
{
    if s.visible@.len() > 0 {
        let l = s.visible@.len() as int;
        let sel = s.selected_idx as int;
        let a = (sel - 1) % l;
        let b = (sel + 1) % l;
        assert((a + 1) % l == sel && (b - 1) % l == sel) by (nonlinear_arith)
            requires
                0 <= sel < l,
                a == (sel - 1) % l,
                b == (sel + 1) % l,
        {
            if sel == 0 {
                assert(a == l - 1);
            } else {
                assert(a == sel - 1);
            }
            if sel == l - 1 {
                assert(b == 0);
            } else {
                assert(b == sel + 1);
            }
        }
        assert(0 <= a < l && 0 <= b < l) by (nonlinear_arith)
            requires
                l > 0,
                a == (sel - 1) % l,
                b == (sel + 1) % l,
        ;
        assert(s.visible@.len() == s.visible.len());
        assert(l <= usize::MAX);
        let s1 = s.after_move(-1);
        assert(s1.selected_idx as int == a);
        assert(s1.visible == s.visible);
        let s2 = s1.after_move(1);
        assert(s2.selected_idx as int == (a + 1) % l);
        assert(s2.selected_idx == s.selected_idx);
        assert(s2 == s);
        let t1 = s.after_move(1);
        assert(t1.selected_idx as int == b);
        let t2 = t1.after_move(-1);
        assert(t2.selected_idx as int == (b - 1) % l);
        assert(t2 == s);
    }
}

/// The language toggle switches between English and Spanish: toggling twice
/// returns to the starting language.
pub proof fn law_locale_toggle_twice(current: Seq<char>)
    requires
        current == "en"@ || current == "es"@,
    ensures
        spec_next_locale(spec_next_locale(current)) == current,
{
    reveal_strlit("en");
    reveal_strlit("es");
}

proof fn lemma_ranked_before_asymmetric(models: Seq<ModelEntry>, query: Seq<char>, a: usize, b: usize)
    ensures
        ranked_before(models, query, a, b) ==> !ranked_before(models, query, b, a),
        !ranked_before(models, query, a, a),
{
}

proof fn lemma_sorted_unique(v1: Seq<usize>, v2: Seq<usize>, models: Seq<ModelEntry>, query: Seq<char>)
    requires
        forall|x: usize| v1.contains(x) <==> v2.contains(x),
        forall|k: int, l: int|
            0 <= k < l < v1.len() ==> ranked_before(models, query, #[trigger] v1[k], #[trigger] v1[l]),
        forall|k: int, l: int|
            0 <= k < l < v2.len() ==> ranked_before(models, query, #[trigger] v2[k], #[trigger] v2[l]),
    ensures
        v1 == v2,
    decreases v1.len(),
{
    if v1.len() == 0 {
        if v2.len() > 0 {
            assert(v2.contains(v2[0]));
        }
        assert(v1 =~= v2);
    } else {
        assert(v1.contains(v1[0]));
        assert(v2.len() > 0);
        assert(v2.contains(v2[0]));
        let x = v1[0];
        let y = v2[0];
        let j = choose|j: int| 0 <= j < v2.len() && v2[j] == x;
        let i = choose|i: int| 0 <= i < v1.len() && v1[i] == y;
        if x != y {
            assert(j > 0 && i > 0);
            assert(ranked_before(models, query, v2[0], v2[j]));
            assert(ranked_before(models, query, v1[0], v1[i]));
            lemma_ranked_before_asymmetric(models, query, x, y);
            assert(false);
        }
        let r1 = v1.drop_first();
        let r2 = v2.drop_first();
        assert forall|z: usize| r1.contains(z) <==> r2.contains(z) by {
            if r1.contains(z) {
                let k = choose|k: int| 0 <= k < r1.len() && r1[k] == z;
                assert(v1[k + 1] == z);
                assert(ranked_before(models, query, v1[0], v1[k + 1]));
                lemma_ranked_before_asymmetric(models, query, z, z);
                assert(z != x);
                assert(v1.contains(z));
                let m = choose|m: int| 0 <= m < v2.len() && v2[m] == z;
                assert(m != 0);
                assert(r2[m - 1] == z);
            }
            if r2.contains(z) {
                let k = choose|k: int| 0 <= k < r2.len() && r2[k] == z;
                assert(v2[k + 1] == z);
                assert(ranked_before(models, query, v2[0], v2[k + 1]));
                lemma_ranked_before_asymmetric(models, query, z, z);
                assert(z != x);
                assert(v2.contains(z));
                let m = choose|m: int| 0 <= m < v1.len() && v1[m] == z;
                assert(m != 0);
                assert(r1[m - 1] == z);
            }
        }
        assert forall|k: int, l: int| 0 <= k < l < r1.len() implies ranked_before(
            models,
            query,
            #[trigger] r1[k],
            #[trigger] r1[l],
        ) by {
            assert(r1[k] == v1[k + 1] && r1[l] == v1[l + 1]);
        }
        assert forall|k: int, l: int| 0 <= k < l < r2.len() implies ranked_before(
            models,
            query,
            #[trigger] r2[k],
            #[trigger] r2[l],
        ) by {
            assert(r2[k] == v2[k + 1] && r2[l] == v2[l + 1]);
        }
        lemma_sorted_unique(r1, r2, models, query);
        assert(v1 =~= v2) by {
            assert(v1 =~= seq![x] + r1);
            assert(v2 =~= seq![y] + r2);
        }
    }
}

/// The rows a search shows depend only on the models and the query: two
/// views that both list what the query keeps are the same view.
pub proof fn law_filtered_view_unique(
    v1: Seq<usize>,
    v2: Seq<usize>,
    models: Seq<ModelEntry>,
    query: Seq<char>,
)
    requires
        is_filtered_view(v1, models, query),
        is_filtered_view(v2, models, query),
    ensures
        v1 == v2,
{
    if query.len() > 0 {
        assert forall|x: usize| v1.contains(x) <==> v2.contains(x) by {
            if v1.contains(x) {
                let k = choose|k: int| 0 <= k < v1.len() && v1[k] == x;
                assert(v1[k] < models.len() && model_score(models, query, v1[k] as int) is Some);
                assert(model_score(models, query, x as int) is Some);
            }
            if v2.contains(x) {
                let k = choose|k: int| 0 <= k < v2.len() && v2[k] == x;
                assert(v2[k] < models.len() && model_score(models, query, v2[k] as int) is Some);
                assert(model_score(models, query, x as int) is Some);
            }
        }
        lemma_sorted_unique(v1, v2, models, query);
    }
}

/// Typing a character into the search and erasing it again brings back the
/// same query and the same visible rows.
pub proof fn law_type_then_erase(a: AppState, b: AppState, c: AppState, ch: char)
    requires
        a.filter_consistent(),
        b.search_query@ == a.search_query@.push(ch),
        b.models == a.models,
        b.refiltered_from(a),
        c.search_query@ == (if b.search_query@.len() > 0 {
            b.search_query@.drop_last()
        } else {
            b.search_query@
        }),
        c.models == b.models,
        c.refiltered_from(b),
    ensures
        c.search_query@ == a.search_query@,
        c.visible@ == a.visible@,
{
    assert(a.search_query@.push(ch).drop_last() =~= a.search_query@);
    law_filtered_view_unique(c.visible@, a.visible@, a.models@, a.search_query@);
}

/// `n` missing verdicts.
fn none_verdicts(n: usize) -> (v: Vec<Option<Verdict>>)
    ensures
        v@ == Seq::new(n as nat, |i: int| None::<Verdict>),
{
    let mut v: Vec<Option<Verdict>> = Vec::new();
    let mut i: usize = 0;
    while i < n
        invariant
            i <= n,
            v@ == Seq::new(i as nat, |k: int| None::<Verdict>),
        decreases n - i,
    {
        v.push(None);
        i += 1;
    }
    v
}

} // verus!
