use llama_specs::app::{
    catalog_msg, clipboard_notice, clipboard_notice_expired, event_to_msg, next_locale, AppMode, AppState, CatalogStatus, Effect, InputEvent, KeyCode,
    KeyInput, Msg, OllamaStatus,
};
use llama_specs::models::ModelEntry;

fn entry(name: &str, family: &str, description: &str, param_count: u64) -> ModelEntry {
    ModelEntry {
        name: name.to_string(),
        param_count,
        family: family.to_string(),
        description: description.to_string(),
    }
}

fn catalogue() -> Vec<ModelEntry> {
    vec![
        entry("llama3:8b", "Llama 3", "Meta's Llama 3", 8_000_000_000),
        entry("mistral:7b", "Mistral", "Mistral AI's 7B model", 7_000_000_000),
        entry("gemma:2b", "Gemma", "Google's Gemma", 2_000_000_000),
        entry("phi3:mini", "Phi-3", "Microsoft's small model", 3_800_000_000),
    ]
}

fn state() -> AppState {
    AppState::new(catalogue(), "x86_64")
}

fn key(code: KeyCode) -> InputEvent {
    InputEvent::Key(KeyInput { code, ctrl: false, press: true })
}

fn ctrl(c: char) -> InputEvent {
    InputEvent::Key(KeyInput { code: KeyCode::Char(c), ctrl: true, press: true })
}

fn is_nothing(e: &Effect) -> bool {
    matches!(e, Effect::Nothing)
}

#[test]
fn new_state_lists_everything() {
    let s = state();
    assert_eq!(s.visible, vec![0, 1, 2, 3]);
    assert_eq!(s.selected_idx, 0);
    assert_eq!(s.list_selected, Some(0));
    assert_eq!(s.verdicts, vec![None; 4]);
    assert_eq!(s.ollama_status, OllamaStatus::Checking);
    assert_eq!(s.catalog_status, CatalogStatus::Loading);
    assert_eq!(s.mode, AppMode::Normal);
    assert!(!s.should_quit);
    assert!(s.clipboard_msg.is_none());
}

#[test]
fn empty_catalogue_selects_nothing() {
    let mut s = AppState::new(Vec::new(), "x86_64");
    assert_eq!(s.list_selected, None);
    s.update(Msg::Down);
    assert_eq!(s.selected_idx, 0);
    assert_eq!(s.list_selected, None);
    assert!(is_nothing(&s.update(Msg::CopyCommand)));
}

#[test]
fn navigation_wraps_around() {
    let mut s = state();
    s.update(Msg::Up);
    assert_eq!(s.selected_idx, 3);
    assert_eq!(s.list_selected, Some(3));
    s.update(Msg::Down);
    assert_eq!(s.selected_idx, 0);
    s.update(Msg::Down);
    s.update(Msg::Down);
    assert_eq!(s.selected_idx, 2);
    s.update(Msg::Up);
    assert_eq!(s.selected_idx, 1);
}

#[test]
fn quit_sets_the_flag() {
    let mut s = state();
    assert!(is_nothing(&s.update(Msg::Quit)));
    assert!(s.should_quit);
}

#[test]
fn search_filters_and_clear_restores() {
    let mut s = state();
    s.update(Msg::EnterSearch);
    assert_eq!(s.mode, AppMode::Search);
    s.update(Msg::Down);
    s.update(Msg::Down);
    s.update(Msg::Down);
    for c in "gemma".chars() {
        s.update(Msg::SearchChar(c));
    }
    assert_eq!(s.search_query, "gemma");
    assert_eq!(s.visible, vec![2]);
    // The selection is clamped to the only visible row.
    assert_eq!(s.selected_idx, 0);
    assert_eq!(s.list_selected, Some(0));
    assert_eq!(s.selected_model().map(|m| m.name.as_str()), Some("gemma:2b"));
    // Verdicts are computed for every model, not only the visible ones.
    assert!(s.verdicts.iter().all(|v| v.is_some()));
    s.update(Msg::ExitSearch);
    assert_eq!(s.mode, AppMode::Normal);
    assert_eq!(s.search_query, "gemma");
    s.update(Msg::EnterSearch);
    s.update(Msg::ClearSearch);
    assert_eq!(s.mode, AppMode::Normal);
    assert_eq!(s.search_query, "");
    assert_eq!(s.visible, vec![0, 1, 2, 3]);
}

#[test]
fn search_without_match_shows_nothing() {
    let mut s = state();
    for c in "zzzz".chars() {
        s.update(Msg::SearchChar(c));
    }
    assert!(s.visible.is_empty());
    assert_eq!(s.selected_idx, 0);
    assert_eq!(s.list_selected, None);
    assert!(s.selected_model().is_none());
    assert!(s.selected_compat().is_none());
}

#[test]
fn typing_then_erasing_restores_the_rows() {
    let mut s = state();
    s.update(Msg::SearchChar('m'));
    let rows = s.visible.clone();
    s.update(Msg::SearchChar('i'));
    s.update(Msg::SearchBackspace);
    assert_eq!(s.search_query, "m");
    assert_eq!(s.visible, rows);
    s.update(Msg::SearchBackspace);
    s.update(Msg::SearchBackspace);
    assert_eq!(s.search_query, "");
    assert_eq!(s.visible, vec![0, 1, 2, 3]);
}

#[test]
fn ranking_puts_better_matches_first() {
    let mut s = state();
    for c in "ma".chars() {
        s.update(Msg::SearchChar(c));
    }
    // Every listed index is a distinct model.
    let mut seen = s.visible.clone();
    seen.sort();
    seen.dedup();
    assert_eq!(seen.len(), s.visible.len());
    assert!(s.visible.iter().all(|&i| i < 4));
}

#[test]
fn ollama_update_sets_status_and_installed_once() {
    let mut s = state();
    s.update(Msg::OllamaUpdate {
        running: true,
        installed: vec!["llama3:8b".to_string(), "gemma:2b".to_string(), "llama3:8b".to_string()],
    });
    assert_eq!(s.ollama_status, OllamaStatus::Running);
    assert_eq!(s.installed.len(), 2);
    assert!(s.is_installed("llama3:8b"));
    assert!(s.is_installed("gemma:2b"));
    assert!(!s.is_installed("mistral:7b"));
    s.update(Msg::OllamaUpdate { running: false, installed: Vec::new() });
    assert_eq!(s.ollama_status, OllamaStatus::Stopped);
    assert!(s.installed.is_empty());
}

#[test]
fn catalog_messages() {
    let mut s = state();
    s.update(Msg::CatalogFailed);
    assert_eq!(s.catalog_status, CatalogStatus::Failed);
    s.update(Msg::Up);
    assert_eq!(s.selected_idx, 3);
    s.update(Msg::CatalogLoaded(vec![entry("qwen2:7b", "Qwen2", "", 7_000_000_000)]));
    assert_eq!(s.catalog_status, CatalogStatus::Ready);
    assert_eq!(s.models.len(), 1);
    assert_eq!(s.visible, vec![0]);
    assert_eq!(s.selected_idx, 0);
    assert_eq!(s.verdicts.len(), 1);
    assert!(s.verdicts[0].is_some());
}

#[test]
fn catalog_keeps_the_query() {
    let mut s = state();
    for c in "qwen".chars() {
        s.update(Msg::SearchChar(c));
    }
    assert!(s.visible.is_empty());
    s.update(Msg::CatalogLoaded(vec![
        entry("llama3:8b", "Llama 3", "", 8_000_000_000),
        entry("qwen2:7b", "Qwen2", "", 7_000_000_000),
    ]));
    assert_eq!(s.search_query, "qwen");
    assert_eq!(s.visible, vec![1]);
}

#[test]
fn copy_command_names_the_selected_model() {
    let mut s = state();
    s.update(Msg::Down);
    match s.update(Msg::CopyCommand) {
        Effect::CopyToClipboard(cmd) => assert_eq!(cmd, "ollama run mistral:7b"),
        _ => panic!("expected a command"),
    }
    s.show_clipboard_message("Copied!  ollama run mistral:7b".to_string());
    assert_eq!(
        s.clipboard_msg.as_ref().map(|(m, _)| m.as_str()),
        Some("Copied!  ollama run mistral:7b")
    );
    // A hardware tick right away keeps the notice.
    s.update(Msg::HardwareTick);
    assert!(s.clipboard_msg.is_some());
    assert!(s.verdicts.iter().all(|v| v.is_some()));
}

#[test]
fn toggle_lang_switches_locale() {
    let mut s = state();
    s.locale = "en".to_string();
    let before = s.search_query.clone();
    match s.update(Msg::ToggleLang) {
        Effect::SetLocale(l) => assert_eq!(l, "es"),
        _ => panic!("expected a locale switch"),
    }
    assert_eq!(s.locale, "es");
    match s.update(Msg::ToggleLang) {
        Effect::SetLocale(l) => assert_eq!(l, "en"),
        _ => panic!("expected a locale switch"),
    }
    assert_eq!(s.locale, "en");
    assert_eq!(s.search_query, before);
    s.locale = "fr".to_string();
    s.update(Msg::ToggleLang);
    assert_eq!(s.locale, "en");
}

#[test]
fn next_locale_table() {
    assert_eq!(next_locale("en"), "es");
    assert_eq!(next_locale("es"), "en");
    assert_eq!(next_locale("fr"), "en");
    assert_eq!(next_locale(next_locale("en")), "en");
}

fn msg_name(m: Option<Msg>) -> String {
    match m {
        None => "none".to_string(),
        Some(Msg::Up) => "up".to_string(),
        Some(Msg::Down) => "down".to_string(),
        Some(Msg::EnterSearch) => "enter".to_string(),
        Some(Msg::ExitSearch) => "exit".to_string(),
        Some(Msg::SearchChar(c)) => format!("char {c}"),
        Some(Msg::SearchBackspace) => "backspace".to_string(),
        Some(Msg::ClearSearch) => "clear".to_string(),
        Some(Msg::ToggleLang) => "lang".to_string(),
        Some(Msg::CopyCommand) => "copy".to_string(),
        Some(Msg::Quit) => "quit".to_string(),
        Some(_) => "other".to_string(),
    }
}

#[test]
fn key_bindings_in_normal_mode() {
    let n = AppMode::Normal;
    assert_eq!(msg_name(event_to_msg(&key(KeyCode::Char('q')), n)), "quit");
    assert_eq!(msg_name(event_to_msg(&key(KeyCode::Char('Q')), n)), "quit");
    assert_eq!(msg_name(event_to_msg(&ctrl('c'), n)), "copy");
    assert_eq!(msg_name(event_to_msg(&key(KeyCode::Char('c')), n)), "none");
    assert_eq!(msg_name(event_to_msg(&key(KeyCode::Char('/')), n)), "enter");
    assert_eq!(msg_name(event_to_msg(&key(KeyCode::Tab), n)), "lang");
    assert_eq!(msg_name(event_to_msg(&key(KeyCode::Up), n)), "up");
    assert_eq!(msg_name(event_to_msg(&key(KeyCode::Char('k')), n)), "up");
    assert_eq!(msg_name(event_to_msg(&key(KeyCode::Down), n)), "down");
    assert_eq!(msg_name(event_to_msg(&key(KeyCode::Char('j')), n)), "down");
    assert_eq!(msg_name(event_to_msg(&key(KeyCode::Esc), n)), "none");
    assert_eq!(msg_name(event_to_msg(&InputEvent::Other, n)), "none");
    let release = InputEvent::Key(KeyInput { code: KeyCode::Char('q'), ctrl: false, press: false });
    assert_eq!(msg_name(event_to_msg(&release, n)), "none");
}

#[test]
fn key_bindings_in_search_mode() {
    let s = AppMode::Search;
    assert_eq!(msg_name(event_to_msg(&key(KeyCode::Esc), s)), "clear");
    assert_eq!(msg_name(event_to_msg(&key(KeyCode::Enter), s)), "exit");
    assert_eq!(msg_name(event_to_msg(&key(KeyCode::Backspace), s)), "backspace");
    assert_eq!(msg_name(event_to_msg(&ctrl('c'), s)), "copy");
    assert_eq!(msg_name(event_to_msg(&key(KeyCode::Up), s)), "up");
    assert_eq!(msg_name(event_to_msg(&key(KeyCode::Down), s)), "down");
    assert_eq!(msg_name(event_to_msg(&key(KeyCode::Char('q')), s)), "char q");
    assert_eq!(msg_name(event_to_msg(&key(KeyCode::Char('k')), s)), "char k");
    assert_eq!(msg_name(event_to_msg(&key(KeyCode::Tab), s)), "none");
}

#[test]
fn clipboard_notice_lasts_three_seconds() {
    assert!(!clipboard_notice_expired(0));
    assert!(!clipboard_notice_expired(3_000_000_000));
    assert!(clipboard_notice_expired(3_000_000_001));
}

#[test]
fn catalog_outcome_becomes_a_message() {
    let models = catalogue();
    match catalog_msg(Ok(models.clone())) {
        Msg::CatalogLoaded(m) => assert_eq!(m.len(), models.len()),
        _ => panic!("expected the loaded catalogue"),
    }
    assert!(matches!(catalog_msg(Ok(Vec::new())), Msg::CatalogFailed));
    assert!(matches!(catalog_msg(Err("Network error".to_string())), Msg::CatalogFailed));
}

#[test]
fn clipboard_notice_ends_with_the_command() {
    assert_eq!(
        clipboard_notice(true, "ollama run mistral:7b", "Copied!", "Clipboard unavailable"),
        "Copied!  ollama run mistral:7b"
    );
    assert_eq!(
        clipboard_notice(false, "ollama run mistral:7b", "Copied!", "Clipboard unavailable"),
        "Clipboard unavailable"
    );
}

#[test]
fn clipboard_notice_expires_after_three_seconds() {
    let mut s = state();
    s.expire_clipboard_notice(10_000_000_000);
    assert!(s.clipboard_msg.is_none());
    s.show_clipboard_message("Copied!".to_string());
    s.expire_clipboard_notice(3_000_000_000);
    assert!(s.clipboard_msg.is_some());
    s.expire_clipboard_notice(3_000_000_001);
    assert!(s.clipboard_msg.is_none());
}
