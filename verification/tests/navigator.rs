use msailor::nav::{render_model, Effect, Key, Mode, NavState};
use msailor::dispatch::{dispatch_item, CommandId, MenuAction};
use msailor::menu::generate_command_menu_content;

fn items(names: &[&str]) -> Vec<String> {
    names.iter().map(|s| s.to_string()).collect()
}

fn state(master: &[&str]) -> NavState {
    NavState::init(items(master))
}

#[test]
fn test_init_selects_last() {
    let s = state(&["a", "b", "c"]);
    assert_eq!(s.mode, Mode::Normal);
    assert_eq!(s.selected, 2);
    assert_eq!(s.filtered_items, items(&["a", "b", "c"]));
    assert_eq!(s.input_buffer, "");
}

#[test]
fn test_run_app_exits_on_q() {
    let mut s = state(&["a", "b"]);
    let eff = s.handle_key(Key::Char('q'));
    assert_eq!(eff, Effect::Quit);
}

#[test]
fn test_normal_j_k_move_saturating() {
    let mut s = state(&["a", "b", "c"]);
    s.selected = 0;
    assert_eq!(s.handle_key(Key::Char('j')), Effect::Nothing);
    assert_eq!(s.selected, 1);
    s.handle_key(Key::Char('j'));
    s.handle_key(Key::Char('j'));
    assert_eq!(s.selected, 2, "j saturates at the last index");
    s.handle_key(Key::Char('k'));
    assert_eq!(s.selected, 1);
    s.handle_key(Key::Char('k'));
    s.handle_key(Key::Char('k'));
    assert_eq!(s.selected, 0, "k saturates at zero");
}

#[test]
fn test_normal_g_and_shift_g_jump() {
    let mut s = state(&["a", "b", "c"]);
    s.handle_key(Key::Char('g'));
    assert_eq!(s.selected, 0);
    s.handle_key(Key::Char('G'));
    assert_eq!(s.selected, 2);
}

#[test]
fn test_filter_scenario_banana() {
    // items = ["Apple", "Banana", "Cherry"], Filter mode, type "an"
    let mut s = state(&["Apple", "Banana", "Cherry"]);
    s.handle_key(Key::Char('/'));
    assert_eq!(s.mode, Mode::Filter);
    assert_eq!(s.input_buffer, "");
    s.handle_key(Key::Char('a'));
    s.handle_key(Key::Char('n'));
    assert_eq!(s.filtered_items, items(&["Banana"]));
    assert_eq!(s.selected, 0);
}

#[test]
fn test_filter_backspace_recomputes() {
    let mut s = state(&["Apple", "Banana", "Cherry"]);
    s.handle_key(Key::Char('/'));
    s.handle_key(Key::Char('x'));
    assert!(s.filtered_items.is_empty());
    s.handle_key(Key::Backspace);
    assert_eq!(s.filtered_items, items(&["Apple", "Banana", "Cherry"]));
}

#[test]
fn test_filter_enter_stages_selection() {
    let mut s = state(&["Apple", "Banana", "Cherry"]);
    s.handle_key(Key::Char('/'));
    s.handle_key(Key::Char('a'));
    s.handle_key(Key::Char('n'));
    let eff = s.handle_key(Key::Enter);
    assert_eq!(eff, Effect::Nothing, "filter commit does not dispatch yet");
    assert_eq!(s.mode, Mode::Normal);
    assert_eq!(s.input_buffer, "Banana");
    assert_eq!(s.filtered_items, items(&["Banana"]), "the filtered view stays");
}

#[test]
fn test_filter_esc_restores_master() {
    let mut s = state(&["Apple", "Banana"]);
    s.handle_key(Key::Char('/'));
    s.handle_key(Key::Char('a'));
    s.handle_key(Key::Char('n'));
    s.handle_key(Key::Esc);
    assert_eq!(s.mode, Mode::Normal);
    assert_eq!(s.input_buffer, "");
    assert_eq!(s.filtered_items, items(&["Apple", "Banana"]));
}

#[test]
fn test_two_step_commit_scenario() {
    // items = ["[list] todo", "[config]"], Normal mode, selected 0
    let master = items(&["[list] todo", "[config]"]);
    let mut s = NavState {
        mode: Mode::Normal,
        master_items: master.clone(),
        filtered_items: master.clone(),
        input_buffer: String::new(),
        selected: 0,
    };
    let eff1 = s.handle_key(Key::Enter);
    assert_eq!(eff1, Effect::Nothing, "the first confirmation only stages");
    assert_eq!(s.input_buffer, "[list] todo");
    let eff2 = s.handle_key(Key::Enter);
    assert_eq!(eff2, Effect::Dispatch("[list] todo".to_string()));
    assert_eq!(s.filtered_items, master, "the view is reset to the master list");
    assert_eq!(s.input_buffer, "");
    assert_eq!(
        dispatch_item("[list] todo"),
        MenuAction::OpenList("todo".to_string()),
        "the dispatched item's tag routes to the list handler"
    );
}

#[test]
fn test_command_mode_entry_scenario() {
    // Normal mode, press ':'
    let mut s = state(&["x", "y"]);
    let eff = s.handle_key(Key::Char(':'));
    assert_eq!(eff, Effect::Nothing);
    assert_eq!(s.mode, Mode::Command);
    assert_eq!(s.filtered_items, generate_command_menu_content());
    assert_eq!(s.selected, 0);
    assert_eq!(s.input_buffer, "");
}

#[test]
fn test_command_typed_and_run() {
    let mut s = state(&["x"]);
    s.handle_key(Key::Char(':'));
    for c in "config-edit".chars() {
        s.handle_key(Key::Char(c));
    }
    let eff = s.handle_key(Key::Enter);
    assert_eq!(eff, Effect::Run(CommandId::ConfigEdit));
    assert_eq!(s.mode, Mode::Normal);
    assert_eq!(s.filtered_items, items(&["x"]));
}

#[test]
fn test_command_unknown_name_is_ignored() {
    let mut s = state(&["x"]);
    s.handle_key(Key::Char(':'));
    s.handle_key(Key::Char('z'));
    let eff = s.handle_key(Key::Enter);
    assert_eq!(eff, Effect::Nothing);
    assert_eq!(s.mode, Mode::Normal);
}

#[test]
fn test_command_backspace_edits_buffer() {
    let mut s = state(&["x"]);
    s.handle_key(Key::Char(':'));
    s.handle_key(Key::Char('a'));
    s.handle_key(Key::Char('b'));
    s.handle_key(Key::Backspace);
    assert_eq!(s.input_buffer, "a");
}

#[test]
fn test_help_mode_enters_and_esc_leaves() {
    let mut s = state(&["x", "y"]);
    s.handle_key(Key::Char('?'));
    assert_eq!(s.mode, Mode::Help);
    assert_eq!(s.selected, 0);
    assert!(!s.filtered_items.is_empty());
    s.handle_key(Key::Char('q'));
    assert_eq!(s.mode, Mode::Help, "help mode leaves on Esc, not on q");
    s.handle_key(Key::Esc);
    assert_eq!(s.mode, Mode::Normal);
    assert_eq!(s.filtered_items, items(&["x", "y"]));
}

#[test]
fn test_normal_esc_resets_view_and_selection() {
    let mut s = state(&["a", "b", "c"]);
    s.handle_key(Key::Char('/'));
    s.handle_key(Key::Char('b'));
    s.handle_key(Key::Enter);
    s.handle_key(Key::Esc);
    assert_eq!(s.filtered_items, items(&["a", "b", "c"]));
    assert_eq!(s.selected, 2);
    assert_eq!(s.input_buffer, "");
}

#[test]
fn test_edit_key_reports_selected_item() {
    let mut s = state(&["[config]", "[history]"]);
    s.selected = 1;
    let eff = s.handle_key(Key::Char('e'));
    assert_eq!(eff, Effect::Edit("[history]".to_string()));
    assert_eq!(s.mode, Mode::Normal, "editing does not change the mode");
}

#[test]
fn test_empty_master_noops() {
    // empty master list: j / k / Enter are no-ops, no panic
    let mut s = state(&[]);
    assert_eq!(s.selected, 0);
    assert_eq!(s.handle_key(Key::Char('j')), Effect::Nothing);
    assert_eq!(s.handle_key(Key::Char('k')), Effect::Nothing);
    assert_eq!(s.handle_key(Key::Enter), Effect::Nothing);
    assert_eq!(s.handle_key(Key::Char('g')), Effect::Nothing);
    assert_eq!(s.handle_key(Key::Char('G')), Effect::Nothing);
    assert_eq!(s.handle_key(Key::Char('e')), Effect::Nothing);
    assert_eq!(s.selected, 0);
    assert!(s.filtered_items.is_empty());
}

#[test]
fn test_empty_master_filter_no_panic() {
    let mut s = state(&[]);
    s.handle_key(Key::Char('/'));
    s.handle_key(Key::Char('a'));
    s.handle_key(Key::Enter);
    assert_eq!(s.mode, Mode::Normal);
    assert_eq!(s.selected, 0);
}

#[test]
fn test_other_keys_are_ignored() {
    let mut s = state(&["a"]);
    let before_sel = s.selected;
    assert_eq!(s.handle_key(Key::Tab), Effect::Nothing);
    assert_eq!(s.handle_key(Key::Other), Effect::Nothing);
    assert_eq!(s.selected, before_sel);
    assert_eq!(s.mode, Mode::Normal);
}

#[test]
fn test_render_model_fields() {
    let mut s = state(&["a", "b"]);
    s.handle_key(Key::Char('/'));
    s.handle_key(Key::Char('a'));
    let r = render_model(&s);
    assert_eq!(r.mode_label, "FILTER");
    assert_eq!(r.input_buffer, "a");
    assert_eq!(r.visible_items, items(&["a"]));
    assert_eq!(r.highlighted_index, Some(0));
}

#[test]
fn test_render_model_empty_view() {
    let s = state(&[]);
    let r = render_model(&s);
    assert_eq!(r.mode_label, "NORMAL");
    assert_eq!(r.highlighted_index, None);
    assert!(r.visible_items.is_empty());
}
