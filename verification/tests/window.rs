use pterm::label::Env;
use pterm::registry::Removal;
use pterm::store::SpawnState;
use pterm::window::spawn_outcome;
use pterm::window::tab_for_key;
use pterm::window::window_resized;
use pterm::window::Allocation;
use pterm::window::SpawnReport;
use pterm::window::KeyAction;
use pterm::window::TermImpl;
use pterm::window::TitleChange;

fn env() -> Env {
    Env { user: "alice".to_string(), host: "h".to_string(), cur_dir: "/tmp".to_string() }
}

fn window_with(handles: &[u64]) -> TermImpl {
    let mut w = TermImpl::new(env());
    for h in handles {
        w.add_new_tab(*h);
    }
    w
}

#[test]
fn new_window_has_neither_tab_nor_session() {
    let w = TermImpl::new(env());
    assert_eq!(w.notebook().len(), 0);
    assert_eq!(w.page_meta().len(), 0);
    assert_eq!(w.active_terminal(), None);
    assert_eq!(w.new_tab_cwd(), None);
}

#[test]
fn new_tab_is_pending_last_and_active() {
    let mut w = TermImpl::new(env());
    assert_eq!(w.add_new_tab(11), Some(0));
    assert_eq!(w.add_new_tab(22), Some(1));
    assert_eq!(w.notebook().len(), 2);
    assert_eq!(w.page_meta().len(), 2);
    assert_eq!(w.notebook().active(), Some(1));
    assert_eq!(w.active_terminal(), Some(22));
    assert_eq!(w.page_meta().get(22).unwrap().spawn_state, SpawnState::Pending);
    assert_eq!(w.notebook().slot(1).unwrap().label_text, "1. alice@h:/tmp");
}

#[test]
fn a_known_session_gets_no_second_tab() {
    let mut w = window_with(&[1, 2]);
    w.spawn_finished(1, 500, false);
    w.switch_page(0);
    assert_eq!(w.add_new_tab(1), None);
    assert_eq!(w.notebook().len(), 2);
    assert_eq!(w.page_meta().pid(1), Some(500));
    assert_eq!(w.notebook().active(), Some(0));
}

#[test]
fn spawn_success_stores_the_pid() {
    let mut w = window_with(&[1]);
    assert_eq!(w.spawn_finished(1, 321, false), SpawnReport::Running);
    let m = w.page_meta().get(1).unwrap();
    assert_eq!(m.pid, Some(321));
    assert_eq!(m.spawn_state, SpawnState::Running);
    assert_eq!(w.notebook().len(), 1);
    assert_eq!(w.get_terminal_cwd(1), Some("/proc/321/cwd".to_string()));
}

#[test]
fn spawn_success_without_record_leaves_the_window() {
    let mut w = window_with(&[1]);
    assert_eq!(w.spawn_finished(2, 321, false), SpawnReport::Orphaned { pid: 321 });
    assert_eq!(w.page_meta().len(), 1);
    assert_eq!(w.notebook().len(), 1);
}

#[test]
fn negative_pid_fails_and_removes_the_session() {
    let mut w = window_with(&[1, 2]);
    assert_eq!(spawn_outcome(-1, false), SpawnState::Failed);
    let out = w.spawn_finished(2, -1, false);
    assert_eq!(out, SpawnReport::Failed(Removal::Removed { position: 1, close_window: false }));
    assert_eq!(w.notebook().position_of(2), None);
    assert!(!w.page_meta().contains(2));
    assert_eq!(w.notebook().len(), 1);
    assert_eq!(w.page_meta().len(), 1);
    assert_eq!(w.title_changed(2, "sh"), TitleChange::Ignored);
}

#[test]
fn spawn_error_removes_the_session_whatever_the_pid() {
    let mut w = window_with(&[1]);
    assert_eq!(spawn_outcome(10, true), SpawnState::Failed);
    let out = w.spawn_finished(1, 10, true);
    assert_eq!(out, SpawnReport::Failed(Removal::Removed { position: 0, close_window: true }));
    assert!(w.notebook().is_empty());
    assert_eq!(w.page_meta().len(), 0);
}

#[test]
fn spawn_outcome_runs_from_pid_zero() {
    assert_eq!(spawn_outcome(0, false), SpawnState::Running);
    assert_eq!(spawn_outcome(i32::MAX, false), SpawnState::Running);
    assert_eq!(spawn_outcome(i32::MIN, false), SpawnState::Failed);
}

#[test]
fn failed_spawn_of_one_session_leaves_the_others() {
    let mut w = window_with(&[1, 2, 3]);
    w.spawn_finished(1, 100, false);
    w.spawn_finished(3, 300, false);
    w.spawn_finished(2, -1, false);
    assert_eq!(w.notebook().handle_at(0), Some(1));
    assert_eq!(w.notebook().handle_at(1), Some(3));
    assert_eq!(w.page_meta().pid(1), Some(100));
    assert_eq!(w.page_meta().pid(3), Some(300));
    assert_eq!(w.notebook().slot(1).unwrap().label_text, "1. alice@h:/tmp");
}

#[test]
fn process_exit_removes_tab_and_record() {
    let mut w = window_with(&[1, 2]);
    w.spawn_finished(1, 100, false);
    assert_eq!(w.remove_tab(1), Removal::Removed { position: 0, close_window: false });
    assert!(!w.page_meta().contains(1));
    assert_eq!(w.notebook().len(), 1);
    assert_eq!(w.page_meta().len(), 1);
    assert_eq!(w.notebook().slot(0).unwrap().handle, 2);
    assert_eq!(w.notebook().slot(0).unwrap().position, 0);
}

#[test]
fn closing_the_only_session_closes_the_window_once() {
    let mut w = window_with(&[5]);
    assert_eq!(w.remove_tab(5), Removal::Removed { position: 0, close_window: true });
    assert_eq!(w.remove_tab(5), Removal::Absent);
    assert_eq!(w.notebook().len(), 0);
    assert_eq!(w.page_meta().len(), 0);
}

#[test]
fn closing_twice_is_closing_once() {
    let mut w = window_with(&[1, 2, 3]);
    assert_eq!(w.remove_tab(2), Removal::Removed { position: 1, close_window: false });
    assert_eq!(w.remove_tab(2), Removal::Absent);
    assert_eq!(w.notebook().len(), 2);
    assert_eq!(w.page_meta().len(), 2);
    assert_eq!(w.notebook().active(), Some(1));
}

#[test]
fn title_of_a_running_session_relabels_its_tab() {
    let mut w = window_with(&[1, 2]);
    w.spawn_finished(1, 100, false);
    w.spawn_finished(2, 200, false);
    let out = w.title_changed(2, "vim");
    assert_eq!(out, TitleChange::Relabelled { position: 1, window_title: true });
    assert_eq!(w.notebook().slot(1).unwrap().label_text, "1. vim");
    let out = w.title_changed(1, "top");
    assert_eq!(out, TitleChange::Relabelled { position: 0, window_title: false });
    assert_eq!(w.notebook().slot(0).unwrap().label_text, "0. top");
}

#[test]
fn title_of_a_pending_or_unknown_session_is_ignored() {
    let mut w = window_with(&[1]);
    assert_eq!(w.title_changed(1, "vim"), TitleChange::Ignored);
    assert_eq!(w.notebook().slot(0).unwrap().label_text, "0. alice@h:/tmp");
    assert_eq!(w.notebook().slot(0).unwrap().title, None);
    assert_eq!(w.title_changed(9, "vim"), TitleChange::Ignored);
}

#[test]
fn titles_survive_renumbering() {
    let mut w = window_with(&[1, 2, 3]);
    w.spawn_finished(1, 100, false);
    w.spawn_finished(2, 200, false);
    w.spawn_finished(3, 300, false);
    w.title_changed(1, "a");
    w.title_changed(3, "c");
    w.remove_tab(2);
    assert_eq!(w.notebook().slot(0).unwrap().label_text, "0. a");
    assert_eq!(w.notebook().slot(1).unwrap().label_text, "1. c");
    assert_eq!(w.notebook().slot(1).unwrap().position, 1);
}

#[test]
fn switching_gives_the_window_its_title() {
    let mut w = window_with(&[1, 2]);
    w.spawn_finished(1, 100, false);
    w.title_changed(1, "vim");
    assert_eq!(w.switch_page(0), Some("vim".to_string()));
    assert_eq!(w.notebook().active(), Some(0));
    assert_eq!(w.switch_page(1), Some("1. alice@h:/tmp".to_string()));
    assert_eq!(w.notebook().active(), Some(1));
}

#[test]
fn switching_out_of_range_changes_nothing() {
    let mut w = window_with(&[1, 2]);
    w.switch_page(0);
    assert_eq!(w.switch_page(2), None);
    assert_eq!(w.notebook().active(), Some(0));
    assert_eq!(w.switch_page(8), None);
    assert_eq!(w.notebook().active(), Some(0));
}

#[test]
fn alt_digit_switches_to_the_tab_before_it() {
    let mut w = window_with(&[1, 2, 3]);
    let out = w.key_pressed(true, Some('1'));
    assert!(out.handled);
    assert_eq!(out.window_title, Some("0. alice@h:/tmp".to_string()));
    assert_eq!(w.notebook().active(), Some(0));
    let out = w.key_pressed(true, Some('3'));
    assert!(out.handled);
    assert_eq!(w.notebook().active(), Some(2));
}

#[test]
fn alt_digit_behind_the_tabs_is_taken_and_changes_nothing() {
    let mut w = window_with(&[1, 2]);
    let out = w.key_pressed(true, Some('9'));
    assert!(out.handled);
    assert_eq!(out.window_title, None);
    assert_eq!(w.notebook().active(), Some(1));
    let out = w.key_pressed(true, Some('0'));
    assert!(out.handled);
    assert_eq!(out.window_title, None);
    assert_eq!(w.notebook().active(), Some(1));
}

#[test]
fn other_keys_pass() {
    let mut w = window_with(&[1, 2]);
    let out = w.key_pressed(false, Some('1'));
    assert!(!out.handled);
    assert_eq!(w.notebook().active(), Some(1));
    let out = w.key_pressed(true, Some('t'));
    assert!(!out.handled);
    let out = w.key_pressed(true, None);
    assert!(!out.handled);
    assert_eq!(w.notebook().active(), Some(1));
}

#[test]
fn key_actions() {
    assert_eq!(tab_for_key(true, Some('1')), KeyAction::Switch(0));
    assert_eq!(tab_for_key(true, Some('9')), KeyAction::Switch(8));
    assert_eq!(tab_for_key(true, Some('0')), KeyAction::Consume);
    assert_eq!(tab_for_key(true, Some('a')), KeyAction::Pass);
    assert_eq!(tab_for_key(true, Some('/')), KeyAction::Pass);
    assert_eq!(tab_for_key(true, Some(':')), KeyAction::Pass);
    assert_eq!(tab_for_key(false, Some('5')), KeyAction::Pass);
    assert_eq!(tab_for_key(false, None), KeyAction::Pass);
}

#[test]
fn new_tab_starts_where_the_active_session_is() {
    let mut w = window_with(&[1, 2]);
    assert_eq!(w.new_tab_cwd(), None);
    w.spawn_finished(2, 200, false);
    assert_eq!(w.new_tab_cwd(), Some("/proc/200/cwd".to_string()));
    w.switch_page(0);
    assert_eq!(w.new_tab_cwd(), None);
    assert_eq!(w.get_terminal_cwd(2), Some("/proc/200/cwd".to_string()));
    assert_eq!(w.get_terminal_cwd(1), None);
    assert_eq!(w.get_terminal_cwd(3), None);
}

#[test]
fn window_label_uses_the_window_surroundings() {
    let w = TermImpl::new(env());
    assert_eq!(w.page_label(2, None), "2. alice@h:/tmp");
    assert_eq!(w.page_label(1, Some("vim")), "1. vim");
}

#[test]
fn resize_lays_the_container_out_at_the_origin() {
    assert_eq!(window_resized(800, 600), Allocation { x: 0, y: 0, width: 800, height: 600 });
    assert_eq!(window_resized(0, 0), Allocation { x: 0, y: 0, width: 0, height: 0 });
    let a = window_resized(u32::MAX, 0x8000_0000);
    assert_eq!(a.width, -1);
    assert_eq!(a.height, i32::MIN);
    assert_eq!(window_resized(0x7fff_ffff, 1).width, i32::MAX);
}

#[test]
fn records_are_as_many_as_tabs_over_many_steps() {
    let mut w = TermImpl::new(env());
    let steps: Vec<(u8, u64)> = vec![
        (0, 1), (0, 2), (1, 1), (0, 3), (2, 2), (0, 4), (3, 3), (1, 4), (2, 1), (2, 9), (2, 4),
    ];
    for (kind, h) in steps {
        match kind {
            0 => {
                w.add_new_tab(h);
            }
            1 => {
                w.spawn_finished(h, 1000, false);
            }
            2 => {
                w.remove_tab(h);
            }
            _ => {
                w.spawn_finished(h, -1, false);
            }
        }
        assert_eq!(w.notebook().len(), w.page_meta().len());
        for i in 0..w.notebook().len() {
            let slot = w.notebook().slot(i).unwrap();
            assert_eq!(slot.position, i);
            assert!(w.page_meta().contains(slot.handle));
        }
    }
    assert_eq!(w.notebook().len(), 0);
}

#[test]
fn late_spawn_of_a_closed_session_is_orphaned() {
    let mut w = window_with(&[1, 2]);
    w.remove_tab(1);
    assert_eq!(w.spawn_finished(1, 77, false), SpawnReport::Orphaned { pid: 77 });
    assert!(!w.page_meta().contains(1));
    assert_eq!(w.notebook().len(), 1);
    assert_eq!(w.spawn_finished(1, -1, false), SpawnReport::Failed(Removal::Absent));
    assert_eq!(w.notebook().len(), 1);
}
