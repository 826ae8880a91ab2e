use inm::incus::VmId;
use inm::manager::tab_bar::{element_id, TabBarItem};
use inm::manager::tabs::{ConnectStep, Frame};
use inm::manager::sidebar::toggle_collapsed;
use inm::manager::{Command, Focus, IncusManager, Modifiers};
use inm::scancode::HostLayout;
use inm::spice_session::StartError;

fn id(project: &str, name: &str) -> VmId {
    VmId { project: project.to_string(), name: name.to_string() }
}

fn idle() -> IncusManager {
    IncusManager::new(HostLayout::Dvorak, Vec::new(), "local".to_string())
}

fn open(m: &mut IncusManager, project: &str, name: &str) {
    m.open_or_focus(id(project, name));
    m.console_started(id(project, name));
}

fn order(m: &IncusManager) -> Vec<&str> {
    m.tabs.iter().map(|tab| tab.id.name.as_str()).collect()
}

fn shown(m: &IncusManager) -> Vec<&str> {
    m.tabs.iter().filter(|tab| tab.visible).map(|tab| tab.id.name.as_str()).collect()
}

#[test]
fn a_projects_tabs_stand_together() {
    let mut m = idle();
    open(&mut m, "p", "a");
    open(&mut m, "q", "b");
    open(&mut m, "p", "c");
    open(&mut m, "r", "d");
    open(&mut m, "q", "e");
    assert_eq!(order(&m), vec!["a", "c", "b", "e", "d"]);
    assert_eq!(shown(&m), vec!["e"]);
}

#[test]
fn asking_twice_connects_once() {
    let mut m = idle();
    m.error = Some("old".to_string());
    let first = m.open_or_focus(id("p", "a"));
    assert!(matches!(first.command, Some(Command::Connect(i)) if i == id("p", "a")));
    assert!(m.error.is_none());
    let second = m.open_or_focus(id("p", "a"));
    assert!(second.command.is_none() && !second.repaint);
    assert_eq!(m.connecting.len(), 1);
    m.console_started(id("p", "a"));
    assert!(m.connecting.is_empty());
    open(&mut m, "p", "b");
    let third = m.open_or_focus(id("p", "a"));
    assert!(third.command.is_none() && third.repaint);
    assert_eq!(third.focus, Some(Focus::Console));
    assert_eq!(shown(&m), vec!["a"]);
}

#[test]
fn closing_falls_back_to_the_neighbour() {
    let mut m = idle();
    open(&mut m, "p", "a");
    open(&mut m, "p", "b");
    open(&mut m, "p", "c");
    m.set_active(Some(id("p", "b")));
    assert!(m.close_tab(&id("p", "b")));
    assert_eq!(shown(&m), vec!["c"]);
    assert!(m.close_tab(&id("p", "c")));
    assert_eq!(shown(&m), vec!["a"]);
    assert!(!m.close_tab(&id("p", "x")));
    assert!(m.close_tab(&id("p", "a")));
    assert!(m.active.is_none());
}

#[test]
fn closing_another_tab_leaves_the_shown_one() {
    let mut m = idle();
    open(&mut m, "p", "a");
    open(&mut m, "p", "b");
    assert!(m.close_tab(&id("p", "a")));
    assert_eq!(shown(&m), vec!["b"]);
}

#[test]
fn a_taken_console_is_asked_for() {
    let mut m = idle();
    m.open_or_focus(id("p", "a"));
    let (step, reaction) = m.connect_console(0, id("p", "a"), Err(StartError::AlreadyConnected));
    assert_eq!(step, ConnectStep::AskTakeover);
    assert!(!reaction.repaint);
    assert_eq!(m.connecting.len(), 1);
    let (go_on, reaction) = m.takeover_answered(0, &id("p", "a"), true);
    assert!(go_on && reaction.repaint);
    assert_eq!(m.connecting.len(), 1);
    let (go_on, reaction) = m.takeover_answered(0, &id("p", "a"), false);
    assert!(!go_on && reaction.repaint);
    assert!(m.connecting.is_empty());
}

#[test]
fn a_failed_connection_is_told() {
    let mut m = idle();
    m.open_or_focus(id("p", "a"));
    let (step, reaction) = m.connect_console(0, id("p", "a"), Err(StartError::Message("no".to_string())));
    assert_eq!(step, ConnectStep::GiveUp);
    assert!(reaction.repaint && reaction.focus.is_none());
    assert_eq!(m.error.as_deref(), Some("no"));
    assert!(m.connecting.is_empty() && m.tabs.is_empty());
    m.open_or_focus(id("p", "a"));
    let (step, reaction) = m.connect_console(0, id("p", "a"), Ok(()));
    assert_eq!(step, ConnectStep::Serve);
    assert!(reaction.repaint);
    assert_eq!(reaction.focus, Some(Focus::Console));
    assert_eq!(shown(&m), vec!["a"]);
}

#[test]
fn frames_are_destroyed_two_repaints_later() {
    let mut m = idle();
    open(&mut m, "p", "a");
    let frame = |key: u64| Frame { key, width: 2, height: 2 };
    let first = m.frame_arrived(0, &id("p", "a"), frame(1));
    assert!(first.open && first.repaint);
    assert!(m.begin_repaint().is_empty());
    m.frame_arrived(0, &id("p", "a"), frame(2));
    assert!(m.begin_repaint().is_empty());
    assert_eq!(m.begin_repaint(), vec![1u64]);
    assert!(m.begin_repaint().is_empty());
    m.close_tab(&id("p", "a"));
    assert!(!m.frame_arrived(0, &id("p", "a"), frame(3)).open);
    assert!(m.begin_repaint().is_empty());
    assert_eq!(m.begin_repaint(), vec![2u64]);
}

#[test]
fn background_frames_do_not_repaint() {
    let mut m = idle();
    open(&mut m, "p", "a");
    open(&mut m, "p", "b");
    let arrival = m.frame_arrived(0, &id("p", "a"), Frame { key: 1, width: 1, height: 1 });
    assert!(arrival.open && !arrival.repaint);
}

#[test]
fn a_dropped_console_is_told_and_a_closed_one_is_not() {
    let mut m = idle();
    open(&mut m, "p", "a");
    let ended = m.console_ended(0, &id("p", "a"));
    assert!(ended.repaint);
    assert!(matches!(ended.command, Some(Command::EndConsole(i)) if i == id("p", "a")));
    assert_eq!(m.error.as_deref(), Some("a 的控制台连接已断开"));
    assert!(m.tabs.is_empty());
    m.error = None;
    assert!(!m.console_ended(0, &id("p", "a")).repaint);
    assert!(m.error.is_none());
}

fn describe(item: &TabBarItem) -> String {
    match item {
        TabBarItem::Header { project, members, collapsed } => {
            format!("[{project} {members} {collapsed}]")
        }
        TabBarItem::Tab { id, is_active, badge } => format!("{} {is_active} {badge:?}", id.name),
        TabBarItem::Pending(id) => format!("{}…", id.name),
    }
}

fn bar(m: &IncusManager) -> Vec<String> {
    m.tab_bar().iter().map(describe).collect()
}

#[test]
fn the_bar_groups_by_project() {
    let mut m = idle();
    open(&mut m, "p", "a");
    open(&mut m, "p", "b");
    open(&mut m, "q", "c");
    m.open_or_focus(id("q", "d"));
    assert_eq!(
        bar(&m),
        vec![
            "[p 2 false]",
            "a false None",
            "b false None",
            "[q 1 false]",
            "c true None",
            "d…",
        ]
    );
}

#[test]
fn a_folded_group_keeps_the_shown_tab() {
    let mut m = idle();
    open(&mut m, "p", "a");
    open(&mut m, "p", "b");
    toggle_collapsed(&mut m.collapsed_groups, "p");
    m.held_modifiers = Modifiers { control: false, alt: false, shift: false, platform: true };
    assert_eq!(bar(&m), vec!["[p 2 true]", "b true Some(2)"]);
    toggle_collapsed(&mut m.collapsed_groups, "p");
    assert_eq!(bar(&m), vec!["[p 2 false]", "a false Some(1)", "b true Some(2)"]);
}

#[test]
fn only_nine_tabs_wear_numbers() {
    let mut m = idle();
    for i in 0..10 {
        open(&mut m, "p", &format!("vm{i}"));
    }
    m.held_modifiers.platform = true;
    let bar = bar(&m);
    assert_eq!(bar[9], "vm8 false Some(9)");
    assert_eq!(bar[10], "vm9 true None");
}

#[test]
fn the_status_line() {
    let mut m = idle();
    assert_eq!(m.status_line(true), "未连接");
    open(&mut m, "p", "a");
    assert_eq!(m.status_line(false), "p  ·  0×0  ·  相对移动  ·  Dvorak");
    m.frame_arrived(0, &id("p", "a"), Frame { key: 1, width: 1280, height: 800 });
    assert_eq!(m.status_line(true), "p  ·  1280×800  ·  绝对定位  ·  Dvorak");
}

#[test]
fn the_place_of_a_missing_console() {
    let mut m = idle();
    let empty = m.placeholder().unwrap();
    assert_eq!((empty.text, empty.hint), ("选择一台虚拟机", true));
    m.open_or_focus(id("p", "a"));
    let pending = m.placeholder().unwrap();
    assert_eq!((pending.text, pending.hint), ("正在连接…", false));
    m.console_started(id("p", "a"));
    assert!(m.placeholder().is_none());
    assert!(m.toggle_sidebar().repaint);
    assert!(!m.sidebar_visible);
}

#[test]
fn elements_are_named_after_their_machine() {
    assert_eq!(element_id(&id("p", "a"), "tab"), "tab-p-a");
}

#[test]
fn what_comes_of_an_earlier_remote_is_stale() {
    let mut m = idle();
    m.open_or_focus(id("p", "a"));
    m.switch_remote("prod".to_string(), Ok(()));
    let (step, reaction) = m.connect_console(0, id("p", "a"), Ok(()));
    assert_eq!(step, ConnectStep::Stale);
    assert!(!reaction.repaint && reaction.focus.is_none());
    let failed = Err(StartError::Message("no".to_string()));
    assert_eq!(m.connect_console(0, id("p", "a"), failed).0, ConnectStep::Stale);
    assert!(m.tabs.is_empty() && m.error.is_none());
    let (go_on, reaction) = m.takeover_answered(0, &id("p", "a"), true);
    assert!(!go_on && !reaction.repaint);
    m.open_or_focus(id("p", "a"));
    m.takeover_answered(0, &id("p", "a"), false);
    assert_eq!(m.connecting.len(), 1);
    assert_eq!(m.connect_console(1, id("p", "a"), Ok(())).0, ConnectStep::Serve);
    assert!(!m.frame_arrived(0, &id("p", "a"), Frame { key: 1, width: 1, height: 1 }).open);
    assert!(m.frame_arrived(1, &id("p", "a"), Frame { key: 2, width: 1, height: 1 }).open);
    assert!(!m.console_ended(0, &id("p", "a")).repaint);
    assert_eq!(m.tabs.len(), 1);
    assert!(m.console_ended(1, &id("p", "a")).repaint);
}

#[test]
fn the_cross_of_a_tab_ends_its_console() {
    let mut m = idle();
    open(&mut m, "p", "a");
    let closed = m.close_clicked(&id("p", "a"));
    assert!(closed.repaint);
    assert!(matches!(closed.command, Some(Command::EndConsole(i)) if i == id("p", "a")));
    assert!(m.tabs.is_empty());
    assert!(m.close_clicked(&id("p", "a")).command.is_none());
    m.group_clicked("p");
    assert_eq!(m.collapsed_groups, vec!["p".to_string()]);
    m.group_clicked("p");
    assert!(m.collapsed_groups.is_empty());
}

#[test]
fn a_machine_never_has_two_consoles() {
    let mut m = idle();
    open(&mut m, "p", "a");
    assert!(m.open_or_focus(id("p", "a")).command.is_none());
    m.open_or_focus(id("p", "b"));
    assert!(m.open_or_focus(id("p", "b")).command.is_none());
    m.connect_console(0, id("p", "b"), Ok(()));
    assert_eq!(order(&m), vec!["a", "b"]);
    assert!(m.connecting.is_empty());
}
