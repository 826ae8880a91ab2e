use inm::incus::{Vm, VmId};
use inm::manager::dialogs::{comma_join, detail_rows, MenuAction, VmDetails};
use inm::manager::palette::{palette_action, rank_matches, PaletteAction};
use inm::manager::sidebar::{group_by_project, lower_names, toggle_collapsed};
use inm::manager::{Command, Focus, IncusManager, Keystroke, Modifiers, PowerAction};
use inm::scancode::HostLayout;

const NONE: Modifiers = Modifiers { control: false, alt: false, shift: false, platform: false };
const CMD: Modifiers = Modifiers { control: false, alt: false, shift: false, platform: true };
const CTRL: Modifiers = Modifiers { control: true, alt: false, shift: false, platform: false };

fn id(project: &str, name: &str) -> VmId {
    VmId { project: project.to_string(), name: name.to_string() }
}

fn vm(project: &str, name: &str, running: bool) -> Vm {
    Vm {
        id: id(project, name),
        status: if running { "Running" } else { "Stopped" }.to_string(),
        location: String::new(),
    }
}

fn key(name: &str, modifiers: Modifiers) -> Keystroke {
    Keystroke { modifiers, key: name.to_string(), key_char: None }
}

fn typed(text: &str) -> Keystroke {
    Keystroke { modifiers: NONE, key: text.to_lowercase(), key_char: Some(text.to_string()) }
}

fn fleet() -> IncusManager {
    let mut m = IncusManager::new(HostLayout::Qwerty, vec!["local".to_string(), "prod".to_string()], "local".to_string());
    m.set_vms(vec![
        vm("db", "Alpha", true),
        vm("db", "beta", false),
        vm("web", "alpine", true),
        vm("web", "gamma", true),
    ]);
    m
}

fn groups(m: &IncusManager) -> Vec<(String, Vec<String>)> {
    m.grouped
        .iter()
        .map(|g| (g.project.clone(), g.vms.iter().map(|vm| vm.id.name.clone()).collect()))
        .collect()
}

fn pair(project: &str, names: &[&str]) -> (String, Vec<String>) {
    (project.to_string(), names.iter().map(|s| s.to_string()).collect())
}

#[test]
fn machines_are_grouped_by_project() {
    let m = fleet();
    assert_eq!(groups(&m), vec![pair("db", &["Alpha", "beta"]), pair("web", &["alpine", "gamma"])]);
    let interleaved = vec![vm("a", "x", true), vm("b", "y", true), vm("a", "z", true)];
    let names = lower_names(&interleaved);
    assert_eq!(group_by_project(&interleaved, &names, "").len(), 3);
    assert_eq!(group_by_project(&interleaved, &names, "z").len(), 1);
}

#[test]
fn the_filter_ignores_case_and_edits() {
    let mut m = fleet();
    assert!(m.handle_filter_key(&typed("A")).repaint);
    m.handle_filter_key(&typed("l"));
    assert_eq!(m.filter, "Al");
    assert_eq!(groups(&m), vec![pair("db", &["Alpha"]), pair("web", &["alpine"])]);
    m.handle_filter_key(&typed("\n"));
    assert_eq!(m.filter, "Al");
    m.handle_filter_key(&key("backspace", NONE));
    assert_eq!(m.filter, "A");
    m.handle_filter_key(&key("escape", NONE));
    assert_eq!(m.filter, "");
    m.handle_filter_key(&key("backspace", NONE));
    assert_eq!(m.filter, "");
    assert_eq!(groups(&m).len(), 2);
}

#[test]
fn a_failed_refresh_keeps_the_list() {
    let mut m = fleet();
    m.refresh(0, Err("down".to_string()));
    assert_eq!(m.error.as_deref(), Some("down"));
    assert_eq!(m.vms.len(), 4);
    m.refresh(0, Ok(vec![vm("x", "y", true)]));
    assert!(m.error.is_none());
    assert_eq!(groups(&m), vec![pair("x", &["y"])]);
}

#[test]
fn folding_hides_rows_unless_searching() {
    let mut m = fleet();
    assert!(m.project_clicked("db").repaint);
    let shown = m.sidebar();
    assert!(shown[0].collapsed && shown[0].rows.is_empty());
    assert_eq!(shown[0].count, 2);
    assert_eq!(shown[1].rows.len(), 2);
    m.handle_filter_key(&typed("a"));
    let shown = m.sidebar();
    assert!(!shown[0].collapsed);
    assert_eq!(shown[0].rows.len(), 2);
    toggle_collapsed(&mut m.collapsed, "db");
    assert!(m.collapsed.is_empty());
}

#[test]
fn rows_know_their_state() {
    let mut m = fleet();
    m.open_or_focus(id("db", "Alpha"));
    let row = &m.sidebar()[0].rows[0];
    assert!(row.pending && !row.is_open && !row.is_active && row.running);
    m.console_started(id("db", "Alpha"));
    let row = &m.sidebar()[0].rows[0];
    assert!(!row.pending && row.is_open && row.is_active);
    assert!(!m.sidebar()[0].rows[1].running);
}

#[test]
fn a_click_opens_what_runs_and_starts_nothing() {
    let mut m = fleet();
    m.open_context_menu(id("db", "beta"));
    let stopped = m.row_clicked(&vm("db", "beta", false));
    assert!(stopped.command.is_none() && m.context_menu.is_none());
    let started = m.start_clicked(id("db", "beta"));
    assert!(!started.repaint && started.focus.is_none());
    assert!(matches!(
        started.command,
        Some(Command::Power { id: i, action: PowerAction::Start }) if i == id("db", "beta")
    ));
    let running = m.row_clicked(&vm("db", "Alpha", true));
    assert!(matches!(running.command, Some(Command::Connect(i)) if i == id("db", "Alpha")));
}

fn names(vms: &[Vm]) -> Vec<&str> {
    vms.iter().map(|vm| vm.id.name.as_str()).collect()
}

#[test]
fn the_palette_searches_names_and_projects_running_first() {
    let mut m = fleet();
    assert!(m.palette_matches().is_empty());
    assert_eq!(m.open_palette().focus, Some(Focus::Palette));
    assert_eq!(names(&m.palette_matches()), vec!["Alpha", "alpine", "gamma", "beta"]);
    m.handle_palette_key(&typed("D"));
    m.handle_palette_key(&typed("b"));
    assert_eq!(names(&m.palette_matches()), vec!["Alpha", "beta"]);
    m.handle_palette_key(&key("u", CTRL));
    m.handle_palette_key(&typed("al"));
    assert_eq!(names(&m.palette_matches()), vec!["Alpha", "alpine"]);
}

#[test]
fn the_palette_finds_every_machine() {
    let many: Vec<Vm> = (0..20).map(|i| vm("p", &format!("m{i}"), i >= 10)).collect();
    let lowered = lower_names(&many);
    let projects: Vec<String> = many.iter().map(|vm| vm.id.project.clone()).collect();
    let rows = rank_matches(&many, &lowered, &projects, "");
    assert_eq!(rows.len(), 20);
    assert_eq!(rows[0].id.name, "m10");
    assert_eq!(rows[9].id.name, "m19");
    assert_eq!(rows[10].id.name, "m0");
    assert_eq!(rows[19].id.name, "m9");
    assert_eq!(rank_matches(&many, &lowered, &projects, "m1").len(), 11);
    assert_eq!(rank_matches(&many, &lowered, &projects, "p").len(), 20);
}

fn highlighted(m: &IncusManager) -> String {
    m.palette_rows().iter().find(|row| row.is_selected).map(|row| row.vm.id.name.clone()).unwrap()
}

#[test]
fn the_highlight_moves_and_wraps() {
    let mut m = fleet();
    m.open_palette();
    assert_eq!(highlighted(&m), "Alpha");
    m.handle_palette_key(&key("down", NONE));
    assert_eq!(highlighted(&m), "alpine");
    m.handle_palette_key(&key("n", CTRL));
    m.handle_palette_key(&key("n", CTRL));
    m.handle_palette_key(&key("down", NONE));
    assert_eq!(highlighted(&m), "beta");
    m.handle_palette_key(&key("p", CMD));
    assert_eq!(highlighted(&m), "Alpha");
    m.handle_palette_key(&key("up", NONE));
    m.handle_palette_key(&key("p", CTRL));
    assert_eq!(highlighted(&m), "Alpha");
    m.handle_palette_key(&key("p", CMD));
    assert_eq!(highlighted(&m), "alpine");
    // A refresh that puts another machine first leaves the highlight in place.
    m.refresh(0, Ok(vec![vm("web", "alpine", true), vm("db", "Alpha", true)]));
    assert_eq!(highlighted(&m), "alpine");
    m.refresh(0, Ok(vec![vm("db", "Alpha", true)]));
    assert_eq!(highlighted(&m), "Alpha");
    assert!(!m.handle_palette_key(&key("x", CTRL)).repaint);
}

#[test]
fn choosing_opens_what_runs_and_says_what_does_not() {
    let mut m = fleet();
    m.open_palette();
    m.handle_palette_key(&typed("b"));
    m.handle_palette_key(&typed("e"));
    let stopped = m.handle_palette_key(&key("enter", NONE));
    assert_eq!(stopped.focus, Some(Focus::Console));
    assert_eq!(m.error.as_deref(), Some("该虚拟机未运行"));
    assert!(m.palette.is_none());
    m.open_palette();
    let running = m.handle_palette_key(&key("enter", NONE));
    assert!(running.repaint);
    assert!(matches!(running.command, Some(Command::Connect(i)) if i == id("db", "Alpha")));
    assert!(m.error.is_none() && m.palette.is_none());
    m.open_palette();
    m.handle_palette_key(&typed("zzz"));
    assert!(!m.handle_palette_key(&key("enter", NONE)).repaint);
    assert!(m.palette.is_some());
    m.handle_palette_key(&key("backspace", NONE));
    assert_eq!(m.palette.as_ref().unwrap().query, "zz");
    assert_eq!(m.handle_palette_key(&key("escape", NONE)).focus, Some(Focus::Console));
    assert!(m.palette.is_none());
    assert!(!m.handle_palette_key(&key("enter", NONE)).repaint);
    assert!(m.palette_clicked(&vm("db", "beta", false)).command.is_none());
    assert!(m.palette_clicked(&vm("web", "gamma", true)).command.is_some());
}

#[test]
fn a_key_acts_on_the_rows_at_hand() {
    let mut m = fleet();
    let rows = vec![vm("x", "one", false), vm("x", "two", true)];
    assert!(!m.palette_key(&key("down", NONE), &rows).repaint);
    m.open_palette();
    m.palette_key(&key("down", NONE), &rows);
    assert_eq!(m.palette.as_ref().unwrap().selected, Some(id("x", "two")));
    let chosen = m.palette_key(&key("enter", NONE), &rows);
    assert!(matches!(chosen.command, Some(Command::Connect(i)) if i == id("x", "two")));
}

#[test]
fn keys_of_the_palette() {
    assert_eq!(palette_action(&key("down", NONE), 3, 3), PaletteAction::Select(3));
    assert_eq!(palette_action(&key("p", CMD), 3, 3), PaletteAction::Select(0));
    assert_eq!(palette_action(&key("n", CMD), 0, 3), PaletteAction::Ignore);
    assert_eq!(palette_action(&key("f5", NONE), 0, 3), PaletteAction::Keep);
    assert_eq!(palette_action(&typed("x"), 0, 3), PaletteAction::Type);
}

#[test]
fn the_context_menu_fits_its_machine() {
    let mut m = fleet();
    assert!(m.context_menu_items().is_none());
    m.open_context_menu(id("db", "Alpha"));
    let menu = m.context_menu_items().unwrap();
    assert!(menu.open_console.enabled && !menu.rename.enabled && menu.details.enabled);
    assert_eq!(menu.open_console.label, "打开控制台");
    assert_eq!(menu.rename.label, "重命名（需先停止）");
    assert_eq!(menu.details.label, "详细信息");
    assert!(menu.power.is_none());
    assert!(m.hover_menu(true).repaint);
    assert!(!m.hover_menu(true).repaint);
    let power = m.context_menu_items().unwrap().power.unwrap();
    let labels: Vec<(&str, bool)> = power.iter().map(|i| (i.label, i.enabled)).collect();
    assert_eq!(labels, vec![("已在运行", false), ("停止", true), ("重启", true)]);
    m.open_context_menu(id("db", "beta"));
    assert!(!m.power_menu_open);
    m.hover_menu(true);
    let menu = m.context_menu_items().unwrap();
    assert!(!menu.open_console.enabled && menu.rename.enabled);
    assert_eq!(menu.rename.label, "重命名");
    let labels: Vec<(&str, bool)> =
        menu.power.as_ref().unwrap().iter().map(|i| (i.label, i.enabled)).collect();
    assert_eq!(labels, vec![("启动", true), ("停止", false), ("重启", false)]);
    m.open_context_menu(id("gone", "x"));
    assert!(m.context_menu_items().is_none());
    assert!(m.close_context_menu().repaint);
    assert!(m.context_menu.is_none());
}

#[test]
fn menu_items_do_what_they_say() {
    let mut m = fleet();
    m.open_context_menu(id("db", "Alpha"));
    m.hover_menu(true);
    let menu = m.context_menu_items().unwrap();
    let power = menu.power.unwrap();
    // Not enabled.
    assert!(m.choose_menu_item(id("db", "Alpha"), &power[0]).command.is_none());
    assert!(m.context_menu.is_some());
    let stop = m.choose_menu_item(id("db", "Alpha"), &power[1]);
    assert!(matches!(
        stop.command,
        Some(Command::Power { id: i, action: PowerAction::Stop }) if i == id("db", "Alpha")
    ));
    assert!(m.context_menu.is_none() && !m.power_menu_open);
    let open = m.choose_menu_item(id("db", "Alpha"), &menu.open_console);
    assert!(matches!(open.command, Some(Command::Connect(_))));
    let details = m.choose_menu_item(id("db", "Alpha"), &menu.details);
    assert!(matches!(details.command, Some(Command::FetchDetails(_))));
    assert_eq!(menu.details.action, MenuAction::Details);
    assert_eq!(PowerAction::Start.name(), "start");
    assert_eq!(PowerAction::Stop.name(), "stop");
    assert_eq!(PowerAction::Restart.name(), "restart");
}

#[test]
fn a_finished_action_refreshes() {
    let mut m = fleet();
    assert!(matches!(m.action_done(Ok(())).command, Some(Command::Refresh)));
    assert!(m.error.is_none());
    assert!(matches!(m.action_done(Err("no".to_string())).command, Some(Command::Refresh)));
    assert_eq!(m.error.as_deref(), Some("no"));
}

#[test]
fn renaming_trims_and_skips_what_changes_nothing() {
    let mut m = fleet();
    assert!(!m.handle_rename_key(&key("enter", NONE)).repaint);
    assert_eq!(m.begin_rename(id("db", "beta")).focus, Some(Focus::Rename));
    assert_eq!(m.rename.as_ref().unwrap().1, "beta");
    assert!(m.handle_rename_key(&key("enter", NONE)).command.is_none());
    assert!(m.rename.is_none());
    m.begin_rename(id("db", "beta"));
    m.handle_rename_key(&key("backspace", NONE));
    m.handle_rename_key(&typed("X"));
    m.handle_rename_key(&typed(" "));
    m.handle_rename_key(&typed("\t"));
    assert_eq!(m.rename.as_ref().unwrap().1, "betX ");
    let done = m.handle_rename_key(&key("enter", NONE));
    assert!(matches!(
        done.command,
        Some(Command::Rename { id: i, name }) if i == id("db", "beta") && name == "betX"
    ));
    m.begin_rename(id("db", "x"));
    m.handle_rename_key(&key("backspace", NONE));
    m.handle_rename_key(&typed(" "));
    assert!(m.handle_rename_key(&key("enter", NONE)).command.is_none());
    m.begin_rename(id("db", "x"));
    assert_eq!(m.handle_rename_key(&key("escape", NONE)).focus, Some(Focus::Console));
    assert!(m.rename.is_none());
    m.begin_rename(id("db", "x"));
    assert_eq!(m.cancel_rename().focus, Some(Focus::Console));
    assert!(m.dismiss_overlay().is_none());
}

fn details() -> VmDetails {
    VmDetails {
        status: "Running".to_string(),
        location: "node1".to_string(),
        location_address: Some("10.0.0.1".to_string()),
        location_status: Some("Online".to_string()),
        architecture: "x86_64".to_string(),
        cpu_limit: Some("4".to_string()),
        memory_limit: Some("8GiB".to_string()),
        memory_used: Some("2.5 GiB".to_string()),
        root_disk: Some("20GiB".to_string()),
        addresses: vec![("eth0".to_string(), "10.0.0.5".to_string())],
        profiles: vec!["default".to_string(), "big".to_string()],
        created_at: "2024-05-01T10:00:00Z".to_string(),
    }
}

fn lines(d: Option<VmDetails>) -> Vec<String> {
    detail_rows(&id("db", "Alpha"), &d)
        .iter()
        .map(|row| format!("{}={}", row.label, row.value))
        .collect()
}

#[test]
fn the_details_line_by_line() {
    assert_eq!(lines(None), vec!["项目=db", "名称=Alpha", "=加载中…"]);
    assert_eq!(
        lines(Some(details())),
        vec![
            "项目=db",
            "名称=Alpha",
            "状态=Running",
            "宿主机=node1  10.0.0.1",
            "节点状态=Online",
            "架构=x86_64",
            "CPU=4",
            "内存=8GiB（已用 2.5 GiB）",
            "根盘=20GiB",
            "地址=10.0.0.5  (eth0)",
            "profile=default, big",
            "创建于=2024-05-01",
        ]
    );
    let mut d = details();
    d.location = String::new();
    d.location_status = None;
    d.cpu_limit = None;
    d.memory_used = None;
    d.root_disk = None;
    d.addresses = Vec::new();
    d.profiles = Vec::new();
    assert_eq!(
        lines(Some(d)),
        vec![
            "项目=db",
            "名称=Alpha",
            "状态=Running",
            "宿主机=（非集群）",
            "架构=x86_64",
            "内存=8GiB",
            "创建于=2024-05-01",
        ]
    );
    let mut d = details();
    d.location_address = None;
    assert_eq!(lines(Some(d))[3], "宿主机=node1");
    assert_eq!(comma_join(&Vec::new()), "");
}

#[test]
fn details_fill_only_their_own_dialog() {
    let mut m = fleet();
    m.show_details(id("db", "Alpha"));
    m.details_loaded(id("db", "beta"), Ok(details()));
    assert!(m.details.as_ref().unwrap().1.is_none());
    m.details_loaded(id("db", "beta"), Err("slow".to_string()));
    assert!(m.details.is_some());
    assert_eq!(m.error.as_deref(), Some("slow"));
    m.details_loaded(id("db", "Alpha"), Ok(details()));
    assert!(m.details.as_ref().unwrap().1.is_some());
    m.details_loaded(id("db", "Alpha"), Err("late".to_string()));
    assert!(m.details.is_none());
    m.show_details(id("db", "Alpha"));
    assert!(m.close_details().repaint);
    assert!(m.details.is_none());
}

#[test]
fn another_remote_starts_afresh() {
    let mut m = fleet();
    m.open_or_focus(id("db", "Alpha"));
    m.console_started(id("db", "Alpha"));
    m.open_or_focus(id("web", "gamma"));
    m.toggle_remote_switcher();
    let (failed, ended) = m.switch_remote("prod".to_string(), Err("no".to_string()));
    assert!(failed.command.is_none() && ended.is_empty());
    assert_eq!(m.error.as_deref(), Some("no"));
    assert_eq!(m.current_remote, "local");
    let (switched, ended) = m.switch_remote("prod".to_string(), Ok(()));
    assert!(matches!(switched.command, Some(Command::Reload)));
    assert_eq!(ended, vec![id("db", "Alpha")]);
    assert!(m.tabs.is_empty() && m.vms.is_empty() && m.grouped.is_empty());
    assert!(m.connecting.is_empty() && m.active.is_none() && m.error.is_none());
    assert_eq!((m.current_remote.as_str(), m.remote_epoch), ("prod", 1));
    assert!(!m.remote_switcher_open);
    let rows: Vec<(String, bool)> =
        m.remote_rows().into_iter().map(|row| (row.name, row.is_current)).collect();
    assert_eq!(rows, vec![("local".to_string(), false), ("prod".to_string(), true)]);
    m.toggle_remote_switcher();
    assert!(m.remote_switcher_open);
    m.close_remote_switcher();
    assert!(!m.remote_switcher_open);
}

#[test]
fn frames_of_the_old_remote_outlive_the_switch() {
    let mut m = fleet();
    m.open_or_focus(id("db", "Alpha"));
    m.console_started(id("db", "Alpha"));
    m.frame_arrived(
        0,
        &id("db", "Alpha"),
        inm::manager::tabs::Frame { key: 7, width: 1, height: 1 },
    );
    m.switch_remote("prod".to_string(), Ok(()));
    assert!(m.begin_repaint().is_empty());
    assert_eq!(m.begin_repaint(), vec![7u64]);
}

#[test]
fn events_of_an_old_remote_are_stale() {
    let mut m = fleet();
    let step = m.instance_event(0, "instance-created", &id("db", "new")).unwrap();
    assert!(matches!(step.reaction.command, Some(Command::Refresh)));
    assert_eq!(m.notice.as_deref(), Some("已创建虚拟机 db/new"));
    assert_eq!(step.notice, Some(1));
    let quiet = m.instance_event(0, "instance-stopped", &id("db", "new")).unwrap();
    assert!(quiet.notice.is_none());
    assert!(m.notice.is_some());
    m.switch_remote("prod".to_string(), Ok(()));
    assert!(m.notice.is_none());
    assert!(m.instance_event(0, "instance-created", &id("db", "new")).is_none());
    assert!(m.notice.is_none());
}

#[test]
fn a_notice_expires_unless_replaced() {
    let mut m = fleet();
    let first = m.instance_event(0, "instance-created", &id("db", "a")).unwrap().notice.unwrap();
    let second = m.instance_event(0, "instance-created", &id("db", "b")).unwrap().notice.unwrap();
    assert!(!m.clear_notice(first).repaint);
    assert_eq!(m.notice.as_deref(), Some("已创建虚拟机 db/b"));
    assert!(m.clear_notice(second).repaint);
    assert!(m.notice.is_none());
    assert!(!m.clear_notice(second).repaint);
}

#[test]
fn a_notice_that_says_the_same_again_is_a_newer_one() {
    let mut m = fleet();
    let first = m.instance_event(0, "instance-created", &id("db", "a")).unwrap().notice.unwrap();
    let second = m.instance_event(0, "instance-created", &id("db", "a")).unwrap().notice.unwrap();
    assert_ne!(first, second);
    assert!(!m.clear_notice(first).repaint);
    assert_eq!(m.notice.as_deref(), Some("已创建虚拟机 db/a"));
    assert!(m.clear_notice(second).repaint);
    assert!(m.notice.is_none());
}

#[test]
fn a_list_of_an_earlier_remote_is_not_taken() {
    let mut m = fleet();
    m.switch_remote("prod".to_string(), Ok(()));
    assert!(!m.refresh(0, Ok(vec![vm("x", "y", true)])).repaint);
    assert!(!m.refresh(0, Err("down".to_string())).repaint);
    assert!(m.vms.is_empty() && m.error.is_none());
    assert!(m.refresh(1, Ok(vec![vm("x", "y", true)])).repaint);
    assert_eq!(m.vms.len(), 1);
}

#[test]
fn what_stands_above_the_lists() {
    let mut m = fleet();
    let header = m.sidebar_header();
    assert_eq!((header.remote.as_str(), header.count.as_str()), ("local ▾", "4 台 ⟳"));
    assert_eq!((header.filter.as_str(), header.filtering), ("搜索  ⌘F", false));
    m.handle_filter_key(&typed("x"));
    let header = m.sidebar_header();
    assert_eq!((header.filter.as_str(), header.filtering), ("x", true));
    assert_eq!(m.palette_prompt(), ("跳转到虚拟机…".to_string(), false));
    m.open_palette();
    m.handle_palette_key(&typed("q"));
    assert_eq!(m.palette_prompt(), ("q".to_string(), true));
    assert!(m.rename_dialog().is_none());
    m.begin_rename(id("db", "beta"));
    let dialog = m.rename_dialog().unwrap();
    assert_eq!((dialog.title.as_str(), dialog.name.as_str()), ("重命名 beta", "beta"));
}
