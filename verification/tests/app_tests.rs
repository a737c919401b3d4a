use pulsemon::app::{App, InputMode, KeyCode, KeyEvent, KeyEventKind, View};
use pulsemon::config::Config;
use pulsemon::types::{PortInfo, PortSortBy, ProcessInfo, ProcessSortBy};

fn config() -> Config {
    Config { rate: 1000, no_gpu: false, no_ports: false }
}

fn press(code: KeyCode) -> KeyEvent {
    KeyEvent { code, kind: KeyEventKind::Press }
}

fn key(app: &mut App, code: KeyCode) {
    let order = app.handle_key(press(code));
    assert!(order.is_none());
}

fn type_text(app: &mut App, text: &str) {
    for c in text.chars() {
        key(app, KeyCode::Char(c));
    }
}

fn run_command(app: &mut App, cmd: &str) -> Option<pulsemon::app::KillOrder> {
    key(app, KeyCode::Char(':'));
    type_text(app, cmd);
    app.handle_key(press(KeyCode::Enter))
}

fn proc_row(pid: u32, name: &str, cpu: f32, memory: u64, command: &str) -> ProcessInfo {
    ProcessInfo {
        pid,
        name: name.to_string(),
        cpu_usage_bits: cpu.to_bits(),
        memory,
        status: "Run".to_string(),
        command: command.to_string(),
    }
}

fn port_row(protocol: &str, addr: &str, port: u16, pid: Option<u32>, name: &str) -> PortInfo {
    PortInfo {
        protocol: protocol.to_string(),
        local_addr: addr.to_string(),
        local_port: port,
        remote_addr: "*".to_string(),
        remote_port: 0,
        state: "LISTEN".to_string(),
        pid,
        process_name: name.to_string(),
    }
}

fn status(app: &App) -> Option<String> {
    app.status_message.clone()
}

#[test]
fn view_index_round_trip() {
    for i in 0..7 {
        assert_eq!(View::from_index(i).index(), i);
    }
    assert_eq!(View::from_index(7), View::Dashboard);
    assert_eq!(View::from_index(100), View::Dashboard);
    assert_eq!(View::PortTable.index(), 6);
    assert_eq!(View::titles(), &["Dashboard", "CPU", "Memory", "Disk", "GPU", "Processes", "Ports"]);
}

#[test]
fn new_app_defaults() {
    let app = App::new(&Config { rate: 500, no_gpu: true, no_ports: true });
    assert!(app.running);
    assert_eq!(app.view, View::Dashboard);
    assert_eq!(app.input_mode, InputMode::Normal);
    assert_eq!(app.tick_rate_ms, 500);
    assert_eq!(app.process_sort_by, ProcessSortBy::Cpu);
    assert!(!app.process_sort_asc);
    assert_eq!(app.port_sort_by, PortSortBy::Port);
    assert!(app.port_sort_asc);
    assert!(app.status_message.is_none());
}

#[test]
fn quit_keys() {
    let mut app = App::new(&config());
    key(&mut app, KeyCode::Char('q'));
    assert!(!app.running);

    let mut app = App::new(&config());
    key(&mut app, KeyCode::Char('3'));
    assert_eq!(app.view, View::MemoryDetail);
    key(&mut app, KeyCode::Esc);
    assert!(app.running);
    assert_eq!(app.view, View::Dashboard);
    key(&mut app, KeyCode::Esc);
    assert!(!app.running);
}

#[test]
fn releases_are_ignored() {
    let mut app = App::new(&config());
    let order = app.handle_key(KeyEvent { code: KeyCode::Char('q'), kind: KeyEventKind::Release });
    assert!(order.is_none());
    assert!(app.running);
}

#[test]
fn tab_cycles_views() {
    let mut app = App::new(&config());
    let mut seen = Vec::new();
    for _ in 0..7 {
        key(&mut app, KeyCode::Tab);
        seen.push(app.view.index());
    }
    assert_eq!(seen, vec![1, 2, 3, 4, 5, 6, 0]);
    key(&mut app, KeyCode::BackTab);
    assert_eq!(app.view, View::PortTable);
    key(&mut app, KeyCode::Tab);
    assert_eq!(app.view, View::Dashboard);
}

#[test]
fn number_keys_jump() {
    let mut app = App::new(&config());
    let expect = [
        View::Dashboard,
        View::CpuDetail,
        View::MemoryDetail,
        View::DiskDetail,
        View::GpuDetail,
        View::ProcessTable,
        View::PortTable,
    ];
    for (i, v) in expect.iter().enumerate() {
        let c = char::from(b'1' + i as u8);
        key(&mut app, KeyCode::Char(c));
        assert_eq!(app.view, *v);
    }
}

#[test]
fn help_overlay_swallows_keys() {
    let mut app = App::new(&config());
    key(&mut app, KeyCode::Char('?'));
    assert!(app.show_help);
    key(&mut app, KeyCode::Char('q'));
    assert!(app.running);
    assert!(app.show_help);
    key(&mut app, KeyCode::Esc);
    assert!(!app.show_help);
    assert!(app.running);
}

#[test]
fn refresh_rate_keys() {
    let mut app = App::new(&config());
    key(&mut app, KeyCode::Char('+'));
    assert_eq!(app.tick_rate_ms, 750);
    assert_eq!(status(&app).as_deref(), Some("Refresh rate: 750ms"));
    key(&mut app, KeyCode::Char('-'));
    assert_eq!(app.tick_rate_ms, 1000);

    let mut app = App::new(&Config { rate: 250, no_gpu: false, no_ports: false });
    key(&mut app, KeyCode::Char('='));
    assert_eq!(app.tick_rate_ms, 250);
    assert!(status(&app).is_none());

    let mut app = App::new(&Config { rate: 10000, no_gpu: false, no_ports: false });
    key(&mut app, KeyCode::Char('-'));
    assert_eq!(app.tick_rate_ms, 10000);
}

#[test]
fn status_freshness_and_age() {
    let mut app = App::new(&config());
    assert!(!app.take_status_fresh());
    app.set_status("hello".to_string());
    assert!(app.take_status_fresh());
    assert!(!app.take_status_fresh());
    assert_eq!(app.status_text(0), Some("hello"));
    assert_eq!(app.status_text(4), Some("hello"));
    assert_eq!(app.status_text(5), None);
}

#[test]
fn filter_mode_typing() {
    let mut app = App::new(&config());
    key(&mut app, KeyCode::Char('/'));
    assert_eq!(app.input_mode, InputMode::Filter);
    type_text(&mut app, "chrx");
    key(&mut app, KeyCode::Backspace);
    assert_eq!(app.filter_input, "chr");
    key(&mut app, KeyCode::Enter);
    assert_eq!(app.input_mode, InputMode::Normal);
    assert_eq!(app.filter_input, "chr");
    key(&mut app, KeyCode::Char('/'));
    assert_eq!(app.filter_input, "");
    type_text(&mut app, "abc");
    key(&mut app, KeyCode::Esc);
    assert_eq!(app.filter_input, "");
    assert_eq!(app.input_mode, InputMode::Normal);
}

#[test]
fn command_palette_editing() {
    let mut app = App::new(&config());
    key(&mut app, KeyCode::Char(':'));
    assert_eq!(app.input_mode, InputMode::CommandPalette);
    type_text(&mut app, "quix");
    key(&mut app, KeyCode::Backspace);
    key(&mut app, KeyCode::Char('t'));
    assert_eq!(app.command_input, "quit");
    key(&mut app, KeyCode::Esc);
    assert_eq!(app.command_input, "");
    assert_eq!(app.input_mode, InputMode::Normal);
    assert!(app.running);
    assert!(run_command(&mut app, "  quit  ").is_none());
    assert!(!app.running);
    assert_eq!(app.input_mode, InputMode::Normal);
    assert_eq!(app.command_input, "");
}

#[test]
fn kill_command() {
    let mut app = App::new(&config());
    let order = run_command(&mut app, "kill 4242").expect("a kill order");
    assert_eq!(order.pid, 4242);
    assert_eq!(order.success_message, "Killed PID 4242");
    assert_eq!(order.failure_prefix, "Failed: ");
    app.finish_kill(order, Err("Process with PID 4242 not found".to_string()));
    assert_eq!(status(&app).as_deref(), Some("Failed: Process with PID 4242 not found"));

    assert!(run_command(&mut app, "kill +7").map(|o| o.pid) == Some(7));
    assert!(run_command(&mut app, "kill abc").is_none());
    assert_eq!(status(&app).as_deref(), Some("Invalid PID"));
    assert!(run_command(&mut app, "kill 4294967296").is_none());
    assert_eq!(status(&app).as_deref(), Some("Invalid PID"));
    assert!(run_command(&mut app, "kill").is_none());
    assert_eq!(status(&app).as_deref(), Some("Usage: kill <pid>"));
}

#[test]
fn kill_port_command() {
    let mut app = App::new(&config());
    app.refresh_all(
        Vec::new(),
        Some(vec![
            port_row("TCP", "0.0.0.0", 22, None, "sshd"),
            port_row("TCP", "0.0.0.0", 8080, Some(77), "web"),
            port_row("UDP", "0.0.0.0", 8080, Some(99), "other"),
        ]),
    );
    let order = run_command(&mut app, "kill-port 8080").expect("a kill order");
    assert_eq!(order.pid, 77);
    assert_eq!(order.success_message, "Killed process on port 8080");
    app.finish_kill(order, Ok(()));
    assert_eq!(status(&app).as_deref(), Some("Killed process on port 8080"));
    assert!(run_command(&mut app, "kill-port 22").is_none());
    assert_eq!(status(&app).as_deref(), Some("No process found on port 22"));
    assert!(run_command(&mut app, "kill-port 70000").is_none());
    assert_eq!(status(&app).as_deref(), Some("Invalid port number"));
    assert!(run_command(&mut app, "kill-port").is_none());
    assert_eq!(status(&app).as_deref(), Some("Usage: kill-port <port>"));
}

#[test]
fn rate_filter_sort_commands() {
    let mut app = App::new(&config());
    run_command(&mut app, "rate 500");
    assert_eq!(app.tick_rate_ms, 500);
    assert_eq!(status(&app).as_deref(), Some("Refresh rate: 500ms"));
    run_command(&mut app, "rate 50");
    assert_eq!(app.tick_rate_ms, 500);
    assert_eq!(status(&app).as_deref(), Some("Minimum rate is 100ms"));
    run_command(&mut app, "rate fast");
    assert_eq!(status(&app).as_deref(), Some("Invalid rate value"));
    run_command(&mut app, "rate");
    assert_eq!(status(&app).as_deref(), Some("Usage: rate <ms>"));

    run_command(&mut app, "filter  chrome   tabs ");
    assert_eq!(app.filter_input, "chrome tabs");
    assert_eq!(status(&app).as_deref(), Some("Filter: chrome tabs"));
    run_command(&mut app, "filter");
    assert_eq!(app.filter_input, "");

    run_command(&mut app, "sort MEM");
    assert_eq!(app.process_sort_by, ProcessSortBy::Memory);
    assert_eq!(status(&app).as_deref(), Some("Sorting by: MEM"));
    run_command(&mut app, "sort name");
    assert_eq!(app.process_sort_by, ProcessSortBy::Name);
    run_command(&mut app, "sort pid");
    assert_eq!(app.process_sort_by, ProcessSortBy::Pid);
    assert_eq!(app.port_sort_by, PortSortBy::Port);
    run_command(&mut app, "sort protocol");
    assert_eq!(app.port_sort_by, PortSortBy::Protocol);
    run_command(&mut app, "sort state");
    assert_eq!(app.port_sort_by, PortSortBy::State);
    run_command(&mut app, "sort port");
    assert_eq!(app.port_sort_by, PortSortBy::Port);
    run_command(&mut app, "sort Bogus");
    assert_eq!(status(&app).as_deref(), Some("Unknown sort column: Bogus"));
    run_command(&mut app, "sort");
    assert_eq!(status(&app).as_deref(), Some("Usage: sort <column>"));
    run_command(&mut app, "frobnicate now");
    assert_eq!(status(&app).as_deref(), Some("Unknown command: frobnicate"));
    app.status_message = None;
    run_command(&mut app, "   ");
    assert!(status(&app).is_none());
}

fn sample_app() -> App {
    let mut app = App::new(&config());
    app.refresh_all(
        vec![
            proc_row(10, "bash", 1.0, 100, "/bin/bash"),
            proc_row(20, "Chrome", 30.0, 900, "/opt/chrome --type=renderer"),
            proc_row(30, "sshd", 0.5, 50, "/usr/sbin/sshd"),
            proc_row(300, "cron", 2.0, 20, "/usr/sbin/cron"),
        ],
        None,
    );
    app
}

#[test]
fn processes_sorted_on_refresh() {
    let app = sample_app();
    let pids: Vec<u32> = app.processes.iter().map(|p| p.pid).collect();
    assert_eq!(pids, vec![20, 300, 10, 30]);
}

#[test]
fn filter_processes_by_name_command_and_pid() {
    let mut app = sample_app();
    app.filter_input = "CHROME".to_string();
    let f: Vec<u32> = app.filtered_processes().iter().map(|p| p.pid).collect();
    assert_eq!(f, vec![20]);
    app.filter_input = "sbin".to_string();
    let f: Vec<u32> = app.filtered_processes().iter().map(|p| p.pid).collect();
    assert_eq!(f, vec![300, 30]);
    app.filter_input = "30".to_string();
    let f: Vec<u32> = app.filtered_processes().iter().map(|p| p.pid).collect();
    assert_eq!(f, vec![300, 30]);
    app.filter_input = String::new();
    assert_eq!(app.filtered_processes().len(), 4);
}

#[test]
fn filter_ports() {
    let mut app = App::new(&config());
    app.refresh_all(
        Vec::new(),
        Some(vec![
            port_row("TCP", "127.0.0.1", 5432, Some(1), "Postgres"),
            port_row("UDP", "0.0.0.0", 53, Some(2), "dnsmasq"),
        ]),
    );
    app.filter_input = "udp".to_string();
    assert_eq!(app.filtered_ports().iter().map(|p| p.local_port).collect::<Vec<_>>(), vec![53]);
    app.filter_input = "postgres".to_string();
    assert_eq!(app.filtered_ports().iter().map(|p| p.local_port).collect::<Vec<_>>(), vec![5432]);
    app.filter_input = "127.".to_string();
    assert_eq!(app.filtered_ports().iter().map(|p| p.local_port).collect::<Vec<_>>(), vec![5432]);
    app.filter_input = "543".to_string();
    assert_eq!(app.filtered_ports().iter().map(|p| p.local_port).collect::<Vec<_>>(), vec![5432]);
}

#[test]
fn table_navigation() {
    let mut app = sample_app();
    key(&mut app, KeyCode::Char('6'));
    key(&mut app, KeyCode::Up);
    assert_eq!(app.process_selected, Some(0));
    key(&mut app, KeyCode::Char('j'));
    key(&mut app, KeyCode::Down);
    assert_eq!(app.process_selected, Some(2));
    key(&mut app, KeyCode::PageDown);
    assert_eq!(app.process_selected, Some(3));
    key(&mut app, KeyCode::Char('k'));
    assert_eq!(app.process_selected, Some(2));
    key(&mut app, KeyCode::PageUp);
    assert_eq!(app.process_selected, Some(0));
    key(&mut app, KeyCode::End);
    assert_eq!(app.process_selected, Some(3));
    key(&mut app, KeyCode::Home);
    assert_eq!(app.process_selected, Some(0));

    let mut empty = App::new(&config());
    key(&mut empty, KeyCode::Char('7'));
    key(&mut empty, KeyCode::Down);
    assert_eq!(empty.port_selected, None);
    key(&mut empty, KeyCode::End);
    assert_eq!(empty.port_selected, None);
    key(&mut empty, KeyCode::Up);
    assert_eq!(empty.port_selected, Some(0));

    let mut dash = sample_app();
    key(&mut dash, KeyCode::Down);
    assert_eq!(dash.process_selected, None);
}

#[test]
fn sort_keys_in_process_table() {
    let mut app = sample_app();
    key(&mut app, KeyCode::Char('6'));
    key(&mut app, KeyCode::Char('s'));
    assert_eq!(app.process_sort_by, ProcessSortBy::Memory);
    assert_eq!(status(&app).as_deref(), Some("Sort: Memory (desc)"));
    key(&mut app, KeyCode::Char('S'));
    assert!(app.process_sort_asc);
    assert_eq!(status(&app).as_deref(), Some("Sort: Memory (asc)"));
    key(&mut app, KeyCode::Char('s'));
    key(&mut app, KeyCode::Char('s'));
    key(&mut app, KeyCode::Char('s'));
    assert_eq!(app.process_sort_by, ProcessSortBy::Cpu);

    key(&mut app, KeyCode::Char('7'));
    app.status_message = None;
    key(&mut app, KeyCode::Char('s'));
    assert_eq!(app.port_sort_by, PortSortBy::Protocol);
    key(&mut app, KeyCode::Char('S'));
    assert!(!app.port_sort_asc);
    assert!(status(&app).is_none());
}

#[test]
fn kill_confirmation_flow() {
    let mut app = sample_app();
    key(&mut app, KeyCode::Char('6'));
    key(&mut app, KeyCode::Down);
    key(&mut app, KeyCode::Down);
    key(&mut app, KeyCode::Char('K'));
    assert_eq!(app.input_mode, InputMode::ConfirmKill);
    assert_eq!(app.confirm_kill, Some((300, "cron".to_string())));
    let order = app.handle_key(press(KeyCode::Char('y'))).expect("a kill order");
    assert_eq!(order.pid, 300);
    assert_eq!(order.success_message, "Killed cron (PID 300)");
    assert_eq!(order.failure_prefix, "Failed to kill cron: ");
    assert_eq!(app.input_mode, InputMode::Normal);
    assert!(app.confirm_kill.is_none());
    app.finish_kill(order, Ok(()));
    assert_eq!(status(&app).as_deref(), Some("Killed cron (PID 300)"));

    key(&mut app, KeyCode::Delete);
    assert_eq!(app.input_mode, InputMode::ConfirmKill);
    assert!(app.handle_key(press(KeyCode::Char('n'))).is_none());
    assert!(app.confirm_kill.is_none());
    assert_eq!(app.input_mode, InputMode::Normal);
}

#[test]
fn kill_from_port_table() {
    let mut app = App::new(&config());
    app.refresh_all(
        Vec::new(),
        Some(vec![port_row("TCP", "0.0.0.0", 3000, Some(55), "node"), port_row("TCP", "0.0.0.0", 3001, None, "")]),
    );
    key(&mut app, KeyCode::Char('7'));
    key(&mut app, KeyCode::Home);
    key(&mut app, KeyCode::Char('K'));
    assert_eq!(app.confirm_kill, Some((55, "port:3000".to_string())));
    let order = app.handle_key(press(KeyCode::Char('Y'))).expect("a kill order");
    assert_eq!(order.pid, 55);
    assert_eq!(order.success_message, "Killed port:3000 (PID 55)");
    key(&mut app, KeyCode::End);
    key(&mut app, KeyCode::Char('K'));
    assert_eq!(app.input_mode, InputMode::Normal);
    assert_eq!(status(&app).as_deref(), Some("No PID associated with this port"));
}

#[test]
fn ports_sorted_on_refresh() {
    let mut app = App::new(&config());
    app.refresh_all(
        Vec::new(),
        Some(vec![
            port_row("UDP", "a", 53, None, ""),
            port_row("TCP", "b", 22, Some(9), ""),
            port_row("TCP", "c", 53, Some(1), ""),
        ]),
    );
    let got: Vec<(u16, String)> = app.ports.iter().map(|p| (p.local_port, p.local_addr.clone())).collect();
    assert_eq!(got, vec![(22, "b".to_string()), (53, "a".to_string()), (53, "c".to_string())]);
    app.refresh_all(Vec::new(), None);
    assert_eq!(app.ports.len(), 3);
}

#[test]
fn quit_command_short() {
    let mut app = App::new(&config());
    assert!(run_command(&mut app, "q").is_none());
    assert!(!app.running);
    let mut app = App::new(&config());
    assert!(run_command(&mut app, "quitter").is_none());
    assert!(app.running);
    assert_eq!(app.status_message.as_deref(), Some("Unknown command: quitter"));
}

#[test]
fn sort_keys_restore_both_tables() {
    let mut app = sample_app();
    key(&mut app, KeyCode::Char('7'));
    let before = (app.process_sort_by, app.process_sort_asc, app.port_sort_by, app.port_sort_asc);
    key(&mut app, KeyCode::Char('S'));
    assert_eq!((app.process_sort_by, app.process_sort_asc, app.port_sort_by), (before.0, before.1, before.2));
    assert_eq!(app.port_sort_asc, !before.3);
    key(&mut app, KeyCode::Char('S'));
    assert_eq!((app.process_sort_by, app.process_sort_asc, app.port_sort_by, app.port_sort_asc), before);
    for _ in 0..4 {
        key(&mut app, KeyCode::Char('s'));
    }
    assert_eq!((app.process_sort_by, app.process_sort_asc, app.port_sort_by, app.port_sort_asc), before);
    key(&mut app, KeyCode::Char('1'));
    key(&mut app, KeyCode::Char('s'));
    key(&mut app, KeyCode::Char('S'));
    assert_eq!((app.process_sort_by, app.process_sort_asc, app.port_sort_by, app.port_sort_asc), before);
}
