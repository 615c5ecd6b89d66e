use conntracktor::app::{action_of, page_size_for_height, App, KeyAction, KeyCode, TableSelection};
use conntracktor::conntrack::{get_stats, ConntrackStats};
use conntracktor::platform::accelerator::AccelerationProbe;
use conntracktor::platform::hardware::HardwareProbe;
use conntracktor::platform::soc::SocModel;
use conntracktor::topology::Topology;

fn sel(selected: Option<usize>, offset: usize) -> TableSelection {
    TableSelection { selected, offset }
}

/// An application showing the four stand-in connections.
fn app_with_rows() -> App {
    let mut app = App::new();
    app.on_tick(get_stats(None, None, &Topology::new()));
    app
}

/// An application showing `n` parsed connections.
fn app_with(n: usize) -> App {
    let line = "ipv4 2 tcp 6 100 ESTABLISHED src=192.168.1.2 dst=8.8.8.8";
    let lines: Vec<String> = (0..n).map(|_| line.to_string()).collect();
    let mut app = App::new();
    app.on_tick(get_stats(Some("100"), Some(&lines), &Topology::new()));
    app
}

#[test]
fn new_app_state() {
    let app = App::new();
    assert!(!app.should_quit);
    assert!(!app.show_help);
    assert_eq!(app.table_state, sel(Some(0), 0));
    assert_eq!(app.page_size, 10);
    assert!(app.conntrack_stats.connections.is_empty());
    assert_eq!(app.hardware_info.soc, SocModel::Unknown);
}

#[test]
fn select_clears_offset_only_when_clearing() {
    let mut t = sel(Some(5), 3);
    t.select(Some(7));
    assert_eq!(t, sel(Some(7), 3));
    t.select(None);
    assert_eq!(t, sel(None, 0));
    assert_eq!(TableSelection::new(), sel(None, 0));
}

#[test]
fn next_and_previous_wrap() {
    let mut app = app_with_rows();
    app.next();
    assert_eq!(app.table_state.selected, Some(1));
    app.table_state.select(Some(3));
    app.next();
    assert_eq!(app.table_state.selected, Some(0));
    app.previous();
    assert_eq!(app.table_state.selected, Some(3));
    app.previous();
    assert_eq!(app.table_state.selected, Some(2));
}

#[test]
fn previous_undoes_next() {
    for start in 0..4 {
        let mut app = app_with_rows();
        app.table_state.select(Some(start));
        app.next();
        app.previous();
        assert_eq!(app.table_state.selected, Some(start));
        app.previous();
        app.next();
        assert_eq!(app.table_state.selected, Some(start));
    }
}

#[test]
fn navigation_in_an_empty_table() {
    let mut app = App::new();
    app.table_state.select(None);
    app.next();
    assert_eq!(app.table_state.selected, Some(0));
    app.previous();
    assert_eq!(app.table_state.selected, Some(0));
    app.table_state.offset = 4;
    app.first();
    assert_eq!(app.table_state, sel(None, 0));
    app.last();
    assert_eq!(app.table_state, sel(None, 0));
    app.page_up();
    assert_eq!(app.table_state, sel(None, 0));
    app.page_down();
    assert_eq!(app.table_state, sel(None, 0));
}

#[test]
fn first_and_last() {
    let mut app = app_with_rows();
    app.last();
    assert_eq!(app.table_state.selected, Some(3));
    app.first();
    assert_eq!(app.table_state.selected, Some(0));
}

#[test]
fn paging_down_and_up() {
    let mut app = app_with_rows();
    app.page_size = 2;
    app.page_down();
    assert_eq!(app.table_state, sel(Some(2), 2));
    app.page_down();
    assert_eq!(app.table_state, sel(Some(3), 2));
    app.page_up();
    assert_eq!(app.table_state, sel(Some(1), 0));
    app.page_up();
    assert_eq!(app.table_state, sel(Some(0), 0));
}

#[test]
fn paging_keeps_the_row_on_screen() {
    let mut app = app_with(25);
    app.page_size = 10;
    app.table_state = sel(Some(3), 1);
    app.page_down();
    assert_eq!(app.table_state, sel(Some(13), 11));
    app.page_down();
    assert_eq!(app.table_state, sel(Some(17), 15));
    app.page_down();
    assert_eq!(app.table_state, sel(Some(24), 15));
    app.table_state = sel(Some(14), 12);
    app.page_up();
    assert_eq!(app.table_state, sel(Some(4), 2));
    app.page_up();
    assert_eq!(app.table_state, sel(Some(2), 0));
}

#[test]
fn page_size_larger_than_table() {
    let mut app = app_with(3);
    app.page_size = 10;
    app.table_state = sel(Some(1), 0);
    app.page_down();
    assert_eq!(app.table_state, sel(Some(2), 0));
}

#[test]
fn refresh_keeps_selection_in_range() {
    let mut app = app_with_rows();
    app.table_state.select(Some(3));
    app.on_tick(get_stats(Some("1"), Some(&vec!["ipv4 2 udp 17 30 x".to_string(); 2]), &Topology::new()));
    assert_eq!(app.table_state.selected, Some(1));
    app.on_tick(ConntrackStats::default());
    assert_eq!(app.table_state, sel(None, 0));
    app.on_tick(get_stats(None, None, &Topology::new()));
    assert_eq!(app.table_state.selected, None);
}

#[test]
fn help_toggles() {
    let mut app = App::new();
    app.toggle_help();
    assert!(app.show_help);
    app.toggle_help();
    assert!(!app.show_help);
}

#[test]
fn escape_closes_help_before_quitting() {
    let mut app = App::new();
    app.handle_key(KeyCode::Char('?'), false);
    assert!(app.show_help);
    app.handle_key(KeyCode::Esc, false);
    assert!(!app.show_help);
    assert!(!app.should_quit);
    app.handle_key(KeyCode::Char('q'), false);
    assert!(app.should_quit);
}

#[test]
fn quit_sets_flag() {
    let mut app = App::new();
    app.quit();
    assert!(app.should_quit);
}

#[test]
fn key_bindings() {
    assert_eq!(action_of(KeyCode::Char('?'), false), KeyAction::ToggleHelp);
    assert_eq!(action_of(KeyCode::Char('j'), true), KeyAction::Next);
    assert_eq!(action_of(KeyCode::Down, false), KeyAction::Next);
    assert_eq!(action_of(KeyCode::Char('k'), false), KeyAction::Previous);
    assert_eq!(action_of(KeyCode::Up, false), KeyAction::Previous);
    assert_eq!(action_of(KeyCode::Home, false), KeyAction::First);
    assert_eq!(action_of(KeyCode::Char('g'), false), KeyAction::First);
    assert_eq!(action_of(KeyCode::End, false), KeyAction::Last);
    assert_eq!(action_of(KeyCode::Char('G'), false), KeyAction::Last);
    assert_eq!(action_of(KeyCode::PageUp, false), KeyAction::PageUp);
    assert_eq!(action_of(KeyCode::Char('b'), true), KeyAction::PageUp);
    assert_eq!(action_of(KeyCode::Char('u'), true), KeyAction::PageUp);
    assert_eq!(action_of(KeyCode::Char('b'), false), KeyAction::Ignore);
    assert_eq!(action_of(KeyCode::PageDown, false), KeyAction::PageDown);
    assert_eq!(action_of(KeyCode::Char('f'), true), KeyAction::PageDown);
    assert_eq!(action_of(KeyCode::Char('d'), true), KeyAction::PageDown);
    assert_eq!(action_of(KeyCode::Char('d'), false), KeyAction::Ignore);
    assert_eq!(action_of(KeyCode::Esc, false), KeyAction::Back);
    assert_eq!(action_of(KeyCode::Char('q'), true), KeyAction::Back);
    assert_eq!(action_of(KeyCode::Char('x'), false), KeyAction::Ignore);
    assert_eq!(action_of(KeyCode::Other, true), KeyAction::Ignore);
}

#[test]
fn keys_move_the_selection() {
    let mut app = app_with_rows();
    app.handle_key(KeyCode::Char('G'), false);
    assert_eq!(app.table_state.selected, Some(3));
    app.handle_key(KeyCode::Char('j'), false);
    assert_eq!(app.table_state.selected, Some(0));
    app.handle_key(KeyCode::Up, false);
    assert_eq!(app.table_state.selected, Some(3));
    app.handle_key(KeyCode::Char('x'), false);
    assert_eq!(app.table_state.selected, Some(3));
    assert!(!app.should_quit && !app.show_help);
}

#[test]
fn page_size_from_height() {
    assert_eq!(page_size_for_height(20), 16);
    assert_eq!(page_size_for_height(5), 1);
    assert_eq!(page_size_for_height(4), 1);
    assert_eq!(page_size_for_height(0), 1);
    assert_eq!(page_size_for_height(u16::MAX), 65531);
}

#[test]
fn init_records_detection() {
    let acc = AccelerationProbe {
        flowtable: Some("flowtable ft { flags offload; }".to_string()),
        ppe_nodes: vec!["/sys/kernel/debug/ppe0".to_string()],
        wed_params: Vec::new(),
        wed_nodes: Vec::new(),
    };
    let hw = HardwareProbe {
        compatible: Some("mediatek,mt7988a".to_string()),
        sysinfo_cpu_count: 4,
        sysinfo_cpu_brand: None,
        cpuinfo: String::new(),
        clk_rates: vec![None, None, None, None],
        clk_summary: None,
        meminfo: None,
        platform_devices: Vec::new(),
        soc_nodes: Vec::new(),
        main_interface: None,
        rx_queue_present: false,
        crypto: None,
        rng_available: None,
        hwrng_present: false,
        securelevel_present: false,
        secure_boot_node_present: false,
        tee_device_present: false,
        tee_class_present: false,
    };
    let mut app = App::new();
    app.init(&acc, &hw, Some("gw".to_string()), Some("Linux (OpenWrt 24.10.0)".to_string()));
    assert!(app.acc_status.software && app.acc_status.hw_ppe && !app.acc_status.hw_wed);
    assert_eq!(app.hardware_info.soc, SocModel::Mt7988);
    assert_eq!(app.hardware_info.cpu_arch, "4× Cortex-A73");
    assert_eq!(app.hardware_info.ppe_count, 3);
    assert_eq!(app.host_info.hostname, "gw");
    assert_eq!(app.host_info.os_version, "OpenWrt 24.10.0");
    assert_eq!(app.table_state, sel(Some(0), 0));
}

#[test]
fn default_app_is_new_app() {
    let app = App::default();
    assert_eq!(app.table_state, sel(Some(0), 0));
    assert_eq!(app.page_size, 10);
    assert!(!app.show_help && !app.should_quit);
}

#[test]
fn every_key_keeps_the_selection_in_the_table() {
    let keys = [
        KeyCode::Down,
        KeyCode::Up,
        KeyCode::Home,
        KeyCode::End,
        KeyCode::PageUp,
        KeyCode::PageDown,
        KeyCode::Char('j'),
        KeyCode::Char('k'),
        KeyCode::Char('?'),
    ];
    for &page in &[1usize, 3, 10] {
        for start in 0..7 {
            for &key in keys.iter() {
                let mut app = app_with(7);
                app.page_size = page;
                app.table_state = sel(Some(start), start.min(6 - start % 3));
                app.handle_key(key, false);
                let t = app.table_state;
                assert!(t.selected.unwrap() < 7);
                assert!(t.offset < 7);
            }
        }
    }
}
