use azeroth_dashboard::dashboard::{
    build_dashboard, needs_alert, record_history, status_is_success, DashboardConfig, PanelConfig,
    PanelReadings, HISTORY_LEN,
};

type Point = (u32, u32);
type Bar = &'static str;

fn readings() -> PanelReadings<Point, Bar> {
    PanelReadings {
        cpu_usage: "12.5%".to_string(),
        cpu_alert: false,
        ram_usage: "1.7%".to_string(),
        ram_alert: false,
        online_players: "1420".to_string(),
        total_packets: "3.2M".to_string(),
        world_update_history: vec![(1, 35), (2, 42)],
        world_update_alert: false,
        memory: "256.0 MB".to_string(),
        memory_alert: false,
        ping: "45 ms".to_string(),
        ping_alert: false,
        network_traffic: vec!["IN", "OUT"],
        update_phases: vec!["Scripts", "Maps", "Sessions"],
        update_phases_alert: false,
        database_queues: vec!["Character", "World", "Login"],
        database_queues_alert: false,
    }
}

fn badge(p: &PanelConfig<Point, Bar>) -> (String, String, Option<String>, Option<bool>) {
    match p {
        PanelConfig::StatBadge { title, value, color, alert } => {
            (title.clone(), value.clone(), color.clone(), *alert)
        }
        _ => panic!("not a badge"),
    }
}

fn title_of(p: &PanelConfig<Point, Bar>) -> String {
    match p {
        PanelConfig::LineChart { title, .. } => title.clone(),
        PanelConfig::BarChart { title, .. } => title.clone(),
        PanelConfig::StatBadge { title, .. } => title.clone(),
    }
}

#[test]
fn success_statuses_are_200_to_299() {
    assert!(status_is_success(200));
    assert!(status_is_success(204));
    assert!(status_is_success(299));
    assert!(!status_is_success(199));
    assert!(!status_is_success(300));
    assert!(!status_is_success(404));
    assert!(!status_is_success(500));
}

#[test]
fn titles_tell_live_from_mock() {
    let live: DashboardConfig<Point, Bar> = build_dashboard(true, readings());
    assert_eq!(live.title, "AzerothCore Observability (LIVE)");
    let mock: DashboardConfig<Point, Bar> = build_dashboard(false, readings());
    assert_eq!(mock.title, "AzerothCore Observability (MOCK - Server Offline)");
    assert_eq!(mock.description.as_deref(), Some("Disaster-Ready Metrics (System & Backend)"));
}

#[test]
fn panels_come_in_their_order() {
    let c = build_dashboard(true, readings());
    let titles: Vec<String> = c.panels.iter().map(title_of).collect();
    assert_eq!(
        titles,
        vec![
            "Server CPU Usage (%)",
            "Server RAM Usage (%)",
            "Online Players (ac_world_online_players)",
            "Total Packets (ac_world_packets_total)",
            "World Update Duration (s)",
            "Memory (RSS)",
            "Average Ping",
            "Network Traffic (MB)",
            "Update Phases (s)",
            "Database Queue Size",
        ]
    );
    assert_eq!(
        badge(&c.panels[0]),
        ("Server CPU Usage (%)".to_string(), "12.5%".to_string(), Some("#f43f5e".to_string()), Some(false))
    );
    assert_eq!(badge(&c.panels[3]).1, "3.2M");
    assert_eq!(badge(&c.panels[6]).2, Some("#2dd4bf".to_string()));
    match &c.panels[4] {
        PanelConfig::LineChart { data, width, height, alert, .. } => {
            assert_eq!(data, &vec![(1, 35), (2, 42)]);
            assert_eq!((*width, *height, *alert), (Some(400), Some(250), Some(false)));
        }
        _ => panic!("panel 4 is the world update chart"),
    }
    match &c.panels[9] {
        PanelConfig::BarChart { data, width, height, .. } => {
            assert_eq!(data, &vec!["Character", "World", "Login"]);
            assert_eq!((*width, *height), (Some(400), Some(250)));
        }
        _ => panic!("panel 9 is the queue chart"),
    }
}

#[test]
fn calm_readings_need_no_alert() {
    assert!(!needs_alert(&build_dashboard(true, readings())));
}

#[test]
fn each_threshold_raises_an_alert() {
    let setters: Vec<fn(&mut PanelReadings<Point, Bar>)> = vec![
        |r| r.cpu_alert = true,
        |r| r.ram_alert = true,
        |r| r.world_update_alert = true,
        |r| r.memory_alert = true,
        |r| r.ping_alert = true,
        |r| r.update_phases_alert = true,
        |r| r.database_queues_alert = true,
    ];
    for set in setters {
        let mut r = readings();
        set(&mut r);
        assert!(needs_alert(&build_dashboard(false, r)));
    }
}

#[test]
fn empty_dashboard_needs_no_alert() {
    let c: DashboardConfig<Point, Bar> =
        DashboardConfig { title: String::new(), description: None, panels: vec![] };
    assert!(!needs_alert(&c));
    let c: DashboardConfig<Point, Bar> = DashboardConfig {
        title: String::new(),
        description: None,
        panels: vec![PanelConfig::StatBadge {
            title: String::new(),
            value: String::new(),
            color: None,
            alert: None,
        }],
    };
    assert!(!needs_alert(&c));
}

#[test]
fn history_keeps_the_latest_ten_points() {
    let mut h: Vec<u32> = vec![1, 2, 3, 4, 5];
    for p in 6..=10 {
        record_history(&mut h, p);
    }
    assert_eq!(h, (1..=10).collect::<Vec<u32>>());
    record_history(&mut h, 11);
    assert_eq!(h, (2..=11).collect::<Vec<u32>>());
    assert_eq!(h.len(), HISTORY_LEN);
    for p in 12..40 {
        record_history(&mut h, p);
        assert_eq!(h.len(), HISTORY_LEN);
        assert_eq!(*h.last().unwrap(), p);
    }
    assert_eq!(h[0], 30);
}

#[test]
fn history_grows_from_empty() {
    let mut h: Vec<u32> = Vec::new();
    record_history(&mut h, 7);
    assert_eq!(h, vec![7]);
}
