use azeroth_dashboard::poller::{check_config_status, DashboardPoller, PollAction};

fn describe(a: PollAction) -> (&'static str, String) {
    match a {
        PollAction::Render(s) => ("render", s),
        PollAction::Update(s) => ("update", s),
        PollAction::ShowError(s) => ("error", s),
        PollAction::Wait => ("wait", String::new()),
    }
}

#[test]
fn success_status_passes() {
    assert!(check_config_status(200).is_ok());
    assert!(check_config_status(201).is_ok());
}

#[test]
fn failure_status_is_reported_with_its_reason() {
    assert_eq!(check_config_status(404), Err("HTTP Error: 404 Not Found".to_string()));
    assert_eq!(
        check_config_status(500),
        Err("HTTP Error: 500 Internal Server Error".to_string())
    );
    assert_eq!(check_config_status(599), Err("HTTP Error: 599 <unknown status code>".to_string()));
    assert_eq!(check_config_status(100), Err("HTTP Error: 100 Continue".to_string()));
}

#[test]
fn first_success_renders_then_updates() {
    let mut p = DashboardPoller::new();
    assert!(p.is_first_render);
    assert_eq!(describe(p.on_fetch(Ok("{a}".to_string()))), ("render", "{a}".to_string()));
    assert!(!p.is_first_render);
    assert_eq!(describe(p.on_fetch(Ok("{b}".to_string()))), ("update", "{b}".to_string()));
    assert_eq!(describe(p.on_fetch(Ok("{c}".to_string()))), ("update", "{c}".to_string()));
}

#[test]
fn failure_before_first_render_is_shown() {
    let mut p = DashboardPoller::new();
    assert_eq!(
        describe(p.on_fetch(Err("HTTP Error: 404 Not Found".to_string()))),
        (
            "error",
            "<div style='color: red;'>Failed to load dashboard: HTTP Error: 404 Not Found</div>"
                .to_string()
        )
    );
    assert!(p.is_first_render);
    assert_eq!(describe(p.on_fetch(Ok("{}".to_string()))).0, "render");
}

#[test]
fn failure_after_first_render_is_ignored() {
    let mut p = DashboardPoller::new();
    p.on_fetch(Ok("{}".to_string()));
    assert_eq!(describe(p.on_fetch(Err("down".to_string()))).0, "wait");
    assert!(!p.is_first_render);
    assert_eq!(describe(p.on_fetch(Ok("{}".to_string()))).0, "update");
}

#[test]
fn a_run_of_polls_renders_once() {
    let mut p = DashboardPoller::new();
    let outcomes = [false, false, true, false, true, true, false];
    let mut renders = 0;
    for ok in outcomes {
        let fetched = if ok { Ok("{}".to_string()) } else { Err("x".to_string()) };
        if describe(p.on_fetch(fetched)).0 == "render" {
            renders += 1;
        }
    }
    assert_eq!(renders, 1);
}

#[test]
fn each_poll_of_a_run_does_what_its_position_says() {
    let mut p = DashboardPoller::new();
    let run = [Err("a"), Err("b"), Ok("one"), Err("c"), Ok("two")];
    let mut seen = Vec::new();
    for r in run {
        let fetched = r.map(|s| s.to_string()).map_err(|e| e.to_string());
        seen.push(describe(p.on_fetch(fetched)));
    }
    let kinds: Vec<&str> = seen.iter().map(|(k, _)| *k).collect();
    assert_eq!(kinds, vec!["error", "error", "render", "wait", "update"]);
    assert_eq!(seen[2].1, "one");
    assert_eq!(seen[4].1, "two");
}
