//! The dashboard served to the browser: its panels, in order, and the rule
//! that decides when the readings call for an alert.
//!
//! The chart points and bars carry measurements; the library lays them out
//! without looking into them, so their types are parameters here.

use vstd::prelude::*;

verus! {

/// How many points of the world update history the dashboard keeps.
pub const HISTORY_LEN: usize = 10;

/// A dashboard: a title, an optional description and the panels in order.
pub struct DashboardConfig<P, B> {
    pub title: String,
    pub description: Option<String>,
    pub panels: Vec<PanelConfig<P, B>>,
}

/// One panel of the dashboard.
#[allow(inconsistent_fields)]
pub enum PanelConfig<P, B> {
    LineChart {
        title: String,
        data: Vec<P>,
        width: Option<u32>,
        height: Option<u32>,
        alert: Option<bool>,
    },
    BarChart {
        title: String,
        data: Vec<B>,
        width: Option<u32>,
        height: Option<u32>,
        alert: Option<bool>,
    },
    StatBadge { title: String, value: String, color: Option<String>, alert: Option<bool> },
}

/// What the panels show: the texts of the badges, the chart data and, for
/// each reading that has a threshold, whether it is over it.
pub struct PanelReadings<P, B> {
    pub cpu_usage: String,
    pub cpu_alert: bool,
    pub ram_usage: String,
    pub ram_alert: bool,
    pub online_players: String,
    pub total_packets: String,
    pub world_update_history: Vec<P>,
    pub world_update_alert: bool,
    pub memory: String,
    pub memory_alert: bool,
    pub ping: String,
    pub ping_alert: bool,
    pub network_traffic: Vec<B>,
    pub update_phases: Vec<B>,
    pub update_phases_alert: bool,
    pub database_queues: Vec<B>,
    pub database_queues_alert: bool,
}

/// Whether an HTTP status code means success (`StatusCode::is_success`: the
/// code is within 200-299).
pub open spec fn is_success_status(code: u16) -> bool {
    200 <= code < 300
}

/// Whether an HTTP status code means success.
pub fn status_is_success(code: u16) -> (ok: bool)
    ensures
        ok == is_success_status(code),
{
    200 <= code && code < 300
}

/// The dashboard title: it says whether the numbers come from the live
/// server or from the simulation used while the server is offline.
pub open spec fn dashboard_title(is_live: bool) -> Seq<char> {
    if is_live {
        "AzerothCore Observability (LIVE)"@
    } else {
        "AzerothCore Observability (MOCK - Server Offline)"@
    }
}

/// `p` is a badge with this title, value, color and alert flag.
pub open spec fn is_badge<P, B>(
    p: PanelConfig<P, B>,
    title: Seq<char>,
    value: Seq<char>,
    color: Seq<char>,
    alert: bool,
) -> bool {
    match p {
        PanelConfig::StatBadge { title: t, value: v, color: c, alert: a } => {
            &&& t@ == title
            &&& v@ == value
            &&& c matches Some(cs) && cs@ == color
            &&& a == Some(alert)
        },
        _ => false,
    }
}

/// `p` is a 400 by 250 line chart with this title, data and alert flag.
pub open spec fn is_line_chart<P, B>(
    p: PanelConfig<P, B>,
    title: Seq<char>,
    data: Seq<P>,
    alert: bool,
) -> bool {
    match p {
        PanelConfig::LineChart { title: t, data: d, width: w, height: h, alert: a } => {
            &&& t@ == title
            &&& d@ == data
            &&& w == Some(400u32)
            &&& h == Some(250u32)
            &&& a == Some(alert)
        },
        _ => false,
    }
}

/// `p` is a 400 by 250 bar chart with this title, data and alert flag.
pub open spec fn is_bar_chart<P, B>(
    p: PanelConfig<P, B>,
    title: Seq<char>,
    data: Seq<B>,
    alert: bool,
) -> bool {
    match p {
        PanelConfig::BarChart { title: t, data: d, width: w, height: h, alert: a } => {
            &&& t@ == title
            &&& d@ == data
            &&& w == Some(400u32)
            &&& h == Some(250u32)
            &&& a == Some(alert)
        },
        _ => false,
    }
}

/// `c` is the dashboard for these readings: its title, description and the
/// ten panels in order.
pub open spec fn dashboard_layout<P, B>(
    c: DashboardConfig<P, B>,
    is_live: bool,
    r: PanelReadings<P, B>,
) -> bool {
    &&& c.title@ == dashboard_title(is_live)
    &&& c.description matches Some(d) && d@ == "Disaster-Ready Metrics (System & Backend)"@
    &&& c.panels@.len() == 10
    &&& is_badge(c.panels@[0], "Server CPU Usage (%)"@, r.cpu_usage@, "#f43f5e"@, r.cpu_alert)
    &&& is_badge(c.panels@[1], "Server RAM Usage (%)"@, r.ram_usage@, "#10b981"@, r.ram_alert)
    &&& is_badge(
        c.panels@[2],
        "Online Players (ac_world_online_players)"@,
        r.online_players@,
        "#06b6d4"@,
        false,
    )
    &&& is_badge(
        c.panels@[3],
        "Total Packets (ac_world_packets_total)"@,
        r.total_packets@,
        "#8b5cf6"@,
        false,
    )
    &&& is_line_chart(
        c.panels@[4],
        "World Update Duration (s)"@,
        r.world_update_history@,
        r.world_update_alert,
    )
    &&& is_badge(c.panels@[5], "Memory (RSS)"@, r.memory@, "#ec4899"@, r.memory_alert)
    &&& is_badge(c.panels@[6], "Average Ping"@, r.ping@, "#2dd4bf"@, r.ping_alert)
    &&& is_bar_chart(c.panels@[7], "Network Traffic (MB)"@, r.network_traffic@, false)
    &&& is_bar_chart(
        c.panels@[8],
        "Update Phases (s)"@,
        r.update_phases@,
        r.update_phases_alert,
    )
    &&& is_bar_chart(
        c.panels@[9],
        "Database Queue Size"@,
        r.database_queues@,
        r.database_queues_alert,
    )
}

/// Lays out the dashboard for the given readings.
pub fn build_dashboard<P, B>(is_live: bool, readings: PanelReadings<P, B>) -> (c: DashboardConfig<
    P,
    B,
>)
    ensures
        dashboard_layout(c, is_live, readings),
{
    let title = if is_live {
        String::from_str("AzerothCore Observability (LIVE)")
    } else {
        String::from_str("AzerothCore Observability (MOCK - Server Offline)")
    };
    let ghost r = readings;
    let PanelReadings {
        cpu_usage,
        cpu_alert,
        ram_usage,
        ram_alert,
        online_players,
        total_packets,
        world_update_history,
        world_update_alert,
        memory,
        memory_alert,
        ping,
        ping_alert,
        network_traffic,
        update_phases,
        update_phases_alert,
        database_queues,
        database_queues_alert,
    } = readings;
    let mut panels: Vec<PanelConfig<P, B>> = Vec::new();
    panels.push(
        PanelConfig::StatBadge {
            title: String::from_str("Server CPU Usage (%)"),
            value: cpu_usage,
            color: Some(String::from_str("#f43f5e")),
            alert: Some(cpu_alert),
        },
    );
    panels.push(
        PanelConfig::StatBadge {
            title: String::from_str("Server RAM Usage (%)"),
            value: ram_usage,
            color: Some(String::from_str("#10b981")),
            alert: Some(ram_alert),
        },
    );
    panels.push(
        PanelConfig::StatBadge {
            title: String::from_str("Online Players (ac_world_online_players)"),
            value: online_players,
            color: Some(String::from_str("#06b6d4")),
            alert: Some(false),
        },
    );
    panels.push(
        PanelConfig::StatBadge {
            title: String::from_str("Total Packets (ac_world_packets_total)"),
            value: total_packets,
            color: Some(String::from_str("#8b5cf6")),
            alert: Some(false),
        },
    );
    panels.push(
        PanelConfig::LineChart {
            title: String::from_str("World Update Duration (s)"),
            data: world_update_history,
            width: Some(400),
            height: Some(250),
            alert: Some(world_update_alert),
        },
    );
    panels.push(
        PanelConfig::StatBadge {
            title: String::from_str("Memory (RSS)"),
            value: memory,
            color: Some(String::from_str("#ec4899")),
            alert: Some(memory_alert),
        },
    );
    panels.push(
        PanelConfig::StatBadge {
            title: String::from_str("Average Ping"),
            value: ping,
            color: Some(String::from_str("#2dd4bf")),
            alert: Some(ping_alert),
        },
    );
    panels.push(
        PanelConfig::BarChart {
            title: String::from_str("Network Traffic (MB)"),
            data: network_traffic,
            width: Some(400),
            height: Some(250),
            alert: Some(false),
        },
    );
    panels.push(
        PanelConfig::BarChart {
            title: String::from_str("Update Phases (s)"),
            data: update_phases,
            width: Some(400),
            height: Some(250),
            alert: Some(update_phases_alert),
        },
    );
    panels.push(
        PanelConfig::BarChart {
            title: String::from_str("Database Queue Size"),
            data: database_queues,
            width: Some(400),
            height: Some(250),
            alert: Some(database_queues_alert),
        },
    );
    DashboardConfig {
        title,
        description: Some(String::from_str("Disaster-Ready Metrics (System & Backend)")),
        panels,
    }
}

/// Whether panel `p` is raising its alert.
pub open spec fn panel_alerting<P, B>(p: PanelConfig<P, B>) -> bool {
    match p {
        PanelConfig::LineChart { alert, .. } => alert == Some(true),
        PanelConfig::BarChart { alert, .. } => alert == Some(true),
        PanelConfig::StatBadge { alert, .. } => alert == Some(true),
    }
}

/// Whether some panel of `c` is raising its alert.
pub open spec fn any_panel_alerting<P, B>(c: DashboardConfig<P, B>) -> bool {
    exists|i: int| 0 <= i < c.panels@.len() && panel_alerting(#[trigger] c.panels@[i])
}

/// Whether some reading is over its threshold.
pub open spec fn readings_alerting<P, B>(r: PanelReadings<P, B>) -> bool {
    ||| r.cpu_alert
    ||| r.ram_alert
    ||| r.ping_alert
    ||| r.memory_alert
    ||| r.update_phases_alert
    ||| r.database_queues_alert
    ||| r.world_update_alert
}

fn panel_alert<P, B>(p: &PanelConfig<P, B>) -> (b: bool)
    ensures
        b == panel_alerting(*p),
{
    match p {
        PanelConfig::LineChart { alert, .. } => *alert == Some(true),
        PanelConfig::BarChart { alert, .. } => *alert == Some(true),
        PanelConfig::StatBadge { alert, .. } => *alert == Some(true),
    }
}

/// Whether the dashboard calls for an alert: some panel is raising one.
pub fn needs_alert<P, B>(c: &DashboardConfig<P, B>) -> (b: bool)
    ensures
        b == any_panel_alerting(*c),
{
    let mut i: usize = 0;
    while i < c.panels.len()
        invariant
            0 <= i <= c.panels@.len(),
            forall|j: int| 0 <= j < i ==> !panel_alerting(#[trigger] c.panels@[j]),
        decreases c.panels@.len() - i,
    {
        if panel_alert(&c.panels[i]) {
            return true;
        }
        i += 1;
    }
    false
}

/// Law: the dashboard calls for an alert exactly when one of the readings
/// with a threshold is over it (CPU, RAM, ping, memory, update phases,
/// database queues, latest world update).
pub proof fn law_alert_iff_reading_over_threshold<P, B>(
    c: DashboardConfig<P, B>,
    is_live: bool,
    r: PanelReadings<P, B>,
)
    requires
        dashboard_layout(c, is_live, r),
    ensures
        any_panel_alerting(c) <==> readings_alerting(r),
{
    if any_panel_alerting(c) {
        let i = choose|i: int| 0 <= i < c.panels@.len() && panel_alerting(#[trigger] c.panels@[i]);
        assert(0 <= i < 10);
    }
    if r.cpu_alert {
        assert(panel_alerting(c.panels@[0]));
    }
    if r.ram_alert {
        assert(panel_alerting(c.panels@[1]));
    }
    if r.world_update_alert {
        assert(panel_alerting(c.panels@[4]));
    }
    if r.memory_alert {
        assert(panel_alerting(c.panels@[5]));
    }
    if r.ping_alert {
        assert(panel_alerting(c.panels@[6]));
    }
    if r.update_phases_alert {
        assert(panel_alerting(c.panels@[8]));
    }
    if r.database_queues_alert {
        assert(panel_alerting(c.panels@[9]));
    }
}

/// The history after adding `point`: the oldest point is dropped when the
/// history has grown past `HISTORY_LEN`.
pub open spec fn history_after<T>(history: Seq<T>, point: T) -> Seq<T> {
    let grown = history.push(point);
    if grown.len() > HISTORY_LEN {
        grown.drop_first()
    } else {
        grown
    }
}

/// Appends `point` to the history, dropping the oldest point when the
/// history grows past `HISTORY_LEN`.
pub fn record_history<T>(history: &mut Vec<T>, point: T)
    ensures
        final(history)@ == history_after(old(history)@, point),
{
    history.push(point);
    if history.len() > HISTORY_LEN {
        history.remove(0);
        assert(history@ =~= history_after(old(history)@, point));
    }
}

/// Law: a history of at most `HISTORY_LEN` points stays within that bound,
/// never becomes empty, ends with the newest point, and keeps the points in
/// the order they came.
pub proof fn law_history_window<T>(history: Seq<T>, point: T)
    requires
        history.len() <= HISTORY_LEN,
    ensures
        1 <= history_after(history, point).len() <= HISTORY_LEN,
        history_after(history, point).last() == point,
        history_after(history, point) == history.push(point).skip(
            history.push(point).len() - history_after(history, point).len(),
        ),
{
    let grown = history.push(point);
    if grown.len() > HISTORY_LEN {
        assert(grown.drop_first() =~= grown.skip(1));
    } else {
        assert(grown.skip(0) =~= grown);
    }
}

/// Panel `p` shows the reading that its title names: each badge's value
/// and each chart's data is the reading of the same name in `r`.
pub open spec fn shows_named_reading<P, B>(p: PanelConfig<P, B>, r: PanelReadings<P, B>) -> bool {
    match p {
        PanelConfig::StatBadge { title, value, .. } => {
            &&& title@ == "Server CPU Usage (%)"@ ==> value@ == r.cpu_usage@
            &&& title@ == "Server RAM Usage (%)"@ ==> value@ == r.ram_usage@
            &&& title@ == "Online Players (ac_world_online_players)"@ ==> value@ == r.online_players@
            &&& title@ == "Total Packets (ac_world_packets_total)"@ ==> value@ == r.total_packets@
            &&& title@ == "Memory (RSS)"@ ==> value@ == r.memory@
            &&& title@ == "Average Ping"@ ==> value@ == r.ping@
        },
        PanelConfig::LineChart { title, data, .. } => {
            title@ == "World Update Duration (s)"@ ==> data@ == r.world_update_history@
        },
        PanelConfig::BarChart { title, data, .. } => {
            &&& title@ == "Network Traffic (MB)"@ ==> data@ == r.network_traffic@
            &&& title@ == "Update Phases (s)"@ ==> data@ == r.update_phases@
            &&& title@ == "Database Queue Size"@ ==> data@ == r.database_queues@
        },
    }
}

/// Law: every panel of the dashboard shows the reading its title names (the
/// "Memory (RSS)" badge the memory text, the "Average Ping" badge the ping
/// text, and so on).
pub proof fn law_panels_show_their_readings<P, B>(
    c: DashboardConfig<P, B>,
    is_live: bool,
    r: PanelReadings<P, B>,
)
    requires
        dashboard_layout(c, is_live, r),
    ensures
        forall|i: int| 0 <= i < c.panels@.len() ==> shows_named_reading(#[trigger] c.panels@[i], r),
{
    reveal_strlit("Server CPU Usage (%)");
    reveal_strlit("Server RAM Usage (%)");
    reveal_strlit("Online Players (ac_world_online_players)");
    reveal_strlit("Total Packets (ac_world_packets_total)");
    reveal_strlit("World Update Duration (s)");
    reveal_strlit("Memory (RSS)");
    reveal_strlit("Average Ping");
    reveal_strlit("Network Traffic (MB)");
    reveal_strlit("Update Phases (s)");
    reveal_strlit("Database Queue Size");
    assert forall|i: int| 0 <= i < c.panels@.len() implies shows_named_reading(
        #[trigger] c.panels@[i],
        r,
    ) by {
        assert("Server CPU Usage (%)"@[7] != "Server RAM Usage (%)"@[7]);
        assert("Memory (RSS)"@[0] != "Average Ping"@[0]);
        assert("Memory (RSS)"@[0] != "Server CPU Usage (%)"@[0]);
        assert("Memory (RSS)"@[0] != "Online Players (ac_world_online_players)"@[0]);
        assert("Memory (RSS)"@[0] != "Total Packets (ac_world_packets_total)"@[0]);
        assert("Average Ping"@[0] != "Server CPU Usage (%)"@[0]);
        assert("Average Ping"@[0] != "Online Players (ac_world_online_players)"@[0]);
        assert("Average Ping"@[0] != "Total Packets (ac_world_packets_total)"@[0]);
        assert("Online Players (ac_world_online_players)"@[0] != "Server CPU Usage (%)"@[0]);
        assert("Total Packets (ac_world_packets_total)"@[0] != "Server CPU Usage (%)"@[0]);
        assert("Online Players (ac_world_online_players)"@[0] != "Total Packets (ac_world_packets_total)"@[0]);
        assert("Network Traffic (MB)"@[0] != "Update Phases (s)"@[0]);
        assert("Network Traffic (MB)"@[0] != "Database Queue Size"@[0]);
        assert("Update Phases (s)"@[0] != "Database Queue Size"@[0]);
    }
}

} // verus!
