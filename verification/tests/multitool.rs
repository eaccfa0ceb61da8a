use std::collections::HashSet;
use wayland_overlay::cmd_cycle::{get_active_links, get_physical_sink_names, CyclePlan};
use wayland_overlay::cmd_hyprland::{workspace_id, WorkspaceDispatch};
use wayland_overlay::cmd_volume::{get_physical_sink_ids, volume_indicator};
use wayland_overlay::draw::{DrawOperation, Length, LineSide};
use wayland_overlay::pipewire::{bytes_no_later, physical_sink, PwInfo, PwNode, PwProps};

fn node(id: u32, class: Option<&str>, name: Option<&str>, factory: Option<&str>) -> PwNode {
    PwNode {
        id,
        info: Some(PwInfo {
            props: Some(PwProps {
                media_class: class.map(|s| s.to_string()),
                node_name: name.map(|s| s.to_string()),
                factory_name: factory.map(|s| s.to_string()),
            }),
        }),
    }
}

fn sink(id: u32, name: &str) -> PwNode {
    node(id, Some("Audio/Sink"), Some(name), Some("api.alsa.pcm.sink"))
}

fn some_nodes() -> Vec<PwNode> {
    vec![
        sink(70, "speakers"),
        node(10, Some("Audio/Source"), Some("mic"), None),
        sink(12, "headphones"),
        sink(30, "X1"),
        sink(31, "X2"),
        node(40, Some("Audio/Sink"), Some("null"), Some("support.null-audio-sink")),
        node(41, Some("Audio/Sink"), None, None),
        node(42, None, Some("nameless class"), None),
        PwNode { id: 43, info: None },
        PwNode { id: 44, info: Some(PwInfo { props: None }) },
        node(5, Some("Audio/Sink"), Some("Zeta"), None),
        sink(12, "headphones"),
        node(6, Some("audio/sink"), Some("wrong case"), None),
        sink(7, "x1"),
    ]
}

#[test]
fn physical_sink_is_an_audio_sink_that_is_neither_null_nor_ignored() {
    let nodes = some_nodes();
    let names: Vec<Option<String>> = nodes.iter().map(|n| physical_sink(n).cloned()).collect();
    let expected: Vec<Option<&str>> = vec![
        Some("speakers"),
        None,
        Some("headphones"),
        None,
        None,
        None,
        None,
        None,
        None,
        None,
        Some("Zeta"),
        Some("headphones"),
        None,
        Some("x1"),
    ];
    let expected: Vec<Option<String>> =
        expected.into_iter().map(|o| o.map(|s| s.to_string())).collect();
    assert_eq!(names, expected);
}

#[test]
fn sink_ids_ascend() {
    assert_eq!(get_physical_sink_ids(&some_nodes()), vec![5, 7, 12, 12, 70]);
    assert_eq!(get_physical_sink_ids(&[]), Vec::<u32>::new());
    assert_eq!(get_physical_sink_ids(&[sink(u32::MAX, "a"), sink(0, "b")]), vec![0, u32::MAX]);
}

#[test]
fn sink_names_are_in_dictionary_order() {
    assert_eq!(
        get_physical_sink_names(&some_nodes()),
        vec!["Zeta", "headphones", "headphones", "speakers", "x1"]
    );
    assert!(get_physical_sink_names(&[]).is_empty());
    let names = ["b", "a", "", "ab", "B", "é", "z", "aa", "a\u{10000}", "a\u{ffff}"];
    let nodes: Vec<PwNode> = names.iter().map(|n| sink(1, n)).collect();
    let mut sorted: Vec<String> = names.iter().map(|n| n.to_string()).collect();
    sorted.sort();
    assert_eq!(get_physical_sink_names(&nodes), sorted);
}

#[test]
fn byte_order_is_the_order_of_std() {
    let samples: [&[u8]; 8] = [b"", b"a", b"b", b"ab", b"aa", b"a\xff", b"\x00", b"ba"];
    for a in samples {
        for b in samples {
            assert_eq!(bytes_no_later(a, b), a <= b, "{:?} {:?}", a, b);
        }
    }
}

fn reference_links(output: &str, source: &str, valid_targets: &[String]) -> HashSet<String> {
    let mut active = HashSet::new();
    let mut current_section = String::new();
    let prefix = format!("{}:", source);
    for line in output.lines() {
        let trimmed = line.trim();
        if !line.starts_with(|c: char| c.is_whitespace()) {
            current_section = trimmed.to_string();
            continue;
        }
        if current_section.starts_with(&prefix) && line.contains("->") {
            if let Some(part) = line.split("->").nth(1) {
                let target_port = part.trim();
                let target_node = target_port.split(':').next().unwrap_or("");
                if valid_targets.contains(&target_node.to_string()) {
                    active.insert(target_node.to_string());
                }
            }
        }
    }
    active
}

const LINK_LISTS: [&str; 12] = [
    "",
    "X1:monitor_FL\n  |-> speakers:playback_FL\nX1:monitor_FR\n  |-> speakers:playback_FR\n",
    "X1:monitor_FL\n  |-> speakers:playback_FL\n  |-> headphones:playback_FL\nX2:monitor_FL\n  |-> Zeta:playback_FL\n",
    "speakers:playback_FL\n  |<- X1:monitor_FL\n",
    "X10:monitor_FL\n  |-> speakers:playback_FL\n",
    "  X1:monitor_FL\n  |-> speakers:playback_FL\n",
    "X1:monitor_FL\r\n\t|->   headphones  :playback_FL -> speakers:x\r\n",
    "X1:monitor_FL\n\n  |-> speakers:playback_FL\n",
    "X1:monitor_FL\n  |-> speakers\n  |->\n  -> :x\n  ->->Zeta\n",
    "X1:m\n \u{a0}|->\u{3000}Zeta\u{2003}:p\n",
    "other\nX1:\n ->headphones:a->b\n ->x1:c",
    "X1:monitor\n  |-> speakers:playback_FL",
];

#[test]
fn active_links_are_those_of_the_reference() {
    let valid: Vec<String> =
        ["Zeta", "headphones", "headphones", "speakers", "x1", ""].iter().map(|s| s.to_string()).collect();
    for output in LINK_LISTS {
        let expected = reference_links(output, "X1", &valid);
        let flags = get_active_links(output, "X1", &valid);
        assert_eq!(flags.len(), valid.len());
        for (name, flag) in valid.iter().zip(flags.iter()) {
            assert_eq!(*flag, expected.contains(name), "{:?} {:?}", output, name);
        }
    }
}

#[test]
fn active_links_of_a_small_list() {
    let valid: Vec<String> = ["headphones", "speakers"].iter().map(|s| s.to_string()).collect();
    assert_eq!(get_active_links(LINK_LISTS[1], "X1", &valid), vec![false, true]);
    assert_eq!(get_active_links(LINK_LISTS[2], "X1", &valid), vec![true, true]);
    assert_eq!(get_active_links(LINK_LISTS[2], "X2", &valid), vec![false, false]);
    assert_eq!(get_active_links(LINK_LISTS[3], "X1", &valid), vec![false, false]);
    assert_eq!(get_active_links(LINK_LISTS[1], "X1", &[]), Vec::<bool>::new());
}

fn cycle(physical: &[&str], links: &str) -> Option<CyclePlan> {
    let physical: Vec<String> = physical.iter().map(|s| s.to_string()).collect();
    wayland_overlay::cmd_cycle::run(&physical, links)
}

#[test]
fn cycle_without_sinks_does_nothing() {
    assert!(cycle(&[], LINK_LISTS[1]).is_none());
}

#[test]
fn cycle_starts_with_the_first_sink() {
    let plan = cycle(&["a", "b", "c"], "").unwrap();
    assert_eq!(plan.link, "a");
    assert!(plan.unlink.is_empty());
}

#[test]
fn cycle_goes_to_the_sink_behind_the_linked_one() {
    let plan = cycle(&["a", "b", "c"], "X1:m\n  |-> a:p\n").unwrap();
    assert_eq!(plan.link, "b");
    assert_eq!(plan.unlink, vec!["a"]);
    let plan = cycle(&["a", "b", "c"], "X1:m\n  |-> b:p\n").unwrap();
    assert_eq!(plan.link, "c");
    assert_eq!(plan.unlink, vec!["b"]);
}

#[test]
fn cycle_wraps_around() {
    let plan = cycle(&["a", "b", "c"], "X1:m\n  |-> c:p\n").unwrap();
    assert_eq!(plan.link, "a");
    assert_eq!(plan.unlink, vec!["c"]);
}

#[test]
fn cycle_with_one_sink_keeps_it() {
    let plan = cycle(&["a"], "X1:m\n  |-> a:p\n").unwrap();
    assert_eq!(plan.link, "a");
    assert!(plan.unlink.is_empty());
}

#[test]
fn cycle_goes_on_from_the_last_linked_sink_and_unlinks_the_others() {
    let plan = cycle(&["a", "b", "c", "d"], "X1:m\n  |-> c:p\n  |-> a:p\nX1:n\n  |-> a:q\n").unwrap();
    assert_eq!(plan.link, "d");
    assert_eq!(plan.unlink, vec!["a", "c"]);
    let plan = cycle(&["a", "b", "c", "d"], "X1:m\n  |-> d:p\n  |-> a:p\n").unwrap();
    assert_eq!(plan.link, "a");
    assert_eq!(plan.unlink, vec!["d"]);
}

#[test]
fn cycle_counts_a_name_once() {
    let plan = cycle(&["a", "b", "b", "c"], "X1:m\n  |-> b:p\n").unwrap();
    assert_eq!(plan.link, "b");
    assert!(plan.unlink.is_empty());
    let plan = cycle(&["a", "a"], "X1:m\n  |-> a:p\n").unwrap();
    assert_eq!(plan.link, "a");
    assert!(plan.unlink.is_empty());
}

#[test]
fn cycle_ignores_links_to_unknown_sinks() {
    let plan = cycle(&["a", "b"], "X1:m\n  |-> zzz:p\nX2:m\n  |-> b:p\n").unwrap();
    assert_eq!(plan.link, "a");
    assert!(plan.unlink.is_empty());
}

#[test]
fn push_to_talk_held() {
    let plan = wayland_overlay::cmd_ptt::run("1").unwrap();
    assert_eq!(plan.volume, "0.4");
    assert_eq!(plan.command.layer, None);
    assert_eq!(plan.command.timeout_ms, None);
    assert_eq!(plan.command.operations.len(), 1);
    match &plan.command.operations[0] {
        DrawOperation::Rectangle(r) => {
            assert_eq!((r.x1, r.y1, r.x2, r.y2), (1, 1, 1920, 1080));
            assert_eq!(r.fill_color, "0x00000000");
            assert_eq!(r.outline_width, Length { millis: 5000 });
            assert_eq!(r.outline_color, "0xFFFFFFFF");
        }
        _ => panic!("a rectangle was expected"),
    }
}

#[test]
fn push_to_talk_released() {
    let plan = wayland_overlay::cmd_ptt::run("0").unwrap();
    assert_eq!(plan.volume, "0.0");
    match &plan.command.operations[0] {
        DrawOperation::Rectangle(r) => {
            assert_eq!(r.fill_color, "0x00000000");
            assert_eq!(r.outline_color, "0x00000000");
        }
        _ => panic!("a rectangle was expected"),
    }
}

#[test]
fn push_to_talk_knows_two_states() {
    for state in ["", "2", "01", "10", "1 ", " 0", "on", "१"] {
        assert!(wayland_overlay::cmd_ptt::run(state).is_none(), "{:?}", state);
    }
}

#[test]
fn workspace_id_is_what_std_parses() {
    let samples = [
        "", "0", "7", "-7", "+7", "-", "+", "--1", "+-1", "007", "-0", "2147483647",
        "2147483648", "-2147483648", "-2147483649", "99999999999999999999999", "-99999999999999999999",
        "00000000000000000000000000000000000000012", " 3", "3 ", "3a", "a3", "1_000", "0x10", "٣",
        "1.0", "+2147483647", "+2147483648", "1e3",
    ];
    for s in samples {
        assert_eq!(workspace_id(s), s.parse::<i32>().ok(), "{:?}", s);
    }
    assert_eq!(workspace_id("42"), Some(42));
    assert_eq!(workspace_id("-2147483648"), Some(i32::MIN));
}

#[test]
fn workspace_switch() {
    let run = wayland_overlay::cmd_hyprland::run;
    assert_eq!(run("3", Some(3)), Some(WorkspaceDispatch::Previous));
    assert_eq!(run("3", Some(4)), Some(WorkspaceDispatch::Target));
    assert_eq!(run("-1", Some(-1)), Some(WorkspaceDispatch::Previous));
    assert_eq!(run("+3", Some(3)), Some(WorkspaceDispatch::Previous));
    assert_eq!(run("3", None), None);
    assert_eq!(run("three", Some(3)), None);
    assert_eq!(run("", Some(0)), None);
}

#[test]
fn volume_indicator_is_two_bars_and_four_markers() {
    let command = volume_indicator(486);
    assert_eq!(command.layer, Some(1));
    assert_eq!(command.timeout_ms, Some(1000));
    assert_eq!(command.operations.len(), 6);
    let mut bars = Vec::new();
    let mut markers = Vec::new();
    for op in &command.operations {
        match op {
            DrawOperation::Rectangle(r) => {
                assert_eq!(r.fill_color, "0xFFFFFFFF");
                assert_eq!(r.outline_color, "0x00000000");
                assert_eq!(r.outline_width, Length { millis: 0 });
                bars.push((r.x1, r.y1, r.x2, r.y2));
            }
            DrawOperation::Line(l) => {
                assert_eq!(l.color, "0xFFFFFFFF");
                assert_eq!(l.width, Length { millis: 1000 });
                assert_eq!(l.side, LineSide::Center);
                markers.push((l.x1, l.y1, l.x2, l.y2));
            }
            _ => panic!("only bars and markers were expected"),
        }
    }
    assert_eq!(bars, vec![(0, 594, 10, 1080), (1910, 594, 1920, 1080)]);
    assert_eq!(
        markers,
        vec![(0, 216, 1920, 216), (0, 432, 1920, 432), (0, 648, 1920, 648), (0, 864, 1920, 864)]
    );
}

#[test]
fn volume_indicator_stays_on_the_screen() {
    let top = |wanted: i32| match &volume_indicator(wanted).operations[0] {
        DrawOperation::Rectangle(r) => r.y1,
        _ => panic!("a bar was expected"),
    };
    assert_eq!(top(0), 1080);
    assert_eq!(top(1080), 0);
    assert_eq!(top(1081), 0);
    assert_eq!(top(i32::MAX), 0);
    assert_eq!(top(-1), 1080);
    assert_eq!(top(i32::MIN), 1080);
}
