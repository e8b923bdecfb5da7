//! The layout engine: partition sums, pane order, clipping, and the
//! lenient percentage parser.

use datatui::commands::{ListCommand, PluginState, TextCommand};
use datatui::layout::{layout_plan, resolve_sizes, split_area, Area};
use datatui::widgets::{parse_percentage, LayoutConfig, PaneConfig, SizeConfig, WidgetConfig,
    WidgetRef};

fn pane(id: u64, size: SizeConfig) -> PaneConfig {
    PaneConfig { widget: WidgetRef { id }, size }
}

#[test]
fn partition_sums_fixed_pct_fill() {
    let panes = vec![
        pane(1, SizeConfig::Fixed(20)),
        pane(2, SizeConfig::Percentage("30%".to_string())),
        pane(3, SizeConfig::Fill),
    ];
    let widths = resolve_sizes(&panes, 100);
    assert_eq!(widths, vec![20, 30, 50]);
    assert_eq!(widths.iter().map(|w| *w as u32).sum::<u32>(), 100);

    let areas = split_area(Area::full(100, 10), true, &panes);
    assert_eq!(areas.len(), 3);
    assert_eq!(areas[0], Area { x: 0, y: 0, width: 20, height: 10 });
    assert_eq!(areas[1], Area { x: 20, y: 0, width: 30, height: 10 });
    assert_eq!(areas[2], Area { x: 50, y: 0, width: 50, height: 10 });
}

#[test]
fn pane_order_preserved() {
    let panes = vec![
        pane(1, SizeConfig::Fill),
        pane(2, SizeConfig::Fixed(5)),
        pane(3, SizeConfig::Percentage("10%".to_string())),
        pane(4, SizeConfig::Fixed(7)),
    ];
    let areas = split_area(Area::full(30, 40), false, &panes);
    assert_eq!(areas.len(), panes.len());
    // Vertical split: sub-areas stacked in pane order, top to bottom.
    for w in 0..areas.len() - 1 {
        assert_eq!(areas[w].y + areas[w].height, areas[w + 1].y);
    }
    assert_eq!(areas[1].height, 5);
    assert_eq!(areas[2].height, 4); // 10% of 40
    assert_eq!(areas[3].height, 7);
    assert_eq!(areas[0].height, 40 - 5 - 4 - 7);
}

#[test]
fn malformed_percentage_default() {
    assert_eq!(parse_percentage("abc%"), 50);

    let panes = vec![pane(1, SizeConfig::Percentage("abc%".to_string()))];
    let widths = resolve_sizes(&panes, 100);
    assert_eq!(widths, vec![50]);
}

#[test]
fn percentage_parsing_exact() {
    assert_eq!(parse_percentage("0%"), 0);
    assert_eq!(parse_percentage("7%"), 7);
    assert_eq!(parse_percentage("05%"), 5);
    assert_eq!(parse_percentage("100%"), 100);
    assert_eq!(parse_percentage("150%"), 50);
    assert_eq!(parse_percentage("999999999999999%"), 50);
    assert_eq!(parse_percentage("30"), 50);
    assert_eq!(parse_percentage("%"), 50);
    assert_eq!(parse_percentage(""), 50);
    assert_eq!(parse_percentage("3a%"), 50);
    assert_eq!(parse_percentage("-3%"), 50);
}

#[test]
fn overrunning_fixed_panes_are_clipped() {
    let panes = vec![pane(1, SizeConfig::Fixed(80)), pane(2, SizeConfig::Fixed(50))];
    let widths = resolve_sizes(&panes, 100);
    assert_eq!(widths, vec![80, 20]);
}

#[test]
fn fill_split_remainder_to_last() {
    let panes = vec![
        pane(1, SizeConfig::Fill),
        pane(2, SizeConfig::Fill),
        pane(3, SizeConfig::Fill),
    ];
    let widths = resolve_sizes(&panes, 100);
    assert_eq!(widths, vec![33, 33, 34]);
}

#[test]
fn fill_smaller_than_count_goes_to_last() {
    let panes = vec![
        pane(1, SizeConfig::Fill),
        pane(2, SizeConfig::Fill),
        pane(3, SizeConfig::Fill),
    ];
    let widths = resolve_sizes(&panes, 2);
    assert_eq!(widths, vec![0, 0, 2]);
}

#[test]
fn fill_with_nothing_left_is_empty() {
    let panes = vec![pane(1, SizeConfig::Fixed(100)), pane(2, SizeConfig::Fill)];
    let widths = resolve_sizes(&panes, 100);
    assert_eq!(widths, vec![100, 0]);
}

#[test]
fn percentage_rounds_down() {
    let panes = vec![pane(1, SizeConfig::Percentage("30%".to_string()))];
    let widths = resolve_sizes(&panes, 15);
    assert_eq!(widths, vec![4]);
}

#[test]
fn no_fill_leaves_extent_unused() {
    let panes = vec![pane(1, SizeConfig::Fixed(10)), pane(2, SizeConfig::Percentage("20%".to_string()))];
    let widths = resolve_sizes(&panes, 50);
    assert_eq!(widths, vec![10, 10]);
}

#[test]
fn empty_pane_list_splits_to_nothing() {
    let panes: Vec<PaneConfig> = Vec::new();
    let areas = split_area(Area::full(80, 24), true, &panes);
    assert!(areas.is_empty());
}

#[test]
fn layout_plan_skips_missing_widget() {
    let mut state = PluginState::new();
    let list = ListCommand;
    let kept = list.run(&mut state, vec!["a".to_string()], None, false, None);
    let layout = LayoutConfig {
        direction: "horizontal".to_string(),
        panes: vec![
            pane(kept.id, SizeConfig::Fixed(30)),
            pane(kept.id + 999, SizeConfig::Fill),
        ],
    };
    let steps = layout_plan(&state.registry, &layout, Area::full(100, 10));
    assert_eq!(steps.len(), 1);
    assert_eq!(steps[0].area, Area { x: 0, y: 0, width: 30, height: 10 });
    assert!(matches!(steps[0].widget, WidgetConfig::List { .. }));
}

#[test]
fn unrecognized_direction_splits_vertically() {
    let mut state = PluginState::new();
    let text = TextCommand;
    let r1 = text.run(&mut state, "a".to_string(), false, false, None);
    let r2 = text.run(&mut state, "b".to_string(), false, false, None);
    let layout = LayoutConfig {
        direction: "diagonal".to_string(),
        panes: vec![pane(r1.id, SizeConfig::Fill), pane(r2.id, SizeConfig::Fill)],
    };
    let steps = layout_plan(&state.registry, &layout, Area::full(100, 10));
    assert_eq!(steps.len(), 2);
    assert_eq!(steps[0].area, Area { x: 0, y: 0, width: 100, height: 5 });
    assert_eq!(steps[1].area, Area { x: 0, y: 5, width: 100, height: 5 });
}
