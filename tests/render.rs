use bullet_svg::render::{
    layer_end, layer_rect, render_node_to_canvas, render_to_canvas, Context, DeviceBox, Group, Node,
    RenderCommand, Tree,
};
use bullet_svg::screen::{ScreenRect, ScreenSize};

fn ctx() -> Context {
    Context::new(tiny_skia::Transform::identity(), 100, 50).unwrap()
}

fn dbox(x: i32, y: i32, width: u32, height: u32) -> DeviceBox {
    DeviceBox { x, y, width, height }
}

fn rect(x: i32, y: i32, width: u32, height: u32) -> ScreenRect {
    ScreenRect { x, y, width, height }
}

fn group(id: usize, bbox: Option<DeviceBox>, children: Vec<Node>) -> Group {
    Group { id, bbox, filters: vec![], clip_path: None, mask: None, children }
}

#[test]
fn context_holds_target_and_filter_region() {
    let c = ctx();
    assert_eq!(c.target_size, ScreenSize { width: 100, height: 50 });
    assert_eq!(c.max_filter_region, rect(-50, -25, 200, 100));
    assert_eq!(c.root_transform, tiny_skia::Transform::identity());
}

#[test]
fn context_rejects_empty_or_huge_targets() {
    let ts = tiny_skia::Transform::identity();
    assert!(Context::new(ts, 0, 10).is_none());
    assert!(Context::new(ts, 10, 0).is_none());
    assert!(Context::new(ts, 0x8000_0000, 10).is_none());
    let c = Context::new(ts, 0x7fff_ffff, 1).unwrap();
    assert_eq!(c.max_filter_region, rect(-0x3fff_ffff, 0, 0xffff_fffe, 2));
}

#[test]
fn unfiltered_layer_grows_by_margin() {
    assert_eq!(layer_rect(dbox(10, 10, 20, 20), false, (0, 0), &ctx()), Some(rect(8, 8, 24, 24)));
}

#[test]
fn unfiltered_layer_is_cut_to_canvas() {
    assert_eq!(layer_rect(dbox(0, 0, 10, 10), false, (0, 0), &ctx()), Some(rect(0, 0, 12, 12)));
    assert_eq!(layer_rect(dbox(90, 40, 30, 30), false, (0, 0), &ctx()), Some(rect(88, 38, 12, 12)));
}

#[test]
fn unfiltered_layer_off_canvas_is_none() {
    assert_eq!(layer_rect(dbox(-30, 0, 10, 10), false, (0, 0), &ctx()), None);
    assert_eq!(layer_rect(dbox(0, 60, 10, 10), false, (0, 0), &ctx()), None);
}

#[test]
fn unfiltered_layer_is_relative_to_parent() {
    assert_eq!(layer_rect(dbox(30, 30, 10, 10), false, (20, 20), &ctx()), Some(rect(8, 8, 14, 14)));
}

#[test]
fn unfiltered_layer_is_cut_to_canvas_in_device_space() {
    // Parent layer anchored at device x = -50; the child spans device x 80..90.
    assert_eq!(layer_rect(dbox(80, 10, 10, 10), false, (-50, 0), &ctx()), Some(rect(128, 8, 14, 14)));
    // Only the on-canvas part is kept, whatever the parent's anchor.
    assert_eq!(layer_rect(dbox(95, 0, 10, 10), false, (40, 0), &ctx()), Some(rect(53, 0, 7, 12)));
    assert_eq!(layer_rect(dbox(120, 0, 10, 10), false, (-50, 0), &ctx()), None);
}

#[test]
fn filtered_layer_is_relative_to_parent() {
    assert_eq!(layer_rect(dbox(30, 30, 10, 10), true, (20, 20), &ctx()), Some(rect(10, 10, 10, 10)));
    assert_eq!(layer_rect(dbox(-80, 0, 100, 10), true, (-10, 0), &ctx()), Some(rect(-40, 0, 70, 10)));
}

#[test]
fn filter_region_is_centered_on_canvas() {
    let c = ctx();
    let r = c.max_filter_region;
    assert_eq!(r.x + r.width as i32 / 2, 50);
    assert_eq!(r.y + r.height as i32 / 2, 25);
}

#[test]
fn unfiltered_layer_overflow_is_none() {
    assert_eq!(layer_rect(dbox(i32::MIN, 0, 10, 10), false, (0, 0), &ctx()), None);
    assert_eq!(layer_rect(dbox(0, 0, u32::MAX, 10), false, (0, 0), &ctx()), None);
}

#[test]
fn filtered_layer_may_exceed_canvas() {
    assert_eq!(
        layer_rect(dbox(-150, -10, 400, 20), true, (0, 0), &ctx()),
        Some(rect(-50, -10, 200, 20))
    );
    assert_eq!(layer_rect(dbox(-20, -20, 10, 10), true, (0, 0), &ctx()), Some(rect(-20, -20, 10, 10)));
}

#[test]
fn filtered_layer_without_area_is_none() {
    assert_eq!(layer_rect(dbox(0, 0, 0, 10), true, (0, 0), &ctx()), None);
    assert_eq!(layer_rect(dbox(300, 0, 10, 10), true, (0, 0), &ctx()), None);
}

#[test]
fn leaves_keep_paint_order() {
    let tree = Tree { children: vec![Node::FillPath(1), Node::StrokePath(2), Node::Image(3), Node::FillPath(4)] };
    assert_eq!(
        render_to_canvas(&tree, &ctx()),
        vec![
            RenderCommand::Fill(1),
            RenderCommand::Stroke(2),
            RenderCommand::Image(3),
            RenderCommand::Fill(4)
        ]
    );
}

#[test]
fn empty_tree_has_no_steps() {
    assert_eq!(render_to_canvas(&Tree { children: vec![] }, &ctx()), vec![]);
}

#[test]
fn group_effects_run_filter_clip_mask_composite() {
    let g = Group {
        id: 7,
        bbox: Some(dbox(10, 10, 20, 20)),
        filters: vec![3, 1],
        clip_path: Some(5),
        mask: Some(6),
        children: vec![Node::FillPath(9)],
    };
    assert_eq!(
        render_node_to_canvas(&Node::Group(g), &ctx()),
        vec![
            RenderCommand::PushLayer { group: 7, rect: rect(10, 10, 20, 20) },
            RenderCommand::Fill(9),
            RenderCommand::Filter { group: 7, filter: 3 },
            RenderCommand::Filter { group: 7, filter: 1 },
            RenderCommand::Clip { group: 7, clip_path: 5 },
            RenderCommand::Mask { group: 7, mask: 6 },
            RenderCommand::PopLayer { group: 7 },
        ]
    );
}

#[test]
fn clip_follows_filter() {
    let g = Group {
        id: 1,
        bbox: Some(dbox(0, 0, 10, 10)),
        filters: vec![4],
        clip_path: Some(2),
        mask: None,
        children: vec![],
    };
    let cmds = render_node_to_canvas(&Node::Group(g), &ctx());
    let f = cmds.iter().position(|c| *c == RenderCommand::Filter { group: 1, filter: 4 }).unwrap();
    let c = cmds.iter().position(|c| *c == RenderCommand::Clip { group: 1, clip_path: 2 }).unwrap();
    assert!(f < c);
    assert_eq!(cmds.last(), Some(&RenderCommand::PopLayer { group: 1 }));
}

#[test]
fn offscreen_group_is_skipped_and_siblings_render() {
    let off = group(2, Some(dbox(-40, 10, 10, 10)), vec![Node::FillPath(20)]);
    let on = group(3, Some(dbox(10, 10, 10, 10)), vec![Node::FillPath(30)]);
    let tree = Tree { children: vec![Node::FillPath(1), Node::Group(off), Node::Group(on)] };
    assert_eq!(
        render_to_canvas(&tree, &ctx()),
        vec![
            RenderCommand::Fill(1),
            RenderCommand::PushLayer { group: 3, rect: rect(8, 8, 14, 14) },
            RenderCommand::Fill(30),
            RenderCommand::PopLayer { group: 3 },
        ]
    );
}

#[test]
fn invalid_group_box_draws_nothing() {
    let bad = group(2, None, vec![Node::FillPath(20)]);
    let tree = Tree { children: vec![Node::Group(bad), Node::Image(5)] };
    assert_eq!(render_to_canvas(&tree, &ctx()), vec![RenderCommand::Image(5)]);
}

#[test]
fn nested_layers_are_placed_relative_to_parent() {
    let inner = group(2, Some(dbox(20, 20, 10, 10)), vec![Node::FillPath(1)]);
    let outer = group(1, Some(dbox(10, 10, 50, 30)), vec![Node::Group(inner)]);
    assert_eq!(
        render_node_to_canvas(&Node::Group(outer), &ctx()),
        vec![
            RenderCommand::PushLayer { group: 1, rect: rect(8, 8, 54, 34) },
            RenderCommand::PushLayer { group: 2, rect: rect(10, 10, 14, 14) },
            RenderCommand::Fill(1),
            RenderCommand::PopLayer { group: 2 },
            RenderCommand::PopLayer { group: 1 },
        ]
    );
}

#[test]
fn layer_end_skips_whole_subtree() {
    let inner = group(2, Some(dbox(20, 20, 10, 10)), vec![Node::FillPath(1)]);
    let outer = group(1, Some(dbox(10, 10, 50, 30)), vec![Node::Group(inner), Node::Image(4)]);
    let tree = Tree { children: vec![Node::Group(outer), Node::FillPath(9)] };
    let cmds = render_to_canvas(&tree, &ctx());
    assert_eq!(cmds.len(), 7);
    assert_eq!(layer_end(&cmds, 0), 6);
    assert_eq!(cmds[6], RenderCommand::Fill(9));
    assert_eq!(layer_end(&cmds, 1), 4);
}

#[test]
fn layer_end_of_unclosed_layer_is_the_end() {
    let cmds = vec![
        RenderCommand::PushLayer { group: 1, rect: rect(0, 0, 1, 1) },
        RenderCommand::Fill(1),
        RenderCommand::PushLayer { group: 2, rect: rect(0, 0, 1, 1) },
        RenderCommand::PopLayer { group: 2 },
    ];
    assert_eq!(layer_end(&cmds, 0), 4);
    assert_eq!(layer_end(&cmds, 2), 4);
}

#[test]
fn plans_open_and_close_layers_in_pairs() {
    let a = Group {
        id: 1,
        bbox: Some(dbox(0, 0, 30, 30)),
        filters: vec![1],
        clip_path: Some(1),
        mask: Some(1),
        children: vec![Node::Group(group(2, Some(dbox(5, 5, 5, 5)), vec![Node::StrokePath(3)]))],
    };
    let tree = Tree { children: vec![Node::Group(a), Node::Group(group(3, Some(dbox(1, 1, 1, 1)), vec![]))] };
    let cmds = render_to_canvas(&tree, &ctx());
    let mut depth: i64 = 0;
    for c in &cmds {
        match c {
            RenderCommand::PushLayer { .. } => depth += 1,
            RenderCommand::PopLayer { .. } => depth -= 1,
            _ => {}
        }
        assert!(depth >= 0);
    }
    assert_eq!(depth, 0);
    assert_eq!(cmds.iter().filter(|c| matches!(c, RenderCommand::PushLayer { .. })).count(), 3);
}

#[test]
fn nested_filtered_group_is_placed_on_device() {
    let inner = Group {
        id: 2,
        bbox: Some(dbox(30, 20, 10, 10)),
        filters: vec![8],
        clip_path: None,
        mask: None,
        children: vec![Node::FillPath(1)],
    };
    let outer = group(1, Some(dbox(10, 10, 50, 30)), vec![Node::Group(inner)]);
    assert_eq!(
        render_node_to_canvas(&Node::Group(outer), &ctx()),
        vec![
            RenderCommand::PushLayer { group: 1, rect: rect(8, 8, 54, 34) },
            RenderCommand::PushLayer { group: 2, rect: rect(22, 12, 10, 10) },
            RenderCommand::Fill(1),
            RenderCommand::Filter { group: 2, filter: 8 },
            RenderCommand::PopLayer { group: 2 },
            RenderCommand::PopLayer { group: 1 },
        ]
    );
}
