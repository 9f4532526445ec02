use vstd::prelude::*;

use crate::screen::{spec_intersect, ScreenRect, ScreenSize};

verus! {

/// Declares tiny-skia's `Transform` so that a context can carry the root
/// transform; nothing here reads inside it.
#[verifier::external_type_specification]
#[verifier::external_body]
pub struct ExTransform(tiny_skia::Transform);

/// State shared by every step of one render call.
pub struct Context {
    /// Maps the scene's user space onto the target's pixels.
    pub root_transform: tiny_skia::Transform,
    /// Pixel size of the target.
    pub target_size: ScreenSize,
    /// The largest area a filtered layer may cover: twice the target's width
    /// and height, centered on the target.
    pub max_filter_region: ScreenRect,
}

/// The filter region allowed for a target of `w` by `h` pixels: twice the
/// target's width and height, centered on the target (to the pixel below
/// when a side is odd).
pub open spec fn spec_max_filter_region(w: u32, h: u32) -> ScreenRect {
    ScreenRect {
        x: (-((w / 2) as int)) as i32,
        y: (-((h / 2) as int)) as i32,
        width: (2 * w) as u32,
        height: (2 * h) as u32,
    }
}

/// Largest target side for which the filter region's size, twice the side,
/// is representable.
pub const MAX_TARGET_SIDE: u32 = 0x7fff_ffff;

impl Context {
    pub open spec fn wf(self) -> bool {
        &&& self.target_size.wf()
        &&& self.target_size.width <= MAX_TARGET_SIDE
        &&& self.target_size.height <= MAX_TARGET_SIDE
        &&& self.max_filter_region == spec_max_filter_region(
            self.target_size.width,
            self.target_size.height,
        )
    }

    /// The context for rendering under `root_transform` into a target of
    /// `width` by `height` pixels; `None` when a side is zero or too large
    /// for the filter region to be expressed.
    pub fn new(root_transform: tiny_skia::Transform, width: u32, height: u32) -> (r: Option<Context>)
        ensures
            r is Some <==> (0 < width <= MAX_TARGET_SIDE && 0 < height <= MAX_TARGET_SIDE),
            r matches Some(c) ==> c.wf() && c.root_transform == root_transform
                && c.target_size == (ScreenSize { width, height }),
    {
        if width == 0 || height == 0 || width > MAX_TARGET_SIDE || height > MAX_TARGET_SIDE {
            return None;
        }
        let max_filter_region = ScreenRect {
            x: -((width / 2) as i32),
            y: -((height / 2) as i32),
            width: width * 2,
            height: height * 2,
        };
        Some(
            Context {
                root_transform,
                target_size: ScreenSize { width, height },
                max_filter_region,
            },
        )
    }
}


/// A group's bounding box mapped into device space by the root transform,
/// with its corner rounded down and its size rounded up to whole pixels.
#[derive(Clone, Copy, Debug, PartialEq, Eq, Structural)]
pub struct DeviceBox {
    pub x: i32,
    pub y: i32,
    pub width: u32,
    pub height: u32,
}

/// Extra pixels kept on each side of an unfiltered group's layer so that
/// anti-aliased edges are not cut off.
pub const AA_MARGIN: i32 = 2;

/// The rectangle on the target that a group's layer covers, given the
/// group's device box `b`.
///
/// Without filters the box grows by the anti-aliasing margin and is cut to
/// the target, since nothing outside it can be seen. With filters the box is
/// a filter region that may exceed the target; it is only cut to the
/// maximum filter region.
pub open spec fn spec_device_layer(b: DeviceBox, has_filters: bool, ctx: Context) -> Option<ScreenRect> {
    if !has_filters {
        let x = b.x - AA_MARGIN;
        let y = b.y - AA_MARGIN;
        let w = b.width + 2 * AA_MARGIN;
        let h = b.height + 2 * AA_MARGIN;
        if i32::MIN <= x && i32::MIN <= y && w <= u32::MAX && h <= u32::MAX {
            spec_intersect(
                ScreenRect { x: x as i32, y: y as i32, width: w as u32, height: h as u32 },
                ScreenRect { x: 0, y: 0, width: ctx.target_size.width, height: ctx.target_size.height },
            )
        } else {
            None
        }
    } else if b.width == 0 || b.height == 0 {
        None
    } else {
        spec_intersect(
            ScreenRect { x: b.x, y: b.y, width: b.width, height: b.height },
            ctx.max_filter_region,
        )
    }
}

/// The layer rectangle of a group whose device box is `b`, relative to the
/// parent layer whose origin sits at `off` on the target: the covered area
/// of [`spec_device_layer`], moved by `-off`.
pub open spec fn spec_layer_rect(b: DeviceBox, has_filters: bool, off: (i32, i32), ctx: Context) -> Option<ScreenRect> {
    match spec_device_layer(b, has_filters, ctx) {
        None => None,
        Some(d) => {
            let x = d.x - off.0;
            let y = d.y - off.1;
            if i32::MIN <= x <= i32::MAX && i32::MIN <= y <= i32::MAX {
                Some(ScreenRect { x: x as i32, y: y as i32, width: d.width, height: d.height })
            } else {
                None
            }
        },
    }
}

/// Computes the layer rectangle of a group; see [`spec_layer_rect`].
/// `None` means the group leaves no visible pixel and is skipped.
pub fn layer_rect(bbox: DeviceBox, has_filters: bool, parent_offset: (i32, i32), ctx: &Context) -> (r: Option<ScreenRect>)
    ensures
        r == spec_layer_rect(bbox, has_filters, parent_offset, *ctx),
{
    let device = if !has_filters {
        let x: i64 = bbox.x as i64 - AA_MARGIN as i64;
        let y: i64 = bbox.y as i64 - AA_MARGIN as i64;
        let w: u64 = bbox.width as u64 + 2 * AA_MARGIN as u64;
        let h: u64 = bbox.height as u64 + 2 * AA_MARGIN as u64;
        if x < i32::MIN as i64 || y < i32::MIN as i64 || w > u32::MAX as u64 || h > u32::MAX as u64 {
            return None;
        }
        let rect = ScreenRect { x: x as i32, y: y as i32, width: w as u32, height: h as u32 };
        rect.fit_to_rect(ctx.target_size.to_screen_rect())
    } else {
        if bbox.width == 0 || bbox.height == 0 {
            return None;
        }
        let rect = ScreenRect { x: bbox.x, y: bbox.y, width: bbox.width, height: bbox.height };
        rect.fit_to_rect(ctx.max_filter_region)
    };
    let d = match device {
        Some(d) => d,
        None => return None,
    };
    let x: i64 = d.x as i64 - parent_offset.0 as i64;
    let y: i64 = d.y as i64 - parent_offset.1 as i64;
    if x < i32::MIN as i64 || x > i32::MAX as i64 || y < i32::MIN as i64 || y > i32::MAX as i64 {
        return None;
    }
    Some(ScreenRect { x: x as i32, y: y as i32, width: d.width, height: d.height })
}

/// A group of the scene as the compositor sees it. Everything it paints
/// (children's paint, filters, clip path, mask) is named by a handle that
/// the caller resolves.
pub struct Group {
    /// Handle of the group; its opacity and blend mode are looked up by it.
    pub id: usize,
    /// The device box, or `None` when the group's own box is invalid or
    /// degenerate; such a group draws nothing.
    pub bbox: Option<DeviceBox>,
    /// Handles of the filters, in the order they are applied.
    pub filters: Vec<usize>,
    pub clip_path: Option<usize>,
    pub mask: Option<usize>,
    /// Children in paint order: later ones are drawn over earlier ones.
    pub children: Vec<Node>,
}

/// A node of the scene.
pub enum Node {
    Group(Group),
    FillPath(usize),
    StrokePath(usize),
    Image(usize),
}

/// The scene to render.
pub struct Tree {
    pub children: Vec<Node>,
}

/// One drawing step. Steps run in sequence against a stack of pixel
/// layers whose bottom is the target.
#[derive(Clone, Copy, Debug, PartialEq, Eq, Structural)]
pub enum RenderCommand {
    /// Fill a path into the top layer.
    Fill(usize),
    /// Stroke a path into the top layer.
    Stroke(usize),
    /// Draw an image into the top layer.
    Image(usize),
    /// Allocate a transparent layer covering `rect` of the current top
    /// layer and make it the top; drawing into it is shifted by
    /// `-rect.x, -rect.y`.
    PushLayer { group: usize, rect: ScreenRect },
    /// Apply a filter of the group to the top layer.
    Filter { group: usize, filter: usize },
    /// Clip the top layer by the group's clip path.
    Clip { group: usize, clip_path: usize },
    /// Mask the top layer by the group's mask.
    Mask { group: usize, mask: usize },
    /// Composite the top layer onto the one below at the layer's origin with
    /// the group's opacity and blend mode, then release it.
    PopLayer { group: usize },
}

/// Where a group's layer goes and where its children's layers are anchored
/// on the target.
pub open spec fn spec_group_layout(g: Group, ctx: Context, off: (i32, i32)) -> Option<(ScreenRect, (i32, i32))> {
    match g.bbox {
        None => None,
        Some(b) => match spec_layer_rect(b, g.filters@.len() > 0, off, ctx) {
            None => None,
            Some(rect) => {
                let cx = off.0 + rect.x;
                let cy = off.1 + rect.y;
                if i32::MIN <= cx <= i32::MAX && i32::MIN <= cy <= i32::MAX {
                    Some((rect, (cx as i32, cy as i32)))
                } else {
                    None
                }
            },
        },
    }
}

/// The steps that finish a group's layer: its filters in order, then its
/// clip path, then its mask, then compositing.
pub open spec fn spec_group_effects(g: Group) -> Seq<RenderCommand> {
    Seq::new(g.filters@.len(), |i: int| RenderCommand::Filter { group: g.id, filter: g.filters@[i] })
        + match g.clip_path {
            Some(c) => seq![RenderCommand::Clip { group: g.id, clip_path: c }],
            None => Seq::empty(),
        }
        + match g.mask {
            Some(m) => seq![RenderCommand::Mask { group: g.id, mask: m }],
            None => Seq::empty(),
        }
        + seq![RenderCommand::PopLayer { group: g.id }]
}

/// The steps that render `node` into a layer anchored at `off`.
pub open spec fn spec_node_commands(node: Node, ctx: Context, off: (i32, i32)) -> Seq<RenderCommand>
    decreases node,
{
    match node {
        Node::Group(g) => match spec_group_layout(g, ctx, off) {
            None => Seq::empty(),
            Some(l) => seq![RenderCommand::PushLayer { group: g.id, rect: l.0 }]
                + spec_nodes_commands(g.children@, ctx, l.1) + spec_group_effects(g),
        },
        Node::FillPath(p) => seq![RenderCommand::Fill(p)],
        Node::StrokePath(p) => seq![RenderCommand::Stroke(p)],
        Node::Image(i) => seq![RenderCommand::Image(i)],
    }
}

/// The steps that render `nodes` in paint order.
pub open spec fn spec_nodes_commands(nodes: Seq<Node>, ctx: Context, off: (i32, i32)) -> Seq<RenderCommand>
    decreases nodes,
{
    if nodes.len() == 0 {
        Seq::empty()
    } else {
        spec_nodes_commands(nodes.drop_last(), ctx, off) + spec_node_commands(nodes.last(), ctx, off)
    }
}


/// Appends the steps that render `children`, in paint order, into a layer
/// anchored at `parent_offset` on the target.
pub fn render_nodes(
    children: &Vec<Node>,
    ctx: &Context,
    parent_offset: (i32, i32),
    commands: &mut Vec<RenderCommand>,
)
    ensures
        final(commands)@ == old(commands)@ + spec_nodes_commands(children@, *ctx, parent_offset),
    decreases children@, 0nat,
{
    let mut i: usize = 0;
    while i < children.len()
        invariant
            i <= children@.len(),
            commands@ == old(commands)@ + spec_nodes_commands(children@.take(i as int), *ctx, parent_offset),
        decreases children@.len() - i,
    {
        proof {
            assert(children@.take(i + 1).drop_last() =~= children@.take(i as int));
            assert(children@.take(i + 1).last() == children@[i as int]);
            assert(decreases_to!(children@ => children@[i as int]));
        }
        render_node(&children[i], ctx, parent_offset, commands);
        i = i + 1;
    }
    assert(children@.take(i as int) =~= children@);
}

fn render_node(node: &Node, ctx: &Context, parent_offset: (i32, i32), commands: &mut Vec<RenderCommand>)
    ensures
        final(commands)@ == old(commands)@ + spec_node_commands(*node, *ctx, parent_offset),
    decreases node, 1nat,
{
    match node {
        Node::Group(g) => {
            render_group(g, ctx, parent_offset, commands);
        },
        Node::FillPath(p) => {
            commands.push(RenderCommand::Fill(*p));
        },
        Node::StrokePath(p) => {
            commands.push(RenderCommand::Stroke(*p));
        },
        Node::Image(i) => {
            commands.push(RenderCommand::Image(*i));
        },
    }
}

/// Where the group's layer goes and where its children are anchored.
fn group_layout(g: &Group, ctx: &Context, parent_offset: (i32, i32)) -> (r: Option<(ScreenRect, (i32, i32))>)
    ensures
        r == spec_group_layout(*g, *ctx, parent_offset),
{
    let bbox = match g.bbox {
        Some(b) => b,
        None => return None,
    };
    let rect = match layer_rect(bbox, g.filters.len() > 0, parent_offset, ctx) {
        Some(r) => r,
        None => return None,
    };
    let cx: i64 = parent_offset.0 as i64 + rect.x as i64;
    let cy: i64 = parent_offset.1 as i64 + rect.y as i64;
    if cx < i32::MIN as i64 || cx > i32::MAX as i64 || cy < i32::MIN as i64 || cy > i32::MAX as i64 {
        return None;
    }
    Some((rect, (cx as i32, cy as i32)))
}

/// Appends the steps of one group: its layer, its children, then filters,
/// clip path, mask and compositing, in that order. Returns `None`, and
/// appends nothing, when the group has no visible layer.
pub fn render_group(g: &Group, ctx: &Context, parent_offset: (i32, i32), commands: &mut Vec<RenderCommand>) -> (r: Option<()>)
    ensures
        final(commands)@ == old(commands)@ + spec_node_commands(Node::Group(*g), *ctx, parent_offset),
        r is Some <==> spec_group_layout(*g, *ctx, parent_offset) is Some,
    decreases Node::Group(*g), 0nat,
{
    let (rect, child_offset) = match group_layout(g, ctx, parent_offset) {
        Some(l) => l,
        None => return None,
    };
    commands.push(RenderCommand::PushLayer { group: g.id, rect });
    proof {
        assert(decreases_to!(Node::Group(*g) => g.children@));
    }
    render_nodes(&g.children, ctx, child_offset, commands);
    let ghost after_children = commands@;
    let mut i: usize = 0;
    while i < g.filters.len()
        invariant
            i <= g.filters@.len(),
            commands@ == after_children + Seq::new(
                i as nat,
                |k: int| RenderCommand::Filter { group: g.id, filter: g.filters@[k] },
            ),
        decreases g.filters@.len() - i,
    {
        commands.push(RenderCommand::Filter { group: g.id, filter: g.filters[i] });
        i = i + 1;
        proof {
            assert(commands@ =~= after_children + Seq::new(
                i as nat,
                |k: int| RenderCommand::Filter { group: g.id, filter: g.filters@[k] },
            ));
        }
    }
    if let Some(c) = g.clip_path {
        commands.push(RenderCommand::Clip { group: g.id, clip_path: c });
    }
    if let Some(m) = g.mask {
        commands.push(RenderCommand::Mask { group: g.id, mask: m });
    }
    commands.push(RenderCommand::PopLayer { group: g.id });
    proof {
        assert(commands@ =~= old(commands)@ + spec_node_commands(Node::Group(*g), *ctx, parent_offset));
    }
    Some(())
}

/// The steps that render a single node onto the target.
pub fn render_node_to_canvas(node: &Node, ctx: &Context) -> (r: Vec<RenderCommand>)
    ensures
        r@ == spec_node_commands(*node, *ctx, (0, 0)),
{
    let mut commands: Vec<RenderCommand> = Vec::new();
    render_node(node, ctx, (0, 0), &mut commands);
    assert(commands@ =~= spec_node_commands(*node, *ctx, (0, 0)));
    commands
}

/// The steps that render the whole scene onto the target: the root's
/// children in paint order, anchored at the target's origin.
pub fn render_to_canvas(tree: &Tree, ctx: &Context) -> (r: Vec<RenderCommand>)
    ensures
        r@ == spec_nodes_commands(tree.children@, *ctx, (0, 0)),
{
    let mut commands: Vec<RenderCommand> = Vec::new();
    render_nodes(&tree.children, ctx, (0, 0), &mut commands);
    assert(commands@ =~= spec_nodes_commands(tree.children@, *ctx, (0, 0)));
    commands
}


/// The steps for a sequence of nodes are the steps for its first part
/// followed by the steps for the rest.
pub proof fn lemma_nodes_commands_append(a: Seq<Node>, b: Seq<Node>, ctx: Context, off: (i32, i32))
    ensures
        spec_nodes_commands(a + b, ctx, off) == spec_nodes_commands(a, ctx, off)
            + spec_nodes_commands(b, ctx, off),
    decreases b.len(),
{
    if b.len() == 0 {
        assert(a + b =~= a);
        assert(spec_nodes_commands(a, ctx, off) + Seq::<RenderCommand>::empty() =~= spec_nodes_commands(a, ctx, off));
    } else {
        assert((a + b).drop_last() =~= a + b.drop_last());
        assert((a + b).last() == b.last());
        lemma_nodes_commands_append(a, b.drop_last(), ctx, off);
        assert(spec_nodes_commands(a, ctx, off) + spec_nodes_commands(b.drop_last(), ctx, off)
            + spec_node_commands(b.last(), ctx, off) =~= spec_nodes_commands(a, ctx, off) + (
        spec_nodes_commands(b.drop_last(), ctx, off) + spec_node_commands(b.last(), ctx, off)));
    }
}

/// A group without filters whose device box, grown by the anti-aliasing
/// margin, lies wholly outside the target gets no layer and no step, at
/// any nesting depth, and its siblings get exactly the steps they get
/// without it.
pub proof fn lemma_offscreen_group_draws_nothing(
    before: Seq<Node>,
    g: Group,
    after: Seq<Node>,
    ctx: Context,
    off: (i32, i32),
)
    requires
        ctx.wf(),
        g.filters@.len() == 0,
        g.bbox matches Some(b) && (b.x + b.width + AA_MARGIN <= 0 || b.y + b.height + AA_MARGIN <= 0
            || b.x - AA_MARGIN >= ctx.target_size.width || b.y - AA_MARGIN
            >= ctx.target_size.height),
    ensures
        spec_node_commands(Node::Group(g), ctx, off) == Seq::<RenderCommand>::empty(),
        spec_nodes_commands(before + seq![Node::Group(g)] + after, ctx, off)
            == spec_nodes_commands(before, ctx, off) + spec_nodes_commands(after, ctx, off),
{
    let b = g.bbox->0;
    assert(spec_device_layer(b, false, ctx) is None);
    assert(spec_layer_rect(b, false, off, ctx) is None);
    assert(spec_group_layout(g, ctx, off) is None);
    assert(spec_node_commands(Node::Group(g), ctx, off) == Seq::<RenderCommand>::empty());
    let one = seq![Node::Group(g)];
    assert(one.last() == Node::Group(g));
    assert(spec_nodes_commands(Seq::<Node>::empty(), ctx, off) == Seq::<RenderCommand>::empty());
    lemma_nodes_commands_append(before + one, after, ctx, off);
    lemma_nodes_commands_append(before, one, ctx, off);
    assert(one.drop_last() =~= Seq::<Node>::empty());
    assert(spec_nodes_commands(one, ctx, off) =~= Seq::<RenderCommand>::empty());
    assert(spec_nodes_commands(before, ctx, off) + Seq::<RenderCommand>::empty() =~= spec_nodes_commands(before, ctx, off));
}

/// A group's layer is anchored where it lies on the target, whatever the
/// parent's anchor: its children's anchor is the device position of the
/// layer, and its rectangle is that device area seen from the parent.
pub proof fn lemma_layer_anchor(g: Group, ctx: Context, off: (i32, i32))
    requires
        spec_group_layout(g, ctx, off) is Some,
    ensures
        ({
            let l = spec_group_layout(g, ctx, off)->0;
            &&& spec_device_layer(g.bbox->0, g.filters@.len() > 0, ctx) == Some(
                ScreenRect { x: l.1.0, y: l.1.1, width: l.0.width, height: l.0.height },
            )
            &&& l.0.x == l.1.0 - off.0
            &&& l.0.y == l.1.1 - off.1
        }),
{
}

/// A group that gets a layer paints its children first; then every filter
/// runs, in declared order, before the clip path, the clip path before the
/// mask, and the mask before the layer is composited. Clip and mask thus
/// act on the filtered result.
pub proof fn lemma_effect_order(g: Group, ctx: Context, off: (i32, i32))
    requires
        spec_group_layout(g, ctx, off) is Some,
    ensures
        ({
            let s = spec_node_commands(Node::Group(g), ctx, off);
            let n = s.len() as int;
            let m: int = if g.mask is Some { 1 } else { 0 };
            let c: int = if g.clip_path is Some { 1 } else { 0 };
            let f = g.filters@.len() as int;
            &&& n >= 2 + f + c + m
            &&& s[0] == RenderCommand::PushLayer { group: g.id, rect: (spec_group_layout(g, ctx, off)->0).0 }
            &&& s[n - 1] == RenderCommand::PopLayer { group: g.id }
            &&& (g.mask matches Some(k) ==> s[n - 2] == RenderCommand::Mask { group: g.id, mask: k })
            &&& (g.clip_path matches Some(k) ==> s[n - 2 - m] == RenderCommand::Clip { group: g.id, clip_path: k })
            &&& forall|i: int| 0 <= i < f ==> #[trigger] s[n - 1 - m - c - f + i] == RenderCommand::Filter { group: g.id, filter: g.filters@[i] }
        }),
{
    let l = spec_group_layout(g, ctx, off)->0;
    let head = seq![RenderCommand::PushLayer { group: g.id, rect: l.0 }] + spec_nodes_commands(g.children@, ctx, l.1);
    let e = spec_group_effects(g);
    let s = spec_node_commands(Node::Group(g), ctx, off);
    assert(s == head + e);
    let f = g.filters@.len() as int;
    let m: int = if g.mask is Some { 1 } else { 0 };
    let c: int = if g.clip_path is Some { 1 } else { 0 };
    assert(e.len() == f + c + m + 1);
    assert forall|i: int| 0 <= i < f implies #[trigger] s[s.len() - 1 - m - c - f + i] == RenderCommand::Filter { group: g.id, filter: g.filters@[i] } by {
        assert(s[s.len() - 1 - m - c - f + i] == e[i]);
    }
}


/// How a step changes the number of open layers.
pub open spec fn layer_delta(c: RenderCommand) -> int {
    match c {
        RenderCommand::PushLayer { .. } => 1,
        RenderCommand::PopLayer { .. } => -1,
        _ => 0,
    }
}

/// The number of layers left open after running `s`.
pub open spec fn layer_depth(s: Seq<RenderCommand>) -> int
    decreases s.len(),
{
    if s.len() == 0 {
        0
    } else {
        layer_depth(s.drop_last()) + layer_delta(s.last())
    }
}

/// Every layer that `s` opens it also closes, and it never closes a layer
/// it did not open.
pub open spec fn well_nested(s: Seq<RenderCommand>) -> bool {
    &&& layer_depth(s) == 0
    &&& forall|i: int| 0 <= i <= s.len() ==> #[trigger] layer_depth(s.take(i)) >= 0
}

proof fn lemma_depth_append(a: Seq<RenderCommand>, b: Seq<RenderCommand>)
    ensures
        layer_depth(a + b) == layer_depth(a) + layer_depth(b),
    decreases b.len(),
{
    if b.len() == 0 {
        assert(a + b =~= a);
    } else {
        assert((a + b).drop_last() =~= a + b.drop_last());
        lemma_depth_append(a, b.drop_last());
    }
}

proof fn lemma_well_nested_append(a: Seq<RenderCommand>, b: Seq<RenderCommand>)
    requires
        well_nested(a),
        well_nested(b),
    ensures
        well_nested(a + b),
{
    lemma_depth_append(a, b);
    assert forall|i: int| 0 <= i <= (a + b).len() implies #[trigger] layer_depth((a + b).take(i)) >= 0 by {
        if i <= a.len() {
            assert((a + b).take(i) =~= a.take(i));
        } else {
            assert((a + b).take(i) =~= a + b.take(i - a.len()));
            lemma_depth_append(a, b.take(i - a.len()));
            assert(layer_depth(b.take(i - a.len())) >= 0);
        }
    }
}

/// Depth of a prefix of a group's finishing steps: no layer is opened or
/// closed until the final composite.
proof fn lemma_effects_depth(g: Group, i: int)
    requires
        0 <= i <= spec_group_effects(g).len(),
    ensures
        layer_depth(spec_group_effects(g).take(i)) == if i == spec_group_effects(g).len() { -1int } else { 0int },
    decreases i,
{
    let e = spec_group_effects(g);
    let f = g.filters@.len() as int;
    let c: int = if g.clip_path is Some { 1 } else { 0 };
    let m: int = if g.mask is Some { 1 } else { 0 };
    assert(e.len() == f + c + m + 1);
    if i > 0 {
        lemma_effects_depth(g, i - 1);
        assert(e.take(i).drop_last() =~= e.take(i - 1));
        assert(e.take(i).last() == e[i - 1]);
        if i - 1 < f {
            assert(e[i - 1] == RenderCommand::Filter { group: g.id, filter: g.filters@[i - 1] });
        } else if i - 1 < f + c {
            assert(e[i - 1] == RenderCommand::Clip { group: g.id, clip_path: g.clip_path->0 });
        } else if i - 1 < f + c + m {
            assert(e[i - 1] == RenderCommand::Mask { group: g.id, mask: g.mask->0 });
        } else {
            assert(e[i - 1] == RenderCommand::PopLayer { group: g.id });
        }
    }
}

/// The steps that render a node open and close layers in matching pairs.
pub proof fn lemma_node_commands_well_nested(node: Node, ctx: Context, off: (i32, i32))
    ensures
        well_nested(spec_node_commands(node, ctx, off)),
    decreases node, 1nat,
{
    let s = spec_node_commands(node, ctx, off);
    match node {
        Node::Group(g) => {
            match spec_group_layout(g, ctx, off) {
                None => {
                    assert forall|i: int| 0 <= i <= s.len() implies #[trigger] layer_depth(s.take(i)) >= 0 by {
                        assert(s.take(i) =~= Seq::<RenderCommand>::empty());
                    }
                },
                Some(l) => {
                    let push = seq![RenderCommand::PushLayer { group: g.id, rect: l.0 }];
                    let inner = spec_nodes_commands(g.children@, ctx, l.1);
                    let e = spec_group_effects(g);
                    assert(decreases_to!(node => g.children@));
                    lemma_nodes_commands_well_nested(g.children@, ctx, l.1);
                    assert(push.drop_last() =~= Seq::<RenderCommand>::empty());
                    assert(layer_depth(push.drop_last()) == 0);
                    assert(layer_depth(push) == 1);
                    assert(s == (push + inner) + e);
                    lemma_depth_append(push, inner);
                    lemma_effects_depth(g, e.len() as int);
                    assert(e.take(e.len() as int) =~= e);
                    lemma_depth_append(push + inner, e);
                    assert forall|i: int| 0 <= i <= s.len() implies #[trigger] layer_depth(s.take(i)) >= 0 by {
                        if i == 0 {
                            assert(s.take(i) =~= Seq::<RenderCommand>::empty());
                        } else if i <= 1 + inner.len() {
                            assert(s.take(i) =~= push + inner.take(i - 1));
                            lemma_depth_append(push, inner.take(i - 1));
                        } else {
                            assert(s.take(i) =~= (push + inner) + e.take(i - 1 - inner.len()));
                            lemma_depth_append(push + inner, e.take(i - 1 - inner.len()));
                            lemma_effects_depth(g, i - 1 - inner.len());
                        }
                    }
                },
            }
        },
        _ => {
            assert(s.drop_last() =~= Seq::<RenderCommand>::empty());
            assert(layer_depth(s.drop_last()) == 0);
            assert(layer_delta(s.last()) == 0);
            assert forall|i: int| 0 <= i <= s.len() implies #[trigger] layer_depth(s.take(i)) >= 0 by {
                if i == 0 {
                    assert(s.take(i) =~= Seq::<RenderCommand>::empty());
                } else {
                    assert(s.take(i) =~= s);
                }
            }
        },
    }
}

/// The steps that render a sequence of nodes open and close layers in
/// matching pairs, so a runner that keeps a stack of layers never pops an
/// empty stack and ends with only the target.
pub proof fn lemma_nodes_commands_well_nested(nodes: Seq<Node>, ctx: Context, off: (i32, i32))
    ensures
        well_nested(spec_nodes_commands(nodes, ctx, off)),
    decreases nodes, 0nat,
{
    if nodes.len() == 0 {
        let s = spec_nodes_commands(nodes, ctx, off);
        assert forall|i: int| 0 <= i <= s.len() implies #[trigger] layer_depth(s.take(i)) >= 0 by {
            assert(s.take(i) =~= Seq::<RenderCommand>::empty());
        }
    } else {
        lemma_nodes_commands_well_nested(nodes.drop_last(), ctx, off);
        lemma_node_commands_well_nested(nodes.last(), ctx, off);
        lemma_well_nested_append(
            spec_nodes_commands(nodes.drop_last(), ctx, off),
            spec_node_commands(nodes.last(), ctx, off),
        );
    }
}


/// The index just after the step that closes the layer opened at `start`,
/// or the end of `commands` when that layer is never closed. A runner that
/// cannot allocate a layer resumes there, skipping the layer's whole
/// subtree.
pub fn layer_end(commands: &Vec<RenderCommand>, start: usize) -> (r: usize)
    requires
        start < commands@.len(),
        commands@[start as int] is PushLayer,
    ensures
        start < r <= commands@.len(),
        forall|j: int| start < j < r ==> #[trigger] layer_depth(commands@.subrange(start as int, j)) > 0,
        r == commands@.len() || layer_depth(commands@.subrange(start as int, r as int)) == 0,
{
    let ghost s = commands@;
    proof {
        let first = s.subrange(start as int, start + 1);
        assert(first.drop_last() =~= Seq::<RenderCommand>::empty());
        assert(layer_depth(first.drop_last()) == 0);
        assert(first.last() == s[start as int]);
    }
    let n = commands.len();
    let mut depth: usize = 1;
    let mut i: usize = start + 1;
    while i < n && depth > 0
        invariant
            start < i <= s.len(),
            s == commands@,
            n == s.len(),
            depth as int == layer_depth(s.subrange(start as int, i as int)),
            depth <= i - start,
            forall|j: int| start < j < i ==> #[trigger] layer_depth(s.subrange(start as int, j)) > 0,
        decreases s.len() - i,
    {
        proof {
            let next = s.subrange(start as int, i + 1);
            assert(next.drop_last() =~= s.subrange(start as int, i as int));
            assert(next.last() == s[i as int]);
        }
        match commands[i] {
            RenderCommand::PushLayer { .. } => {
                depth = depth + 1;
            },
            RenderCommand::PopLayer { .. } => {
                depth = depth - 1;
            },
            _ => {},
        }
        i = i + 1;
    }
    i
}

} // verus!
