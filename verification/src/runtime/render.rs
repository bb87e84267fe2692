//! Evaluation of a composition at a frame: the walk over layers and shapes
//! that produces the drawing commands of the frame.

use vstd::prelude::*;
use crate::geometry::Affine;
use crate::geometry::Factor;
use crate::geometry::PathItem;
use crate::runtime::model::fixed;
use crate::runtime::model::fixed::BrushView;
use crate::runtime::model::Content;
use crate::runtime::model::Draw;
use crate::runtime::model::Layer;
use crate::runtime::model::Mask;
use crate::runtime::model::Shape;
use crate::runtime::Composition;
use crate::geometry::duplicate_path;
use crate::runtime::model::Value;
use crate::scalar::product;
use crate::scalar::product_spec;
use crate::scalar::quotient;
use crate::scalar::quotient_spec;
use crate::scalar::saturate;
use crate::scalar::saturate_spec;

verus! {

/// A drawing command. Commands come in paint order: what an earlier command
/// draws lies beneath what a later one draws. Every transform is absolute.
#[derive(Debug, PartialEq)]
pub enum Command {
    /// Fills the outline `path`, mapped by `transform`, with `brush`.
    Fill { path: Vec<PathItem>, transform: Affine, brush: fixed::Brush },
    /// Strokes the outline `path`, mapped by `transform`, with `brush`.
    Stroke { path: Vec<PathItem>, transform: Affine, brush: fixed::Brush, style: fixed::Stroke },
    /// Restricts what follows, up to the matching `PopMask`, to the outline
    /// `path`, mapped by `transform`, at the opacity `alpha`.
    PushMask { mode: peniko::BlendMode, alpha: i64, transform: Affine, path: Vec<PathItem> },
    /// Ends the restriction of the last open `PushMask`.
    PopMask,
    /// Blends what follows, up to the matching `PopBlend`, as a group with
    /// what was drawn before.
    PushBlend { mode: peniko::BlendMode },
    /// Ends the group of the last open `PushBlend`.
    PopBlend,
}

/// What a drawing command holds.
pub enum CommandView {
    Fill { path: Seq<PathItem>, transform: Seq<Factor>, brush: BrushView },
    Stroke { path: Seq<PathItem>, transform: Seq<Factor>, brush: BrushView, style: fixed::Stroke },
    PushMask { mode: peniko::BlendMode, alpha: i64, transform: Seq<Factor>, path: Seq<PathItem> },
    PopMask,
    PushBlend { mode: peniko::BlendMode },
    PopBlend,
}

impl View for Command {
    type V = CommandView;

    open spec fn view(&self) -> CommandView {
        match self {
            Command::Fill { path, transform, brush } => CommandView::Fill {
                path: path@,
                transform: transform@,
                brush: brush@,
            },
            Command::Stroke { path, transform, brush, style } => CommandView::Stroke {
                path: path@,
                transform: transform@,
                brush: brush@,
                style: *style,
            },
            Command::PushMask { mode, alpha, transform, path } => CommandView::PushMask {
                mode: *mode,
                alpha: *alpha,
                transform: transform@,
                path: path@,
            },
            Command::PopMask => CommandView::PopMask,
            Command::PushBlend { mode } => CommandView::PushBlend { mode: *mode },
            Command::PopBlend => CommandView::PopBlend,
        }
    }
}

/// What a sequence of drawing commands holds.
pub open spec fn views(commands: Seq<Command>) -> Seq<CommandView> {
    Seq::new(commands.len(), |i: int| commands[i]@)
}

/// The command of a draw element: a stroke where the element has stroke
/// properties, a fill otherwise, of the outline gathered so far, with the
/// brush at the opacity of the element times the opacity gathered so far.
pub open spec fn draw_command(
    draw: Draw,
    path: Seq<PathItem>,
    transform: Seq<Factor>,
    alpha: int,
    frame: int,
) -> CommandView {
    let brush = draw.brush.at(product_spec(alpha, draw.opacity.at(frame) as int), frame);
    match draw.stroke {
        Some(stroke) => CommandView::Stroke { path, transform, brush, style: stroke.at(frame) },
        None => CommandView::Fill { path, transform, brush },
    }
}

/// The commands of the shapes from index `start` on, given the outline,
/// transform and opacity gathered before them.
///
/// A group draws its children under its own transform and opacity, starting
/// from an empty outline, and leaves the outline of its siblings as it was.
/// A geometry element adds to the outline. A draw element paints the outline
/// and leaves it in place. A repeater draws the shapes after it once for
/// each copy, and nothing follows it.
pub open spec fn shapes_commands(
    shapes: Seq<Shape>,
    start: int,
    path: Seq<PathItem>,
    transform: Seq<Factor>,
    alpha: int,
    frame: int,
) -> Seq<CommandView>
    decreases shapes, shapes.len() - start, 0int,
{
    if start < 0 || start >= shapes.len() {
        Seq::empty()
    } else {
        match shapes[start] {
            Shape::Group(children, group) => {
                let inner = match group {
                    Some(g) => shapes_commands(
                        children@,
                        0,
                        Seq::empty(),
                        transform + g.transform.at(frame),
                        product_spec(alpha, g.opacity.at(frame) as int),
                        frame,
                    ),
                    None => shapes_commands(children@, 0, Seq::empty(), transform, alpha, frame),
                };
                inner + shapes_commands(shapes, start + 1, path, transform, alpha, frame)
            },
            Shape::Geometry(geometry) => shapes_commands(
                shapes,
                start + 1,
                path + geometry.at(frame),
                transform,
                alpha,
                frame,
            ),
            Shape::Draw(draw) => seq![draw_command(draw, path, transform, alpha, frame)]
                + shapes_commands(shapes, start + 1, path, transform, alpha, frame),
            Shape::Repeater(repeater) => copies_commands(
                shapes,
                start + 1,
                path,
                transform,
                alpha,
                frame,
                repeater.at(frame),
                0,
            ),
        }
    }
}

/// The commands of the copies of a repeater from copy `index` on: for each
/// copy the shapes from index `start` on, under the transform of the copy
/// and at the opacity of the copy.
pub open spec fn copies_commands(
    shapes: Seq<Shape>,
    start: int,
    path: Seq<PathItem>,
    transform: Seq<Factor>,
    alpha: int,
    frame: int,
    repeater: fixed::Repeater,
    index: int,
) -> Seq<CommandView>
    decreases shapes, shapes.len() - start, repeater.copies - index + 1,
{
    if index < 0 || index >= repeater.copies {
        Seq::empty()
    } else {
        shapes_commands(
            shapes,
            start,
            path,
            transform + repeater.transform_spec(index),
            product_spec(alpha, repeater.opacity_spec(index)),
            frame,
        ) + copies_commands(shapes, start, path, transform, alpha, frame, repeater, index + 1)
    }
}

/// The command that opens a mask: the outline and the opacity of the mask at
/// `frame`, under the transform of the layer.
pub open spec fn mask_command(mask: Mask, transform: Seq<Factor>, frame: int) -> CommandView {
    CommandView::PushMask {
        mode: mask.mode,
        alpha: mask.opacity.at(frame) as i64,
        transform,
        path: mask.geometry.at(frame),
    }
}

/// The commands that open the masks of a layer, in the order of the masks.
pub open spec fn mask_pushes(masks: Seq<Mask>, transform: Seq<Factor>, frame: int) -> Seq<
    CommandView,
> {
    Seq::new(masks.len(), |i: int| mask_command(masks[i], transform, frame))
}

/// The commands that close `n` masks.
pub open spec fn mask_pops(n: nat) -> Seq<CommandView> {
    Seq::new(n, |i: int| CommandView::PopMask)
}

/// The product of the transforms of the ancestors of layer `index`, the
/// outermost ancestor first.
///
/// `visited` tells of each layer whether the walk has passed through it. The
/// walk ends at a layer without a parent, at a parent that is no layer of
/// the sequence, and at a parent that was visited before. `fuel` bounds the
/// number of steps; the walk visits a new layer at each step, so that fuel
/// equal to the number of layers never runs out (`lemma_fuel_suffices`).
pub open spec fn ancestors_transform(
    layers: Seq<Layer>,
    index: int,
    visited: Seq<bool>,
    fuel: nat,
    frame: int,
) -> Seq<Factor>
    decreases fuel,
{
    match layers[index].parent {
        Some(p) => if fuel > 0 && p < layers.len() && p < visited.len() && !visited[p as int] {
            ancestors_transform(
                layers,
                p as int,
                visited.update(p as int, true),
                (fuel - 1) as nat,
                frame,
            ) + layers[p as int].transform.at(frame)
        } else {
            Seq::empty()
        },
        None => Seq::empty(),
    }
}

/// The marks of a walk that starts at layer `index`: that layer alone is
/// visited.
pub open spec fn start_marks(n: nat, index: int) -> Seq<bool> {
    Seq::new(n, |j: int| j == index)
}

/// The absolute transform of layer `index`: the transform `base` of its
/// surroundings, then the transforms of its ancestors, then its own.
pub open spec fn layer_transform(layers: Seq<Layer>, index: int, base: Seq<Factor>, frame: int) -> Seq<
    Factor,
> {
    base + ancestors_transform(
        layers,
        index,
        start_marks(layers.len(), index),
        layers.len(),
        frame,
    ) + layers[index].transform.at(frame)
}

/// The frame of an asset at the frame `frame` of the layer that instances
/// it: the value of the time remapping where there is one; otherwise the
/// frames since the start frame of the layer, divided by its stretch. `None`
/// where the stretch is zero and nothing remaps the time.
pub open spec fn local_frame(layer: Layer, time_remap: Option<Value<i32>>, frame: int) -> Option<
    int,
> {
    match time_remap {
        Some(remap) => Some(remap.at(frame) as int),
        None => if layer.stretch == 0 {
            None
        } else {
            Some(quotient_spec(saturate_spec(frame - layer.start_frame), layer.stretch as int))
        },
    }
}

/// The commands of the content of a layer, under the absolute transform
/// `transform` and the opacity `opacity` of the layer: nothing for an empty
/// layer; the commands of its shapes; or the commands of the asset that it
/// instances, at the frame of the asset. An instance draws nothing where no
/// asset has its name, where the frame of the asset cannot be told, and where
/// `depth` is zero.
pub open spec fn content_commands(
    composition: Composition,
    layer: Layer,
    transform: Seq<Factor>,
    opacity: int,
    frame: int,
    depth: nat,
) -> Seq<CommandView>
    decreases depth, 0int,
{
    match layer.content {
        Content::Empty => Seq::empty(),
        Content::Shape(shapes) => shapes_commands(
            shapes@,
            0,
            Seq::empty(),
            transform,
            opacity,
            frame,
        ),
        Content::Instance { name, time_remap } => match (
            composition.asset_index_spec(name@),
            local_frame(layer, time_remap, frame),
        ) {
            (Some(asset), Some(local)) => if depth > 0 {
                layers_commands(
                    composition,
                    composition.assets@[asset].layers@,
                    0,
                    transform,
                    opacity,
                    local,
                    (depth - 1) as nat,
                )
            } else {
                Seq::empty()
            },
            _ => Seq::empty(),
        },
    }
}

/// The commands of the matte of layer `index`: where the layer names a layer
/// of `layers` as its matte, the commands of that layer, under the transform
/// and opacity of the surroundings, inside a blend group of the matte's
/// mode. Nothing where the layer names no matte, where the name is no layer
/// of the sequence, and where `depth` is zero.
pub open spec fn matte_commands(
    composition: Composition,
    layers: Seq<Layer>,
    index: int,
    base: Seq<Factor>,
    alpha: int,
    frame: int,
    depth: nat,
) -> Seq<CommandView>
    decreases depth, 0int,
{
    match layers[index].mask_layer {
        Some(matte) => if depth > 0 && matte.1 < layers.len() {
            seq![CommandView::PushBlend { mode: matte.0 }] + layer_commands(
                composition,
                layers,
                matte.1 as int,
                base,
                alpha,
                frame,
                (depth - 1) as nat,
            ) + seq![CommandView::PopBlend]
        } else {
            Seq::empty()
        },
        None => Seq::empty(),
    }
}

/// The commands of an active layer without its blend group: the opening of
/// its masks, its content, the closing of its masks, and its matte.
pub open spec fn layer_body(
    composition: Composition,
    layers: Seq<Layer>,
    index: int,
    base: Seq<Factor>,
    alpha: int,
    frame: int,
    depth: nat,
) -> Seq<CommandView>
    decreases depth, 1int,
{
    let layer = layers[index];
    let transform = layer_transform(layers, index, base, frame);
    let opacity = product_spec(alpha, layer.opacity.at(frame) as int);
    mask_pushes(layer.masks@, transform, frame) + content_commands(
        composition,
        layer,
        transform,
        opacity,
        frame,
        depth,
    ) + mask_pops(layer.masks@.len()) + matte_commands(
        composition,
        layers,
        index,
        base,
        alpha,
        frame,
        depth,
    )
}

/// The commands of layer `index` of `layers` at `frame`, under the transform
/// `base` and the opacity `alpha` of its surroundings.
///
/// Outside its range of frames the layer draws nothing. Inside, its commands
/// are, in this order: the opening of its blend group, where it has a blend
/// mode; the opening of its masks; its content; the closing of its masks;
/// its matte, where it names one; the closing of its blend group.
/// `depth` bounds how deeply instances and mattes are followed.
pub open spec fn layer_commands(
    composition: Composition,
    layers: Seq<Layer>,
    index: int,
    base: Seq<Factor>,
    alpha: int,
    frame: int,
    depth: nat,
) -> Seq<CommandView>
    decreases depth, 2int,
{
    let layer = layers[index];
    if !layer.frames.contains_spec(frame) {
        Seq::empty()
    } else {
        let body = layer_body(composition, layers, index, base, alpha, frame, depth);
        match layer.blend_mode {
            Some(mode) => seq![CommandView::PushBlend { mode }] + body + seq![CommandView::PopBlend],
            None => body,
        }
    }
}

/// The commands of the layers from index `start` on, in the order of the
/// layers: those of each layer that is no mask.
pub open spec fn layers_commands(
    composition: Composition,
    layers: Seq<Layer>,
    start: int,
    base: Seq<Factor>,
    alpha: int,
    frame: int,
    depth: nat,
) -> Seq<CommandView>
    decreases depth, layers.len() - start + 3,
{
    if start < 0 || start >= layers.len() {
        Seq::empty()
    } else {
        let first = if layers[start].is_mask {
            Seq::empty()
        } else {
            layer_commands(composition, layers, start, base, alpha, frame, depth)
        };
        first + layers_commands(composition, layers, start + 1, base, alpha, frame, depth)
    }
}

/// The commands of a composition at `frame`, under the transform `base` and
/// the opacity `alpha`.
pub open spec fn composition_commands(
    composition: Composition,
    frame: int,
    base: Seq<Factor>,
    alpha: int,
) -> Seq<CommandView> {
    layers_commands(
        composition,
        composition.layers@,
        0,
        base,
        alpha,
        frame,
        composition.depth_limit_spec(),
    )
}

/// The number of layers that a walk has not visited.
pub open spec fn unvisited(visited: Seq<bool>) -> nat
    decreases visited.len(),
{
    if visited.len() == 0 {
        0
    } else if visited.last() {
        unvisited(visited.drop_last())
    } else {
        unvisited(visited.drop_last()) + 1
    }
}

/// Visiting a layer that was not visited makes the unvisited layers one
/// fewer.
pub proof fn lemma_visit(visited: Seq<bool>, p: int)
    requires
        0 <= p < visited.len(),
        !visited[p],
    ensures
        unvisited(visited.update(p, true)) + 1 == unvisited(visited),
    decreases visited.len(),
{
    let after = visited.update(p, true);
    if p == visited.len() - 1 {
        assert(after.drop_last() =~= visited.drop_last());
    } else {
        assert(after.drop_last() =~= visited.drop_last().update(p, true));
        lemma_visit(visited.drop_last(), p);
    }
}

/// The walk over the ancestors of a layer ends for want of layers, not for
/// want of fuel: with fuel for every layer that is not visited, more fuel
/// changes nothing.
pub proof fn lemma_fuel_suffices(
    layers: Seq<Layer>,
    index: int,
    visited: Seq<bool>,
    fuel: nat,
    more: nat,
    frame: int,
)
    requires
        unvisited(visited) <= fuel <= more,
    ensures
        ancestors_transform(layers, index, visited, fuel, frame) == ancestors_transform(
            layers,
            index,
            visited,
            more,
            frame,
        ),
    decreases fuel,
{
    match layers[index].parent {
        Some(p) => {
            if p < layers.len() && p < visited.len() && !visited[p as int] {
                lemma_visit(visited, p as int);
                lemma_fuel_suffices(
                    layers,
                    p as int,
                    visited.update(p as int, true),
                    (fuel - 1) as nat,
                    (more - 1) as nat,
                    frame,
                );
            }
        },
        None => {},
    }
}

/// No more layers are unvisited than there are layers.
pub proof fn lemma_unvisited_bound(visited: Seq<bool>)
    ensures
        unvisited(visited) <= visited.len(),
    decreases visited.len(),
{
    if visited.len() > 0 {
        lemma_unvisited_bound(visited.drop_last());
    }
}

/// The absolute transform of a layer does not depend on the fuel of the
/// walk over its ancestors: fuel beyond the number of layers changes
/// nothing.
pub proof fn lemma_layer_walk_is_bounded(layers: Seq<Layer>, index: int, more: nat, frame: int)
    requires
        more >= layers.len(),
    ensures
        ancestors_transform(
            layers,
            index,
            start_marks(layers.len(), index),
            layers.len(),
            frame,
        ) == ancestors_transform(layers, index, start_marks(layers.len(), index), more, frame),
{
    lemma_unvisited_bound(start_marks(layers.len(), index));
    lemma_fuel_suffices(
        layers,
        index,
        start_marks(layers.len(), index),
        layers.len(),
        more,
        frame,
    );
}

/// A layer outside its range of frames draws nothing.
pub proof fn lemma_inactive_layer_draws_nothing(
    composition: Composition,
    layers: Seq<Layer>,
    index: int,
    base: Seq<Factor>,
    alpha: int,
    frame: int,
    depth: nat,
)
    requires
        !layers[index].frames.contains_spec(frame),
    ensures
        layer_commands(composition, layers, index, base, alpha, frame, depth) == Seq::<
            CommandView,
        >::empty(),
{
}

/// Evaluator of compositions. It keeps nothing from one call to the next.
#[derive(Clone, Copy, Debug, Default)]
pub struct Renderer {}

/// Appending a command appends what it holds.
pub proof fn lemma_views_push(commands: Seq<Command>, command: Command)
    ensures
        views(commands.push(command)) == views(commands).push(command@),
{
    assert(views(commands.push(command)) =~= views(commands).push(command@));
}

/// Builds the command of a draw element.
pub fn draw(
    element: &Draw,
    path: &Vec<PathItem>,
    transform: &Affine,
    alpha: i64,
    frame: i64,
) -> (r: Command)
    ensures
        r@ == draw_command(*element, path@, transform@, alpha as int, frame as int),
{
    let opacity = product(alpha, element.opacity.evaluate(frame) as i64);
    let brush = element.brush.evaluate(opacity, frame);
    match &element.stroke {
        Some(stroke) => Command::Stroke {
            path: duplicate_path(path),
            transform: transform.duplicate(),
            brush,
            style: stroke.evaluate(frame),
        },
        None => Command::Fill {
            path: duplicate_path(path),
            transform: transform.duplicate(),
            brush,
        },
    }
}

/// Appends to `out` the commands of the shapes from index `start` on, given
/// the outline, transform and opacity gathered before them.
pub fn render_shapes(
    shapes: &Vec<Shape>,
    start: usize,
    path: Vec<PathItem>,
    transform: &Affine,
    alpha: i64,
    frame: i64,
    out: &mut Vec<Command>,
)
    ensures
        views(final(out)@) == views(old(out)@) + shapes_commands(
            shapes@,
            start as int,
            path@,
            transform@,
            alpha as int,
            frame as int,
        ),
    decreases shapes@, shapes@.len() - start, 0int,
{
    if start >= shapes.len() {
        assert(views(out@) =~= views(old(out)@) + Seq::<CommandView>::empty());
        return ;
    }
    let ghost before = views(out@);
    let ghost whole = shapes_commands(
        shapes@,
        start as int,
        path@,
        transform@,
        alpha as int,
        frame as int,
    );
    let mut path = path;
    match &shapes[start] {
        Shape::Group(children, group) => {
            proof {
                assert(shapes@[start as int] is Group);
                assert(shapes@[start as int]->Group_0 == *children);
                assert(decreases_to!(shapes@ => shapes@[start as int]));
                assert(decreases_to!(shapes@[start as int] => shapes@[start as int]->Group_0@));
            }
            match group {
                Some(g) => {
                    let inner = transform.compose(&g.transform.evaluate(frame));
                    let opacity = product(alpha, g.opacity.evaluate(frame) as i64);
                    render_shapes(children, 0, Vec::new(), &inner, opacity, frame, out);
                },
                None => {
                    render_shapes(children, 0, Vec::new(), transform, alpha, frame, out);
                },
            }
            let ghost middle = views(out@);
            render_shapes(shapes, start + 1, path, transform, alpha, frame, out);
            proof {
                let rest = shapes_commands(
                    shapes@,
                    start + 1,
                    path@,
                    transform@,
                    alpha as int,
                    frame as int,
                );
                assert(views(out@) == middle + rest);
                assert(views(out@) =~= before + whole);
            }
        },
        Shape::Geometry(geometry) => {
            geometry.evaluate(frame, &mut path);
            render_shapes(shapes, start + 1, path, transform, alpha, frame, out);
        },
        Shape::Draw(element) => {
            let command = draw(element, &path, transform, alpha, frame);
            proof {
                lemma_views_push(out@, command);
            }
            out.push(command);
            let ghost middle = views(out@);
            render_shapes(shapes, start + 1, path, transform, alpha, frame, out);
            proof {
                assert(views(out@) =~= before + whole);
            }
        },
        Shape::Repeater(repeater) => {
            let repeater = repeater.evaluate(frame);
            let next: usize = start + 1;
            let mut index: usize = 0;
            assert(views(out@) + whole =~= before + whole);
            while index < repeater.copies
                invariant
                    index <= repeater.copies,
                    next == start + 1,
                    start < shapes@.len(),
                    views(out@) + copies_commands(
                        shapes@,
                        start + 1,
                        path@,
                        transform@,
                        alpha as int,
                        frame as int,
                        repeater,
                        index as int,
                    ) == before + whole,
                decreases repeater.copies - index,
            {
                let ghost previous = views(out@);
                let copy = transform.compose(&repeater.transform(index));
                let opacity = product(alpha, repeater.opacity(index));
                render_shapes(shapes, next, duplicate_path(&path), &copy, opacity, frame, out);
                proof {
                    let this = shapes_commands(
                        shapes@,
                        start + 1,
                        path@,
                        copy@,
                        opacity as int,
                        frame as int,
                    );
                    let rest = copies_commands(
                        shapes@,
                        start + 1,
                        path@,
                        transform@,
                        alpha as int,
                        frame as int,
                        repeater,
                        index + 1,
                    );
                    assert((previous + this) + rest =~= previous + (this + rest));
                }
                index += 1;
            }
            proof {
                assert(views(out@) =~= before + whole);
            }
        },
    }
}

/// Returns the absolute transform of layer `index`.
pub fn layer_transform_at(layers: &Vec<Layer>, index: usize, base: &Affine, frame: i64) -> (r:
    Affine)
    requires
        index < layers@.len(),
    ensures
        r@ == layer_transform(layers@, index as int, base@, frame as int),
{
    let n = layers.len();
    let mut visited: Vec<bool> = Vec::new();
    let mut j: usize = 0;
    while j < n
        invariant
            j <= n,
            visited@.len() == j,
            forall|k: int| 0 <= k < j ==> visited@[k] == (k == index),
        decreases n - j,
    {
        visited.push(j == index);
        j += 1;
    }
    assert(visited@ =~= start_marks(n as nat, index as int));
    let mut local = layers[index].transform.evaluate(frame);
    let mut current: usize = index;
    let mut fuel: usize = n;
    let ghost whole = ancestors_transform(
        layers@,
        index as int,
        start_marks(n as nat, index as int),
        n as nat,
        frame as int,
    ) + layers@[index as int].transform.at(frame as int);
    loop
        invariant
            n == layers@.len(),
            current < n,
            visited@.len() == n,
            whole == ancestors_transform(
                layers@,
                current as int,
                visited@,
                fuel as nat,
                frame as int,
            ) + local@,
        ensures
            whole == local@,
        decreases fuel,
    {
        let parent = match layers[current].parent {
            Some(p) => p,
            None => {
                assert(whole =~= local@);
                break ;
            },
        };
        if fuel == 0 || parent >= n || visited[parent] {
            assert(whole =~= local@);
            break ;
        }
        let ghost above = ancestors_transform(
            layers@,
            parent as int,
            visited@.update(parent as int, true),
            (fuel - 1) as nat,
            frame as int,
        );
        let ghost previous = local@;
        visited.set(parent, true);
        local = layers[parent].transform.evaluate(frame).compose(&local);
        proof {
            assert((above + layers@[parent as int].transform.at(frame as int)) + previous =~= above
                + local@);
        }
        current = parent;
        fuel -= 1;
    }
    let r = base.compose(&local);
    proof {
        assert(r@ =~= layer_transform(layers@, index as int, base@, frame as int));
    }
    r
}

/// Appends to `out` the commands that open the masks of a layer.
pub fn push_masks(masks: &Vec<Mask>, transform: &Affine, frame: i64, out: &mut Vec<Command>)
    ensures
        views(final(out)@) == views(old(out)@) + mask_pushes(masks@, transform@, frame as int),
{
    let mut i: usize = 0;
    assert(views(out@) =~= views(old(out)@) + mask_pushes(masks@, transform@, frame as int).take(0));
    while i < masks.len()
        invariant
            i <= masks.len(),
            views(out@) == views(old(out)@) + mask_pushes(masks@, transform@, frame as int).take(
                i as int,
            ),
        decreases masks.len() - i,
    {
        let mask = &masks[i];
        let mut path: Vec<PathItem> = Vec::new();
        mask.geometry.evaluate(frame, &mut path);
        assert(path@ =~= mask.geometry.at(frame as int));
        let command = Command::PushMask {
            mode: mask.mode,
            alpha: mask.opacity.evaluate(frame) as i64,
            transform: transform.duplicate(),
            path,
        };
        proof {
            lemma_views_push(out@, command);
            let all = mask_pushes(masks@, transform@, frame as int);
            assert(all.take(i + 1) =~= all.take(i as int).push(command@));
            assert(views(old(out)@) + all.take(i + 1) =~= (views(old(out)@) + all.take(
                i as int,
            )).push(command@));
        }
        out.push(command);
        i += 1;
    }
    proof {
        let all = mask_pushes(masks@, transform@, frame as int);
        assert(all.take(masks.len() as int) =~= all);
    }
}

/// Appends to `out` the commands that close `n` masks.
pub fn pop_masks(n: usize, out: &mut Vec<Command>)
    ensures
        views(final(out)@) == views(old(out)@) + mask_pops(n as nat),
{
    let mut i: usize = 0;
    assert(views(out@) =~= views(old(out)@) + mask_pops(0));
    while i < n
        invariant
            i <= n,
            views(out@) == views(old(out)@) + mask_pops(i as nat),
        decreases n - i,
    {
        proof {
            lemma_views_push(out@, Command::PopMask);
            assert(views(old(out)@) + mask_pops((i + 1) as nat) =~= (views(old(out)@) + mask_pops(
                i as nat,
            )).push(CommandView::PopMask));
        }
        out.push(Command::PopMask);
        i += 1;
    }
}

/// Returns the frame of an asset at the frame `frame` of the layer that
/// instances it.
pub fn local_frame_at(layer: &Layer, time_remap: &Option<Value<i32>>, frame: i64) -> (r: Option<
    i64,
>)
    ensures
        r is Some <==> local_frame(*layer, *time_remap, frame as int) is Some,
        r matches Some(f) ==> local_frame(*layer, *time_remap, frame as int) == Some(f as int),
{
    match time_remap {
        Some(remap) => Some(remap.evaluate(frame) as i64),
        None => quotient(saturate((frame as i128) - (layer.start_frame as i128)), layer.stretch),
    }
}

/// Appends to `out` the commands of the content of a layer.
pub fn render_content(
    composition: &Composition,
    layer: &Layer,
    transform: &Affine,
    opacity: i64,
    frame: i64,
    depth: usize,
    out: &mut Vec<Command>,
)
    ensures
        views(final(out)@) == views(old(out)@) + content_commands(
            *composition,
            *layer,
            transform@,
            opacity as int,
            frame as int,
            depth as nat,
        ),
    decreases depth, 0int,
{
    let ghost whole = content_commands(
        *composition,
        *layer,
        transform@,
        opacity as int,
        frame as int,
        depth as nat,
    );
    match &layer.content {
        Content::Empty => {
            assert(views(out@) =~= views(old(out)@) + whole);
        },
        Content::Shape(shapes) => {
            render_shapes(shapes, 0, Vec::new(), transform, opacity, frame, out);
        },
        Content::Instance { name, time_remap } => {
            let asset = composition.asset_index(name);
            let local = local_frame_at(layer, time_remap, frame);
            match (asset, local) {
                (Some(asset), Some(local)) => {
                    if depth > 0 {
                        render_layers(
                            composition,
                            &composition.assets[asset].layers,
                            0,
                            transform,
                            opacity,
                            local,
                            depth - 1,
                            out,
                        );
                    } else {
                        assert(views(out@) =~= views(old(out)@) + whole);
                    }
                },
                _ => {
                    assert(views(out@) =~= views(old(out)@) + whole);
                },
            }
        },
    }
}

/// Appends to `out` the commands of the matte of layer `index`.
pub fn render_matte(
    composition: &Composition,
    layers: &Vec<Layer>,
    index: usize,
    base: &Affine,
    alpha: i64,
    frame: i64,
    depth: usize,
    out: &mut Vec<Command>,
)
    requires
        index < layers@.len(),
    ensures
        views(final(out)@) == views(old(out)@) + matte_commands(
            *composition,
            layers@,
            index as int,
            base@,
            alpha as int,
            frame as int,
            depth as nat,
        ),
    decreases depth, 0int,
{
    let ghost before = views(out@);
    let ghost whole = matte_commands(
        *composition,
        layers@,
        index as int,
        base@,
        alpha as int,
        frame as int,
        depth as nat,
    );
    if let Some(matte) = layers[index].mask_layer {
        if depth > 0 && matte.1 < layers.len() {
            proof {
                lemma_views_push(out@, Command::PushBlend { mode: matte.0 });
            }
            out.push(Command::PushBlend { mode: matte.0 });
            render_layer(composition, layers, matte.1, base, alpha, frame, depth - 1, out);
            proof {
                lemma_views_push(out@, Command::PopBlend);
            }
            out.push(Command::PopBlend);
            assert(views(out@) =~= before + whole);
            return ;
        }
    }
    assert(views(out@) =~= before + whole);
}

/// Appends to `out` the commands of an active layer without its blend
/// group.
pub fn render_body(
    composition: &Composition,
    layers: &Vec<Layer>,
    index: usize,
    base: &Affine,
    alpha: i64,
    frame: i64,
    depth: usize,
    out: &mut Vec<Command>,
)
    requires
        index < layers@.len(),
    ensures
        views(final(out)@) == views(old(out)@) + layer_body(
            *composition,
            layers@,
            index as int,
            base@,
            alpha as int,
            frame as int,
            depth as nat,
        ),
    decreases depth, 1int,
{
    let layer = &layers[index];
    let ghost before = views(out@);
    let transform = layer_transform_at(layers, index, base, frame);
    let opacity = product(alpha, layer.opacity.evaluate(frame) as i64);
    push_masks(&layer.masks, &transform, frame, out);
    let ghost pushes = mask_pushes(layer.masks@, transform@, frame as int);
    render_content(composition, layer, &transform, opacity, frame, depth, out);
    let ghost content = content_commands(
        *composition,
        *layer,
        transform@,
        opacity as int,
        frame as int,
        depth as nat,
    );
    pop_masks(layer.masks.len(), out);
    let ghost pops = mask_pops(layer.masks@.len());
    render_matte(composition, layers, index, base, alpha, frame, depth, out);
    let ghost matte = matte_commands(
        *composition,
        layers@,
        index as int,
        base@,
        alpha as int,
        frame as int,
        depth as nat,
    );
    proof {
        assert(views(out@) == (((before + pushes) + content) + pops) + matte);
        assert((((before + pushes) + content) + pops) + matte =~= before + (pushes + content + pops
            + matte));
    }
}

/// Appends to `out` the commands of layer `index` of `layers`.
pub fn render_layer(
    composition: &Composition,
    layers: &Vec<Layer>,
    index: usize,
    base: &Affine,
    alpha: i64,
    frame: i64,
    depth: usize,
    out: &mut Vec<Command>,
)
    requires
        index < layers@.len(),
    ensures
        views(final(out)@) == views(old(out)@) + layer_commands(
            *composition,
            layers@,
            index as int,
            base@,
            alpha as int,
            frame as int,
            depth as nat,
        ),
    decreases depth, 2int,
{
    let layer = &layers[index];
    let ghost before = views(out@);
    let ghost whole = layer_commands(
        *composition,
        layers@,
        index as int,
        base@,
        alpha as int,
        frame as int,
        depth as nat,
    );
    if !layer.frames.contains(frame) {
        assert(views(out@) =~= before + whole);
        return ;
    }
    let ghost body = layer_body(
        *composition,
        layers@,
        index as int,
        base@,
        alpha as int,
        frame as int,
        depth as nat,
    );
    match layer.blend_mode {
        Some(mode) => {
            proof {
                lemma_views_push(out@, Command::PushBlend { mode });
            }
            out.push(Command::PushBlend { mode });
            render_body(composition, layers, index, base, alpha, frame, depth, out);
            proof {
                lemma_views_push(out@, Command::PopBlend);
            }
            out.push(Command::PopBlend);
            proof {
                assert(views(out@) == ((before.push(CommandView::PushBlend { mode })) + body).push(
                    CommandView::PopBlend,
                ));
                assert(((before.push(CommandView::PushBlend { mode })) + body).push(
                    CommandView::PopBlend,
                ) =~= before + (seq![CommandView::PushBlend { mode }] + body
                    + seq![CommandView::PopBlend]));
            }
        },
        None => {
            render_body(composition, layers, index, base, alpha, frame, depth, out);
        },
    }
}

/// Appends to `out` the commands of the layers from index `start` on.
pub fn render_layers(
    composition: &Composition,
    layers: &Vec<Layer>,
    start: usize,
    base: &Affine,
    alpha: i64,
    frame: i64,
    depth: usize,
    out: &mut Vec<Command>,
)
    ensures
        views(final(out)@) == views(old(out)@) + layers_commands(
            *composition,
            layers@,
            start as int,
            base@,
            alpha as int,
            frame as int,
            depth as nat,
        ),
    decreases depth, layers@.len() - start + 3,
{
    if start >= layers.len() {
        assert(views(out@) =~= views(old(out)@) + Seq::<CommandView>::empty());
        return ;
    }
    let ghost before = views(out@);
    if !layers[start].is_mask {
        render_layer(composition, layers, start, base, alpha, frame, depth, out);
    }
    let ghost middle = views(out@);
    render_layers(composition, layers, start + 1, base, alpha, frame, depth, out);
    proof {
        assert(views(out@) =~= before + layers_commands(
            *composition,
            layers@,
            start as int,
            base@,
            alpha as int,
            frame as int,
            depth as nat,
        ));
    }
}

impl Renderer {
    /// Creates a new renderer.
    pub fn new() -> Renderer {
        Renderer {  }
    }

    /// Evaluates the composition at `frame`, under the transform `transform`
    /// and the opacity `alpha`, and returns its drawing commands.
    pub fn render(&self, composition: &Composition, frame: i64, transform: &Affine, alpha: i64) -> (r:
        Vec<Command>)
        ensures
            views(r@) == composition_commands(
                *composition,
                frame as int,
                transform@,
                alpha as int,
            ),
    {
        let mut out: Vec<Command> = Vec::new();
        self.append(composition, frame, transform, alpha, &mut out);
        proof {
            assert(views(Seq::<Command>::empty()) =~= Seq::<CommandView>::empty());
            assert(views(out@) =~= composition_commands(
                *composition,
                frame as int,
                transform@,
                alpha as int,
            ));
        }
        out
    }

    /// Evaluates the composition at `frame`, under the transform `transform`
    /// and the opacity `alpha`, and appends its drawing commands to `out`.
    pub fn append(
        &self,
        composition: &Composition,
        frame: i64,
        transform: &Affine,
        alpha: i64,
        out: &mut Vec<Command>,
    )
        ensures
            views(final(out)@) == views(old(out)@) + composition_commands(
                *composition,
                frame as int,
                transform@,
                alpha as int,
            ),
    {
        let depth = composition.depth_limit();
        render_layers(composition, &composition.layers, 0, transform, alpha, frame, depth, out);
    }
}

} // verus!
