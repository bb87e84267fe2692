//! Compositions without animation: what it means that nothing in a
//! composition moves between two frames, and the proof that such a
//! composition draws the same at both.

use vstd::prelude::*;
use crate::geometry::Factor;
use crate::geometry::PathItem;
use crate::runtime::model;
use crate::runtime::model::animated::lemma_fixed_brush_is_constant;
use crate::runtime::model::animated::lemma_fixed_transform_is_constant;
use crate::runtime::model::fixed;
use crate::runtime::model::Content;
use crate::runtime::model::Draw;
use crate::runtime::model::Layer;
use crate::runtime::model::Mask;
use crate::runtime::model::Shape;
use crate::runtime::render::ancestors_transform;
use crate::runtime::render::composition_commands;
use crate::runtime::render::content_commands;
use crate::runtime::render::copies_commands;
use crate::runtime::render::draw_command;
use crate::runtime::render::layer_body;
use crate::runtime::render::layer_commands;
use crate::runtime::render::layer_transform;
use crate::runtime::render::layers_commands;
use crate::runtime::render::local_frame;
use crate::runtime::render::mask_command;
use crate::runtime::render::mask_pushes;
use crate::runtime::render::matte_commands;
use crate::runtime::render::shapes_commands;
use crate::runtime::Composition;

verus! {

/// Whether a transform is the same at every frame.
pub open spec fn transform_is_constant(transform: model::Transform) -> bool {
    match transform {
        model::Transform::Fixed(_) => true,
        model::Transform::Animated(value) => value.is_fixed_spec(),
    }
}

/// Whether a stroke is the same at every frame.
pub open spec fn stroke_is_constant(stroke: model::Stroke) -> bool {
    match stroke {
        model::Stroke::Fixed(_) => true,
        model::Stroke::Animated(value) => value.is_fixed_spec(),
    }
}

/// Whether a repeater is the same at every frame.
pub open spec fn repeater_is_constant(repeater: model::Repeater) -> bool {
    match repeater {
        model::Repeater::Fixed(_) => true,
        model::Repeater::Animated(value) => value.is_fixed_spec(),
    }
}

/// Whether a brush is the same at every frame.
pub open spec fn brush_is_constant(brush: model::Brush) -> bool {
    match brush {
        model::Brush::Fixed(_) => true,
        model::Brush::Animated(value) => value.is_fixed_spec(),
    }
}

/// Whether a draw element is the same at every frame.
pub open spec fn draw_is_constant(draw: Draw) -> bool {
    &&& match draw.stroke {
        Some(stroke) => stroke_is_constant(stroke),
        None => true,
    }
    &&& brush_is_constant(draw.brush)
    &&& draw.opacity.is_fixed_spec()
}

/// Whether a shape, with every shape below it, is the same at every frame.
pub open spec fn shape_is_constant(shape: Shape) -> bool
    decreases shape, 0int,
{
    match shape {
        Shape::Group(children, group) => {
            &&& shapes_are_constant(children@, 0)
            &&& match group {
                Some(g) => transform_is_constant(g.transform) && g.opacity.is_fixed_spec(),
                None => true,
            }
        },
        Shape::Geometry(geometry) => geometry.is_fixed_spec(),
        Shape::Draw(draw) => draw_is_constant(draw),
        Shape::Repeater(repeater) => repeater_is_constant(repeater),
    }
}

/// Whether the shapes from index `start` on are the same at every frame.
pub open spec fn shapes_are_constant(shapes: Seq<Shape>, start: int) -> bool
    decreases shapes, shapes.len() - start,
{
    if start < 0 || start >= shapes.len() {
        true
    } else {
        shape_is_constant(shapes[start]) && shapes_are_constant(shapes, start + 1)
    }
}

/// Whether a mask is the same at every frame.
pub open spec fn mask_is_constant(mask: Mask) -> bool {
    mask.geometry.is_fixed_spec() && mask.opacity.is_fixed_spec()
}

/// Whether the properties of a layer are the same at every frame: its
/// transform, its opacity, its masks, its shapes and its time remapping.
pub open spec fn layer_is_constant(layer: Layer) -> bool {
    &&& transform_is_constant(layer.transform)
    &&& layer.opacity.is_fixed_spec()
    &&& forall|i: int| 0 <= i < layer.masks@.len() ==> mask_is_constant(#[trigger] layer.masks@[i])
    &&& match layer.content {
        Content::Empty => true,
        Content::Shape(shapes) => shapes_are_constant(shapes@, 0),
        Content::Instance { name, time_remap } => match time_remap {
            Some(remap) => remap.is_fixed_spec(),
            None => true,
        },
    }
}

/// Whether the content of a layer stands still between the frames `frame0`
/// and `frame1`: where the layer instances an asset, the layers of the asset
/// stand still between the frames of the asset.
pub open spec fn content_is_still(
    composition: Composition,
    layer: Layer,
    frame0: int,
    frame1: int,
    depth: nat,
) -> bool
    decreases depth, 0int,
{
    match layer.content {
        Content::Instance { name, time_remap } => match (
            composition.asset_index_spec(name@),
            local_frame(layer, time_remap, frame0),
            local_frame(layer, time_remap, frame1),
        ) {
            (Some(asset), Some(local0), Some(local1)) => depth > 0 ==> layers_are_still(
                composition,
                composition.assets@[asset].layers@,
                0,
                local0,
                local1,
                (depth - 1) as nat,
            ),
            _ => true,
        },
        _ => true,
    }
}

/// Whether the matte of layer `index` stands still between the frames.
pub open spec fn matte_is_still(
    composition: Composition,
    layers: Seq<Layer>,
    index: int,
    frame0: int,
    frame1: int,
    depth: nat,
) -> bool
    decreases depth, 0int,
{
    match layers[index].mask_layer {
        Some(matte) => depth > 0 && matte.1 < layers.len() ==> layer_is_still(
            composition,
            layers,
            matte.1 as int,
            frame0,
            frame1,
            (depth - 1) as nat,
        ),
        None => true,
    }
}

/// Whether layer `index` stands still between the frames `frame0` and
/// `frame1`: it is active at both or at neither and, where it is active, its
/// properties are the same at every frame and its content and its matte
/// stand still.
pub open spec fn layer_is_still(
    composition: Composition,
    layers: Seq<Layer>,
    index: int,
    frame0: int,
    frame1: int,
    depth: nat,
) -> bool
    decreases depth, 1int,
{
    let layer = layers[index];
    &&& layer.frames.contains_spec(frame0) == layer.frames.contains_spec(frame1)
    &&& layer.frames.contains_spec(frame0) ==> {
        &&& layer_is_constant(layer)
        &&& content_is_still(composition, layer, frame0, frame1, depth)
        &&& matte_is_still(composition, layers, index, frame0, frame1, depth)
    }
}

/// Whether the layers from index `start` on stand still between the frames
/// `frame0` and `frame1`: every transform among the layers is the same at
/// every frame, and every layer that is no mask stands still.
pub open spec fn layers_are_still(
    composition: Composition,
    layers: Seq<Layer>,
    start: int,
    frame0: int,
    frame1: int,
    depth: nat,
) -> bool
    decreases depth, layers.len() - start + 2,
{
    if start < 0 || start >= layers.len() {
        true
    } else {
        &&& forall|j: int|
            0 <= j < layers.len() ==> transform_is_constant((#[trigger] layers[j]).transform)
        &&& layers[start].is_mask || layer_is_still(
            composition,
            layers,
            start,
            frame0,
            frame1,
            depth,
        )
        &&& layers_are_still(composition, layers, start + 1, frame0, frame1, depth)
    }
}

/// Whether a composition stands still between the frames `frame0` and
/// `frame1`.
pub open spec fn composition_is_still(composition: Composition, frame0: int, frame1: int) -> bool {
    layers_are_still(
        composition,
        composition.layers@,
        0,
        frame0,
        frame1,
        composition.depth_limit_spec(),
    )
}

/// A constant transform has the same factors at every frame.
pub proof fn lemma_constant_transform(transform: model::Transform, frame0: int, frame1: int)
    requires
        transform_is_constant(transform),
    ensures
        transform.at(frame0) == transform.at(frame1),
{
    match transform {
        model::Transform::Fixed(_) => {},
        model::Transform::Animated(value) => {
            lemma_fixed_transform_is_constant(value, frame0, frame1);
        },
    }
}

/// A constant draw element gives the same command at every frame.
pub proof fn lemma_constant_draw(
    draw: Draw,
    path: Seq<PathItem>,
    transform: Seq<Factor>,
    alpha: int,
    frame0: int,
    frame1: int,
)
    requires
        draw_is_constant(draw),
    ensures
        draw_command(draw, path, transform, alpha, frame0) == draw_command(
            draw,
            path,
            transform,
            alpha,
            frame1,
        ),
{
    let opacity = crate::scalar::product_spec(alpha, draw.opacity.at(frame0) as int);
    match draw.brush {
        model::Brush::Fixed(_) => {},
        model::Brush::Animated(value) => {
            lemma_fixed_brush_is_constant(value, opacity, frame0, frame1);
        },
    }
}

/// Constant shapes give the same commands at every frame.
pub proof fn lemma_constant_shapes(
    shapes: Seq<Shape>,
    start: int,
    path: Seq<PathItem>,
    transform: Seq<Factor>,
    alpha: int,
    frame0: int,
    frame1: int,
)
    requires
        shapes_are_constant(shapes, start),
    ensures
        shapes_commands(shapes, start, path, transform, alpha, frame0) == shapes_commands(
            shapes,
            start,
            path,
            transform,
            alpha,
            frame1,
        ),
    decreases shapes, shapes.len() - start, 0int,
{
    if 0 <= start < shapes.len() {
        assert(shape_is_constant(shapes[start]) && shapes_are_constant(shapes, start + 1));
        reveal_with_fuel(shape_is_constant, 2);
        match shapes[start] {
            Shape::Group(children, group) => {
                assert(shapes_are_constant(children@, 0));
                match group {
                    Some(g) => {
                        lemma_constant_transform(g.transform, frame0, frame1);
                        lemma_constant_shapes(
                            children@,
                            0,
                            Seq::empty(),
                            transform + g.transform.at(frame0),
                            crate::scalar::product_spec(alpha, g.opacity.at(frame0) as int),
                            frame0,
                            frame1,
                        );
                    },
                    None => {
                        lemma_constant_shapes(
                            children@,
                            0,
                            Seq::empty(),
                            transform,
                            alpha,
                            frame0,
                            frame1,
                        );
                    },
                }
                lemma_constant_shapes(shapes, start + 1, path, transform, alpha, frame0, frame1);
            },
            Shape::Geometry(geometry) => {
                lemma_constant_shapes(
                    shapes,
                    start + 1,
                    path + geometry.at(frame0),
                    transform,
                    alpha,
                    frame0,
                    frame1,
                );
            },
            Shape::Draw(draw) => {
                lemma_constant_draw(draw, path, transform, alpha, frame0, frame1);
                lemma_constant_shapes(shapes, start + 1, path, transform, alpha, frame0, frame1);
            },
            Shape::Repeater(repeater) => {
                lemma_constant_copies(
                    shapes,
                    start + 1,
                    path,
                    transform,
                    alpha,
                    frame0,
                    frame1,
                    repeater.at(frame0),
                    0,
                );
            },
        }
    }
}

/// The copies of constant shapes give the same commands at every frame.
pub proof fn lemma_constant_copies(
    shapes: Seq<Shape>,
    start: int,
    path: Seq<PathItem>,
    transform: Seq<Factor>,
    alpha: int,
    frame0: int,
    frame1: int,
    repeater: fixed::Repeater,
    index: int,
)
    requires
        shapes_are_constant(shapes, start),
    ensures
        copies_commands(shapes, start, path, transform, alpha, frame0, repeater, index)
            == copies_commands(shapes, start, path, transform, alpha, frame1, repeater, index),
    decreases shapes, shapes.len() - start, repeater.copies - index + 1,
{
    if 0 <= index < repeater.copies {
        lemma_constant_shapes(
            shapes,
            start,
            path,
            transform + repeater.transform_spec(index),
            crate::scalar::product_spec(alpha, repeater.opacity_spec(index)),
            frame0,
            frame1,
        );
        lemma_constant_copies(
            shapes,
            start,
            path,
            transform,
            alpha,
            frame0,
            frame1,
            repeater,
            index + 1,
        );
    }
}

/// Where every transform among the layers is constant, the transforms of the
/// ancestors of a layer are the same at every frame.
pub proof fn lemma_constant_ancestors(
    layers: Seq<Layer>,
    index: int,
    visited: Seq<bool>,
    fuel: nat,
    frame0: int,
    frame1: int,
)
    requires
        0 <= index < layers.len(),
        forall|j: int|
            0 <= j < layers.len() ==> transform_is_constant((#[trigger] layers[j]).transform),
    ensures
        ancestors_transform(layers, index, visited, fuel, frame0) == ancestors_transform(
            layers,
            index,
            visited,
            fuel,
            frame1,
        ),
    decreases fuel,
{
    match layers[index].parent {
        Some(p) => {
            if fuel > 0 && p < layers.len() && p < visited.len() && !visited[p as int] {
                lemma_constant_ancestors(
                    layers,
                    p as int,
                    visited.update(p as int, true),
                    (fuel - 1) as nat,
                    frame0,
                    frame1,
                );
                lemma_constant_transform(layers[p as int].transform, frame0, frame1);
            }
        },
        None => {},
    }
}

/// Layers that stand still between two frames give the same commands at
/// both.
pub proof fn lemma_still_layers(
    composition: Composition,
    layers: Seq<Layer>,
    start: int,
    base: Seq<Factor>,
    alpha: int,
    frame0: int,
    frame1: int,
    depth: nat,
)
    requires
        layers_are_still(composition, layers, start, frame0, frame1, depth),
    ensures
        layers_commands(composition, layers, start, base, alpha, frame0, depth) == layers_commands(
            composition,
            layers,
            start,
            base,
            alpha,
            frame1,
            depth,
        ),
    decreases depth, layers.len() - start + 2,
{
    if 0 <= start < layers.len() {
        if !layers[start].is_mask {
            lemma_still_layer(composition, layers, start, base, alpha, frame0, frame1, depth);
        }
        lemma_still_layers(composition, layers, start + 1, base, alpha, frame0, frame1, depth);
    }
}

/// A layer that stands still between two frames gives the same commands at
/// both.
pub proof fn lemma_still_layer(
    composition: Composition,
    layers: Seq<Layer>,
    index: int,
    base: Seq<Factor>,
    alpha: int,
    frame0: int,
    frame1: int,
    depth: nat,
)
    requires
        0 <= index < layers.len(),
        forall|j: int|
            0 <= j < layers.len() ==> transform_is_constant((#[trigger] layers[j]).transform),
        layer_is_still(composition, layers, index, frame0, frame1, depth),
    ensures
        layer_commands(composition, layers, index, base, alpha, frame0, depth) == layer_commands(
            composition,
            layers,
            index,
            base,
            alpha,
            frame1,
            depth,
        ),
    decreases depth, 1int,
{
    let layer = layers[index];
    if layer.frames.contains_spec(frame0) {
        lemma_constant_ancestors(
            layers,
            index,
            crate::runtime::render::start_marks(layers.len(), index),
            layers.len(),
            frame0,
            frame1,
        );
        lemma_constant_transform(layer.transform, frame0, frame1);
        let transform = layer_transform(layers, index, base, frame0);
        assert(transform == layer_transform(layers, index, base, frame1));
        let opacity = crate::scalar::product_spec(alpha, layer.opacity.at(frame0) as int);
        assert(mask_pushes(layer.masks@, transform, frame0) =~= mask_pushes(
            layer.masks@,
            transform,
            frame1,
        )) by {
            assert forall|i: int| 0 <= i < layer.masks@.len() implies mask_command(
                layer.masks@[i],
                transform,
                frame0,
            ) == mask_command(layer.masks@[i], transform, frame1) by {
                assert(mask_is_constant(layer.masks@[i]));
            }
        }
        lemma_still_content(composition, layer, transform, opacity, frame0, frame1, depth);
        lemma_still_matte(composition, layers, index, base, alpha, frame0, frame1, depth);
        assert(layer_body(composition, layers, index, base, alpha, frame0, depth) == layer_body(
            composition,
            layers,
            index,
            base,
            alpha,
            frame1,
            depth,
        ));
    }
}

/// Content that stands still between two frames gives the same commands at
/// both.
pub proof fn lemma_still_content(
    composition: Composition,
    layer: Layer,
    transform: Seq<Factor>,
    opacity: int,
    frame0: int,
    frame1: int,
    depth: nat,
)
    requires
        layer_is_constant(layer),
        content_is_still(composition, layer, frame0, frame1, depth),
    ensures
        content_commands(composition, layer, transform, opacity, frame0, depth) == content_commands(
            composition,
            layer,
            transform,
            opacity,
            frame1,
            depth,
        ),
    decreases depth, 0int,
{
    match layer.content {
        Content::Empty => {},
        Content::Shape(shapes) => {
            lemma_constant_shapes(shapes@, 0, Seq::empty(), transform, opacity, frame0, frame1);
        },
        Content::Instance { name, time_remap } => {
            match (
                composition.asset_index_spec(name@),
                local_frame(layer, time_remap, frame0),
                local_frame(layer, time_remap, frame1),
            ) {
                (Some(asset), Some(local0), Some(local1)) => {
                    if depth > 0 {
                        lemma_still_layers(
                            composition,
                            composition.assets@[asset].layers@,
                            0,
                            transform,
                            opacity,
                            local0,
                            local1,
                            (depth - 1) as nat,
                        );
                    }
                },
                _ => {},
            }
        },
    }
}

/// A matte that stands still between two frames gives the same commands at
/// both.
pub proof fn lemma_still_matte(
    composition: Composition,
    layers: Seq<Layer>,
    index: int,
    base: Seq<Factor>,
    alpha: int,
    frame0: int,
    frame1: int,
    depth: nat,
)
    requires
        0 <= index < layers.len(),
        forall|j: int|
            0 <= j < layers.len() ==> transform_is_constant((#[trigger] layers[j]).transform),
        matte_is_still(composition, layers, index, frame0, frame1, depth),
    ensures
        matte_commands(composition, layers, index, base, alpha, frame0, depth) == matte_commands(
            composition,
            layers,
            index,
            base,
            alpha,
            frame1,
            depth,
        ),
    decreases depth, 0int,
{
    match layers[index].mask_layer {
        Some(matte) => {
            if depth > 0 && matte.1 < layers.len() {
                lemma_still_layer(
                    composition,
                    layers,
                    matte.1 as int,
                    base,
                    alpha,
                    frame0,
                    frame1,
                    (depth - 1) as nat,
                );
            }
        },
        None => {},
    }
}

/// A composition that stands still between two frames gives the same
/// drawing commands at both, under every transform and opacity.
pub proof fn lemma_still_composition(
    composition: Composition,
    base: Seq<Factor>,
    alpha: int,
    frame0: int,
    frame1: int,
)
    requires
        composition_is_still(composition, frame0, frame1),
    ensures
        composition_commands(composition, frame0, base, alpha) == composition_commands(
            composition,
            frame1,
            base,
            alpha,
        ),
{
    lemma_still_layers(
        composition,
        composition.layers@,
        0,
        base,
        alpha,
        frame0,
        frame1,
        composition.depth_limit_spec(),
    );
}

} // verus!
