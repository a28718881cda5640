//! Layer surfaces: those that a window rule puts on the canvas, and the others.
use vstd::prelude::*;

use crate::config::window_rules;
use crate::config::Config;
use crate::geometry::Point;
use crate::text::text_eq;

verus! {

/// A layer surface on the canvas. `S` is how its namespace is written.
#[derive(Debug, PartialEq, Eq)]
pub struct CanvasLayerOf<S> {
    pub id: u64,
    pub namespace: S,
    /// Its place as its rule has it.
    pub rule_position: (i32, i32),
    /// Its place on the canvas, once its size is known.
    pub position: Option<Point>,
}

pub type CanvasLayer = CanvasLayerOf<String>;

impl View for CanvasLayerOf<String> {
    type V = CanvasLayerOf<Seq<char>>;

    open spec fn view(&self) -> CanvasLayerOf<Seq<char>> {
        CanvasLayerOf {
            id: self.id,
            namespace: self.namespace@,
            rule_position: self.rule_position,
            position: self.position,
        }
    }
}

/// Models of layers.
pub open spec fn layer_models(v: Seq<CanvasLayer>) -> Seq<CanvasLayerOf<Seq<char>>> {
    v.map_values(|l: CanvasLayer| l@)
}

/// How many layers have a namespace.
pub open spec fn count_namespace(layers: Seq<CanvasLayerOf<Seq<char>>>, namespace: Seq<char>) -> nat
    decreases layers.len(),
{
    if layers.len() == 0 {
        0
    } else if layers.last().namespace == namespace {
        count_namespace(layers.drop_last(), namespace) + 1
    } else {
        count_namespace(layers.drop_last(), namespace)
    }
}

/// Layers without one.
pub open spec fn without_layer(layers: Seq<CanvasLayerOf<Seq<char>>>, id: u64) -> Seq<
    CanvasLayerOf<Seq<char>>,
>
    decreases layers.len(),
{
    if layers.len() == 0 {
        layers
    } else if layers.last().id == id {
        without_layer(layers.drop_last(), id)
    } else {
        without_layer(layers.drop_last(), id).push(layers.last())
    }
}

/// How many layers have a namespace.
pub fn existing_count(layers: &Vec<CanvasLayer>, namespace: &str) -> (r: usize)
    ensures
        r == count_namespace(layer_models(layers@), namespace@),
{
    let n: usize = layers.len();
    let ghost all = layer_models(layers@);
    let mut count: usize = 0;
    let mut i: usize = 0;
    while i < n
        invariant
            i <= n,
            n == layers@.len(),
            all == layer_models(layers@),
            count <= i,
            count == count_namespace(all.take(i as int), namespace@),
        decreases n - i,
    {
        proof {
            assert(all.take(i + 1).drop_last() =~= all.take(i as int));
            assert(all.take(i + 1).last() == layers@[i as int]@);
        }
        if text_eq(layers[i].namespace.as_str(), namespace) {
            count = count + 1;
        }
        i = i + 1;
    }
    proof {
        assert(all.take(n as int) =~= all);
    }
    count
}

/// The index of the rule that a new layer surface takes: the `n`th one with a
/// position that matches its namespace, where `n` others have it already.
pub open spec fn layer_rule(
    cfg: Config,
    layers: Seq<CanvasLayerOf<Seq<char>>>,
    namespace: Seq<char>,
) -> int {
    window_rules::nth_positioned(
        window_rules::rule_models(cfg.window_rules@),
        namespace,
        ""@,
        count_namespace(layers, namespace),
        0,
    )
}

/// Where a new layer surface goes: on the canvas, where its rule says, or among
/// the layers of its output. One on the canvas is added to the list.
pub fn new_layer_surface(
    cfg: &Config,
    layers: &mut Vec<CanvasLayer>,
    id: u64,
    namespace: &str,
) -> (on_canvas: bool)
    ensures
        ({
            let before = layer_models(old(layers)@);
            let i = layer_rule(*cfg, before, namespace@);
            let rules = cfg.window_rules@;
            let position = if 0 <= i < rules.len() {
                rules[i].position
            } else {
                None
            };
            &&& on_canvas == position is Some
            &&& position matches Some(p) ==> layer_models(final(layers)@) == before.push(
                CanvasLayerOf { id, namespace: namespace@, rule_position: p, position: None },
            )
            &&& position is None ==> final(layers)@ == old(layers)@
        }),
{
    let n: usize = existing_count(layers, namespace);
    let ghost before = layers@;
    match cfg.match_window_rule_nth(namespace, "", n) {
        Some(rule) => match rule.position {
            Some(p) => {
                let layer: CanvasLayer = CanvasLayerOf {
                    id,
                    namespace: namespace.to_owned(),
                    rule_position: p,
                    position: None,
                };
                layers.push(layer);
                proof {
                    assert(layer_models(layers@) =~= layer_models(before).push(layer@));
                }
                true
            },
            None => false,
        },
        None => false,
    }
}

/// Where the keyboard focus goes when a layer surface is destroyed: if it had
/// it, to the window that was focused last.
#[derive(Clone, Copy, Debug, PartialEq, Eq, Structural)]
pub enum LayerFocus {
    Keep,
    To(Option<u64>),
}

/// Take a destroyed layer surface out of the list, and return focus if it had
/// it.
pub fn layer_destroyed(
    layers: Vec<CanvasLayer>,
    id: u64,
    focus: Option<u64>,
    history: &Vec<u64>,
) -> (r: (Vec<CanvasLayer>, LayerFocus))
    ensures
        layer_models(r.0@) == without_layer(layer_models(layers@), id),
        r.1 == (if focus == Some(id) {
            LayerFocus::To(
                if history@.len() > 0 {
                    Some(history@[0])
                } else {
                    None
                },
            )
        } else {
            LayerFocus::Keep
        }),
{
    let had_focus: bool = match focus {
        Some(f) => f == id,
        None => false,
    };
    let next: LayerFocus = if had_focus {
        if history.len() > 0 {
            LayerFocus::To(Some(history[0]))
        } else {
            LayerFocus::To(None)
        }
    } else {
        LayerFocus::Keep
    };
    let ghost all = layer_models(layers@);
    let mut kept: Vec<CanvasLayer> = Vec::new();
    proof {
        assert(layer_models(kept@) =~= without_layer(all.take(0), id));
    }
    for l in it: layers
        invariant
            all == layer_models(it.seq()),
            layer_models(kept@) == without_layer(all.take(it.index() as int), id),
    {
        proof {
            let i = it.index() as int;
            assert(all.take(i + 1).drop_last() =~= all.take(i));
            assert(all.take(i + 1).last() == l@);
        }
        if l.id != id {
            let ghost before = kept@;
            kept.push(l);
            proof {
                assert(layer_models(kept@) =~= layer_models(before).push(l@));
            }
        }
    }
    proof {
        assert(all.take(all.len() as int) =~= all);
    }
    (kept, next)
}

/// Surfaces of one namespace take successive rules: with one more of them on
/// the canvas, the next takes the rule after.
pub proof fn lemma_same_namespace_takes_next_rule(
    layers: Seq<CanvasLayerOf<Seq<char>>>,
    added: CanvasLayerOf<Seq<char>>,
    namespace: Seq<char>,
)
    ensures
        added.namespace == namespace ==> count_namespace(layers.push(added), namespace)
            == count_namespace(layers, namespace) + 1,
        added.namespace != namespace ==> count_namespace(layers.push(added), namespace)
            == count_namespace(layers, namespace),
{
    assert(layers.push(added).drop_last() =~= layers);
}

} // verus!
