//! The canvas: one operation list per layer, each with an optional expiry.

use vstd::prelude::*;
use crate::draw::{
    operation_commands, operations_commands, CircleParams, DrawOperation, LineParams,
    PaintCommand, PixelParams, RectangleParams, Renderer,
};
use crate::network::Command;

verus! {

/// What one layer shows, and until when.
#[derive(Debug)]
pub struct Layer {
    pub operations: Vec<DrawOperation>,
    /// The first instant, in milliseconds, at which the layer is no longer
    /// shown. A layer without one stays until it is replaced.
    pub expiry: Option<u128>,
}

/// A layer as contracts see it.
pub ghost struct LayerView {
    pub operations: Seq<DrawOperation>,
    pub expiry: Option<int>,
}

impl View for Layer {
    type V = LayerView;

    open spec fn view(&self) -> LayerView {
        LayerView {
            operations: self.operations@,
            expiry: match self.expiry {
                Some(e) => Some(e as int),
                None => None,
            },
        }
    }
}

/// Whether a layer has run out at `now`.
pub open spec fn expired(layer: LayerView, now: u64) -> bool {
    layer.expiry is Some && layer.expiry->Some_0 <= now
}

/// The canvas after `command` was applied at `now`: the addressed layer
/// holds the command's operations and nothing else, all other layers are
/// as before.
pub open spec fn update_spec(
    layers: Map<i32, LayerView>,
    command: Command,
    now: u64,
) -> Map<i32, LayerView> {
    layers.insert(
        command.layer_id(),
        LayerView { operations: command.operations@, expiry: command.expiry_at(now) },
    )
}

/// The canvas without the layers that have run out at `now`.
pub open spec fn prune_spec(layers: Map<i32, LayerView>, now: u64) -> Map<i32, LayerView> {
    Map::new(|id: i32| layers.contains_key(id) && !expired(layers[id], now), |id: i32| layers[id])
}

/// What the layer with the given id paints; nothing where there is none.
pub open spec fn layer_commands(layers: Map<i32, LayerView>, id: int) -> Seq<PaintCommand> {
    if i32::MIN <= id <= i32::MAX && layers.contains_key(id as i32) {
        operations_commands(layers[id as i32].operations)
    } else {
        Seq::empty()
    }
}

/// What the layers with ids from `lo` up to, not including, `hi` paint:
/// layer after layer by ascending id.
pub open spec fn commands_between(layers: Map<i32, LayerView>, lo: int, hi: int) -> Seq<
    PaintCommand,
>
    decreases hi - lo,
{
    if hi <= lo {
        Seq::empty()
    } else {
        commands_between(layers, lo, hi - 1) + layer_commands(layers, hi - 1)
    }
}

/// The paint commands of a whole frame: every layer by ascending id, so
/// that a layer with a higher id paints over those with lower ids.
pub open spec fn canvas_commands(layers: Map<i32, LayerView>) -> Seq<PaintCommand> {
    commands_between(layers, i32::MIN as int, i32::MAX as int + 1)
}

/// The canvas after a prune at each of the instants in turn.
pub open spec fn prune_each(layers: Map<i32, LayerView>, instants: Seq<u64>) -> Map<
    i32,
    LayerView,
>
    decreases instants.len(),
{
    if instants.len() == 0 {
        layers
    } else {
        prune_spec(prune_each(layers, instants.drop_last()), instants.last())
    }
}

/// The last command for a layer wins. After two commands for the same
/// layer the canvas is what the second alone would have made it: the layer
/// holds the second command's operations and expiry, nothing of the first.
pub proof fn lemma_last_update_wins(
    layers: Map<i32, LayerView>,
    first: Command,
    first_at: u64,
    second: Command,
    second_at: u64,
)
    requires
        first.layer_id() == second.layer_id(),
    ensures
        update_spec(update_spec(layers, first, first_at), second, second_at) == update_spec(
            layers,
            second,
            second_at,
        ),
        update_spec(update_spec(layers, first, first_at), second, second_at)[second.layer_id()]
            == (LayerView {
            operations: second.operations@,
            expiry: second.expiry_at(second_at),
        }),
{
    assert(update_spec(update_spec(layers, first, first_at), second, second_at) =~= update_spec(
        layers,
        second,
        second_at,
    ));
}

/// An update touches one layer only: every other layer is as it was.
pub proof fn lemma_update_keeps_other_layers(
    layers: Map<i32, LayerView>,
    command: Command,
    now: u64,
    id: i32,
)
    requires
        id != command.layer_id(),
    ensures
        update_spec(layers, command, now).contains_key(id) == layers.contains_key(id),
        layers.contains_key(id) ==> update_spec(layers, command, now)[id] == layers[id],
{
}

/// A layer set without a timeout is still there, unchanged, after any
/// number of prunes at any instants.
pub proof fn lemma_layer_without_timeout_stays(
    layers: Map<i32, LayerView>,
    command: Command,
    now: u64,
    instants: Seq<u64>,
)
    requires
        command.timeout_ms is None,
    ensures
        prune_each(update_spec(layers, command, now), instants).contains_key(command.layer_id()),
        prune_each(update_spec(layers, command, now), instants)[command.layer_id()] == (LayerView {
            operations: command.operations@,
            expiry: None,
        }),
    decreases instants.len(),
{
    if instants.len() > 0 {
        lemma_layer_without_timeout_stays(layers, command, now, instants.drop_last());
    }
}

/// A layer set at `start` with a timeout of `T` milliseconds is on the
/// canvas after a prune at any instant before `start + T`, and gone after
/// a prune at `start + T` or later.
pub proof fn lemma_layer_with_timeout_expires(
    layers: Map<i32, LayerView>,
    command: Command,
    start: u64,
    instant: u64,
)
    requires
        command.timeout_ms is Some,
    ensures
        prune_spec(update_spec(layers, command, start), instant).contains_key(command.layer_id())
            <==> instant < start + command.timeout_ms->Some_0,
        instant < start + command.timeout_ms->Some_0 ==> prune_spec(
            update_spec(layers, command, start),
            instant,
        )[command.layer_id()] == (LayerView {
            operations: command.operations@,
            expiry: Some(start + command.timeout_ms->Some_0),
        }),
{
}

/// Through any number of prunes, a layer set at `start` with a timeout of
/// `T` milliseconds stays exactly as long as every prune came before
/// `start + T`.
pub proof fn lemma_layer_with_timeout_through_prunes(
    layers: Map<i32, LayerView>,
    command: Command,
    start: u64,
    instants: Seq<u64>,
)
    requires
        command.timeout_ms is Some,
    ensures
        prune_each(update_spec(layers, command, start), instants).contains_key(command.layer_id())
            <==> forall|i: int|
            0 <= i < instants.len() ==> #[trigger] instants[i] < start + command.timeout_ms->Some_0,
        prune_each(update_spec(layers, command, start), instants).contains_key(command.layer_id())
            ==> prune_each(update_spec(layers, command, start), instants)[command.layer_id()] == (
        LayerView {
            operations: command.operations@,
            expiry: Some(start + command.timeout_ms->Some_0),
        }),
    decreases instants.len(),
{
    if instants.len() > 0 {
        let earlier = instants.drop_last();
        lemma_layer_with_timeout_through_prunes(layers, command, start, earlier);
        let limit = start + command.timeout_ms->Some_0;
        if forall|i: int| 0 <= i < instants.len() ==> #[trigger] instants[i] < limit {
            assert forall|i: int| 0 <= i < earlier.len() implies #[trigger] earlier[i] < limit by {
                assert(earlier[i] == instants[i]);
            }
            assert(instants[instants.len() - 1] < limit);
        }
        if prune_each(update_spec(layers, command, start), instants).contains_key(
            command.layer_id(),
        ) {
            assert forall|i: int| 0 <= i < instants.len() implies #[trigger] instants[i]
                < limit by {
                if i < earlier.len() {
                    assert(earlier[i] == instants[i]);
                }
            }
        }
    }
}

/// A prune removes nothing but layers that have run out, and changes no
/// layer that stays.
pub proof fn lemma_prune_keeps_live_layers(layers: Map<i32, LayerView>, now: u64, id: i32)
    ensures
        prune_spec(layers, now).contains_key(id) <==> layers.contains_key(id) && !expired(
            layers[id],
            now,
        ),
        prune_spec(layers, now).contains_key(id) ==> prune_spec(layers, now)[id] == layers[id],
{
}

/// Commands for different layers may arrive in either order: the canvas,
/// and with it the frame, is the same.
pub proof fn lemma_arrival_order_is_irrelevant(
    layers: Map<i32, LayerView>,
    a: Command,
    a_at: u64,
    b: Command,
    b_at: u64,
)
    requires
        a.layer_id() != b.layer_id(),
    ensures
        update_spec(update_spec(layers, a, a_at), b, b_at) == update_spec(
            update_spec(layers, b, b_at),
            a,
            a_at,
        ),
        canvas_commands(update_spec(update_spec(layers, a, a_at), b, b_at)) == canvas_commands(
            update_spec(update_spec(layers, b, b_at), a, a_at),
        ),
{
    assert(update_spec(update_spec(layers, a, a_at), b, b_at) =~= update_spec(
        update_spec(layers, b, b_at),
        a,
        a_at,
    ));
}

/// Painting a range of layers is painting its lower part and then its
/// upper part.
pub proof fn lemma_commands_split(layers: Map<i32, LayerView>, lo: int, mid: int, hi: int)
    requires
        lo <= mid <= hi,
    ensures
        commands_between(layers, lo, hi) == commands_between(layers, lo, mid) + commands_between(
            layers,
            mid,
            hi,
        ),
    decreases hi - mid,
{
    if mid < hi {
        lemma_commands_split(layers, lo, mid, hi - 1);
        assert(commands_between(layers, lo, hi) =~= commands_between(layers, lo, mid)
            + commands_between(layers, mid, hi));
    } else {
        assert(commands_between(layers, mid, hi) =~= Seq::empty());
        assert(commands_between(layers, lo, hi) =~= commands_between(layers, lo, mid)
            + commands_between(layers, mid, hi));
    }
}

/// Layers paint by ascending id. A frame is what the layers below `id`
/// paint, then what layer `id` paints, then what the layers above it
/// paint: a layer is painted over by exactly the layers with higher ids.
pub proof fn lemma_layers_paint_by_ascending_id(layers: Map<i32, LayerView>, id: i32)
    ensures
        canvas_commands(layers) == commands_between(layers, i32::MIN as int, id as int)
            + layer_commands(layers, id as int) + commands_between(
            layers,
            id + 1,
            i32::MAX as int + 1,
        ),
{
    lemma_commands_split(layers, i32::MIN as int, id + 1, i32::MAX as int + 1);
    assert(commands_between(layers, i32::MIN as int, id + 1) == commands_between(
        layers,
        i32::MIN as int,
        id as int,
    ) + layer_commands(layers, id as int));
}

/// One layer with its id.
struct Slot {
    id: i32,
    layer: Layer,
}

/// Whether the ids ascend strictly, so that each occurs once.
spec fn ascending(slots: Seq<Slot>) -> bool {
    forall|i: int, j: int| 0 <= i < j < slots.len() ==> slots[i].id < slots[j].id
}

/// Whether some slot has the id.
spec fn has_id(slots: Seq<Slot>, id: i32) -> bool {
    exists|i: int| 0 <= i < slots.len() && #[trigger] slots[i].id == id
}

/// Where the slot with the id stands.
spec fn index_of(slots: Seq<Slot>, id: i32) -> int {
    choose|i: int| 0 <= i < slots.len() && #[trigger] slots[i].id == id
}

/// The slots as a map from id to layer.
spec fn slots_view(slots: Seq<Slot>) -> Map<i32, LayerView> {
    Map::new(|id: i32| has_id(slots, id), |id: i32| slots[index_of(slots, id)].layer@)
}

/// In an ascending list each slot is the one that the map has for its id.
proof fn lemma_slot_in_view(slots: Seq<Slot>, i: int)
    requires
        ascending(slots),
        0 <= i < slots.len(),
    ensures
        has_id(slots, slots[i].id),
        index_of(slots, slots[i].id) == i,
        slots_view(slots).contains_key(slots[i].id),
        slots_view(slots)[slots[i].id] == slots[i].layer@,
{
    let id = slots[i].id;
    assert(has_id(slots, id));
    let j = index_of(slots, id);
    assert(0 <= j < slots.len() && slots[j].id == id);
    if j < i {
        assert(slots[j].id < slots[i].id);
    }
    if i < j {
        assert(slots[i].id < slots[j].id);
    }
}

/// Ids without a layer paint nothing: where no layer has an id from `a`
/// up to, not including, `b`, painting up to `b` is painting up to `a`.
pub proof fn lemma_commands_gap(layers: Map<i32, LayerView>, lo: int, a: int, b: int)
    requires
        lo <= a <= b,
        forall|id: i32| a <= id < b ==> !layers.contains_key(id),
    ensures
        commands_between(layers, lo, b) == commands_between(layers, lo, a),
    decreases b - a,
{
    if a < b {
        lemma_commands_gap(layers, lo, a, b - 1);
        if i32::MIN <= b - 1 <= i32::MAX {
            assert(!layers.contains_key((b - 1) as i32));
        }
        assert(layer_commands(layers, b - 1) =~= Seq::empty());
        assert(commands_between(layers, lo, b) =~= commands_between(layers, lo, b - 1));
    }
}

/// The layers, at most one for each id.
pub struct CanvasState {
    layers: Vec<Slot>,
}

impl View for CanvasState {
    type V = Map<i32, LayerView>;

    closed spec fn view(&self) -> Map<i32, LayerView> {
        slots_view(self.layers@)
    }
}

/// A copy of the operation's parameters.
fn copy_pixel(p: &PixelParams) -> (r: PixelParams)
    ensures
        r == *p,
{
    PixelParams { x: p.x, y: p.y, color: p.color.clone() }
}

/// A copy of the operation's parameters.
fn copy_line(p: &LineParams) -> (r: LineParams)
    ensures
        r == *p,
{
    LineParams {
        x1: p.x1,
        y1: p.y1,
        x2: p.x2,
        y2: p.y2,
        width: p.width,
        side: p.side,
        color: p.color.clone(),
    }
}

/// A copy of the operation's parameters.
fn copy_circle(p: &CircleParams) -> (r: CircleParams)
    ensures
        r == *p,
{
    CircleParams {
        x: p.x,
        y: p.y,
        radius: p.radius,
        fill_color: p.fill_color.clone(),
        outline_width: p.outline_width,
        outline_color: p.outline_color.clone(),
    }
}

/// A copy of the operation's parameters.
fn copy_rectangle(p: &RectangleParams) -> (r: RectangleParams)
    ensures
        r == *p,
{
    RectangleParams {
        x1: p.x1,
        y1: p.y1,
        x2: p.x2,
        y2: p.y2,
        fill_color: p.fill_color.clone(),
        outline_width: p.outline_width,
        outline_color: p.outline_color.clone(),
    }
}

impl CanvasState {
    /// The layers are held by ascending id, one for each id.
    #[verifier::type_invariant]
    spec fn ids_ascend(self) -> bool {
        ascending(self.layers@)
    }

    /// A canvas without layers.
    pub fn new() -> (canvas: CanvasState)
        ensures
            canvas@ == Map::<i32, LayerView>::empty(),
    {
        let canvas = CanvasState { layers: Vec::new() };
        assert(canvas@ =~= Map::<i32, LayerView>::empty());
        canvas
    }

    /// The layer with the given id, if the canvas holds one.
    pub fn get(&self, id: i32) -> (layer: Option<&Layer>)
        ensures
            layer is Some <==> self@.contains_key(id),
            layer is Some ==> layer->Some_0@ == self@[id],
    {
        proof {
            use_type_invariant(self);
        }
        let mut i: usize = 0;
        while i < self.layers.len()
            invariant
                0 <= i <= self.layers.len(),
                ascending(self.layers@),
                forall|k: int| 0 <= k < i ==> self.layers@[k].id != id,
            decreases self.layers.len() - i,
        {
            if self.layers[i].id == id {
                proof {
                    lemma_slot_in_view(self.layers@, i as int);
                }
                return Some(&self.layers[i].layer);
            }
            i += 1;
        }
        None
    }

    /// The ids of the layers on the canvas, ascending: the order in which
    /// the layers are painted.
    pub fn layer_ids(&self) -> (ids: Vec<i32>)
        ensures
            forall|i: int, j: int| 0 <= i < j < ids@.len() ==> ids@[i] < ids@[j],
            forall|id: i32| ids@.contains(id) <==> self@.contains_key(id),
    {
        proof {
            use_type_invariant(self);
        }
        let mut ids: Vec<i32> = Vec::new();
        let mut i: usize = 0;
        while i < self.layers.len()
            invariant
                0 <= i <= self.layers.len(),
                ascending(self.layers@),
                ids@.len() == i,
                forall|k: int| 0 <= k < i ==> #[trigger] ids@[k] == self.layers@[k].id,
            decreases self.layers.len() - i,
        {
            ids.push(self.layers[i].id);
            i += 1;
        }
        proof {
            assert forall|id: i32| ids@.contains(id) <==> self@.contains_key(id) by {
                if ids@.contains(id) {
                    let k = choose|k: int| 0 <= k < ids@.len() && ids@[k] == id;
                    lemma_slot_in_view(self.layers@, k);
                }
                if self@.contains_key(id) {
                    let k = index_of(self.layers@, id);
                    assert(ids@[k] == id);
                }
            }
        }
        ids
    }

    /// Sets the layer that `command` addresses to the command's operations,
    /// replacing whatever the layer held. With a timeout the layer runs
    /// out that many milliseconds after `now`.
    pub fn update(&mut self, command: Command, now: u64)
        ensures
            final(self)@ == update_spec(old(self)@, command, now),
    {
        proof {
            use_type_invariant(&*self);
        }
        let id = match command.layer {
            Some(id) => id,
            None => 0,
        };
        let expiry: Option<u128> = match command.timeout_ms {
            Some(ms) => Some(now as u128 + ms as u128),
            None => None,
        };
        let ghost target = update_spec(old(self)@, command, now);
        let layer = Layer { operations: command.operations, expiry };
        assert(layer@ == target[id]);
        let mut layers: Vec<Slot> = Vec::new();
        core::mem::swap(&mut self.layers, &mut layers);
        let ghost before = layers@;
        assert(before == old(self).layers@);
        assert(ascending(before));
        assert(target == slots_view(before).insert(id, layer@));
        let mut at: usize = 0;
        while at < layers.len() && layers[at].id < id
            invariant
                at <= layers.len(),
                layers@ == before,
                forall|i: int| 0 <= i < at ==> layers@[i].id < id,
            decreases layers.len() - at,
        {
            at += 1;
        }
        if at < layers.len() && layers[at].id == id {
            layers[at] = Slot { id, layer };
            let ghost after = layers@;
            assert(ascending(after)) by {
                assert forall|i: int, j: int| 0 <= i < j < after.len() implies after[i].id
                    < after[j].id by {
                    assert(before[i].id < before[j].id);
                }
            }
            assert(slots_view(after) =~= target) by {
                assert forall|k: i32| #[trigger]
                    slots_view(after).contains_key(k) implies target.contains_key(k) by {
                    let i = index_of(after, k);
                    lemma_slot_in_view(before, i);
                }
                assert forall|k: i32| #[trigger]
                    target.contains_key(k) implies slots_view(after).contains_key(k) && slots_view(
                    after,
                )[k] == target[k] by {
                    if k == id {
                        lemma_slot_in_view(after, at as int);
                    } else {
                        let i = index_of(before, k);
                        lemma_slot_in_view(before, i);
                        lemma_slot_in_view(after, i);
                    }
                }
            }
        } else {
            layers.insert(at, Slot { id, layer });
            let ghost after = layers@;
            assert(ascending(after)) by {
                assert forall|i: int, j: int| 0 <= i < j < after.len() implies after[i].id
                    < after[j].id by {
                    if i < at && j > at {
                        assert(before[i].id < before[j - 1].id);
                    } else if i > at {
                        assert(before[i - 1].id < before[j - 1].id);
                    } else if j < at {
                        assert(before[i].id < before[j].id);
                    } else if i == at {
                        assert(before[at as int].id <= before[j - 1].id);
                    }
                }
            }
            assert(slots_view(after) =~= target) by {
                assert forall|k: i32| #[trigger]
                    slots_view(after).contains_key(k) implies target.contains_key(k) by {
                    let i = index_of(after, k);
                    if i < at {
                        lemma_slot_in_view(before, i);
                    } else if i > at {
                        lemma_slot_in_view(before, i - 1);
                    }
                }
                assert forall|k: i32| #[trigger]
                    target.contains_key(k) implies slots_view(after).contains_key(k) && slots_view(
                    after,
                )[k] == target[k] by {
                    if k == id {
                        lemma_slot_in_view(after, at as int);
                    } else {
                        let i = index_of(before, k);
                        lemma_slot_in_view(before, i);
                        if i < at {
                            lemma_slot_in_view(after, i);
                        } else {
                            lemma_slot_in_view(after, i + 1);
                        }
                    }
                }
            }
        }
        self.layers = layers;
    }

    /// Removes every layer that has run out at `now`, and tells whether
    /// there was one. A layer without an expiry always stays.
    pub fn prune(&mut self, now: u64) -> (removed: bool)
        ensures
            final(self)@ == prune_spec(old(self)@, now),
            removed <==> exists|id: i32| #[trigger]
                old(self)@.contains_key(id) && expired(old(self)@[id], now),
    {
        proof {
            use_type_invariant(&*self);
        }
        let mut layers: Vec<Slot> = Vec::new();
        core::mem::swap(&mut self.layers, &mut layers);
        let ghost before = layers@;
        let held: usize = layers.len();
        let mut kept: usize = 0;
        let ghost mut seen: int = 0;
        while kept < layers.len()
            invariant
                ascending(before),
                ascending(layers@),
                0 <= kept <= layers.len(),
                0 <= seen <= before.len(),
                kept <= seen,
                held == before.len(),
                layers.len() - kept == before.len() - seen,
                forall|t: int| 0 <= t < layers.len() - kept ==> #[trigger] layers@[kept + t]
                    == before[seen + t],
                forall|t: int| 0 <= t < kept ==> !expired(#[trigger] layers@[t].layer@, now),
                forall|t: int|
                    0 <= t < kept ==> has_id(before, #[trigger] layers@[t].id) && before[index_of(
                        before,
                        layers@[t].id,
                    )] == layers@[t],
                forall|u: int|
                    0 <= u < seen && !expired(before[u].layer@, now) ==> has_id(
                        layers@.take(kept as int),
                        #[trigger] before[u].id,
                    ),
                (kept < seen) <==> exists|u: int|
                    0 <= u < seen && expired(#[trigger] before[u].layer@, now),
            decreases layers.len() - kept,
        {
            let ghost current = layers@;
            assert(current[kept + 0] == before[seen + 0]);
            let out = match layers[kept].layer.expiry {
                Some(e) => e <= now as u128,
                None => false,
            };
            assert(out == expired(before[seen].layer@, now));
            if out {
                layers.remove(kept);
                proof {
                    assert forall|i: int, j: int| 0 <= i < j < layers@.len() implies layers@[i].id
                        < layers@[j].id by {
                        let a = if i < kept { i } else { i + 1 };
                        let b = if j < kept { j } else { j + 1 };
                        assert(current[a].id < current[b].id);
                    }
                    assert forall|t: int| 0 <= t < layers.len() - kept implies #[trigger] layers@[kept
                        + t] == before[seen + 1 + t] by {
                        assert(current[kept + (t + 1)] == before[seen + (t + 1)]);
                    }
                    assert(layers@.take(kept as int) =~= current.take(kept as int));
                    assert(expired(before[seen].layer@, now));
                    seen = seen + 1;
                }
            } else {
                proof {
                    lemma_slot_in_view(before, seen);
                    assert forall|t: int| 0 <= t < layers.len() - (kept + 1) implies #[trigger] layers@[kept
                        + 1 + t] == before[seen + 1 + t] by {
                        assert(current[kept + (t + 1)] == before[seen + (t + 1)]);
                    }
                    assert forall|u: int|
                        0 <= u < seen + 1 && !expired(before[u].layer@, now) implies has_id(
                        layers@.take(kept + 1),
                        #[trigger] before[u].id,
                    ) by {
                        if u < seen {
                            assert(has_id(layers@.take(kept as int), before[u].id));
                            let t = index_of(layers@.take(kept as int), before[u].id);
                            assert(layers@.take(kept + 1)[t].id == before[u].id);
                        } else {
                            assert(layers@.take(kept + 1)[kept as int].id == before[u].id);
                        }
                    }
                    if exists|u: int| 0 <= u < seen + 1 && expired(#[trigger] before[u].layer@, now) {
                        let u = choose|u: int|
                            0 <= u < seen + 1 && expired(#[trigger] before[u].layer@, now);
                        assert(u < seen);
                    }
                    seen = seen + 1;
                }
                kept += 1;
            }
        }
        let removed = layers.len() < held;
        self.layers = layers;
        proof {
            let after = self.layers@;
            let pruned = prune_spec(old(self)@, now);
            assert(after.take(kept as int) =~= after);
            assert forall|k: i32| #[trigger] slots_view(after).contains_key(k) implies pruned.contains_key(
                k,
            ) && pruned[k] == slots_view(after)[k] by {
                let t = index_of(after, k);
                lemma_slot_in_view(after, t);
                let u = index_of(before, k);
                lemma_slot_in_view(before, u);
            }
            assert forall|k: i32| #[trigger] pruned.contains_key(k) implies slots_view(
                after,
            ).contains_key(k) by {
                let u = index_of(before, k);
                lemma_slot_in_view(before, u);
                assert(has_id(after, before[u].id));
            }
            assert(slots_view(after) =~= pruned);
            if removed {
                let u = choose|u: int| 0 <= u < seen && expired(#[trigger] before[u].layer@, now);
                lemma_slot_in_view(before, u);
                assert(old(self)@.contains_key(before[u].id) && expired(
                    old(self)@[before[u].id],
                    now,
                ));
            }
            if exists|id: i32| #[trigger]
                old(self)@.contains_key(id) && expired(old(self)@[id], now) {
                let id = choose|id: i32| #[trigger]
                    old(self)@.contains_key(id) && expired(old(self)@[id], now);
                let u = index_of(before, id);
                lemma_slot_in_view(before, u);
                assert(expired(before[u].layer@, now));
            }
        }
        removed
    }

    /// Paints one operation.
    pub fn draw_operation(&self, renderer: &mut Renderer, op: &DrawOperation)
        ensures
            final(renderer)@ == old(renderer)@ + operation_commands(*op),
            final(renderer).width == old(renderer).width,
            final(renderer).height == old(renderer).height,
    {
        match op {
            DrawOperation::Pixel(p) => renderer.draw_pixel(copy_pixel(p)),
            DrawOperation::Line(p) => renderer.draw_line(copy_line(p)),
            DrawOperation::Circle(p) => renderer.draw_circle(copy_circle(p)),
            DrawOperation::Rectangle(p) => renderer.draw_rectangle(copy_rectangle(p)),
        }
    }

    /// Paints the whole canvas onto a cleared renderer: the layers by
    /// ascending id, each layer's operations in the order it holds them.
    pub fn render(&self, renderer: &mut Renderer)
        ensures
            final(renderer)@ == canvas_commands(self@),
            final(renderer).width == old(renderer).width,
            final(renderer).height == old(renderer).height,
    {
        proof {
            use_type_invariant(self);
        }
        renderer.clear();
        let ghost slots = self.layers@;
        let ghost view = self@;
        let ghost low = i32::MIN as int;
        let mut i: usize = 0;
        proof {
            assert(commands_between(view, low, low) =~= Seq::empty());
        }
        while i < self.layers.len()
            invariant
                0 <= i <= self.layers.len(),
                slots == self.layers@,
                view == slots_view(slots),
                ascending(slots),
                low == i32::MIN as int,
                renderer.width == old(renderer).width,
                renderer.height == old(renderer).height,
                i == 0 ==> renderer@ == commands_between(view, low, low),
                i > 0 ==> renderer@ == commands_between(view, low, slots[i - 1].id + 1),
            decreases self.layers.len() - i,
        {
            let slot = &self.layers[i];
            let ghost reached = if i == 0 { low } else { slots[i - 1].id + 1 };
            proof {
                lemma_slot_in_view(slots, i as int);
                assert forall|id: i32| reached <= id < slot.id implies !view.contains_key(id) by {
                    if view.contains_key(id) {
                        let u = index_of(slots, id);
                        lemma_slot_in_view(slots, u);
                        if u < i {
                            if u < i - 1 {
                                assert(slots[u].id < slots[i - 1].id);
                            }
                        } else if u > i {
                            assert(slots[i as int].id < slots[u].id);
                        }
                    }
                }
                lemma_commands_gap(view, low, reached, slot.id as int);
            }
            let ghost base = renderer@;
            let mut j: usize = 0;
            proof {
                assert(operations_commands(slot.layer.operations@.take(0)) =~= Seq::empty());
                assert(renderer@ =~= base + Seq::<PaintCommand>::empty());
            }
            while j < slot.layer.operations.len()
                invariant
                    0 <= j <= slot.layer.operations.len(),
                    renderer.width == old(renderer).width,
                    renderer.height == old(renderer).height,
                    renderer@ == base + operations_commands(
                        slot.layer.operations@.take(j as int),
                    ),
                decreases slot.layer.operations.len() - j,
            {
                let ghost ops = slot.layer.operations@;
                let ghost so_far = renderer@;
                self.draw_operation(renderer, &slot.layer.operations[j]);
                proof {
                    assert(ops.take(j + 1).drop_last() =~= ops.take(j as int));
                    assert(ops.take(j + 1).last() == ops[j as int]);
                    assert(renderer@ =~= base + operations_commands(ops.take(j + 1)));
                }
                j += 1;
            }
            proof {
                assert(slot.layer.operations@.take(j as int) =~= slot.layer.operations@);
                assert(layer_commands(view, slot.id as int) == operations_commands(
                    slot.layer.operations@,
                ));
                assert(renderer@ == commands_between(view, low, slot.id + 1));
            }
            i += 1;
        }
        proof {
            let reached = if i == 0 { low } else { slots[i - 1].id + 1 };
            assert forall|id: i32| reached <= id < i32::MAX + 1 implies !view.contains_key(id) by {
                if view.contains_key(id) {
                    let u = index_of(slots, id);
                    lemma_slot_in_view(slots, u);
                    if u < i - 1 {
                        assert(slots[u].id < slots[i - 1].id);
                    }
                }
            }
            lemma_commands_gap(view, low, reached, i32::MAX + 1);
        }
    }
}

} // verus!
