//! Volume control: which sinks a volume change goes to.

use vstd::prelude::*;
use crate::draw::{DrawOperation, Length, LineParams, LineSide, RectangleParams};
use crate::network::Command;
use crate::pipewire::{physical_sink, physical_sink_name, PwNode};

verus! {

/// The ids of the physical sinks among the nodes, in the order of the nodes.
pub open spec fn physical_sink_ids(nodes: Seq<PwNode>) -> Seq<u32>
    decreases nodes.len(),
{
    if nodes.len() == 0 {
        Seq::empty()
    } else if physical_sink_name(nodes.last()) is Some {
        physical_sink_ids(nodes.drop_last()).push(nodes.last().id)
    } else {
        physical_sink_ids(nodes.drop_last())
    }
}

/// Whether the ids ascend, equal ones side by side.
pub open spec fn ids_ascend(ids: Seq<u32>) -> bool {
    forall|i: int, j: int| 0 <= i < j < ids.len() ==> ids[i] <= ids[j]
}

/// Puts `id` into an ascending list, behind every id that is no larger.
fn insert_id(ids: &mut Vec<u32>, id: u32)
    requires
        ids_ascend(old(ids)@),
    ensures
        ids_ascend(final(ids)@),
        final(ids)@.to_multiset() == old(ids)@.to_multiset().insert(id),
{
    let mut at: usize = 0;
    while at < ids.len() && ids[at] <= id
        invariant
            0 <= at <= ids.len(),
            ids@ == old(ids)@,
            forall|k: int| 0 <= k < at ==> ids@[k] <= id,
        decreases ids.len() - at,
    {
        at += 1;
    }
    ids.insert(at, id);
    proof {
        let before = old(ids)@;
        let after = ids@;
        assert(after.remove(at as int) =~= before);
        vstd::seq_lib::to_multiset_remove(after, at as int);
        assert(after.to_multiset().count(id) > 0) by {
            broadcast use vstd::seq_lib::group_to_multiset_ensures;

            assert(after.contains(id)) by {
                assert(after[at as int] == id);
            }
        }
        assert(after.to_multiset() =~= before.to_multiset().insert(id));
        assert forall|i: int, j: int| 0 <= i < j < after.len() implies after[i] <= after[j] by {
            if j < at {
                assert(before[i] <= before[j]);
            } else if i > at {
                assert(before[i - 1] <= before[j - 1]);
            } else if i < at && j > at {
                assert(before[i] <= before[j - 1]);
            } else if i == at {
                assert(before[at as int] <= before[j - 1]);
            }
        }
    }
}

/// The ids of the physical sinks among the nodes, ascending. A node that
/// is listed twice gives its id twice.
pub fn get_physical_sink_ids(nodes: &[PwNode]) -> (ids: Vec<u32>)
    ensures
        ids_ascend(ids@),
        ids@.to_multiset() == physical_sink_ids(nodes@).to_multiset(),
{
    let mut ids: Vec<u32> = Vec::new();
    let mut i: usize = 0;
    proof {
        assert(nodes@.take(0) =~= Seq::empty());
    }
    while i < nodes.len()
        invariant
            0 <= i <= nodes@.len(),
            ids_ascend(ids@),
            ids@.to_multiset() == physical_sink_ids(nodes@.take(i as int)).to_multiset(),
        decreases nodes@.len() - i,
    {
        proof {
            assert(nodes@.take(i + 1).drop_last() =~= nodes@.take(i as int));
            assert(nodes@.take(i + 1).last() == nodes@[i as int]);
        }
        if physical_sink(&nodes[i]).is_some() {
            proof {
                vstd::seq_lib::to_multiset_build(
                    physical_sink_ids(nodes@.take(i as int)),
                    nodes@[i as int].id,
                );
            }
            insert_id(&mut ids, nodes[i].id);
        }
        i += 1;
    }
    proof {
        assert(nodes@.take(nodes@.len() as int) =~= nodes@);
    }
    ids
}

/// Height of the screen that the indicator is drawn for, in pixels.
pub const SCREEN_HEIGHT: i32 = 1080;

/// Width of the screen that the indicator is drawn for, in pixels.
pub const SCREEN_WIDTH: i32 = 1920;

/// The height of the bar that is shown for a wanted height: the wanted
/// height, but no less than nothing and no more than the screen.
pub open spec fn bar_height_spec(wanted: i32) -> int {
    if wanted < 0 {
        0
    } else if wanted > SCREEN_HEIGHT {
        SCREEN_HEIGHT as int
    } else {
        wanted as int
    }
}

/// Whether `op` is a white bar without outline from `left` to `right`
/// that stands on the bottom of the screen and reaches up to `top`.
pub open spec fn is_bar(op: DrawOperation, left: int, right: int, top: int) -> bool {
    &&& op is Rectangle
    &&& op->Rectangle_0.x1 == left
    &&& op->Rectangle_0.y1 == top
    &&& op->Rectangle_0.x2 == right
    &&& op->Rectangle_0.y2 == SCREEN_HEIGHT
    &&& op->Rectangle_0.fill_color@ == "0xFFFFFFFF"@
    &&& op->Rectangle_0.outline_width == (Length { millis: 0 })
    &&& op->Rectangle_0.outline_color@ == "0x00000000"@
}

/// Whether `op` is a white line, one pixel wide, across the screen at
/// height `y`.
pub open spec fn is_marker(op: DrawOperation, y: int) -> bool {
    &&& op is Line
    &&& op->Line_0.x1 == 0
    &&& op->Line_0.y1 == y
    &&& op->Line_0.x2 == SCREEN_WIDTH
    &&& op->Line_0.y2 == y
    &&& op->Line_0.width == (Length { millis: 1000 })
    &&& op->Line_0.side == LineSide::Center
    &&& op->Line_0.color@ == "0xFFFFFFFF"@
}

/// Whether `command` shows the volume as a bar of the given height: on
/// layer 1, for one second, a bar ten pixels wide at the left and at the
/// right edge of the screen, and four markers that part the screen's
/// height into fifths.
pub open spec fn is_volume_indicator(command: Command, height: int) -> bool {
    &&& command.layer == Some(1i32)
    &&& command.timeout_ms == Some(1000u64)
    &&& command.operations@.len() == 6
    &&& is_bar(command.operations@[0], 0, 10, SCREEN_HEIGHT - height)
    &&& is_bar(command.operations@[1], SCREEN_WIDTH - 10, SCREEN_WIDTH as int, SCREEN_HEIGHT - height)
    &&& forall|i: int| 1 <= i < 5 ==> is_marker(#[trigger] command.operations@[1 + i], i * 216)
}

/// A white bar from `left` to `right` that reaches from the bottom of
/// the screen up to `top`.
fn bar(left: i32, right: i32, top: i32) -> (op: DrawOperation)
    ensures
        is_bar(op, left as int, right as int, top as int),
{
    DrawOperation::Rectangle(
        RectangleParams {
            x1: left,
            y1: top,
            x2: right,
            y2: SCREEN_HEIGHT,
            fill_color: "0xFFFFFFFF".to_owned(),
            outline_width: Length { millis: 0 },
            outline_color: "0x00000000".to_owned(),
        },
    )
}

/// The command that shows the volume as a bar `wanted` pixels high; a
/// height outside the screen is brought to the nearest one inside.
pub fn volume_indicator(wanted: i32) -> (command: Command)
    ensures
        is_volume_indicator(command, bar_height_spec(wanted)),
{
    let height: i32 = if wanted < 0 {
        0
    } else if wanted > SCREEN_HEIGHT {
        SCREEN_HEIGHT
    } else {
        wanted
    };
    let top = SCREEN_HEIGHT - height;
    let mut operations: Vec<DrawOperation> = Vec::new();
    operations.push(bar(0, 10, top));
    operations.push(bar(SCREEN_WIDTH - 10, SCREEN_WIDTH, top));
    let segment: i32 = SCREEN_HEIGHT / 5;
    let mut i: i32 = 1;
    while i < 5
        invariant
            1 <= i <= 5,
            segment == 216,
            operations@.len() == 1 + i,
            is_bar(operations@[0], 0, 10, top as int),
            is_bar(operations@[1], SCREEN_WIDTH - 10, SCREEN_WIDTH as int, top as int),
            forall|k: int| 1 <= k < i ==> is_marker(#[trigger] operations@[1 + k], k * 216),
        decreases 5 - i,
    {
        let y = i * segment;
        operations.push(
            DrawOperation::Line(
                LineParams {
                    x1: 0,
                    y1: y,
                    x2: SCREEN_WIDTH,
                    y2: y,
                    width: Length { millis: 1000 },
                    side: LineSide::Center,
                    color: "0xFFFFFFFF".to_owned(),
                },
            ),
        );
        i += 1;
    }
    Command { layer: Some(1), timeout_ms: Some(1000), operations }
}

} // verus!
