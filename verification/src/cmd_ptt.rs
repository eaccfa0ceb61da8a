//! Push to talk: the microphone volume for each state of the key, and the
//! frame around the screen that shows it.

use vstd::prelude::*;
use crate::draw::{DrawOperation, Length, RectangleParams};
use crate::network::Command;

verus! {

/// What a change of the key's state asks for: the volume to set on the
/// default audio source, and the command to send to the overlay.
#[derive(Debug)]
pub struct PushToTalk {
    pub volume: String,
    pub command: Command,
}

/// The volume that goes with a state: `0.4` while the key is held (`1`),
/// `0.0` once it is released (`0`).
pub open spec fn volume_for(state: Seq<char>) -> Option<Seq<char>> {
    if state == "1"@ {
        Some("0.4"@)
    } else if state == "0"@ {
        Some("0.0"@)
    } else {
        None
    }
}

/// The color of the frame: white while the key is held, fully transparent
/// once it is released.
pub open spec fn outline_for(state: Seq<char>) -> Option<Seq<char>> {
    if state == "1"@ {
        Some("0xFFFFFFFF"@)
    } else if state == "0"@ {
        Some("0x00000000"@)
    } else {
        None
    }
}

/// Whether `command` puts the frame of the given outline color on layer 0,
/// without a timeout: one rectangle over the whole screen of 1920 by 1080
/// pixels, with a transparent fill and an outline five pixels wide.
pub open spec fn is_frame_command(command: Command, outline: Seq<char>) -> bool {
    &&& command.layer is None
    &&& command.timeout_ms is None
    &&& command.operations@.len() == 1
    &&& command.operations@[0] is Rectangle
    &&& command.operations@[0]->Rectangle_0.x1 == 1
    &&& command.operations@[0]->Rectangle_0.y1 == 1
    &&& command.operations@[0]->Rectangle_0.x2 == 1920
    &&& command.operations@[0]->Rectangle_0.y2 == 1080
    &&& command.operations@[0]->Rectangle_0.fill_color@ == "0x00000000"@
    &&& command.operations@[0]->Rectangle_0.outline_width == (Length { millis: 5000 })
    &&& command.operations@[0]->Rectangle_0.outline_color@ == outline
}

/// What to do for the key's new state; nothing for a state other than
/// `0` and `1`.
pub fn run(state: &str) -> (plan: Option<PushToTalk>)
    ensures
        plan is Some <==> volume_for(state@) is Some,
        plan is Some ==> plan->Some_0.volume@ == volume_for(state@)->Some_0 && is_frame_command(
            plan->Some_0.command,
            outline_for(state@)->Some_0,
        ),
{
    let held = state.to_owned() == "1".to_owned();
    let released = state.to_owned() == "0".to_owned();
    proof {
        reveal_strlit("1");
        reveal_strlit("0");
    }
    let (volume, outline_color) = if held {
        ("0.4", "0xFFFFFFFF")
    } else if released {
        ("0.0", "0x00000000")
    } else {
        return None;
    };
    let mut operations: Vec<DrawOperation> = Vec::new();
    operations.push(
        DrawOperation::Rectangle(
            RectangleParams {
                x1: 1,
                y1: 1,
                x2: 1920,
                y2: 1080,
                fill_color: "0x00000000".to_owned(),
                outline_width: Length { millis: 5000 },
                outline_color: outline_color.to_owned(),
            },
        ),
    );
    Some(
        PushToTalk {
            volume: volume.to_owned(),
            command: Command { layer: None, timeout_ms: None, operations },
        },
    )
}

} // verus!
