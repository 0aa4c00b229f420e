//! Host-recorded commands.
//!
//! A [`Command`] is one typed host-originated operation (a kernel dispatch,
//! a copy, a fill) together with the backend handles of every resource it
//! touches.  The resource list is the command's tracker: the command buffer
//! retains it alongside the descriptor and hands both to the backend at
//! commit, so the backend can keep those resources alive until it has
//! finished processing the command.

use vstd::prelude::*;

verus! {

/// The backend-level descriptor of one operation.
#[derive(Clone, Copy, Debug, PartialEq, Eq, Structural)]
pub enum CommandKind {
    /// Run a compiled kernel over a dispatch grid.
    KernelDispatch { kernel: u64, grid_x: u32, grid_y: u32, grid_z: u32 },
    /// Copy bytes from one buffer to another.
    BufferCopy { src: u64, dst: u64, byte_size: u64 },
    /// Fill a buffer with one byte value.
    BufferFill { dst: u64, byte_size: u64, value: u8 },
}

/// One recorded operation plus its resource tracker.
#[derive(Debug, PartialEq)]
pub struct Command {
    pub kind: CommandKind,
    /// The backend handles of the resources the command touches; they must
    /// stay alive until the backend has processed the command.
    pub resources: Vec<u64>,
}

/// The mathematical image of a command.
pub ghost struct CommandModel {
    pub kind: CommandKind,
    pub resources: Seq<u64>,
}

impl View for Command {
    type V = CommandModel;

    open spec fn view(&self) -> CommandModel {
        CommandModel { kind: self.kind, resources: self.resources@ }
    }
}

/// The images of a recorded command sequence, in order.
pub open spec fn cmds_model(s: Seq<Command>) -> Seq<CommandModel> {
    s.map_values(|c: Command| c@)
}

} // verus!
