use vstd::prelude::*;

verus! {

/// Identifier of a window as the window manager tracks it: the owning
/// process and a per-process index.
#[derive(Clone, Copy, Debug, PartialEq, Eq, Hash, Structural)]
pub struct WindowId {
    pub pid: i32,
    pub idx: u32,
}

impl WindowId {
    pub fn new(pid: i32, idx: u32) -> (id: WindowId)
        ensures
            id.pid == pid,
            id.idx == idx,
    {
        WindowId { pid, idx }
    }
}

/// Raw identifier the window server gives a window.
pub type WindowServerId = u32;

/// Identifier of a node of the layout tree.
pub type NodeId = u64;

/// Identifier of a macOS space.
pub type SpaceId = u64;

} // verus!
