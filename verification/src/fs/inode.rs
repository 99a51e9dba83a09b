//! Inode numbers.
//!
//! The virtual path structure maps to inodes as follows:
//!
//! - `/` is `ROOT_INO`, the files in it have the next numbers;
//! - `/tools/` is `TOOLS_DIR_INO`;
//! - `/tools/<tool>/` has a number of its own for each tool;
//! - `/tools/<tool>/how_to.md` and `/tools/<tool>/<endpoint>` follow the number
//!   of the tool.
use vstd::prelude::*;

verus! {

pub const ROOT_INO: u64 = 1;

pub const TOOLS_DIR_INO: u64 = 2;

pub const ROOT_INDEX_INO: u64 = 3;

pub const ROOT_HOW_TO_INO: u64 = 4;

pub const ROOT_CREATE_TOOL_INO: u64 = 5;

pub const ROOT_SYSTEM_PROMPT_INO: u64 = 6;

/// Files on disk have the numbers above this one.
pub const EXTERNAL_INO_BASE: u64 = 100_000;

/// The inode of a tool directory.
pub open spec fn tool_ino(tool_index: int) -> int {
    1000 + tool_index * 100
}

/// The inode of the `tool_index`th tool directory.
pub fn tool_dir_ino(tool_index: usize) -> (r: u64)
    requires
        tool_ino(tool_index as int) <= u64::MAX,
    ensures
        r == tool_ino(tool_index as int),
{
    1000 + (tool_index as u64) * 100
}

/// The inode of the `how_to.md` of the `tool_index`th tool.
pub fn how_to_ino(tool_index: usize) -> (r: u64)
    requires
        tool_ino(tool_index as int) + 1 <= u64::MAX,
    ensures
        r == tool_ino(tool_index as int) + 1,
{
    tool_dir_ino(tool_index) + 1
}

/// The inode of the `ep_index`th endpoint of the `tool_index`th tool.
pub fn endpoint_ino(tool_index: usize, ep_index: usize) -> (r: u64)
    requires
        tool_ino(tool_index as int) + 10 + ep_index <= u64::MAX,
    ensures
        r == tool_ino(tool_index as int) + 10 + ep_index,
{
    tool_dir_ino(tool_index) + 10 + ep_index as u64
}

/// With fewer than 990 tools of fewer than 90 endpoints each, the inodes of tool
/// directories, their `how_to.md` and their endpoints are all different, and
/// apart from those of the root's files and of files on disk.
pub proof fn inodes_are_apart(tool: int, ep: int, other: int, other_ep: int)
    requires
        0 <= tool < 990,
        0 <= other < 990,
        0 <= ep < 90,
        0 <= other_ep < 90,
    ensures
        tool_ino(tool) != tool_ino(other) + 1,
        tool_ino(tool) != tool_ino(other) + 10 + other_ep,
        tool_ino(tool) + 1 != tool_ino(other) + 10 + other_ep,
        tool_ino(tool) == tool_ino(other) <==> tool == other,
        tool_ino(tool) + 10 + ep == tool_ino(other) + 10 + other_ep <==> (tool == other && ep
            == other_ep),
        ROOT_SYSTEM_PROMPT_INO < tool_ino(tool),
        tool_ino(tool) + 10 + ep < EXTERNAL_INO_BASE,
        (tool_ino(tool) - 1000) / 100 == tool,
        (tool_ino(tool) + 1 - 1000) / 100 == tool,
        (tool_ino(tool) + 10 + ep - 1000) / 100 == tool,
{
}

} // verus!
