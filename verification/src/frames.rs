//! The calling convention, as a relation between machine states.
//!
//! A call leaves a frame header on the stack, from the slot where the stack
//! pointer stood upwards: the return address, then the caller's LCL, ARG,
//! THIS and THAT. The callee's LCL points just above the header, its ARG to
//! the first of the arguments, which lie just below the header. A return
//! puts the result in the place of the first argument, sets the stack
//! pointer just above it, and restores the caller's pointers from the
//! header.

use vstd::prelude::*;
use crate::machine::Machine;

verus! {

/// The memory after a call from the state `m`, with `back` as the return
/// address and `count` arguments.
pub open spec fn called(m: Machine, back: int, count: int) -> Map<int, int> {
    let sp = m.ram[0];
    m.ram.insert(sp, back).insert(sp + 1, m.ram[1]).insert(sp + 2, m.ram[2]).insert(
        sp + 3,
        m.ram[3],
    ).insert(sp + 4, m.ram[4]).insert(0, sp + 5).insert(1, sp + 5).insert(2, sp - count)
}

/// The memory after a return from the state `m`: the result has taken the
/// place of the first argument, the stack pointer stands just above it, and
/// the four segment pointers are those that the frame header held.
pub open spec fn returned(m: Machine) -> Map<int, int> {
    let sp = m.ram[0];
    let frame = m.ram[1];
    let arg = m.ram[2];
    m.ram.insert(arg, m.ram[sp - 1]).insert(0, arg + 1).insert(4, m.ram[frame - 1]).insert(
        3,
        m.ram[frame - 2],
    ).insert(2, m.ram[frame - 3]).insert(1, m.ram[frame - 4])
}

/// The address to which a return from the state `m` moves control: the one
/// that the frame header holds.
pub open spec fn return_address(m: Machine) -> int {
    m.ram[m.ram[1] - 5]
}

/// True for the addresses of the scratch registers that the emitters keep
/// for themselves.
pub open spec fn is_scratch(address: int) -> bool {
    13 <= address <= 15
}

/// True when two memories hold the same words everywhere but in the scratch
/// registers.
pub open spec fn agree_but_scratch(a: Map<int, int>, b: Map<int, int>) -> bool {
    forall|address: int| !is_scratch(address) ==> #[trigger] a[address] == b[address]
}

} // verus!
