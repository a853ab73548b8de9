use vstd::prelude::*;

verus! {

/// The permission bits an executable artifact is written with: each class
/// (owner, group, other) that can already read or write gains execute,
/// and a class the umask stripped entirely stays stripped — the effect of
/// a umask-aware `chmod +x`, never a blind `0755`.
pub open spec fn propagate_spec(mode: u32) -> u32 {
    let m1 = if mode & 0o6 != 0 {
        mode | 0o1
    } else {
        mode
    };
    let m2 = if m1 & 0o60 != 0 {
        m1 | 0o10
    } else {
        m1
    };
    if m2 & 0o600 != 0 {
        m2 | 0o100
    } else {
        m2
    }
}

/// Add execute permission to exactly the classes that already have read
/// or write permission.
pub fn propagate_execute_bits(mode: u32) -> (r: u32)
    ensures
        r == propagate_spec(mode),
{
    let m1 = if mode & 0o6 != 0 {
        mode | 0o1
    } else {
        mode
    };
    let m2 = if m1 & 0o60 != 0 {
        m1 | 0o10
    } else {
        m1
    };
    if m2 & 0o600 != 0 {
        m2 | 0o100
    } else {
        m2
    }
}

} // verus!
