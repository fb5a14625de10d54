//! How the memory view marks bytes.
use vstd::prelude::*;

verus! {

/// What a byte of memory holds, as the memory view colours it.
#[derive(PartialEq, Eq, Structural)]
pub enum ByteKind {
    /// Part of the built-in font.
    Font,
    /// Part of the loaded program.
    Rom,
    /// Anything else.
    Other,
}

/// The kind of the byte at `addr`, given the font's address range and the
/// program's, if one is loaded (both half-open). The font wins where the two
/// overlap.
pub fn byte_kind(addr: usize, fontset_range: (usize, usize), rom_range: Option<(usize, usize)>) -> (kind: ByteKind)
    ensures
        kind == if fontset_range.0 <= addr < fontset_range.1 {
            ByteKind::Font
        } else if rom_range matches Some((start, end)) && start <= addr < end {
            ByteKind::Rom
        } else {
            ByteKind::Other
        },
{
    let is_fontset: bool = addr >= fontset_range.0 && addr < fontset_range.1;
    let is_rom: bool = match rom_range {
        Some((start, end)) => addr >= start && addr < end,
        None => false,
    };
    if is_fontset {
        ByteKind::Font
    } else if is_rom {
        ByteKind::Rom
    } else {
        ByteKind::Other
    }
}

/// Whether `addr` is among the highlighted addresses.
pub fn is_highlighted(addr: usize, highlight_addrs: &[usize]) -> (highlighted: bool)
    ensures
        highlighted == highlight_addrs@.contains(addr),
{
    let mut k: usize = 0;
    while k < highlight_addrs.len()
        invariant
            k <= highlight_addrs@.len(),
            forall|j: int| 0 <= j < k ==> highlight_addrs@[j] != addr,
        decreases highlight_addrs@.len() - k,
    {
        if highlight_addrs[k] == addr {
            return true;
        }
        k = k + 1;
    }
    false
}

} // verus!
