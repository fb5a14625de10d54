//! Which files are taken for programs.
use vstd::prelude::*;
use vstd::string::StringSliceAdditionalSpecFns;

verus! {

/// A byte with ASCII upper-case letters made lower-case.
pub open spec fn ascii_lower(b: u8) -> u8 {
    if 65 <= b <= 90 {
        (b + 32) as u8
    } else {
        b
    }
}

/// Whether the UTF-8 bytes of an extension are `ch8` or `c8k`, ignoring
/// ASCII case.
pub open spec fn is_game_extension(ext: Seq<u8>) -> bool {
    let lower = ext.map_values(|b: u8| ascii_lower(b));
    // "ch8" or "c8k"
    lower == seq![99u8, 104u8, 56u8] || lower == seq![99u8, 56u8, 107u8]
}

fn to_lower(b: u8) -> (l: u8)
    ensures
        l == ascii_lower(b),
{
    if 65 <= b && b <= 90 {
        b + 32
    } else {
        b
    }
}

/// Whether a directory entry is taken for a program: it must be a file, and
/// its extension, when it has one that is valid UTF-8, must be `ch8` or
/// `c8k` in any ASCII case. A file without such an extension is taken.
pub fn is_game_file(is_file: bool, extension: Option<&str>) -> (taken: bool)
    ensures
        taken == (is_file && match extension {
            Some(ext) => is_game_extension(ext.spec_bytes()),
            None => true,
        }),
{
    if !is_file {
        return false;
    }
    match extension {
        Some(ext) => {
            let bytes: &[u8] = ext.as_bytes();
            if bytes.len() != 3 {
                proof {
                    let lower = ext.spec_bytes().map_values(|b: u8| ascii_lower(b));
                    assert(lower.len() != 3);
                    assert(lower != seq![99u8, 104u8, 56u8]);
                    assert(lower != seq![99u8, 56u8, 107u8]);
                }
                return false;
            }
            let first: u8 = to_lower(bytes[0]);
            let second: u8 = to_lower(bytes[1]);
            let third: u8 = to_lower(bytes[2]);
            let ghost lower = ext.spec_bytes().map_values(|b: u8| ascii_lower(b));
            assert(lower.len() == 3);
            assert(lower[0] == first && lower[1] == second && lower[2] == third);
            let taken: bool = first == 99 && ((second == 104 && third == 56) || (second == 56
                && third == 107));
            assert(taken == (lower =~= seq![99u8, 104u8, 56u8] || lower =~= seq![99u8, 56u8, 107u8]));
            taken
        },
        None => true,
    }
}

} // verus!
