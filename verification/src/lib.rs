//! Core logic of the butter 2D game engine: the scene tree and its
//! generational node storage, keyboard input tracking, key names and
//! codes, textures and the asset registry, integer matrices, engine
//! versions and project settings.
use vstd::prelude::*;

pub mod asset_manager;
pub mod engine;
pub mod event_manager;
pub mod genmap;
pub mod input_manager;
pub mod math;
pub mod scene_manager;
pub mod settings;

verus! {

/// Converts a size to an `i32` for the windowing and graphics back ends,
/// clamping values that do not fit to `i32::MAX`.
pub fn clamp_to_i32(name: &str, val: usize) -> (res: i32)
    ensures
        val <= i32::MAX ==> res == val,
        val > i32::MAX ==> res == i32::MAX,
{
    if val <= 2147483647usize {
        val as i32
    } else {
        i32::MAX
    }
}

/// `s` with each NUL character replaced by the two characters `\0`.
pub open spec fn escape_nul_spec(s: Seq<char>) -> Seq<char>
    decreases s.len(),
{
    if s.len() == 0 {
        Seq::empty()
    } else {
        escape_nul_spec(s.drop_last()) + if s.last() == '\0' {
            seq!['\\', '0']
        } else {
            seq![s.last()]
        }
    }
}

/// Text that can be handed to C: `val` with each NUL character replaced by
/// the two characters `\0`, so that the result holds no NUL.
pub fn escape_nul(val: &str) -> (res: String)
    ensures
        res@ == escape_nul_spec(val@),
        !res@.contains('\0'),
{
    let n = val.unicode_len();
    let mut out = String::new();
    let mut i: usize = 0;
    proof {
        reveal_strlit("\\0");
        assert(val@.subrange(0, 0) =~= Seq::<char>::empty());
    }
    while i < n
        invariant
            n == val@.len(),
            i <= n,
            out@ == escape_nul_spec(val@.subrange(0, i as int)),
            !out@.contains('\0'),
            "\\0"@ == seq!['\\', '0'],
        decreases n - i,
    {
        let c = val.get_char(i);
        let ghost before = out@;
        let piece = if c == '\0' {
            "\\0"
        } else {
            val.substring_char(i, i + 1)
        };
        assert(piece@ =~= (if c == '\0' {
            seq!['\\', '0']
        } else {
            seq![c]
        }));
        out.append(piece);
        assert(val@.subrange(0, i + 1).drop_last() =~= val@.subrange(0, i as int));
        assert(!out@.contains('\0')) by {
            if out@.contains('\0') {
                let k = choose|k: int| 0 <= k < out@.len() && out@[k] == '\0';
                if k < before.len() {
                    assert(before[k] == '\0');
                } else {
                    assert(piece@[k - before.len()] == '\0');
                }
            }
        }
        i = i + 1;
    }
    assert(val@.subrange(0, n as int) =~= val@);
    out
}

} // verus!
