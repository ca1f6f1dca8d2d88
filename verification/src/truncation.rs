//! Cutting a buffer short: a decode that succeeds on a buffer fails with
//! `Truncated`, and with nothing else, on every buffer that ends inside what
//! the decode read.

use vstd::prelude::*;

use crate::binary32::Binary32;
use crate::de::{
    before, read_de, read_limits, read_many_u32, read_marker, read_modes, read_player,
    read_players, read_preamble, read_rules, read_scenario, read_skip, read_toggles, read_trailer,
    since, slot_count, spec_mgz_de, spec_mgz_de_player, sync_marker, V13_34, V25_06, V25_22,
    V26_16, V50, V61_5,
};
use crate::error::ErrorKind;
use crate::primitives::{
    le16, lemma_zero_free_prefix, read_binary32, read_blob, read_blob_if, read_byte, read_flag,
    read_flag_if, read_i32, read_text, read_u32, read_u32_if, zero_free_prefix, Cursor,
};
use crate::{read_cstring, spec_compute_save_version, spec_mgz_compressed_header, MINUS_ONE};

verus! {

/// `cut` is where the decode of a buffer stands that lacks the last `lost`
/// bytes of the buffer whose decode stands at `whole`: in front of the same
/// bytes but for the lost ones, or failed for want of bytes. Of a decode of
/// the whole buffer that has failed nothing is said.
pub open spec fn cut_of(whole: Cursor, cut: Cursor, lost: nat) -> bool {
    match whole {
        Err(_) => true,
        Ok(t) => match cut {
            Ok(u) => lost <= t.len() && u == t.take(t.len() - lost),
            Err(e) => e.kind == ErrorKind::Truncated && !e.inflated,
        },
    }
}

/// The longest prefix without a zero byte holds no zero byte, and ends at
/// one or at the end of the buffer.
pub proof fn lemma_zero_free_prefix_ends(s: Seq<u8>)
    ensures
        zero_free_prefix(s) <= s.len(),
        forall|j: int| 0 <= j < zero_free_prefix(s) ==> s[j] != 0,
        zero_free_prefix(s) < s.len() ==> s[zero_free_prefix(s) as int] == 0,
    decreases s.len(),
{
    if s.len() > 0 && s[0] != 0 {
        lemma_zero_free_prefix_ends(s.skip(1));
        let n = zero_free_prefix(s.skip(1));
        assert forall|j: int| 0 <= j < n + 1 implies s[j] != 0 by {
            if j > 0 {
                assert(s.skip(1)[j - 1] == s[j]);
            }
        }
        if n < s.skip(1).len() {
            assert(s.skip(1)[n as int] == s[n as int + 1]);
        }
    }
}

/// A step over one byte keeps a cut decode in step with the whole one.
pub proof fn lemma_cut_byte(whole: Cursor, cut: Cursor, lost: nat)
    requires
        cut_of(whole, cut, lost),
    ensures
        cut_of(read_byte(whole).0, read_byte(cut).0, lost),
{
    if whole is Ok && cut is Ok {
        let t = whole->Ok_0;
        let u = cut->Ok_0;
        if u.len() >= 1 {
            assert(u[0] == t[0]);
            assert(u.skip(1) =~= t.skip(1).take(t.skip(1).len() - lost));
        }
    }
}

/// A step over an unsigned 32-bit number keeps a cut decode in step with the whole one, and reads the same value where both go on.
pub proof fn lemma_cut_u32(whole: Cursor, cut: Cursor, lost: nat)
    requires
        cut_of(whole, cut, lost),
    ensures
        cut_of(read_u32(whole).0, read_u32(cut).0, lost),
        read_u32(whole).0 is Ok && read_u32(cut).0 is Ok ==> read_u32(whole).1 == read_u32(cut).1,
{
    if whole is Ok && cut is Ok {
        let t = whole->Ok_0;
        let u = cut->Ok_0;
        if u.len() >= 4 {
            assert(u[0] == t[0] && u[1] == t[1] && u[2] == t[2] && u[3] == t[3]);
            assert(u.skip(4) =~= t.skip(4).take(t.skip(4).len() - lost));
        }
    }
}

/// A step over a signed 32-bit number keeps a cut decode in step with the whole one.
pub proof fn lemma_cut_i32(whole: Cursor, cut: Cursor, lost: nat)
    requires
        cut_of(whole, cut, lost),
    ensures
        cut_of(read_i32(whole).0, read_i32(cut).0, lost),
{
    if whole is Ok && cut is Ok {
        let t = whole->Ok_0;
        let u = cut->Ok_0;
        if u.len() >= 4 {
            assert(u[0] == t[0] && u[1] == t[1] && u[2] == t[2] && u[3] == t[3]);
            assert(u.skip(4) =~= t.skip(4).take(t.skip(4).len() - lost));
        }
    }
}

/// A step over a single-precision number keeps a cut decode in step with the whole one, and reads the same value where both go on.
pub proof fn lemma_cut_binary32(whole: Cursor, cut: Cursor, lost: nat)
    requires
        cut_of(whole, cut, lost),
    ensures
        cut_of(read_binary32(whole).0, read_binary32(cut).0, lost),
        read_binary32(whole).0 is Ok && read_binary32(cut).0 is Ok ==> read_binary32(whole).1 == read_binary32(cut).1,
{
    if whole is Ok && cut is Ok {
        let t = whole->Ok_0;
        let u = cut->Ok_0;
        if u.len() >= 4 {
            assert(u[0] == t[0] && u[1] == t[1] && u[2] == t[2] && u[3] == t[3]);
            assert(u.skip(4) =~= t.skip(4).take(t.skip(4).len() - lost));
        }
    }
}

/// A step over a boolean keeps a cut decode in step with the whole one.
pub proof fn lemma_cut_flag(whole: Cursor, cut: Cursor, lost: nat)
    requires
        cut_of(whole, cut, lost),
    ensures
        cut_of(read_flag(whole).0, read_flag(cut).0, lost),
{
    if whole is Ok && cut is Ok {
        let t = whole->Ok_0;
        let u = cut->Ok_0;
        if u.len() >= 1 {
            assert(u[0] == t[0]);
            assert(u.skip(1) =~= t.skip(1).take(t.skip(1).len() - lost));
        }
    }
}

/// A step over a block of bytes keeps a cut decode in step with the whole one.
pub proof fn lemma_cut_blob(whole: Cursor, cut: Cursor, lost: nat, n: nat)
    requires
        cut_of(whole, cut, lost),
    ensures
        cut_of(read_blob(whole, n).0, read_blob(cut, n).0, lost),
{
    if whole is Ok && cut is Ok {
        let t = whole->Ok_0;
        let u = cut->Ok_0;
        if u.len() >= n {
            assert(u.take(n as int) =~= t.take(n as int));
            assert(u.skip(n as int) =~= t.skip(n as int).take(t.skip(n as int).len() - lost));
        }
    }
}

/// A step over a marked text token keeps a cut decode in step with the whole one.
pub proof fn lemma_cut_text(whole: Cursor, cut: Cursor, lost: nat)
    requires
        cut_of(whole, cut, lost),
    ensures
        cut_of(read_text(whole).0, read_text(cut).0, lost),
{
    if whole is Ok && cut is Ok {
        let t = whole->Ok_0;
        let u = cut->Ok_0;
        if u.len() >= 2 {
            assert(u[0] == t[0] && u[1] == t[1]);
        }
        if u.len() >= 4 {
            assert(u.skip(2)[0] == t.skip(2)[0] && u.skip(2)[1] == t.skip(2)[1]);
            let n = le16(t.skip(2)) as int;
            if u.len() >= 4 + n {
                assert(u.subrange(4, 4 + n) =~= t.subrange(4, 4 + n));
                assert(u.skip(4 + n) =~= t.skip(4 + n).take(t.skip(4 + n).len() - lost));
            }
        }
    }
}

/// A step over an optional unsigned 32-bit number keeps a cut decode in step with the whole one, and reads the same value where both go on.
pub proof fn lemma_cut_u32_if(whole: Cursor, cut: Cursor, lost: nat, present: bool)
    requires
        cut_of(whole, cut, lost),
    ensures
        cut_of(read_u32_if(whole, present).0, read_u32_if(cut, present).0, lost),
        read_u32_if(whole, present).0 is Ok && read_u32_if(cut, present).0 is Ok ==> read_u32_if(whole, present).1 == read_u32_if(cut, present).1,
{
    if whole is Ok && cut is Ok {
        let t = whole->Ok_0;
        let u = cut->Ok_0;
        if present && u.len() >= 4 {
            assert(u[0] == t[0] && u[1] == t[1] && u[2] == t[2] && u[3] == t[3]);
            assert(u.skip(4) =~= t.skip(4).take(t.skip(4).len() - lost));
        }
    }
}

/// A step over an optional boolean keeps a cut decode in step with the whole one.
pub proof fn lemma_cut_flag_if(whole: Cursor, cut: Cursor, lost: nat, present: bool)
    requires
        cut_of(whole, cut, lost),
    ensures
        cut_of(read_flag_if(whole, present).0, read_flag_if(cut, present).0, lost),
{
    if whole is Ok && cut is Ok {
        let t = whole->Ok_0;
        let u = cut->Ok_0;
        if present && u.len() >= 1 {
            assert(u[0] == t[0]);
            assert(u.skip(1) =~= t.skip(1).take(t.skip(1).len() - lost));
        }
    }
}

/// A step over an optional block of bytes keeps a cut decode in step with the whole one.
pub proof fn lemma_cut_blob_if(whole: Cursor, cut: Cursor, lost: nat, n: nat, present: bool)
    requires
        cut_of(whole, cut, lost),
    ensures
        cut_of(read_blob_if(whole, n, present).0, read_blob_if(cut, n, present).0, lost),
{
    if whole is Ok && cut is Ok {
        let t = whole->Ok_0;
        let u = cut->Ok_0;
        if present && u.len() >= n {
            assert(u.take(n as int) =~= t.take(n as int));
            assert(u.skip(n as int) =~= t.skip(n as int).take(t.skip(n as int).len() - lost));
        }
    }
}

/// A step over a sync marker keeps a cut decode in step with the whole one.
pub proof fn lemma_cut_marker(whole: Cursor, cut: Cursor, lost: nat)
    requires
        cut_of(whole, cut, lost),
    ensures
        cut_of((read_marker(whole), ()).0, (read_marker(cut), ()).0, lost),
{
    if whole is Ok && cut is Ok {
        let t = whole->Ok_0;
        let u = cut->Ok_0;
        if u.len() >= 4 {
            assert(sync_marker().len() == 4);
            assert(u.take(4) =~= t.take(4));
            assert(u.skip(4) =~= t.skip(4).take(t.skip(4).len() - lost));
        }
    }
}

/// A step over a text token that ends at a zero byte keeps a cut decode in step with the whole one.
pub proof fn lemma_cut_cstring(whole: Cursor, cut: Cursor, lost: nat)
    requires
        cut_of(whole, cut, lost),
    ensures
        cut_of(read_cstring(whole).0, read_cstring(cut).0, lost),
{
    if whole is Ok && cut is Ok {
        let t = whole->Ok_0;
        let u = cut->Ok_0;
        lemma_zero_free_prefix_ends(t);
        let n = zero_free_prefix(t) as int;
        if n < t.len() {
            if u.len() > n {
                lemma_zero_free_prefix(u, n);
                assert(u.take(n) =~= t.take(n));
                assert(u.skip(n + 1) =~= t.skip(n + 1).take(t.skip(n + 1).len() - lost));
            } else {
                lemma_zero_free_prefix(u, u.len() as int);
            }
        }
    }
}

/// A step over a player record keeps a cut decode in step with the whole one.
pub proof fn lemma_cut_player(whole: Cursor, cut: Cursor, v: Binary32, lost: nat)
    requires
        cut_of(whole, cut, lost),
    ensures
        cut_of(read_player(whole, v).0, read_player(cut, v).0, lost),
{
    let c0 = whole;
    let d0 = cut;
    lemma_cut_u32(c0, d0, lost);
    let c1 = read_u32(c0).0;
    let d1 = read_u32(d0).0;
    lemma_cut_i32(c1, d1, lost);
    let c2 = read_i32(c1).0;
    let d2 = read_i32(d1).0;
    lemma_cut_byte(c2, d2, lost);
    let c3 = read_byte(c2).0;
    let d3 = read_byte(d2).0;
    lemma_cut_byte(c3, d3, lost);
    let c4 = read_byte(c3).0;
    let d4 = read_byte(d3).0;
    lemma_cut_byte(c4, d4, lost);
    let c5 = read_byte(c4).0;
    let d5 = read_byte(d4).0;
    lemma_cut_blob(c5, d5, lost, 8);
    let c6 = read_blob(c5, 8).0;
    let d6 = read_blob(d5, 8).0;
    lemma_cut_byte(c6, d6, lost);
    let c7 = read_byte(c6).0;
    let d7 = read_byte(d6).0;
    lemma_cut_u32(c7, d7, lost);
    let c8 = read_u32(c7).0;
    let d8 = read_u32(d7).0;
    lemma_cut_u32_if(c8, d8, lost, since(v, V61_5));
    let c9 = read_u32_if(c8, since(v, V61_5)).0;
    let d9 = read_u32_if(d8, since(v, V61_5)).0;
    lemma_cut_text(c9, d9, lost);
    let c10 = read_text(c9).0;
    let d10 = read_text(d9).0;
    lemma_cut_byte(c10, d10, lost);
    let c11 = read_byte(c10).0;
    let d11 = read_byte(d10).0;
    lemma_cut_text(c11, d11, lost);
    let c12 = read_text(c11).0;
    let d12 = read_text(d11).0;
    lemma_cut_text(c12, d12, lost);
    let c13 = read_text(c12).0;
    let d13 = read_text(d12).0;
    lemma_cut_u32(c13, d13, lost);
    let c14 = read_u32(c13).0;
    let d14 = read_u32(d13).0;
    lemma_cut_u32(c14, d14, lost);
    let c15 = read_u32(c14).0;
    let d15 = read_u32(d14).0;
    lemma_cut_u32(c15, d15, lost);
    let c16 = read_u32(c15).0;
    let d16 = read_u32(d15).0;
    lemma_cut_i32(c16, d16, lost);
    let c17 = read_i32(c16).0;
    let d17 = read_i32(d16).0;
    lemma_cut_u32_if(c17, d17, lost, before(v, V25_22));
    let c18 = read_u32_if(c17, before(v, V25_22)).0;
    let d18 = read_u32_if(d17, before(v, V25_22)).0;
    lemma_cut_u32_if(c18, d18, lost, before(v, V25_22));
    let c19 = read_u32_if(c18, before(v, V25_22)).0;
    let d19 = read_u32_if(d18, before(v, V25_22)).0;
    lemma_cut_flag(c19, d19, lost);
    let c20 = read_flag(c19).0;
    let d20 = read_flag(d19).0;
    lemma_cut_flag(c20, d20, lost);
    let c21 = read_flag(c20).0;
    let d21 = read_flag(d20).0;
    lemma_cut_blob_if(c21, d21, lost, 8, since(v, V25_06));
    let c22 = read_blob_if(c21, 8, since(v, V25_06)).0;
    let d22 = read_blob_if(d21, 8, since(v, V25_06)).0;
}

/// A step over the preamble keeps a cut decode in step with the whole one, and reads the same number of DLC identifiers where both go on.
pub proof fn lemma_cut_preamble(whole: Cursor, cut: Cursor, v: Binary32, lost: nat)
    requires
        cut_of(whole, cut, lost),
    ensures
        cut_of(read_preamble(whole, v).0, read_preamble(cut, v).0, lost),
        read_preamble(whole, v).0 is Ok && read_preamble(cut, v).0 is Ok ==> read_preamble(whole, v).1.dlc_count
            == read_preamble(cut, v).1.dlc_count,
{
    let c0 = whole;
    let d0 = cut;
    lemma_cut_u32_if(c0, d0, lost, since(v, V25_22));
    let c1 = read_u32_if(c0, since(v, V25_22)).0;
    let d1 = read_u32_if(d0, since(v, V25_22)).0;
    lemma_cut_u32_if(c1, d1, lost, since(v, V26_16));
    let c2 = read_u32_if(c1, since(v, V26_16)).0;
    let d2 = read_u32_if(d1, since(v, V26_16)).0;
    lemma_cut_binary32(c2, d2, lost);
    let c3 = read_binary32(c2).0;
    let d3 = read_binary32(d2).0;
    lemma_cut_u32(c3, d3, lost);
    let c4 = read_u32(c3).0;
    let d4 = read_u32(d3).0;
    lemma_cut_u32(c4, d4, lost);
    let c5 = read_u32(c4).0;
    let d5 = read_u32(d4).0;
    lemma_cut_u32(c5, d5, lost);
    let c6 = read_u32(c5).0;
    let d6 = read_u32(d5).0;
}

/// A step over the scenario keeps a cut decode in step with the whole one.
pub proof fn lemma_cut_scenario(whole: Cursor, cut: Cursor, v: Binary32, lost: nat)
    requires
        cut_of(whole, cut, lost),
    ensures
        cut_of(read_scenario(whole, v).0, read_scenario(cut, v).0, lost),
{
    let c0 = whole;
    let d0 = cut;
    lemma_cut_u32(c0, d0, lost);
    let c1 = read_u32(c0).0;
    let d1 = read_u32(d0).0;
    lemma_cut_u32(c1, d1, lost);
    let c2 = read_u32(c1).0;
    let d2 = read_u32(d1).0;
    lemma_cut_u32(c2, d2, lost);
    let c3 = read_u32(c2).0;
    let d3 = read_u32(d2).0;
    lemma_cut_u32(c3, d3, lost);
    let c4 = read_u32(c3).0;
    let d4 = read_u32(d3).0;
    lemma_cut_u32(c4, d4, lost);
    let c5 = read_u32(c4).0;
    let d5 = read_u32(d4).0;
    lemma_cut_u32(c5, d5, lost);
    let c6 = read_u32(c5).0;
    let d6 = read_u32(d5).0;
    lemma_cut_u32(c6, d6, lost);
    let c7 = read_u32(c6).0;
    let d7 = read_u32(d6).0;
    lemma_cut_u32(c7, d7, lost);
    let c8 = read_u32(c7).0;
    let d8 = read_u32(d7).0;
    lemma_cut_u32(c8, d8, lost);
    let c9 = read_u32(c8).0;
    let d9 = read_u32(d8).0;
    lemma_cut_u32(c9, d9, lost);
    let c10 = read_u32(c9).0;
    let d10 = read_u32(d9).0;
    lemma_cut_marker(c10, d10, lost);
    let c11 = read_marker(c10);
    let d11 = read_marker(d10);
    lemma_cut_marker(c11, d11, lost);
    let c12 = read_marker(c11);
    let d12 = read_marker(d11);
}

/// A step over the limits keeps a cut decode in step with the whole one, and reads the same number of players where both go on.
pub proof fn lemma_cut_limits(whole: Cursor, cut: Cursor, v: Binary32, lost: nat)
    requires
        cut_of(whole, cut, lost),
    ensures
        cut_of(read_limits(whole, v).0, read_limits(cut, v).0, lost),
        read_limits(whole, v).0 is Ok && read_limits(cut, v).0 is Ok ==> read_limits(whole, v).1.num_players
            == read_limits(cut, v).1.num_players,
{
    let c0 = whole;
    let d0 = cut;
    lemma_cut_binary32(c0, d0, lost);
    let c1 = read_binary32(c0).0;
    let d1 = read_binary32(d0).0;
    lemma_cut_u32(c1, d1, lost);
    let c2 = read_u32(c1).0;
    let d2 = read_u32(d1).0;
    lemma_cut_u32(c2, d2, lost);
    let c3 = read_u32(c2).0;
    let d3 = read_u32(d2).0;
    lemma_cut_u32(c3, d3, lost);
    let c4 = read_u32(c3).0;
    let d4 = read_u32(d3).0;
    lemma_cut_u32(c4, d4, lost);
    let c5 = read_u32(c4).0;
    let d5 = read_u32(d4).0;
    lemma_cut_i32(c5, d5, lost);
    let c6 = read_i32(c5).0;
    let d6 = read_i32(d5).0;
    lemma_cut_flag_if(c6, d6, lost, since(v, V61_5));
    let c7 = read_flag_if(c6, since(v, V61_5)).0;
    let d7 = read_flag_if(d6, since(v, V61_5)).0;
    lemma_cut_marker(c7, d7, lost);
    let c8 = read_marker(c7);
    let d8 = read_marker(d7);
}

/// A step over the rules keeps a cut decode in step with the whole one.
pub proof fn lemma_cut_rules(whole: Cursor, cut: Cursor, v: Binary32, lost: nat)
    requires
        cut_of(whole, cut, lost),
    ensures
        cut_of(read_rules(whole, v).0, read_rules(cut, v).0, lost),
{
    let c0 = whole;
    let d0 = cut;
    lemma_cut_flag(c0, d0, lost);
    let c1 = read_flag(c0).0;
    let d1 = read_flag(d0).0;
    lemma_cut_flag(c1, d1, lost);
    let c2 = read_flag(c1).0;
    let d2 = read_flag(d1).0;
    lemma_cut_flag(c2, d2, lost);
    let c3 = read_flag(c2).0;
    let d3 = read_flag(d2).0;
    lemma_cut_flag(c3, d3, lost);
    let c4 = read_flag(c3).0;
    let d4 = read_flag(d3).0;
    lemma_cut_byte(c4, d4, lost);
    let c5 = read_byte(c4).0;
    let d5 = read_byte(d4).0;
    lemma_cut_flag(c5, d5, lost);
    let c6 = read_flag(c5).0;
    let d6 = read_flag(d5).0;
    lemma_cut_flag(c6, d6, lost);
    let c7 = read_flag(c6).0;
    let d7 = read_flag(d6).0;
    lemma_cut_flag(c7, d7, lost);
    let c8 = read_flag(c7).0;
    let d8 = read_flag(d7).0;
}

/// A step over the switches keeps a cut decode in step with the whole one.
pub proof fn lemma_cut_toggles(whole: Cursor, cut: Cursor, v: Binary32, lost: nat)
    requires
        cut_of(whole, cut, lost),
    ensures
        cut_of(read_toggles(whole, v).0, read_toggles(cut, v).0, lost),
{
    let c0 = whole;
    let d0 = cut;
    lemma_cut_flag(c0, d0, lost);
    let c1 = read_flag(c0).0;
    let d1 = read_flag(d0).0;
    lemma_cut_flag(c1, d1, lost);
    let c2 = read_flag(c1).0;
    let d2 = read_flag(d1).0;
    lemma_cut_flag(c2, d2, lost);
    let c3 = read_flag(c2).0;
    let d3 = read_flag(d2).0;
    lemma_cut_flag(c3, d3, lost);
    let c4 = read_flag(c3).0;
    let d4 = read_flag(d3).0;
    lemma_cut_flag(c4, d4, lost);
    let c5 = read_flag(c4).0;
    let d5 = read_flag(d4).0;
    lemma_cut_flag(c5, d5, lost);
    let c6 = read_flag(c5).0;
    let d6 = read_flag(d5).0;
    lemma_cut_flag(c6, d6, lost);
    let c7 = read_flag(c6).0;
    let d7 = read_flag(d6).0;
}

/// A step over the modes keeps a cut decode in step with the whole one.
pub proof fn lemma_cut_modes(whole: Cursor, cut: Cursor, v: Binary32, lost: nat)
    requires
        cut_of(whole, cut, lost),
    ensures
        cut_of(read_modes(whole, v).0, read_modes(cut, v).0, lost),
{
    let c0 = whole;
    let d0 = cut;
    lemma_cut_u32_if(c0, d0, lost, since(v, V13_34));
    let c1 = read_u32_if(c0, since(v, V13_34)).0;
    let d1 = read_u32_if(d0, since(v, V13_34)).0;
    lemma_cut_u32_if(c1, d1, lost, since(v, V13_34));
    let c2 = read_u32_if(c1, since(v, V13_34)).0;
    let d2 = read_u32_if(d1, since(v, V13_34)).0;
    lemma_cut_flag_if(c2, d2, lost, since(v, V25_06));
    let c3 = read_flag_if(c2, since(v, V25_06)).0;
    let d3 = read_flag_if(d2, since(v, V25_06)).0;
    lemma_cut_flag_if(c3, d3, lost, since(v, V50));
    let c4 = read_flag_if(c3, since(v, V50)).0;
    let d4 = read_flag_if(d3, since(v, V50)).0;
    lemma_cut_marker(c4, d4, lost);
    let c5 = read_marker(c4);
    let d5 = read_marker(d4);
}

/// A step over the trailer keeps a cut decode in step with the whole one.
pub proof fn lemma_cut_trailer(whole: Cursor, cut: Cursor, v: Binary32, lost: nat)
    requires
        cut_of(whole, cut, lost),
    ensures
        cut_of(read_trailer(whole, v).0, read_trailer(cut, v).0, lost),
{
    let c0 = whole;
    let d0 = cut;
    lemma_cut_blob(c0, d0, lost, 9);
    let c1 = read_skip(c0, 9);
    let d1 = read_skip(d0, 9);
    lemma_cut_byte(c1, d1, lost);
    let c2 = read_byte(c1).0;
    let d2 = read_byte(d1).0;
    lemma_cut_flag(c2, d2, lost);
    let c3 = read_flag(c2).0;
    let d3 = read_flag(d2).0;
    lemma_cut_flag(c3, d3, lost);
    let c4 = read_flag(c3).0;
    let d4 = read_flag(d3).0;
}

/// A step over a list of numbers keeps a cut decode in step with the whole
/// one, where both are asked for as many numbers while they go on.
pub proof fn lemma_cut_many_u32(whole: Cursor, cut: Cursor, lost: nat, n: nat, m: nat)
    requires
        cut_of(whole, cut, lost),
        whole is Ok && cut is Ok ==> n == m,
    ensures
        cut_of(read_many_u32(whole, n).0, read_many_u32(cut, m).0, lost),
    decreases n,
{
    if whole is Ok && cut is Ok && n > 0 {
        lemma_cut_many_u32(whole, cut, lost, (n - 1) as nat, (n - 1) as nat);
        lemma_cut_u32(
            read_many_u32(whole, (n - 1) as nat).0,
            read_many_u32(cut, (n - 1) as nat).0,
            lost,
        );
    }
}

/// A step over a list of player records keeps a cut decode in step with the
/// whole one, where both are asked for as many records while they go on.
pub proof fn lemma_cut_players(
    whole: Cursor,
    cut: Cursor,
    v: Binary32,
    lost: nat,
    n: nat,
    m: nat,
)
    requires
        cut_of(whole, cut, lost),
        whole is Ok && cut is Ok ==> n == m,
    ensures
        cut_of(read_players(whole, v, n).0, read_players(cut, v, m).0, lost),
    decreases n,
{
    if whole is Ok && cut is Ok && n > 0 {
        lemma_cut_players(whole, cut, v, lost, (n - 1) as nat, (n - 1) as nat);
        lemma_cut_player(
            read_players(whole, v, (n - 1) as nat).0,
            read_players(cut, v, (n - 1) as nat).0,
            v,
            lost,
        );
    }
}

/// A step over a whole record keeps a cut decode in step with the whole one.
pub proof fn lemma_cut_de(whole: Cursor, cut: Cursor, v: Binary32, lost: nat)
    requires
        cut_of(whole, cut, lost),
    ensures
        cut_of(read_de(whole, v).0, read_de(cut, v).0, lost),
{
    lemma_cut_preamble(whole, cut, v, lost);
    let (c1, whole_preamble) = read_preamble(whole, v);
    let (d1, cut_preamble) = read_preamble(cut, v);
    lemma_cut_many_u32(
        c1,
        d1,
        lost,
        whole_preamble.dlc_count as nat,
        cut_preamble.dlc_count as nat,
    );
    let c2 = read_many_u32(c1, whole_preamble.dlc_count as nat).0;
    let d2 = read_many_u32(d1, cut_preamble.dlc_count as nat).0;
    lemma_cut_scenario(c2, d2, v, lost);
    let c3 = read_scenario(c2, v).0;
    let d3 = read_scenario(d2, v).0;
    lemma_cut_limits(c3, d3, v, lost);
    let (c4, whole_limits) = read_limits(c3, v);
    let (d4, cut_limits) = read_limits(d3, v);
    lemma_cut_rules(c4, d4, v, lost);
    let c5 = read_rules(c4, v).0;
    let d5 = read_rules(d4, v).0;
    lemma_cut_toggles(c5, d5, v, lost);
    let c6 = read_toggles(c5, v).0;
    let d6 = read_toggles(d5, v).0;
    lemma_cut_modes(c6, d6, v, lost);
    let c7 = read_modes(c6, v).0;
    let d7 = read_modes(d6, v).0;
    let n = slot_count(v, whole_limits.num_players) as nat;
    let m = slot_count(v, cut_limits.num_players) as nat;
    if c4 is Err {
        assert(c5 is Err);
        assert(c6 is Err);
        assert(c7 is Err);
    }
    if d4 is Err {
        assert(d5 is Err);
        assert(d6 is Err);
        assert(d7 is Err);
    }
    lemma_cut_players(c7, d7, v, lost, n, m);
    let c8 = read_players(c7, v, n).0;
    let d8 = read_players(d7, v, m).0;
    lemma_cut_trailer(c8, d8, v, lost);
}

/// A record that is cut off inside what its decode read decodes to
/// `Truncated`, wherever it is cut.
pub proof fn lemma_record_cut_short(s: Seq<u8>, v: Binary32, k: int)
    requires
        spec_mgz_de(s, v) is Ok,
        0 <= k < s.len() - spec_mgz_de(s, v)->Ok_0.0.len(),
    ensures
        spec_mgz_de(s.take(k), v) is Err,
        spec_mgz_de(s.take(k), v)->Err_0.kind == ErrorKind::Truncated,
{
    lemma_cut_de(Ok(s), Ok(s.take(k)), v, (s.len() - k) as nat);
}

/// A decode that has failed steps over a record without a change.
pub proof fn lemma_de_stays_failed(c: Cursor, v: Binary32)
    requires
        c is Err,
    ensures
        read_de(c, v).0 == c,
{
    let c1 = read_preamble(c, v).0;
    assert(c1 == c);
    let c3 = read_scenario(c1, v).0;
    assert(c3 == c);
    let c4 = read_limits(c3, v).0;
    assert(c4 == c);
    let c5 = read_rules(c4, v).0;
    assert(c5 == c);
    let c6 = read_toggles(c5, v).0;
    assert(c6 == c);
    let c7 = read_modes(c6, v).0;
    assert(c7 == c);
    assert(read_trailer(c7, v).0 == c);
}

/// An inflated header that is cut off inside what its decode read decodes
/// to `Truncated`, wherever it is cut.
pub proof fn lemma_header_cut_short(s: Seq<u8>, k: int)
    requires
        spec_mgz_compressed_header(s) is Ok,
        0 <= k < s.len() - spec_mgz_compressed_header(s)->Ok_0.0.len(),
    ensures
        spec_mgz_compressed_header(s.take(k)) is Err,
        spec_mgz_compressed_header(s.take(k))->Err_0.kind == ErrorKind::Truncated,
{
    reveal(spec_mgz_compressed_header);
    let lost = (s.len() - k) as nat;
    let c0: Cursor = Ok(s);
    let d0: Cursor = Ok(s.take(k));
    let c1 = read_cstring(c0).0;
    let d1 = read_cstring(d0).0;
    let (c2, whole_old) = read_binary32(c1);
    let (d2, cut_old) = read_binary32(d1);
    let whole_present = whole_old.spec_same_number(Binary32 { bits: MINUS_ONE });
    let cut_present = cut_old.spec_same_number(Binary32 { bits: MINUS_ONE });
    let (c3, whole_new) = read_u32_if(c2, whole_present);
    let (d3, cut_new) = read_u32_if(d2, cut_present);
    let whole_version = spec_compute_save_version(whole_old, whole_new);
    let cut_version = spec_compute_save_version(cut_old, cut_new);
    let c4 = read_de(c3, whole_version).0;
    let d4 = read_de(d3, cut_version).0;
    assert(c4 is Ok);
    if c3 is Err {
        lemma_de_stays_failed(c3, whole_version);
    }
    assert(c3 is Ok);
    assert(c2 is Ok);
    assert(c1 is Ok);
    lemma_cut_cstring(c0, d0, lost);
    lemma_cut_binary32(c1, d1, lost);
    if d2 is Ok {
        lemma_cut_u32_if(c2, d2, lost, whole_present);
    }
    assert(cut_of(c3, d3, lost));
    if d3 is Ok {
        lemma_cut_de(c3, d3, whole_version, lost);
    } else {
        lemma_de_stays_failed(d3, cut_version);
    }
    assert(cut_of(c4, d4, lost));
}

/// A player record that is cut off inside what its decode read decodes to
/// `Truncated`, wherever it is cut.
pub proof fn lemma_player_cut_short(s: Seq<u8>, v: Binary32, k: int)
    requires
        spec_mgz_de_player(s, v) is Ok,
        0 <= k < s.len() - spec_mgz_de_player(s, v)->Ok_0.0.len(),
    ensures
        spec_mgz_de_player(s.take(k), v) is Err,
        spec_mgz_de_player(s.take(k), v)->Err_0.kind == ErrorKind::Truncated,
{
    lemma_cut_player(Ok(s), Ok(s.take(k)), v, (s.len() - k) as nat);
}

} // verus!
