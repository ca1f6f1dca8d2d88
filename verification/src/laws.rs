//! What holds of every decode, stated over the specifications that the
//! decoders are verified against.

use vstd::arithmetic::power2::lemma2_to64;
use vstd::prelude::*;

use crate::binary32::{is_nearest, lemma_is_nearest, Binary32, SIGN_BIT};
use crate::de::{
    before, read_limits, read_many_u32, read_modes, read_player, read_players, read_preamble,
    read_rules, read_scenario, read_toggles, read_trailer, since, slot_count, spec_mgz_de,
    spec_mgz_de_player, V13_34, V25_06, V25_22, V26_16, V37, V50, V61_5,
};
use crate::error::{failed, DecodeError, ErrorKind};
use crate::primitives::{
    le32, left, parsed_view, read_blob, read_blob_if, read_byte, read_flag, read_flag_if, read_i32,
    read_text, read_u32, read_u32_if, spec_flag, Cursor,
};
use crate::{spec_mgz_header, MgzReplay, MINUS_ONE};

verus! {

/// Decoding is a function of the bytes: two decodes of the same buffer fail
/// alike, or succeed with results that agree in every field and leave the
/// same bytes behind.
pub proof fn lemma_decode_deterministic(
    input: Seq<u8>,
    first: Result<(&[u8], MgzReplay), DecodeError>,
    second: Result<(&[u8], MgzReplay), DecodeError>,
)
    requires
        parsed_view(first, spec_mgz_header(input)),
        parsed_view(second, spec_mgz_header(input)),
    ensures
        first is Ok <==> second is Ok,
        first is Err ==> first->Err_0 == second->Err_0,
        first is Ok ==> first->Ok_0.0@ == second->Ok_0.0@ && first->Ok_0.1@ == second->Ok_0.1@,
{
}

/// A boolean byte that is neither 0 nor 1 is an error that names the byte
/// and its place; a boolean that was read says which of the two its byte
/// was.
pub proof fn lemma_flag_strict(s: Seq<u8>)
    requires
        s.len() >= 1,
    ensures
        s[0] > 1 ==> spec_flag(s) == Err::<(Seq<u8>, bool), DecodeError>(
            failed(ErrorKind::InvalidFlagValue(s[0]), s),
        ),
        spec_flag(s) matches Ok((_, value)) ==> s[0] <= 1 && value == (s[0] == 1),
{
}

/// The same of a boolean field inside a record, which is read where the
/// decode stands: a byte there that is neither 0 nor 1 ends the decode with
/// the error that names it, also where the field is present only in some
/// versions.
pub proof fn lemma_flag_field_strict(s: Seq<u8>, present: bool)
    requires
        s.len() >= 1,
        s[0] > 1,
    ensures
        read_flag(Ok(s)).0 == Err::<Seq<u8>, DecodeError>(
            failed(ErrorKind::InvalidFlagValue(s[0]), s),
        ),
        present ==> read_flag_if(Ok(s), present).0 == Err::<Seq<u8>, DecodeError>(
            failed(ErrorKind::InvalidFlagValue(s[0]), s),
        ),
        !present ==> read_flag_if(Ok(s), present).0 == Ok::<Seq<u8>, DecodeError>(s),
{
}

/// The first byte among the seven booleans of the rules that is neither 0
/// nor 1 ends the decode with the error that names it. The fifth byte of
/// this part is a number and free.
pub proof fn lemma_rules_strict(s: Seq<u8>, v: Binary32, i: int)
    requires
        s.len() >= 8,
        0 <= i < 8,
        i != 4,
        s[i] > 1,
        forall|j: int| 0 <= j < i && j != 4 ==> s[j] <= 1,
    ensures
        read_rules(Ok(s), v).0 == Err::<Seq<u8>, DecodeError>(
            failed(ErrorKind::InvalidFlagValue(s[i]), s.skip(i)),
        ),
{
    let c0: Cursor = Ok(s);
    let c1 = read_flag(c0).0;
    let c2 = read_flag(c1).0;
    let c3 = read_flag(c2).0;
    let c4 = read_flag(c3).0;
    let c5 = read_byte(c4).0;
    let c6 = read_flag(c5).0;
    let c7 = read_flag(c6).0;
    let c8 = read_flag(c7).0;
    assert(s.skip(0) =~= s);
    if i >= 1 {
        assert(s.skip(0).skip(1) =~= s.skip(1));
        assert(c1 == Ok::<Seq<u8>, DecodeError>(s.skip(1)));
    }
    if i >= 2 {
        assert(s.skip(1).skip(1) =~= s.skip(2));
        assert(c2 == Ok::<Seq<u8>, DecodeError>(s.skip(2)));
    }
    if i >= 3 {
        assert(s.skip(2).skip(1) =~= s.skip(3));
        assert(c3 == Ok::<Seq<u8>, DecodeError>(s.skip(3)));
    }
    if i >= 4 {
        assert(s.skip(3).skip(1) =~= s.skip(4));
        assert(c4 == Ok::<Seq<u8>, DecodeError>(s.skip(4)));
    }
    if i >= 5 {
        assert(s.skip(4).skip(1) =~= s.skip(5));
        assert(c5 == Ok::<Seq<u8>, DecodeError>(s.skip(5)));
    }
    if i >= 6 {
        assert(s.skip(5).skip(1) =~= s.skip(6));
        assert(c6 == Ok::<Seq<u8>, DecodeError>(s.skip(6)));
    }
    if i >= 7 {
        assert(s.skip(6).skip(1) =~= s.skip(7));
        assert(c7 == Ok::<Seq<u8>, DecodeError>(s.skip(7)));
    }
    if i == 0 {
        assert(c1 == Err::<Seq<u8>, DecodeError>(
            failed(ErrorKind::InvalidFlagValue(s[i]), s.skip(i)),
        ));
    }
    if i == 1 {
        assert(c2 == Err::<Seq<u8>, DecodeError>(
            failed(ErrorKind::InvalidFlagValue(s[i]), s.skip(i)),
        ));
    }
    if i == 2 {
        assert(c3 == Err::<Seq<u8>, DecodeError>(
            failed(ErrorKind::InvalidFlagValue(s[i]), s.skip(i)),
        ));
    }
    if i == 3 {
        assert(c4 == Err::<Seq<u8>, DecodeError>(
            failed(ErrorKind::InvalidFlagValue(s[i]), s.skip(i)),
        ));
    }
    if i == 5 {
        assert(c6 == Err::<Seq<u8>, DecodeError>(
            failed(ErrorKind::InvalidFlagValue(s[i]), s.skip(i)),
        ));
    }
    if i == 6 {
        assert(c7 == Err::<Seq<u8>, DecodeError>(
            failed(ErrorKind::InvalidFlagValue(s[i]), s.skip(i)),
        ));
    }
    if i == 7 {
        assert(c8 == Err::<Seq<u8>, DecodeError>(
            failed(ErrorKind::InvalidFlagValue(s[i]), s.skip(i)),
        ));
    }
}

/// The first byte among the seven switches that is neither 0 nor 1 ends the
/// decode with the error that names it and its place.
#[verifier::rlimit(40)]
pub proof fn lemma_toggles_strict(s: Seq<u8>, v: Binary32, i: int)
    requires
        s.len() >= 7,
        0 <= i < 7,
        s[i] > 1,
        forall|j: int| 0 <= j < i ==> s[j] <= 1,
    ensures
        read_toggles(Ok(s), v).0 == Err::<Seq<u8>, DecodeError>(
            failed(ErrorKind::InvalidFlagValue(s[i]), s.skip(i)),
        ),
{
    let c0: Cursor = Ok(s);
    let c1 = read_flag(c0).0;
    let c2 = read_flag(c1).0;
    let c3 = read_flag(c2).0;
    let c4 = read_flag(c3).0;
    let c5 = read_flag(c4).0;
    let c6 = read_flag(c5).0;
    let c7 = read_flag(c6).0;
    assert(s.skip(0) =~= s);
    if i >= 1 {
        assert(s.skip(0).skip(1) =~= s.skip(1));
        assert(c1 == Ok::<Seq<u8>, DecodeError>(s.skip(1)));
    }
    if i >= 2 {
        assert(s.skip(1).skip(1) =~= s.skip(2));
        assert(c2 == Ok::<Seq<u8>, DecodeError>(s.skip(2)));
    }
    if i >= 3 {
        assert(s.skip(2).skip(1) =~= s.skip(3));
        assert(c3 == Ok::<Seq<u8>, DecodeError>(s.skip(3)));
    }
    if i >= 4 {
        assert(s.skip(3).skip(1) =~= s.skip(4));
        assert(c4 == Ok::<Seq<u8>, DecodeError>(s.skip(4)));
    }
    if i >= 5 {
        assert(s.skip(4).skip(1) =~= s.skip(5));
        assert(c5 == Ok::<Seq<u8>, DecodeError>(s.skip(5)));
    }
    if i >= 6 {
        assert(s.skip(5).skip(1) =~= s.skip(6));
        assert(c6 == Ok::<Seq<u8>, DecodeError>(s.skip(6)));
    }
    assert(left(c0) == s);
    if i == 0 {
        assert(c1 == Err::<Seq<u8>, DecodeError>(
            failed(ErrorKind::InvalidFlagValue(s[i]), s.skip(i)),
        ));
    }
    if i == 1 {
        assert(c2 == Err::<Seq<u8>, DecodeError>(
            failed(ErrorKind::InvalidFlagValue(s[i]), s.skip(i)),
        ));
    }
    if i == 2 {
        assert(c3 == Err::<Seq<u8>, DecodeError>(
            failed(ErrorKind::InvalidFlagValue(s[i]), s.skip(i)),
        ));
    }
    if i == 3 {
        assert(c4 == Err::<Seq<u8>, DecodeError>(
            failed(ErrorKind::InvalidFlagValue(s[i]), s.skip(i)),
        ));
    }
    if i == 4 {
        assert(c5 == Err::<Seq<u8>, DecodeError>(
            failed(ErrorKind::InvalidFlagValue(s[i]), s.skip(i)),
        ));
    }
    if i == 5 {
        assert(c6 == Err::<Seq<u8>, DecodeError>(
            failed(ErrorKind::InvalidFlagValue(s[i]), s.skip(i)),
        ));
    }
    if i == 6 {
        assert(c7 == Err::<Seq<u8>, DecodeError>(
            failed(ErrorKind::InvalidFlagValue(s[i]), s.skip(i)),
        ));
    }
}

/// The two booleans that end the record stand behind nine unread bytes and
/// one number: the first of them that is neither 0 nor 1 ends the decode
/// with the error that names it.
pub proof fn lemma_trailer_strict(s: Seq<u8>, v: Binary32, i: int)
    requires
        s.len() >= 12,
        10 <= i < 12,
        s[i] > 1,
        i == 11 ==> s[10] <= 1,
    ensures
        read_trailer(Ok(s), v).0 == Err::<Seq<u8>, DecodeError>(
            failed(ErrorKind::InvalidFlagValue(s[i]), s.skip(i)),
        ),
{
}

/// A field that exists since a version is present at exactly that version
/// and absent at every lower one; a field that exists only before a version
/// is absent at exactly that version and present at every lower one.
pub proof fn lemma_gate_boundary(v: Binary32, threshold: u32)
    requires
        !(Binary32 { bits: threshold }).is_nan(),
    ensures
        since(Binary32 { bits: threshold }, threshold),
        !before(Binary32 { bits: threshold }, threshold),
        v.spec_lt(Binary32 { bits: threshold }) ==> !since(v, threshold) && before(v, threshold),
        v.spec_ge(Binary32 { bits: threshold }) ==> since(v, threshold) && !before(v, threshold),
{
}

/// The versions at which the layout changes are numbers, so that
/// `lemma_gate_boundary` holds of each of them.
pub proof fn lemma_thresholds_are_numbers()
    ensures
        !(Binary32 { bits: V13_34 }).is_nan(),
        !(Binary32 { bits: V25_06 }).is_nan(),
        !(Binary32 { bits: V25_22 }).is_nan(),
        !(Binary32 { bits: V26_16 }).is_nan(),
        !(Binary32 { bits: V37 }).is_nan(),
        !(Binary32 { bits: V50 }).is_nan(),
        !(Binary32 { bits: V61_5 }).is_nan(),
{
}

/// The versions at which the layout changes are the decimal numbers 13.34,
/// 25.06, 25.22, 26.16, 37, 50 and 61.5, rounded to single precision, and
/// the number that announces an integer version is -1.
pub proof fn lemma_threshold_values()
    ensures
        is_nearest(Binary32 { bits: V13_34 }, 1334, 100),
        is_nearest(Binary32 { bits: V25_06 }, 2506, 100),
        is_nearest(Binary32 { bits: V25_22 }, 2522, 100),
        is_nearest(Binary32 { bits: V26_16 }, 2616, 100),
        is_nearest(Binary32 { bits: V37 }, 37, 1),
        is_nearest(Binary32 { bits: V50 }, 50, 1),
        is_nearest(Binary32 { bits: V61_5 }, 615, 10),
        (Binary32 { bits: MINUS_ONE }).negative(),
        is_nearest(Binary32 { bits: (MINUS_ONE - SIGN_BIT) as u32 }, 1, 1),
{
    lemma2_to64();
    lemma_is_nearest(V13_34, 130, 0xd5_70a4, 1334, 100);
    lemma_is_nearest(V25_06, 131, 0xc8_7ae1, 2506, 100);
    lemma_is_nearest(V25_22, 131, 0xc9_c28f, 2522, 100);
    lemma_is_nearest(V26_16, 131, 0xd1_47ae, 2616, 100);
    lemma_is_nearest(V37, 132, 0x94_0000, 37, 1);
    lemma_is_nearest(V50, 132, 0xc8_0000, 50, 1);
    lemma_is_nearest(V61_5, 132, 0xf6_0000, 615, 10);
    lemma_is_nearest((MINUS_ONE - SIGN_BIT) as u32, 127, 0x80_0000, 1, 1);
}

/// In a player record that was decoded, each optional field is present
/// exactly in the versions that have it: the unknown number since 61.5, the
/// two ratings before 25.22, the handicap since 25.06.
pub proof fn lemma_player_gates(s: Seq<u8>, v: Binary32)
    requires
        spec_mgz_de_player(s, v) is Ok,
    ensures
        ({
            let player = spec_mgz_de_player(s, v)->Ok_0.1;
            &&& player.unk1 is Some <==> since(v, V61_5)
            &&& player.hd_rm_elo is Some <==> before(v, V25_22)
            &&& player.hd_dm_elo is Some <==> before(v, V25_22)
            &&& player.handicap is Some <==> since(v, V25_06)
        }),
{
}

/// Where the record has the unknown boolean behind the victory amount, a
/// byte there that is neither 0 nor 1 ends the decode with the error that
/// names it.
pub proof fn lemma_limits_strict(s: Seq<u8>, v: Binary32)
    requires
        since(v, V61_5),
        s.len() >= 25,
        s[24] > 1,
    ensures
        read_limits(Ok(s), v).0 == Err::<Seq<u8>, DecodeError>(
            failed(ErrorKind::InvalidFlagValue(s[24]), s.skip(24)),
        ),
{
    let c0: Cursor = Ok(s);
    assert(s.skip(0) =~= s);
    assert(s.skip(4).skip(4) =~= s.skip(8));
    assert(s.skip(8).skip(4) =~= s.skip(12));
    assert(s.skip(12).skip(4) =~= s.skip(16));
    assert(s.skip(16).skip(4) =~= s.skip(20));
    assert(s.skip(20).skip(4) =~= s.skip(24));
    assert(s.skip(24)[0] == s[24]);
}

/// The two optional booleans of the modes stand behind
/// the two optional numbers: a byte in the place of either that is neither 0
/// nor 1, behind booleans that are, ends the decode with the error that
/// names it.
pub proof fn lemma_modes_strict(s: Seq<u8>, v: Binary32, i: int)
    requires
        since(v, V25_06) || since(v, V50),
        ({
            let base: int = if since(v, V13_34) {
                8
            } else {
                0
            };
            let count: int = if since(v, V25_06) && since(v, V50) {
                2
            } else {
                1
            };
            &&& base <= i < base + count
            &&& s.len() >= base + count
            &&& s[i] > 1
            &&& i == base + 1 ==> s[base] <= 1
        }),
    ensures
        read_modes(Ok(s), v).0 == Err::<Seq<u8>, DecodeError>(
            failed(ErrorKind::InvalidFlagValue(s[i]), s.skip(i)),
        ),
{
    assert(s.skip(0) =~= s);
    if since(v, V13_34) {
        assert(s.skip(4).skip(4) =~= s.skip(8));
        assert(s.skip(8)[0] == s[8]);
        if s.len() > 9 {
            assert(s.skip(8).skip(1) =~= s.skip(9));
            assert(s.skip(9)[0] == s[9]);
        }
    } else if s.len() > 1 {
        assert(s.skip(1)[0] == s[1]);
    }
}

/// A decode of player records that did not fail has read as many as it was
/// asked for.
pub proof fn lemma_read_players_len(c: Cursor, v: Binary32, n: nat)
    requires
        read_players(c, v, n).0 is Ok,
    ensures
        read_players(c, v, n).1.len() == n,
    decreases n,
{
    if n > 0 && c is Ok {
        let front = read_players(c, v, (n - 1) as nat);
        if front.0 is Ok {
            lemma_read_players_len(c, v, (n - 1) as nat);
        }
    }
}

/// A decoded record holds as many player records as its version asks for:
/// the declared number since version 37, and eight before it.
pub proof fn lemma_player_count(s: Seq<u8>, v: Binary32)
    requires
        spec_mgz_de(s, v) is Ok,
    ensures
        ({
            let header = spec_mgz_de(s, v)->Ok_0.1;
            &&& header.players.len() == slot_count(v, header.limits.num_players)
            &&& !since(v, V37) ==> header.players.len() == 8
            &&& since(v, V37) ==> header.players.len() == header.limits.num_players
        }),
{
    let (c, preamble) = read_preamble(Ok(s), v);
    let (c, dlc_ids) = read_many_u32(c, preamble.dlc_count as nat);
    let (c, scenario) = read_scenario(c, v);
    let (c, limits) = read_limits(c, v);
    let (c, rules) = read_rules(c, v);
    let (c, toggles) = read_toggles(c, v);
    let (c, modes) = read_modes(c, v);
    let n = slot_count(v, limits.num_players) as nat;
    let (c_players, players) = read_players(c, v, n);
    assert(c_players is Ok);
    lemma_read_players_len(c, v, n);
}

/// In a record that was decoded, each optional field is present exactly in
/// the versions that have it: the build since 25.22, the timestamp since
/// 26.16, the unknown boolean behind the victory amount since 61.5, the
/// sub-mode and the battle-royale time since 13.34, the handicap switch
/// since 25.06, and the last unknown boolean since 50.
pub proof fn lemma_de_gates(s: Seq<u8>, v: Binary32)
    requires
        spec_mgz_de(s, v) is Ok,
    ensures
        ({
            let header = spec_mgz_de(s, v)->Ok_0.1;
            &&& header.preamble.build is Some <==> since(v, V25_22)
            &&& header.preamble.timestamp is Some <==> since(v, V26_16)
            &&& header.limits.unk_byte is Some <==> since(v, V61_5)
            &&& header.modes.sub_game_mode is Some <==> since(v, V13_34)
            &&& header.modes.battle_royale_time is Some <==> since(v, V13_34)
            &&& header.modes.handicap is Some <==> since(v, V25_06)
            &&& header.modes.unk is Some <==> since(v, V50)
        }),
{
    let (c1, preamble) = read_preamble(Ok(s), v);
    let (c2, dlc_ids) = read_many_u32(c1, preamble.dlc_count as nat);
    let (c3, scenario) = read_scenario(c2, v);
    let (c4, limits) = read_limits(c3, v);
    let (c5, rules) = read_rules(c4, v);
    let (c6, toggles) = read_toggles(c5, v);
    let (c7, modes) = read_modes(c6, v);
    let (c8, players) = read_players(c7, v, slot_count(v, limits.num_players) as nat);
    let (c9, trailer) = read_trailer(c8, v);
    assert(c9 is Ok);
    assert(c8 is Ok);
    assert(c7 is Ok);
    assert(c6 is Ok);
    assert(c5 is Ok);
    assert(c4 is Ok);
    assert(c3 is Ok);
    assert(c2 is Ok);
    assert(c1 is Ok);
}

/// A recording that is cut off in front of the end that its frame declares
/// decodes to `Truncated`, wherever it is cut.
pub proof fn lemma_truncation(full: Seq<u8>, k: int)
    requires
        0 <= k <= full.len(),
        full.len() >= 4 ==> k < le32(full),
    ensures
        spec_mgz_header(full.take(k)) is Err,
        spec_mgz_header(full.take(k))->Err_0.kind == ErrorKind::Truncated,
        !spec_mgz_header(full.take(k))->Err_0.inflated,
{
    let cut = full.take(k);
    if k >= 4 {
        assert(le32(cut) == le32(full));
    }
}

/// A recording that is shorter than its frame declares, or than the eight
/// bytes that every frame starts with, decodes to `Truncated`.
pub proof fn lemma_short_input(s: Seq<u8>)
    requires
        s.len() < 8 || s.len() < le32(s),
    ensures
        spec_mgz_header(s) is Err,
        spec_mgz_header(s)->Err_0.kind == ErrorKind::Truncated,
        !spec_mgz_header(s)->Err_0.inflated,
{
}

/// Where a decode stands in a player record in front of its two booleans:
/// behind the fields that a save of version `v` has in front of them.
pub open spec fn before_player_flags(whole: Cursor, v: Binary32) -> Cursor {
    let c = whole;
    let c = read_u32(c).0;
    let c = read_i32(c).0;
    let c = read_byte(c).0;
    let c = read_byte(c).0;
    let c = read_byte(c).0;
    let c = read_blob(c, 8).0;
    let c = read_byte(c).0;
    let c = read_u32(c).0;
    let c = read_u32_if(c, since(v, V61_5)).0;
    let c = read_text(c).0;
    let c = read_byte(c).0;
    let c = read_text(c).0;
    let c = read_text(c).0;
    let c = read_u32(c).0;
    let c = read_u32(c).0;
    let c = read_u32(c).0;
    let c = read_i32(c).0;
    let c = read_u32_if(c, before(v, V25_22)).0;
    let c = read_u32_if(c, before(v, V25_22)).0;
    c
}

/// The first of the two booleans of a player record that is neither 0 nor 1
/// ends the decode with the error that names it and its place.
pub proof fn lemma_player_strict(c: Cursor, v: Binary32, i: int)
    requires
        before_player_flags(c, v) is Ok,
        0 <= i < 2,
        before_player_flags(c, v)->Ok_0.len() >= 2,
        before_player_flags(c, v)->Ok_0[i] > 1,
        i == 1 ==> before_player_flags(c, v)->Ok_0[0] <= 1,
    ensures
        read_player(c, v).0 == Err::<Seq<u8>, DecodeError>(
            failed(
                ErrorKind::InvalidFlagValue(before_player_flags(c, v)->Ok_0[i]),
                before_player_flags(c, v)->Ok_0.skip(i),
            ),
        ),
{
    let t = before_player_flags(c, v)->Ok_0;
    let c0: Cursor = Ok(t);
    let c1 = read_flag(c0).0;
    let c2 = read_flag(c1).0;
    let c3 = read_blob_if(c2, 8, since(v, V25_06)).0;
    assert(t.skip(0) =~= t);
    if i == 1 {
        assert(c1 == Ok::<Seq<u8>, DecodeError>(t.skip(1)));
        assert(t.skip(1)[0] == t[1]);
    }
    assert(c3 is Err);
}

/// The first failure is the failure of the record: where a part fails, the
/// record fails with the same error, whatever stands behind that part.
pub proof fn lemma_first_failure(s: Seq<u8>, v: Binary32)
    ensures
        ({
            let (c1, preamble) = read_preamble(Ok(s), v);
            let c2 = read_many_u32(c1, preamble.dlc_count as nat).0;
            let c3 = read_scenario(c2, v).0;
            let (c4, limits) = read_limits(c3, v);
            let c5 = read_rules(c4, v).0;
            let c6 = read_toggles(c5, v).0;
            let c7 = read_modes(c6, v).0;
            let c8 = read_players(c7, v, slot_count(v, limits.num_players) as nat).0;
            let c9 = read_trailer(c8, v).0;
            let whole = spec_mgz_de(s, v);
            &&& c1 is Err ==> whole is Err && whole->Err_0 == c1->Err_0
            &&& c2 is Err ==> whole is Err && whole->Err_0 == c2->Err_0
            &&& c3 is Err ==> whole is Err && whole->Err_0 == c3->Err_0
            &&& c4 is Err ==> whole is Err && whole->Err_0 == c4->Err_0
            &&& c5 is Err ==> whole is Err && whole->Err_0 == c5->Err_0
            &&& c6 is Err ==> whole is Err && whole->Err_0 == c6->Err_0
            &&& c7 is Err ==> whole is Err && whole->Err_0 == c7->Err_0
            &&& c8 is Err ==> whole is Err && whole->Err_0 == c8->Err_0
            &&& c9 is Err ==> whole is Err && whole->Err_0 == c9->Err_0
        }),
{
    let (c1, preamble) = read_preamble(Ok(s), v);
    let c2 = read_many_u32(c1, preamble.dlc_count as nat).0;
    let c3 = read_scenario(c2, v).0;
    let (c4, limits) = read_limits(c3, v);
    let c5 = read_rules(c4, v).0;
    let c6 = read_toggles(c5, v).0;
    let c7 = read_modes(c6, v).0;
    let c8 = read_players(c7, v, slot_count(v, limits.num_players) as nat).0;
    let c9 = read_trailer(c8, v).0;
    if c1 is Err {
        assert(c2 == c1);
    }
    if c2 is Err {
        assert(c3 == c2);
    }
    if c3 is Err {
        assert(c4 == c3);
    }
    if c4 is Err {
        assert(c5 == c4);
    }
    if c5 is Err {
        assert(c6 == c5);
    }
    if c6 is Err {
        assert(c7 == c6);
    }
    if c7 is Err {
        assert(c8 == c7);
    }
    if c8 is Err {
        assert(c9 == c8);
    }
}

} // verus!
