use std::io::Write;

use flate2::write::DeflateEncoder;
use flate2::Compression;
use mgz::binary32::Binary32;
use mgz::de::{mgz_de, mgz_de_player};
use mgz::error::ErrorKind;
use mgz::{mgz_compressed_header, mgz_header, mgz_subheader};

const SYNC: [u8; 4] = [0xA3, 0x5F, 0x02, 0x00];

fn put_u32(out: &mut Vec<u8>, value: u32) {
    out.extend_from_slice(&value.to_le_bytes());
}

fn put_i32(out: &mut Vec<u8>, value: i32) {
    out.extend_from_slice(&value.to_le_bytes());
}

fn put_f32(out: &mut Vec<u8>, value: f32) {
    out.extend_from_slice(&value.to_le_bytes());
}

fn put_text(out: &mut Vec<u8>, text: &str) {
    out.push(0x60);
    out.push(0x0A);
    out.extend_from_slice(&(text.len() as u16).to_le_bytes());
    out.extend_from_slice(text.as_bytes());
}

/// One player record as a save of `version` lays it out. The offsets of its
/// boolean bytes, counted from the start of `out`, are added to `flags`.
fn put_player(out: &mut Vec<u8>, flags: &mut Vec<usize>, version: f32, number: i32, name: &str) {
    put_u32(out, 7);
    put_i32(out, -1 - number);
    out.push(1);
    out.push(2);
    out.push(3);
    out.extend_from_slice(&[10, 11, 12, 13, 14, 15, 16, 17]);
    out.push(4);
    put_u32(out, 21);
    if version >= 61.5f32 {
        put_u32(out, 0xdead_beef);
    }
    put_text(out, "");
    out.push(5);
    put_text(out, "Promisory");
    put_text(out, name);
    put_u32(out, 2);
    put_u32(out, 424242);
    put_u32(out, 9);
    put_i32(out, number);
    if version < 25.22f32 {
        put_u32(out, 1500);
        put_u32(out, 1600);
    }
    flags.push(out.len());
    out.push(1);
    flags.push(out.len());
    out.push(0);
    if version >= 25.06f32 {
        out.extend_from_slice(&[100, 101, 102, 103, 104, 105, 106, 107]);
    }
}

/// A game-settings record as a save of `version` lays it out, and the
/// offsets of its boolean bytes.
fn record_bytes(version: f32, num_players: u32, names: &[&str], fog_of_war: u8) -> (Vec<u8>, Vec<usize>) {
    let mut out = Vec::new();
    let mut flags = Vec::new();
    if version >= 25.22f32 {
        put_u32(&mut out, 66692);
    }
    if version >= 26.16f32 {
        put_u32(&mut out, 1_700_000_000);
    }
    put_f32(&mut out, 1000.0);
    put_u32(&mut out, 3);
    put_u32(&mut out, 4);
    put_u32(&mut out, 2);
    put_u32(&mut out, 11);
    put_u32(&mut out, 12);
    for id in 100u32..110 {
        put_u32(&mut out, id);
    }
    out.extend_from_slice(&SYNC);
    out.extend_from_slice(&SYNC);
    put_f32(&mut out, 1.7);
    put_u32(&mut out, 0);
    put_u32(&mut out, 200);
    put_u32(&mut out, num_players);
    put_u32(&mut out, 55);
    put_i32(&mut out, -900);
    if version >= 61.5f32 {
        flags.push(out.len());
        out.push(1);
    }
    out.extend_from_slice(&SYNC);
    for value in [1u8, 0, 0, 1] {
        flags.push(out.len());
        out.push(value);
    }
    out.push(77);
    for value in [1u8, 1, 1, 0, 1, 1, 0, 0, 1, 0] {
        flags.push(out.len());
        out.push(value);
    }
    if version >= 13.34f32 {
        put_u32(&mut out, 31);
        put_u32(&mut out, 32);
    }
    if version >= 25.06f32 {
        flags.push(out.len());
        out.push(1);
    }
    if version >= 50f32 {
        flags.push(out.len());
        out.push(0);
    }
    out.extend_from_slice(&SYNC);
    let mut number = 0;
    for name in names {
        put_player(&mut out, &mut flags, version, number, name);
        number += 1;
    }
    out.extend_from_slice(&[0xEE; 9]);
    out.push(fog_of_war);
    flags.push(out.len());
    out.push(1);
    flags.push(out.len());
    out.push(0);
    (out, flags)
}

/// The inflated header in front of a record.
fn inflated(game_version: &str, old: f32, new: Option<u32>, record: &[u8]) -> Vec<u8> {
    let mut out = Vec::new();
    out.extend_from_slice(game_version.as_bytes());
    out.push(0);
    put_f32(&mut out, old);
    if let Some(new) = new {
        put_u32(&mut out, new);
    }
    out.extend_from_slice(record);
    out
}

fn deflate(data: &[u8]) -> Vec<u8> {
    let mut encoder = DeflateEncoder::new(Vec::new(), Compression::default());
    encoder.write_all(data).unwrap();
    encoder.finish().unwrap()
}

/// A deflate stream of one stored block, which starts with bytes that are
/// no chapter address.
fn stored(data: &[u8]) -> Vec<u8> {
    assert!(data.len() < 0x1_0000 && (data.len() & 0xff) <= 0xf9);
    let len = data.len() as u16;
    let mut out = vec![0x01];
    out.extend_from_slice(&len.to_le_bytes());
    out.extend_from_slice(&(!len).to_le_bytes());
    out.extend_from_slice(data);
    out
}

fn frame(address: Option<u32>, block: &[u8]) -> Vec<u8> {
    let mut out = Vec::new();
    let start = if address.is_some() { 8 } else { 4 };
    put_u32(&mut out, (start + block.len()) as u32);
    if let Some(address) = address {
        put_u32(&mut out, address);
    }
    out.extend_from_slice(block);
    out
}

fn version_of(bits: Binary32) -> f32 {
    f32::from_bits(bits.bits)
}

fn recording_62() -> Vec<u8> {
    let (record, _) = record_bytes(62.0, 2, &["_LHD_xiaohai", "Mars_zZ"], 6);
    let inner = inflated("VER 9.4", -1.0, Some(62 << 16), &record);
    let mut bytes = frame(Some(0x0012_3456), &deflate(&inner));
    bytes.extend_from_slice(b"body of the recording");
    bytes
}

fn recording_12_97() -> Vec<u8> {
    let names = ["378906", "312663", "0", "0", "0", "0", "0", "0"];
    let (record, _) = record_bytes(12.97, 2, &names, 1);
    let inner = inflated("VER 9.4", 12.97, None, &record);
    let mut bytes = frame(Some(0), &deflate(&inner));
    bytes.extend_from_slice(&[1, 2, 3]);
    bytes
}

#[test]
fn parse_62_0() {
    let bytes = recording_62();
    let (rest, header) = mgz_header(&bytes).expect("a whole recording decodes");

    assert_eq!(rest, b"body of the recording");
    assert_eq!(header.subheader.chapter_address, Some(0x0012_3456));
    assert_eq!(header.subheader.compressed_header.game_version, "VER 9.4");
    assert_eq!(version_of(header.subheader.compressed_header.save_version), 62.0f32);
    assert_eq!(version_of(header.subheader.compressed_header.old_save_version), -1.0f32);
    assert_eq!(header.subheader.compressed_header.new_save_version, Some(62 << 16));
    assert_eq!(header.subheader.compressed_header.hd, None);

    let de_header = header.subheader.compressed_header.de.unwrap();

    assert_eq!(de_header.fog_of_war, 6);
    assert_eq!(de_header.players.len(), 2);
    assert_eq!(de_header.players[0].name, "_LHD_xiaohai");
    assert_eq!(de_header.players[1].name, "Mars_zZ");
}

#[test]
fn parse_12_87() {
    let bytes = recording_12_97();
    let (rest, header) = mgz_header(&bytes).expect("a whole recording decodes");

    assert_eq!(rest, &[1, 2, 3]);
    assert_eq!(header.subheader.compressed_header.game_version, "VER 9.4");
    assert_eq!(version_of(header.subheader.compressed_header.save_version), 12.97f32);
    assert_eq!(header.subheader.compressed_header.new_save_version, None);

    let de_header = header.subheader.compressed_header.de.unwrap();

    println!("Player 0: {0:?}", de_header.players[0]);

    assert_eq!(de_header.fog_of_war, 1);
    assert_eq!(de_header.players.len(), 8);
    assert_eq!(de_header.players[0].name, "378906");
    assert_eq!(de_header.players[1].name, "312663");
    assert_eq!(de_header.players[2].name, "0");
    assert_eq!(de_header.players[3].name, "0");
    assert_eq!(de_header.players[4].name, "0");
    assert_eq!(de_header.players[5].name, "0");
    assert_eq!(de_header.players[6].name, "0");
    assert_eq!(de_header.players[7].name, "0");
}

#[test]
fn every_field_of_a_new_save() {
    let (record, _) = record_bytes(62.0, 2, &["one", "two"], 6);
    let version = Binary32::from_bits(62.0f32.to_bits());
    let (rest, de) = mgz_de(&record, version).unwrap();
    assert!(rest.is_empty());

    assert_eq!(de.build, Some(66692));
    assert_eq!(de.timestamp, Some(1_700_000_000));
    assert_eq!(version_of(de.version), 1000.0f32);
    assert_eq!(de.interval_version, 3);
    assert_eq!(de.game_options_version, 4);
    assert_eq!(de.dlc_count, 2);
    assert_eq!(de.dlc_ids, vec![11, 12]);
    assert_eq!(de.dataset_ref, 100);
    assert_eq!(de.difficulty_id, 101);
    assert_eq!(de.selected_map_id, 102);
    assert_eq!(de.resolved_map_id, 103);
    assert_eq!(de.reveal_map, 104);
    assert_eq!(de.victory_type_id, 105);
    assert_eq!(de.starting_resources_id, 106);
    assert_eq!(de.starting_age_id, 107);
    assert_eq!(de.ending_age_id, 108);
    assert_eq!(de.game_type, 109);
    assert_eq!(version_of(de.speed), 1.7f32);
    assert_eq!(de.treaty_length, 0);
    assert_eq!(de.population_limit, 200);
    assert_eq!(de.num_players, 2);
    assert_eq!(de.unused_player_color, 55);
    assert_eq!(de.victory_amount, -900);
    assert_eq!(de.unk_byte, Some(true));
    assert_eq!(de.trade_enabled, true);
    assert_eq!(de.team_bonus_disabled, false);
    assert_eq!(de.random_positions, false);
    assert_eq!(de.all_techs, true);
    assert_eq!(de.num_starting_units, 77);
    assert_eq!(de.lock_teams, true);
    assert_eq!(de.lock_speed, true);
    assert_eq!(de.multiplayer, true);
    assert_eq!(de.cheats, false);
    assert_eq!(de.record_game, true);
    assert_eq!(de.animals_enabled, true);
    assert_eq!(de.predators_enabled, false);
    assert_eq!(de.turbo_enabled, false);
    assert_eq!(de.shared_exploration, true);
    assert_eq!(de.team_positions, false);
    assert_eq!(de.sub_game_mode, Some(31));
    assert_eq!(de.battle_royale_time, Some(32));
    assert_eq!(de.handicap, Some(true));
    assert_eq!(de.unk, Some(false));
    assert_eq!(de.fog_of_war, 6);
    assert_eq!(de.cheat_notifications, true);
    assert_eq!(de.colored_chat, false);

    assert_eq!(de.players.len(), 2);
    let player = &de.players[1];
    assert_eq!(player.dlc_id, 7);
    assert_eq!(player.color_id, -2);
    assert_eq!(player.selected_color, 1);
    assert_eq!(player.selected_team_id, 2);
    assert_eq!(player.resolved_team_id, 3);
    assert_eq!(player.dat_crc, [10, 11, 12, 13, 14, 15, 16, 17]);
    assert_eq!(player.mp_game_version, 4);
    assert_eq!(player.civ_id, 21);
    assert_eq!(player.unk1, Some(0xdead_beef));
    assert_eq!(player.ai_type, "");
    assert_eq!(player.ai_civ_name_index, 5);
    assert_eq!(player.ai_name, "Promisory");
    assert_eq!(player.name, "two");
    assert_eq!(player.player_type, 2);
    assert_eq!(player.profile_id, 424242);
    assert_eq!(player.unk2, 9);
    assert_eq!(player.player_number, 1);
    assert_eq!(player.hd_rm_elo, None);
    assert_eq!(player.hd_dm_elo, None);
    assert_eq!(player.prefer_random, true);
    assert_eq!(player.custom_ai, false);
    assert_eq!(player.handicap, Some([100, 101, 102, 103, 104, 105, 106, 107]));
}

#[test]
fn optional_fields_of_an_old_save() {
    let names = ["a", "b", "c", "d", "e", "f", "g", "h"];
    let (record, _) = record_bytes(12.97, 3, &names, 1);
    let version = Binary32::from_bits(12.97f32.to_bits());
    let (rest, de) = mgz_de(&record, version).unwrap();
    assert!(rest.is_empty());

    assert_eq!(de.build, None);
    assert_eq!(de.timestamp, None);
    assert_eq!(de.unk_byte, None);
    assert_eq!(de.sub_game_mode, None);
    assert_eq!(de.battle_royale_time, None);
    assert_eq!(de.handicap, None);
    assert_eq!(de.unk, None);
    assert_eq!(de.num_players, 3);
    assert_eq!(de.players.len(), 8);
    assert_eq!(de.players[7].name, "h");
    assert_eq!(de.players[0].unk1, None);
    assert_eq!(de.players[0].hd_rm_elo, Some(1500));
    assert_eq!(de.players[0].hd_dm_elo, Some(1600));
    assert_eq!(de.players[0].handicap, None);
}

#[test]
fn slot_count_is_declared_since_37_and_eight_before() {
    for declared in [0u32, 1, 3, 8, 11] {
        let names: Vec<String> = (0..declared).map(|i| format!("p{i}")).collect();
        let names: Vec<&str> = names.iter().map(|n| n.as_str()).collect();
        let (bytes, _) = record_bytes(37.0, declared, &names, 0);
        let (_, de) = mgz_de(&bytes, Binary32::from_bits(37.0f32.to_bits())).unwrap();
        assert_eq!(de.players.len(), declared as usize);

        let below = f32::from_bits(37.0f32.to_bits() - 1);
        let eight = ["0", "1", "2", "3", "4", "5", "6", "7"];
        let (bytes, _) = record_bytes(below, declared, &eight, 0);
        let (_, de) = mgz_de(&bytes, Binary32::from_bits(below.to_bits())).unwrap();
        assert_eq!(de.num_players, declared);
        assert_eq!(de.players.len(), 8);
    }
}

#[test]
fn too_few_player_records_are_truncated() {
    let (bytes, _) = record_bytes(40.0, 3, &["a", "b"], 0);
    let version = Binary32::from_bits(40.0f32.to_bits());
    assert_eq!(mgz_de(&bytes, version).unwrap_err().kind, ErrorKind::Truncated);
}

#[test]
fn gates_hold_at_their_thresholds_and_not_below() {
    let eight = ["0", "1", "2", "3", "4", "5", "6", "7"];
    for threshold in [13.34f32, 25.06, 25.22, 26.16, 37.0, 50.0, 61.5] {
        let below = f32::from_bits(threshold.to_bits() - 1);
        for version in [threshold, below] {
            let (bytes, _) = record_bytes(version, 8, &eight, 0);
            let (rest, de) = mgz_de(&bytes, Binary32::from_bits(version.to_bits())).unwrap();
            assert!(rest.is_empty());
            assert_eq!(de.build.is_some(), version >= 25.22);
            assert_eq!(de.timestamp.is_some(), version >= 26.16);
            assert_eq!(de.unk_byte.is_some(), version >= 61.5);
            assert_eq!(de.sub_game_mode.is_some(), version >= 13.34);
            assert_eq!(de.battle_royale_time.is_some(), version >= 13.34);
            assert_eq!(de.handicap.is_some(), version >= 25.06);
            assert_eq!(de.unk.is_some(), version >= 50.0);
            for player in &de.players {
                assert_eq!(player.unk1.is_some(), version >= 61.5);
                assert_eq!(player.hd_rm_elo.is_some(), version < 25.22);
                assert_eq!(player.hd_dm_elo.is_some(), version < 25.22);
                assert_eq!(player.handicap.is_some(), version >= 25.06);
            }
        }
    }
    let (bytes, _) = record_bytes(25.22, 8, &eight, 0);
    let (_, de) = mgz_de(&bytes, Binary32::from_bits(25.22f32.to_bits())).unwrap();
    assert_eq!(de.build, Some(66692));
    assert_eq!(de.players[0].hd_rm_elo, None);
}

#[test]
fn a_version_that_is_no_number_has_no_optional_field() {
    let eight = ["0", "1", "2", "3", "4", "5", "6", "7"];
    let (bytes, _) = record_bytes(f32::NAN, 2, &eight, 3);
    let (rest, de) = mgz_de(&bytes, Binary32::from_bits(f32::NAN.to_bits())).unwrap();
    assert!(rest.is_empty());
    assert_eq!(de.build, None);
    assert_eq!(de.players.len(), 8);
    assert_eq!(de.players[0].hd_rm_elo, None);
    assert_eq!(de.players[0].handicap, None);
    assert_eq!(de.fog_of_war, 3);
}

#[test]
fn every_boolean_byte_is_strict() {
    for version in [12.97f32, 62.0] {
        let eight = ["0", "1", "2", "3", "4", "5", "6", "7"];
        let (bytes, flags) = record_bytes(version, 8, &eight, 0);
        let bits = Binary32::from_bits(version.to_bits());
        assert!(mgz_de(&bytes, bits).is_ok());
        assert!(flags.len() >= 16 + 2 * 8);
        for &at in &flags {
            for bad in [2u8, 3, 0x7f, 0x80, 0xff] {
                let mut broken = bytes.clone();
                assert!(broken[at] <= 1);
                broken[at] = bad;
                let e = mgz_de(&broken, bits).unwrap_err();
                assert_eq!(e.kind, ErrorKind::InvalidFlagValue(bad));
                assert_eq!(e.remaining, bytes.len() - at);
                assert_eq!(e.offset(bytes.len()), Some(at));
                assert!(!e.inflated);
            }
            let mut flipped = bytes.clone();
            flipped[at] = 1 - flipped[at];
            assert!(mgz_de(&flipped, bits).is_ok());
        }
    }
}

#[test]
fn a_bad_boolean_in_a_recording_is_reported() {
    let (mut record, flags) = record_bytes(62.0, 2, &["a", "b"], 6);
    record[flags[3]] = 9;
    let inner = inflated("VER 9.4", -1.0, Some(62 << 16), &record);
    let bytes = frame(Some(1), &deflate(&inner));
    let e = mgz_header(&bytes).unwrap_err();
    assert_eq!(e.kind, ErrorKind::InvalidFlagValue(9));
    assert!(e.inflated);
    assert_eq!(e.offset(inner.len()), Some(inner.len() - record.len() + flags[3]));
}

#[test]
fn each_sync_marker_has_to_match() {
    let (bytes, _) = record_bytes(62.0, 2, &["a", "b"], 6);
    let bits = Binary32::from_bits(62.0f32.to_bits());
    let mut found = Vec::new();
    for at in 0..bytes.len() - 3 {
        if bytes[at..at + 4] == SYNC {
            found.push(at);
        }
    }
    assert_eq!(found.len(), 4);
    for at in found {
        for offset in 0..4 {
            let mut broken = bytes.clone();
            broken[at + offset] ^= 0x40;
            let e = mgz_de(&broken, bits).unwrap_err();
            assert_eq!(e.kind, ErrorKind::BadMarker);
            assert_eq!(e.offset(broken.len()), Some(at));
        }
    }
}

#[test]
fn a_name_that_is_no_text_is_reported() {
    let (mut bytes, _) = record_bytes(62.0, 1, &["abcd"], 6);
    let at = bytes.windows(4).position(|w| w == b"abcd").unwrap();
    bytes[at + 1] = 0xff;
    let bits = Binary32::from_bits(62.0f32.to_bits());
    let e = mgz_de(&bytes, bits).unwrap_err();
    assert_eq!(e.kind, ErrorKind::InvalidEncoding);
    assert_eq!(e.offset(bytes.len()), Some(at));
}

#[test]
fn a_text_marker_has_to_match() {
    let mut flags = Vec::new();
    let mut bytes = Vec::new();
    put_player(&mut bytes, &mut flags, 62.0, 0, "abcd");
    let bits = Binary32::from_bits(62.0f32.to_bits());
    let (rest, player) = mgz_de_player(&bytes, bits).unwrap();
    assert!(rest.is_empty());
    assert_eq!(player.name, "abcd");
    let at = bytes.windows(2).position(|w| w == [0x60, 0x0A]).unwrap();
    bytes[at] = 0x61;
    assert_eq!(mgz_de_player(&bytes, bits).unwrap_err().kind, ErrorKind::BadMarker);
}

#[test]
fn a_record_cut_anywhere_is_truncated() {
    for version in [12.97f32, 62.0] {
        let eight = ["0", "1", "2", "3", "4", "5", "6", "7"];
        let (bytes, _) = record_bytes(version, 8, &eight, 0);
        let bits = Binary32::from_bits(version.to_bits());
        for cut in 0..bytes.len() {
            assert_eq!(mgz_de(&bytes[..cut], bits).unwrap_err().kind, ErrorKind::Truncated);
        }
        let mut longer = bytes.clone();
        longer.extend_from_slice(&[9, 9, 9]);
        let (rest, _) = mgz_de(&longer, bits).unwrap();
        assert_eq!(rest, &[9, 9, 9]);
    }
}

#[test]
fn a_recording_cut_before_its_declared_end_is_truncated() {
    for bytes in [recording_62(), recording_12_97()] {
        let declared = u32::from_le_bytes([bytes[0], bytes[1], bytes[2], bytes[3]]) as usize;
        assert!(declared < bytes.len());
        for cut in 0..declared {
            let e = mgz_header(&bytes[..cut]).unwrap_err();
            assert_eq!(e.kind, ErrorKind::Truncated);
            assert!(!e.inflated);
            let at = e.offset(cut).unwrap();
            assert_eq!(at, if cut < 4 { 0 } else if cut < 8 { 4 } else { 8 });
        }
        for cut in declared..=bytes.len() {
            let (rest, _) = mgz_header(&bytes[..cut]).unwrap();
            assert_eq!(rest, &bytes[declared..cut]);
        }
    }
}

#[test]
fn a_header_cut_inside_the_block_is_truncated() {
    let (record, _) = record_bytes(62.0, 2, &["a", "b"], 6);
    let inner = inflated("VER 9.4", -1.0, Some(62 << 16), &record);
    for cut in 0..inner.len() {
        let bytes = frame(Some(5), &deflate(&inner[..cut]));
        let e = mgz_header(&bytes).unwrap_err();
        assert_eq!(e.kind, ErrorKind::Truncated);
        assert!(e.inflated);
        assert!(e.offset(cut).is_some());
    }
}

#[test]
fn a_frame_too_short_for_its_own_start_is_truncated() {
    let (record, _) = record_bytes(62.0, 2, &["a", "b"], 6);
    let inner = inflated("VER 9.4", -1.0, Some(62 << 16), &record);
    let whole = frame(Some(5), &deflate(&inner));
    for declared in 0u32..8 {
        let mut bytes = whole.clone();
        bytes[..4].copy_from_slice(&declared.to_le_bytes());
        assert_eq!(mgz_header(&bytes).unwrap_err().kind, ErrorKind::Truncated);
    }
    let block = stored(&inner);
    let whole = frame(None, &block);
    assert!(mgz_header(&whole).is_ok());
    for declared in 0u32..4 {
        let mut bytes = whole.clone();
        bytes[..4].copy_from_slice(&declared.to_le_bytes());
        assert_eq!(mgz_header(&bytes).unwrap_err().kind, ErrorKind::Truncated);
    }
}

#[test]
fn a_corrupt_block_is_a_decompression_error() {
    let garbage = [0xffu8; 64];
    let bytes = frame(Some(5), &garbage);
    let e = mgz_header(&bytes).unwrap_err();
    assert_eq!(e.kind, ErrorKind::DecompressionError);
    assert_eq!(e.offset(bytes.len()), Some(8));
    assert!(!e.inflated);

    let (record, _) = record_bytes(62.0, 2, &["a", "b"], 6);
    let inner = inflated("VER 9.4", -1.0, Some(62 << 16), &record);
    let block = deflate(&inner);
    let bytes = frame(Some(5), &block[..block.len() / 2]);
    assert_eq!(mgz_header(&bytes).unwrap_err().kind, ErrorKind::DecompressionError);

    let bytes = frame(Some(5), &[]);
    assert_eq!(mgz_header(&bytes).unwrap_err().kind, ErrorKind::DecompressionError);
}

#[test]
fn a_block_without_address_is_told_from_one_with() {
    let (record, _) = record_bytes(62.0, 2, &["a", "b"], 6);
    let mut inner = inflated("VER 9.4", -1.0, Some(62 << 16), &record);
    while (inner.len() & 0xff) > 0xf9 {
        inner.push(0);
    }
    let block = stored(&inner);
    let first = u32::from_le_bytes([block[0], block[1], block[2], block[3]]);
    assert!(first >= 100_000_000);

    let mut bytes = frame(None, &block);
    bytes.extend_from_slice(&[7, 7]);
    let (rest, header) = mgz_header(&bytes).unwrap();
    assert_eq!(rest, &[7, 7]);
    assert_eq!(header.header_length as usize, bytes.len() - 2);
    assert_eq!(header.subheader.chapter_address, None);
    assert_eq!(header.subheader.compressed_header.de.unwrap().players[1].name, "b");

    for address in [0u32, 1, 99_999_999] {
        let bytes = frame(Some(address), &block);
        let (rest, sub) = mgz_subheader(&bytes[4..], bytes.len() as u32).unwrap();
        assert!(rest.is_empty());
        assert_eq!(sub.chapter_address, Some(address));
    }
    let bytes = frame(Some(100_000_000), &block);
    assert!(mgz_header(&bytes).is_err());
}

#[test]
fn the_save_version_comes_from_the_integer_where_the_old_one_is_minus_one() {
    let eight = ["0", "1", "2", "3", "4", "5", "6", "7"];
    let (record, _) = record_bytes(25.25, 1, &eight, 0);
    let inner = inflated("v", -1.0, Some(1_654_784), &record);
    let (rest, header) = mgz_compressed_header(&inner).unwrap();
    assert!(rest.is_empty());
    assert_eq!(header.game_version, "v");
    assert_eq!(version_of(header.save_version), 25.25f32);
    assert_eq!(header.de.unwrap().build, Some(66692));

    let (record, _) = record_bytes(20.0, 1, &eight, 0);
    let inner = inflated("", 20.0, None, &record);
    let (_, header) = mgz_compressed_header(&inner).unwrap();
    assert_eq!(header.game_version, "");
    assert_eq!(header.new_save_version, None);
    assert_eq!(version_of(header.save_version), 20.0f32);

    let (record, _) = record_bytes(37.0, 1, &["x"], 0);
    let inner = inflated("v", -1.0, Some(37), &record);
    let (_, header) = mgz_compressed_header(&inner).unwrap();
    assert_eq!(header.new_save_version, Some(37));
    assert_eq!(version_of(header.save_version), 37.0f32);
    assert_eq!(header.de.unwrap().players.len(), 1);
}

#[test]
fn decoding_twice_gives_the_same() {
    let bytes = recording_62();
    let first = format!("{:?}", mgz_header(&bytes));
    let second = format!("{:?}", mgz_header(&bytes));
    assert_eq!(first, second);
    let cut = &bytes[..40];
    assert_eq!(format!("{:?}", mgz_header(cut)), format!("{:?}", mgz_header(cut)));
}

#[test]
fn bytes_behind_the_end_of_the_stream_are_not_looked_at() {
    let (record, _) = record_bytes(62.0, 2, &["a", "b"], 6);
    let inner = inflated("VER 9.4", -1.0, Some(62 << 16), &record);
    let mut block = deflate(&inner);
    block.extend_from_slice(&[0xff, 0x00, 0xab, 0xcd, 0xef]);
    let mut bytes = frame(Some(5), &block);
    bytes.push(0x11);
    let (rest, header) = mgz_header(&bytes).unwrap();
    assert_eq!(rest, &[0x11]);
    assert_eq!(header.subheader.compressed_header.de.unwrap().players.len(), 2);
}
