//! The game-settings record of the Definitive Edition and its player records.
//!
//! The record is a fixed sequence of fields. Which of the optional fields a
//! save has depends on its save version alone, field by field:
//!
//! | field                                   | present in versions |
//! |-----------------------------------------|---------------------|
//! | `build`                                 | 25.22 and later     |
//! | `timestamp`                             | 26.16 and later     |
//! | `unk_byte`                              | 61.5 and later      |
//! | `sub_game_mode`, `battle_royale_time`   | 13.34 and later     |
//! | `handicap` of the record                | 25.06 and later     |
//! | `unk`                                   | 50 and later        |
//! | `unk1` of a player                      | 61.5 and later      |
//! | `hd_rm_elo`, `hd_dm_elo` of a player    | before 25.22        |
//! | `handicap` of a player                  | 25.06 and later     |
//!
//! The number of player records is the declared number of players in
//! versions 37 and later, and eight before.
//!
//! A sync marker stands at three places of the record: twice in a row behind
//! the scenario, once behind the limits, and once in front of the player
//! records. The decoder never searches for a marker: one that is not where
//! it belongs ends the decode.

use vstd::prelude::*;

use crate::binary32::Binary32;
use crate::error::DecodeError;
use crate::primitives::{
    blob8, byte, cond_blob8, cond_flag, cond_le_u32, de_string, flag, le_binary32, le_i32, le_u32,
    left, outcome, parsed, parsed_view, read_binary32, read_blob, read_blob_if, read_byte,
    read_flag, read_flag_if, read_i32, read_text, read_u32, read_u32_if, spec_tag, step, tag, take,
    Cursor, Parsed,
};

verus! {

/// The save version 13.34, as a single-precision bit pattern.
pub const V13_34: u32 = 0x4155_70a4;

/// The save version 25.06.
pub const V25_06: u32 = 0x41c8_7ae1;

/// The save version 25.22.
pub const V25_22: u32 = 0x41c9_c28f;

/// The save version 26.16.
pub const V26_16: u32 = 0x41d1_47ae;

/// The save version 37.
pub const V37: u32 = 0x4214_0000;

/// The save version 50.
pub const V50: u32 = 0x4248_0000;

/// The save version 61.5.
pub const V61_5: u32 = 0x4276_0000;

/// The number of player records in a save older than version 37.
pub const LEGACY_SLOTS: u32 = 8;

/// A field that exists since the version `threshold` is present in a save of
/// version `v`.
pub open spec fn since(v: Binary32, threshold: u32) -> bool {
    v.spec_ge(Binary32 { bits: threshold })
}

/// A field that exists only before the version `threshold` is present in a
/// save of version `v`.
pub open spec fn before(v: Binary32, threshold: u32) -> bool {
    v.spec_lt(Binary32 { bits: threshold })
}

/// Whether a save of version `v` has a field that exists since `threshold`.
pub fn reaches(v: Binary32, threshold: u32) -> (present: bool)
    ensures
        present == since(v, threshold),
{
    v.ge(Binary32::from_bits(threshold))
}

/// Whether a save of version `v` has a field that exists only before
/// `threshold`.
pub fn precedes(v: Binary32, threshold: u32) -> (present: bool)
    ensures
        present == before(v, threshold),
{
    v.lt(Binary32::from_bits(threshold))
}

/// One player's record. The identifiers are kept as the integers found in
/// the stream; what they stand for is not decided here.
#[derive(Debug)]
pub struct DePlayer {
    pub dlc_id: u32,
    pub color_id: i32,
    pub selected_color: u8,
    pub selected_team_id: u8,
    pub resolved_team_id: u8,
    pub dat_crc: [u8; 8],
    pub mp_game_version: u8,
    pub civ_id: u32,
    pub unk1: Option<u32>,
    pub ai_type: String,
    pub ai_civ_name_index: u8,
    pub ai_name: String,
    pub name: String,
    pub player_type: u32,
    pub profile_id: u32,
    pub unk2: u32,
    pub player_number: i32,
    pub hd_rm_elo: Option<u32>,
    pub hd_dm_elo: Option<u32>,
    pub prefer_random: bool,
    pub custom_ai: bool,
    pub handicap: Option<[u8; 8]>,
}

/// What a player record holds, with its texts as sequences of characters and
/// its blocks as sequences of bytes.
pub struct DePlayerView {
    pub dlc_id: u32,
    pub color_id: i32,
    pub selected_color: u8,
    pub selected_team_id: u8,
    pub resolved_team_id: u8,
    pub dat_crc: Seq<u8>,
    pub mp_game_version: u8,
    pub civ_id: u32,
    pub unk1: Option<u32>,
    pub ai_type: Seq<char>,
    pub ai_civ_name_index: u8,
    pub ai_name: Seq<char>,
    pub name: Seq<char>,
    pub player_type: u32,
    pub profile_id: u32,
    pub unk2: u32,
    pub player_number: i32,
    pub hd_rm_elo: Option<u32>,
    pub hd_dm_elo: Option<u32>,
    pub prefer_random: bool,
    pub custom_ai: bool,
    pub handicap: Option<Seq<u8>>,
}

impl View for DePlayer {
    type V = DePlayerView;

    open spec fn view(&self) -> DePlayerView {
        DePlayerView {
            dlc_id: self.dlc_id,
            color_id: self.color_id,
            selected_color: self.selected_color,
            selected_team_id: self.selected_team_id,
            resolved_team_id: self.resolved_team_id,
            dat_crc: self.dat_crc@,
            mp_game_version: self.mp_game_version,
            civ_id: self.civ_id,
            unk1: self.unk1,
            ai_type: self.ai_type@,
            ai_civ_name_index: self.ai_civ_name_index,
            ai_name: self.ai_name@,
            name: self.name@,
            player_type: self.player_type,
            profile_id: self.profile_id,
            unk2: self.unk2,
            player_number: self.player_number,
            hd_rm_elo: self.hd_rm_elo,
            hd_dm_elo: self.hd_dm_elo,
            prefer_random: self.prefer_random,
            custom_ai: self.custom_ai,
            handicap: match self.handicap {
                Some(block) => Some(block@),
                None => None,
            },
        }
    }
}

/// Steps over one player record of a save of version `v`.
pub open spec fn read_player(c: Cursor, v: Binary32) -> (Cursor, DePlayerView) {
    let (c, dlc_id) = read_u32(c);
    let (c, color_id) = read_i32(c);
    let (c, selected_color) = read_byte(c);
    let (c, selected_team_id) = read_byte(c);
    let (c, resolved_team_id) = read_byte(c);
    let (c, dat_crc) = read_blob(c, 8);
    let (c, mp_game_version) = read_byte(c);
    let (c, civ_id) = read_u32(c);
    let (c, unk1) = read_u32_if(c, since(v, V61_5));
    let (c, ai_type) = read_text(c);
    let (c, ai_civ_name_index) = read_byte(c);
    let (c, ai_name) = read_text(c);
    let (c, name) = read_text(c);
    let (c, player_type) = read_u32(c);
    let (c, profile_id) = read_u32(c);
    let (c, unk2) = read_u32(c);
    let (c, player_number) = read_i32(c);
    let (c, hd_rm_elo) = read_u32_if(c, before(v, V25_22));
    let (c, hd_dm_elo) = read_u32_if(c, before(v, V25_22));
    let (c, prefer_random) = read_flag(c);
    let (c, custom_ai) = read_flag(c);
    let (c, handicap) = read_blob_if(c, 8, since(v, V25_06));
    (
        c,
        DePlayerView {
            dlc_id,
            color_id,
            selected_color,
            selected_team_id,
            resolved_team_id,
            dat_crc,
            mp_game_version,
            civ_id,
            unk1,
            ai_type,
            ai_civ_name_index,
            ai_name,
            name,
            player_type,
            profile_id,
            unk2,
            player_number,
            hd_rm_elo,
            hd_dm_elo,
            prefer_random,
            custom_ai,
            handicap,
        },
    )
}

/// The player record at the front of `s`, in a save of version `v`.
pub open spec fn spec_mgz_de_player(s: Seq<u8>, v: Binary32) -> Parsed<DePlayerView> {
    outcome(read_player(Ok(s), v))
}

/// Decodes one player record of a save of version `save_version`.
pub fn mgz_de_player(input: &[u8], save_version: Binary32) -> (r: Result<
    (&[u8], DePlayer),
    DecodeError,
>)
    ensures
        parsed_view(r, spec_mgz_de_player(input@, save_version)),
{
    let (input, dlc_id) = le_u32(input)?;
    let (input, color_id) = le_i32(input)?;
    let (input, selected_color) = byte(input)?;
    let (input, selected_team_id) = byte(input)?;
    let (input, resolved_team_id) = byte(input)?;
    let (input, dat_crc) = blob8(input)?;
    let (input, mp_game_version) = byte(input)?;
    let (input, civ_id) = le_u32(input)?;
    let (input, unk1) = cond_le_u32(input, reaches(save_version, V61_5))?;
    let (input, ai_type) = de_string(input)?;
    let (input, ai_civ_name_index) = byte(input)?;
    let (input, ai_name) = de_string(input)?;
    let (input, name) = de_string(input)?;
    let (input, player_type) = le_u32(input)?;
    let (input, profile_id) = le_u32(input)?;
    let (input, unk2) = le_u32(input)?;
    let (input, player_number) = le_i32(input)?;
    let (input, hd_rm_elo) = cond_le_u32(input, precedes(save_version, V25_22))?;
    let (input, hd_dm_elo) = cond_le_u32(input, precedes(save_version, V25_22))?;
    let (input, prefer_random) = flag(input)?;
    let (input, custom_ai) = flag(input)?;
    let (input, handicap) = cond_blob8(input, reaches(save_version, V25_06))?;

    let player = DePlayer {
        dlc_id,
        color_id,
        selected_color,
        selected_team_id,
        resolved_team_id,
        dat_crc,
        mp_game_version,
        civ_id,
        unk1,
        ai_type: ai_type.to_owned(),
        ai_civ_name_index,
        ai_name: ai_name.to_owned(),
        name: name.to_owned(),
        player_type,
        profile_id,
        unk2,
        player_number,
        hd_rm_elo,
        hd_dm_elo,
        prefer_random,
        custom_ai,
        handicap,
    };
    Ok((input, player))
}

/// The player records of a list, each by its view.
pub open spec fn player_views(players: Seq<DePlayer>) -> Seq<DePlayerView> {
    players.map_values(|p: DePlayer| p@)
}

/// The game-settings record. The identifiers of map, difficulty, victory
/// condition, ages, resources and game type are kept as the integers found
/// in the stream.
#[derive(Debug)]
pub struct DeHeader {
    pub build: Option<u32>,
    pub timestamp: Option<u32>,
    pub version: Binary32,
    pub interval_version: u32,
    pub game_options_version: u32,
    pub dlc_count: u32,
    pub dlc_ids: Vec<u32>,
    pub dataset_ref: u32,
    pub difficulty_id: u32,
    pub selected_map_id: u32,
    pub resolved_map_id: u32,
    pub reveal_map: u32,
    pub victory_type_id: u32,
    pub starting_resources_id: u32,
    pub starting_age_id: u32,
    pub ending_age_id: u32,
    pub game_type: u32,
    pub speed: Binary32,
    pub treaty_length: u32,
    pub population_limit: u32,
    pub num_players: u32,
    pub unused_player_color: u32,
    pub victory_amount: i32,
    pub unk_byte: Option<bool>,
    pub trade_enabled: bool,
    pub team_bonus_disabled: bool,
    pub random_positions: bool,
    pub all_techs: bool,
    pub num_starting_units: u8,
    pub lock_teams: bool,
    pub lock_speed: bool,
    pub multiplayer: bool,
    pub cheats: bool,
    pub record_game: bool,
    pub animals_enabled: bool,
    pub predators_enabled: bool,
    pub turbo_enabled: bool,
    pub shared_exploration: bool,
    pub team_positions: bool,
    pub sub_game_mode: Option<u32>,
    pub battle_royale_time: Option<u32>,
    pub handicap: Option<bool>,
    pub unk: Option<bool>,
    pub players: Vec<DePlayer>,
    pub fog_of_war: u8,
    pub cheat_notifications: bool,
    pub colored_chat: bool,
}

/// The fields in front of the list of DLC identifiers.
#[derive(Clone, Copy, Debug)]
pub struct DePreamble {
    pub build: Option<u32>,
    pub timestamp: Option<u32>,
    pub version: Binary32,
    pub interval_version: u32,
    pub game_options_version: u32,
    pub dlc_count: u32,
}

/// The ten identifiers behind the list of DLC identifiers. Two sync markers end this part.
#[derive(Clone, Copy, Debug)]
pub struct DeScenario {
    pub dataset_ref: u32,
    pub difficulty_id: u32,
    pub selected_map_id: u32,
    pub resolved_map_id: u32,
    pub reveal_map: u32,
    pub victory_type_id: u32,
    pub starting_resources_id: u32,
    pub starting_age_id: u32,
    pub ending_age_id: u32,
    pub game_type: u32,
}

/// The seven fields behind the scenario. A sync marker ends this part.
#[derive(Clone, Copy, Debug)]
pub struct DeLimits {
    pub speed: Binary32,
    pub treaty_length: u32,
    pub population_limit: u32,
    pub num_players: u32,
    pub unused_player_color: u32,
    pub victory_amount: i32,
    pub unk_byte: Option<bool>,
}

/// The first eight fields behind the limits.
#[derive(Clone, Copy, Debug)]
pub struct DeRules {
    pub trade_enabled: bool,
    pub team_bonus_disabled: bool,
    pub random_positions: bool,
    pub all_techs: bool,
    pub num_starting_units: u8,
    pub lock_teams: bool,
    pub lock_speed: bool,
    pub multiplayer: bool,
}

/// The seven switches behind the rules.
#[derive(Clone, Copy, Debug)]
pub struct DeToggles {
    pub cheats: bool,
    pub record_game: bool,
    pub animals_enabled: bool,
    pub predators_enabled: bool,
    pub turbo_enabled: bool,
    pub shared_exploration: bool,
    pub team_positions: bool,
}

/// The four optional fields behind the switches. A sync marker ends this
/// part.
#[derive(Clone, Copy, Debug)]
pub struct DeModes {
    pub sub_game_mode: Option<u32>,
    pub battle_royale_time: Option<u32>,
    pub handicap: Option<bool>,
    pub unk: Option<bool>,
}

/// The three fields behind the player records. Nine bytes that are not read stand in front of them.
#[derive(Clone, Copy, Debug)]
pub struct DeTrailer {
    pub fog_of_war: u8,
    pub cheat_notifications: bool,
    pub colored_chat: bool,
}

/// What a game-settings record holds, grouped by the parts of the record in
/// the order of the stream, with its two lists as sequences.
pub struct DeHeaderView {
    pub preamble: DePreamble,
    pub dlc_ids: Seq<u32>,
    pub scenario: DeScenario,
    pub limits: DeLimits,
    pub rules: DeRules,
    pub toggles: DeToggles,
    pub modes: DeModes,
    pub players: Seq<DePlayerView>,
    pub trailer: DeTrailer,
}

impl View for DeHeader {
    type V = DeHeaderView;

    open spec fn view(&self) -> DeHeaderView {
        DeHeaderView {
            preamble: DePreamble {
                build: self.build,
                timestamp: self.timestamp,
                version: self.version,
                interval_version: self.interval_version,
                game_options_version: self.game_options_version,
                dlc_count: self.dlc_count,
            },
            dlc_ids: self.dlc_ids@,
            scenario: DeScenario {
                dataset_ref: self.dataset_ref,
                difficulty_id: self.difficulty_id,
                selected_map_id: self.selected_map_id,
                resolved_map_id: self.resolved_map_id,
                reveal_map: self.reveal_map,
                victory_type_id: self.victory_type_id,
                starting_resources_id: self.starting_resources_id,
                starting_age_id: self.starting_age_id,
                ending_age_id: self.ending_age_id,
                game_type: self.game_type,
            },
            limits: DeLimits {
                speed: self.speed,
                treaty_length: self.treaty_length,
                population_limit: self.population_limit,
                num_players: self.num_players,
                unused_player_color: self.unused_player_color,
                victory_amount: self.victory_amount,
                unk_byte: self.unk_byte,
            },
            rules: DeRules {
                trade_enabled: self.trade_enabled,
                team_bonus_disabled: self.team_bonus_disabled,
                random_positions: self.random_positions,
                all_techs: self.all_techs,
                num_starting_units: self.num_starting_units,
                lock_teams: self.lock_teams,
                lock_speed: self.lock_speed,
                multiplayer: self.multiplayer,
            },
            toggles: DeToggles {
                cheats: self.cheats,
                record_game: self.record_game,
                animals_enabled: self.animals_enabled,
                predators_enabled: self.predators_enabled,
                turbo_enabled: self.turbo_enabled,
                shared_exploration: self.shared_exploration,
                team_positions: self.team_positions,
            },
            modes: DeModes {
                sub_game_mode: self.sub_game_mode,
                battle_royale_time: self.battle_royale_time,
                handicap: self.handicap,
                unk: self.unk,
            },
            players: player_views(self.players@),
            trailer: DeTrailer {
                fog_of_war: self.fog_of_war,
                cheat_notifications: self.cheat_notifications,
                colored_chat: self.colored_chat,
            },
        }
    }
}

/// The sync marker: the literal that has to stand at three places of the
/// record, at the first of them twice in a row.
pub open spec fn sync_marker() -> Seq<u8> {
    seq![0xA3u8, 0x5Fu8, 0x02u8, 0x00u8]
}

/// The number of player records in a save of version `v` that declares
/// `num_players` players: the declared number since version 37, and eight
/// before it, whatever is declared.
pub open spec fn slot_count(v: Binary32, num_players: u32) -> u32 {
    if since(v, V37) {
        num_players
    } else {
        LEGACY_SLOTS
    }
}

/// Steps over a sync marker.
pub open spec fn read_marker(c: Cursor) -> Cursor {
    step(c, spec_tag(left(c), sync_marker()), ()).0
}

/// Steps over `n` bytes that carry nothing.
pub open spec fn read_skip(c: Cursor, n: nat) -> Cursor {
    read_blob(c, n).0
}

/// Steps over `n` unsigned 32-bit numbers.
pub open spec fn read_many_u32(c: Cursor, n: nat) -> (Cursor, Seq<u32>)
    decreases n,
{
    if n == 0 || c is Err {
        (c, Seq::empty())
    } else {
        let (c, front) = read_many_u32(c, (n - 1) as nat);
        let (c, last) = read_u32(c);
        (c, front.push(last))
    }
}

/// Steps over `n` player records of a save of version `v`.
pub open spec fn read_players(c: Cursor, v: Binary32, n: nat) -> (Cursor, Seq<DePlayerView>)
    decreases n,
{
    if n == 0 || c is Err {
        (c, Seq::empty())
    } else {
        let (c, front) = read_players(c, v, (n - 1) as nat);
        let (c, last) = read_player(c, v);
        (c, front.push(last))
    }
}

/// Steps over the part of the record that `DePreamble` holds, in a save of version `v`.
pub open spec fn read_preamble(c: Cursor, v: Binary32) -> (Cursor, DePreamble) {
    let (c, build) = read_u32_if(c, since(v, V25_22));
    let (c, timestamp) = read_u32_if(c, since(v, V26_16));
    let (c, version) = read_binary32(c);
    let (c, interval_version) = read_u32(c);
    let (c, game_options_version) = read_u32(c);
    let (c, dlc_count) = read_u32(c);
    (c, DePreamble { build, timestamp, version, interval_version, game_options_version, dlc_count })
}

/// Steps over the part of the record that `DeScenario` holds, in a save of version `v`.
pub open spec fn read_scenario(c: Cursor, v: Binary32) -> (Cursor, DeScenario) {
    let (c, dataset_ref) = read_u32(c);
    let (c, difficulty_id) = read_u32(c);
    let (c, selected_map_id) = read_u32(c);
    let (c, resolved_map_id) = read_u32(c);
    let (c, reveal_map) = read_u32(c);
    let (c, victory_type_id) = read_u32(c);
    let (c, starting_resources_id) = read_u32(c);
    let (c, starting_age_id) = read_u32(c);
    let (c, ending_age_id) = read_u32(c);
    let (c, game_type) = read_u32(c);
    let c = read_marker(c);
    let c = read_marker(c);
    (
        c,
        DeScenario {
            dataset_ref,
            difficulty_id,
            selected_map_id,
            resolved_map_id,
            reveal_map,
            victory_type_id,
            starting_resources_id,
            starting_age_id,
            ending_age_id,
            game_type,
        },
    )
}

/// Steps over the part of the record that `DeLimits` holds, in a save of version `v`.
pub open spec fn read_limits(c: Cursor, v: Binary32) -> (Cursor, DeLimits) {
    let (c, speed) = read_binary32(c);
    let (c, treaty_length) = read_u32(c);
    let (c, population_limit) = read_u32(c);
    let (c, num_players) = read_u32(c);
    let (c, unused_player_color) = read_u32(c);
    let (c, victory_amount) = read_i32(c);
    let (c, unk_byte) = read_flag_if(c, since(v, V61_5));
    let c = read_marker(c);
    (
        c,
        DeLimits {
            speed,
            treaty_length,
            population_limit,
            num_players,
            unused_player_color,
            victory_amount,
            unk_byte,
        },
    )
}

/// Steps over the part of the record that `DeRules` holds, in a save of version `v`.
pub open spec fn read_rules(c: Cursor, v: Binary32) -> (Cursor, DeRules) {
    let (c, trade_enabled) = read_flag(c);
    let (c, team_bonus_disabled) = read_flag(c);
    let (c, random_positions) = read_flag(c);
    let (c, all_techs) = read_flag(c);
    let (c, num_starting_units) = read_byte(c);
    let (c, lock_teams) = read_flag(c);
    let (c, lock_speed) = read_flag(c);
    let (c, multiplayer) = read_flag(c);
    (
        c,
        DeRules {
            trade_enabled,
            team_bonus_disabled,
            random_positions,
            all_techs,
            num_starting_units,
            lock_teams,
            lock_speed,
            multiplayer,
        },
    )
}

/// Steps over the part of the record that `DeToggles` holds, in a save of version `v`.
pub open spec fn read_toggles(c: Cursor, v: Binary32) -> (Cursor, DeToggles) {
    let (c, cheats) = read_flag(c);
    let (c, record_game) = read_flag(c);
    let (c, animals_enabled) = read_flag(c);
    let (c, predators_enabled) = read_flag(c);
    let (c, turbo_enabled) = read_flag(c);
    let (c, shared_exploration) = read_flag(c);
    let (c, team_positions) = read_flag(c);
    (
        c,
        DeToggles {
            cheats,
            record_game,
            animals_enabled,
            predators_enabled,
            turbo_enabled,
            shared_exploration,
            team_positions,
        },
    )
}

/// Steps over the part of the record that `DeModes` holds, in a save of version `v`.
pub open spec fn read_modes(c: Cursor, v: Binary32) -> (Cursor, DeModes) {
    let (c, sub_game_mode) = read_u32_if(c, since(v, V13_34));
    let (c, battle_royale_time) = read_u32_if(c, since(v, V13_34));
    let (c, handicap) = read_flag_if(c, since(v, V25_06));
    let (c, unk) = read_flag_if(c, since(v, V50));
    let c = read_marker(c);
    (c, DeModes { sub_game_mode, battle_royale_time, handicap, unk })
}

/// Steps over the part of the record that `DeTrailer` holds, in a save of version `v`.
pub open spec fn read_trailer(c: Cursor, v: Binary32) -> (Cursor, DeTrailer) {
    let c = read_skip(c, 9);
    let (c, fog_of_war) = read_byte(c);
    let (c, cheat_notifications) = read_flag(c);
    let (c, colored_chat) = read_flag(c);
    (c, DeTrailer { fog_of_war, cheat_notifications, colored_chat })
}

/// Steps over the game-settings record of a save of version `v`.
pub open spec fn read_de(c: Cursor, v: Binary32) -> (Cursor, DeHeaderView) {
    let (c, preamble) = read_preamble(c, v);
    let (c, dlc_ids) = read_many_u32(c, preamble.dlc_count as nat);
    let (c, scenario) = read_scenario(c, v);
    let (c, limits) = read_limits(c, v);
    let (c, rules) = read_rules(c, v);
    let (c, toggles) = read_toggles(c, v);
    let (c, modes) = read_modes(c, v);
    let (c, players) = read_players(c, v, slot_count(v, limits.num_players) as nat);
    let (c, trailer) = read_trailer(c, v);
    (
        c,
        DeHeaderView {
            preamble,
            dlc_ids,
            scenario,
            limits,
            rules,
            toggles,
            modes,
            players,
            trailer,
        },
    )
}

/// The game-settings record at the front of `s`, in a save of version `v`.
/// Bytes behind the record are left as they are.
pub open spec fn spec_mgz_de(s: Seq<u8>, v: Binary32) -> Parsed<DeHeaderView> {
    outcome(read_de(Ok(s), v))
}

/// A decode that has failed stays failed over any number of 32-bit numbers.
pub proof fn lemma_read_many_u32_stays_failed(c: Cursor, i: nat, n: nat)
    requires
        i <= n,
        read_many_u32(c, i).0 is Err,
    ensures
        read_many_u32(c, n).0 == read_many_u32(c, i).0,
    decreases n,
{
    if i < n {
        lemma_read_many_u32_stays_failed(c, i, (n - 1) as nat);
    }
}

/// A decode that has failed stays failed over any number of player records.
pub proof fn lemma_read_players_stays_failed(c: Cursor, v: Binary32, i: nat, n: nat)
    requires
        i <= n,
        read_players(c, v, i).0 is Err,
    ensures
        read_players(c, v, n).0 == read_players(c, v, i).0,
    decreases n,
{
    if i < n {
        lemma_read_players_stays_failed(c, v, i, (n - 1) as nat);
    }
}

/// Steps over a sync marker.
pub fn separator(input: &[u8]) -> (r: Result<(&[u8], ()), DecodeError>)
    ensures
        parsed(r, spec_tag(input@, sync_marker())),
{
    let literal: [u8; 4] = [0xA3, 0x5F, 0x02, 0x00];
    assert(literal@ =~= sync_marker());
    tag(input, literal.as_slice())
}

/// Reads `n` unsigned 32-bit numbers.
pub fn count_le_u32(input: &[u8], n: u32) -> (r: Result<(&[u8], Vec<u32>), DecodeError>)
    ensures
        parsed_view(r, outcome(read_many_u32(Ok(input@), n as nat))),
{
    let mut numbers: Vec<u32> = Vec::new();
    let mut rest = input;
    let mut i: u32 = 0;
    while i < n
        invariant
            i <= n,
            read_many_u32(Ok(input@), i as nat) == (Ok::<Seq<u8>, DecodeError>(rest@), numbers@),
        decreases n - i,
    {
        match le_u32(rest) {
            Ok((behind, number)) => {
                numbers.push(number);
                rest = behind;
                i += 1;
            },
            Err(e) => {
                proof {
                    lemma_read_many_u32_stays_failed(Ok(input@), (i + 1) as nat, n as nat);
                }
                return Err(e);
            },
        }
    }
    Ok((rest, numbers))
}

/// Reads `n` player records of a save of version `save_version`.
pub fn count_players(input: &[u8], save_version: Binary32, n: u32) -> (r: Result<
    (&[u8], Vec<DePlayer>),
    DecodeError,
>)
    ensures
        match r {
            Ok((rest, players)) => {
                &&& read_players(Ok(input@), save_version, n as nat) == (
                    Ok::<Seq<u8>, DecodeError>(rest@),
                    player_views(players@),
                )
                &&& players@.len() == n
            },
            Err(e) => read_players(Ok(input@), save_version, n as nat).0 == Err::<
                Seq<u8>,
                DecodeError,
            >(e),
        },
{
    let mut players: Vec<DePlayer> = Vec::new();
    let mut rest = input;
    let mut i: u32 = 0;
    assert(player_views(players@) =~= Seq::empty());
    while i < n
        invariant
            i <= n,
            players@.len() == i,
            read_players(Ok(input@), save_version, i as nat) == (
                Ok::<Seq<u8>, DecodeError>(rest@),
                player_views(players@),
            ),
        decreases n - i,
    {
        match mgz_de_player(rest, save_version) {
            Ok((behind, player)) => {
                let ghost before_push = players@;
                players.push(player);
                assert(player_views(players@) =~= player_views(before_push).push(player@));
                rest = behind;
                i += 1;
            },
            Err(e) => {
                proof {
                    lemma_read_players_stays_failed(
                        Ok(input@),
                        save_version,
                        (i + 1) as nat,
                        n as nat,
                    );
                }
                return Err(e);
            },
        }
    }
    Ok((rest, players))
}

/// Decodes the part of the record that `DePreamble` holds.
fn mgz_de_preamble(input: &[u8], save_version: Binary32) -> (r: Result<
    (&[u8], DePreamble),
    DecodeError,
>)
    ensures
        parsed(r, outcome(read_preamble(Ok(input@), save_version))),
{
    let (input, build) = cond_le_u32(input, reaches(save_version, V25_22))?;
    let (input, timestamp) = cond_le_u32(input, reaches(save_version, V26_16))?;
    let (input, version) = le_binary32(input)?;
    let (input, interval_version) = le_u32(input)?;
    let (input, game_options_version) = le_u32(input)?;
    let (input, dlc_count) = le_u32(input)?;
    Ok(
        (
            input,
            DePreamble {
                build,
                timestamp,
                version,
                interval_version,
                game_options_version,
                dlc_count,
            },
        ),
    )
}

/// Decodes the part of the record that `DeScenario` holds.
fn mgz_de_scenario(input: &[u8], save_version: Binary32) -> (r: Result<
    (&[u8], DeScenario),
    DecodeError,
>)
    ensures
        parsed(r, outcome(read_scenario(Ok(input@), save_version))),
{
    let (input, dataset_ref) = le_u32(input)?;
    let (input, difficulty_id) = le_u32(input)?;
    let (input, selected_map_id) = le_u32(input)?;
    let (input, resolved_map_id) = le_u32(input)?;
    let (input, reveal_map) = le_u32(input)?;
    let (input, victory_type_id) = le_u32(input)?;
    let (input, starting_resources_id) = le_u32(input)?;
    let (input, starting_age_id) = le_u32(input)?;
    let (input, ending_age_id) = le_u32(input)?;
    let (input, game_type) = le_u32(input)?;
    let (input, _) = separator(input)?;
    let (input, _) = separator(input)?;
    Ok(
        (
            input,
            DeScenario {
                dataset_ref,
                difficulty_id,
                selected_map_id,
                resolved_map_id,
                reveal_map,
                victory_type_id,
                starting_resources_id,
                starting_age_id,
                ending_age_id,
                game_type,
            },
        ),
    )
}

/// Decodes the part of the record that `DeLimits` holds.
fn mgz_de_limits(input: &[u8], save_version: Binary32) -> (r: Result<
    (&[u8], DeLimits),
    DecodeError,
>)
    ensures
        parsed(r, outcome(read_limits(Ok(input@), save_version))),
{
    let (input, speed) = le_binary32(input)?;
    let (input, treaty_length) = le_u32(input)?;
    let (input, population_limit) = le_u32(input)?;
    let (input, num_players) = le_u32(input)?;
    let (input, unused_player_color) = le_u32(input)?;
    let (input, victory_amount) = le_i32(input)?;
    let (input, unk_byte) = cond_flag(input, reaches(save_version, V61_5))?;
    let (input, _) = separator(input)?;
    Ok(
        (
            input,
            DeLimits {
                speed,
                treaty_length,
                population_limit,
                num_players,
                unused_player_color,
                victory_amount,
                unk_byte,
            },
        ),
    )
}

/// Decodes the part of the record that `DeRules` holds.
fn mgz_de_rules(input: &[u8], save_version: Binary32) -> (r: Result<(&[u8], DeRules), DecodeError>)
    ensures
        parsed(r, outcome(read_rules(Ok(input@), save_version))),
{
    let (input, trade_enabled) = flag(input)?;
    let (input, team_bonus_disabled) = flag(input)?;
    let (input, random_positions) = flag(input)?;
    let (input, all_techs) = flag(input)?;
    let (input, num_starting_units) = byte(input)?;
    let (input, lock_teams) = flag(input)?;
    let (input, lock_speed) = flag(input)?;
    let (input, multiplayer) = flag(input)?;
    Ok(
        (
            input,
            DeRules {
                trade_enabled,
                team_bonus_disabled,
                random_positions,
                all_techs,
                num_starting_units,
                lock_teams,
                lock_speed,
                multiplayer,
            },
        ),
    )
}

/// Decodes the part of the record that `DeToggles` holds.
fn mgz_de_toggles(input: &[u8], save_version: Binary32) -> (r: Result<
    (&[u8], DeToggles),
    DecodeError,
>)
    ensures
        parsed(r, outcome(read_toggles(Ok(input@), save_version))),
{
    let (input, cheats) = flag(input)?;
    let (input, record_game) = flag(input)?;
    let (input, animals_enabled) = flag(input)?;
    let (input, predators_enabled) = flag(input)?;
    let (input, turbo_enabled) = flag(input)?;
    let (input, shared_exploration) = flag(input)?;
    let (input, team_positions) = flag(input)?;
    Ok(
        (
            input,
            DeToggles {
                cheats,
                record_game,
                animals_enabled,
                predators_enabled,
                turbo_enabled,
                shared_exploration,
                team_positions,
            },
        ),
    )
}

/// Decodes the part of the record that `DeModes` holds.
fn mgz_de_modes(input: &[u8], save_version: Binary32) -> (r: Result<(&[u8], DeModes), DecodeError>)
    ensures
        parsed(r, outcome(read_modes(Ok(input@), save_version))),
{
    let (input, sub_game_mode) = cond_le_u32(input, reaches(save_version, V13_34))?;
    let (input, battle_royale_time) = cond_le_u32(input, reaches(save_version, V13_34))?;
    let (input, handicap) = cond_flag(input, reaches(save_version, V25_06))?;
    let (input, unk) = cond_flag(input, reaches(save_version, V50))?;
    let (input, _) = separator(input)?;
    Ok((input, DeModes { sub_game_mode, battle_royale_time, handicap, unk }))
}

/// Decodes the part of the record that `DeTrailer` holds.
fn mgz_de_trailer(input: &[u8], save_version: Binary32) -> (r: Result<
    (&[u8], DeTrailer),
    DecodeError,
>)
    ensures
        parsed(r, outcome(read_trailer(Ok(input@), save_version))),
{
    let (input, _) = take(input, 9)?;
    let (input, fog_of_war) = byte(input)?;
    let (input, cheat_notifications) = flag(input)?;
    let (input, colored_chat) = flag(input)?;
    Ok((input, DeTrailer { fog_of_war, cheat_notifications, colored_chat }))
}

/// A record whose fields are those of `preamble` holds `preamble` as that part.
proof fn lemma_preamble_part(header: DeHeader, preamble: DePreamble)
    requires
        header.build == preamble.build,
        header.timestamp == preamble.timestamp,
        header.version == preamble.version,
        header.interval_version == preamble.interval_version,
        header.game_options_version == preamble.game_options_version,
        header.dlc_count == preamble.dlc_count,
    ensures
        header@.preamble == preamble,
{
}

/// A record whose fields are those of `scenario` holds `scenario` as that part.
proof fn lemma_scenario_part(header: DeHeader, scenario: DeScenario)
    requires
        header.dataset_ref == scenario.dataset_ref,
        header.difficulty_id == scenario.difficulty_id,
        header.selected_map_id == scenario.selected_map_id,
        header.resolved_map_id == scenario.resolved_map_id,
        header.reveal_map == scenario.reveal_map,
        header.victory_type_id == scenario.victory_type_id,
        header.starting_resources_id == scenario.starting_resources_id,
        header.starting_age_id == scenario.starting_age_id,
        header.ending_age_id == scenario.ending_age_id,
        header.game_type == scenario.game_type,
    ensures
        header@.scenario == scenario,
{
}

/// A record whose fields are those of `limits` holds `limits` as that part.
proof fn lemma_limits_part(header: DeHeader, limits: DeLimits)
    requires
        header.speed == limits.speed,
        header.treaty_length == limits.treaty_length,
        header.population_limit == limits.population_limit,
        header.num_players == limits.num_players,
        header.unused_player_color == limits.unused_player_color,
        header.victory_amount == limits.victory_amount,
        header.unk_byte == limits.unk_byte,
    ensures
        header@.limits == limits,
{
}

/// A record whose fields are those of `rules` holds `rules` as that part.
proof fn lemma_rules_part(header: DeHeader, rules: DeRules)
    requires
        header.trade_enabled == rules.trade_enabled,
        header.team_bonus_disabled == rules.team_bonus_disabled,
        header.random_positions == rules.random_positions,
        header.all_techs == rules.all_techs,
        header.num_starting_units == rules.num_starting_units,
        header.lock_teams == rules.lock_teams,
        header.lock_speed == rules.lock_speed,
        header.multiplayer == rules.multiplayer,
    ensures
        header@.rules == rules,
{
}

/// A record whose fields are those of `toggles` holds `toggles` as that part.
proof fn lemma_toggles_part(header: DeHeader, toggles: DeToggles)
    requires
        header.cheats == toggles.cheats,
        header.record_game == toggles.record_game,
        header.animals_enabled == toggles.animals_enabled,
        header.predators_enabled == toggles.predators_enabled,
        header.turbo_enabled == toggles.turbo_enabled,
        header.shared_exploration == toggles.shared_exploration,
        header.team_positions == toggles.team_positions,
    ensures
        header@.toggles == toggles,
{
}

/// A record whose fields are those of `modes` holds `modes` as that part.
proof fn lemma_modes_part(header: DeHeader, modes: DeModes)
    requires
        header.sub_game_mode == modes.sub_game_mode,
        header.battle_royale_time == modes.battle_royale_time,
        header.handicap == modes.handicap,
        header.unk == modes.unk,
    ensures
        header@.modes == modes,
{
}

/// A record whose fields are those of `trailer` holds `trailer` as that part.
proof fn lemma_trailer_part(header: DeHeader, trailer: DeTrailer)
    requires
        header.fog_of_war == trailer.fog_of_war,
        header.cheat_notifications == trailer.cheat_notifications,
        header.colored_chat == trailer.colored_chat,
    ensures
        header@.trailer == trailer,
{
}

/// A record whose fields are those of the parts holds the parts.
#[verifier::rlimit(40)]
proof fn lemma_view_of_parts(
    header: DeHeader,
    preamble: DePreamble,
    dlc_ids: Vec<u32>,
    scenario: DeScenario,
    limits: DeLimits,
    rules: DeRules,
    toggles: DeToggles,
    modes: DeModes,
    players: Vec<DePlayer>,
    trailer: DeTrailer,
)
    requires
        header.build == preamble.build,
        header.timestamp == preamble.timestamp,
        header.version == preamble.version,
        header.interval_version == preamble.interval_version,
        header.game_options_version == preamble.game_options_version,
        header.dlc_count == preamble.dlc_count,
        header.dlc_ids == dlc_ids,
        header.dataset_ref == scenario.dataset_ref,
        header.difficulty_id == scenario.difficulty_id,
        header.selected_map_id == scenario.selected_map_id,
        header.resolved_map_id == scenario.resolved_map_id,
        header.reveal_map == scenario.reveal_map,
        header.victory_type_id == scenario.victory_type_id,
        header.starting_resources_id == scenario.starting_resources_id,
        header.starting_age_id == scenario.starting_age_id,
        header.ending_age_id == scenario.ending_age_id,
        header.game_type == scenario.game_type,
        header.speed == limits.speed,
        header.treaty_length == limits.treaty_length,
        header.population_limit == limits.population_limit,
        header.num_players == limits.num_players,
        header.unused_player_color == limits.unused_player_color,
        header.victory_amount == limits.victory_amount,
        header.unk_byte == limits.unk_byte,
        header.trade_enabled == rules.trade_enabled,
        header.team_bonus_disabled == rules.team_bonus_disabled,
        header.random_positions == rules.random_positions,
        header.all_techs == rules.all_techs,
        header.num_starting_units == rules.num_starting_units,
        header.lock_teams == rules.lock_teams,
        header.lock_speed == rules.lock_speed,
        header.multiplayer == rules.multiplayer,
        header.cheats == toggles.cheats,
        header.record_game == toggles.record_game,
        header.animals_enabled == toggles.animals_enabled,
        header.predators_enabled == toggles.predators_enabled,
        header.turbo_enabled == toggles.turbo_enabled,
        header.shared_exploration == toggles.shared_exploration,
        header.team_positions == toggles.team_positions,
        header.sub_game_mode == modes.sub_game_mode,
        header.battle_royale_time == modes.battle_royale_time,
        header.handicap == modes.handicap,
        header.unk == modes.unk,
        header.players == players,
        header.fog_of_war == trailer.fog_of_war,
        header.cheat_notifications == trailer.cheat_notifications,
        header.colored_chat == trailer.colored_chat,
    ensures
        header@ == (DeHeaderView {
            preamble,
            dlc_ids: dlc_ids@,
            scenario,
            limits,
            rules,
            toggles,
            modes,
            players: player_views(players@),
            trailer,
        }),
{
    lemma_preamble_part(header, preamble);
    lemma_scenario_part(header, scenario);
    lemma_limits_part(header, limits);
    lemma_rules_part(header, rules);
    lemma_toggles_part(header, toggles);
    lemma_modes_part(header, modes);
    lemma_trailer_part(header, trailer);
}

/// The parts of a record as they come out of the stream.
struct Parts {
    preamble: DePreamble,
    dlc_ids: Vec<u32>,
    scenario: DeScenario,
    limits: DeLimits,
    rules: DeRules,
    toggles: DeToggles,
    modes: DeModes,
    players: Vec<DePlayer>,
    trailer: DeTrailer,
}

impl Parts {
    /// What the parts hold.
    spec fn held(&self) -> DeHeaderView {
        DeHeaderView {
            preamble: self.preamble,
            dlc_ids: self.dlc_ids@,
            scenario: self.scenario,
            limits: self.limits,
            rules: self.rules,
            toggles: self.toggles,
            modes: self.modes,
            players: player_views(self.players@),
            trailer: self.trailer,
        }
    }
}

/// Decodes the parts of a record one after the other.
fn mgz_de_parts(input: &[u8], save_version: Binary32) -> (r: Result<(&[u8], Parts), DecodeError>)
    ensures
        match r {
            Ok((rest, parts)) => {
                &&& spec_mgz_de(input@, save_version) == Ok::<(Seq<u8>, DeHeaderView), DecodeError>(
                    (rest@, parts.held()),
                )
                &&& parts.players@.len() == slot_count(save_version, parts.limits.num_players)
            },
            Err(e) => spec_mgz_de(input@, save_version) == Err::<
                (Seq<u8>, DeHeaderView),
                DecodeError,
            >(e),
        },
{
    let (input, preamble) = mgz_de_preamble(input, save_version)?;
    let (input, dlc_ids) = count_le_u32(input, preamble.dlc_count)?;
    let (input, scenario) = mgz_de_scenario(input, save_version)?;
    let (input, limits) = mgz_de_limits(input, save_version)?;
    let (input, rules) = mgz_de_rules(input, save_version)?;
    let (input, toggles) = mgz_de_toggles(input, save_version)?;
    let (input, modes) = mgz_de_modes(input, save_version)?;
    let num_player_slots = if reaches(save_version, V37) {
        limits.num_players
    } else {
        LEGACY_SLOTS
    };
    let (input, players) = count_players(input, save_version, num_player_slots)?;
    let (input, trailer) = mgz_de_trailer(input, save_version)?;
    Ok(
        (
            input,
            Parts {
                preamble,
                dlc_ids,
                scenario,
                limits,
                rules,
                toggles,
                modes,
                players,
                trailer,
            },
        ),
    )
}

/// Lays the parts of a record out as one record.
fn flatten(parts: Parts) -> (header: DeHeader)
    ensures
        header@ == parts.held(),
        header.players@.len() == parts.players@.len(),
        header.num_players == parts.limits.num_players,
{
    let ghost given = parts;
    let header = DeHeader {
        build: parts.preamble.build,
        timestamp: parts.preamble.timestamp,
        version: parts.preamble.version,
        interval_version: parts.preamble.interval_version,
        game_options_version: parts.preamble.game_options_version,
        dlc_count: parts.preamble.dlc_count,
        dlc_ids: parts.dlc_ids,
        dataset_ref: parts.scenario.dataset_ref,
        difficulty_id: parts.scenario.difficulty_id,
        selected_map_id: parts.scenario.selected_map_id,
        resolved_map_id: parts.scenario.resolved_map_id,
        reveal_map: parts.scenario.reveal_map,
        victory_type_id: parts.scenario.victory_type_id,
        starting_resources_id: parts.scenario.starting_resources_id,
        starting_age_id: parts.scenario.starting_age_id,
        ending_age_id: parts.scenario.ending_age_id,
        game_type: parts.scenario.game_type,
        speed: parts.limits.speed,
        treaty_length: parts.limits.treaty_length,
        population_limit: parts.limits.population_limit,
        num_players: parts.limits.num_players,
        unused_player_color: parts.limits.unused_player_color,
        victory_amount: parts.limits.victory_amount,
        unk_byte: parts.limits.unk_byte,
        trade_enabled: parts.rules.trade_enabled,
        team_bonus_disabled: parts.rules.team_bonus_disabled,
        random_positions: parts.rules.random_positions,
        all_techs: parts.rules.all_techs,
        num_starting_units: parts.rules.num_starting_units,
        lock_teams: parts.rules.lock_teams,
        lock_speed: parts.rules.lock_speed,
        multiplayer: parts.rules.multiplayer,
        cheats: parts.toggles.cheats,
        record_game: parts.toggles.record_game,
        animals_enabled: parts.toggles.animals_enabled,
        predators_enabled: parts.toggles.predators_enabled,
        turbo_enabled: parts.toggles.turbo_enabled,
        shared_exploration: parts.toggles.shared_exploration,
        team_positions: parts.toggles.team_positions,
        sub_game_mode: parts.modes.sub_game_mode,
        battle_royale_time: parts.modes.battle_royale_time,
        handicap: parts.modes.handicap,
        unk: parts.modes.unk,
        players: parts.players,
        fog_of_war: parts.trailer.fog_of_war,
        cheat_notifications: parts.trailer.cheat_notifications,
        colored_chat: parts.trailer.colored_chat,
    };
    proof {
        lemma_view_of_parts(
            header,
            given.preamble,
            given.dlc_ids,
            given.scenario,
            given.limits,
            given.rules,
            given.toggles,
            given.modes,
            given.players,
            given.trailer,
        );
    }
    header
}

/// Decodes the game-settings record of a save of version `save_version`.
///
/// The record is read field by field in its fixed order. The first failure
/// ends the decode. Every sync marker has to match exactly. The number of
/// player records is `slot_count`. Bytes behind the last field are handed
/// back unread.
///
/// The parts of the record are decoded first and laid out as one record
/// afterwards.
pub fn mgz_de(input: &[u8], save_version: Binary32) -> (r: Result<(&[u8], DeHeader), DecodeError>)
    ensures
        parsed_view(r, spec_mgz_de(input@, save_version)),
        r matches Ok((_, header)) ==> header.players@.len() == slot_count(
            save_version,
            header.num_players,
        ),
{
    let (input, parts) = mgz_de_parts(input, save_version)?;
    Ok((input, flatten(parts)))
}

} // verus!
