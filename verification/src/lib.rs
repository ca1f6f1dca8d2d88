//! Decoder for the header of a recorded-game container.
//!
//! A recording starts with a length-prefixed frame. The frame holds an
//! optional chapter address and a raw deflate stream. The inflated stream is
//! a flat little-endian record whose layout depends on a save version that
//! the record itself carries: a text token with the game version, the save
//! version, and the game-settings record of the Definitive Edition with its
//! player records.
//!
//! Every decoder takes the remaining bytes and hands back the bytes behind
//! what it read together with the decoded value. The first failure ends the
//! decode; nothing is returned beside it.

use vstd::prelude::*;

use crate::binary32::{from_fixed16, Binary32};
use crate::de::{mgz_de, read_de, slot_count, DeHeader, DeHeaderView, V37};
use crate::error::{fail, failed, DecodeError, ErrorKind};
use crate::inflate::{mgz_decompress_header, raw_inflate};
use crate::primitives::{
    cond_le_u32, cstring, finish, le32, le_binary32, le_u32, left, parsed_view, read_binary32,
    read_u32_if, spec_cstring, step, take, Cursor, Parsed,
};

pub mod binary32;
pub mod de;
pub mod error;
pub mod inflate;
pub mod laws;
pub mod primitives;
pub mod truncation;

verus! {

/// The bit pattern of the number -1, which in the place of the save version
/// says that the version follows as an integer.
pub const MINUS_ONE: u32 = 0xbf80_0000;

/// The integer save version that stands for version 37 as it is.
pub const LEGACY_VERSION: u32 = 37;

/// The four bytes behind the frame length are a chapter address if they
/// encode a number below this limit, and the start of the compressed block
/// if they do not. The limit is a convention of the format, not a property
/// of deflate streams: a block that happens to start with a smaller number
/// is taken for an address.
pub const ADDRESS_LIMIT: u32 = 100_000_000;

/// The save version that decides the layout of everything behind it.
///
/// Without an integer version it is the old version. The integer 37 stands
/// for version 37. Any other integer is a 16.16 fixed-point number.
pub open spec fn spec_compute_save_version(
    old_save_version: Binary32,
    new_save_version: Option<u32>,
) -> Binary32 {
    match new_save_version {
        None => old_save_version,
        Some(n) => if n == LEGACY_VERSION {
            Binary32 { bits: V37 }
        } else {
            Binary32::spec_from_fixed16(n)
        },
    }
}

/// Resolves the save version from the two fields that carry it.
pub fn compute_save_version(old_save_version: Binary32, new_save_version: Option<u32>) -> (v:
    Binary32)
    ensures
        v == spec_compute_save_version(old_save_version, new_save_version),
{
    match new_save_version {
        None => old_save_version,
        Some(n) => {
            if n == LEGACY_VERSION {
                Binary32::from_bits(V37)
            } else {
                from_fixed16(n)
            }
        },
    }
}

/// The inflated header.
#[derive(Debug)]
#[non_exhaustive]
pub struct CompressedHeader {
    /// The build string of the game that wrote the recording.
    pub game_version: String,
    /// The save version as older games wrote it, or -1.
    pub old_save_version: Binary32,
    /// The save version as an integer, present where the old one is -1.
    pub new_save_version: Option<u32>,
    /// The resolved save version, which decides every optional field.
    pub save_version: Binary32,
    /// The record of the HD edition. It is not decoded and always absent.
    pub hd: Option<u8>,
    /// The record of the Definitive Edition.
    pub de: Option<DeHeader>,
}

/// What an inflated header holds.
pub struct CompressedHeaderView {
    pub game_version: Seq<char>,
    pub old_save_version: Binary32,
    pub new_save_version: Option<u32>,
    pub save_version: Binary32,
    pub hd: Option<u8>,
    pub de: Option<DeHeaderView>,
}

impl View for CompressedHeader {
    type V = CompressedHeaderView;

    open spec fn view(&self) -> CompressedHeaderView {
        CompressedHeaderView {
            game_version: self.game_version@,
            old_save_version: self.old_save_version,
            new_save_version: self.new_save_version,
            save_version: self.save_version,
            hd: self.hd,
            de: match self.de {
                Some(de) => Some(de@),
                None => None,
            },
        }
    }
}

/// The frame behind its length: the chapter address, if there is one, and
/// the header.
#[derive(Debug)]
#[non_exhaustive]
pub struct Subheader {
    pub chapter_address: Option<u32>,
    pub compressed_header: CompressedHeader,
}

/// What a frame holds behind its length.
pub struct SubheaderView {
    pub chapter_address: Option<u32>,
    pub compressed_header: CompressedHeaderView,
}

impl View for Subheader {
    type V = SubheaderView;

    open spec fn view(&self) -> SubheaderView {
        SubheaderView {
            chapter_address: self.chapter_address,
            compressed_header: self.compressed_header@,
        }
    }
}

/// The decoded start of a recording.
#[derive(Debug)]
#[non_exhaustive]
pub struct MgzReplay {
    /// The length of the frame as the recording declares it, counted from
    /// the first byte of the recording.
    pub header_length: u32,
    pub subheader: Subheader,
}

/// What the start of a recording holds.
pub struct MgzReplayView {
    pub header_length: u32,
    pub subheader: SubheaderView,
}

impl View for MgzReplay {
    type V = MgzReplayView;

    open spec fn view(&self) -> MgzReplayView {
        MgzReplayView { header_length: self.header_length, subheader: self.subheader@ }
    }
}

/// Steps over a text token that ends at a zero byte.
pub open spec fn read_cstring(c: Cursor) -> (Cursor, Seq<char>) {
    step(c, spec_cstring(left(c)), Seq::empty())
}

/// The inflated header at the front of `s`.
#[verifier::opaque]
pub open spec fn spec_mgz_compressed_header(s: Seq<u8>) -> Parsed<CompressedHeaderView> {
    let (c, game_version) = read_cstring(Ok(s));
    let (c, old_save_version) = read_binary32(c);
    let (c, new_save_version) = read_u32_if(
        c,
        old_save_version.spec_same_number(Binary32 { bits: MINUS_ONE }),
    );
    let save_version = spec_compute_save_version(old_save_version, new_save_version);
    let (c, de) = read_de(c, save_version);
    finish(
        c,
        CompressedHeaderView {
            game_version,
            old_save_version,
            new_save_version,
            save_version,
            hd: None,
            de: Some(de),
        },
    )
}

/// Decodes an inflated header: the game version, the save version, and the
/// record that the save version lays out.
pub fn mgz_compressed_header(input: &[u8]) -> (r: Result<(&[u8], CompressedHeader), DecodeError>)
    ensures
        parsed_view(r, spec_mgz_compressed_header(input@)),
        r matches Ok((_, header)) ==> {
            &&& header.hd is None
            &&& header.de is Some
            &&& header.de->Some_0.players@.len() == slot_count(
                header.save_version,
                header.de->Some_0.num_players,
            )
        },
{
    reveal(spec_mgz_compressed_header);
    let (input, game_version) = cstring(input)?;
    let (input, old_save_version) = le_binary32(input)?;
    let (input, new_save_version) = cond_le_u32(
        input,
        old_save_version.same_number(Binary32::from_bits(MINUS_ONE)),
    )?;
    let save_version = compute_save_version(old_save_version, new_save_version);
    let (input, de) = mgz_de(input, save_version)?;

    let compressed_header = CompressedHeader {
        game_version: game_version.to_owned(),
        old_save_version,
        new_save_version,
        save_version,
        hd: None,
        de: Some(de),
    };
    Ok((input, compressed_header))
}

/// The number of bytes in front of the compressed block, counted from the
/// first byte of the recording: the frame length, and the chapter address
/// where there is one.
pub open spec fn block_start(has_address: bool) -> u32 {
    if has_address {
        8
    } else {
        4
    }
}

/// The frame at the front of `s`, which stands behind a frame length of
/// `header_length`.
///
/// The compressed block runs from its start to the declared end of the
/// frame. A frame that declares an end in front of the start of its block
/// lacks bytes that it has to hold, and is truncated. A failure inside the
/// inflated header is marked as one.
pub open spec fn spec_mgz_subheader(s: Seq<u8>, header_length: u32) -> Parsed<SubheaderView> {
    if s.len() < 4 {
        Err(failed(ErrorKind::Truncated, s))
    } else {
        let check = le32(s);
        let has_address = check < ADDRESS_LIMIT;
        let block = if has_address {
            s.skip(4)
        } else {
            s
        };
        let n = header_length - block_start(has_address);
        if n < 0 || block.len() < n {
            Err(failed(ErrorKind::Truncated, block))
        } else {
            match raw_inflate(block.take(n)) {
                None => Err(failed(ErrorKind::DecompressionError, block)),
                Some(inflated) => match spec_mgz_compressed_header(inflated) {
                    Err(e) => Err(e.spec_within_header()),
                    Ok((_, compressed_header)) => Ok(
                        (
                            block.skip(n),
                            SubheaderView {
                                chapter_address: if has_address {
                                    Some(check)
                                } else {
                                    None
                                },
                                compressed_header,
                            },
                        ),
                    ),
                },
            }
        }
    }
}

/// Decodes the frame behind its length: tells a chapter address from the
/// start of the compressed block, inflates the block and decodes the header
/// in it.
pub fn mgz_subheader(input: &[u8], header_length: u32) -> (r: Result<
    (&[u8], Subheader),
    DecodeError,
>)
    ensures
        parsed_view(r, spec_mgz_subheader(input@, header_length)),
{
    let (_, check) = le_u32(input)?;
    let has_address = check < ADDRESS_LIMIT;
    let (block, chapter_address) = cond_le_u32(input, has_address)?;
    let start: u32 = if has_address {
        8
    } else {
        4
    };
    if header_length < start {
        return Err(fail(ErrorKind::Truncated, block));
    }
    let (input, compressed) = take(block, (header_length - start) as usize)?;
    let inflated = match mgz_decompress_header(compressed) {
        Some(bytes) => bytes,
        None => {
            return Err(fail(ErrorKind::DecompressionError, block));
        },
    };
    match mgz_compressed_header(inflated.as_slice()) {
        Ok((_, compressed_header)) => Ok((input, Subheader { chapter_address, compressed_header })),
        Err(e) => Err(e.within_header()),
    }
}

/// The start of the recording `s`.
pub open spec fn spec_mgz_header(s: Seq<u8>) -> Parsed<MgzReplayView> {
    if s.len() < 4 {
        Err(failed(ErrorKind::Truncated, s))
    } else {
        match spec_mgz_subheader(s.skip(4), le32(s)) {
            Err(e) => Err(e),
            Ok((rest, subheader)) => Ok(
                (rest, MgzReplayView { header_length: le32(s), subheader }),
            ),
        }
    }
}

/// Decodes the header of a recording: the frame length, the frame, and the
/// header inflated from it. The bytes behind the frame are handed back.
pub fn mgz_header(input: &[u8]) -> (r: Result<(&[u8], MgzReplay), DecodeError>)
    ensures
        parsed_view(r, spec_mgz_header(input@)),
{
    let (input, header_length) = le_u32(input)?;
    let (input, subheader) = mgz_subheader(input, header_length)?;
    Ok((input, MgzReplay { header_length, subheader }))
}

} // verus!
