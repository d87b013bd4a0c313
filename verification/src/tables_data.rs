//! Unicode character properties for code points from U+0080 up, as runs.
//!
//! Each row is (first code point, width class, grapheme break, line break,
//! flags); a run lasts until the next one begins. The rows are sorted and split
//! into blocks of 256. `extras/gen_tables.py` refreshes them from the Unicode
//! Character Database.

use vstd::prelude::*;

verus! {

/// Number of runs in all blocks together.
pub const RUN_COUNT: usize = 3292;

/// Rows per block.
pub const BLOCK: usize = 256;

/// Number of blocks.
pub const BLOCKS: usize = 13;

/// Block 0 of the runs.
pub const RUNS_0: [(u32, u8, u8, u8, u8); 256] = [
    (0x80, 1, 3, 11, 0),
    (0x85, 1, 3, 30, 0),
    (0x86, 1, 3, 11, 0),
    (0xA0, 1, 0, 17, 0),
    (0xA1, 3, 0, 33, 0),
    (0xA2, 1, 0, 34, 0),
    (0xA3, 1, 0, 35, 0),
    (0xA4, 3, 0, 35, 0),
    (0xA5, 1, 0, 35, 0),
    (0xA6, 1, 0, 2, 0),
    (0xA7, 3, 0, 2, 0),
    (0xA9, 1, 14, 2, 0),
    (0xAA, 3, 0, 2, 0),
    (0xAB, 1, 0, 37, 0),
    (0xAC, 1, 0, 2, 0),
    (0xAD, 0, 3, 6, 0),
    (0xAE, 3, 14, 2, 0),
    (0xAF, 1, 0, 2, 0),
    (0xB0, 3, 0, 34, 0),
    (0xB1, 3, 0, 35, 0),
    (0xB2, 3, 0, 2, 0),
    (0xB4, 3, 0, 7, 0),
    (0xB5, 1, 0, 2, 0),
    (0xB6, 3, 0, 2, 0),
    (0xBB, 1, 0, 38, 0),
    (0xBC, 3, 0, 2, 0),
    (0xBF, 3, 0, 33, 0),
    (0xC0, 1, 0, 2, 0),
    (0xC6, 3, 0, 2, 0),
    (0xC7, 1, 0, 2, 0),
    (0xD0, 3, 0, 2, 0),
    (0xD1, 1, 0, 2, 0),
    (0xD7, 3, 0, 2, 0),
    (0xD9, 1, 0, 2, 0),
    (0xDE, 3, 0, 2, 0),
    (0xE2, 1, 0, 2, 0),
    (0xE6, 3, 0, 2, 0),
    (0xE7, 1, 0, 2, 0),
    (0xE8, 3, 0, 2, 0),
    (0xEB, 1, 0, 2, 0),
    (0xEC, 3, 0, 2, 0),
    (0xEE, 1, 0, 2, 0),
    (0xF0, 3, 0, 2, 0),
    (0xF1, 1, 0, 2, 0),
    (0xF2, 3, 0, 2, 0),
    (0xF4, 1, 0, 2, 0),
    (0xF7, 3, 0, 2, 0),
    (0xFB, 1, 0, 2, 0),
    (0xFC, 3, 0, 2, 0),
    (0xFD, 1, 0, 2, 0),
    (0xFE, 3, 0, 2, 0),
    (0xFF, 1, 0, 2, 0),
    (0x101, 3, 0, 2, 0),
    (0x102, 1, 0, 2, 0),
    (0x111, 3, 0, 2, 0),
    (0x112, 1, 0, 2, 0),
    (0x113, 3, 0, 2, 0),
    (0x114, 1, 0, 2, 0),
    (0x11B, 3, 0, 2, 0),
    (0x11C, 1, 0, 2, 0),
    (0x126, 3, 0, 2, 0),
    (0x128, 1, 0, 2, 0),
    (0x12B, 3, 0, 2, 0),
    (0x12C, 1, 0, 2, 0),
    (0x131, 3, 0, 2, 0),
    (0x134, 1, 0, 2, 0),
    (0x138, 3, 0, 2, 0),
    (0x139, 1, 0, 2, 0),
    (0x13F, 3, 0, 2, 0),
    (0x143, 1, 0, 2, 0),
    (0x144, 3, 0, 2, 0),
    (0x145, 1, 0, 2, 0),
    (0x148, 3, 0, 2, 0),
    (0x14C, 1, 0, 2, 0),
    (0x14D, 3, 0, 2, 0),
    (0x14E, 1, 0, 2, 0),
    (0x152, 3, 0, 2, 0),
    (0x154, 1, 0, 2, 0),
    (0x166, 3, 0, 2, 0),
    (0x168, 1, 0, 2, 0),
    (0x16B, 3, 0, 2, 0),
    (0x16C, 1, 0, 2, 0),
    (0x1CE, 3, 0, 2, 0),
    (0x1CF, 1, 0, 2, 0),
    (0x1D0, 3, 0, 2, 0),
    (0x1D1, 1, 0, 2, 0),
    (0x1D2, 3, 0, 2, 0),
    (0x1D3, 1, 0, 2, 0),
    (0x1D4, 3, 0, 2, 0),
    (0x1D5, 1, 0, 2, 0),
    (0x1D6, 3, 0, 2, 0),
    (0x1D7, 1, 0, 2, 0),
    (0x1D8, 3, 0, 2, 0),
    (0x1D9, 1, 0, 2, 0),
    (0x1DA, 3, 0, 2, 0),
    (0x1DB, 1, 0, 2, 0),
    (0x1DC, 3, 0, 2, 0),
    (0x1DD, 1, 0, 2, 0),
    (0x251, 3, 0, 2, 0),
    (0x252, 1, 0, 2, 0),
    (0x261, 3, 0, 2, 0),
    (0x262, 1, 0, 2, 0),
    (0x2C4, 3, 0, 2, 0),
    (0x2C5, 1, 0, 2, 0),
    (0x2C7, 3, 0, 2, 0),
    (0x2C8, 1, 0, 7, 0),
    (0x2C9, 3, 0, 2, 0),
    (0x2CC, 1, 0, 7, 0),
    (0x2CD, 3, 0, 2, 0),
    (0x2CE, 1, 0, 2, 0),
    (0x2D0, 3, 0, 2, 0),
    (0x2D1, 1, 0, 2, 0),
    (0x2D8, 3, 0, 2, 0),
    (0x2DC, 1, 0, 2, 0),
    (0x2DD, 3, 0, 2, 0),
    (0x2DE, 1, 0, 2, 0),
    (0x2DF, 3, 0, 7, 0),
    (0x2E0, 1, 0, 2, 0),
    (0x300, 0, 17, 11, 0),
    (0x34F, 0, 4, 17, 0),
    (0x350, 0, 17, 11, 0),
    (0x35C, 0, 17, 17, 0),
    (0x363, 0, 17, 11, 0),
    (0x370, 1, 0, 2, 0),
    (0x37E, 1, 0, 25, 0),
    (0x37F, 1, 0, 2, 0),
    (0x391, 3, 0, 2, 0),
    (0x3A2, 1, 0, 2, 0),
    (0x3A3, 3, 0, 2, 0),
    (0x3AA, 1, 0, 2, 0),
    (0x3B1, 3, 0, 2, 0),
    (0x3C2, 1, 0, 2, 0),
    (0x3C3, 3, 0, 2, 0),
    (0x3CA, 1, 0, 2, 0),
    (0x401, 3, 0, 2, 0),
    (0x402, 1, 0, 2, 0),
    (0x410, 3, 0, 2, 0),
    (0x450, 1, 0, 2, 0),
    (0x451, 3, 0, 2, 0),
    (0x452, 1, 0, 2, 0),
    (0x483, 0, 17, 11, 0),
    (0x488, 0, 4, 11, 0),
    (0x48A, 1, 0, 2, 0),
    (0x589, 1, 0, 25, 0),
    (0x58A, 1, 0, 6, 0),
    (0x58B, 1, 0, 2, 0),
    (0x58F, 1, 0, 35, 0),
    (0x590, 1, 0, 2, 0),
    (0x591, 0, 17, 11, 0),
    (0x5BE, 1, 0, 6, 0),
    (0x5BF, 0, 17, 11, 0),
    (0x5C0, 1, 0, 2, 0),
    (0x5C1, 0, 17, 11, 0),
    (0x5C3, 1, 0, 2, 0),
    (0x5C4, 0, 17, 11, 0),
    (0x5C6, 1, 0, 16, 0),
    (0x5C7, 0, 17, 11, 0),
    (0x5C8, 1, 0, 2, 0),
    (0x5D0, 1, 0, 21, 0),
    (0x5EB, 1, 0, 2, 0),
    (0x5EF, 1, 0, 21, 0),
    (0x5F3, 1, 0, 2, 0),
    (0x600, 0, 7, 2, 0),
    (0x606, 1, 0, 2, 0),
    (0x609, 1, 0, 34, 0),
    (0x60C, 1, 0, 25, 0),
    (0x60E, 1, 0, 2, 0),
    (0x610, 0, 17, 11, 0),
    (0x61B, 1, 0, 16, 0),
    (0x61C, 0, 3, 11, 0),
    (0x61D, 1, 0, 16, 0),
    (0x620, 1, 0, 2, 0),
    (0x64B, 0, 17, 11, 0),
    (0x660, 1, 0, 32, 0),
    (0x66A, 1, 0, 34, 0),
    (0x66B, 1, 0, 32, 0),
    (0x66D, 1, 0, 2, 0),
    (0x670, 0, 17, 11, 0),
    (0x671, 1, 0, 2, 0),
    (0x6D4, 1, 0, 16, 0),
    (0x6D5, 1, 0, 2, 0),
    (0x6D6, 0, 17, 11, 0),
    (0x6DD, 0, 7, 2, 0),
    (0x6DE, 1, 0, 2, 0),
    (0x6DF, 0, 17, 11, 0),
    (0x6E5, 1, 0, 2, 0),
    (0x6E7, 0, 17, 11, 0),
    (0x6E9, 1, 0, 2, 0),
    (0x6EA, 0, 17, 11, 0),
    (0x6EE, 1, 0, 2, 0),
    (0x6F0, 1, 0, 32, 0),
    (0x6FA, 1, 0, 2, 0),
    (0x70F, 0, 7, 2, 0),
    (0x710, 1, 0, 2, 0),
    (0x711, 0, 17, 11, 0),
    (0x712, 1, 0, 2, 0),
    (0x730, 0, 17, 11, 0),
    (0x74B, 1, 0, 2, 0),
    (0x7A6, 0, 4, 11, 0),
    (0x7B1, 1, 0, 2, 0),
    (0x7C0, 1, 0, 32, 0),
    (0x7CA, 1, 0, 2, 0),
    (0x7EB, 0, 17, 11, 0),
    (0x7F4, 1, 0, 2, 0),
    (0x7F8, 1, 0, 25, 0),
    (0x7F9, 1, 0, 16, 0),
    (0x7FA, 1, 0, 2, 0),
    (0x7FD, 0, 17, 11, 0),
    (0x7FE, 1, 0, 35, 0),
    (0x800, 1, 0, 2, 0),
    (0x816, 0, 17, 11, 0),
    (0x81A, 1, 0, 2, 0),
    (0x81B, 0, 17, 11, 0),
    (0x824, 1, 0, 2, 0),
    (0x825, 0, 17, 11, 0),
    (0x828, 1, 0, 2, 0),
    (0x829, 0, 17, 11, 0),
    (0x82E, 1, 0, 2, 0),
    (0x859, 0, 17, 11, 0),
    (0x85C, 1, 0, 2, 0),
    (0x890, 0, 7, 2, 0),
    (0x892, 1, 0, 2, 0),
    (0x898, 0, 17, 11, 0),
    (0x8A0, 1, 0, 2, 0),
    (0x8CA, 0, 17, 11, 0),
    (0x8E2, 0, 7, 2, 0),
    (0x8E3, 0, 17, 11, 0),
    (0x900, 0, 4, 11, 0),
    (0x903, 1, 8, 11, 0),
    (0x904, 1, 0, 2, 0),
    (0x915, 1, 16, 2, 0),
    (0x93A, 0, 4, 11, 0),
    (0x93B, 1, 8, 11, 0),
    (0x93C, 0, 17, 11, 0),
    (0x93D, 1, 0, 2, 0),
    (0x93E, 1, 8, 11, 0),
    (0x941, 0, 4, 11, 0),
    (0x949, 1, 8, 11, 0),
    (0x94D, 0, 15, 11, 0),
    (0x94E, 1, 8, 11, 0),
    (0x950, 1, 0, 2, 0),
    (0x951, 0, 17, 11, 0),
    (0x955, 0, 4, 11, 0),
    (0x958, 1, 16, 2, 0),
    (0x960, 1, 0, 2, 0),
    (0x962, 0, 4, 11, 0),
    (0x964, 1, 0, 6, 0),
    (0x966, 1, 0, 32, 0),
    (0x970, 1, 0, 2, 0),
    (0x978, 1, 16, 2, 0),
    (0x980, 1, 0, 2, 0),
    (0x981, 0, 4, 11, 0),
    (0x982, 1, 8, 11, 0),
    (0x984, 1, 0, 2, 0),
    (0x995, 1, 16, 2, 0),
    (0x9A9, 1, 0, 2, 0),
];

/// Block 1 of the runs.
pub const RUNS_1: [(u32, u8, u8, u8, u8); 256] = [
    (0x9AA, 1, 16, 2, 0),
    (0x9B1, 1, 0, 2, 0),
    (0x9B2, 1, 16, 2, 0),
    (0x9B3, 1, 0, 2, 0),
    (0x9B6, 1, 16, 2, 0),
    (0x9BA, 1, 0, 2, 0),
    (0x9BC, 0, 17, 11, 0),
    (0x9BD, 1, 0, 2, 0),
    (0x9BE, 1, 4, 11, 0),
    (0x9BF, 1, 8, 11, 0),
    (0x9C1, 0, 4, 11, 0),
    (0x9C5, 1, 0, 2, 0),
    (0x9C7, 1, 8, 11, 0),
    (0x9C9, 1, 0, 2, 0),
    (0x9CB, 1, 8, 11, 0),
    (0x9CD, 0, 15, 11, 0),
    (0x9CE, 1, 0, 2, 0),
    (0x9D7, 1, 4, 11, 0),
    (0x9D8, 1, 0, 2, 0),
    (0x9DC, 1, 16, 2, 0),
    (0x9DE, 1, 0, 2, 0),
    (0x9DF, 1, 16, 2, 0),
    (0x9E0, 1, 0, 2, 0),
    (0x9E2, 0, 4, 11, 0),
    (0x9E4, 1, 0, 2, 0),
    (0x9E6, 1, 0, 32, 0),
    (0x9F0, 1, 16, 2, 0),
    (0x9F2, 1, 0, 34, 0),
    (0x9F4, 1, 0, 2, 0),
    (0x9F9, 1, 0, 34, 0),
    (0x9FA, 1, 0, 2, 0),
    (0x9FB, 1, 0, 35, 0),
    (0x9FC, 1, 0, 2, 0),
    (0x9FE, 0, 17, 11, 0),
    (0x9FF, 1, 0, 2, 0),
    (0xA01, 0, 4, 11, 0),
    (0xA03, 1, 8, 11, 0),
    (0xA04, 1, 0, 2, 0),
    (0xA3C, 0, 17, 11, 0),
    (0xA3D, 1, 0, 2, 0),
    (0xA3E, 1, 8, 11, 0),
    (0xA41, 0, 4, 11, 0),
    (0xA43, 1, 0, 2, 0),
    (0xA47, 0, 4, 11, 0),
    (0xA49, 1, 0, 2, 0),
    (0xA4B, 0, 4, 11, 0),
    (0xA4D, 0, 17, 11, 0),
    (0xA4E, 1, 0, 2, 0),
    (0xA51, 0, 4, 11, 0),
    (0xA52, 1, 0, 2, 0),
    (0xA66, 1, 0, 32, 0),
    (0xA70, 0, 4, 11, 0),
    (0xA72, 1, 0, 2, 0),
    (0xA75, 0, 4, 11, 0),
    (0xA76, 1, 0, 2, 0),
    (0xA81, 0, 4, 11, 0),
    (0xA83, 1, 8, 11, 0),
    (0xA84, 1, 0, 2, 0),
    (0xA95, 1, 16, 2, 0),
    (0xAA9, 1, 0, 2, 0),
    (0xAAA, 1, 16, 2, 0),
    (0xAB1, 1, 0, 2, 0),
    (0xAB2, 1, 16, 2, 0),
    (0xAB4, 1, 0, 2, 0),
    (0xAB5, 1, 16, 2, 0),
    (0xABA, 1, 0, 2, 0),
    (0xABC, 0, 17, 11, 0),
    (0xABD, 1, 0, 2, 0),
    (0xABE, 1, 8, 11, 0),
    (0xAC1, 0, 4, 11, 0),
    (0xAC6, 1, 0, 2, 0),
    (0xAC7, 0, 4, 11, 0),
    (0xAC9, 1, 8, 11, 0),
    (0xACA, 1, 0, 2, 0),
    (0xACB, 1, 8, 11, 0),
    (0xACD, 0, 15, 11, 0),
    (0xACE, 1, 0, 2, 0),
    (0xAE2, 0, 4, 11, 0),
    (0xAE4, 1, 0, 2, 0),
    (0xAE6, 1, 0, 32, 0),
    (0xAF0, 1, 0, 2, 0),
    (0xAF1, 1, 0, 35, 0),
    (0xAF2, 1, 0, 2, 0),
    (0xAF9, 1, 16, 2, 0),
    (0xAFA, 0, 4, 11, 0),
    (0xB00, 1, 0, 2, 0),
    (0xB01, 0, 4, 11, 0),
    (0xB02, 1, 8, 11, 0),
    (0xB04, 1, 0, 2, 0),
    (0xB15, 1, 16, 2, 0),
    (0xB29, 1, 0, 2, 0),
    (0xB2A, 1, 16, 2, 0),
    (0xB31, 1, 0, 2, 0),
    (0xB32, 1, 16, 2, 0),
    (0xB34, 1, 0, 2, 0),
    (0xB35, 1, 16, 2, 0),
    (0xB3A, 1, 0, 2, 0),
    (0xB3C, 0, 17, 11, 0),
    (0xB3D, 1, 0, 2, 0),
    (0xB3E, 1, 4, 11, 0),
    (0xB3F, 0, 4, 11, 0),
    (0xB40, 1, 8, 11, 0),
    (0xB41, 0, 4, 11, 0),
    (0xB45, 1, 0, 2, 0),
    (0xB47, 1, 8, 11, 0),
    (0xB49, 1, 0, 2, 0),
    (0xB4B, 1, 8, 11, 0),
    (0xB4D, 0, 15, 11, 0),
    (0xB4E, 1, 0, 2, 0),
    (0xB55, 0, 4, 11, 0),
    (0xB57, 1, 4, 11, 0),
    (0xB58, 1, 0, 2, 0),
    (0xB5C, 1, 16, 2, 0),
    (0xB5E, 1, 0, 2, 0),
    (0xB5F, 1, 16, 2, 0),
    (0xB60, 1, 0, 2, 0),
    (0xB62, 0, 4, 11, 0),
    (0xB64, 1, 0, 2, 0),
    (0xB66, 1, 0, 32, 0),
    (0xB70, 1, 0, 2, 0),
    (0xB71, 1, 16, 2, 0),
    (0xB72, 1, 0, 2, 0),
    (0xB82, 0, 4, 11, 0),
    (0xB83, 1, 0, 2, 0),
    (0xBBE, 1, 4, 11, 0),
    (0xBBF, 1, 8, 11, 0),
    (0xBC0, 0, 4, 11, 0),
    (0xBC1, 1, 8, 11, 0),
    (0xBC3, 1, 0, 2, 0),
    (0xBC6, 1, 8, 11, 0),
    (0xBC9, 1, 0, 2, 0),
    (0xBCA, 1, 8, 11, 0),
    (0xBCD, 0, 17, 11, 0),
    (0xBCE, 1, 0, 2, 0),
    (0xBD7, 1, 4, 11, 0),
    (0xBD8, 1, 0, 2, 0),
    (0xBE6, 1, 0, 32, 0),
    (0xBF0, 1, 0, 2, 0),
    (0xBF9, 1, 0, 35, 0),
    (0xBFA, 1, 0, 2, 0),
    (0xC00, 0, 4, 11, 0),
    (0xC01, 1, 8, 11, 0),
    (0xC04, 0, 4, 11, 0),
    (0xC05, 1, 0, 2, 0),
    (0xC15, 1, 16, 2, 0),
    (0xC29, 1, 0, 2, 0),
    (0xC2A, 1, 16, 2, 0),
    (0xC3A, 1, 0, 2, 0),
    (0xC3C, 0, 17, 11, 0),
    (0xC3D, 1, 0, 2, 0),
    (0xC3E, 0, 4, 11, 0),
    (0xC41, 1, 8, 11, 0),
    (0xC45, 1, 0, 2, 0),
    (0xC46, 0, 4, 11, 0),
    (0xC49, 1, 0, 2, 0),
    (0xC4A, 0, 4, 11, 0),
    (0xC4D, 0, 15, 11, 0),
    (0xC4E, 1, 0, 2, 0),
    (0xC55, 0, 17, 11, 0),
    (0xC57, 1, 0, 2, 0),
    (0xC58, 1, 16, 2, 0),
    (0xC5B, 1, 0, 2, 0),
    (0xC62, 0, 4, 11, 0),
    (0xC64, 1, 0, 2, 0),
    (0xC66, 1, 0, 32, 0),
    (0xC70, 1, 0, 2, 0),
    (0xC77, 1, 0, 7, 0),
    (0xC78, 1, 0, 2, 0),
    (0xC81, 0, 4, 11, 0),
    (0xC82, 1, 8, 11, 0),
    (0xC84, 1, 0, 7, 0),
    (0xC85, 1, 0, 2, 0),
    (0xCBC, 0, 17, 11, 0),
    (0xCBD, 1, 0, 2, 0),
    (0xCBE, 1, 8, 11, 0),
    (0xCBF, 0, 4, 11, 0),
    (0xCC0, 1, 8, 11, 0),
    (0xCC2, 1, 4, 11, 0),
    (0xCC3, 1, 8, 11, 0),
    (0xCC5, 1, 0, 2, 0),
    (0xCC6, 0, 4, 11, 0),
    (0xCC7, 1, 8, 11, 0),
    (0xCC9, 1, 0, 2, 0),
    (0xCCA, 1, 8, 11, 0),
    (0xCCC, 0, 4, 11, 0),
    (0xCCD, 0, 17, 11, 0),
    (0xCCE, 1, 0, 2, 0),
    (0xCD5, 1, 4, 11, 0),
    (0xCD7, 1, 0, 2, 0),
    (0xCE2, 0, 4, 11, 0),
    (0xCE4, 1, 0, 2, 0),
    (0xCE6, 1, 0, 32, 0),
    (0xCF0, 1, 0, 2, 0),
    (0xD00, 0, 4, 11, 0),
    (0xD02, 1, 8, 11, 0),
    (0xD04, 1, 0, 2, 0),
    (0xD15, 1, 16, 2, 0),
    (0xD3B, 0, 17, 11, 0),
    (0xD3D, 1, 0, 2, 0),
    (0xD3E, 1, 4, 11, 0),
    (0xD3F, 1, 8, 11, 0),
    (0xD41, 0, 4, 11, 0),
    (0xD45, 1, 0, 2, 0),
    (0xD46, 1, 8, 11, 0),
    (0xD49, 1, 0, 2, 0),
    (0xD4A, 1, 8, 11, 0),
    (0xD4D, 0, 15, 11, 0),
    (0xD4E, 1, 7, 2, 0),
    (0xD4F, 1, 0, 2, 0),
    (0xD57, 1, 4, 11, 0),
    (0xD58, 1, 0, 2, 0),
    (0xD62, 0, 4, 11, 0),
    (0xD64, 1, 0, 2, 0),
    (0xD66, 1, 0, 32, 0),
    (0xD70, 1, 0, 2, 0),
    (0xD79, 1, 0, 34, 0),
    (0xD7A, 1, 0, 2, 0),
    (0xD81, 0, 4, 11, 0),
    (0xD82, 1, 8, 11, 0),
    (0xD84, 1, 0, 2, 0),
    (0xDCA, 0, 17, 11, 0),
    (0xDCB, 1, 0, 2, 0),
    (0xDCF, 1, 4, 11, 0),
    (0xDD0, 1, 8, 11, 0),
    (0xDD2, 0, 4, 11, 0),
    (0xDD5, 1, 0, 2, 0),
    (0xDD6, 0, 4, 11, 0),
    (0xDD7, 1, 0, 2, 0),
    (0xDD8, 1, 8, 11, 0),
    (0xDDF, 1, 4, 11, 0),
    (0xDE0, 1, 0, 2, 0),
    (0xDE6, 1, 0, 32, 0),
    (0xDF0, 1, 0, 2, 0),
    (0xDF2, 1, 8, 11, 0),
    (0xDF4, 1, 0, 2, 0),
    (0xE31, 0, 4, 11, 0),
    (0xE32, 1, 0, 2, 0),
    (0xE33, 1, 8, 2, 0),
    (0xE34, 0, 4, 11, 0),
    (0xE38, 0, 17, 11, 0),
    (0xE3B, 1, 0, 2, 0),
    (0xE3F, 1, 0, 35, 0),
    (0xE40, 1, 0, 2, 0),
    (0xE47, 0, 4, 11, 0),
    (0xE48, 0, 17, 11, 0),
    (0xE4C, 0, 4, 11, 0),
    (0xE4F, 1, 0, 2, 0),
    (0xE50, 1, 0, 32, 0),
    (0xE5A, 1, 0, 6, 0),
    (0xE5C, 1, 0, 2, 0),
    (0xEB1, 0, 4, 11, 0),
    (0xEB2, 1, 0, 2, 0),
    (0xEB3, 1, 8, 2, 0),
    (0xEB4, 0, 4, 11, 0),
    (0xEB8, 0, 17, 11, 0),
    (0xEBB, 0, 4, 11, 0),
];

/// Block 2 of the runs.
pub const RUNS_2: [(u32, u8, u8, u8, u8); 256] = [
    (0xEBD, 1, 0, 2, 0),
    (0xEC8, 0, 17, 11, 0),
    (0xECC, 0, 4, 11, 0),
    (0xECE, 1, 0, 2, 0),
    (0xED0, 1, 0, 32, 0),
    (0xEDA, 1, 0, 2, 0),
    (0xF01, 1, 0, 7, 0),
    (0xF05, 1, 0, 2, 0),
    (0xF06, 1, 0, 7, 0),
    (0xF08, 1, 0, 17, 0),
    (0xF09, 1, 0, 7, 0),
    (0xF0B, 1, 0, 6, 0),
    (0xF0C, 1, 0, 17, 0),
    (0xF0D, 1, 0, 16, 0),
    (0xF12, 1, 0, 17, 0),
    (0xF13, 1, 0, 2, 0),
    (0xF14, 1, 0, 16, 0),
    (0xF15, 1, 0, 2, 0),
    (0xF18, 0, 17, 11, 0),
    (0xF1A, 1, 0, 2, 0),
    (0xF20, 1, 0, 32, 0),
    (0xF2A, 1, 0, 2, 0),
    (0xF34, 1, 0, 6, 0),
    (0xF35, 0, 17, 11, 0),
    (0xF36, 1, 0, 2, 0),
    (0xF37, 0, 17, 11, 0),
    (0xF38, 1, 0, 2, 0),
    (0xF39, 0, 17, 11, 0),
    (0xF3A, 1, 0, 33, 0),
    (0xF3B, 1, 0, 10, 0),
    (0xF3C, 1, 0, 33, 0),
    (0xF3D, 1, 0, 10, 0),
    (0xF3E, 1, 8, 11, 0),
    (0xF40, 1, 0, 2, 0),
    (0xF71, 0, 17, 11, 0),
    (0xF73, 0, 4, 11, 0),
    (0xF74, 0, 17, 11, 0),
    (0xF75, 0, 4, 11, 0),
    (0xF7A, 0, 17, 11, 0),
    (0xF7E, 0, 4, 11, 0),
    (0xF7F, 1, 8, 6, 0),
    (0xF80, 0, 17, 11, 0),
    (0xF81, 0, 4, 11, 0),
    (0xF82, 0, 17, 11, 0),
    (0xF85, 1, 0, 6, 0),
    (0xF86, 0, 17, 11, 0),
    (0xF88, 1, 0, 2, 0),
    (0xF8D, 0, 4, 11, 0),
    (0xF98, 1, 0, 2, 0),
    (0xF99, 0, 4, 11, 0),
    (0xFBD, 1, 0, 2, 0),
    (0xFBE, 1, 0, 6, 0),
    (0xFC0, 1, 0, 2, 0),
    (0xFC6, 0, 17, 11, 0),
    (0xFC7, 1, 0, 2, 0),
    (0xFD0, 1, 0, 7, 0),
    (0xFD2, 1, 0, 6, 0),
    (0xFD3, 1, 0, 7, 0),
    (0xFD4, 1, 0, 2, 0),
    (0xFD9, 1, 0, 17, 0),
    (0xFDB, 1, 0, 2, 0),
    (0x102B, 1, 0, 11, 0),
    (0x102D, 0, 4, 11, 0),
    (0x1031, 1, 8, 11, 0),
    (0x1032, 0, 4, 11, 0),
    (0x1037, 0, 17, 11, 0),
    (0x1038, 1, 0, 11, 0),
    (0x1039, 0, 17, 11, 0),
    (0x103B, 1, 8, 11, 0),
    (0x103D, 0, 4, 11, 0),
    (0x103F, 1, 0, 2, 0),
    (0x1040, 1, 0, 32, 0),
    (0x104A, 1, 0, 6, 0),
    (0x104C, 1, 0, 2, 0),
    (0x1056, 1, 8, 11, 0),
    (0x1058, 0, 4, 11, 0),
    (0x105A, 1, 0, 2, 0),
    (0x105E, 0, 4, 11, 0),
    (0x1061, 1, 0, 2, 0),
    (0x1062, 1, 0, 11, 0),
    (0x1065, 1, 0, 2, 0),
    (0x1067, 1, 0, 11, 0),
    (0x106E, 1, 0, 2, 0),
    (0x1071, 0, 4, 11, 0),
    (0x1075, 1, 0, 2, 0),
    (0x1082, 0, 4, 11, 0),
    (0x1083, 1, 0, 11, 0),
    (0x1084, 1, 8, 11, 0),
    (0x1085, 0, 4, 11, 0),
    (0x1087, 1, 0, 11, 0),
    (0x108D, 0, 17, 11, 0),
    (0x108E, 1, 0, 2, 0),
    (0x108F, 1, 0, 11, 0),
    (0x1090, 1, 0, 32, 0),
    (0x109A, 1, 0, 11, 0),
    (0x109D, 0, 4, 11, 0),
    (0x109E, 1, 0, 2, 0),
    (0x1100, 2, 9, 26, 1),
    (0x1160, 0, 10, 28, 0),
    (0x11A8, 0, 11, 27, 0),
    (0x1200, 1, 0, 2, 0),
    (0x135D, 0, 17, 11, 0),
    (0x1360, 1, 0, 2, 0),
    (0x1361, 1, 0, 6, 0),
    (0x1362, 1, 0, 2, 0),
    (0x1400, 1, 0, 6, 0),
    (0x1401, 1, 0, 2, 0),
    (0x1680, 1, 0, 6, 0),
    (0x1681, 1, 0, 2, 0),
    (0x169B, 1, 0, 33, 0),
    (0x169C, 1, 0, 10, 0),
    (0x169D, 1, 0, 2, 0),
    (0x16EB, 1, 0, 6, 0),
    (0x16EE, 1, 0, 2, 0),
    (0x1712, 0, 4, 11, 0),
    (0x1714, 0, 17, 11, 0),
    (0x1715, 1, 8, 11, 0),
    (0x1716, 1, 0, 2, 0),
    (0x1732, 0, 4, 11, 0),
    (0x1734, 1, 8, 11, 0),
    (0x1735, 1, 0, 6, 0),
    (0x1737, 1, 0, 2, 0),
    (0x1752, 0, 4, 11, 0),
    (0x1754, 1, 0, 2, 0),
    (0x1772, 0, 4, 11, 0),
    (0x1774, 1, 0, 2, 0),
    (0x17B4, 0, 4, 11, 0),
    (0x17B6, 1, 8, 11, 0),
    (0x17B7, 0, 4, 11, 0),
    (0x17BE, 1, 8, 11, 0),
    (0x17C6, 0, 4, 11, 0),
    (0x17C7, 1, 8, 11, 0),
    (0x17C9, 0, 4, 11, 0),
    (0x17D2, 0, 17, 11, 0),
    (0x17D3, 0, 4, 11, 0),
    (0x17D4, 1, 0, 6, 0),
    (0x17D6, 1, 0, 31, 0),
    (0x17D7, 1, 0, 2, 0),
    (0x17D8, 1, 0, 6, 0),
    (0x17D9, 1, 0, 2, 0),
    (0x17DA, 1, 0, 6, 0),
    (0x17DB, 1, 0, 35, 0),
    (0x17DC, 1, 0, 2, 0),
    (0x17DD, 0, 17, 11, 0),
    (0x17DE, 1, 0, 2, 0),
    (0x17E0, 1, 0, 32, 0),
    (0x17EA, 1, 0, 2, 0),
    (0x1802, 1, 0, 16, 0),
    (0x1804, 1, 0, 6, 0),
    (0x1806, 1, 0, 7, 0),
    (0x1807, 1, 0, 2, 0),
    (0x1808, 1, 0, 16, 0),
    (0x180A, 1, 0, 2, 0),
    (0x180B, 0, 4, 11, 0),
    (0x180E, 0, 3, 17, 0),
    (0x180F, 0, 4, 11, 0),
    (0x1810, 1, 0, 32, 0),
    (0x181A, 1, 0, 2, 0),
    (0x1885, 0, 4, 11, 0),
    (0x1887, 1, 0, 2, 0),
    (0x18A9, 0, 17, 11, 0),
    (0x18AA, 1, 0, 2, 0),
    (0x1920, 0, 4, 11, 0),
    (0x1923, 1, 8, 11, 0),
    (0x1927, 0, 4, 11, 0),
    (0x1929, 1, 8, 11, 0),
    (0x192C, 1, 0, 2, 0),
    (0x1930, 1, 8, 11, 0),
    (0x1932, 0, 4, 11, 0),
    (0x1933, 1, 8, 11, 0),
    (0x1939, 0, 17, 11, 0),
    (0x193C, 1, 0, 2, 0),
    (0x1944, 1, 0, 16, 0),
    (0x1946, 1, 0, 32, 0),
    (0x1950, 1, 0, 2, 0),
    (0x19D0, 1, 0, 32, 0),
    (0x19DA, 1, 0, 2, 0),
    (0x1A17, 0, 17, 11, 0),
    (0x1A19, 1, 8, 11, 0),
    (0x1A1B, 0, 4, 11, 0),
    (0x1A1C, 1, 0, 2, 0),
    (0x1A55, 1, 8, 11, 0),
    (0x1A56, 0, 4, 11, 0),
    (0x1A57, 1, 8, 11, 0),
    (0x1A58, 0, 4, 11, 0),
    (0x1A5F, 1, 0, 2, 0),
    (0x1A60, 0, 17, 11, 0),
    (0x1A61, 1, 0, 11, 0),
    (0x1A62, 0, 4, 11, 0),
    (0x1A63, 1, 0, 11, 0),
    (0x1A65, 0, 4, 11, 0),
    (0x1A6D, 1, 8, 11, 0),
    (0x1A73, 0, 4, 11, 0),
    (0x1A75, 0, 17, 11, 0),
    (0x1A7D, 1, 0, 2, 0),
    (0x1A7F, 0, 17, 11, 0),
    (0x1A80, 1, 0, 32, 0),
    (0x1A8A, 1, 0, 2, 0),
    (0x1A90, 1, 0, 32, 0),
    (0x1A9A, 1, 0, 2, 0),
    (0x1AB0, 0, 17, 11, 0),
    (0x1ABE, 0, 4, 11, 0),
    (0x1ABF, 0, 17, 11, 0),
    (0x1ACF, 1, 0, 2, 0),
    (0x1B00, 0, 4, 11, 0),
    (0x1B04, 1, 8, 11, 0),
    (0x1B05, 1, 0, 2, 0),
    (0x1B34, 0, 17, 11, 0),
    (0x1B35, 1, 4, 11, 0),
    (0x1B36, 0, 4, 11, 0),
    (0x1B3B, 1, 8, 11, 0),
    (0x1B3C, 0, 4, 11, 0),
    (0x1B3D, 1, 8, 11, 0),
    (0x1B42, 0, 4, 11, 0),
    (0x1B43, 1, 8, 11, 0),
    (0x1B45, 1, 0, 2, 0),
    (0x1B50, 1, 0, 32, 0),
    (0x1B5A, 1, 0, 6, 0),
    (0x1B5C, 1, 0, 2, 0),
    (0x1B5D, 1, 0, 6, 0),
    (0x1B61, 1, 0, 2, 0),
    (0x1B6B, 0, 17, 11, 0),
    (0x1B74, 1, 0, 2, 0),
    (0x1B7D, 1, 0, 6, 0),
    (0x1B7F, 1, 0, 2, 0),
    (0x1B80, 0, 4, 11, 0),
    (0x1B82, 1, 8, 11, 0),
    (0x1B83, 1, 0, 2, 0),
    (0x1BA1, 1, 8, 11, 0),
    (0x1BA2, 0, 4, 11, 0),
    (0x1BA6, 1, 8, 11, 0),
    (0x1BA8, 0, 4, 11, 0),
    (0x1BAA, 1, 8, 11, 0),
    (0x1BAB, 0, 17, 11, 0),
    (0x1BAC, 0, 4, 11, 0),
    (0x1BAE, 1, 0, 2, 0),
    (0x1BB0, 1, 0, 32, 0),
    (0x1BBA, 1, 0, 2, 0),
    (0x1BE6, 0, 17, 11, 0),
    (0x1BE7, 1, 8, 11, 0),
    (0x1BE8, 0, 4, 11, 0),
    (0x1BEA, 1, 8, 11, 0),
    (0x1BED, 0, 4, 11, 0),
    (0x1BEE, 1, 8, 11, 0),
    (0x1BEF, 0, 4, 11, 0),
    (0x1BF2, 1, 8, 11, 0),
    (0x1BF4, 1, 0, 2, 0),
    (0x1C24, 1, 8, 11, 0),
    (0x1C2C, 0, 4, 11, 0),
    (0x1C34, 1, 8, 11, 0),
    (0x1C36, 0, 4, 11, 0),
    (0x1C37, 0, 17, 11, 0),
    (0x1C38, 1, 0, 2, 0),
    (0x1C3B, 1, 0, 6, 0),
    (0x1C40, 1, 0, 32, 0),
    (0x1C4A, 1, 0, 2, 0),
];

/// Block 3 of the runs.
pub const RUNS_3: [(u32, u8, u8, u8, u8); 256] = [
    (0x1C50, 1, 0, 32, 0),
    (0x1C5A, 1, 0, 2, 0),
    (0x1C7E, 1, 0, 6, 0),
    (0x1C80, 1, 0, 2, 0),
    (0x1CD0, 0, 17, 11, 0),
    (0x1CD3, 1, 0, 2, 0),
    (0x1CD4, 0, 17, 11, 0),
    (0x1CE1, 1, 8, 11, 0),
    (0x1CE2, 0, 17, 11, 0),
    (0x1CE9, 1, 0, 2, 0),
    (0x1CED, 0, 17, 11, 0),
    (0x1CEE, 1, 0, 2, 0),
    (0x1CF4, 0, 17, 11, 0),
    (0x1CF5, 1, 0, 2, 0),
    (0x1CF7, 1, 8, 11, 0),
    (0x1CF8, 0, 17, 11, 0),
    (0x1CFA, 1, 0, 2, 0),
    (0x1DC0, 0, 17, 11, 0),
    (0x1E00, 1, 0, 2, 0),
    (0x1FFD, 1, 0, 7, 0),
    (0x1FFE, 1, 0, 2, 0),
    (0x2000, 1, 0, 6, 0),
    (0x2007, 1, 0, 17, 0),
    (0x2008, 1, 0, 6, 0),
    (0x200B, 0, 3, 45, 0),
    (0x200C, 0, 4, 11, 0),
    (0x200D, 0, 5, 46, 0),
    (0x200E, 0, 3, 11, 0),
    (0x2010, 3, 0, 6, 0),
    (0x2011, 1, 0, 17, 0),
    (0x2012, 1, 0, 6, 0),
    (0x2013, 3, 0, 6, 0),
    (0x2014, 3, 0, 5, 0),
    (0x2015, 3, 0, 2, 0),
    (0x2017, 1, 0, 2, 0),
    (0x2018, 3, 0, 37, 0),
    (0x2019, 3, 0, 38, 0),
    (0x201A, 1, 0, 33, 0),
    (0x201B, 1, 0, 37, 0),
    (0x201C, 3, 0, 37, 0),
    (0x201D, 3, 0, 38, 0),
    (0x201E, 1, 0, 33, 0),
    (0x201F, 1, 0, 37, 0),
    (0x2020, 3, 0, 2, 0),
    (0x2023, 1, 0, 2, 0),
    (0x2024, 3, 0, 24, 0),
    (0x2027, 3, 0, 6, 0),
    (0x2028, 1, 3, 8, 0),
    (0x202A, 0, 3, 11, 0),
    (0x202F, 1, 0, 17, 0),
    (0x2030, 3, 0, 34, 0),
    (0x2031, 1, 0, 34, 0),
    (0x2032, 3, 0, 34, 0),
    (0x2034, 1, 0, 34, 0),
    (0x2035, 3, 0, 34, 0),
    (0x2036, 1, 0, 34, 0),
    (0x2038, 1, 0, 2, 0),
    (0x2039, 1, 0, 37, 0),
    (0x203A, 1, 0, 38, 0),
    (0x203B, 3, 0, 2, 0),
    (0x203C, 1, 14, 31, 0),
    (0x203D, 1, 0, 31, 0),
    (0x203E, 3, 0, 2, 0),
    (0x203F, 1, 0, 2, 0),
    (0x2044, 1, 0, 25, 0),
    (0x2045, 1, 0, 33, 0),
    (0x2046, 1, 0, 10, 0),
    (0x2047, 1, 0, 31, 0),
    (0x2049, 1, 14, 31, 0),
    (0x204A, 1, 0, 2, 0),
    (0x2056, 1, 0, 6, 0),
    (0x2057, 1, 0, 2, 0),
    (0x2058, 1, 0, 6, 0),
    (0x205C, 1, 0, 2, 0),
    (0x205D, 1, 0, 6, 0),
    (0x2060, 0, 3, 44, 0),
    (0x2061, 0, 3, 2, 0),
    (0x2065, 1, 3, 2, 0),
    (0x2066, 0, 3, 11, 0),
    (0x2070, 1, 0, 2, 0),
    (0x2074, 3, 0, 2, 0),
    (0x2075, 1, 0, 2, 0),
    (0x207D, 1, 0, 33, 0),
    (0x207E, 1, 0, 10, 0),
    (0x207F, 3, 0, 2, 0),
    (0x2080, 1, 0, 2, 0),
    (0x2081, 3, 0, 2, 0),
    (0x2085, 1, 0, 2, 0),
    (0x208D, 1, 0, 33, 0),
    (0x208E, 1, 0, 10, 0),
    (0x208F, 1, 0, 2, 0),
    (0x20A0, 1, 0, 35, 0),
    (0x20A7, 1, 0, 34, 0),
    (0x20A8, 1, 0, 35, 0),
    (0x20A9, 1, 0, 35, 1),
    (0x20AA, 1, 0, 35, 0),
    (0x20AC, 3, 0, 35, 0),
    (0x20AD, 1, 0, 35, 0),
    (0x20B6, 1, 0, 34, 0),
    (0x20B7, 1, 0, 35, 0),
    (0x20BB, 1, 0, 34, 0),
    (0x20BC, 1, 0, 35, 0),
    (0x20BE, 1, 0, 34, 0),
    (0x20BF, 1, 0, 35, 0),
    (0x20C0, 1, 0, 34, 0),
    (0x20C1, 1, 0, 35, 0),
    (0x20D0, 0, 17, 11, 0),
    (0x20DD, 0, 4, 11, 0),
    (0x20E1, 0, 17, 11, 0),
    (0x20E2, 0, 4, 11, 0),
    (0x20E5, 0, 17, 11, 0),
    (0x20F1, 1, 0, 2, 0),
    (0x2103, 3, 0, 34, 0),
    (0x2104, 1, 0, 2, 0),
    (0x2105, 3, 0, 2, 0),
    (0x2106, 1, 0, 2, 0),
    (0x2109, 3, 0, 34, 0),
    (0x210A, 1, 0, 2, 0),
    (0x2113, 3, 0, 2, 0),
    (0x2114, 1, 0, 2, 0),
    (0x2116, 3, 0, 35, 0),
    (0x2117, 1, 0, 2, 0),
    (0x2121, 3, 0, 2, 0),
    (0x2122, 3, 14, 2, 0),
    (0x2123, 1, 0, 2, 0),
    (0x2126, 3, 0, 2, 0),
    (0x2127, 1, 0, 2, 0),
    (0x212B, 3, 0, 2, 0),
    (0x212C, 1, 0, 2, 0),
    (0x2139, 1, 14, 2, 0),
    (0x213A, 1, 0, 2, 0),
    (0x2153, 3, 0, 2, 0),
    (0x2155, 1, 0, 2, 0),
    (0x215B, 3, 0, 2, 0),
    (0x215F, 1, 0, 2, 0),
    (0x2160, 3, 0, 2, 0),
    (0x216C, 1, 0, 2, 0),
    (0x2170, 3, 0, 2, 0),
    (0x217A, 1, 0, 2, 0),
    (0x2189, 3, 0, 2, 0),
    (0x218A, 1, 0, 2, 0),
    (0x2190, 3, 0, 2, 0),
    (0x2194, 3, 14, 2, 0),
    (0x219A, 1, 0, 2, 0),
    (0x21A9, 1, 14, 2, 0),
    (0x21AB, 1, 0, 2, 0),
    (0x21B8, 3, 0, 2, 0),
    (0x21BA, 1, 0, 2, 0),
    (0x21D2, 3, 0, 2, 0),
    (0x21D3, 1, 0, 2, 0),
    (0x21D4, 3, 0, 2, 0),
    (0x21D5, 1, 0, 2, 0),
    (0x21E7, 3, 0, 2, 0),
    (0x21E8, 1, 0, 2, 0),
    (0x2200, 3, 0, 2, 0),
    (0x2201, 1, 0, 2, 0),
    (0x2202, 3, 0, 2, 0),
    (0x2204, 1, 0, 2, 0),
    (0x2207, 3, 0, 2, 0),
    (0x2209, 1, 0, 2, 0),
    (0x220B, 3, 0, 2, 0),
    (0x220C, 1, 0, 2, 0),
    (0x220F, 3, 0, 2, 0),
    (0x2210, 1, 0, 2, 0),
    (0x2211, 3, 0, 2, 0),
    (0x2212, 1, 0, 35, 0),
    (0x2214, 1, 0, 2, 0),
    (0x2215, 3, 0, 2, 0),
    (0x2216, 1, 0, 2, 0),
    (0x221A, 3, 0, 2, 0),
    (0x221B, 1, 0, 2, 0),
    (0x221D, 3, 0, 2, 0),
    (0x2221, 1, 0, 2, 0),
    (0x2223, 3, 0, 2, 0),
    (0x2224, 1, 0, 2, 0),
    (0x2225, 3, 0, 2, 0),
    (0x2226, 1, 0, 2, 0),
    (0x2227, 3, 0, 2, 0),
    (0x222D, 1, 0, 2, 0),
    (0x222E, 3, 0, 2, 0),
    (0x222F, 1, 0, 2, 0),
    (0x2234, 3, 0, 2, 0),
    (0x2238, 1, 0, 2, 0),
    (0x223C, 3, 0, 2, 0),
    (0x223E, 1, 0, 2, 0),
    (0x2248, 3, 0, 2, 0),
    (0x2249, 1, 0, 2, 0),
    (0x224C, 3, 0, 2, 0),
    (0x224D, 1, 0, 2, 0),
    (0x2252, 3, 0, 2, 0),
    (0x2253, 1, 0, 2, 0),
    (0x2260, 3, 0, 2, 0),
    (0x2262, 1, 0, 2, 0),
    (0x2264, 3, 0, 2, 0),
    (0x2268, 1, 0, 2, 0),
    (0x226A, 3, 0, 2, 0),
    (0x226C, 1, 0, 2, 0),
    (0x226E, 3, 0, 2, 0),
    (0x2270, 1, 0, 2, 0),
    (0x2282, 3, 0, 2, 0),
    (0x2284, 1, 0, 2, 0),
    (0x2286, 3, 0, 2, 0),
    (0x2288, 1, 0, 2, 0),
    (0x2295, 3, 0, 2, 0),
    (0x2296, 1, 0, 2, 0),
    (0x2299, 3, 0, 2, 0),
    (0x229A, 1, 0, 2, 0),
    (0x22A5, 3, 0, 2, 0),
    (0x22A6, 1, 0, 2, 0),
    (0x22BF, 3, 0, 2, 0),
    (0x22C0, 1, 0, 2, 0),
    (0x22EF, 1, 0, 24, 0),
    (0x22F0, 1, 0, 2, 0),
    (0x2308, 1, 0, 33, 0),
    (0x2309, 1, 0, 10, 0),
    (0x230A, 1, 0, 33, 0),
    (0x230B, 1, 0, 10, 0),
    (0x230C, 1, 0, 2, 0),
    (0x2312, 3, 0, 2, 0),
    (0x2313, 1, 0, 2, 0),
    (0x231A, 2, 14, 23, 1),
    (0x231C, 1, 0, 2, 0),
    (0x2328, 1, 14, 2, 0),
    (0x2329, 2, 0, 33, 1),
    (0x232A, 2, 0, 10, 1),
    (0x232B, 1, 0, 2, 0),
    (0x2388, 1, 14, 2, 0),
    (0x2389, 1, 0, 2, 0),
    (0x23CF, 1, 14, 2, 0),
    (0x23D0, 1, 0, 2, 0),
    (0x23E9, 2, 14, 2, 1),
    (0x23ED, 1, 14, 2, 0),
    (0x23F0, 2, 14, 23, 1),
    (0x23F1, 1, 14, 23, 0),
    (0x23F3, 2, 14, 23, 1),
    (0x23F4, 1, 0, 2, 0),
    (0x23F8, 1, 14, 2, 0),
    (0x23FB, 1, 0, 2, 0),
    (0x2460, 3, 0, 2, 0),
    (0x24C2, 3, 14, 2, 0),
    (0x24C3, 3, 0, 2, 0),
    (0x24EA, 1, 0, 2, 0),
    (0x24EB, 3, 0, 2, 0),
    (0x254C, 1, 0, 2, 0),
    (0x2550, 3, 0, 2, 0),
    (0x2574, 1, 0, 2, 0),
    (0x2580, 3, 0, 2, 0),
    (0x2590, 1, 0, 2, 0),
    (0x2592, 3, 0, 2, 0),
    (0x2596, 1, 0, 2, 0),
    (0x25A0, 3, 0, 2, 0),
    (0x25A2, 1, 0, 2, 0),
    (0x25A3, 3, 0, 2, 0),
    (0x25AA, 1, 14, 2, 0),
    (0x25AC, 1, 0, 2, 0),
    (0x25B2, 3, 0, 2, 0),
];

/// Block 4 of the runs.
pub const RUNS_4: [(u32, u8, u8, u8, u8); 256] = [
    (0x25B4, 1, 0, 2, 0),
    (0x25B6, 3, 14, 2, 0),
    (0x25B7, 3, 0, 2, 0),
    (0x25B8, 1, 0, 2, 0),
    (0x25BC, 3, 0, 2, 0),
    (0x25BE, 1, 0, 2, 0),
    (0x25C0, 3, 14, 2, 0),
    (0x25C1, 3, 0, 2, 0),
    (0x25C2, 1, 0, 2, 0),
    (0x25C6, 3, 0, 2, 0),
    (0x25C9, 1, 0, 2, 0),
    (0x25CB, 3, 0, 2, 0),
    (0x25CC, 1, 0, 2, 0),
    (0x25CE, 3, 0, 2, 0),
    (0x25D2, 1, 0, 2, 0),
    (0x25E2, 3, 0, 2, 0),
    (0x25E6, 1, 0, 2, 0),
    (0x25EF, 3, 0, 2, 0),
    (0x25F0, 1, 0, 2, 0),
    (0x25FB, 1, 14, 2, 0),
    (0x25FD, 2, 14, 2, 1),
    (0x25FF, 1, 0, 2, 0),
    (0x2600, 1, 14, 23, 0),
    (0x2604, 1, 14, 2, 0),
    (0x2605, 3, 14, 2, 0),
    (0x2606, 3, 0, 2, 0),
    (0x2607, 1, 14, 2, 0),
    (0x2609, 3, 14, 2, 0),
    (0x260A, 1, 14, 2, 0),
    (0x260E, 3, 14, 2, 0),
    (0x2610, 1, 14, 2, 0),
    (0x2613, 1, 0, 2, 0),
    (0x2614, 2, 14, 23, 1),
    (0x2616, 1, 14, 2, 0),
    (0x2618, 1, 14, 23, 0),
    (0x2619, 1, 14, 2, 0),
    (0x261A, 1, 14, 23, 0),
    (0x261C, 3, 14, 23, 0),
    (0x261D, 1, 14, 14, 0),
    (0x261E, 3, 14, 23, 0),
    (0x261F, 1, 14, 23, 0),
    (0x2620, 1, 14, 2, 0),
    (0x2630, 2, 14, 2, 1),
    (0x2638, 1, 14, 2, 0),
    (0x2639, 1, 14, 23, 0),
    (0x263C, 1, 14, 2, 0),
    (0x2640, 3, 14, 2, 0),
    (0x2641, 1, 14, 2, 0),
    (0x2642, 3, 14, 2, 0),
    (0x2643, 1, 14, 2, 0),
    (0x2648, 2, 14, 2, 1),
    (0x2654, 1, 14, 2, 0),
    (0x2660, 3, 14, 2, 0),
    (0x2662, 1, 14, 2, 0),
    (0x2663, 3, 14, 2, 0),
    (0x2666, 1, 14, 2, 0),
    (0x2667, 3, 14, 2, 0),
    (0x2668, 3, 14, 23, 0),
    (0x2669, 3, 14, 2, 0),
    (0x266B, 1, 14, 2, 0),
    (0x266C, 3, 14, 2, 0),
    (0x266E, 1, 14, 2, 0),
    (0x266F, 3, 14, 2, 0),
    (0x2670, 1, 14, 2, 0),
    (0x267F, 2, 14, 23, 1),
    (0x2680, 1, 14, 2, 0),
    (0x2686, 1, 0, 2, 0),
    (0x268A, 2, 0, 2, 1),
    (0x2690, 1, 14, 2, 0),
    (0x2693, 2, 14, 2, 1),
    (0x2694, 1, 14, 2, 0),
    (0x269E, 3, 14, 2, 0),
    (0x26A0, 1, 14, 2, 0),
    (0x26A1, 2, 14, 2, 1),
    (0x26A2, 1, 14, 2, 0),
    (0x26AA, 2, 14, 2, 1),
    (0x26AC, 1, 14, 2, 0),
    (0x26BD, 2, 14, 23, 1),
    (0x26BF, 3, 14, 23, 0),
    (0x26C0, 1, 14, 23, 0),
    (0x26C4, 2, 14, 23, 1),
    (0x26C6, 3, 14, 23, 0),
    (0x26C9, 3, 14, 2, 0),
    (0x26CD, 3, 14, 23, 0),
    (0x26CE, 2, 14, 2, 1),
    (0x26CF, 3, 14, 23, 0),
    (0x26D2, 3, 14, 2, 0),
    (0x26D3, 3, 14, 23, 0),
    (0x26D4, 2, 14, 23, 1),
    (0x26D5, 3, 14, 2, 0),
    (0x26D8, 3, 14, 23, 0),
    (0x26DA, 3, 14, 2, 0),
    (0x26DC, 3, 14, 23, 0),
    (0x26DD, 3, 14, 2, 0),
    (0x26DF, 3, 14, 23, 0),
    (0x26E2, 1, 14, 2, 0),
    (0x26E3, 3, 14, 2, 0),
    (0x26E4, 1, 14, 2, 0),
    (0x26E8, 3, 14, 2, 0),
    (0x26EA, 2, 14, 23, 1),
    (0x26EB, 3, 14, 2, 0),
    (0x26F1, 3, 14, 23, 0),
    (0x26F2, 2, 14, 23, 1),
    (0x26F4, 3, 14, 23, 0),
    (0x26F5, 2, 14, 23, 1),
    (0x26F6, 3, 14, 2, 0),
    (0x26F7, 3, 14, 23, 0),
    (0x26F9, 3, 14, 14, 0),
    (0x26FA, 2, 14, 23, 1),
    (0x26FB, 3, 14, 2, 0),
    (0x26FD, 2, 14, 23, 1),
    (0x26FE, 3, 14, 23, 0),
    (0x2700, 1, 14, 23, 0),
    (0x2705, 2, 14, 2, 1),
    (0x2706, 1, 0, 2, 0),
    (0x2708, 1, 14, 23, 0),
    (0x270A, 2, 14, 14, 1),
    (0x270C, 1, 14, 14, 0),
    (0x270E, 1, 14, 2, 0),
    (0x2713, 1, 0, 2, 0),
    (0x2714, 1, 14, 2, 0),
    (0x2715, 1, 0, 2, 0),
    (0x2716, 1, 14, 2, 0),
    (0x2717, 1, 0, 2, 0),
    (0x271D, 1, 14, 2, 0),
    (0x271E, 1, 0, 2, 0),
    (0x2721, 1, 14, 2, 0),
    (0x2722, 1, 0, 2, 0),
    (0x2728, 2, 14, 2, 1),
    (0x2729, 1, 0, 2, 0),
    (0x2733, 1, 14, 2, 0),
    (0x2735, 1, 0, 2, 0),
    (0x273D, 3, 0, 2, 0),
    (0x273E, 1, 0, 2, 0),
    (0x2744, 1, 14, 2, 0),
    (0x2745, 1, 0, 2, 0),
    (0x2747, 1, 14, 2, 0),
    (0x2748, 1, 0, 2, 0),
    (0x274C, 2, 14, 2, 1),
    (0x274D, 1, 0, 2, 0),
    (0x274E, 2, 14, 2, 1),
    (0x274F, 1, 0, 2, 0),
    (0x2753, 2, 14, 2, 1),
    (0x2756, 1, 0, 2, 0),
    (0x2757, 2, 14, 2, 1),
    (0x2758, 1, 0, 2, 0),
    (0x275B, 1, 0, 36, 0),
    (0x2761, 1, 0, 2, 0),
    (0x2762, 1, 0, 16, 0),
    (0x2763, 1, 14, 16, 0),
    (0x2764, 1, 14, 23, 0),
    (0x2765, 1, 14, 2, 0),
    (0x2768, 1, 0, 33, 0),
    (0x2769, 1, 0, 10, 0),
    (0x276A, 1, 0, 33, 0),
    (0x276B, 1, 0, 10, 0),
    (0x276C, 1, 0, 33, 0),
    (0x276D, 1, 0, 10, 0),
    (0x276E, 1, 0, 33, 0),
    (0x276F, 1, 0, 10, 0),
    (0x2770, 1, 0, 33, 0),
    (0x2771, 1, 0, 10, 0),
    (0x2772, 1, 0, 33, 0),
    (0x2773, 1, 0, 10, 0),
    (0x2774, 1, 0, 33, 0),
    (0x2775, 1, 0, 10, 0),
    (0x2776, 3, 0, 2, 0),
    (0x2780, 1, 0, 2, 0),
    (0x2795, 2, 14, 2, 1),
    (0x2798, 1, 0, 2, 0),
    (0x27A1, 1, 14, 2, 0),
    (0x27A2, 1, 0, 2, 0),
    (0x27B0, 2, 14, 2, 1),
    (0x27B1, 1, 0, 2, 0),
    (0x27BF, 2, 14, 2, 1),
    (0x27C0, 1, 0, 2, 0),
    (0x27C5, 1, 0, 33, 0),
    (0x27C6, 1, 0, 10, 0),
    (0x27C7, 1, 0, 2, 0),
    (0x27E6, 1, 0, 33, 0),
    (0x27E7, 1, 0, 10, 0),
    (0x27E8, 1, 0, 33, 0),
    (0x27E9, 1, 0, 10, 0),
    (0x27EA, 1, 0, 33, 0),
    (0x27EB, 1, 0, 10, 0),
    (0x27EC, 1, 0, 33, 0),
    (0x27ED, 1, 0, 10, 0),
    (0x27EE, 1, 0, 33, 0),
    (0x27EF, 1, 0, 10, 0),
    (0x27F0, 1, 0, 2, 0),
    (0x2934, 1, 14, 2, 0),
    (0x2936, 1, 0, 2, 0),
    (0x2983, 1, 0, 33, 0),
    (0x2984, 1, 0, 10, 0),
    (0x2985, 1, 0, 33, 0),
    (0x2986, 1, 0, 10, 0),
    (0x2987, 1, 0, 33, 0),
    (0x2988, 1, 0, 10, 0),
    (0x2989, 1, 0, 33, 0),
    (0x298A, 1, 0, 10, 0),
    (0x298B, 1, 0, 33, 0),
    (0x298C, 1, 0, 10, 0),
    (0x298D, 1, 0, 33, 0),
    (0x298E, 1, 0, 10, 0),
    (0x298F, 1, 0, 33, 0),
    (0x2990, 1, 0, 10, 0),
    (0x2991, 1, 0, 33, 0),
    (0x2992, 1, 0, 10, 0),
    (0x2993, 1, 0, 33, 0),
    (0x2994, 1, 0, 10, 0),
    (0x2995, 1, 0, 33, 0),
    (0x2996, 1, 0, 10, 0),
    (0x2997, 1, 0, 33, 0),
    (0x2998, 1, 0, 10, 0),
    (0x2999, 1, 0, 2, 0),
    (0x29D8, 1, 0, 33, 0),
    (0x29D9, 1, 0, 10, 0),
    (0x29DA, 1, 0, 33, 0),
    (0x29DB, 1, 0, 10, 0),
    (0x29DC, 1, 0, 2, 0),
    (0x29FC, 1, 0, 33, 0),
    (0x29FD, 1, 0, 10, 0),
    (0x29FE, 1, 0, 2, 0),
    (0x2B05, 1, 14, 2, 0),
    (0x2B08, 1, 0, 2, 0),
    (0x2B1B, 2, 14, 2, 1),
    (0x2B1D, 1, 0, 2, 0),
    (0x2B50, 2, 14, 2, 1),
    (0x2B51, 1, 0, 2, 0),
    (0x2B55, 2, 14, 2, 1),
    (0x2B56, 3, 0, 2, 0),
    (0x2B5A, 1, 0, 2, 0),
    (0x2CEF, 0, 17, 11, 0),
    (0x2CF2, 1, 0, 2, 0),
    (0x2CF9, 1, 0, 16, 0),
    (0x2CFA, 1, 0, 6, 0),
    (0x2CFD, 1, 0, 2, 0),
    (0x2CFE, 1, 0, 16, 0),
    (0x2CFF, 1, 0, 6, 0),
    (0x2D00, 1, 0, 2, 0),
    (0x2D70, 1, 0, 6, 0),
    (0x2D71, 1, 0, 2, 0),
    (0x2D7F, 0, 17, 11, 0),
    (0x2D80, 1, 0, 2, 0),
    (0x2DE0, 0, 17, 11, 0),
    (0x2E00, 1, 0, 36, 0),
    (0x2E02, 1, 0, 37, 0),
    (0x2E03, 1, 0, 38, 0),
    (0x2E04, 1, 0, 37, 0),
    (0x2E05, 1, 0, 38, 0),
    (0x2E06, 1, 0, 36, 0),
    (0x2E09, 1, 0, 37, 0),
    (0x2E0A, 1, 0, 38, 0),
    (0x2E0B, 1, 0, 36, 0),
    (0x2E0C, 1, 0, 37, 0),
    (0x2E0D, 1, 0, 38, 0),
];

/// Block 5 of the runs.
pub const RUNS_5: [(u32, u8, u8, u8, u8); 256] = [
    (0x2E0E, 1, 0, 6, 0),
    (0x2E16, 1, 0, 2, 0),
    (0x2E17, 1, 0, 6, 0),
    (0x2E18, 1, 0, 33, 0),
    (0x2E19, 1, 0, 6, 0),
    (0x2E1A, 1, 0, 2, 0),
    (0x2E1C, 1, 0, 37, 0),
    (0x2E1D, 1, 0, 38, 0),
    (0x2E1E, 1, 0, 2, 0),
    (0x2E20, 1, 0, 37, 0),
    (0x2E21, 1, 0, 38, 0),
    (0x2E22, 1, 0, 33, 0),
    (0x2E23, 1, 0, 10, 0),
    (0x2E24, 1, 0, 33, 0),
    (0x2E25, 1, 0, 10, 0),
    (0x2E26, 1, 0, 33, 0),
    (0x2E27, 1, 0, 10, 0),
    (0x2E28, 1, 0, 33, 0),
    (0x2E29, 1, 0, 10, 0),
    (0x2E2A, 1, 0, 6, 0),
    (0x2E2E, 1, 0, 16, 0),
    (0x2E2F, 1, 0, 2, 0),
    (0x2E30, 1, 0, 6, 0),
    (0x2E32, 1, 0, 2, 0),
    (0x2E33, 1, 0, 6, 0),
    (0x2E35, 1, 0, 2, 0),
    (0x2E3A, 1, 0, 5, 0),
    (0x2E3C, 1, 0, 6, 0),
    (0x2E3F, 1, 0, 2, 0),
    (0x2E40, 1, 0, 6, 0),
    (0x2E42, 1, 0, 33, 0),
    (0x2E43, 1, 0, 6, 0),
    (0x2E4B, 1, 0, 2, 0),
    (0x2E4C, 1, 0, 6, 0),
    (0x2E4D, 1, 0, 2, 0),
    (0x2E4E, 1, 0, 6, 0),
    (0x2E50, 1, 0, 2, 0),
    (0x2E53, 1, 0, 16, 0),
    (0x2E55, 1, 0, 33, 0),
    (0x2E56, 1, 0, 10, 0),
    (0x2E57, 1, 0, 33, 0),
    (0x2E58, 1, 0, 10, 0),
    (0x2E59, 1, 0, 33, 0),
    (0x2E5A, 1, 0, 10, 0),
    (0x2E5B, 1, 0, 33, 0),
    (0x2E5C, 1, 0, 10, 0),
    (0x2E5D, 1, 0, 6, 0),
    (0x2E5E, 1, 0, 2, 0),
    (0x2E80, 2, 0, 23, 1),
    (0x2E9A, 1, 0, 2, 0),
    (0x2E9B, 2, 0, 23, 1),
    (0x2EF4, 1, 0, 2, 0),
    (0x2F00, 2, 0, 23, 1),
    (0x2FD6, 1, 0, 2, 0),
    (0x2FF0, 2, 0, 23, 1),
    (0x2FFC, 1, 0, 2, 0),
    (0x3000, 2, 0, 6, 1),
    (0x3001, 2, 0, 10, 1),
    (0x3003, 2, 0, 23, 1),
    (0x3005, 2, 0, 31, 1),
    (0x3006, 2, 0, 23, 1),
    (0x3008, 2, 0, 33, 1),
    (0x3009, 2, 0, 10, 1),
    (0x300A, 2, 0, 33, 1),
    (0x300B, 2, 0, 10, 1),
    (0x300C, 2, 0, 33, 1),
    (0x300D, 2, 0, 10, 1),
    (0x300E, 2, 0, 33, 1),
    (0x300F, 2, 0, 10, 1),
    (0x3010, 2, 0, 33, 1),
    (0x3011, 2, 0, 10, 1),
    (0x3012, 2, 0, 23, 1),
    (0x3014, 2, 0, 33, 1),
    (0x3015, 2, 0, 10, 1),
    (0x3016, 2, 0, 33, 1),
    (0x3017, 2, 0, 10, 1),
    (0x3018, 2, 0, 33, 1),
    (0x3019, 2, 0, 10, 1),
    (0x301A, 2, 0, 33, 1),
    (0x301B, 2, 0, 10, 1),
    (0x301C, 2, 0, 31, 1),
    (0x301D, 2, 0, 33, 1),
    (0x301E, 2, 0, 10, 1),
    (0x3020, 2, 0, 23, 1),
    (0x302A, 0, 17, 11, 1),
    (0x302E, 2, 17, 11, 1),
    (0x3030, 2, 14, 23, 1),
    (0x3031, 2, 0, 23, 1),
    (0x3035, 2, 0, 11, 1),
    (0x3036, 2, 0, 23, 1),
    (0x303B, 2, 0, 31, 1),
    (0x303D, 2, 14, 23, 1),
    (0x303E, 2, 0, 23, 1),
    (0x303F, 1, 0, 23, 0),
    (0x3040, 1, 0, 2, 0),
    (0x3041, 2, 0, 31, 1),
    (0x3042, 2, 0, 23, 1),
    (0x3043, 2, 0, 31, 1),
    (0x3044, 2, 0, 23, 1),
    (0x3045, 2, 0, 31, 1),
    (0x3046, 2, 0, 23, 1),
    (0x3047, 2, 0, 31, 1),
    (0x3048, 2, 0, 23, 1),
    (0x3049, 2, 0, 31, 1),
    (0x304A, 2, 0, 23, 1),
    (0x3063, 2, 0, 31, 1),
    (0x3064, 2, 0, 23, 1),
    (0x3083, 2, 0, 31, 1),
    (0x3084, 2, 0, 23, 1),
    (0x3085, 2, 0, 31, 1),
    (0x3086, 2, 0, 23, 1),
    (0x3087, 2, 0, 31, 1),
    (0x3088, 2, 0, 23, 1),
    (0x308E, 2, 0, 31, 1),
    (0x308F, 2, 0, 23, 1),
    (0x3095, 2, 0, 31, 1),
    (0x3097, 1, 0, 2, 0),
    (0x3099, 0, 17, 11, 1),
    (0x309B, 2, 0, 31, 1),
    (0x309F, 2, 0, 23, 1),
    (0x30A0, 2, 0, 31, 1),
    (0x30A2, 2, 0, 23, 1),
    (0x30A3, 2, 0, 31, 1),
    (0x30A4, 2, 0, 23, 1),
    (0x30A5, 2, 0, 31, 1),
    (0x30A6, 2, 0, 23, 1),
    (0x30A7, 2, 0, 31, 1),
    (0x30A8, 2, 0, 23, 1),
    (0x30A9, 2, 0, 31, 1),
    (0x30AA, 2, 0, 23, 1),
    (0x30C3, 2, 0, 31, 1),
    (0x30C4, 2, 0, 23, 1),
    (0x30E3, 2, 0, 31, 1),
    (0x30E4, 2, 0, 23, 1),
    (0x30E5, 2, 0, 31, 1),
    (0x30E6, 2, 0, 23, 1),
    (0x30E7, 2, 0, 31, 1),
    (0x30E8, 2, 0, 23, 1),
    (0x30EE, 2, 0, 31, 1),
    (0x30EF, 2, 0, 23, 1),
    (0x30F5, 2, 0, 31, 1),
    (0x30F7, 2, 0, 23, 1),
    (0x30FB, 2, 0, 31, 1),
    (0x30FF, 2, 0, 23, 1),
    (0x3100, 1, 0, 2, 0),
    (0x3105, 2, 0, 23, 1),
    (0x3130, 1, 0, 2, 0),
    (0x3131, 2, 0, 23, 1),
    (0x318F, 1, 0, 2, 0),
    (0x3190, 2, 0, 23, 1),
    (0x31E4, 1, 0, 2, 0),
    (0x31F0, 2, 0, 31, 1),
    (0x3200, 2, 0, 23, 1),
    (0x321F, 1, 0, 2, 0),
    (0x3220, 2, 0, 23, 1),
    (0x3248, 3, 0, 2, 0),
    (0x3250, 2, 0, 23, 1),
    (0x3297, 2, 14, 23, 1),
    (0x3298, 2, 0, 23, 1),
    (0x3299, 2, 14, 23, 1),
    (0x329A, 2, 0, 23, 1),
    (0x4DC0, 2, 0, 2, 1),
    (0x4E00, 2, 0, 23, 1),
    (0xA015, 2, 0, 31, 1),
    (0xA016, 2, 0, 23, 1),
    (0xA48D, 1, 0, 2, 0),
    (0xA490, 2, 0, 23, 1),
    (0xA4C7, 1, 0, 2, 0),
    (0xA4FE, 1, 0, 6, 0),
    (0xA500, 1, 0, 2, 0),
    (0xA60D, 1, 0, 6, 0),
    (0xA60E, 1, 0, 16, 0),
    (0xA60F, 1, 0, 6, 0),
    (0xA610, 1, 0, 2, 0),
    (0xA620, 1, 0, 32, 0),
    (0xA62A, 1, 0, 2, 0),
    (0xA66F, 0, 17, 11, 0),
    (0xA670, 0, 4, 11, 0),
    (0xA673, 1, 0, 2, 0),
    (0xA674, 0, 17, 11, 0),
    (0xA67E, 1, 0, 2, 0),
    (0xA69E, 0, 17, 11, 0),
    (0xA6A0, 1, 0, 2, 0),
    (0xA6F0, 0, 17, 11, 0),
    (0xA6F2, 1, 0, 2, 0),
    (0xA6F3, 1, 0, 6, 0),
    (0xA6F8, 1, 0, 2, 0),
    (0xA802, 0, 4, 11, 0),
    (0xA803, 1, 0, 2, 0),
    (0xA806, 0, 17, 11, 0),
    (0xA807, 1, 0, 2, 0),
    (0xA80B, 0, 4, 11, 0),
    (0xA80C, 1, 0, 2, 0),
    (0xA823, 1, 8, 11, 0),
    (0xA825, 0, 4, 11, 0),
    (0xA827, 1, 8, 11, 0),
    (0xA828, 1, 0, 2, 0),
    (0xA82C, 0, 17, 11, 0),
    (0xA82D, 1, 0, 2, 0),
    (0xA838, 1, 0, 34, 0),
    (0xA839, 1, 0, 2, 0),
    (0xA874, 1, 0, 7, 0),
    (0xA876, 1, 0, 16, 0),
    (0xA878, 1, 0, 2, 0),
    (0xA880, 1, 8, 11, 0),
    (0xA882, 1, 0, 2, 0),
    (0xA8B4, 1, 8, 11, 0),
    (0xA8C4, 0, 17, 11, 0),
    (0xA8C5, 0, 4, 11, 0),
    (0xA8C6, 1, 0, 2, 0),
    (0xA8CE, 1, 0, 6, 0),
    (0xA8D0, 1, 0, 32, 0),
    (0xA8DA, 1, 0, 2, 0),
    (0xA8E0, 0, 17, 11, 0),
    (0xA8F2, 1, 0, 2, 0),
    (0xA8FC, 1, 0, 7, 0),
    (0xA8FD, 1, 0, 2, 0),
    (0xA8FF, 0, 4, 11, 0),
    (0xA900, 1, 0, 32, 0),
    (0xA90A, 1, 0, 2, 0),
    (0xA926, 0, 4, 11, 0),
    (0xA92B, 0, 17, 11, 0),
    (0xA92E, 1, 0, 6, 0),
    (0xA930, 1, 0, 2, 0),
    (0xA947, 0, 4, 11, 0),
    (0xA952, 1, 8, 11, 0),
    (0xA954, 1, 0, 2, 0),
    (0xA960, 2, 9, 26, 1),
    (0xA97D, 1, 0, 2, 0),
    (0xA980, 0, 4, 11, 0),
    (0xA983, 1, 8, 11, 0),
    (0xA984, 1, 0, 2, 0),
    (0xA9B3, 0, 17, 11, 0),
    (0xA9B4, 1, 8, 11, 0),
    (0xA9B6, 0, 4, 11, 0),
    (0xA9BA, 1, 8, 11, 0),
    (0xA9BC, 0, 4, 11, 0),
    (0xA9BE, 1, 8, 11, 0),
    (0xA9C1, 1, 0, 2, 0),
    (0xA9C7, 1, 0, 6, 0),
    (0xA9CA, 1, 0, 2, 0),
    (0xA9D0, 1, 0, 32, 0),
    (0xA9DA, 1, 0, 2, 0),
    (0xA9E5, 0, 4, 11, 0),
    (0xA9E6, 1, 0, 2, 0),
    (0xA9F0, 1, 0, 32, 0),
    (0xA9FA, 1, 0, 2, 0),
    (0xAA29, 0, 4, 11, 0),
    (0xAA2F, 1, 8, 11, 0),
    (0xAA31, 0, 4, 11, 0),
    (0xAA33, 1, 8, 11, 0),
    (0xAA35, 0, 4, 11, 0),
    (0xAA37, 1, 0, 2, 0),
    (0xAA43, 0, 4, 11, 0),
    (0xAA44, 1, 0, 2, 0),
    (0xAA4C, 0, 4, 11, 0),
];

/// Block 6 of the runs.
pub const RUNS_6: [(u32, u8, u8, u8, u8); 256] = [
    (0xAA4D, 1, 8, 11, 0),
    (0xAA4E, 1, 0, 2, 0),
    (0xAA50, 1, 0, 32, 0),
    (0xAA5A, 1, 0, 2, 0),
    (0xAA5D, 1, 0, 6, 0),
    (0xAA60, 1, 0, 2, 0),
    (0xAA7B, 1, 0, 11, 0),
    (0xAA7C, 0, 4, 11, 0),
    (0xAA7D, 1, 0, 11, 0),
    (0xAA7E, 1, 0, 2, 0),
    (0xAAB0, 0, 17, 11, 0),
    (0xAAB1, 1, 0, 2, 0),
    (0xAAB2, 0, 17, 11, 0),
    (0xAAB5, 1, 0, 2, 0),
    (0xAAB7, 0, 17, 11, 0),
    (0xAAB9, 1, 0, 2, 0),
    (0xAABE, 0, 17, 11, 0),
    (0xAAC0, 1, 0, 2, 0),
    (0xAAC1, 0, 17, 11, 0),
    (0xAAC2, 1, 0, 2, 0),
    (0xAAEB, 1, 8, 11, 0),
    (0xAAEC, 0, 4, 11, 0),
    (0xAAEE, 1, 8, 11, 0),
    (0xAAF0, 1, 0, 6, 0),
    (0xAAF2, 1, 0, 2, 0),
    (0xAAF5, 1, 8, 11, 0),
    (0xAAF6, 0, 17, 11, 0),
    (0xAAF7, 1, 0, 2, 0),
    (0xABE3, 1, 8, 11, 0),
    (0xABE5, 0, 4, 11, 0),
    (0xABE6, 1, 8, 11, 0),
    (0xABE8, 0, 4, 11, 0),
    (0xABE9, 1, 8, 11, 0),
    (0xABEB, 1, 0, 6, 0),
    (0xABEC, 1, 8, 11, 0),
    (0xABED, 0, 17, 11, 0),
    (0xABEE, 1, 0, 2, 0),
    (0xABF0, 1, 0, 32, 0),
    (0xABFA, 1, 0, 2, 0),
    (0xAC00, 2, 12, 18, 1),
    (0xAC01, 2, 13, 19, 1),
    (0xAC1C, 2, 12, 18, 1),
    (0xAC1D, 2, 13, 19, 1),
    (0xAC38, 2, 12, 18, 1),
    (0xAC39, 2, 13, 19, 1),
    (0xAC54, 2, 12, 18, 1),
    (0xAC55, 2, 13, 19, 1),
    (0xAC70, 2, 12, 18, 1),
    (0xAC71, 2, 13, 19, 1),
    (0xAC8C, 2, 12, 18, 1),
    (0xAC8D, 2, 13, 19, 1),
    (0xACA8, 2, 12, 18, 1),
    (0xACA9, 2, 13, 19, 1),
    (0xACC4, 2, 12, 18, 1),
    (0xACC5, 2, 13, 19, 1),
    (0xACE0, 2, 12, 18, 1),
    (0xACE1, 2, 13, 19, 1),
    (0xACFC, 2, 12, 18, 1),
    (0xACFD, 2, 13, 19, 1),
    (0xAD18, 2, 12, 18, 1),
    (0xAD19, 2, 13, 19, 1),
    (0xAD34, 2, 12, 18, 1),
    (0xAD35, 2, 13, 19, 1),
    (0xAD50, 2, 12, 18, 1),
    (0xAD51, 2, 13, 19, 1),
    (0xAD6C, 2, 12, 18, 1),
    (0xAD6D, 2, 13, 19, 1),
    (0xAD88, 2, 12, 18, 1),
    (0xAD89, 2, 13, 19, 1),
    (0xADA4, 2, 12, 18, 1),
    (0xADA5, 2, 13, 19, 1),
    (0xADC0, 2, 12, 18, 1),
    (0xADC1, 2, 13, 19, 1),
    (0xADDC, 2, 12, 18, 1),
    (0xADDD, 2, 13, 19, 1),
    (0xADF8, 2, 12, 18, 1),
    (0xADF9, 2, 13, 19, 1),
    (0xAE14, 2, 12, 18, 1),
    (0xAE15, 2, 13, 19, 1),
    (0xAE30, 2, 12, 18, 1),
    (0xAE31, 2, 13, 19, 1),
    (0xAE4C, 2, 12, 18, 1),
    (0xAE4D, 2, 13, 19, 1),
    (0xAE68, 2, 12, 18, 1),
    (0xAE69, 2, 13, 19, 1),
    (0xAE84, 2, 12, 18, 1),
    (0xAE85, 2, 13, 19, 1),
    (0xAEA0, 2, 12, 18, 1),
    (0xAEA1, 2, 13, 19, 1),
    (0xAEBC, 2, 12, 18, 1),
    (0xAEBD, 2, 13, 19, 1),
    (0xAED8, 2, 12, 18, 1),
    (0xAED9, 2, 13, 19, 1),
    (0xAEF4, 2, 12, 18, 1),
    (0xAEF5, 2, 13, 19, 1),
    (0xAF10, 2, 12, 18, 1),
    (0xAF11, 2, 13, 19, 1),
    (0xAF2C, 2, 12, 18, 1),
    (0xAF2D, 2, 13, 19, 1),
    (0xAF48, 2, 12, 18, 1),
    (0xAF49, 2, 13, 19, 1),
    (0xAF64, 2, 12, 18, 1),
    (0xAF65, 2, 13, 19, 1),
    (0xAF80, 2, 12, 18, 1),
    (0xAF81, 2, 13, 19, 1),
    (0xAF9C, 2, 12, 18, 1),
    (0xAF9D, 2, 13, 19, 1),
    (0xAFB8, 2, 12, 18, 1),
    (0xAFB9, 2, 13, 19, 1),
    (0xAFD4, 2, 12, 18, 1),
    (0xAFD5, 2, 13, 19, 1),
    (0xAFF0, 2, 12, 18, 1),
    (0xAFF1, 2, 13, 19, 1),
    (0xB00C, 2, 12, 18, 1),
    (0xB00D, 2, 13, 19, 1),
    (0xB028, 2, 12, 18, 1),
    (0xB029, 2, 13, 19, 1),
    (0xB044, 2, 12, 18, 1),
    (0xB045, 2, 13, 19, 1),
    (0xB060, 2, 12, 18, 1),
    (0xB061, 2, 13, 19, 1),
    (0xB07C, 2, 12, 18, 1),
    (0xB07D, 2, 13, 19, 1),
    (0xB098, 2, 12, 18, 1),
    (0xB099, 2, 13, 19, 1),
    (0xB0B4, 2, 12, 18, 1),
    (0xB0B5, 2, 13, 19, 1),
    (0xB0D0, 2, 12, 18, 1),
    (0xB0D1, 2, 13, 19, 1),
    (0xB0EC, 2, 12, 18, 1),
    (0xB0ED, 2, 13, 19, 1),
    (0xB108, 2, 12, 18, 1),
    (0xB109, 2, 13, 19, 1),
    (0xB124, 2, 12, 18, 1),
    (0xB125, 2, 13, 19, 1),
    (0xB140, 2, 12, 18, 1),
    (0xB141, 2, 13, 19, 1),
    (0xB15C, 2, 12, 18, 1),
    (0xB15D, 2, 13, 19, 1),
    (0xB178, 2, 12, 18, 1),
    (0xB179, 2, 13, 19, 1),
    (0xB194, 2, 12, 18, 1),
    (0xB195, 2, 13, 19, 1),
    (0xB1B0, 2, 12, 18, 1),
    (0xB1B1, 2, 13, 19, 1),
    (0xB1CC, 2, 12, 18, 1),
    (0xB1CD, 2, 13, 19, 1),
    (0xB1E8, 2, 12, 18, 1),
    (0xB1E9, 2, 13, 19, 1),
    (0xB204, 2, 12, 18, 1),
    (0xB205, 2, 13, 19, 1),
    (0xB220, 2, 12, 18, 1),
    (0xB221, 2, 13, 19, 1),
    (0xB23C, 2, 12, 18, 1),
    (0xB23D, 2, 13, 19, 1),
    (0xB258, 2, 12, 18, 1),
    (0xB259, 2, 13, 19, 1),
    (0xB274, 2, 12, 18, 1),
    (0xB275, 2, 13, 19, 1),
    (0xB290, 2, 12, 18, 1),
    (0xB291, 2, 13, 19, 1),
    (0xB2AC, 2, 12, 18, 1),
    (0xB2AD, 2, 13, 19, 1),
    (0xB2C8, 2, 12, 18, 1),
    (0xB2C9, 2, 13, 19, 1),
    (0xB2E4, 2, 12, 18, 1),
    (0xB2E5, 2, 13, 19, 1),
    (0xB300, 2, 12, 18, 1),
    (0xB301, 2, 13, 19, 1),
    (0xB31C, 2, 12, 18, 1),
    (0xB31D, 2, 13, 19, 1),
    (0xB338, 2, 12, 18, 1),
    (0xB339, 2, 13, 19, 1),
    (0xB354, 2, 12, 18, 1),
    (0xB355, 2, 13, 19, 1),
    (0xB370, 2, 12, 18, 1),
    (0xB371, 2, 13, 19, 1),
    (0xB38C, 2, 12, 18, 1),
    (0xB38D, 2, 13, 19, 1),
    (0xB3A8, 2, 12, 18, 1),
    (0xB3A9, 2, 13, 19, 1),
    (0xB3C4, 2, 12, 18, 1),
    (0xB3C5, 2, 13, 19, 1),
    (0xB3E0, 2, 12, 18, 1),
    (0xB3E1, 2, 13, 19, 1),
    (0xB3FC, 2, 12, 18, 1),
    (0xB3FD, 2, 13, 19, 1),
    (0xB418, 2, 12, 18, 1),
    (0xB419, 2, 13, 19, 1),
    (0xB434, 2, 12, 18, 1),
    (0xB435, 2, 13, 19, 1),
    (0xB450, 2, 12, 18, 1),
    (0xB451, 2, 13, 19, 1),
    (0xB46C, 2, 12, 18, 1),
    (0xB46D, 2, 13, 19, 1),
    (0xB488, 2, 12, 18, 1),
    (0xB489, 2, 13, 19, 1),
    (0xB4A4, 2, 12, 18, 1),
    (0xB4A5, 2, 13, 19, 1),
    (0xB4C0, 2, 12, 18, 1),
    (0xB4C1, 2, 13, 19, 1),
    (0xB4DC, 2, 12, 18, 1),
    (0xB4DD, 2, 13, 19, 1),
    (0xB4F8, 2, 12, 18, 1),
    (0xB4F9, 2, 13, 19, 1),
    (0xB514, 2, 12, 18, 1),
    (0xB515, 2, 13, 19, 1),
    (0xB530, 2, 12, 18, 1),
    (0xB531, 2, 13, 19, 1),
    (0xB54C, 2, 12, 18, 1),
    (0xB54D, 2, 13, 19, 1),
    (0xB568, 2, 12, 18, 1),
    (0xB569, 2, 13, 19, 1),
    (0xB584, 2, 12, 18, 1),
    (0xB585, 2, 13, 19, 1),
    (0xB5A0, 2, 12, 18, 1),
    (0xB5A1, 2, 13, 19, 1),
    (0xB5BC, 2, 12, 18, 1),
    (0xB5BD, 2, 13, 19, 1),
    (0xB5D8, 2, 12, 18, 1),
    (0xB5D9, 2, 13, 19, 1),
    (0xB5F4, 2, 12, 18, 1),
    (0xB5F5, 2, 13, 19, 1),
    (0xB610, 2, 12, 18, 1),
    (0xB611, 2, 13, 19, 1),
    (0xB62C, 2, 12, 18, 1),
    (0xB62D, 2, 13, 19, 1),
    (0xB648, 2, 12, 18, 1),
    (0xB649, 2, 13, 19, 1),
    (0xB664, 2, 12, 18, 1),
    (0xB665, 2, 13, 19, 1),
    (0xB680, 2, 12, 18, 1),
    (0xB681, 2, 13, 19, 1),
    (0xB69C, 2, 12, 18, 1),
    (0xB69D, 2, 13, 19, 1),
    (0xB6B8, 2, 12, 18, 1),
    (0xB6B9, 2, 13, 19, 1),
    (0xB6D4, 2, 12, 18, 1),
    (0xB6D5, 2, 13, 19, 1),
    (0xB6F0, 2, 12, 18, 1),
    (0xB6F1, 2, 13, 19, 1),
    (0xB70C, 2, 12, 18, 1),
    (0xB70D, 2, 13, 19, 1),
    (0xB728, 2, 12, 18, 1),
    (0xB729, 2, 13, 19, 1),
    (0xB744, 2, 12, 18, 1),
    (0xB745, 2, 13, 19, 1),
    (0xB760, 2, 12, 18, 1),
    (0xB761, 2, 13, 19, 1),
    (0xB77C, 2, 12, 18, 1),
    (0xB77D, 2, 13, 19, 1),
    (0xB798, 2, 12, 18, 1),
    (0xB799, 2, 13, 19, 1),
    (0xB7B4, 2, 12, 18, 1),
    (0xB7B5, 2, 13, 19, 1),
    (0xB7D0, 2, 12, 18, 1),
];

/// Block 7 of the runs.
pub const RUNS_7: [(u32, u8, u8, u8, u8); 256] = [
    (0xB7D1, 2, 13, 19, 1),
    (0xB7EC, 2, 12, 18, 1),
    (0xB7ED, 2, 13, 19, 1),
    (0xB808, 2, 12, 18, 1),
    (0xB809, 2, 13, 19, 1),
    (0xB824, 2, 12, 18, 1),
    (0xB825, 2, 13, 19, 1),
    (0xB840, 2, 12, 18, 1),
    (0xB841, 2, 13, 19, 1),
    (0xB85C, 2, 12, 18, 1),
    (0xB85D, 2, 13, 19, 1),
    (0xB878, 2, 12, 18, 1),
    (0xB879, 2, 13, 19, 1),
    (0xB894, 2, 12, 18, 1),
    (0xB895, 2, 13, 19, 1),
    (0xB8B0, 2, 12, 18, 1),
    (0xB8B1, 2, 13, 19, 1),
    (0xB8CC, 2, 12, 18, 1),
    (0xB8CD, 2, 13, 19, 1),
    (0xB8E8, 2, 12, 18, 1),
    (0xB8E9, 2, 13, 19, 1),
    (0xB904, 2, 12, 18, 1),
    (0xB905, 2, 13, 19, 1),
    (0xB920, 2, 12, 18, 1),
    (0xB921, 2, 13, 19, 1),
    (0xB93C, 2, 12, 18, 1),
    (0xB93D, 2, 13, 19, 1),
    (0xB958, 2, 12, 18, 1),
    (0xB959, 2, 13, 19, 1),
    (0xB974, 2, 12, 18, 1),
    (0xB975, 2, 13, 19, 1),
    (0xB990, 2, 12, 18, 1),
    (0xB991, 2, 13, 19, 1),
    (0xB9AC, 2, 12, 18, 1),
    (0xB9AD, 2, 13, 19, 1),
    (0xB9C8, 2, 12, 18, 1),
    (0xB9C9, 2, 13, 19, 1),
    (0xB9E4, 2, 12, 18, 1),
    (0xB9E5, 2, 13, 19, 1),
    (0xBA00, 2, 12, 18, 1),
    (0xBA01, 2, 13, 19, 1),
    (0xBA1C, 2, 12, 18, 1),
    (0xBA1D, 2, 13, 19, 1),
    (0xBA38, 2, 12, 18, 1),
    (0xBA39, 2, 13, 19, 1),
    (0xBA54, 2, 12, 18, 1),
    (0xBA55, 2, 13, 19, 1),
    (0xBA70, 2, 12, 18, 1),
    (0xBA71, 2, 13, 19, 1),
    (0xBA8C, 2, 12, 18, 1),
    (0xBA8D, 2, 13, 19, 1),
    (0xBAA8, 2, 12, 18, 1),
    (0xBAA9, 2, 13, 19, 1),
    (0xBAC4, 2, 12, 18, 1),
    (0xBAC5, 2, 13, 19, 1),
    (0xBAE0, 2, 12, 18, 1),
    (0xBAE1, 2, 13, 19, 1),
    (0xBAFC, 2, 12, 18, 1),
    (0xBAFD, 2, 13, 19, 1),
    (0xBB18, 2, 12, 18, 1),
    (0xBB19, 2, 13, 19, 1),
    (0xBB34, 2, 12, 18, 1),
    (0xBB35, 2, 13, 19, 1),
    (0xBB50, 2, 12, 18, 1),
    (0xBB51, 2, 13, 19, 1),
    (0xBB6C, 2, 12, 18, 1),
    (0xBB6D, 2, 13, 19, 1),
    (0xBB88, 2, 12, 18, 1),
    (0xBB89, 2, 13, 19, 1),
    (0xBBA4, 2, 12, 18, 1),
    (0xBBA5, 2, 13, 19, 1),
    (0xBBC0, 2, 12, 18, 1),
    (0xBBC1, 2, 13, 19, 1),
    (0xBBDC, 2, 12, 18, 1),
    (0xBBDD, 2, 13, 19, 1),
    (0xBBF8, 2, 12, 18, 1),
    (0xBBF9, 2, 13, 19, 1),
    (0xBC14, 2, 12, 18, 1),
    (0xBC15, 2, 13, 19, 1),
    (0xBC30, 2, 12, 18, 1),
    (0xBC31, 2, 13, 19, 1),
    (0xBC4C, 2, 12, 18, 1),
    (0xBC4D, 2, 13, 19, 1),
    (0xBC68, 2, 12, 18, 1),
    (0xBC69, 2, 13, 19, 1),
    (0xBC84, 2, 12, 18, 1),
    (0xBC85, 2, 13, 19, 1),
    (0xBCA0, 2, 12, 18, 1),
    (0xBCA1, 2, 13, 19, 1),
    (0xBCBC, 2, 12, 18, 1),
    (0xBCBD, 2, 13, 19, 1),
    (0xBCD8, 2, 12, 18, 1),
    (0xBCD9, 2, 13, 19, 1),
    (0xBCF4, 2, 12, 18, 1),
    (0xBCF5, 2, 13, 19, 1),
    (0xBD10, 2, 12, 18, 1),
    (0xBD11, 2, 13, 19, 1),
    (0xBD2C, 2, 12, 18, 1),
    (0xBD2D, 2, 13, 19, 1),
    (0xBD48, 2, 12, 18, 1),
    (0xBD49, 2, 13, 19, 1),
    (0xBD64, 2, 12, 18, 1),
    (0xBD65, 2, 13, 19, 1),
    (0xBD80, 2, 12, 18, 1),
    (0xBD81, 2, 13, 19, 1),
    (0xBD9C, 2, 12, 18, 1),
    (0xBD9D, 2, 13, 19, 1),
    (0xBDB8, 2, 12, 18, 1),
    (0xBDB9, 2, 13, 19, 1),
    (0xBDD4, 2, 12, 18, 1),
    (0xBDD5, 2, 13, 19, 1),
    (0xBDF0, 2, 12, 18, 1),
    (0xBDF1, 2, 13, 19, 1),
    (0xBE0C, 2, 12, 18, 1),
    (0xBE0D, 2, 13, 19, 1),
    (0xBE28, 2, 12, 18, 1),
    (0xBE29, 2, 13, 19, 1),
    (0xBE44, 2, 12, 18, 1),
    (0xBE45, 2, 13, 19, 1),
    (0xBE60, 2, 12, 18, 1),
    (0xBE61, 2, 13, 19, 1),
    (0xBE7C, 2, 12, 18, 1),
    (0xBE7D, 2, 13, 19, 1),
    (0xBE98, 2, 12, 18, 1),
    (0xBE99, 2, 13, 19, 1),
    (0xBEB4, 2, 12, 18, 1),
    (0xBEB5, 2, 13, 19, 1),
    (0xBED0, 2, 12, 18, 1),
    (0xBED1, 2, 13, 19, 1),
    (0xBEEC, 2, 12, 18, 1),
    (0xBEED, 2, 13, 19, 1),
    (0xBF08, 2, 12, 18, 1),
    (0xBF09, 2, 13, 19, 1),
    (0xBF24, 2, 12, 18, 1),
    (0xBF25, 2, 13, 19, 1),
    (0xBF40, 2, 12, 18, 1),
    (0xBF41, 2, 13, 19, 1),
    (0xBF5C, 2, 12, 18, 1),
    (0xBF5D, 2, 13, 19, 1),
    (0xBF78, 2, 12, 18, 1),
    (0xBF79, 2, 13, 19, 1),
    (0xBF94, 2, 12, 18, 1),
    (0xBF95, 2, 13, 19, 1),
    (0xBFB0, 2, 12, 18, 1),
    (0xBFB1, 2, 13, 19, 1),
    (0xBFCC, 2, 12, 18, 1),
    (0xBFCD, 2, 13, 19, 1),
    (0xBFE8, 2, 12, 18, 1),
    (0xBFE9, 2, 13, 19, 1),
    (0xC004, 2, 12, 18, 1),
    (0xC005, 2, 13, 19, 1),
    (0xC020, 2, 12, 18, 1),
    (0xC021, 2, 13, 19, 1),
    (0xC03C, 2, 12, 18, 1),
    (0xC03D, 2, 13, 19, 1),
    (0xC058, 2, 12, 18, 1),
    (0xC059, 2, 13, 19, 1),
    (0xC074, 2, 12, 18, 1),
    (0xC075, 2, 13, 19, 1),
    (0xC090, 2, 12, 18, 1),
    (0xC091, 2, 13, 19, 1),
    (0xC0AC, 2, 12, 18, 1),
    (0xC0AD, 2, 13, 19, 1),
    (0xC0C8, 2, 12, 18, 1),
    (0xC0C9, 2, 13, 19, 1),
    (0xC0E4, 2, 12, 18, 1),
    (0xC0E5, 2, 13, 19, 1),
    (0xC100, 2, 12, 18, 1),
    (0xC101, 2, 13, 19, 1),
    (0xC11C, 2, 12, 18, 1),
    (0xC11D, 2, 13, 19, 1),
    (0xC138, 2, 12, 18, 1),
    (0xC139, 2, 13, 19, 1),
    (0xC154, 2, 12, 18, 1),
    (0xC155, 2, 13, 19, 1),
    (0xC170, 2, 12, 18, 1),
    (0xC171, 2, 13, 19, 1),
    (0xC18C, 2, 12, 18, 1),
    (0xC18D, 2, 13, 19, 1),
    (0xC1A8, 2, 12, 18, 1),
    (0xC1A9, 2, 13, 19, 1),
    (0xC1C4, 2, 12, 18, 1),
    (0xC1C5, 2, 13, 19, 1),
    (0xC1E0, 2, 12, 18, 1),
    (0xC1E1, 2, 13, 19, 1),
    (0xC1FC, 2, 12, 18, 1),
    (0xC1FD, 2, 13, 19, 1),
    (0xC218, 2, 12, 18, 1),
    (0xC219, 2, 13, 19, 1),
    (0xC234, 2, 12, 18, 1),
    (0xC235, 2, 13, 19, 1),
    (0xC250, 2, 12, 18, 1),
    (0xC251, 2, 13, 19, 1),
    (0xC26C, 2, 12, 18, 1),
    (0xC26D, 2, 13, 19, 1),
    (0xC288, 2, 12, 18, 1),
    (0xC289, 2, 13, 19, 1),
    (0xC2A4, 2, 12, 18, 1),
    (0xC2A5, 2, 13, 19, 1),
    (0xC2C0, 2, 12, 18, 1),
    (0xC2C1, 2, 13, 19, 1),
    (0xC2DC, 2, 12, 18, 1),
    (0xC2DD, 2, 13, 19, 1),
    (0xC2F8, 2, 12, 18, 1),
    (0xC2F9, 2, 13, 19, 1),
    (0xC314, 2, 12, 18, 1),
    (0xC315, 2, 13, 19, 1),
    (0xC330, 2, 12, 18, 1),
    (0xC331, 2, 13, 19, 1),
    (0xC34C, 2, 12, 18, 1),
    (0xC34D, 2, 13, 19, 1),
    (0xC368, 2, 12, 18, 1),
    (0xC369, 2, 13, 19, 1),
    (0xC384, 2, 12, 18, 1),
    (0xC385, 2, 13, 19, 1),
    (0xC3A0, 2, 12, 18, 1),
    (0xC3A1, 2, 13, 19, 1),
    (0xC3BC, 2, 12, 18, 1),
    (0xC3BD, 2, 13, 19, 1),
    (0xC3D8, 2, 12, 18, 1),
    (0xC3D9, 2, 13, 19, 1),
    (0xC3F4, 2, 12, 18, 1),
    (0xC3F5, 2, 13, 19, 1),
    (0xC410, 2, 12, 18, 1),
    (0xC411, 2, 13, 19, 1),
    (0xC42C, 2, 12, 18, 1),
    (0xC42D, 2, 13, 19, 1),
    (0xC448, 2, 12, 18, 1),
    (0xC449, 2, 13, 19, 1),
    (0xC464, 2, 12, 18, 1),
    (0xC465, 2, 13, 19, 1),
    (0xC480, 2, 12, 18, 1),
    (0xC481, 2, 13, 19, 1),
    (0xC49C, 2, 12, 18, 1),
    (0xC49D, 2, 13, 19, 1),
    (0xC4B8, 2, 12, 18, 1),
    (0xC4B9, 2, 13, 19, 1),
    (0xC4D4, 2, 12, 18, 1),
    (0xC4D5, 2, 13, 19, 1),
    (0xC4F0, 2, 12, 18, 1),
    (0xC4F1, 2, 13, 19, 1),
    (0xC50C, 2, 12, 18, 1),
    (0xC50D, 2, 13, 19, 1),
    (0xC528, 2, 12, 18, 1),
    (0xC529, 2, 13, 19, 1),
    (0xC544, 2, 12, 18, 1),
    (0xC545, 2, 13, 19, 1),
    (0xC560, 2, 12, 18, 1),
    (0xC561, 2, 13, 19, 1),
    (0xC57C, 2, 12, 18, 1),
    (0xC57D, 2, 13, 19, 1),
    (0xC598, 2, 12, 18, 1),
    (0xC599, 2, 13, 19, 1),
    (0xC5B4, 2, 12, 18, 1),
    (0xC5B5, 2, 13, 19, 1),
    (0xC5D0, 2, 12, 18, 1),
];

/// Block 8 of the runs.
pub const RUNS_8: [(u32, u8, u8, u8, u8); 256] = [
    (0xC5D1, 2, 13, 19, 1),
    (0xC5EC, 2, 12, 18, 1),
    (0xC5ED, 2, 13, 19, 1),
    (0xC608, 2, 12, 18, 1),
    (0xC609, 2, 13, 19, 1),
    (0xC624, 2, 12, 18, 1),
    (0xC625, 2, 13, 19, 1),
    (0xC640, 2, 12, 18, 1),
    (0xC641, 2, 13, 19, 1),
    (0xC65C, 2, 12, 18, 1),
    (0xC65D, 2, 13, 19, 1),
    (0xC678, 2, 12, 18, 1),
    (0xC679, 2, 13, 19, 1),
    (0xC694, 2, 12, 18, 1),
    (0xC695, 2, 13, 19, 1),
    (0xC6B0, 2, 12, 18, 1),
    (0xC6B1, 2, 13, 19, 1),
    (0xC6CC, 2, 12, 18, 1),
    (0xC6CD, 2, 13, 19, 1),
    (0xC6E8, 2, 12, 18, 1),
    (0xC6E9, 2, 13, 19, 1),
    (0xC704, 2, 12, 18, 1),
    (0xC705, 2, 13, 19, 1),
    (0xC720, 2, 12, 18, 1),
    (0xC721, 2, 13, 19, 1),
    (0xC73C, 2, 12, 18, 1),
    (0xC73D, 2, 13, 19, 1),
    (0xC758, 2, 12, 18, 1),
    (0xC759, 2, 13, 19, 1),
    (0xC774, 2, 12, 18, 1),
    (0xC775, 2, 13, 19, 1),
    (0xC790, 2, 12, 18, 1),
    (0xC791, 2, 13, 19, 1),
    (0xC7AC, 2, 12, 18, 1),
    (0xC7AD, 2, 13, 19, 1),
    (0xC7C8, 2, 12, 18, 1),
    (0xC7C9, 2, 13, 19, 1),
    (0xC7E4, 2, 12, 18, 1),
    (0xC7E5, 2, 13, 19, 1),
    (0xC800, 2, 12, 18, 1),
    (0xC801, 2, 13, 19, 1),
    (0xC81C, 2, 12, 18, 1),
    (0xC81D, 2, 13, 19, 1),
    (0xC838, 2, 12, 18, 1),
    (0xC839, 2, 13, 19, 1),
    (0xC854, 2, 12, 18, 1),
    (0xC855, 2, 13, 19, 1),
    (0xC870, 2, 12, 18, 1),
    (0xC871, 2, 13, 19, 1),
    (0xC88C, 2, 12, 18, 1),
    (0xC88D, 2, 13, 19, 1),
    (0xC8A8, 2, 12, 18, 1),
    (0xC8A9, 2, 13, 19, 1),
    (0xC8C4, 2, 12, 18, 1),
    (0xC8C5, 2, 13, 19, 1),
    (0xC8E0, 2, 12, 18, 1),
    (0xC8E1, 2, 13, 19, 1),
    (0xC8FC, 2, 12, 18, 1),
    (0xC8FD, 2, 13, 19, 1),
    (0xC918, 2, 12, 18, 1),
    (0xC919, 2, 13, 19, 1),
    (0xC934, 2, 12, 18, 1),
    (0xC935, 2, 13, 19, 1),
    (0xC950, 2, 12, 18, 1),
    (0xC951, 2, 13, 19, 1),
    (0xC96C, 2, 12, 18, 1),
    (0xC96D, 2, 13, 19, 1),
    (0xC988, 2, 12, 18, 1),
    (0xC989, 2, 13, 19, 1),
    (0xC9A4, 2, 12, 18, 1),
    (0xC9A5, 2, 13, 19, 1),
    (0xC9C0, 2, 12, 18, 1),
    (0xC9C1, 2, 13, 19, 1),
    (0xC9DC, 2, 12, 18, 1),
    (0xC9DD, 2, 13, 19, 1),
    (0xC9F8, 2, 12, 18, 1),
    (0xC9F9, 2, 13, 19, 1),
    (0xCA14, 2, 12, 18, 1),
    (0xCA15, 2, 13, 19, 1),
    (0xCA30, 2, 12, 18, 1),
    (0xCA31, 2, 13, 19, 1),
    (0xCA4C, 2, 12, 18, 1),
    (0xCA4D, 2, 13, 19, 1),
    (0xCA68, 2, 12, 18, 1),
    (0xCA69, 2, 13, 19, 1),
    (0xCA84, 2, 12, 18, 1),
    (0xCA85, 2, 13, 19, 1),
    (0xCAA0, 2, 12, 18, 1),
    (0xCAA1, 2, 13, 19, 1),
    (0xCABC, 2, 12, 18, 1),
    (0xCABD, 2, 13, 19, 1),
    (0xCAD8, 2, 12, 18, 1),
    (0xCAD9, 2, 13, 19, 1),
    (0xCAF4, 2, 12, 18, 1),
    (0xCAF5, 2, 13, 19, 1),
    (0xCB10, 2, 12, 18, 1),
    (0xCB11, 2, 13, 19, 1),
    (0xCB2C, 2, 12, 18, 1),
    (0xCB2D, 2, 13, 19, 1),
    (0xCB48, 2, 12, 18, 1),
    (0xCB49, 2, 13, 19, 1),
    (0xCB64, 2, 12, 18, 1),
    (0xCB65, 2, 13, 19, 1),
    (0xCB80, 2, 12, 18, 1),
    (0xCB81, 2, 13, 19, 1),
    (0xCB9C, 2, 12, 18, 1),
    (0xCB9D, 2, 13, 19, 1),
    (0xCBB8, 2, 12, 18, 1),
    (0xCBB9, 2, 13, 19, 1),
    (0xCBD4, 2, 12, 18, 1),
    (0xCBD5, 2, 13, 19, 1),
    (0xCBF0, 2, 12, 18, 1),
    (0xCBF1, 2, 13, 19, 1),
    (0xCC0C, 2, 12, 18, 1),
    (0xCC0D, 2, 13, 19, 1),
    (0xCC28, 2, 12, 18, 1),
    (0xCC29, 2, 13, 19, 1),
    (0xCC44, 2, 12, 18, 1),
    (0xCC45, 2, 13, 19, 1),
    (0xCC60, 2, 12, 18, 1),
    (0xCC61, 2, 13, 19, 1),
    (0xCC7C, 2, 12, 18, 1),
    (0xCC7D, 2, 13, 19, 1),
    (0xCC98, 2, 12, 18, 1),
    (0xCC99, 2, 13, 19, 1),
    (0xCCB4, 2, 12, 18, 1),
    (0xCCB5, 2, 13, 19, 1),
    (0xCCD0, 2, 12, 18, 1),
    (0xCCD1, 2, 13, 19, 1),
    (0xCCEC, 2, 12, 18, 1),
    (0xCCED, 2, 13, 19, 1),
    (0xCD08, 2, 12, 18, 1),
    (0xCD09, 2, 13, 19, 1),
    (0xCD24, 2, 12, 18, 1),
    (0xCD25, 2, 13, 19, 1),
    (0xCD40, 2, 12, 18, 1),
    (0xCD41, 2, 13, 19, 1),
    (0xCD5C, 2, 12, 18, 1),
    (0xCD5D, 2, 13, 19, 1),
    (0xCD78, 2, 12, 18, 1),
    (0xCD79, 2, 13, 19, 1),
    (0xCD94, 2, 12, 18, 1),
    (0xCD95, 2, 13, 19, 1),
    (0xCDB0, 2, 12, 18, 1),
    (0xCDB1, 2, 13, 19, 1),
    (0xCDCC, 2, 12, 18, 1),
    (0xCDCD, 2, 13, 19, 1),
    (0xCDE8, 2, 12, 18, 1),
    (0xCDE9, 2, 13, 19, 1),
    (0xCE04, 2, 12, 18, 1),
    (0xCE05, 2, 13, 19, 1),
    (0xCE20, 2, 12, 18, 1),
    (0xCE21, 2, 13, 19, 1),
    (0xCE3C, 2, 12, 18, 1),
    (0xCE3D, 2, 13, 19, 1),
    (0xCE58, 2, 12, 18, 1),
    (0xCE59, 2, 13, 19, 1),
    (0xCE74, 2, 12, 18, 1),
    (0xCE75, 2, 13, 19, 1),
    (0xCE90, 2, 12, 18, 1),
    (0xCE91, 2, 13, 19, 1),
    (0xCEAC, 2, 12, 18, 1),
    (0xCEAD, 2, 13, 19, 1),
    (0xCEC8, 2, 12, 18, 1),
    (0xCEC9, 2, 13, 19, 1),
    (0xCEE4, 2, 12, 18, 1),
    (0xCEE5, 2, 13, 19, 1),
    (0xCF00, 2, 12, 18, 1),
    (0xCF01, 2, 13, 19, 1),
    (0xCF1C, 2, 12, 18, 1),
    (0xCF1D, 2, 13, 19, 1),
    (0xCF38, 2, 12, 18, 1),
    (0xCF39, 2, 13, 19, 1),
    (0xCF54, 2, 12, 18, 1),
    (0xCF55, 2, 13, 19, 1),
    (0xCF70, 2, 12, 18, 1),
    (0xCF71, 2, 13, 19, 1),
    (0xCF8C, 2, 12, 18, 1),
    (0xCF8D, 2, 13, 19, 1),
    (0xCFA8, 2, 12, 18, 1),
    (0xCFA9, 2, 13, 19, 1),
    (0xCFC4, 2, 12, 18, 1),
    (0xCFC5, 2, 13, 19, 1),
    (0xCFE0, 2, 12, 18, 1),
    (0xCFE1, 2, 13, 19, 1),
    (0xCFFC, 2, 12, 18, 1),
    (0xCFFD, 2, 13, 19, 1),
    (0xD018, 2, 12, 18, 1),
    (0xD019, 2, 13, 19, 1),
    (0xD034, 2, 12, 18, 1),
    (0xD035, 2, 13, 19, 1),
    (0xD050, 2, 12, 18, 1),
    (0xD051, 2, 13, 19, 1),
    (0xD06C, 2, 12, 18, 1),
    (0xD06D, 2, 13, 19, 1),
    (0xD088, 2, 12, 18, 1),
    (0xD089, 2, 13, 19, 1),
    (0xD0A4, 2, 12, 18, 1),
    (0xD0A5, 2, 13, 19, 1),
    (0xD0C0, 2, 12, 18, 1),
    (0xD0C1, 2, 13, 19, 1),
    (0xD0DC, 2, 12, 18, 1),
    (0xD0DD, 2, 13, 19, 1),
    (0xD0F8, 2, 12, 18, 1),
    (0xD0F9, 2, 13, 19, 1),
    (0xD114, 2, 12, 18, 1),
    (0xD115, 2, 13, 19, 1),
    (0xD130, 2, 12, 18, 1),
    (0xD131, 2, 13, 19, 1),
    (0xD14C, 2, 12, 18, 1),
    (0xD14D, 2, 13, 19, 1),
    (0xD168, 2, 12, 18, 1),
    (0xD169, 2, 13, 19, 1),
    (0xD184, 2, 12, 18, 1),
    (0xD185, 2, 13, 19, 1),
    (0xD1A0, 2, 12, 18, 1),
    (0xD1A1, 2, 13, 19, 1),
    (0xD1BC, 2, 12, 18, 1),
    (0xD1BD, 2, 13, 19, 1),
    (0xD1D8, 2, 12, 18, 1),
    (0xD1D9, 2, 13, 19, 1),
    (0xD1F4, 2, 12, 18, 1),
    (0xD1F5, 2, 13, 19, 1),
    (0xD210, 2, 12, 18, 1),
    (0xD211, 2, 13, 19, 1),
    (0xD22C, 2, 12, 18, 1),
    (0xD22D, 2, 13, 19, 1),
    (0xD248, 2, 12, 18, 1),
    (0xD249, 2, 13, 19, 1),
    (0xD264, 2, 12, 18, 1),
    (0xD265, 2, 13, 19, 1),
    (0xD280, 2, 12, 18, 1),
    (0xD281, 2, 13, 19, 1),
    (0xD29C, 2, 12, 18, 1),
    (0xD29D, 2, 13, 19, 1),
    (0xD2B8, 2, 12, 18, 1),
    (0xD2B9, 2, 13, 19, 1),
    (0xD2D4, 2, 12, 18, 1),
    (0xD2D5, 2, 13, 19, 1),
    (0xD2F0, 2, 12, 18, 1),
    (0xD2F1, 2, 13, 19, 1),
    (0xD30C, 2, 12, 18, 1),
    (0xD30D, 2, 13, 19, 1),
    (0xD328, 2, 12, 18, 1),
    (0xD329, 2, 13, 19, 1),
    (0xD344, 2, 12, 18, 1),
    (0xD345, 2, 13, 19, 1),
    (0xD360, 2, 12, 18, 1),
    (0xD361, 2, 13, 19, 1),
    (0xD37C, 2, 12, 18, 1),
    (0xD37D, 2, 13, 19, 1),
    (0xD398, 2, 12, 18, 1),
    (0xD399, 2, 13, 19, 1),
    (0xD3B4, 2, 12, 18, 1),
    (0xD3B5, 2, 13, 19, 1),
    (0xD3D0, 2, 12, 18, 1),
];

/// Block 9 of the runs.
pub const RUNS_9: [(u32, u8, u8, u8, u8); 256] = [
    (0xD3D1, 2, 13, 19, 1),
    (0xD3EC, 2, 12, 18, 1),
    (0xD3ED, 2, 13, 19, 1),
    (0xD408, 2, 12, 18, 1),
    (0xD409, 2, 13, 19, 1),
    (0xD424, 2, 12, 18, 1),
    (0xD425, 2, 13, 19, 1),
    (0xD440, 2, 12, 18, 1),
    (0xD441, 2, 13, 19, 1),
    (0xD45C, 2, 12, 18, 1),
    (0xD45D, 2, 13, 19, 1),
    (0xD478, 2, 12, 18, 1),
    (0xD479, 2, 13, 19, 1),
    (0xD494, 2, 12, 18, 1),
    (0xD495, 2, 13, 19, 1),
    (0xD4B0, 2, 12, 18, 1),
    (0xD4B1, 2, 13, 19, 1),
    (0xD4CC, 2, 12, 18, 1),
    (0xD4CD, 2, 13, 19, 1),
    (0xD4E8, 2, 12, 18, 1),
    (0xD4E9, 2, 13, 19, 1),
    (0xD504, 2, 12, 18, 1),
    (0xD505, 2, 13, 19, 1),
    (0xD520, 2, 12, 18, 1),
    (0xD521, 2, 13, 19, 1),
    (0xD53C, 2, 12, 18, 1),
    (0xD53D, 2, 13, 19, 1),
    (0xD558, 2, 12, 18, 1),
    (0xD559, 2, 13, 19, 1),
    (0xD574, 2, 12, 18, 1),
    (0xD575, 2, 13, 19, 1),
    (0xD590, 2, 12, 18, 1),
    (0xD591, 2, 13, 19, 1),
    (0xD5AC, 2, 12, 18, 1),
    (0xD5AD, 2, 13, 19, 1),
    (0xD5C8, 2, 12, 18, 1),
    (0xD5C9, 2, 13, 19, 1),
    (0xD5E4, 2, 12, 18, 1),
    (0xD5E5, 2, 13, 19, 1),
    (0xD600, 2, 12, 18, 1),
    (0xD601, 2, 13, 19, 1),
    (0xD61C, 2, 12, 18, 1),
    (0xD61D, 2, 13, 19, 1),
    (0xD638, 2, 12, 18, 1),
    (0xD639, 2, 13, 19, 1),
    (0xD654, 2, 12, 18, 1),
    (0xD655, 2, 13, 19, 1),
    (0xD670, 2, 12, 18, 1),
    (0xD671, 2, 13, 19, 1),
    (0xD68C, 2, 12, 18, 1),
    (0xD68D, 2, 13, 19, 1),
    (0xD6A8, 2, 12, 18, 1),
    (0xD6A9, 2, 13, 19, 1),
    (0xD6C4, 2, 12, 18, 1),
    (0xD6C5, 2, 13, 19, 1),
    (0xD6E0, 2, 12, 18, 1),
    (0xD6E1, 2, 13, 19, 1),
    (0xD6FC, 2, 12, 18, 1),
    (0xD6FD, 2, 13, 19, 1),
    (0xD718, 2, 12, 18, 1),
    (0xD719, 2, 13, 19, 1),
    (0xD734, 2, 12, 18, 1),
    (0xD735, 2, 13, 19, 1),
    (0xD750, 2, 12, 18, 1),
    (0xD751, 2, 13, 19, 1),
    (0xD76C, 2, 12, 18, 1),
    (0xD76D, 2, 13, 19, 1),
    (0xD788, 2, 12, 18, 1),
    (0xD789, 2, 13, 19, 1),
    (0xD7A4, 1, 0, 2, 0),
    (0xD7B0, 0, 10, 28, 0),
    (0xD7C7, 0, 0, 2, 0),
    (0xD7CB, 0, 11, 27, 0),
    (0xD7FC, 0, 0, 2, 0),
    (0xD800, 1, 0, 2, 0),
    (0xE000, 3, 0, 2, 0),
    (0xF900, 2, 0, 23, 1),
    (0xFB00, 1, 0, 2, 0),
    (0xFB1D, 1, 0, 21, 0),
    (0xFB1E, 0, 17, 11, 0),
    (0xFB1F, 1, 0, 21, 0),
    (0xFB29, 1, 0, 2, 0),
    (0xFB2A, 1, 0, 21, 0),
    (0xFB37, 1, 0, 2, 0),
    (0xFB38, 1, 0, 21, 0),
    (0xFB3D, 1, 0, 2, 0),
    (0xFB3E, 1, 0, 21, 0),
    (0xFB3F, 1, 0, 2, 0),
    (0xFB40, 1, 0, 21, 0),
    (0xFB42, 1, 0, 2, 0),
    (0xFB43, 1, 0, 21, 0),
    (0xFB45, 1, 0, 2, 0),
    (0xFB46, 1, 0, 21, 0),
    (0xFB50, 1, 0, 2, 0),
    (0xFD3E, 1, 0, 10, 0),
    (0xFD3F, 1, 0, 33, 0),
    (0xFD40, 1, 0, 2, 0),
    (0xFDFC, 1, 0, 34, 0),
    (0xFDFD, 1, 0, 2, 0),
    (0xFE00, 0, 4, 11, 0),
    (0xFE10, 2, 0, 25, 1),
    (0xFE11, 2, 0, 10, 1),
    (0xFE13, 2, 0, 25, 1),
    (0xFE15, 2, 0, 16, 1),
    (0xFE17, 2, 0, 33, 1),
    (0xFE18, 2, 0, 10, 1),
    (0xFE19, 2, 0, 24, 1),
    (0xFE1A, 1, 0, 2, 0),
    (0xFE20, 0, 17, 11, 0),
    (0xFE30, 2, 0, 23, 1),
    (0xFE35, 2, 0, 33, 1),
    (0xFE36, 2, 0, 10, 1),
    (0xFE37, 2, 0, 33, 1),
    (0xFE38, 2, 0, 10, 1),
    (0xFE39, 2, 0, 33, 1),
    (0xFE3A, 2, 0, 10, 1),
    (0xFE3B, 2, 0, 33, 1),
    (0xFE3C, 2, 0, 10, 1),
    (0xFE3D, 2, 0, 33, 1),
    (0xFE3E, 2, 0, 10, 1),
    (0xFE3F, 2, 0, 33, 1),
    (0xFE40, 2, 0, 10, 1),
    (0xFE41, 2, 0, 33, 1),
    (0xFE42, 2, 0, 10, 1),
    (0xFE43, 2, 0, 33, 1),
    (0xFE44, 2, 0, 10, 1),
    (0xFE45, 2, 0, 23, 1),
    (0xFE47, 2, 0, 33, 1),
    (0xFE48, 2, 0, 10, 1),
    (0xFE49, 2, 0, 23, 1),
    (0xFE50, 2, 0, 10, 1),
    (0xFE51, 2, 0, 23, 1),
    (0xFE52, 2, 0, 10, 1),
    (0xFE53, 1, 0, 2, 0),
    (0xFE54, 2, 0, 31, 1),
    (0xFE56, 2, 0, 16, 1),
    (0xFE58, 2, 0, 23, 1),
    (0xFE59, 2, 0, 33, 1),
    (0xFE5A, 2, 0, 10, 1),
    (0xFE5B, 2, 0, 33, 1),
    (0xFE5C, 2, 0, 10, 1),
    (0xFE5D, 2, 0, 33, 1),
    (0xFE5E, 2, 0, 10, 1),
    (0xFE5F, 2, 0, 23, 1),
    (0xFE67, 1, 0, 2, 0),
    (0xFE68, 2, 0, 23, 1),
    (0xFE69, 2, 0, 35, 1),
    (0xFE6A, 2, 0, 34, 1),
    (0xFE6B, 2, 0, 23, 1),
    (0xFE6C, 1, 0, 2, 0),
    (0xFEFF, 0, 3, 44, 0),
    (0xFF00, 1, 0, 2, 0),
    (0xFF01, 2, 0, 16, 1),
    (0xFF02, 2, 0, 23, 1),
    (0xFF04, 2, 0, 35, 1),
    (0xFF05, 2, 0, 34, 1),
    (0xFF06, 2, 0, 23, 1),
    (0xFF08, 2, 0, 33, 1),
    (0xFF09, 2, 0, 10, 1),
    (0xFF0A, 2, 0, 23, 1),
    (0xFF0C, 2, 0, 10, 1),
    (0xFF0D, 2, 0, 23, 1),
    (0xFF0E, 2, 0, 10, 1),
    (0xFF0F, 2, 0, 23, 1),
    (0xFF1A, 2, 0, 31, 1),
    (0xFF1C, 2, 0, 23, 1),
    (0xFF1F, 2, 0, 16, 1),
    (0xFF20, 2, 0, 23, 1),
    (0xFF3B, 2, 0, 33, 1),
    (0xFF3C, 2, 0, 23, 1),
    (0xFF3D, 2, 0, 10, 1),
    (0xFF3E, 2, 0, 23, 1),
    (0xFF5B, 2, 0, 33, 1),
    (0xFF5C, 2, 0, 23, 1),
    (0xFF5D, 2, 0, 10, 1),
    (0xFF5E, 2, 0, 23, 1),
    (0xFF5F, 2, 0, 33, 1),
    (0xFF60, 2, 0, 10, 1),
    (0xFF61, 1, 0, 10, 1),
    (0xFF62, 1, 0, 33, 1),
    (0xFF63, 1, 0, 10, 1),
    (0xFF65, 1, 0, 31, 1),
    (0xFF66, 1, 0, 23, 1),
    (0xFF67, 1, 0, 31, 1),
    (0xFF71, 1, 0, 23, 1),
    (0xFF9E, 1, 4, 31, 1),
    (0xFFA0, 1, 0, 23, 1),
    (0xFFBF, 1, 0, 2, 0),
    (0xFFC2, 1, 0, 23, 1),
    (0xFFC8, 1, 0, 2, 0),
    (0xFFCA, 1, 0, 23, 1),
    (0xFFD0, 1, 0, 2, 0),
    (0xFFD2, 1, 0, 23, 1),
    (0xFFD8, 1, 0, 2, 0),
    (0xFFDA, 1, 0, 23, 1),
    (0xFFDD, 1, 0, 2, 0),
    (0xFFE0, 2, 0, 34, 1),
    (0xFFE1, 2, 0, 35, 1),
    (0xFFE2, 2, 0, 23, 1),
    (0xFFE5, 2, 0, 35, 1),
    (0xFFE7, 1, 0, 2, 0),
    (0xFFE8, 1, 0, 2, 1),
    (0xFFEF, 1, 0, 2, 0),
    (0xFFF0, 1, 3, 2, 0),
    (0xFFF9, 0, 3, 11, 0),
    (0xFFFC, 1, 0, 9, 0),
    (0xFFFD, 3, 0, 2, 0),
    (0xFFFE, 1, 0, 2, 0),
    (0x10100, 1, 0, 6, 0),
    (0x10103, 1, 0, 2, 0),
    (0x101FD, 0, 17, 11, 0),
    (0x101FE, 1, 0, 2, 0),
    (0x102E0, 0, 17, 11, 0),
    (0x102E1, 1, 0, 2, 0),
    (0x10376, 0, 17, 11, 0),
    (0x1037B, 1, 0, 2, 0),
    (0x1039F, 1, 0, 6, 0),
    (0x103A0, 1, 0, 2, 0),
    (0x103D0, 1, 0, 6, 0),
    (0x103D1, 1, 0, 2, 0),
    (0x104A0, 1, 0, 32, 0),
    (0x104AA, 1, 0, 2, 0),
    (0x10857, 1, 0, 6, 0),
    (0x10858, 1, 0, 2, 0),
    (0x1091F, 1, 0, 6, 0),
    (0x10920, 1, 0, 2, 0),
    (0x10A01, 0, 4, 11, 0),
    (0x10A04, 1, 0, 2, 0),
    (0x10A05, 0, 4, 11, 0),
    (0x10A07, 1, 0, 2, 0),
    (0x10A0C, 0, 4, 11, 0),
    (0x10A0D, 0, 17, 11, 0),
    (0x10A0E, 0, 4, 11, 0),
    (0x10A0F, 0, 17, 11, 0),
    (0x10A10, 1, 0, 2, 0),
    (0x10A38, 0, 17, 11, 0),
    (0x10A3B, 1, 0, 2, 0),
    (0x10A3F, 0, 17, 11, 0),
    (0x10A40, 1, 0, 2, 0),
    (0x10A50, 1, 0, 6, 0),
    (0x10A58, 1, 0, 2, 0),
    (0x10AE5, 0, 17, 11, 0),
    (0x10AE7, 1, 0, 2, 0),
    (0x10AF0, 1, 0, 6, 0),
    (0x10AF6, 1, 0, 24, 0),
    (0x10AF7, 1, 0, 2, 0),
    (0x10B39, 1, 0, 6, 0),
    (0x10B40, 1, 0, 2, 0),
    (0x10D24, 0, 17, 11, 0),
    (0x10D28, 1, 0, 2, 0),
    (0x10D30, 1, 0, 32, 0),
    (0x10D3A, 1, 0, 2, 0),
    (0x10EAB, 0, 17, 11, 0),
    (0x10EAD, 1, 0, 6, 0),
    (0x10EAE, 1, 0, 2, 0),
    (0x10F46, 0, 17, 11, 0),
];

/// Block 10 of the runs.
pub const RUNS_10: [(u32, u8, u8, u8, u8); 256] = [
    (0x10F51, 1, 0, 2, 0),
    (0x10F82, 0, 17, 11, 0),
    (0x10F86, 1, 0, 2, 0),
    (0x11000, 1, 8, 11, 0),
    (0x11001, 0, 4, 11, 0),
    (0x11002, 1, 8, 11, 0),
    (0x11003, 1, 0, 2, 0),
    (0x11038, 0, 4, 11, 0),
    (0x11046, 0, 17, 11, 0),
    (0x11047, 1, 0, 6, 0),
    (0x11049, 1, 0, 2, 0),
    (0x11066, 1, 0, 32, 0),
    (0x11070, 0, 17, 11, 0),
    (0x11071, 1, 0, 2, 0),
    (0x11073, 0, 4, 11, 0),
    (0x11075, 1, 0, 2, 0),
    (0x1107F, 0, 17, 11, 0),
    (0x11080, 0, 4, 11, 0),
    (0x11082, 1, 8, 11, 0),
    (0x11083, 1, 0, 2, 0),
    (0x110B0, 1, 8, 11, 0),
    (0x110B3, 0, 4, 11, 0),
    (0x110B7, 1, 8, 11, 0),
    (0x110B9, 0, 17, 11, 0),
    (0x110BB, 1, 0, 2, 0),
    (0x110BD, 0, 7, 2, 0),
    (0x110BE, 1, 0, 6, 0),
    (0x110C2, 0, 4, 11, 0),
    (0x110C3, 1, 0, 2, 0),
    (0x110CD, 0, 7, 2, 0),
    (0x110CE, 1, 0, 2, 0),
    (0x110F0, 1, 0, 32, 0),
    (0x110FA, 1, 0, 2, 0),
    (0x11100, 0, 17, 11, 0),
    (0x11103, 1, 0, 2, 0),
    (0x11127, 0, 4, 11, 0),
    (0x1112C, 1, 8, 11, 0),
    (0x1112D, 0, 4, 11, 0),
    (0x11133, 0, 17, 11, 0),
    (0x11135, 1, 0, 2, 0),
    (0x11136, 1, 0, 32, 0),
    (0x11140, 1, 0, 6, 0),
    (0x11144, 1, 0, 2, 0),
    (0x11145, 1, 8, 11, 0),
    (0x11147, 1, 0, 2, 0),
    (0x11173, 0, 17, 11, 0),
    (0x11174, 1, 0, 2, 0),
    (0x11175, 1, 0, 7, 0),
    (0x11176, 1, 0, 2, 0),
    (0x11180, 0, 4, 11, 0),
    (0x11182, 1, 8, 11, 0),
    (0x11183, 1, 0, 2, 0),
    (0x111B3, 1, 8, 11, 0),
    (0x111B6, 0, 4, 11, 0),
    (0x111BF, 1, 8, 11, 0),
    (0x111C1, 1, 0, 2, 0),
    (0x111C2, 1, 7, 2, 0),
    (0x111C4, 1, 0, 2, 0),
    (0x111C5, 1, 0, 6, 0),
    (0x111C7, 1, 0, 2, 0),
    (0x111C8, 1, 0, 6, 0),
    (0x111C9, 0, 4, 11, 0),
    (0x111CA, 0, 17, 11, 0),
    (0x111CB, 0, 4, 11, 0),
    (0x111CD, 1, 0, 2, 0),
    (0x111CE, 1, 8, 11, 0),
    (0x111CF, 0, 4, 11, 0),
    (0x111D0, 1, 0, 32, 0),
    (0x111DA, 1, 0, 2, 0),
    (0x111DB, 1, 0, 7, 0),
    (0x111DC, 1, 0, 2, 0),
    (0x111DD, 1, 0, 6, 0),
    (0x111E0, 1, 0, 2, 0),
    (0x1122C, 1, 8, 11, 0),
    (0x1122F, 0, 4, 11, 0),
    (0x11232, 1, 8, 11, 0),
    (0x11234, 0, 4, 11, 0),
    (0x11235, 1, 8, 11, 0),
    (0x11236, 0, 17, 11, 0),
    (0x11237, 0, 4, 11, 0),
    (0x11238, 1, 0, 6, 0),
    (0x1123A, 1, 0, 2, 0),
    (0x1123B, 1, 0, 6, 0),
    (0x1123D, 1, 0, 2, 0),
    (0x1123E, 0, 4, 11, 0),
    (0x1123F, 1, 0, 2, 0),
    (0x112A9, 1, 0, 6, 0),
    (0x112AA, 1, 0, 2, 0),
    (0x112DF, 0, 4, 11, 0),
    (0x112E0, 1, 8, 11, 0),
    (0x112E3, 0, 4, 11, 0),
    (0x112E9, 0, 17, 11, 0),
    (0x112EB, 1, 0, 2, 0),
    (0x112F0, 1, 0, 32, 0),
    (0x112FA, 1, 0, 2, 0),
    (0x11300, 0, 4, 11, 0),
    (0x11302, 1, 8, 11, 0),
    (0x11304, 1, 0, 2, 0),
    (0x1133B, 0, 17, 11, 0),
    (0x1133D, 1, 0, 2, 0),
    (0x1133E, 1, 4, 11, 0),
    (0x1133F, 1, 8, 11, 0),
    (0x11340, 0, 4, 11, 0),
    (0x11341, 1, 8, 11, 0),
    (0x11345, 1, 0, 2, 0),
    (0x11347, 1, 8, 11, 0),
    (0x11349, 1, 0, 2, 0),
    (0x1134B, 1, 8, 11, 0),
    (0x1134E, 1, 0, 2, 0),
    (0x11357, 1, 4, 11, 0),
    (0x11358, 1, 0, 2, 0),
    (0x11362, 1, 8, 11, 0),
    (0x11364, 1, 0, 2, 0),
    (0x11366, 0, 17, 11, 0),
    (0x1136D, 1, 0, 2, 0),
    (0x11370, 0, 17, 11, 0),
    (0x11375, 1, 0, 2, 0),
    (0x11435, 1, 8, 11, 0),
    (0x11438, 0, 4, 11, 0),
    (0x11440, 1, 8, 11, 0),
    (0x11442, 0, 17, 11, 0),
    (0x11443, 0, 4, 11, 0),
    (0x11445, 1, 8, 11, 0),
    (0x11446, 0, 17, 11, 0),
    (0x11447, 1, 0, 2, 0),
    (0x1144B, 1, 0, 6, 0),
    (0x1144F, 1, 0, 2, 0),
    (0x11450, 1, 0, 32, 0),
    (0x1145A, 1, 0, 6, 0),
    (0x1145C, 1, 0, 2, 0),
    (0x1145E, 0, 17, 11, 0),
    (0x1145F, 1, 0, 2, 0),
    (0x114B0, 1, 4, 11, 0),
    (0x114B1, 1, 8, 11, 0),
    (0x114B3, 0, 4, 11, 0),
    (0x114B9, 1, 8, 11, 0),
    (0x114BA, 0, 4, 11, 0),
    (0x114BB, 1, 8, 11, 0),
    (0x114BD, 1, 4, 11, 0),
    (0x114BE, 1, 8, 11, 0),
    (0x114BF, 0, 4, 11, 0),
    (0x114C1, 1, 8, 11, 0),
    (0x114C2, 0, 17, 11, 0),
    (0x114C4, 1, 0, 2, 0),
    (0x114D0, 1, 0, 32, 0),
    (0x114DA, 1, 0, 2, 0),
    (0x115AF, 1, 4, 11, 0),
    (0x115B0, 1, 8, 11, 0),
    (0x115B2, 0, 4, 11, 0),
    (0x115B6, 1, 0, 2, 0),
    (0x115B8, 1, 8, 11, 0),
    (0x115BC, 0, 4, 11, 0),
    (0x115BE, 1, 8, 11, 0),
    (0x115BF, 0, 17, 11, 0),
    (0x115C1, 1, 0, 7, 0),
    (0x115C2, 1, 0, 6, 0),
    (0x115C4, 1, 0, 16, 0),
    (0x115C6, 1, 0, 2, 0),
    (0x115C9, 1, 0, 6, 0),
    (0x115D8, 1, 0, 2, 0),
    (0x115DC, 0, 4, 11, 0),
    (0x115DE, 1, 0, 2, 0),
    (0x11630, 1, 8, 11, 0),
    (0x11633, 0, 4, 11, 0),
    (0x1163B, 1, 8, 11, 0),
    (0x1163D, 0, 4, 11, 0),
    (0x1163E, 1, 8, 11, 0),
    (0x1163F, 0, 17, 11, 0),
    (0x11640, 0, 4, 11, 0),
    (0x11641, 1, 0, 6, 0),
    (0x11643, 1, 0, 2, 0),
    (0x11650, 1, 0, 32, 0),
    (0x1165A, 1, 0, 2, 0),
    (0x11660, 1, 0, 7, 0),
    (0x1166D, 1, 0, 2, 0),
    (0x116AB, 0, 4, 11, 0),
    (0x116AC, 1, 8, 11, 0),
    (0x116AD, 0, 4, 11, 0),
    (0x116AE, 1, 8, 11, 0),
    (0x116B0, 0, 4, 11, 0),
    (0x116B6, 1, 8, 11, 0),
    (0x116B7, 0, 17, 11, 0),
    (0x116B8, 1, 0, 2, 0),
    (0x116C0, 1, 0, 32, 0),
    (0x116CA, 1, 0, 2, 0),
    (0x1171D, 0, 4, 11, 0),
    (0x11720, 1, 0, 11, 0),
    (0x11722, 0, 4, 11, 0),
    (0x11726, 1, 8, 11, 0),
    (0x11727, 0, 4, 11, 0),
    (0x1172B, 0, 17, 11, 0),
    (0x1172C, 1, 0, 2, 0),
    (0x11730, 1, 0, 32, 0),
    (0x1173A, 1, 0, 2, 0),
    (0x1173C, 1, 0, 6, 0),
    (0x1173F, 1, 0, 2, 0),
    (0x1182C, 1, 8, 11, 0),
    (0x1182F, 0, 4, 11, 0),
    (0x11838, 1, 8, 11, 0),
    (0x11839, 0, 17, 11, 0),
    (0x1183B, 1, 0, 2, 0),
    (0x118E0, 1, 0, 32, 0),
    (0x118EA, 1, 0, 2, 0),
    (0x11930, 1, 4, 11, 0),
    (0x11931, 1, 8, 11, 0),
    (0x11936, 1, 0, 2, 0),
    (0x11937, 1, 8, 11, 0),
    (0x11939, 1, 0, 2, 0),
    (0x1193B, 0, 4, 11, 0),
    (0x1193D, 1, 8, 11, 0),
    (0x1193E, 0, 17, 11, 0),
    (0x1193F, 1, 7, 2, 0),
    (0x11940, 1, 8, 11, 0),
    (0x11941, 1, 7, 2, 0),
    (0x11942, 1, 8, 11, 0),
    (0x11943, 0, 17, 11, 0),
    (0x11944, 1, 0, 6, 0),
    (0x11947, 1, 0, 2, 0),
    (0x11950, 1, 0, 32, 0),
    (0x1195A, 1, 0, 2, 0),
    (0x119D1, 1, 8, 11, 0),
    (0x119D4, 0, 4, 11, 0),
    (0x119D8, 1, 0, 2, 0),
    (0x119DA, 0, 4, 11, 0),
    (0x119DC, 1, 8, 11, 0),
    (0x119E0, 0, 17, 11, 0),
    (0x119E1, 1, 0, 2, 0),
    (0x119E2, 1, 0, 7, 0),
    (0x119E3, 1, 0, 2, 0),
    (0x119E4, 1, 8, 11, 0),
    (0x119E5, 1, 0, 2, 0),
    (0x11A01, 0, 4, 11, 0),
    (0x11A0B, 1, 0, 2, 0),
    (0x11A33, 0, 4, 11, 0),
    (0x11A34, 0, 17, 11, 0),
    (0x11A35, 0, 4, 11, 0),
    (0x11A39, 1, 8, 11, 0),
    (0x11A3A, 1, 7, 2, 0),
    (0x11A3B, 0, 4, 11, 0),
    (0x11A3F, 1, 0, 7, 0),
    (0x11A40, 1, 0, 2, 0),
    (0x11A41, 1, 0, 6, 0),
    (0x11A45, 1, 0, 7, 0),
    (0x11A46, 1, 0, 2, 0),
    (0x11A47, 0, 17, 11, 0),
    (0x11A48, 1, 0, 2, 0),
    (0x11A51, 0, 4, 11, 0),
    (0x11A57, 1, 8, 11, 0),
    (0x11A59, 0, 4, 11, 0),
    (0x11A5C, 1, 0, 2, 0),
    (0x11A84, 1, 7, 2, 0),
    (0x11A8A, 0, 4, 11, 0),
    (0x11A97, 1, 8, 11, 0),
    (0x11A98, 0, 4, 11, 0),
    (0x11A99, 0, 17, 11, 0),
    (0x11A9A, 1, 0, 6, 0),
];

/// Block 11 of the runs.
pub const RUNS_11: [(u32, u8, u8, u8, u8); 256] = [
    (0x11A9D, 1, 0, 2, 0),
    (0x11A9E, 1, 0, 7, 0),
    (0x11AA1, 1, 0, 6, 0),
    (0x11AA3, 1, 0, 2, 0),
    (0x11C2F, 1, 8, 11, 0),
    (0x11C30, 0, 4, 11, 0),
    (0x11C37, 1, 0, 2, 0),
    (0x11C38, 0, 4, 11, 0),
    (0x11C3E, 1, 8, 11, 0),
    (0x11C3F, 0, 17, 11, 0),
    (0x11C40, 1, 0, 2, 0),
    (0x11C41, 1, 0, 6, 0),
    (0x11C46, 1, 0, 2, 0),
    (0x11C50, 1, 0, 32, 0),
    (0x11C5A, 1, 0, 2, 0),
    (0x11C70, 1, 0, 7, 0),
    (0x11C71, 1, 0, 16, 0),
    (0x11C72, 1, 0, 2, 0),
    (0x11C92, 0, 4, 11, 0),
    (0x11CA8, 1, 0, 2, 0),
    (0x11CA9, 1, 8, 11, 0),
    (0x11CAA, 0, 4, 11, 0),
    (0x11CB1, 1, 8, 11, 0),
    (0x11CB2, 0, 4, 11, 0),
    (0x11CB4, 1, 8, 11, 0),
    (0x11CB5, 0, 4, 11, 0),
    (0x11CB7, 1, 0, 2, 0),
    (0x11D31, 0, 4, 11, 0),
    (0x11D37, 1, 0, 2, 0),
    (0x11D3A, 0, 4, 11, 0),
    (0x11D3B, 1, 0, 2, 0),
    (0x11D3C, 0, 4, 11, 0),
    (0x11D3E, 1, 0, 2, 0),
    (0x11D3F, 0, 4, 11, 0),
    (0x11D42, 0, 17, 11, 0),
    (0x11D43, 0, 4, 11, 0),
    (0x11D44, 0, 17, 11, 0),
    (0x11D46, 1, 7, 2, 0),
    (0x11D47, 0, 4, 11, 0),
    (0x11D48, 1, 0, 2, 0),
    (0x11D50, 1, 0, 32, 0),
    (0x11D5A, 1, 0, 2, 0),
    (0x11D8A, 1, 8, 11, 0),
    (0x11D8F, 1, 0, 2, 0),
    (0x11D90, 0, 4, 11, 0),
    (0x11D92, 1, 0, 2, 0),
    (0x11D93, 1, 8, 11, 0),
    (0x11D95, 0, 4, 11, 0),
    (0x11D96, 1, 8, 11, 0),
    (0x11D97, 0, 17, 11, 0),
    (0x11D98, 1, 0, 2, 0),
    (0x11DA0, 1, 0, 32, 0),
    (0x11DAA, 1, 0, 2, 0),
    (0x11EF3, 0, 4, 11, 0),
    (0x11EF5, 1, 8, 11, 0),
    (0x11EF7, 1, 0, 2, 0),
    (0x11FDD, 1, 0, 34, 0),
    (0x11FE1, 1, 0, 2, 0),
    (0x11FFF, 1, 0, 6, 0),
    (0x12000, 1, 0, 2, 0),
    (0x12470, 1, 0, 6, 0),
    (0x12475, 1, 0, 2, 0),
    (0x13258, 1, 0, 33, 0),
    (0x1325B, 1, 0, 10, 0),
    (0x1325E, 1, 0, 2, 0),
    (0x13282, 1, 0, 10, 0),
    (0x13283, 1, 0, 2, 0),
    (0x13286, 1, 0, 33, 0),
    (0x13287, 1, 0, 10, 0),
    (0x13288, 1, 0, 33, 0),
    (0x13289, 1, 0, 10, 0),
    (0x1328A, 1, 0, 2, 0),
    (0x13379, 1, 0, 33, 0),
    (0x1337A, 1, 0, 10, 0),
    (0x1337C, 1, 0, 2, 0),
    (0x13430, 0, 3, 17, 0),
    (0x13437, 0, 3, 33, 0),
    (0x13438, 0, 3, 10, 0),
    (0x13439, 1, 0, 2, 0),
    (0x145CE, 1, 0, 33, 0),
    (0x145CF, 1, 0, 10, 0),
    (0x145D0, 1, 0, 2, 0),
    (0x16A60, 1, 0, 32, 0),
    (0x16A6A, 1, 0, 2, 0),
    (0x16A6E, 1, 0, 6, 0),
    (0x16A70, 1, 0, 2, 0),
    (0x16AC0, 1, 0, 32, 0),
    (0x16ACA, 1, 0, 2, 0),
    (0x16AF0, 0, 17, 11, 0),
    (0x16AF5, 1, 0, 6, 0),
    (0x16AF6, 1, 0, 2, 0),
    (0x16B30, 0, 17, 11, 0),
    (0x16B37, 1, 0, 6, 0),
    (0x16B3A, 1, 0, 2, 0),
    (0x16B44, 1, 0, 6, 0),
    (0x16B45, 1, 0, 2, 0),
    (0x16B50, 1, 0, 32, 0),
    (0x16B5A, 1, 0, 2, 0),
    (0x16E97, 1, 0, 6, 0),
    (0x16E99, 1, 0, 2, 0),
    (0x16F4F, 0, 4, 11, 0),
    (0x16F50, 1, 0, 2, 0),
    (0x16F51, 1, 8, 11, 0),
    (0x16F88, 1, 0, 2, 0),
    (0x16F8F, 0, 4, 11, 0),
    (0x16F93, 1, 0, 2, 0),
    (0x16FE0, 2, 0, 31, 1),
    (0x16FE4, 0, 4, 17, 1),
    (0x16FE5, 1, 0, 2, 0),
    (0x16FF0, 2, 8, 11, 1),
    (0x16FF2, 1, 0, 2, 0),
    (0x17000, 2, 0, 23, 1),
    (0x187F8, 1, 0, 2, 0),
    (0x18800, 2, 0, 23, 1),
    (0x18B00, 2, 0, 2, 1),
    (0x18CD6, 1, 0, 2, 0),
    (0x18D00, 2, 0, 23, 1),
    (0x18D09, 1, 0, 2, 0),
    (0x1AFF0, 2, 0, 2, 1),
    (0x1AFF4, 1, 0, 2, 0),
    (0x1AFF5, 2, 0, 2, 1),
    (0x1AFFC, 1, 0, 2, 0),
    (0x1AFFD, 2, 0, 2, 1),
    (0x1AFFF, 1, 0, 2, 0),
    (0x1B000, 2, 0, 23, 1),
    (0x1B123, 1, 0, 2, 0),
    (0x1B150, 2, 0, 31, 1),
    (0x1B153, 1, 0, 2, 0),
    (0x1B164, 2, 0, 31, 1),
    (0x1B168, 1, 0, 2, 0),
    (0x1B170, 2, 0, 23, 1),
    (0x1B2FC, 1, 0, 2, 0),
    (0x1BC9D, 0, 4, 11, 0),
    (0x1BC9E, 0, 17, 11, 0),
    (0x1BC9F, 1, 0, 6, 0),
    (0x1BCA0, 0, 3, 11, 0),
    (0x1BCA4, 1, 0, 2, 0),
    (0x1CF00, 0, 4, 11, 0),
    (0x1CF2E, 1, 0, 2, 0),
    (0x1CF30, 0, 4, 11, 0),
    (0x1CF47, 1, 0, 2, 0),
    (0x1D165, 1, 17, 11, 0),
    (0x1D166, 1, 8, 11, 0),
    (0x1D167, 0, 17, 11, 0),
    (0x1D16A, 1, 0, 2, 0),
    (0x1D16D, 1, 8, 11, 0),
    (0x1D16E, 1, 17, 11, 0),
    (0x1D173, 0, 3, 11, 0),
    (0x1D17B, 0, 17, 11, 0),
    (0x1D183, 1, 0, 2, 0),
    (0x1D185, 0, 17, 11, 0),
    (0x1D18C, 1, 0, 2, 0),
    (0x1D1AA, 0, 17, 11, 0),
    (0x1D1AE, 1, 0, 2, 0),
    (0x1D242, 0, 17, 11, 0),
    (0x1D245, 1, 0, 2, 0),
    (0x1D300, 2, 0, 2, 1),
    (0x1D357, 1, 0, 2, 0),
    (0x1D360, 2, 0, 2, 1),
    (0x1D377, 1, 0, 2, 0),
    (0x1D7CE, 1, 0, 32, 0),
    (0x1D800, 1, 0, 2, 0),
    (0x1DA00, 0, 4, 11, 0),
    (0x1DA37, 1, 0, 2, 0),
    (0x1DA3B, 0, 4, 11, 0),
    (0x1DA6D, 1, 0, 2, 0),
    (0x1DA75, 0, 4, 11, 0),
    (0x1DA76, 1, 0, 2, 0),
    (0x1DA84, 0, 4, 11, 0),
    (0x1DA85, 1, 0, 2, 0),
    (0x1DA87, 1, 0, 6, 0),
    (0x1DA8B, 1, 0, 2, 0),
    (0x1DA9B, 0, 4, 11, 0),
    (0x1DAA0, 1, 0, 2, 0),
    (0x1DAA1, 0, 4, 11, 0),
    (0x1DAB0, 1, 0, 2, 0),
    (0x1E000, 0, 17, 11, 0),
    (0x1E007, 1, 0, 2, 0),
    (0x1E008, 0, 17, 11, 0),
    (0x1E019, 1, 0, 2, 0),
    (0x1E01B, 0, 17, 11, 0),
    (0x1E022, 1, 0, 2, 0),
    (0x1E023, 0, 17, 11, 0),
    (0x1E025, 1, 0, 2, 0),
    (0x1E026, 0, 17, 11, 0),
    (0x1E02B, 1, 0, 2, 0),
    (0x1E130, 0, 17, 11, 0),
    (0x1E137, 1, 0, 2, 0),
    (0x1E140, 1, 0, 32, 0),
    (0x1E14A, 1, 0, 2, 0),
    (0x1E2AE, 0, 17, 11, 0),
    (0x1E2AF, 1, 0, 2, 0),
    (0x1E2EC, 0, 17, 11, 0),
    (0x1E2F0, 1, 0, 32, 0),
    (0x1E2FA, 1, 0, 2, 0),
    (0x1E2FF, 1, 0, 35, 0),
    (0x1E300, 1, 0, 2, 0),
    (0x1E8D0, 0, 17, 11, 0),
    (0x1E8D7, 1, 0, 2, 0),
    (0x1E944, 0, 17, 11, 0),
    (0x1E94B, 1, 0, 2, 0),
    (0x1E950, 1, 0, 32, 0),
    (0x1E95A, 1, 0, 2, 0),
    (0x1E95E, 1, 0, 33, 0),
    (0x1E960, 1, 0, 2, 0),
    (0x1ECAC, 1, 0, 34, 0),
    (0x1ECAD, 1, 0, 2, 0),
    (0x1ECB0, 1, 0, 34, 0),
    (0x1ECB1, 1, 0, 2, 0),
    (0x1F000, 1, 14, 23, 0),
    (0x1F004, 2, 14, 23, 1),
    (0x1F005, 1, 14, 23, 0),
    (0x1F02C, 1, 14, 23, 2),
    (0x1F030, 1, 14, 23, 0),
    (0x1F094, 1, 14, 23, 2),
    (0x1F0A0, 1, 14, 23, 0),
    (0x1F0AF, 1, 14, 23, 2),
    (0x1F0B1, 1, 14, 23, 0),
    (0x1F0C0, 1, 14, 23, 2),
    (0x1F0C1, 1, 14, 23, 0),
    (0x1F0CF, 2, 14, 23, 1),
    (0x1F0D0, 1, 14, 23, 2),
    (0x1F0D1, 1, 14, 23, 0),
    (0x1F0F6, 1, 14, 23, 2),
    (0x1F100, 3, 0, 2, 0),
    (0x1F10B, 1, 0, 2, 0),
    (0x1F10D, 1, 14, 23, 0),
    (0x1F110, 3, 0, 2, 0),
    (0x1F12E, 1, 0, 2, 0),
    (0x1F12F, 1, 14, 2, 0),
    (0x1F130, 3, 0, 2, 0),
    (0x1F16A, 1, 0, 2, 0),
    (0x1F16C, 1, 14, 2, 0),
    (0x1F16D, 1, 14, 23, 0),
    (0x1F170, 3, 14, 2, 0),
    (0x1F172, 3, 0, 2, 0),
    (0x1F17E, 3, 14, 2, 0),
    (0x1F180, 3, 0, 2, 0),
    (0x1F18E, 2, 14, 2, 1),
    (0x1F18F, 3, 0, 2, 0),
    (0x1F191, 2, 14, 2, 1),
    (0x1F19B, 3, 0, 2, 0),
    (0x1F1AD, 1, 14, 23, 0),
    (0x1F1AE, 1, 14, 23, 2),
    (0x1F1E6, 2, 6, 39, 0),
    (0x1F200, 2, 0, 23, 1),
    (0x1F201, 2, 14, 23, 1),
    (0x1F203, 1, 14, 23, 2),
    (0x1F210, 2, 0, 23, 1),
    (0x1F21A, 2, 14, 23, 1),
    (0x1F21B, 2, 0, 23, 1),
    (0x1F22F, 2, 14, 23, 1),
    (0x1F230, 2, 0, 23, 1),
    (0x1F232, 2, 14, 23, 1),
    (0x1F23B, 2, 0, 23, 1),
    (0x1F23C, 1, 14, 23, 2),
];

/// Block 12 of the runs.
pub const RUNS_12: [(u32, u8, u8, u8, u8); 220] = [
    (0x1F240, 2, 0, 23, 1),
    (0x1F249, 1, 14, 23, 2),
    (0x1F250, 2, 14, 23, 1),
    (0x1F252, 1, 14, 23, 2),
    (0x1F260, 2, 14, 23, 1),
    (0x1F266, 1, 14, 23, 2),
    (0x1F300, 2, 14, 23, 1),
    (0x1F321, 1, 14, 23, 0),
    (0x1F32D, 2, 14, 23, 1),
    (0x1F336, 1, 14, 23, 0),
    (0x1F337, 2, 14, 23, 1),
    (0x1F37D, 1, 14, 23, 0),
    (0x1F37E, 2, 14, 23, 1),
    (0x1F385, 2, 14, 14, 1),
    (0x1F386, 2, 14, 23, 1),
    (0x1F394, 1, 14, 23, 0),
    (0x1F39C, 1, 14, 2, 0),
    (0x1F39E, 1, 14, 23, 0),
    (0x1F3A0, 2, 14, 23, 1),
    (0x1F3B5, 2, 14, 2, 1),
    (0x1F3B7, 2, 14, 23, 1),
    (0x1F3BC, 2, 14, 2, 1),
    (0x1F3BD, 2, 14, 23, 1),
    (0x1F3C2, 2, 14, 14, 1),
    (0x1F3C5, 2, 14, 23, 1),
    (0x1F3C7, 2, 14, 14, 1),
    (0x1F3C8, 2, 14, 23, 1),
    (0x1F3CA, 2, 14, 14, 1),
    (0x1F3CB, 1, 14, 14, 0),
    (0x1F3CD, 1, 14, 23, 0),
    (0x1F3CF, 2, 14, 23, 1),
    (0x1F3D4, 1, 14, 23, 0),
    (0x1F3E0, 2, 14, 23, 1),
    (0x1F3F1, 1, 14, 23, 0),
    (0x1F3F4, 2, 14, 23, 1),
    (0x1F3F5, 1, 14, 23, 0),
    (0x1F3F8, 2, 14, 23, 1),
    (0x1F3FB, 0, 4, 15, 1),
    (0x1F400, 2, 14, 23, 1),
    (0x1F43F, 1, 14, 23, 0),
    (0x1F440, 2, 14, 23, 1),
    (0x1F441, 1, 14, 23, 0),
    (0x1F442, 2, 14, 14, 1),
    (0x1F444, 2, 14, 23, 1),
    (0x1F446, 2, 14, 14, 1),
    (0x1F451, 2, 14, 23, 1),
    (0x1F466, 2, 14, 14, 1),
    (0x1F479, 2, 14, 23, 1),
    (0x1F47C, 2, 14, 14, 1),
    (0x1F47D, 2, 14, 23, 1),
    (0x1F481, 2, 14, 14, 1),
    (0x1F484, 2, 14, 23, 1),
    (0x1F485, 2, 14, 14, 1),
    (0x1F488, 2, 14, 23, 1),
    (0x1F48F, 2, 14, 14, 1),
    (0x1F490, 2, 14, 23, 1),
    (0x1F491, 2, 14, 14, 1),
    (0x1F492, 2, 14, 23, 1),
    (0x1F4A0, 2, 14, 2, 1),
    (0x1F4A1, 2, 14, 23, 1),
    (0x1F4A2, 2, 14, 2, 1),
    (0x1F4A3, 2, 14, 23, 1),
    (0x1F4A4, 2, 14, 2, 1),
    (0x1F4A5, 2, 14, 23, 1),
    (0x1F4AA, 2, 14, 14, 1),
    (0x1F4AB, 2, 14, 23, 1),
    (0x1F4AF, 2, 14, 2, 1),
    (0x1F4B0, 2, 14, 23, 1),
    (0x1F4B1, 2, 14, 2, 1),
    (0x1F4B3, 2, 14, 23, 1),
    (0x1F4FD, 1, 14, 23, 0),
    (0x1F4FF, 2, 14, 23, 1),
    (0x1F500, 2, 14, 2, 1),
    (0x1F507, 2, 14, 23, 1),
    (0x1F517, 2, 14, 2, 1),
    (0x1F525, 2, 14, 23, 1),
    (0x1F532, 2, 14, 2, 1),
    (0x1F53E, 1, 0, 2, 0),
    (0x1F546, 1, 14, 2, 0),
    (0x1F54A, 1, 14, 23, 0),
    (0x1F54B, 2, 14, 23, 1),
    (0x1F54F, 1, 14, 23, 0),
    (0x1F550, 2, 14, 23, 1),
    (0x1F568, 1, 14, 23, 0),
    (0x1F574, 1, 14, 14, 0),
    (0x1F576, 1, 14, 23, 0),
    (0x1F57A, 2, 14, 14, 1),
    (0x1F57B, 1, 14, 23, 0),
    (0x1F590, 1, 14, 14, 0),
    (0x1F591, 1, 14, 23, 0),
    (0x1F595, 2, 14, 14, 1),
    (0x1F597, 1, 14, 23, 0),
    (0x1F5A4, 2, 14, 23, 1),
    (0x1F5A5, 1, 14, 23, 0),
    (0x1F5D4, 1, 14, 2, 0),
    (0x1F5DC, 1, 14, 23, 0),
    (0x1F5F4, 1, 14, 2, 0),
    (0x1F5FA, 1, 14, 23, 0),
    (0x1F5FB, 2, 14, 23, 1),
    (0x1F645, 2, 14, 14, 1),
    (0x1F648, 2, 14, 23, 1),
    (0x1F64B, 2, 14, 14, 1),
    (0x1F650, 1, 0, 2, 0),
    (0x1F676, 1, 0, 36, 0),
    (0x1F679, 1, 0, 31, 0),
    (0x1F67C, 1, 0, 2, 0),
    (0x1F680, 2, 14, 23, 1),
    (0x1F6A3, 2, 14, 14, 1),
    (0x1F6A4, 2, 14, 23, 1),
    (0x1F6B4, 2, 14, 14, 1),
    (0x1F6B7, 2, 14, 23, 1),
    (0x1F6C0, 2, 14, 14, 1),
    (0x1F6C1, 2, 14, 23, 1),
    (0x1F6C6, 1, 14, 23, 0),
    (0x1F6CC, 2, 14, 14, 1),
    (0x1F6CD, 1, 14, 23, 0),
    (0x1F6D0, 2, 14, 23, 1),
    (0x1F6D3, 1, 14, 23, 0),
    (0x1F6D5, 2, 14, 23, 1),
    (0x1F6D8, 1, 14, 23, 2),
    (0x1F6DD, 2, 14, 23, 1),
    (0x1F6E0, 1, 14, 23, 0),
    (0x1F6EB, 2, 14, 23, 1),
    (0x1F6ED, 1, 14, 23, 2),
    (0x1F6F0, 1, 14, 23, 0),
    (0x1F6F4, 2, 14, 23, 1),
    (0x1F6FD, 1, 14, 23, 2),
    (0x1F700, 1, 0, 2, 0),
    (0x1F774, 1, 14, 23, 2),
    (0x1F780, 1, 0, 2, 0),
    (0x1F7D5, 1, 14, 23, 0),
    (0x1F7D9, 1, 14, 23, 2),
    (0x1F7E0, 2, 14, 23, 1),
    (0x1F7EC, 1, 14, 23, 2),
    (0x1F7F0, 2, 14, 23, 1),
    (0x1F7F1, 1, 14, 23, 2),
    (0x1F800, 1, 0, 2, 0),
    (0x1F80C, 1, 14, 23, 2),
    (0x1F810, 1, 0, 2, 0),
    (0x1F848, 1, 14, 23, 2),
    (0x1F850, 1, 0, 2, 0),
    (0x1F85A, 1, 14, 23, 2),
    (0x1F860, 1, 0, 2, 0),
    (0x1F888, 1, 14, 23, 2),
    (0x1F890, 1, 0, 2, 0),
    (0x1F8AE, 1, 14, 23, 2),
    (0x1F8B0, 1, 14, 23, 0),
    (0x1F8B2, 1, 14, 23, 2),
    (0x1F900, 1, 0, 2, 0),
    (0x1F90C, 2, 14, 14, 1),
    (0x1F90D, 2, 14, 23, 1),
    (0x1F90F, 2, 14, 14, 1),
    (0x1F910, 2, 14, 23, 1),
    (0x1F918, 2, 14, 14, 1),
    (0x1F920, 2, 14, 23, 1),
    (0x1F926, 2, 14, 14, 1),
    (0x1F927, 2, 14, 23, 1),
    (0x1F930, 2, 14, 14, 1),
    (0x1F93A, 2, 14, 23, 1),
    (0x1F93B, 1, 0, 23, 0),
    (0x1F93C, 2, 14, 14, 1),
    (0x1F93F, 2, 14, 23, 1),
    (0x1F946, 1, 0, 23, 0),
    (0x1F947, 2, 14, 23, 1),
    (0x1F977, 2, 14, 14, 1),
    (0x1F978, 2, 14, 23, 1),
    (0x1F9B5, 2, 14, 14, 1),
    (0x1F9B7, 2, 14, 23, 1),
    (0x1F9B8, 2, 14, 14, 1),
    (0x1F9BA, 2, 14, 23, 1),
    (0x1F9BB, 2, 14, 14, 1),
    (0x1F9BC, 2, 14, 23, 1),
    (0x1F9CD, 2, 14, 14, 1),
    (0x1F9D0, 2, 14, 23, 1),
    (0x1F9D1, 2, 14, 14, 1),
    (0x1F9DE, 2, 14, 23, 1),
    (0x1FA00, 1, 14, 2, 0),
    (0x1FA54, 1, 14, 23, 2),
    (0x1FA60, 1, 14, 23, 0),
    (0x1FA6E, 1, 14, 23, 2),
    (0x1FA70, 2, 14, 23, 1),
    (0x1FA75, 1, 14, 23, 2),
    (0x1FA78, 2, 14, 23, 1),
    (0x1FA7D, 1, 14, 23, 2),
    (0x1FA80, 2, 14, 23, 1),
    (0x1FA87, 1, 14, 23, 2),
    (0x1FA90, 2, 14, 23, 1),
    (0x1FAAD, 1, 14, 23, 2),
    (0x1FAB0, 2, 14, 23, 1),
    (0x1FABB, 1, 14, 23, 2),
    (0x1FAC0, 2, 14, 23, 1),
    (0x1FAC3, 2, 14, 14, 1),
    (0x1FAC6, 1, 14, 23, 2),
    (0x1FAD0, 2, 14, 23, 1),
    (0x1FADA, 1, 14, 23, 2),
    (0x1FAE0, 2, 14, 23, 1),
    (0x1FAE8, 1, 14, 23, 2),
    (0x1FAF0, 2, 14, 14, 1),
    (0x1FAF7, 1, 14, 23, 2),
    (0x1FB00, 1, 0, 2, 0),
    (0x1FBF0, 1, 0, 32, 0),
    (0x1FBFA, 1, 0, 2, 0),
    (0x1FC00, 1, 14, 23, 2),
    (0x1FFFE, 1, 0, 2, 0),
    (0x20000, 2, 0, 23, 1),
    (0x2FFFE, 1, 0, 2, 0),
    (0x30000, 2, 0, 23, 1),
    (0x3FFFE, 1, 0, 2, 0),
    (0xE0000, 1, 3, 2, 0),
    (0xE0001, 0, 3, 11, 0),
    (0xE0002, 1, 3, 2, 0),
    (0xE0020, 0, 4, 11, 0),
    (0xE0080, 1, 3, 2, 0),
    (0xE0100, 0, 4, 11, 0),
    (0xE01F0, 1, 3, 2, 0),
    (0xE1000, 1, 0, 2, 0),
    (0xF0000, 3, 0, 2, 0),
    (0xFFFFE, 1, 0, 2, 0),
    (0x100000, 3, 0, 2, 0),
    (0x10FFFE, 1, 0, 2, 0),
];

/// Row `i` of the runs, counting across blocks.
pub open spec fn run(i: int) -> (u32, u8, u8, u8, u8) {
    if i < 256 {
        RUNS_0@[i - 0]
    } else if i < 512 {
        RUNS_1@[i - 256]
    } else if i < 768 {
        RUNS_2@[i - 512]
    } else if i < 1024 {
        RUNS_3@[i - 768]
    } else if i < 1280 {
        RUNS_4@[i - 1024]
    } else if i < 1536 {
        RUNS_5@[i - 1280]
    } else if i < 1792 {
        RUNS_6@[i - 1536]
    } else if i < 2048 {
        RUNS_7@[i - 1792]
    } else if i < 2304 {
        RUNS_8@[i - 2048]
    } else if i < 2560 {
        RUNS_9@[i - 2304]
    } else if i < 2816 {
        RUNS_10@[i - 2560]
    } else if i < 3072 {
        RUNS_11@[i - 2816]
    } else {
        RUNS_12@[i - 3072]
    }
}

/// Row `i` of the runs.
pub fn run_at(i: usize) -> (r: (u32, u8, u8, u8, u8))
    requires
        i < RUN_COUNT,
    ensures
        r == run(i as int),
{
    if i < 256 {
        RUNS_0[i - 0]
    } else if i < 512 {
        RUNS_1[i - 256]
    } else if i < 768 {
        RUNS_2[i - 512]
    } else if i < 1024 {
        RUNS_3[i - 768]
    } else if i < 1280 {
        RUNS_4[i - 1024]
    } else if i < 1536 {
        RUNS_5[i - 1280]
    } else if i < 1792 {
        RUNS_6[i - 1536]
    } else if i < 2048 {
        RUNS_7[i - 1792]
    } else if i < 2304 {
        RUNS_8[i - 2048]
    } else if i < 2560 {
        RUNS_9[i - 2304]
    } else if i < 2816 {
        RUNS_10[i - 2560]
    } else if i < 3072 {
        RUNS_11[i - 2816]
    } else {
        RUNS_12[i - 3072]
    }
}

} // verus!
