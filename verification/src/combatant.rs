//! The combatant record and its two encodings: the game's own fixed-offset
//! memory layout, and the compact form that travels between host and client.

use crate::bytes::{
    le_bytes, le_value, lemma_le_bytes_len, lemma_le_bytes_of_value, lemma_le_value_of_bytes,
    lemma_pow256_values, pow256,
    read_u16_le, read_u32_le, u16_le_bytes, u32_le_bytes,
};
use flate2::read::GzDecoder;
use flate2::Compression;
use flate2::GzBuilder;
use std::io::Read;
use std::io::Write;
use vstd::prelude::*;

verus! {

/// Size in bytes of a combatant in the game's memory.
pub const COMBATANT_SIZE: usize = 11520;

/// The shortest prefix of a combatant's memory that holds every field read here.
pub const COMBATANT_READ_SIZE: usize = 7308;

/// Length in bytes of a combatant's name field.
pub const NAME_SIZE: usize = 30;

pub const NAME_AT: usize = 48;
pub const ID_AT: usize = 116;
pub const BNPCID_AT: usize = 128;
pub const OWNERID_AT: usize = 132;
pub const TYPE_AT: usize = 140;
pub const EFFECTIVE_DISTANCE_AT: usize = 146;
pub const POS_X_AT: usize = 160;
pub const POS_Z_AT: usize = 164;
pub const POS_Y_AT: usize = 168;
pub const HEADING_AT: usize = 176;
pub const PCTARGETID_AT: usize = 1000;
pub const NPCTARGETID_AT: usize = 6176;
pub const BNPCNAMEID_AT: usize = 6268;
pub const CURRENT_WORLD_ID_AT: usize = 6296;
pub const HOME_WORLD_ID_AT: usize = 6298;
pub const CURRENT_HP_AT: usize = 6308;
pub const MAX_HP_AT: usize = 6312;
pub const CURRENT_MP_AT: usize = 6316;
pub const MAX_MP_AT: usize = 6320;
pub const CURRENT_GP_AT: usize = 6326;
pub const MAX_GP_AT: usize = 6328;
pub const CURRENT_CP_AT: usize = 6330;
pub const MAX_CP_AT: usize = 6332;
pub const JOB_AT: usize = 6364;
pub const LEVEL_AT: usize = 6366;
pub const IS_CASTING_1_AT: usize = 7248;
pub const IS_CASTING_2_AT: usize = 7250;
pub const CAST_BUFF_ID_AT: usize = 7252;
pub const CAST_DURATION_CURRENT_AT: usize = 7300;
pub const CAST_DURATION_MAX_AT: usize = 7304;

/// One combatant (player, monster, pet ...) as read from the game.
///
/// The position, heading and cast durations are IEEE 754 single-precision
/// numbers in the game; they are held here as their 32 bits, so that a record
/// survives both encodings bit for bit.
#[derive(Clone, Copy, Debug, PartialEq, Eq)]
pub struct Combatant {
    pub name: [u8; 30],
    pub id: u32,
    pub bnpcid: u32,
    pub ownerid: u32,
    pub tipe: u8,
    pub effective_distance: u8,
    pub pos_x: u32,
    pub pos_z: u32,
    pub pos_y: u32,
    pub heading: u32,
    pub pctargetid: u32,
    pub npctargetid: u32,
    pub bnpcnameid: u32,
    pub current_world_id: u16,
    pub home_world_id: u16,
    pub current_hp: u32,
    pub max_hp: u32,
    pub current_mp: u32,
    pub max_mp: u32,
    pub current_gp: u16,
    pub max_gp: u16,
    pub current_cp: u16,
    pub max_cp: u16,
    pub job: u8,
    pub level: u8,
    pub is_casting_1: u8,
    pub is_casting_2: u8,
    pub cast_buff_id: u32,
    pub cast_duration_current: u32,
    pub cast_duration_max: u32,
}

/// The little-endian number of `width` bytes that `b` holds at `at`.
pub open spec fn field_at(b: Seq<u8>, at: int, width: int) -> nat {
    le_value(b.subrange(at, at + width))
}

impl Combatant {
    /// Whether `self` is what the game's layout `b` holds: every field equals
    /// the little-endian number (or, for the name, the bytes) at its offset.
    pub open spec fn is_decoding_of(&self, b: Seq<u8>) -> bool {
        &&& b.len() >= COMBATANT_READ_SIZE
        &&& self.name@ == b.subrange(NAME_AT as int, NAME_AT + NAME_SIZE)
        &&& self.id == field_at(b, ID_AT as int, 4)
        &&& self.bnpcid == field_at(b, BNPCID_AT as int, 4)
        &&& self.ownerid == field_at(b, OWNERID_AT as int, 4)
        &&& self.tipe == b[TYPE_AT as int]
        &&& self.effective_distance == b[EFFECTIVE_DISTANCE_AT as int]
        &&& self.pos_x == field_at(b, POS_X_AT as int, 4)
        &&& self.pos_z == field_at(b, POS_Z_AT as int, 4)
        &&& self.pos_y == field_at(b, POS_Y_AT as int, 4)
        &&& self.heading == field_at(b, HEADING_AT as int, 4)
        &&& self.pctargetid == field_at(b, PCTARGETID_AT as int, 4)
        &&& self.npctargetid == field_at(b, NPCTARGETID_AT as int, 4)
        &&& self.bnpcnameid == field_at(b, BNPCNAMEID_AT as int, 4)
        &&& self.current_world_id == field_at(b, CURRENT_WORLD_ID_AT as int, 2)
        &&& self.home_world_id == field_at(b, HOME_WORLD_ID_AT as int, 2)
        &&& self.current_hp == field_at(b, CURRENT_HP_AT as int, 4)
        &&& self.max_hp == field_at(b, MAX_HP_AT as int, 4)
        &&& self.current_mp == field_at(b, CURRENT_MP_AT as int, 4)
        &&& self.max_mp == field_at(b, MAX_MP_AT as int, 4)
        &&& self.current_gp == field_at(b, CURRENT_GP_AT as int, 2)
        &&& self.max_gp == field_at(b, MAX_GP_AT as int, 2)
        &&& self.current_cp == field_at(b, CURRENT_CP_AT as int, 2)
        &&& self.max_cp == field_at(b, MAX_CP_AT as int, 2)
        &&& self.job == b[JOB_AT as int]
        &&& self.level == b[LEVEL_AT as int]
        &&& self.is_casting_1 == b[IS_CASTING_1_AT as int]
        &&& self.is_casting_2 == b[IS_CASTING_2_AT as int]
        &&& self.cast_buff_id == field_at(b, CAST_BUFF_ID_AT as int, 4)
        &&& self.cast_duration_current == field_at(b, CAST_DURATION_CURRENT_AT as int, 4)
        &&& self.cast_duration_max == field_at(b, CAST_DURATION_MAX_AT as int, 4)
    }

    /// Reads a combatant from the game's layout.
    pub fn from_ffxiv_slice(slice: &[u8]) -> (c: Combatant)
        requires
            slice@.len() >= COMBATANT_READ_SIZE,
        ensures
            c.is_decoding_of(slice@),
    {
        let mut name: [u8; 30] = [0u8; 30];
        let mut i: usize = 0;
        while i < NAME_SIZE
            invariant
                i <= NAME_SIZE,
                slice@.len() >= COMBATANT_READ_SIZE,
                forall|k: int| 0 <= k < i ==> name@[k] == slice@[NAME_AT + k],
            decreases NAME_SIZE - i,
        {
            name[i] = slice[NAME_AT + i];
            i += 1;
        }
        assert(name@ =~= slice@.subrange(NAME_AT as int, NAME_AT + NAME_SIZE));
        Combatant {
            name,
            id: read_u32_le(slice, ID_AT),
            bnpcid: read_u32_le(slice, BNPCID_AT),
            ownerid: read_u32_le(slice, OWNERID_AT),
            tipe: slice[TYPE_AT],
            effective_distance: slice[EFFECTIVE_DISTANCE_AT],
            pos_x: read_u32_le(slice, POS_X_AT),
            pos_z: read_u32_le(slice, POS_Z_AT),
            pos_y: read_u32_le(slice, POS_Y_AT),
            heading: read_u32_le(slice, HEADING_AT),
            pctargetid: read_u32_le(slice, PCTARGETID_AT),
            npctargetid: read_u32_le(slice, NPCTARGETID_AT),
            bnpcnameid: read_u32_le(slice, BNPCNAMEID_AT),
            current_world_id: read_u16_le(slice, CURRENT_WORLD_ID_AT),
            home_world_id: read_u16_le(slice, HOME_WORLD_ID_AT),
            current_hp: read_u32_le(slice, CURRENT_HP_AT),
            max_hp: read_u32_le(slice, MAX_HP_AT),
            current_mp: read_u32_le(slice, CURRENT_MP_AT),
            max_mp: read_u32_le(slice, MAX_MP_AT),
            current_gp: read_u16_le(slice, CURRENT_GP_AT),
            max_gp: read_u16_le(slice, MAX_GP_AT),
            current_cp: read_u16_le(slice, CURRENT_CP_AT),
            max_cp: read_u16_le(slice, MAX_CP_AT),
            job: slice[JOB_AT],
            level: slice[LEVEL_AT],
            is_casting_1: slice[IS_CASTING_1_AT],
            is_casting_2: slice[IS_CASTING_2_AT],
            cast_buff_id: read_u32_le(slice, CAST_BUFF_ID_AT),
            cast_duration_current: read_u32_le(slice, CAST_DURATION_CURRENT_AT),
            cast_duration_max: read_u32_le(slice, CAST_DURATION_MAX_AT),
        }
    }
    /// Reads a combatant from the game's layout, if `slice` is long enough to
    /// hold every field.
    pub fn try_from_ffxiv_slice(slice: &[u8]) -> (r: Option<Combatant>)
        ensures
            r is Some <==> slice@.len() >= COMBATANT_READ_SIZE,
            r matches Some(c) ==> c.is_decoding_of(slice@),
    {
        if slice.len() >= COMBATANT_READ_SIZE {
            Some(Combatant::from_ffxiv_slice(slice))
        } else {
            None
        }
    }

    /// The byte at index `i` of the game's layout of `self`: the byte of the
    /// field that covers `i`, and zero where no field does.
    pub open spec fn foreign_byte(&self, i: int) -> u8 {
        if in_field(i, NAME_AT as int, NAME_SIZE as int) {
            self.name@[i - NAME_AT]
        } else if in_field(i, ID_AT as int, 4) {
            le_bytes(self.id as nat, 4)[i - ID_AT]
        } else if in_field(i, BNPCID_AT as int, 4) {
            le_bytes(self.bnpcid as nat, 4)[i - BNPCID_AT]
        } else if in_field(i, OWNERID_AT as int, 4) {
            le_bytes(self.ownerid as nat, 4)[i - OWNERID_AT]
        } else if i == TYPE_AT {
            self.tipe
        } else if i == EFFECTIVE_DISTANCE_AT {
            self.effective_distance
        } else if in_field(i, POS_X_AT as int, 4) {
            le_bytes(self.pos_x as nat, 4)[i - POS_X_AT]
        } else if in_field(i, POS_Z_AT as int, 4) {
            le_bytes(self.pos_z as nat, 4)[i - POS_Z_AT]
        } else if in_field(i, POS_Y_AT as int, 4) {
            le_bytes(self.pos_y as nat, 4)[i - POS_Y_AT]
        } else if in_field(i, HEADING_AT as int, 4) {
            le_bytes(self.heading as nat, 4)[i - HEADING_AT]
        } else if in_field(i, PCTARGETID_AT as int, 4) {
            le_bytes(self.pctargetid as nat, 4)[i - PCTARGETID_AT]
        } else if in_field(i, NPCTARGETID_AT as int, 4) {
            le_bytes(self.npctargetid as nat, 4)[i - NPCTARGETID_AT]
        } else if in_field(i, BNPCNAMEID_AT as int, 4) {
            le_bytes(self.bnpcnameid as nat, 4)[i - BNPCNAMEID_AT]
        } else if in_field(i, CURRENT_WORLD_ID_AT as int, 2) {
            le_bytes(self.current_world_id as nat, 2)[i - CURRENT_WORLD_ID_AT]
        } else if in_field(i, HOME_WORLD_ID_AT as int, 2) {
            le_bytes(self.home_world_id as nat, 2)[i - HOME_WORLD_ID_AT]
        } else if in_field(i, CURRENT_HP_AT as int, 4) {
            le_bytes(self.current_hp as nat, 4)[i - CURRENT_HP_AT]
        } else if in_field(i, MAX_HP_AT as int, 4) {
            le_bytes(self.max_hp as nat, 4)[i - MAX_HP_AT]
        } else if in_field(i, CURRENT_MP_AT as int, 4) {
            le_bytes(self.current_mp as nat, 4)[i - CURRENT_MP_AT]
        } else if in_field(i, MAX_MP_AT as int, 4) {
            le_bytes(self.max_mp as nat, 4)[i - MAX_MP_AT]
        } else if in_field(i, CURRENT_GP_AT as int, 2) {
            le_bytes(self.current_gp as nat, 2)[i - CURRENT_GP_AT]
        } else if in_field(i, MAX_GP_AT as int, 2) {
            le_bytes(self.max_gp as nat, 2)[i - MAX_GP_AT]
        } else if in_field(i, CURRENT_CP_AT as int, 2) {
            le_bytes(self.current_cp as nat, 2)[i - CURRENT_CP_AT]
        } else if in_field(i, MAX_CP_AT as int, 2) {
            le_bytes(self.max_cp as nat, 2)[i - MAX_CP_AT]
        } else if i == JOB_AT {
            self.job
        } else if i == LEVEL_AT {
            self.level
        } else if i == IS_CASTING_1_AT {
            self.is_casting_1
        } else if i == IS_CASTING_2_AT {
            self.is_casting_2
        } else if in_field(i, CAST_BUFF_ID_AT as int, 4) {
            le_bytes(self.cast_buff_id as nat, 4)[i - CAST_BUFF_ID_AT]
        } else if in_field(i, CAST_DURATION_CURRENT_AT as int, 4) {
            le_bytes(self.cast_duration_current as nat, 4)[i - CAST_DURATION_CURRENT_AT]
        } else if in_field(i, CAST_DURATION_MAX_AT as int, 4) {
            le_bytes(self.cast_duration_max as nat, 4)[i - CAST_DURATION_MAX_AT]
        } else {
            0
        }
    }

    /// The game's layout of `self`: `COMBATANT_SIZE` bytes, every field at its
    /// offset and every other byte zero.
    pub open spec fn foreign_bytes(&self) -> Seq<u8> {
        Seq::new(COMBATANT_SIZE as nat, |i: int| self.foreign_byte(i))
    }

    /// Writes `self` in the game's layout.
    pub fn as_ffxiv_array(&self) -> (out: [u8; 11520])
        ensures
            out@ == self.foreign_bytes(),
            self.is_decoding_of(out@),
    {
        let mut out: [u8; 11520] = [0u8; 11520];
        store(&mut out, NAME_AT, self.name.as_slice());
        store(&mut out, ID_AT, u32_le_bytes(self.id).as_slice());
        store(&mut out, BNPCID_AT, u32_le_bytes(self.bnpcid).as_slice());
        store(&mut out, OWNERID_AT, u32_le_bytes(self.ownerid).as_slice());
        out[TYPE_AT] = self.tipe;
        out[EFFECTIVE_DISTANCE_AT] = self.effective_distance;
        store(&mut out, POS_X_AT, u32_le_bytes(self.pos_x).as_slice());
        store(&mut out, POS_Z_AT, u32_le_bytes(self.pos_z).as_slice());
        store(&mut out, POS_Y_AT, u32_le_bytes(self.pos_y).as_slice());
        store(&mut out, HEADING_AT, u32_le_bytes(self.heading).as_slice());
        store(&mut out, PCTARGETID_AT, u32_le_bytes(self.pctargetid).as_slice());
        store(&mut out, NPCTARGETID_AT, u32_le_bytes(self.npctargetid).as_slice());
        store(&mut out, BNPCNAMEID_AT, u32_le_bytes(self.bnpcnameid).as_slice());
        store(&mut out, CURRENT_WORLD_ID_AT, u16_le_bytes(self.current_world_id).as_slice());
        store(&mut out, HOME_WORLD_ID_AT, u16_le_bytes(self.home_world_id).as_slice());
        store(&mut out, CURRENT_HP_AT, u32_le_bytes(self.current_hp).as_slice());
        store(&mut out, MAX_HP_AT, u32_le_bytes(self.max_hp).as_slice());
        store(&mut out, CURRENT_MP_AT, u32_le_bytes(self.current_mp).as_slice());
        store(&mut out, MAX_MP_AT, u32_le_bytes(self.max_mp).as_slice());
        store(&mut out, CURRENT_GP_AT, u16_le_bytes(self.current_gp).as_slice());
        store(&mut out, MAX_GP_AT, u16_le_bytes(self.max_gp).as_slice());
        store(&mut out, CURRENT_CP_AT, u16_le_bytes(self.current_cp).as_slice());
        store(&mut out, MAX_CP_AT, u16_le_bytes(self.max_cp).as_slice());
        out[JOB_AT] = self.job;
        out[LEVEL_AT] = self.level;
        out[IS_CASTING_1_AT] = self.is_casting_1;
        out[IS_CASTING_2_AT] = self.is_casting_2;
        store(&mut out, CAST_BUFF_ID_AT, u32_le_bytes(self.cast_buff_id).as_slice());
        store(&mut out, CAST_DURATION_CURRENT_AT, u32_le_bytes(self.cast_duration_current).as_slice());
        store(&mut out, CAST_DURATION_MAX_AT, u32_le_bytes(self.cast_duration_max).as_slice());
        assert(out@ =~= self.foreign_bytes());
        proof {
            lemma_encoding_decodes(*self);
        }
        out
    }
}

/// Whether index `i` lies in the field of `width` bytes that starts at `at`.
pub open spec fn in_field(i: int, at: int, width: int) -> bool {
    at <= i < at + width
}

/// Copies `bytes` into `buf` at `at` and leaves the rest of `buf` as it was.
fn store(buf: &mut [u8; 11520], at: usize, bytes: &[u8])
    requires
        at + bytes@.len() <= COMBATANT_SIZE,
    ensures
        forall|i: int|
            0 <= i < COMBATANT_SIZE ==> #[trigger] final(buf)@[i] == if in_field(
                i,
                at as int,
                bytes@.len() as int,
            ) {
                bytes@[i - at]
            } else {
                old(buf)@[i]
            },
{
    let n: usize = bytes.len();
    let mut k: usize = 0;
    while k < n
        invariant
            k <= n,
            n == bytes@.len(),
            at + n <= COMBATANT_SIZE,
            forall|i: int|
                0 <= i < COMBATANT_SIZE ==> #[trigger] buf@[i] == if in_field(i, at as int, k as int) {
                    bytes@[i - at]
                } else {
                    old(buf)@[i]
                },
        decreases n - k,
    {
        buf[at + k] = bytes[k];
        k += 1;
    }
}

/// A field that holds the bytes of a number reads back as that number.
proof fn lemma_field_holds(b: Seq<u8>, at: int, width: nat, v: nat)
    requires
        0 <= at,
        at + width <= b.len(),
        v < pow256(width),
        forall|j: int| 0 <= j < width ==> b[at + j] == le_bytes(v, width)[j],
    ensures
        field_at(b, at, width as int) == v,
{
    lemma_le_bytes_len(v, width);
    assert(b.subrange(at, at + width) =~= le_bytes(v, width));
    lemma_le_value_of_bytes(v, width);
}

/// Every combatant is what its own layout in the game's memory holds.
pub proof fn lemma_encoding_decodes(c: Combatant)
    ensures
        c.is_decoding_of(c.foreign_bytes()),
{
    let b = c.foreign_bytes();
    lemma_pow256_values();
    assert(c.name@ =~= b.subrange(NAME_AT as int, NAME_AT + NAME_SIZE));
    lemma_field_holds(b, ID_AT as int, 4, c.id as nat);
    lemma_field_holds(b, BNPCID_AT as int, 4, c.bnpcid as nat);
    lemma_field_holds(b, OWNERID_AT as int, 4, c.ownerid as nat);
    lemma_field_holds(b, POS_X_AT as int, 4, c.pos_x as nat);
    lemma_field_holds(b, POS_Z_AT as int, 4, c.pos_z as nat);
    lemma_field_holds(b, POS_Y_AT as int, 4, c.pos_y as nat);
    lemma_field_holds(b, HEADING_AT as int, 4, c.heading as nat);
    lemma_field_holds(b, PCTARGETID_AT as int, 4, c.pctargetid as nat);
    lemma_field_holds(b, NPCTARGETID_AT as int, 4, c.npctargetid as nat);
    lemma_field_holds(b, BNPCNAMEID_AT as int, 4, c.bnpcnameid as nat);
    lemma_field_holds(b, CURRENT_WORLD_ID_AT as int, 2, c.current_world_id as nat);
    lemma_field_holds(b, HOME_WORLD_ID_AT as int, 2, c.home_world_id as nat);
    lemma_field_holds(b, CURRENT_HP_AT as int, 4, c.current_hp as nat);
    lemma_field_holds(b, MAX_HP_AT as int, 4, c.max_hp as nat);
    lemma_field_holds(b, CURRENT_MP_AT as int, 4, c.current_mp as nat);
    lemma_field_holds(b, MAX_MP_AT as int, 4, c.max_mp as nat);
    lemma_field_holds(b, CURRENT_GP_AT as int, 2, c.current_gp as nat);
    lemma_field_holds(b, MAX_GP_AT as int, 2, c.max_gp as nat);
    lemma_field_holds(b, CURRENT_CP_AT as int, 2, c.current_cp as nat);
    lemma_field_holds(b, MAX_CP_AT as int, 2, c.max_cp as nat);
    lemma_field_holds(b, CAST_BUFF_ID_AT as int, 4, c.cast_buff_id as nat);
    lemma_field_holds(b, CAST_DURATION_CURRENT_AT as int, 4, c.cast_duration_current as nat);
    lemma_field_holds(b, CAST_DURATION_MAX_AT as int, 4, c.cast_duration_max as nat);
}

/// Encoding what was decoded gives back the bytes of every field: the layout
/// written for a record read from `b` agrees with `b` wherever a field lies,
/// and is zero elsewhere.
pub proof fn lemma_encode_of_decode(c: Combatant, b: Seq<u8>)
    requires
        c.is_decoding_of(b),
    ensures
        c.foreign_bytes() == foreign_of_wire(wire_of_foreign(b)),
        c.foreign_bytes().len() == COMBATANT_SIZE,
{
    lemma_wire_of_decoded(c, b);
    lemma_wire_encoding_decodes(c);
    lemma_foreign_of_decoded(c, c.wire_bytes());
}

/// Decoding is the inverse of encoding: whatever record is read from the
/// layout written for `c` is `c`, field for field.
pub proof fn lemma_decode_of_encode(c: Combatant, d: Combatant)
    requires
        d.is_decoding_of(c.foreign_bytes()),
    ensures
        d == c,
{
    lemma_encoding_decodes(c);
    assert(d.name@ == c.name@);
    assert(d.name =~= c.name);
}

/// Size in bytes of a combatant in its compact form.
pub const WIRE_SIZE: usize = 116;

/// The fields of a combatant in the order in which they travel, in three
/// groups of ten.
pub type WireRecord = (
    ([u8; 30], u32, u32, u32, u8, u8, u32, u32, u32, u32),
    (u32, u32, u32, u16, u16, u32, u32, u32, u32, u16),
    (u16, u16, u16, u8, u8, u8, u8, u32, u32, u32),
);

/// The combatant whose fields are those of `w`.
pub open spec fn record_of(w: WireRecord) -> Combatant {
    Combatant {
        name: w.0.0,
        id: w.0.1,
        bnpcid: w.0.2,
        ownerid: w.0.3,
        tipe: w.0.4,
        effective_distance: w.0.5,
        pos_x: w.0.6,
        pos_z: w.0.7,
        pos_y: w.0.8,
        heading: w.0.9,
        pctargetid: w.1.0,
        npctargetid: w.1.1,
        bnpcnameid: w.1.2,
        current_world_id: w.1.3,
        home_world_id: w.1.4,
        current_hp: w.1.5,
        max_hp: w.1.6,
        current_mp: w.1.7,
        max_mp: w.1.8,
        current_gp: w.1.9,
        max_gp: w.2.0,
        current_cp: w.2.1,
        max_cp: w.2.2,
        job: w.2.3,
        level: w.2.4,
        is_casting_1: w.2.5,
        is_casting_2: w.2.6,
        cast_buff_id: w.2.7,
        cast_duration_current: w.2.8,
        cast_duration_max: w.2.9,
    }
}

/// Why bytes received from the host do not hold a combatant.
#[derive(Clone, Copy, Debug, PartialEq, Eq)]
pub enum DecodeError {
    /// The bytes are not a complete, intact compressed stream.
    Corrupt,
    /// The stream decompressed to fewer bytes than a combatant takes.
    Truncated,
}

impl Combatant {
    /// The compact form of `self`: the fields in declaration order, each
    /// number little-endian in its own width, with nothing between them.
    pub open spec fn wire_bytes(&self) -> Seq<u8> {
        self.name@
            + le_bytes(self.id as nat, 4)
            + le_bytes(self.bnpcid as nat, 4)
            + le_bytes(self.ownerid as nat, 4)
            + seq![self.tipe]
            + seq![self.effective_distance]
            + le_bytes(self.pos_x as nat, 4)
            + le_bytes(self.pos_z as nat, 4)
            + le_bytes(self.pos_y as nat, 4)
            + le_bytes(self.heading as nat, 4)
            + le_bytes(self.pctargetid as nat, 4)
            + le_bytes(self.npctargetid as nat, 4)
            + le_bytes(self.bnpcnameid as nat, 4)
            + le_bytes(self.current_world_id as nat, 2)
            + le_bytes(self.home_world_id as nat, 2)
            + le_bytes(self.current_hp as nat, 4)
            + le_bytes(self.max_hp as nat, 4)
            + le_bytes(self.current_mp as nat, 4)
            + le_bytes(self.max_mp as nat, 4)
            + le_bytes(self.current_gp as nat, 2)
            + le_bytes(self.max_gp as nat, 2)
            + le_bytes(self.current_cp as nat, 2)
            + le_bytes(self.max_cp as nat, 2)
            + seq![self.job]
            + seq![self.level]
            + seq![self.is_casting_1]
            + seq![self.is_casting_2]
            + le_bytes(self.cast_buff_id as nat, 4)
            + le_bytes(self.cast_duration_current as nat, 4)
            + le_bytes(self.cast_duration_max as nat, 4)
    }

    /// Whether `self` is what the compact form `b` holds. Bytes after the
    /// first `WIRE_SIZE` are not looked at.
    pub open spec fn is_wire_decoding_of(&self, b: Seq<u8>) -> bool {
        &&& b.len() >= WIRE_SIZE
        &&& self.name@ == b.subrange(0, NAME_SIZE as int)
        &&& self.id == field_at(b, 30, 4)
        &&& self.bnpcid == field_at(b, 34, 4)
        &&& self.ownerid == field_at(b, 38, 4)
        &&& self.tipe == b[42]
        &&& self.effective_distance == b[43]
        &&& self.pos_x == field_at(b, 44, 4)
        &&& self.pos_z == field_at(b, 48, 4)
        &&& self.pos_y == field_at(b, 52, 4)
        &&& self.heading == field_at(b, 56, 4)
        &&& self.pctargetid == field_at(b, 60, 4)
        &&& self.npctargetid == field_at(b, 64, 4)
        &&& self.bnpcnameid == field_at(b, 68, 4)
        &&& self.current_world_id == field_at(b, 72, 2)
        &&& self.home_world_id == field_at(b, 74, 2)
        &&& self.current_hp == field_at(b, 76, 4)
        &&& self.max_hp == field_at(b, 80, 4)
        &&& self.current_mp == field_at(b, 84, 4)
        &&& self.max_mp == field_at(b, 88, 4)
        &&& self.current_gp == field_at(b, 92, 2)
        &&& self.max_gp == field_at(b, 94, 2)
        &&& self.current_cp == field_at(b, 96, 2)
        &&& self.max_cp == field_at(b, 98, 2)
        &&& self.job == b[100]
        &&& self.level == b[101]
        &&& self.is_casting_1 == b[102]
        &&& self.is_casting_2 == b[103]
        &&& self.cast_buff_id == field_at(b, 104, 4)
        &&& self.cast_duration_current == field_at(b, 108, 4)
        &&& self.cast_duration_max == field_at(b, 112, 4)
    }

    /// The fields of `self` in travelling order.
    pub fn to_wire(&self) -> (w: WireRecord)
        ensures
            record_of(w) == *self,
    {
        (
            (
                self.name, self.id, self.bnpcid, self.ownerid, self.tipe,
                self.effective_distance, self.pos_x, self.pos_z, self.pos_y, self.heading,
            ),
            (
                self.pctargetid, self.npctargetid, self.bnpcnameid, self.current_world_id,
                self.home_world_id, self.current_hp, self.max_hp, self.current_mp, self.max_mp,
                self.current_gp,
            ),
            (
                self.max_gp, self.current_cp, self.max_cp, self.job, self.level,
                self.is_casting_1, self.is_casting_2, self.cast_buff_id,
                self.cast_duration_current, self.cast_duration_max,
            ),
        )
    }

    /// The combatant with the fields of `w`.
    pub fn from_wire(w: WireRecord) -> (c: Combatant)
        ensures
            c == record_of(w),
    {
        Combatant {
            name: w.0.0,
            id: w.0.1,
            bnpcid: w.0.2,
            ownerid: w.0.3,
            tipe: w.0.4,
            effective_distance: w.0.5,
            pos_x: w.0.6,
            pos_z: w.0.7,
            pos_y: w.0.8,
            heading: w.0.9,
            pctargetid: w.1.0,
            npctargetid: w.1.1,
            bnpcnameid: w.1.2,
            current_world_id: w.1.3,
            home_world_id: w.1.4,
            current_hp: w.1.5,
            max_hp: w.1.6,
            current_mp: w.1.7,
            max_mp: w.1.8,
            current_gp: w.1.9,
            max_gp: w.2.0,
            current_cp: w.2.1,
            max_cp: w.2.2,
            job: w.2.3,
            level: w.2.4,
            is_casting_1: w.2.5,
            is_casting_2: w.2.6,
            cast_buff_id: w.2.7,
            cast_duration_current: w.2.8,
            cast_duration_max: w.2.9,
        }
    }

    /// The compact form of `self`.
    pub fn encode_record(&self) -> (out: Vec<u8>)
        ensures
            out@ == self.wire_bytes(),
    {
        let w = self.to_wire();
        bincode_serialize(&w)
    }

    /// Reads a combatant from its compact form. Fails exactly when `raw` is
    /// shorter than `WIRE_SIZE`.
    pub fn decode_record(raw: &[u8]) -> (r: Result<Combatant, DecodeError>)
        ensures
            r is Ok <==> raw@.len() >= WIRE_SIZE,
            r matches Ok(c) ==> c.is_wire_decoding_of(raw@),
            r matches Err(e) ==> e == DecodeError::Truncated,
    {
        match bincode_deserialize(raw) {
            Ok(w) => Ok(Combatant::from_wire(w)),
            Err(_) => Err(DecodeError::Truncated),
        }
    }

    /// What the host sends for `self`: the compact form, compressed. What is
    /// sent decompresses to the compact form again, so that reading it gives
    /// `self` back.
    pub fn binary_serialize_compressed(&self) -> (out: Vec<u8>)
        ensures
            out@ == gzip(self.wire_bytes()),
            gunzip(out@) == Some(self.wire_bytes()),
            is_wire_reading(out@, Ok(*self)),
    {
        let raw = self.encode_record();
        proof {
            lemma_wire_encoding_decodes(*self);
        }
        gz_compress(raw.as_slice())
    }

    /// Reads a combatant from what the host sent: decompresses, then reads
    /// the compact form. Damaged or short input is an error, never a panic.
    pub fn deserialize_binary_compressed(data: Vec<u8>) -> (r: Result<Combatant, DecodeError>)
        ensures
            is_wire_reading(data@, r),
    {
        Combatant::decode_compressed(data.as_slice())
    }

    /// Reads a combatant from what the host sent, as
    /// `deserialize_binary_compressed` does, without taking the bytes over.
    pub fn decode_compressed(data: &[u8]) -> (r: Result<Combatant, DecodeError>)
        ensures
            is_wire_reading(data@, r),
    {
        match gz_decompress(data) {
            Ok(raw) => Combatant::decode_record(raw.as_slice()),
            Err(_) => Err(DecodeError::Corrupt),
        }
    }
}

/// Whether `r` is what reading a combatant from the received bytes `data`
/// gives: a failure where they do not decompress or decompress to too
/// little, else the combatant that the decompressed bytes hold.
pub open spec fn is_wire_reading(data: Seq<u8>, r: Result<Combatant, DecodeError>) -> bool {
    match gunzip(data) {
        None => r == Err::<Combatant, DecodeError>(DecodeError::Corrupt),
        Some(raw) => if raw.len() < WIRE_SIZE {
            r == Err::<Combatant, DecodeError>(DecodeError::Truncated)
        } else {
            r matches Ok(c) && c.is_wire_decoding_of(raw)
        },
    }
}

/// What `flate2`'s gzip encoder, with a default header and the default
/// compression level, makes of `data`.
pub uninterp spec fn gzip(data: Seq<u8>) -> Seq<u8>;

/// What `flate2`'s gzip decoder reads from `data`, or `None` where it reports
/// an error.
pub uninterp spec fn gunzip(data: Seq<u8>) -> Option<Seq<u8>>;

/// `std::io::Error`, in which `flate2` reports a stream that it cannot
/// read. Nothing is said of what it holds.
#[verifier::external_type_specification]
#[verifier::external_body]
pub struct ExIoError(std::io::Error);

/// `bincode::ErrorKind`, in which `bincode` reports input that it cannot
/// read. Nothing is said of what it holds.
#[verifier::external_type_specification]
#[verifier::external_body]
pub struct ExBincodeErrorKind(bincode::ErrorKind);

/// Calls `bincode::serialize`, which writes integers in fixed width, little
/// endian, and the members of tuples and arrays one after another with no
/// length or tag. It fails only where its writer fails or a size limit is
/// passed; it writes to a vector and sets no limit, so the result is always
/// there.
#[verifier::external_body]
fn bincode_serialize(w: &WireRecord) -> (out: Vec<u8>)
    ensures
        out@ == record_of(*w).wire_bytes(),
{
    bincode::serialize(w).unwrap_or_default()
}

/// Calls `bincode::deserialize`, which reads the same layout back, accepts
/// every bit pattern of an integer, ignores bytes after the value, and fails
/// only when the input ends too early.
#[verifier::external_body]
fn bincode_deserialize(bytes: &[u8]) -> (r: Result<WireRecord, Box<bincode::ErrorKind>>)
    ensures
        r is Ok <==> bytes@.len() >= WIRE_SIZE,
        r matches Ok(w) ==> record_of(w).is_wire_decoding_of(bytes@),
{
    bincode::deserialize(bytes)
}

/// Runs `data` through the encoder that `flate2::GzBuilder::new().write(..)`
/// gives at the default level, and finishes the stream. The header that
/// the builder writes holds no time and no name of a system, so the stream
/// depends on `data` alone; and it is one that `flate2`'s decoder reads back
/// to `data`. Writing to a vector cannot fail.
#[verifier::external_body]
fn gz_compress(data: &[u8]) -> (out: Vec<u8>)
    ensures
        out@ == gzip(data@),
        gunzip(out@) == Some(data@),
{
    let mut encoder = GzBuilder::new().write(Vec::new(), Compression::default());
    let _ = encoder.write_all(data);
    encoder.finish().unwrap_or_default()
}

/// Reads `data` to the end through `flate2::read::GzDecoder`, which reads
/// one gzip member and reports a bad header, a bad checksum and an early end
/// as errors.
#[verifier::external_body]
fn gz_decompress(data: &[u8]) -> (r: Result<Vec<u8>, std::io::Error>)
    ensures
        match r {
            Ok(raw) => gunzip(data@) == Some(raw@),
            Err(_) => gunzip(data@) is None,
        },
{
    let mut raw = Vec::new();
    match GzDecoder::new(data).read_to_end(&mut raw) {
        Ok(_) => Ok(raw),
        Err(e) => Err(e),
    }
}

/// The compact form of a combatant has `WIRE_SIZE` bytes.
pub proof fn lemma_wire_bytes_len(c: Combatant)
    ensures
        c.wire_bytes().len() == WIRE_SIZE,
{
    lemma_le_bytes_len(c.id as nat, 4);
    lemma_le_bytes_len(c.bnpcid as nat, 4);
    lemma_le_bytes_len(c.ownerid as nat, 4);
    lemma_le_bytes_len(c.pos_x as nat, 4);
    lemma_le_bytes_len(c.pos_z as nat, 4);
    lemma_le_bytes_len(c.pos_y as nat, 4);
    lemma_le_bytes_len(c.heading as nat, 4);
    lemma_le_bytes_len(c.pctargetid as nat, 4);
    lemma_le_bytes_len(c.npctargetid as nat, 4);
    lemma_le_bytes_len(c.bnpcnameid as nat, 4);
    lemma_le_bytes_len(c.current_world_id as nat, 2);
    lemma_le_bytes_len(c.home_world_id as nat, 2);
    lemma_le_bytes_len(c.current_hp as nat, 4);
    lemma_le_bytes_len(c.max_hp as nat, 4);
    lemma_le_bytes_len(c.current_mp as nat, 4);
    lemma_le_bytes_len(c.max_mp as nat, 4);
    lemma_le_bytes_len(c.current_gp as nat, 2);
    lemma_le_bytes_len(c.max_gp as nat, 2);
    lemma_le_bytes_len(c.current_cp as nat, 2);
    lemma_le_bytes_len(c.max_cp as nat, 2);
    lemma_le_bytes_len(c.cast_buff_id as nat, 4);
    lemma_le_bytes_len(c.cast_duration_current as nat, 4);
    lemma_le_bytes_len(c.cast_duration_max as nat, 4);
}

/// Every combatant is what its own compact form holds, with or without
/// bytes after it.
pub proof fn lemma_wire_encoding_decodes(c: Combatant)
    ensures
        c.is_wire_decoding_of(c.wire_bytes()),
        c.wire_bytes().len() == WIRE_SIZE,
{
    let b = c.wire_bytes();
    lemma_pow256_values();
    lemma_wire_bytes_len(c);
    lemma_le_bytes_len(c.id as nat, 4);
    lemma_le_bytes_len(c.bnpcid as nat, 4);
    lemma_le_bytes_len(c.ownerid as nat, 4);
    lemma_le_bytes_len(c.pos_x as nat, 4);
    lemma_le_bytes_len(c.pos_z as nat, 4);
    lemma_le_bytes_len(c.pos_y as nat, 4);
    lemma_le_bytes_len(c.heading as nat, 4);
    lemma_le_bytes_len(c.pctargetid as nat, 4);
    lemma_le_bytes_len(c.npctargetid as nat, 4);
    lemma_le_bytes_len(c.bnpcnameid as nat, 4);
    lemma_le_bytes_len(c.current_world_id as nat, 2);
    lemma_le_bytes_len(c.home_world_id as nat, 2);
    lemma_le_bytes_len(c.current_hp as nat, 4);
    lemma_le_bytes_len(c.max_hp as nat, 4);
    lemma_le_bytes_len(c.current_mp as nat, 4);
    lemma_le_bytes_len(c.max_mp as nat, 4);
    lemma_le_bytes_len(c.current_gp as nat, 2);
    lemma_le_bytes_len(c.max_gp as nat, 2);
    lemma_le_bytes_len(c.current_cp as nat, 2);
    lemma_le_bytes_len(c.max_cp as nat, 2);
    lemma_le_bytes_len(c.cast_buff_id as nat, 4);
    lemma_le_bytes_len(c.cast_duration_current as nat, 4);
    lemma_le_bytes_len(c.cast_duration_max as nat, 4);
    assert(c.name@ =~= b.subrange(0, NAME_SIZE as int));
    lemma_field_holds(b, 30, 4, c.id as nat);
    lemma_field_holds(b, 34, 4, c.bnpcid as nat);
    lemma_field_holds(b, 38, 4, c.ownerid as nat);
    lemma_field_holds(b, 44, 4, c.pos_x as nat);
    lemma_field_holds(b, 48, 4, c.pos_z as nat);
    lemma_field_holds(b, 52, 4, c.pos_y as nat);
    lemma_field_holds(b, 56, 4, c.heading as nat);
    lemma_field_holds(b, 60, 4, c.pctargetid as nat);
    lemma_field_holds(b, 64, 4, c.npctargetid as nat);
    lemma_field_holds(b, 68, 4, c.bnpcnameid as nat);
    lemma_field_holds(b, 72, 2, c.current_world_id as nat);
    lemma_field_holds(b, 74, 2, c.home_world_id as nat);
    lemma_field_holds(b, 76, 4, c.current_hp as nat);
    lemma_field_holds(b, 80, 4, c.max_hp as nat);
    lemma_field_holds(b, 84, 4, c.current_mp as nat);
    lemma_field_holds(b, 88, 4, c.max_mp as nat);
    lemma_field_holds(b, 92, 2, c.current_gp as nat);
    lemma_field_holds(b, 94, 2, c.max_gp as nat);
    lemma_field_holds(b, 96, 2, c.current_cp as nat);
    lemma_field_holds(b, 98, 2, c.max_cp as nat);
    lemma_field_holds(b, 104, 4, c.cast_buff_id as nat);
    lemma_field_holds(b, 108, 4, c.cast_duration_current as nat);
    lemma_field_holds(b, 112, 4, c.cast_duration_max as nat);
}

/// Reading the compact form is the inverse of writing it: whatever record is
/// read from the compact form of `c`, with or without bytes after it, is `c`.
pub proof fn lemma_wire_decode_of_encode(c: Combatant, d: Combatant, tail: Seq<u8>)
    requires
        d.is_wire_decoding_of(c.wire_bytes() + tail),
    ensures
        d == c,
{
    let b = c.wire_bytes() + tail;
    lemma_pow256_values();
    lemma_wire_bytes_len(c);
    lemma_le_bytes_len(c.id as nat, 4);
    lemma_le_bytes_len(c.bnpcid as nat, 4);
    lemma_le_bytes_len(c.ownerid as nat, 4);
    lemma_le_bytes_len(c.pos_x as nat, 4);
    lemma_le_bytes_len(c.pos_z as nat, 4);
    lemma_le_bytes_len(c.pos_y as nat, 4);
    lemma_le_bytes_len(c.heading as nat, 4);
    lemma_le_bytes_len(c.pctargetid as nat, 4);
    lemma_le_bytes_len(c.npctargetid as nat, 4);
    lemma_le_bytes_len(c.bnpcnameid as nat, 4);
    lemma_le_bytes_len(c.current_world_id as nat, 2);
    lemma_le_bytes_len(c.home_world_id as nat, 2);
    lemma_le_bytes_len(c.current_hp as nat, 4);
    lemma_le_bytes_len(c.max_hp as nat, 4);
    lemma_le_bytes_len(c.current_mp as nat, 4);
    lemma_le_bytes_len(c.max_mp as nat, 4);
    lemma_le_bytes_len(c.current_gp as nat, 2);
    lemma_le_bytes_len(c.max_gp as nat, 2);
    lemma_le_bytes_len(c.current_cp as nat, 2);
    lemma_le_bytes_len(c.max_cp as nat, 2);
    lemma_le_bytes_len(c.cast_buff_id as nat, 4);
    lemma_le_bytes_len(c.cast_duration_current as nat, 4);
    lemma_le_bytes_len(c.cast_duration_max as nat, 4);
    assert(c.name@ =~= b.subrange(0, NAME_SIZE as int));
    lemma_field_holds(b, 30, 4, c.id as nat);
    lemma_field_holds(b, 34, 4, c.bnpcid as nat);
    lemma_field_holds(b, 38, 4, c.ownerid as nat);
    lemma_field_holds(b, 44, 4, c.pos_x as nat);
    lemma_field_holds(b, 48, 4, c.pos_z as nat);
    lemma_field_holds(b, 52, 4, c.pos_y as nat);
    lemma_field_holds(b, 56, 4, c.heading as nat);
    lemma_field_holds(b, 60, 4, c.pctargetid as nat);
    lemma_field_holds(b, 64, 4, c.npctargetid as nat);
    lemma_field_holds(b, 68, 4, c.bnpcnameid as nat);
    lemma_field_holds(b, 72, 2, c.current_world_id as nat);
    lemma_field_holds(b, 74, 2, c.home_world_id as nat);
    lemma_field_holds(b, 76, 4, c.current_hp as nat);
    lemma_field_holds(b, 80, 4, c.max_hp as nat);
    lemma_field_holds(b, 84, 4, c.current_mp as nat);
    lemma_field_holds(b, 88, 4, c.max_mp as nat);
    lemma_field_holds(b, 92, 2, c.current_gp as nat);
    lemma_field_holds(b, 94, 2, c.max_gp as nat);
    lemma_field_holds(b, 96, 2, c.current_cp as nat);
    lemma_field_holds(b, 98, 2, c.max_cp as nat);
    lemma_field_holds(b, 104, 4, c.cast_buff_id as nat);
    lemma_field_holds(b, 108, 4, c.cast_duration_current as nat);
    lemma_field_holds(b, 112, 4, c.cast_duration_max as nat);
    assert(d.name =~= c.name);
}

/// The compact form of the combatant that the game's layout `b` holds: the
/// bytes of its fields, picked from `b` in travelling order.
pub open spec fn wire_of_foreign(b: Seq<u8>) -> Seq<u8> {
    b.subrange(NAME_AT as int, NAME_AT + NAME_SIZE)
        + b.subrange(ID_AT as int, ID_AT + 4)
        + b.subrange(BNPCID_AT as int, BNPCID_AT + 4)
        + b.subrange(OWNERID_AT as int, OWNERID_AT + 4)
        + b.subrange(TYPE_AT as int, TYPE_AT + 1)
        + b.subrange(EFFECTIVE_DISTANCE_AT as int, EFFECTIVE_DISTANCE_AT + 1)
        + b.subrange(POS_X_AT as int, POS_X_AT + 4)
        + b.subrange(POS_Z_AT as int, POS_Z_AT + 4)
        + b.subrange(POS_Y_AT as int, POS_Y_AT + 4)
        + b.subrange(HEADING_AT as int, HEADING_AT + 4)
        + b.subrange(PCTARGETID_AT as int, PCTARGETID_AT + 4)
        + b.subrange(NPCTARGETID_AT as int, NPCTARGETID_AT + 4)
        + b.subrange(BNPCNAMEID_AT as int, BNPCNAMEID_AT + 4)
        + b.subrange(CURRENT_WORLD_ID_AT as int, CURRENT_WORLD_ID_AT + 2)
        + b.subrange(HOME_WORLD_ID_AT as int, HOME_WORLD_ID_AT + 2)
        + b.subrange(CURRENT_HP_AT as int, CURRENT_HP_AT + 4)
        + b.subrange(MAX_HP_AT as int, MAX_HP_AT + 4)
        + b.subrange(CURRENT_MP_AT as int, CURRENT_MP_AT + 4)
        + b.subrange(MAX_MP_AT as int, MAX_MP_AT + 4)
        + b.subrange(CURRENT_GP_AT as int, CURRENT_GP_AT + 2)
        + b.subrange(MAX_GP_AT as int, MAX_GP_AT + 2)
        + b.subrange(CURRENT_CP_AT as int, CURRENT_CP_AT + 2)
        + b.subrange(MAX_CP_AT as int, MAX_CP_AT + 2)
        + b.subrange(JOB_AT as int, JOB_AT + 1)
        + b.subrange(LEVEL_AT as int, LEVEL_AT + 1)
        + b.subrange(IS_CASTING_1_AT as int, IS_CASTING_1_AT + 1)
        + b.subrange(IS_CASTING_2_AT as int, IS_CASTING_2_AT + 1)
        + b.subrange(CAST_BUFF_ID_AT as int, CAST_BUFF_ID_AT + 4)
        + b.subrange(CAST_DURATION_CURRENT_AT as int, CAST_DURATION_CURRENT_AT + 4)
        + b.subrange(CAST_DURATION_MAX_AT as int, CAST_DURATION_MAX_AT + 4)
}

/// The compact form of a combatant read from the game's layout is made of
/// the very bytes of the layout's fields.
pub proof fn lemma_wire_of_decoded(c: Combatant, b: Seq<u8>)
    requires
        c.is_decoding_of(b),
    ensures
        c.wire_bytes() == wire_of_foreign(b),
{
    lemma_le_bytes_of_value(b.subrange(ID_AT as int, ID_AT + 4));
    lemma_le_bytes_of_value(b.subrange(BNPCID_AT as int, BNPCID_AT + 4));
    lemma_le_bytes_of_value(b.subrange(OWNERID_AT as int, OWNERID_AT + 4));
    assert(b.subrange(TYPE_AT as int, TYPE_AT + 1) =~= seq![c.tipe]);
    assert(b.subrange(EFFECTIVE_DISTANCE_AT as int, EFFECTIVE_DISTANCE_AT + 1) =~= seq![c.effective_distance]);
    lemma_le_bytes_of_value(b.subrange(POS_X_AT as int, POS_X_AT + 4));
    lemma_le_bytes_of_value(b.subrange(POS_Z_AT as int, POS_Z_AT + 4));
    lemma_le_bytes_of_value(b.subrange(POS_Y_AT as int, POS_Y_AT + 4));
    lemma_le_bytes_of_value(b.subrange(HEADING_AT as int, HEADING_AT + 4));
    lemma_le_bytes_of_value(b.subrange(PCTARGETID_AT as int, PCTARGETID_AT + 4));
    lemma_le_bytes_of_value(b.subrange(NPCTARGETID_AT as int, NPCTARGETID_AT + 4));
    lemma_le_bytes_of_value(b.subrange(BNPCNAMEID_AT as int, BNPCNAMEID_AT + 4));
    lemma_le_bytes_of_value(b.subrange(CURRENT_WORLD_ID_AT as int, CURRENT_WORLD_ID_AT + 2));
    lemma_le_bytes_of_value(b.subrange(HOME_WORLD_ID_AT as int, HOME_WORLD_ID_AT + 2));
    lemma_le_bytes_of_value(b.subrange(CURRENT_HP_AT as int, CURRENT_HP_AT + 4));
    lemma_le_bytes_of_value(b.subrange(MAX_HP_AT as int, MAX_HP_AT + 4));
    lemma_le_bytes_of_value(b.subrange(CURRENT_MP_AT as int, CURRENT_MP_AT + 4));
    lemma_le_bytes_of_value(b.subrange(MAX_MP_AT as int, MAX_MP_AT + 4));
    lemma_le_bytes_of_value(b.subrange(CURRENT_GP_AT as int, CURRENT_GP_AT + 2));
    lemma_le_bytes_of_value(b.subrange(MAX_GP_AT as int, MAX_GP_AT + 2));
    lemma_le_bytes_of_value(b.subrange(CURRENT_CP_AT as int, CURRENT_CP_AT + 2));
    lemma_le_bytes_of_value(b.subrange(MAX_CP_AT as int, MAX_CP_AT + 2));
    assert(b.subrange(JOB_AT as int, JOB_AT + 1) =~= seq![c.job]);
    assert(b.subrange(LEVEL_AT as int, LEVEL_AT + 1) =~= seq![c.level]);
    assert(b.subrange(IS_CASTING_1_AT as int, IS_CASTING_1_AT + 1) =~= seq![c.is_casting_1]);
    assert(b.subrange(IS_CASTING_2_AT as int, IS_CASTING_2_AT + 1) =~= seq![c.is_casting_2]);
    lemma_le_bytes_of_value(b.subrange(CAST_BUFF_ID_AT as int, CAST_BUFF_ID_AT + 4));
    lemma_le_bytes_of_value(b.subrange(CAST_DURATION_CURRENT_AT as int, CAST_DURATION_CURRENT_AT + 4));
    lemma_le_bytes_of_value(b.subrange(CAST_DURATION_MAX_AT as int, CAST_DURATION_MAX_AT + 4));
    assert(c.wire_bytes() =~= wire_of_foreign(b));
}

/// The byte at index `i` of the game's layout of the combatant whose compact
/// form is `raw`: the byte of `raw` that belongs to the field that covers
/// `i`, and zero where no field does.
pub open spec fn foreign_byte_of_wire(raw: Seq<u8>, i: int) -> u8 {
    if in_field(i, NAME_AT as int, NAME_SIZE as int) {
        raw[0 + i - NAME_AT]
    } else if in_field(i, ID_AT as int, 4) {
        raw[30 + i - ID_AT]
    } else if in_field(i, BNPCID_AT as int, 4) {
        raw[34 + i - BNPCID_AT]
    } else if in_field(i, OWNERID_AT as int, 4) {
        raw[38 + i - OWNERID_AT]
    } else if i == TYPE_AT {
        raw[42]
    } else if i == EFFECTIVE_DISTANCE_AT {
        raw[43]
    } else if in_field(i, POS_X_AT as int, 4) {
        raw[44 + i - POS_X_AT]
    } else if in_field(i, POS_Z_AT as int, 4) {
        raw[48 + i - POS_Z_AT]
    } else if in_field(i, POS_Y_AT as int, 4) {
        raw[52 + i - POS_Y_AT]
    } else if in_field(i, HEADING_AT as int, 4) {
        raw[56 + i - HEADING_AT]
    } else if in_field(i, PCTARGETID_AT as int, 4) {
        raw[60 + i - PCTARGETID_AT]
    } else if in_field(i, NPCTARGETID_AT as int, 4) {
        raw[64 + i - NPCTARGETID_AT]
    } else if in_field(i, BNPCNAMEID_AT as int, 4) {
        raw[68 + i - BNPCNAMEID_AT]
    } else if in_field(i, CURRENT_WORLD_ID_AT as int, 2) {
        raw[72 + i - CURRENT_WORLD_ID_AT]
    } else if in_field(i, HOME_WORLD_ID_AT as int, 2) {
        raw[74 + i - HOME_WORLD_ID_AT]
    } else if in_field(i, CURRENT_HP_AT as int, 4) {
        raw[76 + i - CURRENT_HP_AT]
    } else if in_field(i, MAX_HP_AT as int, 4) {
        raw[80 + i - MAX_HP_AT]
    } else if in_field(i, CURRENT_MP_AT as int, 4) {
        raw[84 + i - CURRENT_MP_AT]
    } else if in_field(i, MAX_MP_AT as int, 4) {
        raw[88 + i - MAX_MP_AT]
    } else if in_field(i, CURRENT_GP_AT as int, 2) {
        raw[92 + i - CURRENT_GP_AT]
    } else if in_field(i, MAX_GP_AT as int, 2) {
        raw[94 + i - MAX_GP_AT]
    } else if in_field(i, CURRENT_CP_AT as int, 2) {
        raw[96 + i - CURRENT_CP_AT]
    } else if in_field(i, MAX_CP_AT as int, 2) {
        raw[98 + i - MAX_CP_AT]
    } else if i == JOB_AT {
        raw[100]
    } else if i == LEVEL_AT {
        raw[101]
    } else if i == IS_CASTING_1_AT {
        raw[102]
    } else if i == IS_CASTING_2_AT {
        raw[103]
    } else if in_field(i, CAST_BUFF_ID_AT as int, 4) {
        raw[104 + i - CAST_BUFF_ID_AT]
    } else if in_field(i, CAST_DURATION_CURRENT_AT as int, 4) {
        raw[108 + i - CAST_DURATION_CURRENT_AT]
    } else if in_field(i, CAST_DURATION_MAX_AT as int, 4) {
        raw[112 + i - CAST_DURATION_MAX_AT]
    } else {
        0
    }
}

/// The game's layout of the combatant whose compact form is `raw`.
pub open spec fn foreign_of_wire(raw: Seq<u8>) -> Seq<u8> {
    Seq::new(COMBATANT_SIZE as nat, |i: int| foreign_byte_of_wire(raw, i))
}

/// The game's layout of a combatant read from its compact form is made of
/// the very bytes of the compact form.
pub proof fn lemma_foreign_of_decoded(c: Combatant, raw: Seq<u8>)
    requires
        c.is_wire_decoding_of(raw),
    ensures
        c.foreign_bytes() == foreign_of_wire(raw),
{
    lemma_le_bytes_of_value(raw.subrange(30, 34));
    lemma_le_bytes_of_value(raw.subrange(34, 38));
    lemma_le_bytes_of_value(raw.subrange(38, 42));
    lemma_le_bytes_of_value(raw.subrange(44, 48));
    lemma_le_bytes_of_value(raw.subrange(48, 52));
    lemma_le_bytes_of_value(raw.subrange(52, 56));
    lemma_le_bytes_of_value(raw.subrange(56, 60));
    lemma_le_bytes_of_value(raw.subrange(60, 64));
    lemma_le_bytes_of_value(raw.subrange(64, 68));
    lemma_le_bytes_of_value(raw.subrange(68, 72));
    lemma_le_bytes_of_value(raw.subrange(72, 74));
    lemma_le_bytes_of_value(raw.subrange(74, 76));
    lemma_le_bytes_of_value(raw.subrange(76, 80));
    lemma_le_bytes_of_value(raw.subrange(80, 84));
    lemma_le_bytes_of_value(raw.subrange(84, 88));
    lemma_le_bytes_of_value(raw.subrange(88, 92));
    lemma_le_bytes_of_value(raw.subrange(92, 94));
    lemma_le_bytes_of_value(raw.subrange(94, 96));
    lemma_le_bytes_of_value(raw.subrange(96, 98));
    lemma_le_bytes_of_value(raw.subrange(98, 100));
    lemma_le_bytes_of_value(raw.subrange(104, 108));
    lemma_le_bytes_of_value(raw.subrange(108, 112));
    lemma_le_bytes_of_value(raw.subrange(112, 116));
    assert forall|i: int| 0 <= i < COMBATANT_SIZE implies c.foreign_byte(i) == foreign_byte_of_wire(
        raw,
        i,
    ) by {
        if in_field(i, NAME_AT as int, NAME_SIZE as int) {
            assert(c.name@[i - NAME_AT] == raw.subrange(0, NAME_SIZE as int)[i - NAME_AT]);
        }
    }
    assert(c.foreign_bytes() =~= foreign_of_wire(raw));
}

} // verus!
