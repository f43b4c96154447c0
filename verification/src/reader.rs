//! Reading the game's memory on the host: resolving what a signature points
//! at, following chains of pointers, and turning what was read into the
//! packets of one tick.
//!
//! Memory is read from a `ProcessImage`, a copy of the parts of a process's
//! memory that matter. The functions that decide what to read next and what
//! a read means take plain bytes, so that a caller who reads a live process
//! can use them between its own reads.

use crate::bytes::{le_value, read_u32_le, read_u64_le};
use crate::combatant::{gzip, lemma_wire_of_decoded, wire_of_foreign, Combatant, COMBATANT_SIZE};
use crate::models::MOB_SLOTS;
use crate::packets::{SyncPacket, SyncPacketView};
use crate::signature::{
    collect_signatures, hex_value, is_collection_of, is_wildcard_runs, try_parse_signature, unwild,
    MemErrorType, ScanResults, SignatureMap, Signatures,
};
use vstd::utf8::encode_utf8;
use crate::signature::Signature;
use crate::utils::{find_subsequence, is_first_match, matches_at};
use std::ops::Range;
use crate::packets::Target;
use vstd::prelude::*;
use vstd::slice::slice_subrange;
use vstd::slice::slice_to_vec;

verus! {

/// Why a value could not be read from the game.
#[derive(Clone, Copy, Debug, PartialEq, Eq)]
pub enum ReadingError {
    /// The memory could not be read. This passes: the next tick may succeed.
    ReadingProcessMemory,
    /// The memory was read but does not hold what was looked for.
    ReadingData,
}

impl ReadingError {
    /// What the error says, as text.
    pub open spec fn message_text(self) -> Seq<char> {
        match self {
            ReadingError::ReadingProcessMemory => "Reading process memory"@,
            ReadingError::ReadingData => "Reading data from process memory"@,
        }
    }

    /// What the error says.
    pub fn message(&self) -> (text: &'static str)
        ensures
            text@ == self.message_text(),
    {
        match self {
            ReadingError::ReadingProcessMemory => "Reading process memory",
            ReadingError::ReadingData => "Reading data from process memory",
        }
    }
}

/// One mapping of a process's memory with what it holds.
#[derive(Clone, Debug, PartialEq, Eq)]
pub struct Region {
    /// The address of the first byte.
    pub start: usize,
    /// The bytes of the mapping.
    pub bytes: Vec<u8>,
    pub readable: bool,
    pub writable: bool,
    pub executable: bool,
    /// Whether the mapping shows a file.
    pub file_backed: bool,
}

/// The mappings of a process.
#[derive(Clone, Debug, PartialEq, Eq)]
pub struct ProcessImage {
    pub regions: Vec<Region>,
}

impl Region {
    /// Whether the mapping ends within the address space.
    pub open spec fn well_formed(&self) -> bool {
        self.start + self.bytes@.len() <= usize::MAX
    }

    /// Whether the `size` bytes at `address` lie in this mapping and can be read.
    pub open spec fn holds(&self, address: int, size: int) -> bool {
        &&& self.readable
        &&& self.start <= address
        &&& address + size <= self.start + self.bytes@.len()
    }

    /// Whether a signature is looked for in this mapping: in code that the
    /// process itself made, which is readable and executable, not writable,
    /// not the image of a file, and not empty.
    pub open spec fn is_candidate(&self) -> bool {
        &&& self.readable
        &&& self.executable
        &&& !self.writable
        &&& !self.file_backed
        &&& self.bytes@.len() > 0
    }
}

/// Whether a mapping with these properties is one in which a signature is
/// looked for.
pub open spec fn is_scan_candidate(
    readable: bool,
    writable: bool,
    executable: bool,
    file_backed: bool,
    size: usize,
) -> bool {
    readable && executable && !writable && !file_backed && size > 0
}

/// Whether a mapping with these properties is one in which a signature is
/// looked for.
pub fn region_is_candidate(
    readable: bool,
    writable: bool,
    executable: bool,
    file_backed: bool,
    size: usize,
) -> (b: bool)
    ensures
        b == is_scan_candidate(readable, writable, executable, file_backed, size),
{
    readable && executable && !writable && !file_backed && size > 0
}

impl ProcessImage {
    /// Whether every mapping ends within the address space.
    pub open spec fn well_formed(&self) -> bool {
        forall|i: int| 0 <= i < self.regions@.len() ==> (#[trigger] self.regions@[i]).well_formed()
    }

    /// Whether every mapping ends within the address space.
    pub fn is_well_formed(&self) -> (ok: bool)
        ensures
            ok == self.well_formed(),
    {
        let mut i: usize = 0;
        while i < self.regions.len()
            invariant
                i <= self.regions.len(),
                forall|j: int| 0 <= j < i ==> (#[trigger] self.regions@[j]).well_formed(),
            decreases self.regions.len() - i,
        {
            if self.regions[i].bytes.len() > usize::MAX - self.regions[i].start {
                assert(!self.regions@[i as int].well_formed());
                return false;
            }
            i += 1;
        }
        true
    }

    /// Whether mapping `i` is the first that holds the `size` bytes at `address`.
    pub open spec fn is_first_holding(&self, i: int, address: int, size: int) -> bool {
        &&& 0 <= i < self.regions@.len()
        &&& self.regions@[i].holds(address, size)
        &&& forall|j: int| 0 <= j < i ==> !(#[trigger] self.regions@[j]).holds(address, size)
    }

    /// Whether no mapping holds the `size` bytes at `address`.
    pub open spec fn holds_nowhere(&self, address: int, size: int) -> bool {
        forall|j: int|
            0 <= j < self.regions@.len() ==> !(#[trigger] self.regions@[j]).holds(address, size)
    }

    /// What reading `size` bytes at `address` gives: the bytes there in the
    /// first mapping that holds them all, or an error where no mapping does.
    pub open spec fn contents(&self, address: int, size: int) -> Result<Seq<u8>, ReadingError> {
        if self.holds_nowhere(address, size) {
            Err(ReadingError::ReadingProcessMemory)
        } else {
            let i = choose|i: int| self.is_first_holding(i, address, size);
            Ok(
                self.regions@[i].bytes@.subrange(
                    address - self.regions@[i].start,
                    address - self.regions@[i].start + size,
                ),
            )
        }
    }

    /// Reads `size` bytes at `address`.
    pub fn read(&self, address: usize, size: usize) -> (r: Result<Vec<u8>, ReadingError>)
        ensures
            match r {
                Ok(bytes) => self.contents(address as int, size as int) == Ok::<
                    Seq<u8>,
                    ReadingError,
                >(bytes@) && bytes@.len() == size,
                Err(e) => self.contents(address as int, size as int) == Err::<
                    Seq<u8>,
                    ReadingError,
                >(e),
            },
    {
        let mut i: usize = 0;
        while i < self.regions.len()
            invariant
                i <= self.regions.len(),
                forall|j: int|
                    0 <= j < i ==> !(#[trigger] self.regions@[j]).holds(address as int, size as int),
            decreases self.regions.len() - i,
        {
            let region = &self.regions[i];
            let len: usize = region.bytes.len();
            if region.readable && region.start <= address && address - region.start <= len
                && size <= len - (address - region.start) {
                let from: usize = address - region.start;
                let bytes = slice_to_vec(slice_subrange(region.bytes.as_slice(), from, from + size));
                proof {
                    self.lemma_first_holding_is_unique(i as int, address as int, size as int);
                }
                return Ok(bytes);
            }
            i += 1;
        }
        Err(ReadingError::ReadingProcessMemory)
    }

    /// The first mapping that holds a range is the one that `contents` reads.
    pub proof fn lemma_first_holding_is_unique(&self, i: int, address: int, size: int)
        requires
            0 <= i < self.regions@.len(),
            self.regions@[i].holds(address, size),
            forall|j: int| 0 <= j < i ==> !(#[trigger] self.regions@[j]).holds(address, size),
        ensures
            self.contents(address, size) == Ok::<Seq<u8>, ReadingError>(
                self.regions@[i].bytes@.subrange(
                    address - self.regions@[i].start,
                    address - self.regions@[i].start + size,
                ),
            ),
    {
        assert(self.is_first_holding(i, address, size));
        let k = choose|k: int| self.is_first_holding(k, address, size);
        if k < i {
            assert(!self.regions@[k].holds(address, size));
        } else if i < k {
            assert(!self.regions@[i].holds(address, size));
        }
    }

    /// Where some mapping holds a range, one is the first to do so.
    pub proof fn lemma_first_holding_exists(&self, j: int, address: int, size: int)
        requires
            0 <= j < self.regions@.len(),
            self.regions@[j].holds(address, size),
        ensures
            exists|i: int| self.is_first_holding(i, address, size),
        decreases j,
    {
        if exists|k: int| 0 <= k < j && (#[trigger] self.regions@[k]).holds(address, size) {
            let k = choose|k: int| 0 <= k < j && (#[trigger] self.regions@[k]).holds(address, size);
            self.lemma_first_holding_exists(k, address, size);
        } else {
            assert(self.is_first_holding(j, address, size));
        }
    }

    /// What was read has the size that was asked for.
    pub proof fn lemma_contents_len(&self, address: int, size: int)
        requires
            0 <= size,
        ensures
            self.contents(address, size) matches Ok(bytes) ==> bytes.len() == size,
    {
        if !self.holds_nowhere(address, size) {
            let j = choose|j: int|
                0 <= j < self.regions@.len() && (#[trigger] self.regions@[j]).holds(address, size);
            self.lemma_first_holding_exists(j, address, size);
        }
    }
}

/// The number that four little-endian bytes hold, read as signed.
pub open spec fn signed_32(v: nat) -> int {
    if v < 0x8000_0000 {
        v as int
    } else {
        v - 0x1_0000_0000
    }
}

/// The address that the displacement `bytes`, found at `signature`, points
/// at: the address after the displacement's four bytes, plus the
/// displacement, which is signed.
pub open spec fn displaced(signature: usize, bytes: Seq<u8>) -> int {
    signature + 4 + signed_32(le_value(bytes.subrange(0, 4)))
}

/// Resolves a signature: `signature` is the address after the match, where
/// a four-byte displacement stands, and `bytes` is what was read there. Fails
/// where fewer than four bytes were read and where the result is no address.
pub fn read_signature(signature: usize, bytes: &[u8]) -> (r: Result<usize, ReadingError>)
    ensures
        r is Ok <==> bytes@.len() >= 4 && 0 <= displaced(signature, bytes@) <= usize::MAX,
        r matches Ok(address) ==> address == displaced(signature, bytes@),
        r matches Err(e) ==> e == ReadingError::ReadingData,
{
    if bytes.len() < 4 {
        return Err(ReadingError::ReadingData);
    }
    let raw: u32 = read_u32_le(bytes, 0);
    let displacement: i128 = if raw >= 0x8000_0000 {
        raw as i128 - 0x1_0000_0000
    } else {
        raw as i128
    };
    let address: i128 = signature as i128 + 4 + displacement;
    if address < 0 || address > usize::MAX as i128 {
        return Err(ReadingError::ReadingData);
    }
    Ok(address as usize)
}

/// One link of a chain of pointers: how many bytes the pointer has, and what
/// is added to it to reach the next thing to read.
#[derive(Clone, Copy, Debug, PartialEq, Eq)]
pub struct ChainStep {
    pub read_size: usize,
    pub add_offset: usize,
}

/// Where a link of a chain leads.
#[derive(Clone, Copy, Debug, PartialEq, Eq)]
pub enum ChainLink {
    /// The pointer is null: the chain ends here, and its value is zero.
    Null,
    /// The next address to read.
    Next(usize),
}

/// Where the link `step` leads, `bytes` being what was read for it.
pub open spec fn link_of(bytes: Seq<u8>, step: ChainStep) -> Option<ChainLink> {
    if !(1 <= step.read_size <= 8) || bytes.len() < step.read_size {
        None
    } else {
        let pointer = le_value(bytes.subrange(0, step.read_size as int));
        if pointer == 0 {
            Some(ChainLink::Null)
        } else if pointer + step.add_offset > usize::MAX {
            None
        } else {
            Some(ChainLink::Next((pointer + step.add_offset) as usize))
        }
    }
}

/// Follows one link of a chain: reads the pointer from `bytes`,
/// little-endian and unsigned; a null pointer ends the chain, any other has
/// the link's offset added. Fails where the pointer has no size between one
/// and eight bytes, where `bytes` are fewer, and where the sum is no address.
pub fn follow_link(bytes: &[u8], step: ChainStep) -> (r: Result<ChainLink, ReadingError>)
    ensures
        match r {
            Ok(link) => link_of(bytes@, step) == Some(link),
            Err(e) => link_of(bytes@, step) is None && e == ReadingError::ReadingData,
        },
{
    if step.read_size < 1 || step.read_size > 8 || bytes.len() < step.read_size {
        return Err(ReadingError::ReadingData);
    }
    let pointer: u64 = crate::bytes::read_uint_le(bytes, step.read_size);
    if pointer == 0 {
        return Ok(ChainLink::Null);
    }
    if pointer > usize::MAX as u64 {
        return Err(ReadingError::ReadingData);
    }
    match (pointer as usize).checked_add(step.add_offset) {
        Some(next) => Ok(ChainLink::Next(next)),
        None => Err(ReadingError::ReadingData),
    }
}

/// Number of bytes of a mapping that are searched at a time.
pub const SCAN_SIZE: usize = 65536;

/// Number of bytes that one window shares with the next: one less than the
/// longest signature, so that a match that one window cuts off lies whole
/// in the next.
pub open spec fn scan_overlap(max_sig_len: usize) -> int {
    if max_sig_len == 0 {
        0
    } else {
        max_sig_len - 1
    }
}

/// Distance between the starts of two windows.
pub open spec fn scan_stride(max_sig_len: usize) -> int {
    SCAN_SIZE - scan_overlap(max_sig_len)
}

/// Distance between the starts of two windows.
pub fn window_stride(max_sig_len: usize) -> (stride: usize)
    requires
        max_sig_len <= SCAN_SIZE,
    ensures
        stride == scan_stride(max_sig_len),
        stride >= 1,
{
    if max_sig_len == 0 {
        SCAN_SIZE
    } else {
        SCAN_SIZE - (max_sig_len - 1)
    }
}

/// Length of the window that starts `offset` bytes into a mapping of
/// `region_len` bytes: `SCAN_SIZE`, or what is left of the mapping.
pub fn window_len(region_len: usize, offset: usize) -> (len: usize)
    requires
        offset <= region_len,
    ensures
        len == if region_len - offset < SCAN_SIZE {
            region_len - offset
        } else {
            SCAN_SIZE as int
        },
{
    if region_len - offset < SCAN_SIZE {
        region_len - offset
    } else {
        SCAN_SIZE
    }
}

/// A match in a window is a match in the mapping, further right by the
/// window's offset, and a match in the mapping that lies in the window is
/// one in the window.
proof fn lemma_window_match(
    bytes: Seq<u8>,
    offset: int,
    len: int,
    needle: Seq<u8>,
    ranges: Seq<Range<usize>>,
    x: int,
)
    requires
        0 <= offset,
        0 <= len,
        offset + len <= bytes.len(),
        0 <= x,
        x + needle.len() <= len,
    ensures
        matches_at(bytes.subrange(offset, offset + len), needle, ranges, x) <==> matches_at(
            bytes,
            needle,
            ranges,
            offset + x,
        ),
{
    let window = bytes.subrange(offset, offset + len);
    assert(window.subrange(x, x + needle.len()) =~= bytes.subrange(
        offset + x,
        offset + x + needle.len(),
    ));
}

/// Finds the leftmost match of `signature` in the bytes of one mapping,
/// searching it in windows of `SCAN_SIZE` bytes that overlap by one byte less
/// than `max_sig_len`, the length of the longest signature.
pub fn scan_region(bytes: &[u8], signature: &Signature, max_sig_len: usize) -> (found: Option<
    usize,
>)
    requires
        signature.signature_bytes@.len() <= max_sig_len <= SCAN_SIZE,
    ensures
        is_first_match(bytes@, signature.signature_bytes@, signature.ranges(), found),
{
    let needle = signature.signature_bytes.as_slice();
    let total: usize = bytes.len();
    let stride: usize = window_stride(max_sig_len);
    let ghost ranges = signature.ranges();
    let mut offset: usize = 0;
    loop
        invariant
            offset <= total,
            total == bytes@.len(),
            needle@ == signature.signature_bytes@,
            ranges == signature.ranges(),
            needle@.len() <= max_sig_len <= SCAN_SIZE,
            stride == scan_stride(max_sig_len),
            stride >= 1,
            forall|m: int| 0 <= m < offset ==> !matches_at(bytes@, needle@, ranges, m),
        decreases total - offset,
    {
        let len: usize = window_len(total, offset);
        let window = slice_subrange(bytes, offset, offset + len);
        let hit = match &signature.wildcard_ranges {
            Some(v) => find_subsequence(window, needle, Some(v)),
            None => find_subsequence(window, needle, None),
        };
        match hit {
            Some(x) => {
                proof {
                    lemma_window_match(bytes@, offset as int, len as int, needle@, ranges, x as int);
                    assert forall|m: int| 0 <= m < offset + x implies !matches_at(
                        bytes@,
                        needle@,
                        ranges,
                        m,
                    ) by {
                        if m >= offset {
                            lemma_window_match(
                                bytes@,
                                offset as int,
                                len as int,
                                needle@,
                                ranges,
                                m - offset,
                            );
                        }
                    }
                }
                return Some(offset + x);
            },
            None => {},
        }
        if total - offset <= SCAN_SIZE {
            proof {
                assert forall|m: int| !matches_at(bytes@, needle@, ranges, m) by {
                    if m >= offset && m + needle@.len() <= total {
                        lemma_window_match(
                            bytes@,
                            offset as int,
                            len as int,
                            needle@,
                            ranges,
                            m - offset,
                        );
                    }
                }
            }
            return None;
        }
        proof {
            assert forall|m: int| 0 <= m < offset + stride implies !matches_at(
                bytes@,
                needle@,
                ranges,
                m,
            ) by {
                if m >= offset && m + needle@.len() <= total {
                    lemma_window_match(
                        bytes@,
                        offset as int,
                        len as int,
                        needle@,
                        ranges,
                        m - offset,
                    );
                }
            }
        }
        offset = offset + stride;
    }
}

/// Whether `needle` matches somewhere in `bytes`.
pub open spec fn has_match(bytes: Seq<u8>, needle: Seq<u8>, ranges: Seq<Range<usize>>) -> bool {
    exists|m: int| matches_at(bytes, needle, ranges, m)
}

impl ProcessImage {
    /// Whether mapping `i` is the first candidate in which `needle` matches.
    pub open spec fn is_first_matching(
        &self,
        i: int,
        needle: Seq<u8>,
        ranges: Seq<Range<usize>>,
    ) -> bool {
        &&& 0 <= i < self.regions@.len()
        &&& self.regions@[i].is_candidate()
        &&& has_match(self.regions@[i].bytes@, needle, ranges)
        &&& forall|j: int|
            0 <= j < i && (#[trigger] self.regions@[j]).is_candidate() ==> !has_match(
                self.regions@[j].bytes@,
                needle,
                ranges,
            )
    }

    /// Whether `found` is what the search for a signature gives: the address
    /// after the leftmost match in the first candidate mapping that has
    /// one, or nothing where no candidate has one.
    pub open spec fn is_scan_result(
        &self,
        needle: Seq<u8>,
        ranges: Seq<Range<usize>>,
        found: Option<usize>,
    ) -> bool {
        match found {
            Some(address) => exists|i: int, m: usize|
                #![trigger
                    self.is_first_matching(i, needle, ranges),
                    is_first_match(self.regions@[i].bytes@, needle, ranges, Some(m))
                ]
                self.is_first_matching(i, needle, ranges) && is_first_match(
                    self.regions@[i].bytes@,
                    needle,
                    ranges,
                    Some(m),
                ) && address == self.regions@[i].start + m + needle.len(),
            None => forall|j: int|
                0 <= j < self.regions@.len() && (#[trigger] self.regions@[j]).is_candidate()
                    ==> !has_match(self.regions@[j].bytes@, needle, ranges),
        }
    }
}

/// Looks for `signature` in the candidate mappings of `image`, in their
/// order, and gives the address after the first match: that of the
/// displacement that follows the signature.
pub fn scan(image: &ProcessImage, signature: &Signature, max_sig_len: usize) -> (found: Option<
    usize,
>)
    requires
        image.well_formed(),
        signature.signature_bytes@.len() <= max_sig_len <= SCAN_SIZE,
    ensures
        image.is_scan_result(signature.signature_bytes@, signature.ranges(), found),
{
    let ghost needle = signature.signature_bytes@;
    let ghost ranges = signature.ranges();
    let mut i: usize = 0;
    while i < image.regions.len()
        invariant
            i <= image.regions.len(),
            image.well_formed(),
            needle == signature.signature_bytes@,
            ranges == signature.ranges(),
            needle.len() <= max_sig_len <= SCAN_SIZE,
            forall|j: int|
                0 <= j < i && (#[trigger] image.regions@[j]).is_candidate() ==> !has_match(
                    image.regions@[j].bytes@,
                    needle,
                    ranges,
                ),
        decreases image.regions.len() - i,
    {
        let region = &image.regions[i];
        assert(region.well_formed());
        if region_is_candidate(
            region.readable,
            region.writable,
            region.executable,
            region.file_backed,
            region.bytes.len(),
        ) {
            match scan_region(region.bytes.as_slice(), signature, max_sig_len) {
                Some(m) => {
                    assert(matches_at(region.bytes@, needle, ranges, m as int));
                    assert(image.is_first_matching(i as int, needle, ranges));
                    return Some(region.start + m + signature.signature_bytes.len());
                },
                None => {},
            }
        }
        i += 1;
    }
    None
}

/// Offset that the first link to the server's clock adds.
pub const SERVER_TIME_OFFSET_1: usize = 72;

/// Offset that the second link to the server's clock adds.
pub const SERVER_TIME_OFFSET_2: usize = 8;

/// Offset that the third link to the server's clock adds.
pub const SERVER_TIME_OFFSET_3: usize = 2116;

/// Number of bytes read of the game's target table.
pub const TARGET_BLOCK_SIZE: usize = 512;

/// `size` zero bytes.
pub open spec fn zeros(size: int) -> Seq<u8> {
    Seq::new(size as nat, |i: int| 0u8)
}

/// What is read where a signature's displacement points, given what was
/// read at the signature.
pub open spec fn resolved_from(
    at_signature: Result<Seq<u8>, ReadingError>,
    signature: usize,
) -> Result<usize, ReadingError> {
    match at_signature {
        Err(e) => Err(e),
        Ok(bytes) => if bytes.len() >= 4 && 0 <= displaced(signature, bytes) <= usize::MAX {
            Ok(displaced(signature, bytes) as usize)
        } else {
            Err(ReadingError::ReadingData)
        },
    }
}

/// The address of slot `index` of a table of pointers at `table`.
pub open spec fn slot_address(table: usize, index: usize) -> Option<usize> {
    if table + 8 * index <= usize::MAX {
        Some((table + 8 * index) as usize)
    } else {
        None
    }
}

/// The address of slot `index` of a table of pointers at `table`, if it is
/// an address.
pub fn mob_slot_address(table: usize, index: usize) -> (r: Option<usize>)
    ensures
        r == slot_address(table, index),
{
    match index.checked_mul(8) {
        Some(offset) => table.checked_add(offset),
        None => None,
    }
}

impl ProcessImage {
    /// The address that the signature found at `signature` points at.
    pub open spec fn resolved(&self, signature: usize) -> Result<usize, ReadingError> {
        resolved_from(self.contents(signature as int, 4), signature)
    }

    /// The zone id, found through the signature at `signature`.
    pub open spec fn zone_id_at(&self, signature: usize) -> Result<u32, ReadingError> {
        match self.resolved(signature) {
            Err(e) => Err(e),
            Ok(address) => match self.contents(address as int, 4) {
                Err(e) => Err(e),
                Ok(bytes) => Ok(le_value(bytes) as u32),
            },
        }
    }

    /// What a chain of pointers that starts at `address` leads to: the
    /// `payload_size` bytes at its end, or as many zero bytes where a pointer
    /// on the way is null.
    pub open spec fn chain_value(
        &self,
        address: usize,
        steps: Seq<ChainStep>,
        payload_size: usize,
    ) -> Result<Seq<u8>, ReadingError>
        decreases steps.len(),
    {
        if steps.len() == 0 {
            self.contents(address as int, payload_size as int)
        } else {
            match self.contents(address as int, steps[0].read_size as int) {
                Err(e) => Err(e),
                Ok(bytes) => match link_of(bytes, steps[0]) {
                    None => Err(ReadingError::ReadingData),
                    Some(ChainLink::Null) => Ok(zeros(payload_size as int)),
                    Some(ChainLink::Next(next)) => self.chain_value(
                        next,
                        steps.drop_first(),
                        payload_size,
                    ),
                },
            }
        }
    }

    /// The server's clock, found through the signature at `signature` and
    /// three links.
    pub open spec fn server_time_at(&self, signature: usize) -> Result<u64, ReadingError> {
        match self.resolved(signature) {
            Err(e) => Err(e),
            Ok(address) => match self.chain_value(address, server_time_chain(), 8) {
                Err(e) => Err(e),
                Ok(bytes) => Ok(le_value(bytes) as u64),
            },
        }
    }

    /// Slot `index` of the table of combatants, found through the signature
    /// at `signature`: nothing where the slot's pointer is null, else the
    /// pointer and the bytes of the combatant that it points at.
    pub open spec fn mob_at(&self, signature: usize, index: usize) -> Result<
        Option<(u64, Seq<u8>)>,
        ReadingError,
    > {
        match self.resolved(signature) {
            Err(e) => Err(e),
            Ok(table) => match slot_address(table, index) {
                None => Err(ReadingError::ReadingData),
                Some(slot) => match self.contents(slot as int, 8) {
                    Err(e) => Err(e),
                    Ok(bytes) => {
                        let pointer = le_value(bytes);
                        if pointer == 0 {
                            Ok(None)
                        } else if pointer > usize::MAX {
                            Err(ReadingError::ReadingProcessMemory)
                        } else {
                            match self.contents(pointer as int, COMBATANT_SIZE as int) {
                                Err(e) => Err(e),
                                Ok(blob) => Ok(Some((pointer as u64, blob))),
                            }
                        }
                    },
                },
            },
        }
    }

    /// The three targets, found through the signature at `signature`.
    pub open spec fn target_at(&self, signature: usize) -> Result<Target, ReadingError> {
        match self.resolved(signature) {
            Err(e) => Err(e),
            Ok(address) => match self.contents(address as int, TARGET_BLOCK_SIZE as int) {
                Err(e) => Err(e),
                Ok(block) => Ok(Target::decoded(block)),
            },
        }
    }

    /// Resolves the signature found at `signature`.
    pub fn resolve(&self, signature: usize) -> (r: Result<usize, ReadingError>)
        ensures
            r == self.resolved(signature),
    {
        match self.read(signature, 4) {
            Ok(bytes) => read_signature(signature, bytes.as_slice()),
            Err(e) => Err(e),
        }
    }

    /// Reads the zone id.
    pub fn read_zone_id(&self, signature: usize) -> (r: Result<u32, ReadingError>)
        ensures
            r == self.zone_id_at(signature),
    {
        let address = match self.resolve(signature) {
            Ok(address) => address,
            Err(e) => {
                return Err(e);
            },
        };
        match self.read(address, 4) {
            Ok(bytes) => {
                proof {
                    assert(bytes@.subrange(0, 4) =~= bytes@);
                }
                Ok(read_u32_le(bytes.as_slice(), 0))
            },
            Err(e) => Err(e),
        }
    }

    /// Follows a chain of pointers from `address` and reads the
    /// `payload_size` bytes at its end. A null pointer on the way ends the
    /// chain with as many zero bytes; a failed read is an error of its own.
    pub fn follow_chain(&self, address: usize, steps: &Vec<ChainStep>, payload_size: usize) -> (r:
        Result<Vec<u8>, ReadingError>)
        ensures
            match r {
                Ok(bytes) => self.chain_value(address, steps@, payload_size) == Ok::<
                    Seq<u8>,
                    ReadingError,
                >(bytes@),
                Err(e) => self.chain_value(address, steps@, payload_size) == Err::<
                    Seq<u8>,
                    ReadingError,
                >(e),
            },
    {
        let mut at: usize = address;
        let mut i: usize = 0;
        assert(steps@.subrange(0, steps@.len() as int) =~= steps@);
        while i < steps.len()
            invariant
                i <= steps.len(),
                self.chain_value(address, steps@, payload_size) == self.chain_value(
                    at,
                    steps@.subrange(i as int, steps@.len() as int),
                    payload_size,
                ),
            decreases steps.len() - i,
        {
            let step = steps[i];
            let ghost rest = steps@.subrange(i as int, steps@.len() as int);
            proof {
                assert(rest[0] == step);
                assert(rest.drop_first() =~= steps@.subrange(i + 1, steps@.len() as int));
            }
            let bytes = match self.read(at, step.read_size) {
                Ok(bytes) => bytes,
                Err(e) => {
                    return Err(e);
                },
            };
            match follow_link(bytes.as_slice(), step) {
                Ok(ChainLink::Null) => {
                    let nothing = vec![0u8; payload_size];
                    assert(nothing@ =~= zeros(payload_size as int));
                    return Ok(nothing);
                },
                Ok(ChainLink::Next(next)) => {
                    at = next;
                },
                Err(e) => {
                    return Err(e);
                },
            }
            i += 1;
        }
        assert(steps@.subrange(i as int, steps@.len() as int) =~= Seq::<ChainStep>::empty());
        self.read(at, payload_size)
    }

    /// Reads the server's clock.
    pub fn read_server_time(&self, signature: usize) -> (r: Result<u64, ReadingError>)
        ensures
            r == self.server_time_at(signature),
    {
        let address = match self.resolve(signature) {
            Ok(address) => address,
            Err(e) => {
                return Err(e);
            },
        };
        let mut steps: Vec<ChainStep> = Vec::new();
        steps.push(ChainStep { read_size: 8, add_offset: SERVER_TIME_OFFSET_1 });
        steps.push(ChainStep { read_size: 8, add_offset: SERVER_TIME_OFFSET_2 });
        steps.push(ChainStep { read_size: 8, add_offset: SERVER_TIME_OFFSET_3 });
        assert(steps@ =~= server_time_chain());
        match self.follow_chain(address, &steps, 8) {
            Ok(bytes) => {
                proof {
                    self.lemma_chain_value_len(address, server_time_chain(), 8);
                    assert(bytes@.subrange(0, 8) =~= bytes@);
                }
                Ok(read_u64_le(bytes.as_slice(), 0))
            },
            Err(e) => Err(e),
        }
    }

    /// What a chain leads to has the size that was asked for.
    pub proof fn lemma_chain_value_len(
        &self,
        address: usize,
        steps: Seq<ChainStep>,
        payload_size: usize,
    )
        ensures
            self.chain_value(address, steps, payload_size) matches Ok(bytes) ==> bytes.len()
                == payload_size,
        decreases steps.len(),
    {
        if steps.len() == 0 {
            self.lemma_contents_len(address as int, payload_size as int);
        } else {
            match self.contents(address as int, steps[0].read_size as int) {
                Ok(bytes) => match link_of(bytes, steps[0]) {
                    Some(ChainLink::Next(next)) => {
                        self.lemma_chain_value_len(next, steps.drop_first(), payload_size);
                    },
                    _ => {},
                },
                _ => {},
            }
        }
    }

    /// Reads slot `index` of the table of combatants: nothing where the
    /// slot's pointer is null, else the pointer and the combatant that it
    /// points at.
    pub fn read_mob(&self, signature: usize, index: usize) -> (r: Result<
        Option<(u64, Combatant)>,
        ReadingError,
    >)
        ensures
            is_mob_reading(self.mob_at(signature, index), r),
    {
        let table = match self.resolve(signature) {
            Ok(table) => table,
            Err(e) => {
                return Err(e);
            },
        };
        let slot = match mob_slot_address(table, index) {
            Some(slot) => slot,
            None => {
                return Err(ReadingError::ReadingData);
            },
        };
        let bytes = match self.read(slot, 8) {
            Ok(bytes) => bytes,
            Err(e) => {
                return Err(e);
            },
        };
        proof {
            assert(bytes@.subrange(0, 8) =~= bytes@);
        }
        let pointer: u64 = read_u64_le(bytes.as_slice(), 0);
        if pointer == 0 {
            return Ok(None);
        }
        if pointer > usize::MAX as u64 {
            return Err(ReadingError::ReadingProcessMemory);
        }
        match self.read(pointer as usize, COMBATANT_SIZE) {
            Ok(blob) => Ok(Some((pointer, Combatant::from_ffxiv_slice(blob.as_slice())))),
            Err(e) => Err(e),
        }
    }

    /// Reads the three targets.
    pub fn read_target(&self, signature: usize) -> (r: Result<Target, ReadingError>)
        ensures
            r == self.target_at(signature),
    {
        let address = match self.resolve(signature) {
            Ok(address) => address,
            Err(e) => {
                return Err(e);
            },
        };
        match self.read(address, TARGET_BLOCK_SIZE) {
            Ok(block) => match Target::try_from_ffxiv_slice(block.as_slice()) {
                Some(target) => Ok(target),
                None => Err(ReadingError::ReadingData),
            },
            Err(e) => Err(e),
        }
    }
}

/// The three links from the server-time table to the clock.
pub open spec fn server_time_chain() -> Seq<ChainStep> {
    seq![
        ChainStep { read_size: 8, add_offset: SERVER_TIME_OFFSET_1 },
        ChainStep { read_size: 8, add_offset: SERVER_TIME_OFFSET_2 },
        ChainStep { read_size: 8, add_offset: SERVER_TIME_OFFSET_3 },
    ]
}

/// Whether `r` is what reading a slot gives, `in_memory` being what memory
/// holds for the slot: the same failure, the same absence, or the same
/// pointer with the combatant that the bytes hold.
pub open spec fn is_mob_reading(
    in_memory: Result<Option<(u64, Seq<u8>)>, ReadingError>,
    r: Result<Option<(u64, Combatant)>, ReadingError>,
) -> bool {
    match in_memory {
        Err(e) => r == Err::<Option<(u64, Combatant)>, ReadingError>(e),
        Ok(None) => r == Ok::<Option<(u64, Combatant)>, ReadingError>(None),
        Ok(Some((pointer, blob))) => r matches Ok(Some((p, c))) && p == pointer && c.is_decoding_of(
            blob,
        ),
    }
}

/// What one tick of the host's loop gave.
#[derive(Clone, Debug, PartialEq, Eq)]
pub struct TickOutcome {
    /// The packets to send, in order.
    pub packets: Vec<SyncPacket>,
    /// Whether the loop goes on: it ends when the zone id cannot be read.
    pub alive: bool,
}

/// The views of a list of packets.
pub open spec fn packet_views(packets: Seq<SyncPacket>) -> Seq<SyncPacketView> {
    Seq::new(packets.len(), |i: int| packets[i]@)
}

/// The packet, if any, for the server's clock: none where it could not be read.
pub open spec fn server_time_packet_of(read: Result<u64, ReadingError>) -> Seq<SyncPacketView> {
    match read {
        Ok(time) => seq![SyncPacketView::ServerTime(time)],
        Err(_) => Seq::empty(),
    }
}

/// The packet, if any, for the targets: none where they could not be read.
pub open spec fn target_packet_of(read: Result<Target, ReadingError>) -> Seq<SyncPacketView> {
    match read {
        Ok(target) => seq![SyncPacketView::Target(target)],
        Err(_) => Seq::empty(),
    }
}

/// The packet, if any, for slot `index`, `in_memory` being what memory
/// holds for it: an empty-slot packet for a null pointer, the compressed
/// compact form of the combatant for any other, and none where the slot
/// could not be read.
pub open spec fn mob_packet_of(
    in_memory: Result<Option<(u64, Seq<u8>)>, ReadingError>,
    index: u16,
) -> Seq<SyncPacketView> {
    match in_memory {
        Err(_) => Seq::empty(),
        Ok(None) => seq![SyncPacketView::MobNull(index)],
        Ok(Some((pointer, blob))) => seq![
            SyncPacketView::MobUpdate(index, pointer, gzip(wire_of_foreign(blob))),
        ],
    }
}

impl ProcessImage {
    /// The packets for the first `upto` slots of the table of combatants, in
    /// the order of the slots.
    pub open spec fn mob_packets(&self, signature: usize, upto: nat) -> Seq<SyncPacketView>
        decreases upto,
    {
        if upto == 0 {
            Seq::empty()
        } else {
            self.mob_packets(signature, (upto - 1) as nat) + mob_packet_of(
                self.mob_at(signature, (upto - 1) as usize),
                (upto - 1) as u16,
            )
        }
    }

    /// The packets of one tick: the server's clock where it can be read; then
    /// the zone id; then, in a zone, every slot of the table of combatants in
    /// order, and the targets where they can be read. Nothing follows a zone
    /// id that cannot be read.
    pub open spec fn tick_packets(&self, map: SignatureMap) -> Seq<SyncPacketView> {
        server_time_packet_of(self.server_time_at(map.server_time)) + match self.zone_id_at(
            map.zone_id,
        ) {
            Err(_) => Seq::empty(),
            Ok(zone) => seq![SyncPacketView::ZoneID(zone)] + if zone != 0 {
                self.mob_packets(map.mob_array, MOB_SLOTS as nat) + target_packet_of(
                    self.target_at(map.target),
                )
            } else {
                Seq::empty()
            },
        }
    }
}

/// The packet for the server's clock, if it was read.
pub fn server_time_packet(read: Result<u64, ReadingError>) -> (r: Option<SyncPacket>)
    ensures
        match r {
            Some(p) => server_time_packet_of(read) == seq![p@],
            None => server_time_packet_of(read) == Seq::<SyncPacketView>::empty(),
        },
{
    match read {
        Ok(time) => Some(SyncPacket::ServerTime(time)),
        Err(_) => None,
    }
}

/// The packet for the targets, if they were read.
pub fn target_packet(read: Result<Target, ReadingError>) -> (r: Option<SyncPacket>)
    ensures
        match r {
            Some(p) => target_packet_of(read) == seq![p@],
            None => target_packet_of(read) == Seq::<SyncPacketView>::empty(),
        },
{
    match read {
        Ok(target) => Some(SyncPacket::Target(target)),
        Err(_) => None,
    }
}

/// The packet for slot `index`, given what was read of it: none where the
/// read failed, an empty-slot packet where the slot's pointer is null, and
/// else the pointer with the combatant's compressed compact form.
pub fn mob_packet(index: u16, read: &Result<Option<(u64, Combatant)>, ReadingError>) -> (r: Option<
    SyncPacket,
>)
    ensures
        match *read {
            Err(_) => r is None,
            Ok(None) => r matches Some(p) && p@ == SyncPacketView::MobNull(index),
            Ok(Some((pointer, combatant))) => r matches Some(p) && p@ == SyncPacketView::MobUpdate(
                index,
                pointer,
                gzip(combatant.wire_bytes()),
            ),
        },
{
    match read {
        Err(_) => None,
        Ok(None) => Some(SyncPacket::MobNull(index)),
        Ok(Some((pointer, combatant))) => Some(
            SyncPacket::MobUpdate(index, *pointer, combatant.binary_serialize_compressed()),
        ),
    }
}

/// One tick of the host's loop over `image`: reads the server's clock, the
/// zone id and, in a zone, every slot of the table of combatants and the
/// targets, and gives the packets for what was read.
pub fn scan_tick(image: &ProcessImage, map: &SignatureMap) -> (out: TickOutcome)
    ensures
        packet_views(out.packets@) == image.tick_packets(*map),
        out.alive == image.zone_id_at(map.zone_id) is Ok,
{
    let mut packets: Vec<SyncPacket> = Vec::new();
    match server_time_packet(image.read_server_time(map.server_time)) {
        Some(p) => {
            packets.push(p);
        },
        None => {},
    }
    assert(packet_views(packets@) =~= server_time_packet_of(image.server_time_at(map.server_time)));
    let zone: u32 = match image.read_zone_id(map.zone_id) {
        Ok(zone) => zone,
        Err(_) => {
            assert(packet_views(packets@) =~= image.tick_packets(*map));
            return TickOutcome { packets, alive: false };
        },
    };
    packets.push(SyncPacket::ZoneID(zone));
    let ghost head = server_time_packet_of(image.server_time_at(map.server_time)) + seq![
        SyncPacketView::ZoneID(zone),
    ];
    assert(packet_views(packets@) =~= head);
    if zone == 0 {
        assert(packet_views(packets@) =~= image.tick_packets(*map));
        return TickOutcome { packets, alive: true };
    }
    let mut i: usize = 0;
    while i < MOB_SLOTS
        invariant
            i <= MOB_SLOTS,
            packet_views(packets@) == head + image.mob_packets(map.mob_array, i as nat),
        decreases MOB_SLOTS - i,
    {
        let read = image.read_mob(map.mob_array, i);
        let ghost before = packet_views(packets@);
        proof {
            match (image.mob_at(map.mob_array, i), read) {
                (Ok(Some((_, blob))), Ok(Some((_, combatant)))) => {
                    lemma_wire_of_decoded(combatant, blob);
                },
                _ => {},
            }
        }
        match mob_packet(i as u16, &read) {
            Some(p) => {
                packets.push(p);
            },
            None => {},
        }
        assert(packet_views(packets@) =~= before + mob_packet_of(
            image.mob_at(map.mob_array, i),
            i as u16,
        ));
        i += 1;
    }
    let ghost body = packet_views(packets@);
    match target_packet(image.read_target(map.target)) {
        Some(p) => {
            packets.push(p);
        },
        None => {},
    }
    assert(packet_views(packets@) =~= body + target_packet_of(image.target_at(map.target)));
    assert(packet_views(packets@) =~= image.tick_packets(*map));
    TickOutcome { packets, alive: true }
}

/// Where every slot of the table can be read, every slot is reported, in the
/// order of the slots: slot `i` by the `i`-th packet, which is an empty-slot
/// packet where the slot's pointer is null and a combatant packet where it
/// is not.
pub proof fn lemma_every_slot_is_reported(image: ProcessImage, signature: usize, upto: nat)
    requires
        upto <= 65536,
        forall|i: int| 0 <= i < upto ==> (#[trigger] image.mob_at(signature, i as usize)) is Ok,
    ensures
        image.mob_packets(signature, upto).len() == upto,
        forall|i: int|
            0 <= i < upto ==> (#[trigger] image.mob_packets(signature, upto)[i]) == match image.mob_at(
                signature,
                i as usize,
            ) {
                Ok(Some((pointer, blob))) => SyncPacketView::MobUpdate(
                    i as u16,
                    pointer,
                    gzip(wire_of_foreign(blob)),
                ),
                _ => SyncPacketView::MobNull(i as u16),
            },
    decreases upto,
{
    if upto > 0 {
        lemma_every_slot_is_reported(image, signature, (upto - 1) as nat);
        assert(image.mob_at(signature, (upto - 1) as usize) is Ok);
    }
}

/// Whether `found` is what the search for the signature written as `text`
/// gives in `image`.
pub open spec fn is_found_at(image: ProcessImage, text: Seq<u8>, found: Option<usize>) -> bool {
    exists|ranges: Seq<Range<usize>>|
        #![trigger is_wildcard_runs(ranges, text)]
        is_wildcard_runs(ranges, text) && image.is_scan_result(
            hex_value(unwild(text)),
            ranges,
            found,
        )
}

/// Whether `results` is what the search for the seven signatures gives.
pub open spec fn is_scan_of(image: ProcessImage, sigs: Signatures, results: ScanResults) -> bool {
    &&& is_found_at(image, encode_utf8(sigs.target@), results.target)
    &&& is_found_at(image, encode_utf8(sigs.chat_log@), results.chat_log)
    &&& is_found_at(image, encode_utf8(sigs.mob_array@), results.mob_array)
    &&& is_found_at(image, encode_utf8(sigs.party_list@), results.party_list)
    &&& is_found_at(image, encode_utf8(sigs.server_time@), results.server_time)
    &&& is_found_at(image, encode_utf8(sigs.zone_id@), results.zone_id)
    &&& is_found_at(image, encode_utf8(sigs.player@), results.player)
}

/// Whether none of the seven signatures has more bytes than a window.
pub open spec fn fits_window(sigs: Signatures) -> bool {
    &&& encode_utf8(sigs.target@).len() / 2 <= SCAN_SIZE
    &&& encode_utf8(sigs.chat_log@).len() / 2 <= SCAN_SIZE
    &&& encode_utf8(sigs.mob_array@).len() / 2 <= SCAN_SIZE
    &&& encode_utf8(sigs.party_list@).len() / 2 <= SCAN_SIZE
    &&& encode_utf8(sigs.server_time@).len() / 2 <= SCAN_SIZE
    &&& encode_utf8(sigs.zone_id@).len() / 2 <= SCAN_SIZE
    &&& encode_utf8(sigs.player@).len() / 2 <= SCAN_SIZE
}

/// The greater of two lengths.
fn longer(a: usize, b: usize) -> (m: usize)
    ensures
        m >= a,
        m >= b,
        m == a || m == b,
{
    if a >= b {
        a
    } else {
        b
    }
}

/// Looks for the seven signatures in `image`. Where a text is no signature
/// or stands for more bytes than a window, that is a failure to read the
/// signatures; where one is found nowhere, the failure names those that
/// were not found; else the result is the map of the addresses.
pub fn scan_signatures(sigs: &Signatures, image: &ProcessImage) -> (r: Result<
    SignatureMap,
    MemErrorType,
>)
    requires
        image.well_formed(),
    ensures
        !(sigs.well_formed() && fits_window(*sigs)) ==> r == Err::<SignatureMap, MemErrorType>(
            MemErrorType::ReadingSignatureFile,
        ),
        sigs.well_formed() && fits_window(*sigs) ==> exists|results: ScanResults|
            #![trigger is_scan_of(*image, *sigs, results)]
            is_scan_of(*image, *sigs, results) && is_collection_of(results, r),
{
    let target = match try_parse_signature(sigs.target.as_str()) {
        Ok(sig) => sig,
        Err(_) => {
            return Err(MemErrorType::ReadingSignatureFile);
        },
    };
    let chat_log = match try_parse_signature(sigs.chat_log.as_str()) {
        Ok(sig) => sig,
        Err(_) => {
            return Err(MemErrorType::ReadingSignatureFile);
        },
    };
    let mob_array = match try_parse_signature(sigs.mob_array.as_str()) {
        Ok(sig) => sig,
        Err(_) => {
            return Err(MemErrorType::ReadingSignatureFile);
        },
    };
    let party_list = match try_parse_signature(sigs.party_list.as_str()) {
        Ok(sig) => sig,
        Err(_) => {
            return Err(MemErrorType::ReadingSignatureFile);
        },
    };
    let server_time = match try_parse_signature(sigs.server_time.as_str()) {
        Ok(sig) => sig,
        Err(_) => {
            return Err(MemErrorType::ReadingSignatureFile);
        },
    };
    let zone_id = match try_parse_signature(sigs.zone_id.as_str()) {
        Ok(sig) => sig,
        Err(_) => {
            return Err(MemErrorType::ReadingSignatureFile);
        },
    };
    let player = match try_parse_signature(sigs.player.as_str()) {
        Ok(sig) => sig,
        Err(_) => {
            return Err(MemErrorType::ReadingSignatureFile);
        },
    };
    let mut max_sig_len: usize = target.signature_bytes.len();
    max_sig_len = longer(max_sig_len, chat_log.signature_bytes.len());
    max_sig_len = longer(max_sig_len, mob_array.signature_bytes.len());
    max_sig_len = longer(max_sig_len, party_list.signature_bytes.len());
    max_sig_len = longer(max_sig_len, server_time.signature_bytes.len());
    max_sig_len = longer(max_sig_len, zone_id.signature_bytes.len());
    max_sig_len = longer(max_sig_len, player.signature_bytes.len());
    if max_sig_len > SCAN_SIZE {
        return Err(MemErrorType::ReadingSignatureFile);
    }
    let results = ScanResults {
        target: scan(image, &target, max_sig_len),
        chat_log: scan(image, &chat_log, max_sig_len),
        mob_array: scan(image, &mob_array, max_sig_len),
        party_list: scan(image, &party_list, max_sig_len),
        server_time: scan(image, &server_time, max_sig_len),
        zone_id: scan(image, &zone_id, max_sig_len),
        player: scan(image, &player, max_sig_len),
    };
    let r = collect_signatures(&results);
    proof {
        assert(is_wildcard_runs(target.ranges(), encode_utf8(sigs.target@)));
        assert(is_wildcard_runs(chat_log.ranges(), encode_utf8(sigs.chat_log@)));
        assert(is_wildcard_runs(mob_array.ranges(), encode_utf8(sigs.mob_array@)));
        assert(is_wildcard_runs(party_list.ranges(), encode_utf8(sigs.party_list@)));
        assert(is_wildcard_runs(server_time.ranges(), encode_utf8(sigs.server_time@)));
        assert(is_wildcard_runs(zone_id.ranges(), encode_utf8(sigs.zone_id@)));
        assert(is_wildcard_runs(player.ranges(), encode_utf8(sigs.player@)));
        assert(is_scan_of(*image, *sigs, results));
    }
    r
}

} // verus!
