//! The tables that the client publishes, laid out as the game lays out its
//! own: each begins with the signature by which a reader finds it and a zero
//! displacement, so that the data follows at once.

use vstd::prelude::*;

verus! {

/// Number of slots in the table of combatants.
pub const MOB_SLOTS: usize = 421;

/// Whether every byte of `s` is zero.
pub open spec fn all_zero(s: Seq<u8>) -> bool {
    forall|i: int| 0 <= i < s.len() ==> s[i] == 0
}

/// The signature in front of the zone id table.
pub open spec fn zone_id_signature() -> Seq<u8> {
    seq![
        0xf3u8, 0x0f, 0x10, 0x8d, 0x08, 0x04, 0x00, 0x00, 0x4c, 0x8d, 0x85, 0x58,
        0x06, 0x00, 0x00, 0x0f, 0xb7, 0x05,
    ]
}

/// The signature in front of the target table.
pub open spec fn target_signature() -> Seq<u8> {
    seq![
        0x41u8, 0xbc, 0x00, 0x00, 0x00, 0xe0, 0x41, 0xbd, 0x01, 0x00, 0x00, 0x00,
        0x49, 0x3b, 0xc4, 0x75, 0x55, 0x48, 0x8d, 0x0d,
    ]
}

/// The signature in front of the chat log table.
pub open spec fn chat_log_signature() -> Seq<u8> {
    seq![
        0xe8u8, 0x00, 0x00, 0x00, 0x00, 0x85, 0xc0, 0x74, 0x0e, 0x48, 0x8b, 0x0d,
        0x00, 0x00, 0x00, 0x00, 0x33, 0xd2, 0xe8, 0x00, 0x00, 0x00, 0x00, 0x48,
        0x8b, 0x0d,
    ]
}

/// The signature in front of the combatant table.
pub open spec fn mob_array_signature() -> Seq<u8> {
    seq![
        0x48u8, 0x8b, 0x42, 0x08, 0x48, 0xc1, 0xe8, 0x03, 0x3d, 0xa7, 0x01, 0x00,
        0x00, 0x77, 0x24, 0x8b, 0xc0, 0x48, 0x8d, 0x0d,
    ]
}

/// The signature in front of the party list table.
pub open spec fn party_list_signature() -> Seq<u8> {
    seq![
        0x48u8, 0x8d, 0x7c, 0x24, 0x20, 0x66, 0x66, 0x0f, 0x1f, 0x84, 0x00, 0x00,
        0x00, 0x00, 0x00, 0x48, 0x8b, 0x17, 0x48, 0x8d, 0x0d,
    ]
}

/// The signature in front of the server time table.
pub open spec fn server_time_signature() -> Seq<u8> {
    seq![
        0x0fu8, 0xb7, 0xc0, 0x89, 0x47, 0x10, 0x48, 0x8b, 0x0d,
    ]
}

/// The signature in front of the player table.
pub open spec fn player_signature() -> Seq<u8> {
    seq![
        0x83u8, 0xf9, 0xff, 0x74, 0x12, 0x44, 0x8b, 0x04, 0x8e, 0x8b, 0xd3, 0x48,
        0x8d, 0x0d,
    ]
}

/// The zone that the player is in.
#[derive(Clone, Copy, Debug, PartialEq, Eq)]
pub struct ZoneID {
    pub signature: [u8; 18],
    pub offset: [u8; 4],
    pub data: u32,
}

impl ZoneID {
    /// Whether `self` is as it is before anything was received.
    pub open spec fn is_initial(&self) -> bool {
        &&& self.signature@ == zone_id_signature()
        &&& all_zero(self.offset@)
        &&& self.data == 0
    }

    /// The table as it is before anything was received.
    pub fn create() -> (made: ZoneID)
        ensures
            made.is_initial(),
    {
        let made = ZoneID {
            signature: [
                0xf3, 0x0f, 0x10, 0x8d, 0x08, 0x04, 0x00, 0x00, 0x4c, 0x8d, 0x85, 0x58, 0x06, 0x00,
                0x00, 0x0f, 0xb7, 0x05,
            ],
            offset: [0; 4],
            data: 0,
        };
        assert(made.signature@ =~= zone_id_signature());
        made
    }
}

/// The addresses of the records of the three targeted combatants, zero
/// where there is none.
#[derive(Clone, Copy, Debug, PartialEq, Eq)]
pub struct TargetData {
    pub _padding1: [u8; 192],
    pub target: u64,
    pub hovertarget: u64,
    pub _padding2: [u8; 72],
    pub focustarget: u64,
}

impl TargetData {
    /// Whether `self` is as it is before anything was received.
    pub open spec fn is_initial(&self) -> bool {
        &&& all_zero(self._padding1@)
        &&& self.target == 0
        &&& self.hovertarget == 0
        &&& all_zero(self._padding2@)
        &&& self.focustarget == 0
    }

    /// The targets as it is before anything was received.
    pub fn create() -> (made: TargetData)
        ensures
            made.is_initial(),
    {
        let made = TargetData {
            _padding1: [0; 192],
            target: 0,
            hovertarget: 0,
            _padding2: [0; 72],
            focustarget: 0,
        };
        made
    }
}

/// The target table.
#[derive(Clone, Copy, Debug, PartialEq, Eq)]
pub struct Target {
    pub signature: [u8; 20],
    pub offset: [u8; 4],
    pub target_data: TargetData,
}

impl Target {
    /// Whether `self` is as it is before anything was received.
    pub open spec fn is_initial(&self) -> bool {
        &&& self.signature@ == target_signature()
        &&& all_zero(self.offset@)
        &&& self.target_data.is_initial()
    }

    /// The table as it is before anything was received.
    pub fn create() -> (made: Target)
        ensures
            made.is_initial(),
    {
        let made = Target {
            signature: [
                0x41, 0xbc, 0x00, 0x00, 0x00, 0xe0, 0x41, 0xbd, 0x01, 0x00, 0x00, 0x00, 0x49, 0x3b,
                0xc4, 0x75, 0x55, 0x48, 0x8d, 0x0d,
            ],
            offset: [0; 4],
            target_data: TargetData::create(),
        };
        assert(made.signature@ =~= target_signature());
        made
    }
}

/// The bounds of the chat log's two arrays.
#[derive(Clone, Copy, Debug, PartialEq, Eq)]
pub struct ChatLogHeader {
    pub _padding: [u8; 952],
    pub length_array_start: u64,
    pub length_array_end: u64,
    pub _padding2: [u8; 8],
    pub message_array_start: u64,
    pub message_array_end: u64,
    pub _padding3: [u8; 32],
}

impl ChatLogHeader {
    /// Whether `self` is as it is before anything was received.
    pub open spec fn is_initial(&self) -> bool {
        &&& all_zero(self._padding@)
        &&& self.length_array_start == 0
        &&& self.length_array_end == 0
        &&& all_zero(self._padding2@)
        &&& self.message_array_start == 0
        &&& self.message_array_end == 0
        &&& all_zero(self._padding3@)
    }

    /// The header as it is before anything was received.
    pub fn create() -> (made: ChatLogHeader)
        ensures
            made.is_initial(),
    {
        let made = ChatLogHeader {
            _padding: [0; 952],
            length_array_start: 0,
            length_array_end: 0,
            _padding2: [0; 8],
            message_array_start: 0,
            message_array_end: 0,
            _padding3: [0; 32],
        };
        made
    }
}

/// The chat log: a chain of displacements that leads to its header.
#[derive(Clone, Copy, Debug, PartialEq, Eq)]
pub struct ChatLogData {
    pub _header_ptr_map_1: u64,
    pub _header_ptr_map_2: u64,
    pub _padding1: [u8; 80],
    pub _header_ptr_map_3: u64,
    pub _padding2: [u8; 36],
    pub _header_ptr_map_4: u64,
    pub _padding3: [u8; 352],
    pub _header_ptr_map_5: u64,
    pub _padding4: [u8; 32],
    pub header_data: ChatLogHeader,
}

impl ChatLogData {
    /// Whether `self` is as it is before anything was received.
    pub open spec fn is_initial(&self) -> bool {
        &&& self._header_ptr_map_1 == 8
        &&& self._header_ptr_map_2 == 0
        &&& all_zero(self._padding1@)
        &&& self._header_ptr_map_3 == 0
        &&& all_zero(self._padding2@)
        &&& self._header_ptr_map_4 == 0
        &&& all_zero(self._padding3@)
        &&& self._header_ptr_map_5 == 0
        &&& all_zero(self._padding4@)
        &&& self.header_data.is_initial()
    }

    /// The chat log as it is before anything was received.
    pub fn create() -> (made: ChatLogData)
        ensures
            made.is_initial(),
    {
        let made = ChatLogData {
            _header_ptr_map_1: 0x08,
            _header_ptr_map_2: 0x00,
            _padding1: [0; 80],
            _header_ptr_map_3: 0x00,
            _padding2: [0; 36],
            _header_ptr_map_4: 0x00,
            _padding3: [0; 352],
            _header_ptr_map_5: 0x00,
            _padding4: [0; 32],
            header_data: ChatLogHeader::create(),
        };
        made
    }
}

/// The chat log table.
#[derive(Clone, Copy, Debug, PartialEq, Eq)]
pub struct ChatLog {
    pub signature: [u8; 26],
    pub offset: [u8; 4],
    pub chat_log_data: ChatLogData,
}

impl ChatLog {
    /// Whether `self` is as it is before anything was received.
    pub open spec fn is_initial(&self) -> bool {
        &&& self.signature@ == chat_log_signature()
        &&& all_zero(self.offset@)
        &&& self.chat_log_data.is_initial()
    }

    /// The table as it is before anything was received.
    pub fn create() -> (made: ChatLog)
        ensures
            made.is_initial(),
    {
        let made = ChatLog {
            signature: [
                0xe8, 0x00, 0x00, 0x00, 0x00, 0x85, 0xc0, 0x74, 0x0e, 0x48, 0x8b, 0x0d, 0x00, 0x00,
                0x00, 0x00, 0x33, 0xd2, 0xe8, 0x00, 0x00, 0x00, 0x00, 0x48, 0x8b, 0x0d,
            ],
            offset: [0; 4],
            chat_log_data: ChatLogData::create(),
        };
        assert(made.signature@ =~= chat_log_signature());
        made
    }
}

/// The table of combatants: for each slot the address of its record, or zero.
#[derive(Clone, Copy, Debug, PartialEq, Eq)]
pub struct MobArray {
    pub signature: [u8; 20],
    pub offset: [u8; 4],
    pub data: [u64; 421],
}

impl MobArray {
    /// Whether `self` is as it is before anything was received.
    pub open spec fn is_initial(&self) -> bool {
        &&& self.signature@ == mob_array_signature()
        &&& all_zero(self.offset@)
        &&& forall|i: int| 0 <= i < MOB_SLOTS ==> self.data@[i] == 0
    }

    /// The table as it is before anything was received.
    pub fn create() -> (made: MobArray)
        ensures
            made.is_initial(),
    {
        let made = MobArray {
            signature: [
                0x48, 0x8b, 0x42, 0x08, 0x48, 0xc1, 0xe8, 0x03, 0x3d, 0xa7, 0x01, 0x00, 0x00, 0x77,
                0x24, 0x8b, 0xc0, 0x48, 0x8d, 0x0d,
            ],
            offset: [0; 4],
            data: [0; 421],
        };
        assert(made.signature@ =~= mob_array_signature());
        made
    }
}

/// The party list.
#[derive(Clone, Copy, Debug, PartialEq, Eq)]
pub struct PartyList {
    pub signature: [u8; 21],
    pub offset: [u8; 4],
    pub data: [u8; 25600],
}

impl PartyList {
    /// Whether `self` is as it is before anything was received.
    pub open spec fn is_initial(&self) -> bool {
        &&& self.signature@ == party_list_signature()
        &&& all_zero(self.offset@)
        &&& all_zero(self.data@)
    }

    /// The table as it is before anything was received.
    pub fn create() -> (made: PartyList)
        ensures
            made.is_initial(),
    {
        let made = PartyList {
            signature: [
                0x48, 0x8d, 0x7c, 0x24, 0x20, 0x66, 0x66, 0x0f, 0x1f, 0x84, 0x00, 0x00, 0x00, 0x00,
                0x00, 0x48, 0x8b, 0x17, 0x48, 0x8d, 0x0d,
            ],
            offset: [0; 4],
            data: [0; 25600],
        };
        assert(made.signature@ =~= party_list_signature());
        made
    }
}

/// The server's clock: the address of the first of three links that lead to it.
#[derive(Clone, Copy, Debug, PartialEq, Eq)]
pub struct ServerTime {
    pub signature: [u8; 9],
    pub offset: [u8; 4],
    pub ptr: u64,
}

impl ServerTime {
    /// Whether `self` is as it is before anything was received.
    pub open spec fn is_initial(&self) -> bool {
        &&& self.signature@ == server_time_signature()
        &&& all_zero(self.offset@)
        &&& self.ptr == 0
    }

    /// The table as it is before anything was received.
    pub fn create() -> (made: ServerTime)
        ensures
            made.is_initial(),
    {
        let made = ServerTime {
            signature: [
                0x0f, 0xb7, 0xc0, 0x89, 0x47, 0x10, 0x48, 0x8b, 0x0d,
            ],
            offset: [0; 4],
            ptr: 0,
        };
        assert(made.signature@ =~= server_time_signature());
        made
    }
}

/// First link to the server's clock.
#[derive(Clone, Copy, Debug, PartialEq, Eq)]
pub struct ServerTimePart1 {
    pub _padding: [u8; 72],
    pub ptr2: u64,
}

impl ServerTimePart1 {
    /// Whether `self` is as it is before anything was received.
    pub open spec fn is_initial(&self) -> bool {
        &&& all_zero(self._padding@)
        &&& self.ptr2 == 0
    }

    /// The link as it is before anything was received.
    pub fn create() -> (made: ServerTimePart1)
        ensures
            made.is_initial(),
    {
        let made = ServerTimePart1 {
            _padding: [0; 72],
            ptr2: 0,
        };
        made
    }
}

/// Second link to the server's clock.
#[derive(Clone, Copy, Debug, PartialEq, Eq)]
pub struct ServerTimePart2 {
    pub _padding: [u8; 8],
    pub ptr3: u64,
}

impl ServerTimePart2 {
    /// Whether `self` is as it is before anything was received.
    pub open spec fn is_initial(&self) -> bool {
        &&& all_zero(self._padding@)
        &&& self.ptr3 == 0
    }

    /// The link as it is before anything was received.
    pub fn create() -> (made: ServerTimePart2)
        ensures
            made.is_initial(),
    {
        let made = ServerTimePart2 {
            _padding: [0; 8],
            ptr3: 0,
        };
        made
    }
}

/// The server's clock.
#[derive(Clone, Copy, Debug, PartialEq, Eq)]
pub struct ServerTimePart3 {
    pub _padding: [u8; 2116],
    pub data: u64,
}

impl ServerTimePart3 {
    /// Whether `self` is as it is before anything was received.
    pub open spec fn is_initial(&self) -> bool {
        &&& all_zero(self._padding@)
        &&& self.data == 0
    }

    /// The clock as it is before anything was received.
    pub fn create() -> (made: ServerTimePart3)
        ensures
            made.is_initial(),
    {
        let made = ServerTimePart3 {
            _padding: [0; 2116],
            data: 0,
        };
        made
    }
}

/// The player table; only its signature is published.
#[derive(Clone, Copy, Debug, PartialEq, Eq)]
pub struct Player {
    pub signature: [u8; 14],
    pub offset: [u8; 4],
}

impl Player {
    /// Whether `self` is as it is before anything was received.
    pub open spec fn is_initial(&self) -> bool {
        &&& self.signature@ == player_signature()
        &&& all_zero(self.offset@)
    }

    /// The table as it is before anything was received.
    pub fn create() -> (made: Player)
        ensures
            made.is_initial(),
    {
        let made = Player {
            signature: [
                0x83, 0xf9, 0xff, 0x74, 0x12, 0x44, 0x8b, 0x04, 0x8e, 0x8b, 0xd3, 0x48, 0x8d, 0x0d,
            ],
            offset: [0; 4],
        };
        assert(made.signature@ =~= player_signature());
        made
    }
}

/// Everything that the client publishes.
#[derive(Clone, Copy, Debug, PartialEq, Eq)]
pub struct AllMemory {
    pub zone_id: ZoneID,
    pub target: Target,
    pub chat_log: ChatLog,
    pub mob_array: MobArray,
    pub party_list: PartyList,
    pub server_time: ServerTime,
    pub player: Player,
}

impl AllMemory {
    /// Whether every table is as it is before anything was received.
    pub open spec fn is_initial(&self) -> bool {
        &&& self.zone_id.is_initial()
        &&& self.target.is_initial()
        &&& self.chat_log.is_initial()
        &&& self.mob_array.is_initial()
        &&& self.party_list.is_initial()
        &&& self.server_time.is_initial()
        &&& self.player.is_initial()
    }

    /// Whether each table begins with its signature and a zero displacement.
    pub open spec fn has_signatures(&self) -> bool {
        &&& self.zone_id.signature@ == zone_id_signature()
        &&& all_zero(self.zone_id.offset@)
        &&& self.target.signature@ == target_signature()
        &&& all_zero(self.target.offset@)
        &&& self.chat_log.signature@ == chat_log_signature()
        &&& all_zero(self.chat_log.offset@)
        &&& self.mob_array.signature@ == mob_array_signature()
        &&& all_zero(self.mob_array.offset@)
        &&& self.party_list.signature@ == party_list_signature()
        &&& all_zero(self.party_list.offset@)
        &&& self.server_time.signature@ == server_time_signature()
        &&& all_zero(self.server_time.offset@)
        &&& self.player.signature@ == player_signature()
        &&& all_zero(self.player.offset@)
    }

    /// The tables as they are before anything was received.
    pub fn create() -> (made: AllMemory)
        ensures
            made.is_initial(),
            made.has_signatures(),
    {
        AllMemory {
            zone_id: ZoneID::create(),
            target: Target::create(),
            chat_log: ChatLog::create(),
            mob_array: MobArray::create(),
            party_list: PartyList::create(),
            server_time: ServerTime::create(),
            player: Player::create(),
        }
    }
}

} // verus!
