//! Signatures: byte patterns, written as hexadecimal text with `??` for a
//! byte that may be anything, by which a structure is found in the game's
//! memory.

use crate::utils::is_wild;
use std::ops::Range;
use vstd::prelude::*;
use vstd::string::StringSliceAdditionalSpecFns;
use vstd::utf8::encode_utf8;

verus! {

/// The character `?`.
pub const WILD: u8 = 0x3f;

/// The character `0`.
pub const ZERO_DIGIT: u8 = 0x30;

/// Whether `c` is one of `0`-`9`, `A`-`F`, `a`-`f`.
pub open spec fn is_hex_digit(c: u8) -> bool {
    ||| 0x30 <= c <= 0x39
    ||| 0x41 <= c <= 0x46
    ||| 0x61 <= c <= 0x66
}

/// The value of a hexadecimal digit.
pub open spec fn hex_digit_value(c: u8) -> int {
    if c <= 0x39 {
        c - 0x30
    } else if c <= 0x46 {
        c - 0x41 + 10
    } else {
        c - 0x61 + 10
    }
}

/// Whether `text` is an even number of hexadecimal digits.
pub open spec fn is_hex_text(text: Seq<u8>) -> bool {
    &&& text.len() % 2 == 0
    &&& forall|i: int| 0 <= i < text.len() ==> is_hex_digit(#[trigger] text[i])
}

/// The bytes that hexadecimal text stands for, two digits to a byte.
pub open spec fn hex_value(text: Seq<u8>) -> Seq<u8> {
    Seq::new(
        text.len() / 2,
        |k: int| (16 * hex_digit_value(text[2 * k]) + hex_digit_value(text[2 * k + 1])) as u8,
    )
}

/// Whether the `k`-th pair of characters of `text` is `??`.
pub open spec fn is_wild_pair(text: Seq<u8>, k: int) -> bool {
    &&& 0 <= k < text.len() / 2
    &&& text[2 * k] == WILD
    &&& text[2 * k + 1] == WILD
}

/// Whether the `k`-th pair of characters of `text` is two hexadecimal digits.
pub open spec fn is_hex_pair(text: Seq<u8>, k: int) -> bool {
    &&& 0 <= k < text.len() / 2
    &&& is_hex_digit(text[2 * k])
    &&& is_hex_digit(text[2 * k + 1])
}

/// Whether `text` is a signature: pairs of characters, each pair either two
/// hexadecimal digits or `??`.
pub open spec fn is_signature_text(text: Seq<u8>) -> bool {
    &&& text.len() % 2 == 0
    &&& forall|k: int|
        0 <= k < text.len() / 2 ==> #[trigger] is_wild_pair(text, k) || is_hex_pair(text, k)
}

/// `text` with `0` in place of every `?`.
pub open spec fn unwild(text: Seq<u8>) -> Seq<u8> {
    Seq::new(
        text.len(),
        |i: int|
            if text[i] == WILD {
                ZERO_DIGIT
            } else {
                text[i]
            },
    )
}

/// Whether `ranges` are in order, none empty, none touching the next, and all
/// within `len` bytes.
pub open spec fn ranges_well_formed(ranges: Seq<Range<usize>>, len: int) -> bool {
    &&& forall|i: int| 0 <= i < ranges.len() ==> (#[trigger] ranges[i]).start < ranges[i].end <= len
    &&& forall|i: int, j: int|
        0 <= i < j < ranges.len() ==> (#[trigger] ranges[i]).end < (#[trigger] ranges[j]).start
}

/// Whether `ranges` are the runs of `??` pairs of `text`: in order, each as
/// long as it can be, and a byte position lies in one exactly when its pair
/// is `??`.
pub open spec fn is_wildcard_runs(ranges: Seq<Range<usize>>, text: Seq<u8>) -> bool {
    &&& ranges_well_formed(ranges, text.len() as int / 2)
    &&& forall|k: int| #[trigger] is_wild(ranges, k) <==> is_wild_pair(text, k)
}

/// Why text is not a signature.
#[derive(Clone, Copy, Debug, PartialEq, Eq)]
pub enum SignatureError {
    /// The text has a character that is neither a hexadecimal digit nor `?`,
    /// a `?` beside a digit in one pair, or an odd number of characters.
    Malformed,
}

/// A byte pattern and the ranges of it that match any byte.
#[derive(Clone, Debug, PartialEq, Eq)]
pub struct Signature {
    /// The bytes to look for; zero where wildcarded.
    pub signature_bytes: Vec<u8>,
    /// The wildcarded positions, as ranges in ascending order; `None` where
    /// there is none.
    pub wildcard_ranges: Option<Vec<Range<usize>>>,
}

impl Signature {
    /// The wildcard ranges of `self`, none where the field is absent.
    pub open spec fn ranges(&self) -> Seq<Range<usize>> {
        match self.wildcard_ranges {
            Some(v) => v@,
            None => Seq::empty(),
        }
    }

    /// Whether `self` is the signature that `text` stands for.
    pub open spec fn is_parse_of(&self, text: Seq<u8>) -> bool {
        &&& self.signature_bytes@ == hex_value(unwild(text))
        &&& is_wildcard_runs(self.ranges(), text)
        &&& self.wildcard_ranges matches Some(v) ==> v@.len() > 0
    }

    /// The invariant of a signature: its wildcard ranges lie within its
    /// bytes, in order and apart from each other.
    pub open spec fn well_formed(&self) -> bool {
        &&& ranges_well_formed(self.ranges(), self.signature_bytes@.len() as int)
        &&& self.wildcard_ranges matches Some(v) ==> v@.len() > 0
    }
}

/// `hex::FromHexError`, in which `hex` reports text that it cannot read.
/// Nothing is said of what it holds.
#[verifier::external_type_specification]
#[verifier::external_body]
pub struct ExFromHexError(hex::FromHexError);

/// Calls `hex::decode`, which fails on an odd number of characters and on any
/// character that is not a hexadecimal digit, and else gives one byte for
/// each pair of digits: sixteen times the first plus the second.
#[verifier::external_body]
fn hex_decode(text: &[u8]) -> (r: Result<Vec<u8>, hex::FromHexError>)
    ensures
        r is Ok <==> is_hex_text(text@),
        r matches Ok(bytes) ==> bytes@ == hex_value(text@),
{
    hex::decode(text)
}

/// A position is in `ranges` with one more range exactly when it is in
/// `ranges` or in that range.
proof fn lemma_is_wild_push(ranges: Seq<Range<usize>>, r: Range<usize>, i: int)
    ensures
        is_wild(ranges.push(r), i) <==> (is_wild(ranges, i) || r.start <= i < r.end),
{
    let more = ranges.push(r);
    if is_wild(ranges, i) {
        let k = choose|k: int|
            0 <= k < ranges.len() && (#[trigger] ranges[k]).start <= i < ranges[k].end;
        assert(more[k] == ranges[k]);
    }
    if r.start <= i < r.end {
        assert(more[ranges.len() as int] == r);
    }
    if is_wild(more, i) {
        let k = choose|k: int| 0 <= k < more.len() && (#[trigger] more[k]).start <= i < more[k].end;
        if k < ranges.len() {
            assert(more[k] == ranges[k]);
        }
    }
}

/// Finds the runs of `??` pairs in `text`. Fails exactly when `text` is not a
/// signature.
pub fn wildcard_runs(text: &[u8]) -> (r: Result<Vec<Range<usize>>, SignatureError>)
    ensures
        r is Ok <==> is_signature_text(text@),
        r matches Ok(ranges) ==> is_wildcard_runs(ranges@, text@),
{
    let len: usize = text.len();
    if len % 2 != 0 {
        return Err(SignatureError::Malformed);
    }
    let pairs: usize = len / 2;
    let mut ranges: Vec<Range<usize>> = Vec::new();
    let mut in_run: bool = false;
    let mut start: usize = 0;
    let mut k: usize = 0;
    while k < pairs
        invariant
            k <= pairs,
            len == text@.len(),
            pairs == len / 2,
            text@.len() % 2 == 0,
            in_run ==> start < k,
            forall|j: int| 0 <= j < k ==> #[trigger] is_wild_pair(text@, j) || is_hex_pair(text@, j),
            ranges_well_formed(ranges@, if in_run { start as int - 1 } else { k as int }),
            in_run ==> forall|j: int| start <= j < k ==> is_wild_pair(text@, j),
            forall|j: int|
                0 <= j < (if in_run { start } else { k }) ==> (#[trigger] is_wild(ranges@, j)
                    <==> is_wild_pair(text@, j)),
            ranges@.len() > 0 && !in_run ==> ranges@.last().end < k,
        decreases pairs - k,
    {
        let a: u8 = text[2 * k];
        let b: u8 = text[2 * k + 1];
        if a == WILD && b == WILD {
            if !in_run {
                in_run = true;
                start = k;
            }
        } else if hex_digit(a) && hex_digit(b) {
            if in_run {
                let run = start..k;
                proof {
                    assert forall|j: int| 0 <= j < k + 1 implies (#[trigger] is_wild(
                        ranges@.push(run),
                        j,
                    ) <==> is_wild_pair(text@, j)) by {
                        lemma_is_wild_push(ranges@, run, j);
                        if j >= start {
                            assert(!is_wild(ranges@, j));
                        }
                    }
                }
                ranges.push(run);
                in_run = false;
            }
        } else {
            proof {
                assert(!(is_wild_pair(text@, k as int) || is_hex_pair(text@, k as int)));
            }
            return Err(SignatureError::Malformed);
        }
        k += 1;
    }
    if in_run {
        let run = start..pairs;
        proof {
            assert forall|j: int| #[trigger]
                is_wild(ranges@.push(run), j) <==> is_wild_pair(text@, j) by {
                lemma_is_wild_push(ranges@, run, j);
                if j >= start || j < 0 {
                    assert(!is_wild(ranges@, j));
                }
            }
        }
        ranges.push(run);
    } else {
        proof {
            assert forall|j: int| #[trigger] is_wild(ranges@, j) <==> is_wild_pair(text@, j) by {
                if j >= pairs || j < 0 {
                    assert(!is_wild(ranges@, j));
                }
            }
        }
    }
    Ok(ranges)
}

/// Whether `c` is a hexadecimal digit.
pub fn hex_digit(c: u8) -> (b: bool)
    ensures
        b == is_hex_digit(c),
{
    (0x30 <= c && c <= 0x39) || (0x41 <= c && c <= 0x46) || (0x61 <= c && c <= 0x66)
}

/// `text` with `0` in place of every `?`.
pub fn replace_wildcards(text: &[u8]) -> (out: Vec<u8>)
    ensures
        out@ == unwild(text@),
{
    let mut out: Vec<u8> = Vec::with_capacity(text.len());
    let mut i: usize = 0;
    while i < text.len()
        invariant
            i <= text.len(),
            out@.len() == i,
            forall|j: int| 0 <= j < i ==> out@[j] == unwild(text@)[j],
        decreases text.len() - i,
    {
        if text[i] == WILD {
            out.push(ZERO_DIGIT);
        } else {
            out.push(text[i]);
        }
        i += 1;
    }
    assert(out@ =~= unwild(text@));
    out
}

/// A signature with its wildcards zeroed is hexadecimal text.
pub proof fn lemma_unwild_is_hex(text: Seq<u8>)
    requires
        is_signature_text(text),
    ensures
        is_hex_text(unwild(text)),
{
    let u = unwild(text);
    assert forall|i: int| 0 <= i < u.len() implies is_hex_digit(#[trigger] u[i]) by {
        let k = i / 2;
        assert(is_wild_pair(text, k) || is_hex_pair(text, k));
    }
}

/// Reads a signature from the bytes of its text. Fails exactly when the text
/// is not a signature.
pub fn parse_signature_bytes(text: &[u8]) -> (r: Result<Signature, SignatureError>)
    ensures
        r is Ok <==> is_signature_text(text@),
        r matches Ok(sig) ==> sig.is_parse_of(text@) && sig.well_formed(),
{
    let ranges = match wildcard_runs(text) {
        Ok(ranges) => ranges,
        Err(e) => {
            return Err(e);
        },
    };
    let plain = replace_wildcards(text);
    proof {
        lemma_unwild_is_hex(text@);
    }
    match hex_decode(plain.as_slice()) {
        Ok(signature_bytes) => {
            assert(signature_bytes@.len() == text@.len() / 2);
            let wildcard_ranges = if ranges.len() > 0 {
                Some(ranges)
            } else {
                assert(ranges@ =~= Seq::empty());
                None
            };
            Ok(Signature { signature_bytes, wildcard_ranges })
        },
        Err(_) => Err(SignatureError::Malformed),
    }
}

/// Reads a signature from its text. Fails exactly when the text is not a
/// signature.
pub fn try_parse_signature(text: &str) -> (r: Result<Signature, SignatureError>)
    ensures
        r is Ok <==> is_signature_text(text.spec_bytes()),
        r matches Ok(sig) ==> sig.is_parse_of(text.spec_bytes()) && sig.well_formed(),
{
    parse_signature_bytes(text.as_bytes())
}

/// Reads a signature from its text.
pub fn parse_signature(text: &str) -> (sig: Signature)
    requires
        is_signature_text(text.spec_bytes()),
    ensures
        sig.is_parse_of(text.spec_bytes()),
        sig.well_formed(),
{
    match parse_signature_bytes(text.as_bytes()) {
        Ok(sig) => sig,
        Err(_) => Signature { signature_bytes: Vec::new(), wildcard_ranges: None },
    }
}

/// The runs of `??` pairs in the text of a signature, as ranges of byte
/// positions; `None` where the text has no `??`.
pub fn parse_wildcards(text: &str) -> (r: Option<Vec<Range<usize>>>)
    requires
        is_signature_text(text.spec_bytes()),
    ensures
        r is None <==> forall|k: int| !is_wild_pair(text.spec_bytes(), k),
        r matches Some(ranges) ==> ranges@.len() > 0 && is_wildcard_runs(
            ranges@,
            text.spec_bytes(),
        ),
{
    match wildcard_runs(text.as_bytes()) {
        Ok(ranges) => {
            if ranges.len() > 0 {
                proof {
                    let first = ranges@[0];
                    assert(is_wild(ranges@, first.start as int));
                }
                Some(ranges)
            } else {
                proof {
                    assert forall|k: int| !is_wild_pair(text.spec_bytes(), k) by {
                        assert(!is_wild(ranges@, k));
                    }
                }
                None
            }
        },
        Err(_) => None,
    }
}

/// The text of the seven signatures that the host looks for.
#[derive(Clone, Debug, PartialEq, Eq)]
pub struct Signatures {
    pub target: String,
    pub chat_log: String,
    pub mob_array: String,
    pub party_list: String,
    pub server_time: String,
    pub zone_id: String,
    pub player: String,
}

impl Signatures {
    /// Whether each of the seven texts is a signature.
    pub open spec fn well_formed(&self) -> bool {
        &&& is_signature_text(encode_utf8(self.target@))
        &&& is_signature_text(encode_utf8(self.chat_log@))
        &&& is_signature_text(encode_utf8(self.mob_array@))
        &&& is_signature_text(encode_utf8(self.party_list@))
        &&& is_signature_text(encode_utf8(self.server_time@))
        &&& is_signature_text(encode_utf8(self.zone_id@))
        &&& is_signature_text(encode_utf8(self.player@))
    }

    /// Whether each of the seven texts is a signature.
    pub fn is_well_formed(&self) -> (ok: bool)
        ensures
            ok == self.well_formed(),
    {
        try_parse_signature(self.target.as_str()).is_ok() && try_parse_signature(
            self.chat_log.as_str(),
        ).is_ok() && try_parse_signature(self.mob_array.as_str()).is_ok() && try_parse_signature(
            self.party_list.as_str(),
        ).is_ok() && try_parse_signature(self.server_time.as_str()).is_ok()
            && try_parse_signature(self.zone_id.as_str()).is_ok() && try_parse_signature(
            self.player.as_str(),
        ).is_ok()
    }

    /// The signature of the target set.
    pub fn get_target(&self) -> (sig: Signature)
        requires
            is_signature_text(encode_utf8(self.target@)),
        ensures
            sig.is_parse_of(encode_utf8(self.target@)),
            sig.well_formed(),
    {
        parse_signature(self.target.as_str())
    }

    /// The signature of the chat log.
    pub fn get_chat_log(&self) -> (sig: Signature)
        requires
            is_signature_text(encode_utf8(self.chat_log@)),
        ensures
            sig.is_parse_of(encode_utf8(self.chat_log@)),
            sig.well_formed(),
    {
        parse_signature(self.chat_log.as_str())
    }

    /// The signature of the table of combatants.
    pub fn get_mob_array(&self) -> (sig: Signature)
        requires
            is_signature_text(encode_utf8(self.mob_array@)),
        ensures
            sig.is_parse_of(encode_utf8(self.mob_array@)),
            sig.well_formed(),
    {
        parse_signature(self.mob_array.as_str())
    }

    /// The signature of the party list.
    pub fn get_party_list(&self) -> (sig: Signature)
        requires
            is_signature_text(encode_utf8(self.party_list@)),
        ensures
            sig.is_parse_of(encode_utf8(self.party_list@)),
            sig.well_formed(),
    {
        parse_signature(self.party_list.as_str())
    }

    /// The signature of the server time.
    pub fn get_server_time(&self) -> (sig: Signature)
        requires
            is_signature_text(encode_utf8(self.server_time@)),
        ensures
            sig.is_parse_of(encode_utf8(self.server_time@)),
            sig.well_formed(),
    {
        parse_signature(self.server_time.as_str())
    }

    /// The signature of the zone id.
    pub fn get_zone_id(&self) -> (sig: Signature)
        requires
            is_signature_text(encode_utf8(self.zone_id@)),
        ensures
            sig.is_parse_of(encode_utf8(self.zone_id@)),
            sig.well_formed(),
    {
        parse_signature(self.zone_id.as_str())
    }

    /// The signature of the player.
    pub fn get_player(&self) -> (sig: Signature)
        requires
            is_signature_text(encode_utf8(self.player@)),
        ensures
            sig.is_parse_of(encode_utf8(self.player@)),
            sig.well_formed(),
    {
        parse_signature(self.player.as_str())
    }
}

/// A signature whose only `??` is its `k`-th pair has the one wildcard
/// range from `k` to `k + 1`.
pub proof fn lemma_single_wildcard(ranges: Seq<Range<usize>>, text: Seq<u8>, k: int)
    requires
        is_wildcard_runs(ranges, text),
        is_wild_pair(text, k),
        forall|j: int| j != k ==> !is_wild_pair(text, j),
    ensures
        ranges.len() == 1,
        ranges[0].start == k,
        ranges[0].end == k + 1,
{
    assert(is_wild(ranges, k));
    let at = choose|i: int| 0 <= i < ranges.len() && (#[trigger] ranges[i]).start <= k < ranges[i].end;
    assert forall|i: int| 0 <= i < ranges.len() implies (#[trigger] ranges[i]).start == k
        && ranges[i].end == k + 1 by {
        let r = ranges[i];
        assert(is_wild(ranges, r.start as int));
        assert(is_wild(ranges, r.end - 1));
    }
    if ranges.len() > 1 {
        assert(ranges[0].end < ranges[1].start);
    }
}

/// The wildcard ranges of a signature are determined by its text: two lists
/// of runs of the same text are the same list.
pub proof fn lemma_wildcard_runs_unique(a: Seq<Range<usize>>, b: Seq<Range<usize>>, text: Seq<u8>)
    requires
        is_wildcard_runs(a, text),
        is_wildcard_runs(b, text),
    ensures
        a == b,
{
    if a.len() == 0 {
        if b.len() > 0 {
            assert(is_wild(b, b[0].start as int));
            assert(!is_wild(a, b[0].start as int));
        }
        assert(a =~= b);
    } else {
        lemma_runs_agree(a, b, text, 0);
        lemma_runs_agree(b, a, text, 0);
        assert(a.len() == b.len()) by {
            if a.len() < b.len() {
                lemma_runs_agree(b, a, text, a.len() as int);
            } else if b.len() < a.len() {
                lemma_runs_agree(a, b, text, b.len() as int);
            }
        }
        assert forall|i: int| 0 <= i < a.len() implies a[i] == b[i] by {
            lemma_runs_agree(a, b, text, i);
        }
        assert(a =~= b);
    }
}

/// The `i`-th run of one list of runs is the `i`-th run of any other list of
/// runs of the same text.
proof fn lemma_runs_agree(a: Seq<Range<usize>>, b: Seq<Range<usize>>, text: Seq<u8>, i: int)
    requires
        is_wildcard_runs(a, text),
        is_wildcard_runs(b, text),
        0 <= i < a.len(),
    ensures
        i < b.len(),
        a[i] == b[i],
    decreases i,
{
    if i > 0 {
        lemma_runs_agree(a, b, text, i - 1);
    }
    let r = a[i];
    // the first position of the run is a wildcard, so some run of `b` holds it
    assert(is_wild(a, r.start as int));
    assert(is_wild(b, r.start as int));
    let j = choose|j: int| 0 <= j < b.len() && (#[trigger] b[j]).start <= r.start < b[j].end;
    let q = b[j];
    // `q` starts where `r` starts: the position before `r` is no wildcard
    if q.start < r.start {
        assert(is_wild(b, r.start - 1));
        assert(is_wild(a, r.start - 1));
        let m = choose|m: int| 0 <= m < a.len() && (#[trigger] a[m]).start <= r.start - 1 < a[m].end;
        if m < i {
            assert(a[m].end < a[i].start);
        } else if m > i {
            assert(a[i].end < a[m].start);
        }
    }
    // and ends where `r` ends
    if q.end < r.end {
        assert(is_wild(a, q.end as int));
        assert(is_wild(b, q.end as int));
        let m = choose|m: int| 0 <= m < b.len() && (#[trigger] b[m]).start <= q.end < b[m].end;
        if m < j {
            assert(b[m].end < b[j].start);
        } else if m > j {
            assert(b[j].end < b[m].start);
        }
    }
    if r.end < q.end {
        assert(is_wild(b, r.end as int));
        assert(is_wild(a, r.end as int));
        let m = choose|m: int| 0 <= m < a.len() && (#[trigger] a[m]).start <= r.end < a[m].end;
        if m < i {
            assert(a[m].end < a[i].start);
        } else if m > i {
            assert(a[i].end < a[m].start);
        }
    }
    assert(q.start == r.start && q.end == r.end);
    // `q` is the `i`-th run of `b`
    if j < i {
        assert(b[j] == a[j]);
        assert(a[j].end < a[i].start);
    } else if j > i {
        if i > 0 {
            assert(b[i - 1] == a[i - 1]);
        }
        // the run of `b` at `i` lies before `q`; its start is a wildcard of `a`
        let p = b[i];
        assert(b[i].end < b[j].start);
        assert(is_wild(b, p.start as int));
        assert(is_wild(a, p.start as int));
        let m = choose|m: int| 0 <= m < a.len() && (#[trigger] a[m]).start <= p.start < a[m].end;
        if m < i {
            assert(a[m] == b[m]) by {
                lemma_runs_agree(a, b, text, m);
            }
            assert(b[m].end < b[i].start);
        } else if m > i {
            assert(a[i].end < a[m].start);
        }
    }
}

/// The structures that the host finds by signature.
#[derive(Clone, Copy, Debug, PartialEq, Eq, Hash)]
pub enum SignatureType {
    Target,
    ChatLog,
    MobArray,
    PartyList,
    ServerTime,
    ZoneID,
    Player,
}

/// Why the host could not start reading.
#[derive(Clone, Debug, PartialEq, Eq)]
pub enum MemErrorType {
    /// The file of signatures could not be opened.
    OpeningSignatureFile,
    /// The file of signatures could not be read, or a text in it is no signature.
    ReadingSignatureFile,
    /// These signatures were found nowhere in the game's memory.
    FindingSignature(Vec<SignatureType>),
}

/// The seven kinds in the order in which they are looked for.
pub open spec fn signature_types() -> Seq<SignatureType> {
    seq![
        SignatureType::Target,
        SignatureType::ChatLog,
        SignatureType::MobArray,
        SignatureType::PartyList,
        SignatureType::ServerTime,
        SignatureType::ZoneID,
        SignatureType::Player,
    ]
}

impl SignatureType {
    /// The name under which a kind is reported.
    pub open spec fn label_text(self) -> Seq<char> {
        match self {
            SignatureType::Target => "[Target]"@,
            SignatureType::ChatLog => "[ChatLog]"@,
            SignatureType::MobArray => "[MobArray]"@,
            SignatureType::PartyList => "[PartyList]"@,
            SignatureType::ServerTime => "[ServerTime]"@,
            SignatureType::ZoneID => "[ZoneID]"@,
            SignatureType::Player => "[Player]"@,
        }
    }

    /// The name under which a kind is reported.
    pub fn label(&self) -> (name: &'static str)
        ensures
            name@ == self.label_text(),
    {
        match self {
            SignatureType::Target => "[Target]",
            SignatureType::ChatLog => "[ChatLog]",
            SignatureType::MobArray => "[MobArray]",
            SignatureType::PartyList => "[PartyList]",
            SignatureType::ServerTime => "[ServerTime]",
            SignatureType::ZoneID => "[ZoneID]",
            SignatureType::Player => "[Player]",
        }
    }

    /// The place of a kind in the order in which the kinds are looked for.
    pub open spec fn position(self) -> int {
        match self {
            SignatureType::Target => 0,
            SignatureType::ChatLog => 1,
            SignatureType::MobArray => 2,
            SignatureType::PartyList => 3,
            SignatureType::ServerTime => 4,
            SignatureType::ZoneID => 5,
            SignatureType::Player => 6,
        }
    }
}

/// Where each of the seven signatures was found: for each, the address
/// after its match.
#[derive(Clone, Copy, Debug, PartialEq, Eq)]
pub struct SignatureMap {
    pub target: usize,
    pub chat_log: usize,
    pub mob_array: usize,
    pub party_list: usize,
    pub server_time: usize,
    pub zone_id: usize,
    pub player: usize,
}

impl SignatureMap {
    /// The address found for `kind`.
    pub open spec fn at(&self, kind: SignatureType) -> usize {
        match kind {
            SignatureType::Target => self.target,
            SignatureType::ChatLog => self.chat_log,
            SignatureType::MobArray => self.mob_array,
            SignatureType::PartyList => self.party_list,
            SignatureType::ServerTime => self.server_time,
            SignatureType::ZoneID => self.zone_id,
            SignatureType::Player => self.player,
        }
    }

    /// The address found for `kind`.
    pub fn get(&self, kind: SignatureType) -> (address: usize)
        ensures
            address == self.at(kind),
    {
        match kind {
            SignatureType::Target => self.target,
            SignatureType::ChatLog => self.chat_log,
            SignatureType::MobArray => self.mob_array,
            SignatureType::PartyList => self.party_list,
            SignatureType::ServerTime => self.server_time,
            SignatureType::ZoneID => self.zone_id,
            SignatureType::Player => self.player,
        }
    }
}

/// What the search for the seven signatures gave: for each, the address
/// after its match, or nothing.
#[derive(Clone, Copy, Debug, PartialEq, Eq)]
pub struct ScanResults {
    pub target: Option<usize>,
    pub chat_log: Option<usize>,
    pub mob_array: Option<usize>,
    pub party_list: Option<usize>,
    pub server_time: Option<usize>,
    pub zone_id: Option<usize>,
    pub player: Option<usize>,
}

impl ScanResults {
    /// What the search gave for `kind`.
    pub open spec fn at(&self, kind: SignatureType) -> Option<usize> {
        match kind {
            SignatureType::Target => self.target,
            SignatureType::ChatLog => self.chat_log,
            SignatureType::MobArray => self.mob_array,
            SignatureType::PartyList => self.party_list,
            SignatureType::ServerTime => self.server_time,
            SignatureType::ZoneID => self.zone_id,
            SignatureType::Player => self.player,
        }
    }

    /// Whether every signature was found.
    pub open spec fn is_complete(&self) -> bool {
        forall|kind: SignatureType| (#[trigger] self.at(kind)) is Some
    }

    /// The kinds that were not found, in the order in which they are looked for.
    pub open spec fn missing(&self) -> Seq<SignatureType> {
        lacking(self.target, SignatureType::Target) + lacking(
            self.chat_log,
            SignatureType::ChatLog,
        ) + lacking(self.mob_array, SignatureType::MobArray) + lacking(
            self.party_list,
            SignatureType::PartyList,
        ) + lacking(self.server_time, SignatureType::ServerTime) + lacking(
            self.zone_id,
            SignatureType::ZoneID,
        ) + lacking(self.player, SignatureType::Player)
    }
}

/// `kind` alone where it was not found, nothing where it was.
pub open spec fn lacking(found: Option<usize>, kind: SignatureType) -> Seq<SignatureType> {
    if found is None {
        seq![kind]
    } else {
        Seq::empty()
    }
}

/// Whether `r` is what gathering `results` gives: where every signature was
/// found, the map of their addresses; else the failure that names those
/// that were not, in the order in which they are looked for.
pub open spec fn is_collection_of(results: ScanResults, r: Result<SignatureMap, MemErrorType>) -> bool {
    &&& r is Ok <==> results.is_complete()
    &&& r matches Ok(map) ==> forall|kind: SignatureType| results.at(kind) == Some(map.at(kind))
    &&& r matches Err(e) ==> e matches MemErrorType::FindingSignature(failed) && failed@
        == results.missing() && failed@.len() > 0
}

/// Adds `kind` to `failed` where it was not found.
fn note_missing(failed: &mut Vec<SignatureType>, found: Option<usize>, kind: SignatureType)
    ensures
        final(failed)@ == old(failed)@ + lacking(found, kind),
{
    if found.is_none() {
        failed.push(kind);
        assert(failed@ =~= old(failed)@ + lacking(found, kind));
    } else {
        assert(failed@ =~= old(failed)@ + lacking(found, kind));
    }
}

/// The kinds that `results` lacks, in the order in which they are looked for.
pub fn missing_kinds(results: &ScanResults) -> (failed: Vec<SignatureType>)
    ensures
        failed@ == results.missing(),
{
    let mut failed: Vec<SignatureType> = Vec::new();
    note_missing(&mut failed, results.target, SignatureType::Target);
    assert(failed@ =~= lacking(results.target, SignatureType::Target));
    note_missing(&mut failed, results.chat_log, SignatureType::ChatLog);
    note_missing(&mut failed, results.mob_array, SignatureType::MobArray);
    note_missing(&mut failed, results.party_list, SignatureType::PartyList);
    note_missing(&mut failed, results.server_time, SignatureType::ServerTime);
    note_missing(&mut failed, results.zone_id, SignatureType::ZoneID);
    note_missing(&mut failed, results.player, SignatureType::Player);
    failed
}

/// Results are complete exactly when every one of the seven is there, and
/// then nothing is missing.
pub proof fn lemma_complete_results(results: ScanResults)
    ensures
        results.is_complete() <==> (results.target is Some && results.chat_log is Some
            && results.mob_array is Some && results.party_list is Some && results.server_time
            is Some && results.zone_id is Some && results.player is Some),
        results.is_complete() <==> results.missing().len() == 0,
{
    if results.is_complete() {
        assert(results.at(SignatureType::Target) is Some);
        assert(results.at(SignatureType::ChatLog) is Some);
        assert(results.at(SignatureType::MobArray) is Some);
        assert(results.at(SignatureType::PartyList) is Some);
        assert(results.at(SignatureType::ServerTime) is Some);
        assert(results.at(SignatureType::ZoneID) is Some);
        assert(results.at(SignatureType::Player) is Some);
    }
}

/// Gathers the addresses of the seven signatures. Succeeds exactly when
/// every one was found; else reports those that were not, in the order in
/// which they are looked for.
pub fn collect_signatures(results: &ScanResults) -> (r: Result<SignatureMap, MemErrorType>)
    ensures
        is_collection_of(*results, r),
{
    proof {
        lemma_complete_results(*results);
    }
    match (
        results.target,
        results.chat_log,
        results.mob_array,
        results.party_list,
        results.server_time,
        results.zone_id,
        results.player,
    ) {
        (
            Some(target),
            Some(chat_log),
            Some(mob_array),
            Some(party_list),
            Some(server_time),
            Some(zone_id),
            Some(player),
        ) => {
            let map = SignatureMap {
                target,
                chat_log,
                mob_array,
                party_list,
                server_time,
                zone_id,
                player,
            };
            assert forall|kind: SignatureType| results.at(kind) == Some(map.at(kind)) by {}
            Ok(map)
        },
        _ => Err(MemErrorType::FindingSignature(missing_kinds(results))),
    }
}

} // verus!
