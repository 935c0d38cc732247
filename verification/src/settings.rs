//! Validation of textual configuration into a well-formed CAN frame
//! descriptor: hexadecimal identifier parsing with range checks, and payload
//! decoding into a fixed 8-byte buffer.

use vstd::prelude::*;

use crate::ensure_result::ResultEnsure;

verus! {

/// Why a descriptor could not be built from the configuration text.
#[derive(Debug)]
pub enum SettingsError {
    /// The named text is not well-formed hexadecimal (or does not fit in 32
    /// bits, for an identifier).
    ParseError { text: String },
    /// An identifier exceeds the largest value of the selected identifier
    /// space; both the value and the bound are carried for reporting.
    RangeError { value: u32, max: u32 },
    /// The payload text has odd length, so it does not align to whole bytes.
    AlignmentError,
    /// The payload text encodes more than 8 bytes.
    TooLongError,
}

/// Is `c` a hexadecimal digit?
pub open spec fn is_hex_digit(c: char) -> bool {
    ||| ('0' as u32) <= (c as u32) <= ('9' as u32)
    ||| ('a' as u32) <= (c as u32) <= ('f' as u32)
    ||| ('A' as u32) <= (c as u32) <= ('F' as u32)
}

/// Numeric value of a hexadecimal digit (0 for a non-digit, so that the
/// function is total).
pub open spec fn hex_digit_value(c: char) -> int {
    if ('0' as u32) <= (c as u32) <= ('9' as u32) {
        (c as u32) - ('0' as u32)
    } else if ('a' as u32) <= (c as u32) <= ('f' as u32) {
        (c as u32) - ('a' as u32) + 10
    } else if ('A' as u32) <= (c as u32) <= ('F' as u32) {
        (c as u32) - ('A' as u32) + 10
    } else {
        0
    }
}

/// Every character of `s` is a hexadecimal digit.
pub open spec fn all_hex(s: Seq<char>) -> bool {
    forall|i: int| 0 <= i < s.len() ==> is_hex_digit(#[trigger] s[i])
}

/// The unsigned value of `s` read as base-16 text, most significant digit
/// first.
pub open spec fn hex_value(s: Seq<char>) -> int
    decreases s.len(),
{
    if s.len() == 0 {
        0
    } else {
        hex_value(s.drop_last()) * 16 + hex_digit_value(s.last())
    }
}

/// `s` is non-empty, entirely hexadecimal, and its value fits in 32 bits:
/// exactly the texts accepted as identifiers, before any range check.
pub open spec fn hex_parses(s: Seq<char>) -> bool {
    s.len() > 0 && all_hex(s) && hex_value(s) <= u32::MAX
}

/// The value of hex text is never negative.
proof fn lemma_hex_value_nonneg(s: Seq<char>)
    ensures
        hex_value(s) >= 0,
    decreases s.len(),
{
    if s.len() > 0 {
        lemma_hex_value_nonneg(s.drop_last());
    }
}

/// A prefix of a hex text never has a larger value than the whole.
proof fn lemma_hex_value_prefix(s: Seq<char>, i: int)
    requires
        0 <= i <= s.len(),
    ensures
        hex_value(s.take(i)) <= hex_value(s),
    decreases s.len() - i,
{
    if i < s.len() {
        lemma_hex_value_nonneg(s.take(i));
        assert(s.take(i + 1).drop_last() =~= s.take(i));
        assert(hex_value(s.take(i + 1)) == hex_value(s.take(i)) * 16 + hex_digit_value(
            s.take(i + 1).last(),
        ));
        lemma_hex_value_prefix(s, i + 1);
    } else {
        assert(s.take(i) =~= s);
    }
}

/// Largest identifier admissible in the chosen identifier space:
/// 29 bits when extended, 11 bits when standard.
pub open spec fn max_id(extended: bool) -> u32 {
    if extended {
        0x1FFF_FFFF
    } else {
        0x7FF
    }
}

impl AppSettings {
    /// Largest identifier admissible in the chosen identifier space.
    pub fn get_max_id(extended: bool) -> (r: u32)
        ensures
            r == max_id(extended),
    {
        if extended {
            assert((1u32 << 29u32) == 0x2000_0000u32) by (bit_vector);
            (1u32 << 29u32) - 1
        } else {
            assert((1u32 << 11u32) == 0x800u32) by (bit_vector);
            (1u32 << 11u32) - 1
        }
    }

    /// Decodes hexadecimal payload text into `data`, two characters per byte,
    /// left to right, and sets `len` to the number of bytes decoded. On any
    /// failure neither `data` nor `len` is changed: the parse is atomic.
    pub fn read_hex_bytes(input: &str, data: &mut [u8; 8], len: &mut usize) -> (r: Result<
        (),
        SettingsError,
    >)
        ensures
            r is Ok <==> payload_ok(input@),
            input@.len() > 16 ==> r == Err::<(), SettingsError>(SettingsError::TooLongError),
            input@.len() <= 16 && input@.len() % 2 != 0 ==> r == Err::<(), SettingsError>(
                SettingsError::AlignmentError,
            ),
            input@.len() <= 16 && input@.len() % 2 == 0 && !payload_ok(input@) ==> (r matches Err(
                SettingsError::ParseError { text: t },
            ) && (exists|k: int|
                #[trigger] first_bad_chunk(input@, k) && t@ == input@.subrange(2 * k, 2 * k + 2))),
            !payload_ok(input@) ==> final(data)@ == old(data)@ && *final(len) == *old(len),
            payload_ok(input@) ==> ({
                &&& *final(len) == input@.len() / 2
                &&& final(data)@.subrange(0, input@.len() as int / 2) == payload_bytes(input@)
                &&& forall|j: int| input@.len() / 2 <= j < 8 ==> final(data)@[j] == old(data)@[j]
            }),
    {
        let n = input.unicode_len();
        if n > 16 {
            return Err(SettingsError::TooLongError);
        }
        if n % 2 != 0 {
            return Err(SettingsError::AlignmentError);
        }
        let m = n / 2;
        let mut i: usize = 0;
        while i < m
            invariant
                0 <= i <= m,
                m == input@.len() / 2,
                n == input@.len(),
                n <= 16,
                n % 2 == 0,
                forall|j: int| 0 <= j < i ==> #[trigger] chunk_is_hex(input@, j),
            decreases m - i,
        {
            let c1 = input.get_char(2 * i);
            let c2 = input.get_char(2 * i + 1);
            if !is_hex_char(c1) || !is_hex_char(c2) {
                let chunk = input.substring_char(2 * i, 2 * i + 2).to_owned();
                proof {
                    assert(first_bad_chunk(input@, i as int));
                }
                return Err(SettingsError::ParseError { text: chunk });
            }
            i = i + 1;
        }
        let mut i: usize = 0;
        while i < m
            invariant
                0 <= i <= m,
                m == input@.len() / 2,
                n == input@.len(),
                n <= 16,
                n % 2 == 0,
                payload_ok(input@),
                forall|j: int| 0 <= j < i ==> data@[j] == payload_byte(input@, j),
                forall|j: int| i <= j < 8 ==> data@[j] == old(data)@[j],
            decreases m - i,
        {
            let c1 = input.get_char(2 * i);
            let c2 = input.get_char(2 * i + 1);
            proof {
                assert(chunk_is_hex(input@, i as int));
            }
            let b: u8 = hex_char_value(c1) * 16 + hex_char_value(c2);
            data[i] = b;
            i = i + 1;
        }
        *len = m;
        proof {
            assert(data@.subrange(0, input@.len() as int / 2) =~= payload_bytes(input@));
        }
        Ok(())
    }
}

/// Parses base-16 text into a 32-bit value; `None` exactly when the text is
/// empty, holds a non-hexadecimal character, or overflows 32 bits.
fn hex_to_u32(text: &str) -> (r: Option<u32>)
    ensures
        r is Some <==> hex_parses(text@),
        r is Some ==> r->0 == hex_value(text@),
{
    let n = text.unicode_len();
    if n == 0 {
        return None;
    }
    let mut acc: u32 = 0;
    let mut i: usize = 0;
    while i < n
        invariant
            0 <= i <= n,
            n == text@.len(),
            all_hex(text@.take(i as int)),
            acc == hex_value(text@.take(i as int)),
        decreases n - i,
    {
        let c = text.get_char(i);
        let cv = c as u32;
        let d: u32 = if 48 <= cv && cv <= 57 {
            cv - 48
        } else if 97 <= cv && cv <= 102 {
            cv - 97 + 10
        } else if 65 <= cv && cv <= 70 {
            cv - 65 + 10
        } else {
            proof {
                assert(('0' as u32) == 48 && ('9' as u32) == 57);
                assert(!is_hex_digit(text@[i as int]));
            }
            return None;
        };
        proof {
            assert(is_hex_digit(text@[i as int]));
            assert(d == hex_digit_value(text@[i as int]));
            assert(text@.take(i + 1).drop_last() =~= text@.take(i as int));
        }
        if acc >= 0x1000_0000 {
            proof {
                assert(hex_value(text@.take(i + 1)) == acc * 16 + d);
                lemma_hex_value_prefix(text@, i + 1);
            }
            return None;
        }
        acc = acc * 16 + d;
        i = i + 1;
    }
    proof {
        assert(text@.take(n as int) =~= text@);
    }
    Some(acc)
}

/// Both characters of the `i`-th two-character chunk of `s` are hex digits.
pub open spec fn chunk_is_hex(s: Seq<char>, i: int) -> bool {
    is_hex_digit(s[2 * i]) && is_hex_digit(s[2 * i + 1])
}

/// The byte encoded by the `i`-th two-character chunk of `s`.
pub open spec fn payload_byte(s: Seq<char>, i: int) -> u8 {
    (hex_digit_value(s[2 * i]) * 16 + hex_digit_value(s[2 * i + 1])) as u8
}

/// `s` decodes to a valid payload: even length, at most 8 bytes, every chunk
/// hexadecimal.
pub open spec fn payload_ok(s: Seq<char>) -> bool {
    &&& s.len() % 2 == 0
    &&& s.len() <= 16
    &&& forall|i: int| 0 <= i < s.len() / 2 ==> #[trigger] chunk_is_hex(s, i)
}

/// The bytes `s` decodes to, chunk by chunk, left to right.
pub open spec fn payload_bytes(s: Seq<char>) -> Seq<u8> {
    Seq::new((s.len() / 2) as nat, |i: int| payload_byte(s, i))
}

/// Chunk `k` of `s` is the leftmost chunk that is not hexadecimal.
pub open spec fn first_bad_chunk(s: Seq<char>, k: int) -> bool {
    &&& 0 <= k < s.len() / 2
    &&& !chunk_is_hex(s, k)
    &&& forall|j: int| 0 <= j < k ==> #[trigger] chunk_is_hex(s, j)
}

/// Is `c` a hexadecimal digit?
fn is_hex_char(c: char) -> (b: bool)
    ensures
        b == is_hex_digit(c),
{
    let cv = c as u32;
    (48 <= cv && cv <= 57) || (97 <= cv && cv <= 102) || (65 <= cv && cv <= 70)
}

/// Numeric value of a hexadecimal digit.
fn hex_char_value(c: char) -> (v: u8)
    requires
        is_hex_digit(c),
    ensures
        v == hex_digit_value(c),
{
    let cv = c as u32;
    if 48 <= cv && cv <= 57 {
        (cv - 48) as u8
    } else if 97 <= cv && cv <= 102 {
        (cv - 97 + 10) as u8
    } else {
        (cv - 65 + 10) as u8
    }
}

/// Parses `text` as a hexadecimal identifier and checks it against the
/// selected identifier space: `ParseError` on malformed or overflowing text,
/// `RangeError` when the value exceeds `max_id(extended)`.
pub fn parse_identifier(text: &str, extended: bool) -> (r: Result<u32, SettingsError>)
    ensures
        r is Ok <==> hex_parses(text@) && hex_value(text@) <= max_id(extended),
        r is Ok ==> r->Ok_0 == hex_value(text@),
        !hex_parses(text@) ==> (r matches Err(SettingsError::ParseError { text: t }) && t@
            == text@),
        hex_parses(text@) && hex_value(text@) > max_id(extended) ==> (r matches Err(
            SettingsError::RangeError { value, max },
        ) && value == hex_value(text@) && max == max_id(extended)),
{
    let max = AppSettings::get_max_id(extended);
    let in_range = (|x: &u32| -> (b: bool)
        ensures
            b == (*x <= max),
        {
            *x <= max
        });
    let out_of_range = (|x: &u32| -> (e: SettingsError)
        ensures
            (e == SettingsError::RangeError { value: *x, max }),
        {
            SettingsError::RangeError { value: *x, max }
        });
    match hex_to_u32(text) {
        None => Err(SettingsError::ParseError { text: text.to_owned() }),
        Some(value) => Ok(value).ensure(in_range, out_of_range),
    }
}

/// Raw textual configuration, as handed over by the command-line layer.
#[derive(Debug)]
pub struct Cli {
    /// CAN identifier of the message to be sent, as hexadecimal text.
    pub can_id: String,
    /// Payload of the message to be sent, as hexadecimal text.
    pub data: String,
    /// Use extended (29-bit) identifiers for `can_id` and `trigger`?
    pub extended: bool,
    /// CAN identifier that triggers the configured message, as hexadecimal
    /// text.
    pub trigger: String,
    /// CAN interface to use.
    pub iface: String,
}

/// `text` is accepted as an identifier in the chosen identifier space.
pub open spec fn identifier_ok(text: Seq<char>, extended: bool) -> bool {
    hex_parses(text) && hex_value(text) <= max_id(extended)
}

/// The error a rejected identifier produces: `ParseError` on malformed text,
/// `RangeError` on a value beyond the identifier space.
pub open spec fn identifier_error(text: Seq<char>, extended: bool, e: SettingsError) -> bool {
    if !hex_parses(text) {
        e matches SettingsError::ParseError { text: t } && t@ == text
    } else {
        e matches SettingsError::RangeError { value, max } && value == hex_value(text) && max
            == max_id(extended)
    }
}

/// The error a rejected payload text produces: over-long before unaligned
/// before the first non-hexadecimal chunk.
pub open spec fn payload_error(s: Seq<char>, e: SettingsError) -> bool {
    if s.len() > 16 {
        e == SettingsError::TooLongError
    } else if s.len() % 2 != 0 {
        e == SettingsError::AlignmentError
    } else {
        e matches SettingsError::ParseError { text: t } && (exists|k: int|
            #[trigger] first_bad_chunk(s, k) && t@ == s.subrange(2 * k, 2 * k + 2))
    }
}

/// All three text fields of the configuration are accepted.
pub open spec fn parse_ok(cli: Cli) -> bool {
    &&& identifier_ok(cli.can_id@, cli.extended)
    &&& identifier_ok(cli.trigger@, cli.extended)
    &&& payload_ok(cli.data@)
}

/// The descriptor `s` is exactly what the configuration text `cli` describes.
pub open spec fn settings_match(cli: Cli, s: AppSettings) -> bool {
    &&& s.can_id == hex_value(cli.can_id@)
    &&& s.trigger_can_id == hex_value(cli.trigger@)
    &&& s.extended == cli.extended
    &&& s.iface@ == cli.iface@
    &&& s.len == cli.data@.len() / 2
    &&& s.data@.subrange(0, cli.data@.len() as int / 2) == payload_bytes(cli.data@)
    &&& forall|j: int| cli.data@.len() / 2 <= j < 8 ==> s.data@[j] == 0
}

/// A validated frame descriptor: identifiers are within the range selected by
/// `extended`, and `len` marks the valid prefix of the 8-byte payload buffer.
#[derive(Debug)]
pub struct AppSettings {
    /// Identifier of the frame to transmit.
    pub can_id: u32,
    /// Payload buffer; only the first `len` bytes are meaningful.
    pub data: [u8; 8],
    /// Number of valid bytes at the start of `data`.
    pub len: usize,
    /// Identifier that arms transmission when observed on the bus.
    pub trigger_can_id: u32,
    /// Selects the 29-bit (extended) or 11-bit (standard) identifier space.
    pub extended: bool,
    /// Name of the bus device to open.
    pub iface: String,
}

impl AppSettings {
    /// Invariant of a successfully constructed descriptor.
    pub open spec fn wf(self) -> bool {
        &&& self.can_id <= max_id(self.extended)
        &&& self.trigger_can_id <= max_id(self.extended)
        &&& self.len <= 8
    }

    /// Validates the configuration text and assembles a descriptor.
    /// Validation is fail-fast, in the order transmit identifier, trigger
    /// identifier, payload: the first rejected field decides the error.
    pub fn parse(cli: &Cli) -> (r: Result<AppSettings, SettingsError>)
        ensures
            r is Ok <==> parse_ok(*cli),
            r is Ok ==> settings_match(*cli, r->Ok_0) && r->Ok_0.wf(),
            !identifier_ok(cli.can_id@, cli.extended) ==> (r matches Err(e) && identifier_error(
                cli.can_id@,
                cli.extended,
                e,
            )),
            identifier_ok(cli.can_id@, cli.extended) && !identifier_ok(cli.trigger@, cli.extended)
                ==> (r matches Err(e) && identifier_error(cli.trigger@, cli.extended, e)),
            identifier_ok(cli.can_id@, cli.extended) && identifier_ok(cli.trigger@, cli.extended)
                && !payload_ok(cli.data@) ==> (r matches Err(e) && payload_error(cli.data@, e)),
    {
        let extended = cli.extended;
        let can_id = match parse_identifier(cli.can_id.as_str(), extended) {
            Ok(v) => v,
            Err(e) => {
                return Err(e);
            },
        };
        let trigger_can_id = match parse_identifier(cli.trigger.as_str(), extended) {
            Ok(v) => v,
            Err(e) => {
                return Err(e);
            },
        };
        let mut data: [u8; 8] = [0u8, 0u8, 0u8, 0u8, 0u8, 0u8, 0u8, 0u8];
        let mut len: usize = 0;
        match Self::read_hex_bytes(cli.data.as_str(), &mut data, &mut len) {
            Ok(_) => {},
            Err(e) => {
                return Err(e);
            },
        }
        Ok(
            AppSettings {
                can_id,
                data,
                len,
                trigger_can_id,
                extended,
                iface: cli.iface.clone(),
            },
        )
    }
}

/// `s` is a hexadecimal rendering of the byte sequence `b`, two characters
/// per byte.
pub open spec fn is_hex_encoding_of(s: Seq<char>, b: Seq<u8>) -> bool {
    &&& s.len() == 2 * b.len()
    &&& forall|i: int|
        0 <= i < b.len() ==> #[trigger] chunk_is_hex(s, i) && payload_byte(s, i) == b[i]
}

/// Round trip: a hexadecimal rendering of at most 8 bytes is a valid payload
/// text and decodes back to exactly those bytes.
pub proof fn lemma_payload_round_trip(s: Seq<char>, b: Seq<u8>)
    requires
        is_hex_encoding_of(s, b),
        b.len() <= 8,
    ensures
        payload_ok(s),
        payload_bytes(s) == b,
{
    assert forall|i: int| 0 <= i < b.len() implies payload_bytes(s)[i] == b[i] by {
        assert(chunk_is_hex(s, i));
    }
    assert(payload_bytes(s) =~= b);
}

/// Building a descriptor twice from identical configuration text yields
/// identical descriptors: the result is a function of the text alone.
pub proof fn lemma_parse_idempotent(cli1: Cli, cli2: Cli, s1: AppSettings, s2: AppSettings)
    requires
        cli1.can_id@ == cli2.can_id@,
        cli1.data@ == cli2.data@,
        cli1.extended == cli2.extended,
        cli1.trigger@ == cli2.trigger@,
        cli1.iface@ == cli2.iface@,
        cli1.data@.len() <= 16,
        settings_match(cli1, s1),
        settings_match(cli2, s2),
    ensures
        s1.can_id == s2.can_id,
        s1.data@ == s2.data@,
        s1.len == s2.len,
        s1.trigger_can_id == s2.trigger_can_id,
        s1.extended == s2.extended,
        s1.iface@ == s2.iface@,
{
    let m = cli1.data@.len() as int / 2;
    assert forall|j: int| 0 <= j < 8 implies s1.data@[j] == s2.data@[j] by {
        if j < m {
            assert(s1.data@.subrange(0, m)[j] == s1.data@[j]);
            assert(s2.data@.subrange(0, m)[j] == s2.data@[j]);
        }
    }
    assert(s1.data@ =~= s2.data@);
}

} // verus!
