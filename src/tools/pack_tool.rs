use vstd::prelude::*;
use vstd::utf8::encode_utf8;
use crate::protocol::{MqttQos, MqttDup, MqttRetain, MqttCleanSession, MqttWillFlag, TypeKind};

verus! {

/// The largest value a variable-length integer can carry.
pub const MAX_REMAINING_LENGTH: usize = 268435455;

/// The largest byte length of a length-prefixed string.
pub const MAX_STRING_LENGTH: usize = 65535;

/// Variable-length integer: seven bits per byte, least significant group first,
/// the high bit set on every byte but the last.
pub open spec fn spec_vli(n: nat) -> Seq<u8>
    decreases n,
{
    if n < 128 {
        seq![n as u8]
    } else {
        seq![(n % 128 + 128) as u8] + spec_vli(n / 128)
    }
}

/// A 16-bit integer, most significant byte first.
pub open spec fn spec_short(n: nat) -> Seq<u8> {
    seq![(n / 256) as u8, (n % 256) as u8]
}

/// A 32-bit integer, most significant byte first.
pub open spec fn spec_long(n: nat) -> Seq<u8> {
    seq![(n / 16777216) as u8, ((n / 65536) % 256) as u8, ((n / 256) % 256) as u8, (n % 256) as u8]
}

/// A string: its UTF-8 byte length as a 16-bit integer, then the bytes.
#[verifier::opaque]
pub open spec fn spec_str(s: Seq<char>) -> Seq<u8> {
    spec_short(encode_utf8(s).len()) + encode_utf8(s)
}

pub proof fn lemma_str_len(s: Seq<char>)
    ensures
        spec_str(s).len() == 2 + encode_utf8(s).len(),
{
    reveal(spec_str);
}

/// Whether a string fits a 16-bit length prefix.
pub open spec fn str_fits(s: Seq<char>) -> bool {
    encode_utf8(s).len() <= MAX_STRING_LENGTH
}

/// The fixed header: the first byte, then the remaining length.
pub open spec fn spec_header(first: u8, len: nat) -> Seq<u8> {
    seq![first] + spec_vli(len)
}

/// The first byte of a PUBLISH fixed header: `DUP<<3 | QoS<<1 | RETAIN` under the type nibble.
pub open spec fn spec_publish_first_byte(qos: MqttQos, dup: MqttDup, retain: MqttRetain) -> u8 {
    (48 + dup.spec_byte() * 8 + qos.spec_byte() * 2 + retain.spec_byte()) as u8
}

/// The CONNECT flags byte; the will QoS and will retain bits are set only with the will flag.
pub open spec fn spec_connect_flags(
    clean_session: MqttCleanSession,
    will_flag: MqttWillFlag,
    will_qos: MqttQos,
    will_retain: MqttRetain,
    has_username: bool,
    has_password: bool,
) -> u8 {
    let will = will_flag == MqttWillFlag::Enable;
    (clean_session.spec_byte() * 2 + will_flag.spec_byte() * 4 + (if will { will_qos.spec_byte() * 8 } else { 0int })
        + (if will { will_retain.spec_byte() * 32 } else { 0int }) + (if has_password { 64int } else { 0int })
        + (if has_username { 128int } else { 0int })) as u8
}

pub open spec fn vli_len(n: nat) -> nat {
    if n < 128 {
        1
    } else if n < 16384 {
        2
    } else if n < 2097152 {
        3
    } else {
        4
    }
}

pub proof fn lemma_vli_len(n: nat)
    requires
        n <= MAX_REMAINING_LENGTH,
    ensures
        spec_vli(n).len() == vli_len(n),
        1 <= spec_vli(n).len() <= 4,
{
    reveal_with_fuel(spec_vli, 4);
}

/// Encodes `length` as a variable-length integer.
pub fn pack_remaining_length(length: usize) -> (r: Vec<u8>)
    requires
        length <= MAX_REMAINING_LENGTH,
    ensures
        r@ == spec_vli(length as nat),
{
    let mut remaining: Vec<u8> = Vec::new();
    let mut x: usize = length;
    while x >= 128
        invariant
            remaining@ + spec_vli(x as nat) == spec_vli(length as nat),
        decreases x,
    {
        let digit: u8 = (x % 128 + 128) as u8;
        proof {
            let old_r = remaining@;
            assert(spec_vli(x as nat) == seq![digit] + spec_vli((x / 128) as nat));
            assert(old_r + spec_vli(x as nat) =~= old_r.push(digit) + spec_vli((x / 128) as nat));
        }
        remaining.push(digit);
        x = x / 128;
    }
    proof {
        assert(spec_vli(x as nat) == seq![x as u8]);
        assert(remaining@ + seq![x as u8] =~= remaining@.push(x as u8));
    }
    remaining.push(x as u8);
    remaining
}

/// Encodes a 16-bit integer, most significant byte first.
pub fn pack_short_int(n: u16) -> (r: Vec<u8>)
    ensures
        r@ == spec_short(n as nat),
{
    let mut body: Vec<u8> = Vec::new();
    body.push((n / 256) as u8);
    body.push((n % 256) as u8);
    proof {
        assert(body@ =~= spec_short(n as nat));
    }
    body
}

/// Encodes a packet identifier.
pub fn pack_message_id(message_id: u16) -> (r: Vec<u8>)
    ensures
        r@ == spec_short(message_id as nat),
{
    pack_short_int(message_id)
}

/// Encodes a 32-bit integer, most significant byte first.
pub fn pack_long_int(n: u32) -> (r: Vec<u8>)
    ensures
        r@ == spec_long(n as nat),
{
    let mut body: Vec<u8> = Vec::new();
    body.push((n / 16777216) as u8);
    body.push(((n / 65536) % 256) as u8);
    body.push(((n / 256) % 256) as u8);
    body.push((n % 256) as u8);
    proof {
        assert(body@ =~= spec_long(n as nat));
    }
    body
}

/// Appends the bytes of `s` to `v`.
pub fn push_bytes(v: &mut Vec<u8>, s: &[u8])
    ensures
        final(v)@ == old(v)@ + s@,
{
    let mut i: usize = 0;
    while i < s.len()
        invariant
            i <= s@.len(),
            v@ == old(v)@ + s@.subrange(0, i as int),
        decreases s@.len() - i,
    {
        v.push(s[i]);
        i = i + 1;
        proof {
            assert(s@.subrange(0, i as int) =~= s@.subrange(0, i - 1).push(s@[i - 1]));
        }
    }
    proof {
        assert(s@.subrange(0, s@.len() as int) =~= s@);
    }
}

/// Encodes a string with its 16-bit length prefix.
pub fn pack_string(s: &String) -> (r: Vec<u8>)
    requires
        str_fits(s@),
    ensures
        r@ == spec_str(s@),
{
    reveal(spec_str);
    let bytes = s.as_str().as_bytes();
    let mut body = pack_short_int(bytes.len() as u16);
    push_bytes(&mut body, bytes);
    body
}

/// Encodes a fixed header for `header_type` with its reserved flags.
pub fn pack_header(header_type: TypeKind, body_length: usize) -> (r: Vec<u8>)
    requires
        body_length <= MAX_REMAINING_LENGTH,
    ensures
        r@ == spec_header(header_type.spec_header_byte(), body_length as nat),
{
    let mut head: Vec<u8> = Vec::new();
    head.push(header_type.as_header_byte());
    let mut len = pack_remaining_length(body_length);
    head.append(&mut len);
    proof {
        assert(head@ =~= spec_header(header_type.spec_header_byte(), body_length as nat));
    }
    head
}

/// Encodes the fixed header of a PUBLISH packet, flags included.
pub fn pack_publish_header(body_length: usize, qos: MqttQos, dup: MqttDup, retain: MqttRetain) -> (r: Vec<u8>)
    requires
        body_length <= MAX_REMAINING_LENGTH,
    ensures
        r@ == spec_header(spec_publish_first_byte(qos, dup, retain), body_length as nat),
{
    let first: u8 = 48 + dup.as_byte() * 8 + qos.as_byte() * 2 + retain.as_byte();
    let mut head: Vec<u8> = Vec::new();
    head.push(first);
    let mut len = pack_remaining_length(body_length);
    head.append(&mut len);
    proof {
        assert(head@ =~= spec_header(spec_publish_first_byte(qos, dup, retain), body_length as nat));
    }
    head
}

/// The CONNECT flags byte: clean-session at bit 1, will-flag at bit 2, will-qos at bits 3-4,
/// will-retain at bit 5, password at bit 6, username at bit 7. The will QoS and retain are written
/// only when the will flag is set.
pub fn pack_connect_flags(
    clean_session: MqttCleanSession,
    will_flag: MqttWillFlag,
    will_qos: MqttQos,
    will_retain: MqttRetain,
    has_username: bool,
    has_password: bool,
) -> (r: u8)
    ensures
        r == spec_connect_flags(clean_session, will_flag, will_qos, will_retain, has_username, has_password),
{
    let mut flags: u8 = clean_session.as_byte() * 2 + will_flag.as_byte() * 4;
    if will_flag.is_enable() {
        flags = flags + will_qos.as_byte() * 8 + will_retain.as_byte() * 32;
    }
    if has_password {
        flags = flags + 64;
    }
    if has_username {
        flags = flags + 128;
    }
    flags
}

} // verus!
