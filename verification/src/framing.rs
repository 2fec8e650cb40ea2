//! The framing protocol spoken over the transport: one logical message
//! per physical read or write, in a tag-length-delimited binary format.
//!
//! A message is a sequence of fields.  Each field starts with a varint
//! key whose low three bits are the wire type and whose remaining bits
//! are the field number.  This subsystem writes three length-delimited
//! fields: the packet payload (field 1), the attribution string
//! (field 2, inbound only) and the intercept-configuration blob
//! (field 3, control messages).  A field whose value is empty is not
//! written at all, and a decoder reports an absent field as empty.
//! Unknown fields of any wire type decode without error and are
//! ignored, so independently deployed peers can extend the format.

use vstd::prelude::*;

use vstd::string::StrSliceExecFns;
use vstd::utf8::{
    decode_utf8, encode_utf8, encode_utf8_decode_utf8, encode_utf8_valid_utf8, valid_utf8,
};

use crate::MAX_PACKET_SIZE;
use crate::intercept_conf::InterceptConf;

verus! {

/// Size of the transport exchange buffer: the largest packet plus the
/// framing allowance for one field key and a three-byte length.
pub const IPC_BUF_SIZE: usize = MAX_PACKET_SIZE + 4;

/// Field key for the packet payload (field 1, length-delimited).
pub const PAYLOAD_KEY: u8 = 0x0A;

/// Field key for the attribution string (field 2, length-delimited).
pub const ATTRIBUTION_KEY: u8 = 0x12;

/// Field key for the intercept-configuration blob (field 3,
/// length-delimited).
pub const CONF_KEY: u8 = 0x1A;

/// Longest accepted varint, in bytes.
pub const VARINT_MAX_BYTES: usize = 10;

/// Why a buffer could not be decoded, or a message not encoded.
#[derive(Debug, PartialEq, Eq, Structural, Clone, Copy)]
pub enum FrameError {
    /// The buffer is not a well-formed message: a truncated field, a
    /// varint that never ends, an unsupported wire type, or an
    /// attribution field that is not UTF-8.
    Malformed,
    /// The encoded message would not fit the fixed transport buffer.
    Oversized,
}

/// Little-endian base-128 encoding of `n`, low group first, with the
/// continuation bit set on every byte but the last.
pub open spec fn varint(n: nat) -> Seq<u8>
    decreases n,
{
    if n < 128 {
        seq![n as u8]
    } else {
        seq![(n % 128 + 128) as u8] + varint(n / 128)
    }
}

/// Reads one varint from the front of `b`: the value and the number of
/// bytes consumed.  `fuel` bounds the accepted length; a varint longer
/// than `fuel` bytes (or a truncated one) yields `None`.
pub open spec fn take_varint(b: Seq<u8>, fuel: nat) -> Option<(nat, int)>
    decreases fuel,
{
    if fuel == 0 || b.len() == 0 {
        None
    } else if b[0] < 128 {
        Some((b[0] as nat, 1))
    } else {
        match take_varint(b.skip(1), (fuel - 1) as nat) {
            None => None,
            Some((v, k)) => Some(((b[0] - 128) as nat + 128 * v, k + 1)),
        }
    }
}

/// 128 to the `k`: the first value a `k`-byte varint cannot reach.
pub open spec fn pow128(k: nat) -> nat
    decreases k,
{
    if k == 0 {
        1
    } else {
        128 * pow128((k - 1) as nat)
    }
}

/// One encoded field: key byte, varint length, value bytes.
pub open spec fn field_enc(key: u8, data: Seq<u8>) -> Seq<u8> {
    seq![key] + varint(data.len()) + data
}

/// A field that is omitted when its value is empty.
pub open spec fn opt_field_enc(key: u8, data: Seq<u8>) -> Seq<u8> {
    if data.len() == 0 {
        seq![]
    } else {
        field_enc(key, data)
    }
}

/// The encoding of a data message: payload then attribution bytes.
pub open spec fn encode_data_spec(payload: Seq<u8>, attribution: Seq<u8>) -> Seq<u8> {
    opt_field_enc(PAYLOAD_KEY, payload) + opt_field_enc(ATTRIBUTION_KEY, attribution)
}

/// The encoding of a control message: the configuration blob alone.
pub open spec fn encode_control_spec(conf: Seq<u8>) -> Seq<u8> {
    opt_field_enc(CONF_KEY, conf)
}

/// The three field values a decoded message carries; absent fields are
/// empty.
#[verifier::ext_equal]
pub struct WireFields {
    pub payload: Seq<u8>,
    pub attribution: Seq<u8>,
    pub conf: Seq<u8>,
}

/// A message with no fields.
pub open spec fn empty_fields() -> WireFields {
    WireFields { payload: seq![], attribution: seq![], conf: seq![] }
}

/// `acc` with the value of field number `field` replaced; an unknown
/// field number changes nothing.
pub open spec fn update_field(acc: WireFields, field: nat, data: Seq<u8>) -> WireFields {
    if field == 1 {
        WireFields { payload: data, ..acc }
    } else if field == 2 {
        WireFields { attribution: data, ..acc }
    } else if field == 3 {
        WireFields { conf: data, ..acc }
    } else {
        acc
    }
}

/// The message-level parse: reads fields until the buffer is exhausted,
/// later occurrences of a field replacing earlier ones.  Wire types 0
/// (varint), 1 (eight bytes) and 5 (four bytes) are skipped; any other
/// unknown wire type, or a field that runs past the end of the buffer,
/// is a parse failure.  The bound checks on consumed counts can never
/// fail for values `take_varint` returns; they keep the recursion
/// visibly shrinking.
pub open spec fn parse_fields(b: Seq<u8>, acc: WireFields) -> Option<WireFields>
    decreases b.len(),
{
    if b.len() == 0 {
        Some(acc)
    } else {
        match take_varint(b, VARINT_MAX_BYTES as nat) {
            None => None,
            Some((key, k)) => {
                if k < 1 || k > b.len() {
                    None
                } else {
                    let rest = b.skip(k);
                    let wire = key % 8;
                    let field = key / 8;
                    if wire == 2 {
                        match take_varint(rest, VARINT_MAX_BYTES as nat) {
                            None => None,
                            Some((len, k2)) => {
                                if k2 < 1 || len + k2 > rest.len() {
                                    None
                                } else {
                                    let data = rest.subrange(k2, k2 + len);
                                    let rem = rest.skip(k2 + len);
                                    parse_fields(rem, update_field(acc, field, data))
                                }
                            },
                        }
                    } else if wire == 0 {
                        match take_varint(rest, VARINT_MAX_BYTES as nat) {
                            None => None,
                            Some((_, k2)) => {
                                if k2 < 1 || k2 > rest.len() {
                                    None
                                } else {
                                    parse_fields(rest.skip(k2), acc)
                                }
                            },
                        }
                    } else if wire == 1 {
                        if rest.len() < 8 {
                            None
                        } else {
                            parse_fields(rest.skip(8), acc)
                        }
                    } else if wire == 5 {
                        if rest.len() < 4 {
                            None
                        } else {
                            parse_fields(rest.skip(4), acc)
                        }
                    } else {
                        None
                    }
                }
            },
        }
    }
}

/// What a received buffer means, if anything: the parsed field values.
pub open spec fn decode_spec(b: Seq<u8>) -> Option<WireFields> {
    parse_fields(b, empty_fields())
}

/// A decoded buffer is a well-formed message whose attribution bytes
/// are UTF-8.
pub open spec fn decodes_ok(b: Seq<u8>) -> bool {
    decode_spec(b) matches Some(f) && valid_utf8(f.attribution)
}

/// One logical message, after decoding: a data message carrying one
/// packet with optional attribution, or a control message carrying an
/// intercept-configuration blob.
#[derive(Debug)]
pub enum WireMessage {
    Data { payload: Vec<u8>, attribution: Option<String> },
    Control { conf: Vec<u8> },
}

/// A varint round-trips: parsing an encoding (with anything appended)
/// yields the encoded value and consumes exactly the encoding.
proof fn lemma_take_varint_roundtrip(n: nat, rest: Seq<u8>, fuel: nat)
    requires
        1 <= fuel,
        n < pow128(fuel),
    ensures
        take_varint(varint(n) + rest, fuel) == Some((n, varint(n).len() as int)),
    decreases fuel,
{
    let b = varint(n) + rest;
    if n < 128 {
        assert(varint(n) == seq![n as u8]);
        assert(b[0] == n as u8);
    } else {
        if fuel == 1 {
            reveal_with_fuel(pow128, 2);
            assert(false);
        }
        let byte = (n % 128 + 128) as u8;
        assert(varint(n) == seq![byte] + varint(n / 128));
        assert(b[0] == byte && byte >= 128);
        assert(b.skip(1) =~= varint(n / 128) + rest);
        assert(pow128(fuel) == 128 * pow128((fuel - 1) as nat));
        lemma_take_varint_roundtrip(n / 128, rest, (fuel - 1) as nat);
        assert((byte - 128) as nat + 128 * (n / 128) == n);
    }
}

/// Parsing one well-formed field updates the accumulator and moves on.
proof fn lemma_parse_field_step(key: u8, data: Seq<u8>, rest: Seq<u8>, acc: WireFields)
    requires
        8 <= key < 128,
        key % 8 == 2,
        data.len() < pow128(VARINT_MAX_BYTES as nat),
    ensures
        parse_fields(field_enc(key, data) + rest, acc) == parse_fields(
            rest,
            update_field(acc, (key / 8) as nat, data),
        ),
{
    let b = field_enc(key, data) + rest;
    assert(b[0] == key);
    assert(take_varint(b, VARINT_MAX_BYTES as nat) == Some((key as nat, 1int)));
    let rest1 = b.skip(1);
    assert(rest1 =~= varint(data.len()) + (data + rest));
    lemma_take_varint_roundtrip(data.len(), data + rest, VARINT_MAX_BYTES as nat);
    let vl = varint(data.len()).len() as int;
    assert(vl >= 1);
    assert(take_varint(rest1, VARINT_MAX_BYTES as nat) == Some((data.len(), vl)));
    assert(rest1.subrange(vl, vl + data.len()) =~= data);
    assert(rest1.skip(vl + data.len()) =~= rest);
    assert((key as nat) % 8 == 2);
    assert((key as nat) / 8 == ((key / 8) as nat));
}

/// A UTF-8 encoding is empty only for the empty character sequence.
proof fn lemma_encode_utf8_empty(chars: Seq<char>)
    requires
        encode_utf8(chars).len() == 0,
    ensures
        chars.len() == 0,
{
    if chars.len() > 0 {
        vstd::utf8::encode_utf8_valid_utf8(chars);
        vstd::utf8::encode_utf8_decode_utf8(chars);
        assert(decode_utf8(encode_utf8(chars)).len() == 0);
    }
}

/// Round-trip law for data messages: decoding the encoding of any
/// payload and attribution gives back exactly that payload and
/// attribution, and no configuration blob.  The length bounds are the
/// machine limits every in-memory payload and attribution satisfy.
pub proof fn lemma_data_round_trip(payload: Seq<u8>, attribution: Seq<char>)
    requires
        payload.len() <= usize::MAX,
        encode_utf8(attribution).len() <= usize::MAX,
    ensures
        ({
            let f = decode_spec(encode_data_spec(payload, encode_utf8(attribution)));
            &&& f is Some
            &&& f->Some_0.payload == payload
            &&& valid_utf8(f->Some_0.attribution)
            &&& decode_utf8(f->Some_0.attribution) == attribution
            &&& f->Some_0.conf == Seq::<u8>::empty()
        }),
{
    broadcast use encode_utf8_valid_utf8, encode_utf8_decode_utf8;

    let ab = encode_utf8(attribution);
    let enc = encode_data_spec(payload, ab);
    reveal_with_fuel(pow128, 11);
    assert(payload.len() < pow128(VARINT_MAX_BYTES as nat));
    assert(ab.len() < pow128(VARINT_MAX_BYTES as nat));
    let acc0 = empty_fields();
    if payload.len() == 0 && ab.len() == 0 {
        assert(enc =~= Seq::<u8>::empty());
        assert(decode_spec(enc) == Some(acc0));
        lemma_encode_utf8_empty(attribution);
    } else if payload.len() == 0 {
        assert(enc =~= field_enc(ATTRIBUTION_KEY, ab) + Seq::<u8>::empty());
        lemma_parse_field_step(ATTRIBUTION_KEY, ab, Seq::<u8>::empty(), acc0);
        let acc1 = update_field(acc0, (ATTRIBUTION_KEY / 8) as nat, ab);
        assert(parse_fields(Seq::<u8>::empty(), acc1) == Some(acc1));
        assert(acc1.payload == payload);
    } else if ab.len() == 0 {
        assert(enc =~= field_enc(PAYLOAD_KEY, payload) + Seq::<u8>::empty());
        lemma_parse_field_step(PAYLOAD_KEY, payload, Seq::<u8>::empty(), acc0);
        let acc1 = update_field(acc0, (PAYLOAD_KEY / 8) as nat, payload);
        assert(parse_fields(Seq::<u8>::empty(), acc1) == Some(acc1));
        lemma_encode_utf8_empty(attribution);
        assert(decode_utf8(acc1.attribution) =~= attribution);
    } else {
        assert(enc =~= field_enc(PAYLOAD_KEY, payload) + field_enc(ATTRIBUTION_KEY, ab));
        lemma_parse_field_step(
            PAYLOAD_KEY,
            payload,
            field_enc(ATTRIBUTION_KEY, ab),
            acc0,
        );
        let acc1 = update_field(acc0, (PAYLOAD_KEY / 8) as nat, payload);
        assert(field_enc(ATTRIBUTION_KEY, ab) =~= field_enc(ATTRIBUTION_KEY, ab)
            + Seq::<u8>::empty());
        lemma_parse_field_step(ATTRIBUTION_KEY, ab, Seq::<u8>::empty(), acc1);
        let acc2 = update_field(acc1, (ATTRIBUTION_KEY / 8) as nat, ab);
        assert(parse_fields(Seq::<u8>::empty(), acc2) == Some(acc2));
    }
}

/// The buffer invariant of the wire format: a data frame carrying a
/// packet the stack accepts — at most the maximum packet size, with no
/// attribution on the outbound path — always fits the fixed transport
/// buffer.  Oversized frames can therefore only arise from payloads no
/// valid packet produces.
pub proof fn lemma_data_frame_fits(payload: Seq<u8>)
    requires
        payload.len() <= MAX_PACKET_SIZE,
    ensures
        encode_data_spec(payload, Seq::<u8>::empty()).len() <= IPC_BUF_SIZE,
{
    if payload.len() > 0 {
        reveal_with_fuel(pow128, 4);
        lemma_varint_len_le(payload.len(), 3);
    }
}

/// Every power of 128 is positive.
proof fn lemma_pow128_positive(k: nat)
    ensures
        pow128(k) >= 1,
    decreases k,
{
    if k > 0 {
        lemma_pow128_positive((k - 1) as nat);
    }
}

/// Powers of 128 grow with the exponent.
proof fn lemma_pow128_le(a: nat, b: nat)
    requires
        a <= b,
    ensures
        pow128(a) <= pow128(b),
    decreases b,
{
    if a < b {
        lemma_pow128_le(a, (b - 1) as nat);
        lemma_pow128_positive((b - 1) as nat);
    }
}

/// A value below the `k`-th power of 128 has a varint encoding of at
/// most `k` bytes.
proof fn lemma_varint_len_le(n: nat, k: nat)
    requires
        k >= 1,
        n < pow128(k),
    ensures
        varint(n).len() <= k,
    decreases k,
{
    if n >= 128 {
        if k == 1 {
            reveal_with_fuel(pow128, 2);
            assert(pow128(1) == 128);
        } else {
            lemma_varint_len_le(n / 128, (k - 1) as nat);
        }
    }
}

/// Ten bytes of varint cover every machine-sized value.
proof fn lemma_usize_below_pow128_10(n: usize)
    ensures
        (n as nat) < pow128(10),
        varint(n as nat).len() <= 10,
{
    reveal_with_fuel(pow128, 11);
    assert(pow128(10) == 0x400000000000000000);
    lemma_varint_len_le(n as nat, 10);
}

/// Reads one varint starting at `start`; `fuel` bytes at most.
fn read_varint_rec(buf: &[u8], start: usize, fuel: usize) -> (r: Option<(u128, usize)>)
    requires
        start <= buf@.len(),
        fuel <= VARINT_MAX_BYTES,
    ensures
        match r {
            Some(p) => {
                &&& take_varint(buf@.skip(start as int), fuel as nat) == Some(
                    (p.0 as nat, p.1 - start as int),
                )
                &&& start < p.1 <= buf@.len()
                &&& (p.0 as nat) < pow128(fuel as nat)
            },
            None => take_varint(buf@.skip(start as int), fuel as nat) is None,
        },
    decreases fuel,
{
    if fuel == 0 || start >= buf.len() {
        return None;
    }
    let b0 = buf[start];
    if b0 < 128 {
        proof {
            assert(buf@.skip(start as int)[0] == buf@[start as int]);
            lemma_pow128_positive((fuel - 1) as nat);
            assert(pow128(fuel as nat) == 128 * pow128((fuel - 1) as nat));
        }
        Some((b0 as u128, start + 1))
    } else {
        proof {
            assert(buf@.skip(start as int)[0] == buf@[start as int]);
            assert(buf@.skip(start as int).skip(1) =~= buf@.skip(start as int + 1));
        }
        match read_varint_rec(buf, start + 1, fuel - 1) {
            None => None,
            Some((v, end)) => {
                proof {
                    lemma_pow128_le((fuel - 1) as nat, 9);
                    reveal_with_fuel(pow128, 10);
                    assert(pow128(9) == 0x8000000000000000);
                    assert(pow128(fuel as nat) == 128 * pow128((fuel - 1) as nat));
                }
                Some(((b0 - 128) as u128 + 128 * v, end))
            },
        }
    }
}

/// Reads one varint starting at `start`, with the full length budget.
fn read_varint(buf: &[u8], start: usize) -> (r: Option<(u128, usize)>)
    requires
        start <= buf@.len(),
    ensures
        match r {
            Some(p) => {
                &&& take_varint(buf@.skip(start as int), VARINT_MAX_BYTES as nat) == Some(
                    (p.0 as nat, p.1 - start as int),
                )
                &&& start < p.1 <= buf@.len()
            },
            None => take_varint(buf@.skip(start as int), VARINT_MAX_BYTES as nat) is None,
        },
{
    read_varint_rec(buf, start, VARINT_MAX_BYTES)
}

/// Copies `buf[from..to]` into a fresh vector.
pub(crate) fn copy_range(buf: &[u8], from: usize, to: usize) -> (r: Vec<u8>)
    requires
        from <= to <= buf@.len(),
    ensures
        r@ == buf@.subrange(from as int, to as int),
{
    let mut out: Vec<u8> = Vec::new();
    let mut i: usize = from;
    while i < to
        invariant
            from <= i <= to <= buf@.len(),
            out@ == buf@.subrange(from as int, i as int),
        decreases to - i,
    {
        out.push(buf[i]);
        proof {
            assert(out@ =~= buf@.subrange(from as int, i + 1 as int));
        }
        i = i + 1;
    }
    out
}

/// Relies on `String::from_utf8`: it succeeds exactly on valid UTF-8
/// input and returns the string those bytes encode.
#[verifier::external_body]
pub(crate) fn string_from_utf8(bytes: Vec<u8>) -> (r: Option<String>)
    ensures
        match r {
            Some(s) => valid_utf8(bytes@) && s@ == decode_utf8(bytes@),
            None => !valid_utf8(bytes@),
        },
{
    String::from_utf8(bytes).ok()
}

/// Parses a received buffer into its three field values.  Succeeds
/// exactly when the buffer is a well-formed message.
pub(crate) fn parse_wire(buf: &[u8]) -> (r: Result<(Vec<u8>, Vec<u8>, Vec<u8>), FrameError>)
    ensures
        match r {
            Ok(t) => decode_spec(buf@) == Some(
                WireFields { payload: t.0@, attribution: t.1@, conf: t.2@ },
            ),
            Err(e) => decode_spec(buf@) is None && e == FrameError::Malformed,
        },
{
    let ghost full = buf@;
    let mut payload: Vec<u8> = Vec::new();
    let mut attribution: Vec<u8> = Vec::new();
    let mut conf: Vec<u8> = Vec::new();
    let mut pos: usize = 0;
    proof {
        assert(full.skip(0) =~= full);
        assert(WireFields { payload: payload@, attribution: attribution@, conf: conf@ }
            =~= empty_fields());
    }
    while pos < buf.len()
        invariant
            pos <= buf@.len(),
            buf@ == full,
            parse_fields(full, empty_fields()) == parse_fields(
                full.skip(pos as int),
                WireFields { payload: payload@, attribution: attribution@, conf: conf@ },
            ),
        decreases buf@.len() - pos,
    {
        let ghost acc = WireFields { payload: payload@, attribution: attribution@, conf: conf@ };
        let ghost b = full.skip(pos as int);
        let (key, after_key) = match read_varint(buf, pos) {
            None => {
                return Err(FrameError::Malformed);
            },
            Some(p) => p,
        };
        proof {
            assert(b.skip(after_key - pos as int) =~= full.skip(after_key as int));
        }
        let wire = key % 8;
        if wire == 2 {
            let (len, after_len) = match read_varint(buf, after_key) {
                None => {
                    return Err(FrameError::Malformed);
                },
                Some(p) => p,
            };
            proof {
                assert(full.skip(after_key as int).skip(after_len - after_key as int)
                    =~= full.skip(after_len as int));
            }
            if len > (buf.len() - after_len) as u128 {
                return Err(FrameError::Malformed);
            }
            let len_us: usize = len as usize;
            let data = copy_range(buf, after_len, after_len + len_us);
            proof {
                assert(full.skip(after_key as int).subrange(
                    after_len - after_key as int,
                    after_len - after_key as int + len_us as int,
                ) =~= full.subrange(after_len as int, after_len as int + len_us as int));
                assert(full.skip(after_key as int).skip(
                    after_len - after_key as int + len_us as int,
                ) =~= full.skip(after_len as int + len_us as int));
            }
            let field = key / 8;
            if field == 1 {
                payload = data;
            } else if field == 2 {
                attribution = data;
            } else if field == 3 {
                conf = data;
            }
            pos = after_len + len_us;
        } else if wire == 0 {
            let (_skipped, after_val) = match read_varint(buf, after_key) {
                None => {
                    return Err(FrameError::Malformed);
                },
                Some(p) => p,
            };
            proof {
                assert(full.skip(after_key as int).skip(after_val - after_key as int)
                    =~= full.skip(after_val as int));
            }
            pos = after_val;
        } else if wire == 1 {
            if buf.len() - after_key < 8 {
                return Err(FrameError::Malformed);
            }
            proof {
                assert(full.skip(after_key as int).skip(8) =~= full.skip(after_key as int + 8));
            }
            pos = after_key + 8;
        } else if wire == 5 {
            if buf.len() - after_key < 4 {
                return Err(FrameError::Malformed);
            }
            proof {
                assert(full.skip(after_key as int).skip(4) =~= full.skip(after_key as int + 4));
            }
            pos = after_key + 4;
        } else {
            return Err(FrameError::Malformed);
        }
    }
    proof {
        assert(full.skip(pos as int) =~= Seq::<u8>::empty());
    }
    Ok((payload, attribution, conf))
}

/// Decodes one received buffer into a logical message.  A buffer whose
/// configuration field is present is a control message; any other
/// well-formed buffer is a data message, its attribution `None` when
/// the field is absent.  Fails exactly on buffers that are not
/// well-formed messages — the caller must never guess packet
/// boundaries from raw bytes.
pub fn decode(buf: &[u8]) -> (r: Result<WireMessage, FrameError>)
    ensures
        match r {
            Ok(m) => {
                &&& decodes_ok(buf@)
                &&& ({
                    let f = decode_spec(buf@)->Some_0;
                    match m {
                        WireMessage::Control { conf } => f.conf.len() > 0 && conf@ == f.conf,
                        WireMessage::Data { payload, attribution } => {
                            &&& f.conf.len() == 0
                            &&& payload@ == f.payload
                            &&& match attribution {
                                Some(s) => f.attribution.len() > 0 && s@ == decode_utf8(
                                    f.attribution,
                                ),
                                None => f.attribution.len() == 0,
                            }
                        },
                    }
                })
            },
            Err(e) => !decodes_ok(buf@) && e == FrameError::Malformed,
        },
{
    let (payload, attribution, conf) = parse_wire(buf)?;
    let attribution = if attribution.len() == 0 {
        proof {
            assert(valid_utf8(attribution@));
        }
        None
    } else {
        match string_from_utf8(attribution) {
            None => {
                return Err(FrameError::Malformed);
            },
            Some(s) => Some(s),
        }
    };
    if conf.len() > 0 {
        Ok(WireMessage::Control { conf })
    } else {
        Ok(WireMessage::Data { payload, attribution })
    }
}

/// Appends the varint encoding of `n`.
fn push_varint(out: &mut Vec<u8>, n: usize)
    ensures
        final(out)@ == old(out)@ + varint(n as nat),
{
    let ghost base = old(out)@;
    let ghost n0 = n as nat;
    let mut n = n;
    while n >= 128
        invariant
            out@ + varint(n as nat) == base + varint(n0),
        decreases n,
    {
        let byte: u8 = (n % 128 + 128) as u8;
        proof {
            assert(varint(n as nat) == seq![byte] + varint(n as nat / 128));
            assert((out@ + seq![byte]) + varint(n as nat / 128) =~= out@ + (seq![byte] + varint(
                n as nat / 128,
            )));
        }
        out.push(byte);
        n = n / 128;
    }
    proof {
        assert(varint(n as nat) == seq![n as u8]);
        assert(out@ + seq![n as u8] =~= out@ + varint(n as nat));
    }
    out.push(n as u8);
}

/// Number of bytes the varint encoding of `n` takes.
fn varint_len(n: usize) -> (r: usize)
    ensures
        r == varint(n as nat).len(),
        1 <= r <= VARINT_MAX_BYTES,
{
    proof {
        lemma_usize_below_pow128_10(n);
    }
    let ghost n0 = n as nat;
    let mut n = n;
    let mut count: usize = 1;
    while n >= 128
        invariant
            1 <= count,
            varint(n0).len() == count - 1 + varint(n as nat).len(),
            varint(n0).len() <= VARINT_MAX_BYTES,
        decreases n,
    {
        proof {
            assert(varint(n as nat).len() == 1 + varint((n as nat) / 128).len());
        }
        n = n / 128;
        count = count + 1;
    }
    proof {
        assert(varint(n as nat).len() == 1);
    }
    count
}

/// Appends one field: key byte, varint length, value bytes.
pub(crate) fn push_field(out: &mut Vec<u8>, key: u8, data: &Vec<u8>)
    ensures
        final(out)@ == old(out)@ + field_enc(key, data@),
{
    out.push(key);
    push_varint(out, data.len());
    out.extend_from_slice(data.as_slice());
    proof {
        assert(out@ =~= old(out)@ + field_enc(key, data@));
    }
}

/// Encodes a data message.  Attribution flows only inbound, so the
/// outbound task encodes with an empty attribution; the encoder is
/// nonetheless total so the helper side of the protocol is stated too.
/// Fails exactly when the encoded message would overflow the transport
/// buffer — an oversized payload is a hard error, never a truncation.
pub fn encode_data(payload: &Vec<u8>, attribution: &str) -> (r: Result<Vec<u8>, FrameError>)
    ensures
        match r {
            Ok(v) => {
                &&& v@ == encode_data_spec(payload@, encode_utf8(attribution@))
                &&& v@.len() <= IPC_BUF_SIZE
            },
            Err(e) => {
                &&& e == FrameError::Oversized
                &&& encode_data_spec(payload@, encode_utf8(attribution@)).len() > IPC_BUF_SIZE
            },
        },
{
    let attribution_bytes = attribution.as_bytes_vec();
    let payload_size: u128 = if payload.len() == 0 {
        0
    } else {
        1 + varint_len(payload.len()) as u128 + payload.len() as u128
    };
    let attribution_size: u128 = if attribution_bytes.len() == 0 {
        0
    } else {
        1 + varint_len(attribution_bytes.len()) as u128 + attribution_bytes.len() as u128
    };
    if payload_size + attribution_size > IPC_BUF_SIZE as u128 {
        return Err(FrameError::Oversized);
    }
    let mut out: Vec<u8> = Vec::new();
    if payload.len() > 0 {
        push_field(&mut out, PAYLOAD_KEY, payload);
    }
    if attribution_bytes.len() > 0 {
        push_field(&mut out, ATTRIBUTION_KEY, &attribution_bytes);
    }
    proof {
        assert(out@ =~= encode_data_spec(payload@, encode_utf8(attribution@)));
    }
    Ok(out)
}

/// Encodes a control message carrying an intercept-configuration blob.
/// Fails exactly when the blob would overflow the transport buffer.
pub fn encode_control(conf: &InterceptConf) -> (r: Result<Vec<u8>, FrameError>)
    ensures
        match r {
            Ok(v) => {
                &&& v@ == encode_control_spec(conf@)
                &&& v@.len() <= IPC_BUF_SIZE
            },
            Err(e) => {
                &&& e == FrameError::Oversized
                &&& encode_control_spec(conf@).len() > IPC_BUF_SIZE
            },
        },
{
    let blob = conf.as_bytes();
    let size: u128 = if blob.len() == 0 {
        0
    } else {
        1 + varint_len(blob.len()) as u128 + blob.len() as u128
    };
    if size > IPC_BUF_SIZE as u128 {
        return Err(FrameError::Oversized);
    }
    let mut out: Vec<u8> = Vec::new();
    if blob.len() > 0 {
        push_field(&mut out, CONF_KEY, blob);
    }
    proof {
        assert(out@ =~= encode_control_spec(conf@));
    }
    Ok(out)
}

} // verus!
