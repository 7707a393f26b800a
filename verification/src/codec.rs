//! The wire format for interface records.
//!
//! A record is framed as five fields, each preceded by its field-name marker
//! (the UTF-8 bytes of the name): strings are a little-endian 8-byte length
//! followed by their UTF-8 bytes, booleans one byte, and the address list an
//! 8-byte count followed by its strings. Every field is always present — an
//! empty string or list is encoded with length zero, never omitted.
//!
//! Encoding and decoding are verified against the same specification, and
//! decoding an encoded record reproduces every field exactly.

use vstd::prelude::*;

use vstd::bytes::{
    lemma_auto_spec_u64_to_from_le_bytes, spec_u64_from_le_bytes, spec_u64_to_le_bytes,
};
use vstd::bytes::{u64_from_le_bytes, u64_to_le_bytes};
use vstd::slice::{slice_subrange, slice_to_vec};
use vstd::string::StrSliceExecFns;
use vstd::utf8::{decode_utf8, encode_utf8, encode_utf8_decode_utf8, encode_utf8_valid_utf8,
    valid_utf8};

use crate::models::{InterfaceView, NetworkInterfaceInfo, SpeedTestResult};

verus! {

/// The field-name marker that opens the name field.
pub open spec fn marker_name() -> Seq<u8> {
    encode_utf8("name"@)
}

/// The field-name marker that opens the description field.
pub open spec fn marker_description() -> Seq<u8> {
    encode_utf8("description"@)
}

/// The field-name marker that opens the up-state field.
pub open spec fn marker_is_up() -> Seq<u8> {
    encode_utf8("is_up"@)
}

/// The field-name marker that opens the loopback field.
pub open spec fn marker_is_loopback() -> Seq<u8> {
    encode_utf8("is_loopback"@)
}

/// The field-name marker that opens the address-list field.
pub open spec fn marker_ip_addresses() -> Seq<u8> {
    encode_utf8("ip_addresses"@)
}

/// The little-endian 8-byte encoding of an integer.
pub open spec fn encoded_u64(n: u64) -> Seq<u8> {
    spec_u64_to_le_bytes(n)
}

/// The encoding of a string: its UTF-8 byte length, then its UTF-8 bytes.
pub open spec fn encoded_str(s: Seq<char>) -> Seq<u8> {
    encoded_u64(encode_utf8(s).len() as u64) + encode_utf8(s)
}

/// The one-byte encoding of a boolean.
pub open spec fn encoded_bool(v: bool) -> Seq<u8> {
    if v {
        seq![1u8]
    } else {
        seq![0u8]
    }
}

/// The encoding of a list of strings, one after the other.
pub open spec fn encoded_str_list(l: Seq<Seq<char>>) -> Seq<u8>
    decreases l.len(),
{
    if l.len() == 0 {
        Seq::<u8>::empty()
    } else {
        encoded_str(l[0]) + encoded_str_list(l.drop_first())
    }
}

/// The encoding of a whole record: each field behind its marker, the
/// address list behind its count.
pub open spec fn encoded_record(v: InterfaceView) -> Seq<u8> {
    marker_name() + encoded_str(v.name) + marker_description() + encoded_str(v.description)
        + marker_is_up() + encoded_bool(v.is_up) + marker_is_loopback() + encoded_bool(
        v.is_loopback,
    ) + marker_ip_addresses() + encoded_u64(v.ip_addresses.len() as u64) + encoded_str_list(
        v.ip_addresses,
    )
}

/// A string whose byte length fits the length prefix.
pub open spec fn encodable_str(s: Seq<char>) -> bool {
    encode_utf8(s).len() <= u64::MAX
}

/// A record view every implementation-imposed size limit of which holds;
/// every record held in memory satisfies this.
pub open spec fn encodable_record(v: InterfaceView) -> bool {
    &&& encodable_str(v.name)
    &&& encodable_str(v.description)
    &&& v.ip_addresses.len() <= u64::MAX
    &&& forall|i: int| 0 <= i < v.ip_addresses.len() ==> encodable_str(#[trigger] v.ip_addresses[i])
}

/// Parse the exact byte sequence `m` at `pos`, yielding the position after
/// it.
pub open spec fn parse_exact(b: Seq<u8>, pos: int, m: Seq<u8>) -> Option<int> {
    if 0 <= pos && pos + m.len() <= b.len() && b.subrange(pos, pos + m.len() as int) == m {
        Some(pos + m.len() as int)
    } else {
        None
    }
}

/// Parse a little-endian 8-byte integer at `pos`.
pub open spec fn parse_u64(b: Seq<u8>, pos: int) -> Option<(u64, int)> {
    if 0 <= pos && pos + 8 <= b.len() {
        Some((spec_u64_from_le_bytes(b.subrange(pos, pos + 8)), pos + 8))
    } else {
        None
    }
}

/// Parse a length-prefixed UTF-8 string at `pos`.
pub open spec fn parse_str(b: Seq<u8>, pos: int) -> Option<(Seq<char>, int)> {
    match parse_u64(b, pos) {
        Some((n, p)) => {
            if p + n <= b.len() && valid_utf8(b.subrange(p, p + n as int)) {
                Some((decode_utf8(b.subrange(p, p + n as int)), p + n as int))
            } else {
                None
            }
        },
        None => None,
    }
}

/// Parse one boolean byte at `pos`.
pub open spec fn parse_bool(b: Seq<u8>, pos: int) -> Option<(bool, int)> {
    if 0 <= pos && pos < b.len() && (b[pos] == 0 || b[pos] == 1) {
        Some((b[pos] == 1, pos + 1))
    } else {
        None
    }
}

/// Parse `count` length-prefixed strings, one after the other.
pub open spec fn parse_str_list(b: Seq<u8>, pos: int, count: nat) -> Option<(Seq<Seq<char>>, int)>
    decreases count,
{
    if count == 0 {
        Some((Seq::<Seq<char>>::empty(), pos))
    } else {
        match parse_str(b, pos) {
            Some((s, p)) => match parse_str_list(b, p, (count - 1) as nat) {
                Some((rest, q)) => Some((seq![s] + rest, q)),
                None => None,
            },
            None => None,
        }
    }
}

/// Parse a field-name marker followed by a string field.
pub open spec fn parse_marked_str(b: Seq<u8>, pos: int, m: Seq<u8>) -> Option<(Seq<char>, int)> {
    match parse_exact(b, pos, m) {
        Some(p) => parse_str(b, p),
        None => None,
    }
}

/// Parse a field-name marker followed by a boolean field.
pub open spec fn parse_marked_bool(b: Seq<u8>, pos: int, m: Seq<u8>) -> Option<(bool, int)> {
    match parse_exact(b, pos, m) {
        Some(p) => parse_bool(b, p),
        None => None,
    }
}

/// Parse a field-name marker followed by a counted list of strings.
pub open spec fn parse_marked_str_list(b: Seq<u8>, pos: int, m: Seq<u8>) -> Option<
    (Seq<Seq<char>>, int),
> {
    match parse_exact(b, pos, m) {
        Some(p) => match parse_u64(b, p) {
            Some((n, q)) => parse_str_list(b, q, n as nat),
            None => None,
        },
        None => None,
    }
}

/// Parse a whole record: the five marked fields in order, consuming the
/// entire buffer.
pub open spec fn parse_record(b: Seq<u8>) -> Option<InterfaceView> {
    match parse_marked_str(b, 0, marker_name()) {
        Some((name, p1)) => match parse_marked_str(b, p1, marker_description()) {
            Some((description, p2)) => match parse_marked_bool(b, p2, marker_is_up()) {
                Some((is_up, p3)) => match parse_marked_bool(b, p3, marker_is_loopback()) {
                    Some((is_loopback, p4)) => match parse_marked_str_list(
                        b,
                        p4,
                        marker_ip_addresses(),
                    ) {
                        Some((ip_addresses, p5)) => {
                            if p5 == b.len() {
                                Some(
                                    InterfaceView {
                                        name,
                                        description,
                                        is_up,
                                        is_loopback,
                                        ip_addresses,
                                    },
                                )
                            } else {
                                None
                            }
                        },
                        None => None,
                    },
                    None => None,
                },
                None => None,
            },
            None => None,
        },
        None => None,
    }
}

/// The field-name marker that opens the download-speed field.
pub open spec fn marker_download_speed() -> Seq<u8> {
    encode_utf8("download_speed"@)
}

/// The field-name marker that opens the upload-speed field.
pub open spec fn marker_upload_speed() -> Seq<u8> {
    encode_utf8("upload_speed"@)
}

/// The field-name marker that opens the ping field.
pub open spec fn marker_ping() -> Seq<u8> {
    encode_utf8("ping"@)
}

/// The field-name marker that opens the timestamp field.
pub open spec fn marker_timestamp() -> Seq<u8> {
    encode_utf8("timestamp"@)
}

/// The encoding of a speed test result: its four integer fields, each
/// behind its marker.
pub open spec fn encoded_speed_result(v: SpeedTestResult) -> Seq<u8> {
    marker_download_speed() + encoded_u64(v.download_speed) + marker_upload_speed() + encoded_u64(
        v.upload_speed,
    ) + marker_ping() + encoded_u64(v.ping) + marker_timestamp() + encoded_u64(v.timestamp)
}

/// Parse a field-name marker followed by an integer field.
pub open spec fn parse_marked_u64(b: Seq<u8>, pos: int, m: Seq<u8>) -> Option<(u64, int)> {
    match parse_exact(b, pos, m) {
        Some(p) => parse_u64(b, p),
        None => None,
    }
}

/// Parse a whole speed test result: the four marked fields in order,
/// consuming the entire buffer.
pub open spec fn parse_speed_result(b: Seq<u8>) -> Option<SpeedTestResult> {
    match parse_marked_u64(b, 0, marker_download_speed()) {
        Some((download_speed, p1)) => match parse_marked_u64(b, p1, marker_upload_speed()) {
            Some((upload_speed, p2)) => match parse_marked_u64(b, p2, marker_ping()) {
                Some((ping, p3)) => match parse_marked_u64(b, p3, marker_timestamp()) {
                    Some((timestamp, p4)) => {
                        if p4 == b.len() {
                            Some(SpeedTestResult { download_speed, upload_speed, ping, timestamp })
                        } else {
                            None
                        }
                    },
                    None => None,
                },
                None => None,
            },
            None => None,
        },
        None => None,
    }
}

/// Where a stretch of the buffer is a concatenation, each half is the
/// matching subrange.
proof fn lemma_concat_parts(b: Seq<u8>, pos: int, x: Seq<u8>, y: Seq<u8>)
    requires
        0 <= pos,
        pos + x.len() + y.len() <= b.len(),
        b.subrange(pos, pos + x.len() + y.len() as int) == x + y,
    ensures
        b.subrange(pos, pos + x.len() as int) == x,
        b.subrange(pos + x.len() as int, pos + x.len() + y.len() as int) == y,
{
    let whole = b.subrange(pos, pos + x.len() + y.len() as int);
    assert forall|i: int| 0 <= i < x.len() implies b[pos + i] == x[i] by {
        assert(whole[i] == (x + y)[i]);
    }
    assert forall|i: int| 0 <= i < y.len() implies b[pos + x.len() + i] == y[i] by {
        assert(whole[x.len() + i] == (x + y)[x.len() + i]);
    }
    assert(b.subrange(pos, pos + x.len() as int) =~= x);
    assert(b.subrange(pos + x.len() as int, pos + x.len() + y.len() as int) =~= y);
}

/// Parsing an integer where the buffer carries its encoding yields it back.
proof fn lemma_parse_u64_encoded(b: Seq<u8>, pos: int, n: u64)
    requires
        0 <= pos,
        pos + 8 <= b.len(),
        b.subrange(pos, pos + 8) == encoded_u64(n),
    ensures
        parse_u64(b, pos) == Some((n, pos + 8)),
{
    lemma_auto_spec_u64_to_from_le_bytes();
}

/// Parsing a string where the buffer carries its encoding yields it back.
proof fn lemma_parse_str_encoded(b: Seq<u8>, pos: int, s: Seq<char>)
    requires
        0 <= pos,
        encodable_str(s),
        pos + encoded_str(s).len() <= b.len(),
        b.subrange(pos, pos + encoded_str(s).len() as int) == encoded_str(s),
    ensures
        parse_str(b, pos) == Some((s, pos + encoded_str(s).len() as int)),
{
    lemma_auto_spec_u64_to_from_le_bytes();
    let u = encode_utf8(s);
    let n = u.len() as u64;
    lemma_concat_parts(b, pos, encoded_u64(n), u);
    lemma_parse_u64_encoded(b, pos, n);
    encode_utf8_valid_utf8(s);
    encode_utf8_decode_utf8(s);
}

/// Parsing a boolean where the buffer carries its encoding yields it back.
proof fn lemma_parse_bool_encoded(b: Seq<u8>, pos: int, v: bool)
    requires
        0 <= pos,
        pos + 1 <= b.len(),
        b.subrange(pos, pos + 1) == encoded_bool(v),
    ensures
        parse_bool(b, pos) == Some((v, pos + 1)),
{
    assert(b[pos] == b.subrange(pos, pos + 1)[0]);
}

/// Parsing `l.len()` strings where the buffer carries the list's encoding
/// yields the list back.
proof fn lemma_parse_str_list_encoded(b: Seq<u8>, pos: int, l: Seq<Seq<char>>)
    requires
        0 <= pos,
        forall|i: int| 0 <= i < l.len() ==> encodable_str(#[trigger] l[i]),
        pos + encoded_str_list(l).len() <= b.len(),
        b.subrange(pos, pos + encoded_str_list(l).len() as int) == encoded_str_list(l),
    ensures
        parse_str_list(b, pos, l.len()) == Some((l, pos + encoded_str_list(l).len() as int)),
    decreases l.len(),
{
    if l.len() == 0 {
    } else {
        let e0 = encoded_str(l[0]);
        let erest = encoded_str_list(l.drop_first());
        assert(encoded_str_list(l) == e0 + erest);
        lemma_concat_parts(b, pos, e0, erest);
        lemma_parse_str_encoded(b, pos, l[0]);
        let p = pos + e0.len() as int;
        lemma_parse_str_list_encoded(b, p, l.drop_first());
        assert(seq![l[0]] + l.drop_first() =~= l);
    }
}

/// Round trip of the wire format: decoding the encoding of any record
/// reproduces every field exactly, an empty string or address list included.
#[verifier::rlimit(60)]
#[verifier::spinoff_prover]
pub proof fn lemma_record_round_trip(v: InterfaceView)
    requires
        encodable_record(v),
    ensures
        parse_record(encoded_record(v)) == Some(v),
{
    lemma_auto_spec_u64_to_from_le_bytes();
    let b = encoded_record(v);
    let m1 = marker_name();
    let e1 = encoded_str(v.name);
    let m2 = marker_description();
    let e2 = encoded_str(v.description);
    let m3 = marker_is_up();
    let e3 = encoded_bool(v.is_up);
    let m4 = marker_is_loopback();
    let e4 = encoded_bool(v.is_loopback);
    let m5 = marker_ip_addresses();
    let e5 = encoded_u64(v.ip_addresses.len() as u64);
    let e6 = encoded_str_list(v.ip_addresses);

    // Peel the segments off the concatenation from the right; `+` associates
    // to the left, so each prefix below is literally the next concatenation.
    let t9 = m1 + e1 + m2 + e2 + m3 + e3 + m4 + e4 + m5;
    let t8 = m1 + e1 + m2 + e2 + m3 + e3 + m4 + e4;
    let t7 = m1 + e1 + m2 + e2 + m3 + e3 + m4;
    let t6 = m1 + e1 + m2 + e2 + m3 + e3;
    let t5 = m1 + e1 + m2 + e2 + m3;
    let t4 = m1 + e1 + m2 + e2;
    let t3 = m1 + e1 + m2;
    let t2 = m1 + e1;

    assert(b.subrange(0, b.len() as int) =~= b);
    lemma_concat_parts(b, 0, t9 + e5, e6);
    lemma_concat_parts(b, 0, t9, e5);
    lemma_concat_parts(b, 0, t8, m5);
    lemma_concat_parts(b, 0, t7, e4);
    lemma_concat_parts(b, 0, t6, m4);
    lemma_concat_parts(b, 0, t5, e3);
    lemma_concat_parts(b, 0, t4, m3);
    lemma_concat_parts(b, 0, t3, e2);
    lemma_concat_parts(b, 0, t2, m2);
    lemma_concat_parts(b, 0, m1, e1);

    let p0 = m1.len() as int;
    let p1 = p0 + e1.len() as int;
    let q1 = p1 + m2.len() as int;
    let p2 = q1 + e2.len() as int;
    let q2 = p2 + m3.len() as int;
    let p3 = q2 + e3.len() as int;
    let q3 = p3 + m4.len() as int;
    let p4 = q3 + e4.len() as int;
    let q4 = p4 + m5.len() as int;
    let q5 = q4 + e5.len() as int;
    let p5 = q5 + e6.len() as int;

    assert(b.len() == p5);

    lemma_parse_str_encoded(b, p0, v.name);
    assert(parse_marked_str(b, 0, m1) == Some((v.name, p1)));

    lemma_parse_str_encoded(b, q1, v.description);
    assert(parse_marked_str(b, p1, m2) == Some((v.description, p2)));

    lemma_parse_bool_encoded(b, q2, v.is_up);
    assert(parse_marked_bool(b, p2, m3) == Some((v.is_up, p3)));

    lemma_parse_bool_encoded(b, q3, v.is_loopback);
    assert(parse_marked_bool(b, p3, m4) == Some((v.is_loopback, p4)));

    lemma_parse_u64_encoded(b, q4, v.ip_addresses.len() as u64);
    lemma_parse_str_list_encoded(b, q5, v.ip_addresses);
    assert((v.ip_addresses.len() as u64) as nat == v.ip_addresses.len());
    assert(parse_marked_str_list(b, p4, m5) == Some((v.ip_addresses, p5)));
}

/// Round trip of the wire format for speed test results: decoding the
/// encoding of any result reproduces every field exactly.
pub proof fn lemma_speed_result_round_trip(v: SpeedTestResult)
    ensures
        parse_speed_result(encoded_speed_result(v)) == Some(v),
{
    lemma_auto_spec_u64_to_from_le_bytes();
    let b = encoded_speed_result(v);
    let m1 = marker_download_speed();
    let e1 = encoded_u64(v.download_speed);
    let m2 = marker_upload_speed();
    let e2 = encoded_u64(v.upload_speed);
    let m3 = marker_ping();
    let e3 = encoded_u64(v.ping);
    let m4 = marker_timestamp();
    let e4 = encoded_u64(v.timestamp);

    let t6 = m1 + e1 + m2 + e2 + m3 + e3 + m4;
    let t5 = m1 + e1 + m2 + e2 + m3 + e3;
    let t4 = m1 + e1 + m2 + e2 + m3;
    let t3 = m1 + e1 + m2 + e2;
    let t2 = m1 + e1 + m2;
    let t1 = m1 + e1;

    assert(b.subrange(0, b.len() as int) =~= b);
    lemma_concat_parts(b, 0, t6, e4);
    lemma_concat_parts(b, 0, t5, m4);
    lemma_concat_parts(b, 0, t4, e3);
    lemma_concat_parts(b, 0, t3, m3);
    lemma_concat_parts(b, 0, t2, e2);
    lemma_concat_parts(b, 0, t1, m2);
    lemma_concat_parts(b, 0, m1, e1);

    let p0 = m1.len() as int;
    let p1 = p0 + 8;
    let q1 = p1 + m2.len() as int;
    let p2 = q1 + 8;
    let q2 = p2 + m3.len() as int;
    let p3 = q2 + 8;
    let q3 = p3 + m4.len() as int;
    let p4 = q3 + 8;

    assert(b.len() == p4);

    lemma_parse_u64_encoded(b, p0, v.download_speed);
    assert(parse_marked_u64(b, 0, m1) == Some((v.download_speed, p1)));
    lemma_parse_u64_encoded(b, q1, v.upload_speed);
    assert(parse_marked_u64(b, p1, m2) == Some((v.upload_speed, p2)));
    lemma_parse_u64_encoded(b, q2, v.ping);
    assert(parse_marked_u64(b, p2, m3) == Some((v.ping, p3)));
    lemma_parse_u64_encoded(b, q3, v.timestamp);
    assert(parse_marked_u64(b, p3, m4) == Some((v.timestamp, p4)));
}

/// Appending one more string extends a list's encoding at its end.
proof fn lemma_encoded_str_list_snoc(l: Seq<Seq<char>>, x: Seq<char>)
    ensures
        encoded_str_list(l.push(x)) == encoded_str_list(l) + encoded_str(x),
    decreases l.len(),
{
    broadcast use Seq::add_empty_left, Seq::add_empty_right;

    if l.len() == 0 {
        assert(l.push(x)[0] == x);
        assert(l.push(x).drop_first() =~= Seq::<Seq<char>>::empty());
        assert(encoded_str_list(l.push(x)) == encoded_str(x) + encoded_str_list(
            l.push(x).drop_first(),
        ));
    } else {
        assert(l.push(x)[0] == l[0]);
        assert(l.push(x).drop_first() =~= l.drop_first().push(x));
        lemma_encoded_str_list_snoc(l.drop_first(), x);
        assert(encoded_str_list(l.push(x)) == encoded_str(l[0]) + encoded_str_list(
            l.drop_first().push(x),
        ));
        assert((encoded_str(l[0]) + encoded_str_list(l.drop_first())) + encoded_str(x)
            =~= encoded_str(l[0]) + (encoded_str_list(l.drop_first()) + encoded_str(x)));
    }
}

/// Relies on `String::from_utf8`: it succeeds exactly on valid UTF-8 input
/// and decodes those bytes to their character sequence.
#[verifier::external_body]
fn string_from_utf8(bytes: Vec<u8>) -> (r: Option<String>)
    ensures
        r is Some <==> valid_utf8(bytes@),
        r matches Some(s) ==> s@ == decode_utf8(bytes@),
{
    String::from_utf8(bytes).ok()
}

/// Append the little-endian 8-byte encoding of `n`.
fn push_u64(out: &mut Vec<u8>, n: u64)
    ensures
        final(out)@ == old(out)@ + encoded_u64(n),
{
    let mut b = u64_to_le_bytes(n);
    out.append(&mut b);
}

/// Append the UTF-8 bytes of `s` with no length prefix, as a field marker.
fn push_marker(out: &mut Vec<u8>, m: &str)
    ensures
        final(out)@ == old(out)@ + encode_utf8(m@),
{
    let mut b = m.as_bytes_vec();
    out.append(&mut b);
}

/// Append the length-prefixed UTF-8 encoding of `s`.
fn push_str(out: &mut Vec<u8>, s: &str)
    ensures
        final(out)@ == old(out)@ + encoded_str(s@),
        encodable_str(s@),
{
    let mut b = s.as_bytes_vec();
    let n = b.len() as u64;
    push_u64(out, n);
    out.append(&mut b);
}

/// Encode a record in the wire format.
pub fn encode_interface_record(r: &NetworkInterfaceInfo) -> (out: Vec<u8>)
    ensures
        out@ == encoded_record(r@),
        encodable_record(r@),
{
    broadcast use Seq::add_empty_left;

    let mut out: Vec<u8> = Vec::new();
    push_marker(&mut out, "name");
    push_str(&mut out, r.name.as_str());
    push_marker(&mut out, "description");
    push_str(&mut out, r.description.as_str());
    push_marker(&mut out, "is_up");
    out.push(if r.is_up { 1 } else { 0 });
    proof {
        assert(out@ =~= Seq::empty() + marker_name() + encoded_str(r@.name)
            + marker_description() + encoded_str(r@.description) + marker_is_up() + encoded_bool(
            r@.is_up,
        ));
    }
    push_marker(&mut out, "is_loopback");
    out.push(if r.is_loopback { 1 } else { 0 });
    proof {
        assert(out@ =~= Seq::empty() + marker_name() + encoded_str(r@.name)
            + marker_description() + encoded_str(r@.description) + marker_is_up() + encoded_bool(
            r@.is_up,
        ) + marker_is_loopback() + encoded_bool(r@.is_loopback));
    }
    push_marker(&mut out, "ip_addresses");
    let count = r.ip_addresses.len() as u64;
    push_u64(&mut out, count);
    let ghost header = out@;
    let ghost ips = r@.ip_addresses;
    let mut i: usize = 0;
    proof {
        assert(ips.subrange(0, 0) =~= Seq::<Seq<char>>::empty());
    }
    while i < r.ip_addresses.len()
        invariant
            i <= ips.len(),
            ips.len() == r.ip_addresses@.len(),
            ips =~= r@.ip_addresses,
            out@ == header + encoded_str_list(ips.subrange(0, i as int)),
            forall|j: int| 0 <= j < i ==> encodable_str(#[trigger] ips[j]),
        decreases ips.len() - i,
    {
        push_str(&mut out, r.ip_addresses[i].as_str());
        proof {
            assert(ips[i as int] == r.ip_addresses@[i as int]@);
            lemma_encoded_str_list_snoc(ips.subrange(0, i as int), ips[i as int]);
            assert(ips.subrange(0, i + 1) =~= ips.subrange(0, i as int).push(ips[i as int]));
            assert((header + encoded_str_list(ips.subrange(0, i as int))) + encoded_str(
                ips[i as int],
            ) =~= header + (encoded_str_list(ips.subrange(0, i as int)) + encoded_str(
                ips[i as int],
            )));
        }
        i = i + 1;
    }
    proof {
        assert(ips.subrange(0, ips.len() as int) =~= ips);
        assert(out@ =~= encoded_record(r@));
    }
    out
}

/// Encode a speed test result in the wire format.
pub fn encode_speed_test_result(r: &SpeedTestResult) -> (out: Vec<u8>)
    ensures
        out@ == encoded_speed_result(*r),
{
    broadcast use Seq::add_empty_left;

    let mut out: Vec<u8> = Vec::new();
    push_marker(&mut out, "download_speed");
    push_u64(&mut out, r.download_speed);
    push_marker(&mut out, "upload_speed");
    push_u64(&mut out, r.upload_speed);
    push_marker(&mut out, "ping");
    push_u64(&mut out, r.ping);
    push_marker(&mut out, "timestamp");
    push_u64(&mut out, r.timestamp);
    proof {
        assert(out@ =~= encoded_speed_result(*r));
    }
    out
}

/// Decode a speed test result from the wire format: succeeds exactly on a
/// buffer that is one whole encoded result.
pub fn decode_speed_test_result(b: &Vec<u8>) -> (res: Option<SpeedTestResult>)
    ensures
        res == parse_speed_result(b@),
{
    let m_download = "download_speed".as_bytes_vec();
    let m_upload = "upload_speed".as_bytes_vec();
    let m_ping = "ping".as_bytes_vec();
    let m_timestamp = "timestamp".as_bytes_vec();

    let p = match read_exact(b, 0, &m_download) {
        Some(p) => p,
        None => {
            return None;
        },
    };
    let (download_speed, p) = match read_u64(b, p) {
        Some(np) => np,
        None => {
            return None;
        },
    };
    let p = match read_exact(b, p, &m_upload) {
        Some(p) => p,
        None => {
            return None;
        },
    };
    let (upload_speed, p) = match read_u64(b, p) {
        Some(np) => np,
        None => {
            return None;
        },
    };
    let p = match read_exact(b, p, &m_ping) {
        Some(p) => p,
        None => {
            return None;
        },
    };
    let (ping, p) = match read_u64(b, p) {
        Some(np) => np,
        None => {
            return None;
        },
    };
    let p = match read_exact(b, p, &m_timestamp) {
        Some(p) => p,
        None => {
            return None;
        },
    };
    let (timestamp, p) = match read_u64(b, p) {
        Some(np) => np,
        None => {
            return None;
        },
    };
    if p != b.len() {
        return None;
    }
    Some(SpeedTestResult { download_speed, upload_speed, ping, timestamp })
}

/// Read the exact bytes `m` at `pos`.
fn read_exact(b: &Vec<u8>, pos: usize, m: &Vec<u8>) -> (res: Option<usize>)
    requires
        pos <= b@.len(),
    ensures
        res matches Some(p) ==> parse_exact(b@, pos as int, m@) == Some(p as int) && p <= b@.len(),
        res is None ==> parse_exact(b@, pos as int, m@) is None,
{
    if b.len() - pos < m.len() {
        return None;
    }
    let mut i: usize = 0;
    while i < m.len()
        invariant
            pos + m@.len() <= b@.len(),
            b@.len() <= usize::MAX,
            i <= m@.len(),
            forall|j: int| 0 <= j < i ==> b@[pos + j] == m@[j],
        decreases m@.len() - i,
    {
        if b[pos + i] != m[i] {
            proof {
                if parse_exact(b@, pos as int, m@) is Some {
                    assert(b@.subrange(pos as int, pos + m@.len() as int)[i as int] == b@[pos + i]);
                }
            }
            return None;
        }
        i = i + 1;
    }
    proof {
        assert(b@.subrange(pos as int, pos + m@.len() as int) =~= m@);
    }
    Some(pos + m.len())
}

/// Read a little-endian 8-byte integer at `pos`.
fn read_u64(b: &Vec<u8>, pos: usize) -> (res: Option<(u64, usize)>)
    requires
        pos <= b@.len(),
    ensures
        res matches Some(np) ==> parse_u64(b@, pos as int) == Some((np.0, np.1 as int)) && np.1
            <= b@.len(),
        res is None ==> parse_u64(b@, pos as int) is None,
{
    if b.len() - pos < 8 {
        return None;
    }
    let s = slice_subrange(b.as_slice(), pos, pos + 8);
    let n = u64_from_le_bytes(s);
    Some((n, pos + 8))
}

/// Read a length-prefixed UTF-8 string at `pos`.
fn read_str(b: &Vec<u8>, pos: usize) -> (res: Option<(String, usize)>)
    requires
        pos <= b@.len(),
    ensures
        res matches Some(sp) ==> parse_str(b@, pos as int) matches Some(sv) && sp.0@ == sv.0
            && sp.1 as int == sv.1 && sp.1 <= b@.len(),
        res is None ==> parse_str(b@, pos as int) is None,
{
    match read_u64(b, pos) {
        None => None,
        Some((n, p)) => {
            if n > (b.len() - p) as u64 {
                None
            } else {
                let len = n as usize;
                let chunk = slice_to_vec(slice_subrange(b.as_slice(), p, p + len));
                match string_from_utf8(chunk) {
                    Some(s) => Some((s, p + len)),
                    None => None,
                }
            }
        },
    }
}

/// Read one boolean byte at `pos`.
fn read_bool(b: &Vec<u8>, pos: usize) -> (res: Option<(bool, usize)>)
    requires
        pos <= b@.len(),
    ensures
        res matches Some(vp) ==> parse_bool(b@, pos as int) == Some((vp.0, vp.1 as int)) && vp.1
            <= b@.len(),
        res is None ==> parse_bool(b@, pos as int) is None,
{
    if pos < b.len() {
        let x = b[pos];
        if x == 0 {
            Some((false, pos + 1))
        } else if x == 1 {
            Some((true, pos + 1))
        } else {
            None
        }
    } else {
        None
    }
}

/// Read `count` length-prefixed strings at `pos`.
fn read_str_list(b: &Vec<u8>, pos: usize, count: u64) -> (res: Option<(Vec<String>, usize)>)
    requires
        pos <= b@.len(),
    ensures
        res matches Some(lp) ==> parse_str_list(b@, pos as int, count as nat) matches Some(lv)
            && lp.0@.len() == lv.0.len() && (forall|i: int|
            0 <= i < lv.0.len() ==> lp.0@[i]@ == lv.0[i]) && lp.1 as int == lv.1 && lp.1
            <= b@.len(),
        res is None ==> parse_str_list(b@, pos as int, count as nat) is None,
{
    let mut acc: Vec<String> = Vec::new();
    let mut cur = pos;
    let mut i: u64 = 0;
    proof {
        let views0 = Seq::new(acc@.len() as nat, |j: int| acc@[j]@);
        assert(views0 =~= Seq::<Seq<char>>::empty());
        match parse_str_list(b@, pos as int, count as nat) {
            Some((rest, q)) => {
                assert(views0 + rest =~= rest);
            },
            None => {},
        }
    }
    while i < count
        invariant
            cur <= b@.len(),
            i <= count,
            acc@.len() == i,
            parse_str_list(b@, pos as int, count as nat) == splice(
                Seq::new(acc@.len() as nat, |j: int| acc@[j]@),
                parse_str_list(b@, cur as int, (count - i) as nat),
            ),
        decreases count - i,
    {
        let ghost views_prev = Seq::new(acc@.len() as nat, |j: int| acc@[j]@);
        let ghost k = (count - i) as nat;
        proof {
            lemma_parse_str_list_prepend(b@, cur as int, k);
        }
        match read_str(b, cur) {
            None => {
                return None;
            },
            Some((s, p)) => {
                let ghost sv = s@;
                acc.push(s);
                proof {
                    let views_new = Seq::new(acc@.len() as nat, |j: int| acc@[j]@);
                    assert(views_new =~= views_prev.push(sv));
                    match parse_str_list(b@, p as int, (k - 1) as nat) {
                        Some((rest, q)) => {
                            assert(views_prev + (seq![sv] + rest) =~= views_new + rest);
                        },
                        None => {},
                    }
                }
                cur = p;
                i = i + 1;
            },
        }
    }
    proof {
        let views = Seq::new(acc@.len() as nat, |j: int| acc@[j]@);
        assert(views + Seq::<Seq<char>>::empty() =~= views);
    }
    Some((acc, cur))
}

/// A parse result with `prefix` prepended to its strings.
spec fn splice(prefix: Seq<Seq<char>>, r: Option<(Seq<Seq<char>>, int)>) -> Option<
    (Seq<Seq<char>>, int),
> {
    match r {
        Some((rest, q)) => Some((prefix + rest, q)),
        None => None,
    }
}

/// Unfold one step of `parse_str_list`: with a positive count, the result is
/// the first string prepended to the parse of the remainder.
proof fn lemma_parse_str_list_prepend(b: Seq<u8>, pos: int, count: nat)
    requires
        count > 0,
    ensures
        parse_str(b, pos) is None ==> parse_str_list(b, pos, count) is None,
        parse_str(b, pos) matches Some(sv) ==> {
            &&& (parse_str_list(b, sv.1, (count - 1) as nat) matches Some(rest)
                ==> parse_str_list(b, pos, count) == Some((seq![sv.0] + rest.0, rest.1)))
            &&& (parse_str_list(b, sv.1, (count - 1) as nat) is None ==> parse_str_list(
                b,
                pos,
                count,
            ) is None)
        },
{
}

/// Decode a record from the wire format: succeeds exactly on a buffer that
/// is one whole encoded record.
pub fn decode_interface_record(b: &Vec<u8>) -> (res: Option<NetworkInterfaceInfo>)
    ensures
        res matches Some(rec) ==> parse_record(b@) == Some(rec@),
        res is None ==> parse_record(b@) is None,
{
    let m_name = "name".as_bytes_vec();
    let m_description = "description".as_bytes_vec();
    let m_is_up = "is_up".as_bytes_vec();
    let m_is_loopback = "is_loopback".as_bytes_vec();
    let m_ip_addresses = "ip_addresses".as_bytes_vec();

    let p = match read_exact(b, 0, &m_name) {
        Some(p) => p,
        None => {
            return None;
        },
    };
    let (name, p) = match read_str(b, p) {
        Some(sp) => sp,
        None => {
            return None;
        },
    };
    let p = match read_exact(b, p, &m_description) {
        Some(p) => p,
        None => {
            return None;
        },
    };
    let (description, p) = match read_str(b, p) {
        Some(sp) => sp,
        None => {
            return None;
        },
    };
    let p = match read_exact(b, p, &m_is_up) {
        Some(p) => p,
        None => {
            return None;
        },
    };
    let (is_up, p) = match read_bool(b, p) {
        Some(vp) => vp,
        None => {
            return None;
        },
    };
    let p = match read_exact(b, p, &m_is_loopback) {
        Some(p) => p,
        None => {
            return None;
        },
    };
    let (is_loopback, p) = match read_bool(b, p) {
        Some(vp) => vp,
        None => {
            return None;
        },
    };
    let p = match read_exact(b, p, &m_ip_addresses) {
        Some(p) => p,
        None => {
            return None;
        },
    };
    let (count, p) = match read_u64(b, p) {
        Some(np) => np,
        None => {
            return None;
        },
    };
    let (ip_addresses, p) = match read_str_list(b, p, count) {
        Some(lp) => lp,
        None => {
            return None;
        },
    };
    if p != b.len() {
        return None;
    }
    let rec = NetworkInterfaceInfo { name, description, is_up, is_loopback, ip_addresses };
    proof {
        match parse_record(b@) {
            Some(parsed) => {
                assert(rec@.ip_addresses =~= parsed.ip_addresses);
            },
            None => {},
        }
    }
    Some(rec)
}

} // verus!
