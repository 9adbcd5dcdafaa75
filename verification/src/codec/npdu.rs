//! The NPDU: the network layer header between the link layer and the APDU.
use vstd::prelude::*;
use crate::buffers::{bytes_copy_from_slice, bytes_mut_new, bytes_mut_view, bytes_view, extend_from_slice, freeze, put_u8};
use crate::encoding::decode_error;
use crate::types::BacnetError;

verus! {

/// NPDU control flags.
#[derive(Debug, Clone, Copy, Default, PartialEq, Eq)]
pub struct NpduControl {
    pub network_message: bool,
    pub destination_specifier: bool,
    pub source_specifier: bool,
    pub expecting_reply: bool,
    /// Network priority, 0 to 3.
    pub priority: u8,
}

/// A BACnet network address carried in an NPDU.
#[derive(Debug, Clone, PartialEq, Eq, Hash)]
pub struct NpduAddress {
    pub network: u16,
    pub mac: Vec<u8>,
}

/// A decoded NPDU header with the APDU it carries.
#[derive(Debug, Clone)]
pub struct Npdu {
    pub version: u8,
    pub control: NpduControl,
    pub destination: Option<NpduAddress>,
    pub source: Option<NpduAddress>,
    pub hop_count: Option<u8>,
    pub apdu: bytes::Bytes,
}

/// The model of a decoded NPDU: addresses as (network, MAC octets).
pub struct NpduModel {
    pub control: NpduControl,
    pub destination: Option<(u16, Seq<u8>)>,
    pub source: Option<(u16, Seq<u8>)>,
    pub hop_count: Option<u8>,
    pub apdu: Seq<u8>,
}

/// The model of an optional NPDU address.
pub open spec fn address_model(a: Option<NpduAddress>) -> Option<(u16, Seq<u8>)> {
    match a {
        Some(x) => Some((x.network, x.mac@)),
        None => None,
    }
}

impl Npdu {
    /// The model of this NPDU.
    pub open spec fn model(self) -> NpduModel {
        NpduModel {
            control: self.control,
            destination: address_model(self.destination),
            source: address_model(self.source),
            hop_count: self.hop_count,
            apdu: bytes_view(self.apdu),
        }
    }
}

/// The control flags held by the control octet `c`.
pub open spec fn npdu_control_of(c: u8) -> NpduControl {
    NpduControl {
        network_message: c & 0x80 != 0,
        destination_specifier: c & 0x20 != 0,
        source_specifier: c & 0x08 != 0,
        expecting_reply: c & 0x04 != 0,
        priority: c & 0x03,
    }
}

/// The address at `pos`: network number, MAC octets and the position after
/// them, when the three header octets (network, MAC length) are present.
pub open spec fn npdu_addr_at(buf: Seq<u8>, pos: int) -> Option<(u16, Seq<u8>, int)> {
    if pos + 3 > buf.len() {
        None
    } else {
        let n = buf[pos + 2] as int;
        Some(((buf[pos] as int * 256 + buf[pos + 1] as int) as u16, buf.subrange(pos + 3, pos + 3 + n), pos + 3 + n))
    }
}

/// Whether an address whose header starts at `pos` has all its MAC octets in
/// `buf` (or is cut short before its MAC length).
pub open spec fn npdu_addr_fits(buf: Seq<u8>, pos: int) -> bool {
    pos + 3 > buf.len() || pos + 3 + buf[pos + 2] <= buf.len()
}

/// Where the source address starts: after the destination address when
/// there is one.
pub open spec fn npdu_source_start(buf: Seq<u8>) -> int {
    if npdu_control_of(buf[1]).destination_specifier {
        match npdu_addr_at(buf, 2) {
            Some((_, _, p)) => p,
            None => 2,
        }
    } else {
        2
    }
}

/// Whether every MAC length announced in `buf` stays within `buf`: the
/// inputs that decoding accepts without slicing past the end.
pub open spec fn npdu_lengths_fit(buf: Seq<u8>) -> bool {
    buf.len() < 2 || buf[0] != 1 || {
        let c = npdu_control_of(buf[1]);
        &&& c.destination_specifier ==> npdu_addr_fits(buf, 2)
        &&& (c.source_specifier && !(c.destination_specifier && npdu_addr_at(buf, 2) is None))
                ==> npdu_addr_fits(buf, npdu_source_start(buf))
    }
}

/// What decoding `buf` gives: `None` for each input that is rejected.
pub open spec fn spec_npdu_decode(buf: Seq<u8>) -> Option<NpduModel> {
    if buf.len() < 2 || buf[0] != 1 {
        None
    } else {
        let c = npdu_control_of(buf[1]);
        let dst: Option<(Option<(u16, Seq<u8>)>, int)> = if c.destination_specifier {
            match npdu_addr_at(buf, 2) {
                Some((n, m, p)) => Some((Some((n, m)), p)),
                None => None,
            }
        } else {
            Some((None, 2))
        };
        match dst {
            None => None,
            Some((d, p1)) => {
                let src: Option<(Option<(u16, Seq<u8>)>, int)> = if c.source_specifier {
                    match npdu_addr_at(buf, p1) {
                        Some((n, m, p)) => Some((Some((n, m)), p)),
                        None => None,
                    }
                } else {
                    Some((None, p1))
                };
                match src {
                    None => None,
                    Some((s, p2)) => {
                        if c.destination_specifier {
                            if buf.len() <= p2 {
                                None
                            } else {
                                Some(NpduModel {
                                    control: c,
                                    destination: d,
                                    source: s,
                                    hop_count: Some(buf[p2]),
                                    apdu: buf.subrange(p2 + 1, buf.len() as int),
                                })
                            }
                        } else {
                            Some(NpduModel {
                                control: c,
                                destination: d,
                                source: s,
                                hop_count: None,
                                apdu: buf.subrange(p2, buf.len() as int),
                            })
                        }
                    },
                }
            },
        }
    }
}

/// The octets of a local-delivery NPDU.
pub open spec fn npdu_local_octets(expecting_reply: bool, apdu: Seq<u8>) -> Seq<u8> {
    seq![1u8, if expecting_reply { 0x04u8 } else { 0u8 }] + apdu
}

/// Whether the MAC lengths announced in `buf` stay within it, so that it
/// can be decoded.
pub fn npdu_lengths_fit_exec(buf: &[u8]) -> (r: bool)
    ensures
        r == npdu_lengths_fit(buf@),
{
    let n = buf.len();
    if n < 2 || buf[0] != 1 {
        return true;
    }
    let c = control_of(buf[1]);
    let mut src_start: usize = 2;
    if c.destination_specifier {
        if n >= 5 {
            if 5 + (buf[4] as usize) > n {
                return false;
            }
            src_start = 5 + buf[4] as usize;
        } else {
            return true;
        }
    }
    if c.source_specifier {
        if src_start + 3 <= n && src_start + 3 + (buf[src_start + 2] as usize) > n {
            return false;
        }
    }
    true
}

fn control_of(c: u8) -> (r: NpduControl)
    ensures
        r == npdu_control_of(c),
{
    NpduControl {
        network_message: (c & 0x80) != 0,
        destination_specifier: (c & 0x20) != 0,
        source_specifier: (c & 0x08) != 0,
        expecting_reply: (c & 0x04) != 0,
        priority: c & 0x03,
    }
}

/// Reads the address whose header starts at `*pos` and moves `*pos` past it.
fn decode_address(buf: &[u8], pos: &mut usize) -> (r: Result<NpduAddress, BacnetError>)
    requires
        *old(pos) <= buf@.len(),
        npdu_addr_fits(buf@, *old(pos) as int),
    ensures
        match npdu_addr_at(buf@, *old(pos) as int) {
            Some((n, m, p)) => r matches Ok(a) && a.network == n && a.mac@ == m && *final(pos) == p,
            None => r matches Err(e) && e is DecodeError,
        },
{
    let blen = buf.len();
    if blen - *pos < 3 {
        return Err(decode_error("NPDU too short for an address"));
    }
    let p = *pos;
    let network: u16 = (buf[p] as u16) * 256 + buf[p + 1] as u16;
    let n = buf[p + 2] as usize;
    let mac = vstd::slice::slice_to_vec(&buf[p + 3..p + 3 + n]);
    *pos = p + 3 + n;
    Ok(NpduAddress { network, mac })
}

impl Npdu {
    /// The octets of a local-delivery NPDU: version 1, a control octet with
    /// only the expecting-reply flag, then the APDU.
    pub fn encode_local(expecting_reply: bool, apdu: &[u8]) -> (r: bytes::Bytes)
        ensures
            bytes_view(r) == npdu_local_octets(expecting_reply, apdu@),
    {
        let mut buf = bytes_mut_new();
        put_u8(&mut buf, 0x01);
        let ctrl: u8 = if expecting_reply { 0x04 } else { 0x00 };
        put_u8(&mut buf, ctrl);
        extend_from_slice(&mut buf, apdu);
        assert(bytes_mut_view(buf) =~= npdu_local_octets(expecting_reply, apdu@));
        freeze(buf)
    }

    /// Decodes an NPDU header and takes the rest as the APDU.
    pub fn decode(buf: &[u8]) -> (r: Result<Npdu, BacnetError>)
        requires
            npdu_lengths_fit(buf@),
        ensures
            match r {
                Ok(n) => spec_npdu_decode(buf@) == Some(n.model()) && n.version == 1,
                Err(e) => spec_npdu_decode(buf@) is None && e is DecodeError,
            },
    {
        let blen = buf.len();
        if blen < 2 {
            return Err(decode_error("NPDU too short"));
        }
        let version = buf[0];
        if version != 0x01 {
            return Err(decode_error("unknown NPDU version"));
        }
        let control = control_of(buf[1]);
        let mut pos: usize = 2;
        let destination = if control.destination_specifier {
            Some(decode_address(buf, &mut pos)?)
        } else {
            None
        };
        let source = if control.source_specifier {
            Some(decode_address(buf, &mut pos)?)
        } else {
            None
        };
        let hop_count = if control.destination_specifier {
            if blen <= pos {
                return Err(decode_error("NPDU too short for hop count"));
            }
            let h = buf[pos];
            pos = pos + 1;
            Some(h)
        } else {
            None
        };
        let apdu = bytes_copy_from_slice(&buf[pos..blen]);
        let r = Npdu { version, control, destination, source, hop_count, apdu };
        Ok(r)
    }
}

/// Decoding a local-delivery NPDU gives back the expecting-reply flag and the
/// APDU, with no addresses and no hop count.
pub proof fn lemma_npdu_local_roundtrip(expecting_reply: bool, apdu: Seq<u8>)
    ensures
        npdu_lengths_fit(npdu_local_octets(expecting_reply, apdu)),
        spec_npdu_decode(npdu_local_octets(expecting_reply, apdu)) == Some(NpduModel {
            control: NpduControl {
                network_message: false,
                destination_specifier: false,
                source_specifier: false,
                expecting_reply: expecting_reply,
                priority: 0,
            },
            destination: None,
            source: None,
            hop_count: None,
            apdu: apdu,
        }),
{
    let b = npdu_local_octets(expecting_reply, apdu);
    let c: u8 = if expecting_reply { 0x04u8 } else { 0u8 };
    assert(b[0] == 1u8 && b[1] == c);
    assert(c & 0x80 == 0 && c & 0x20 == 0 && c & 0x08 == 0 && c & 0x03 == 0 && (c & 0x04 != 0) == (c == 4))
        by (bit_vector)
        requires c == 0 || c == 4;
    assert(b.subrange(2, b.len() as int) =~= apdu);
}

} // verus!
