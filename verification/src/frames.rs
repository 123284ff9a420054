use vstd::prelude::*;

verus! {

/// Positive acknowledgement byte returned by the bootloader.
pub const ACK: u8 = 0x79;
/// Negative acknowledgement byte returned by the bootloader.
pub const NACK: u8 = 0x1F;

/// GET command: report version and supported command set.
pub const CMD_GET: u8 = 0x00;
/// GET ID command: report the product id.
pub const CMD_GET_ID: u8 = 0x02;
/// GO command: jump to an application address.
pub const CMD_GO: u8 = 0x21;
/// WRITE MEMORY command.
pub const CMD_WRITE_MEMORY: u8 = 0x31;
/// Legacy ERASE command.
pub const CMD_ERASE: u8 = 0x43;
/// EXTENDED ERASE command.
pub const CMD_EXTENDED_ERASE: u8 = 0x44;
/// Byte sent repeatedly during the autobaud handshake.
pub const WAKE: u8 = 0x7F;
/// Address handed to GO after flashing: the base of user flash.
pub const LAUNCH_ADDRESS: u32 = 0x0800_0000;

/// XOR of all bytes of a sequence, folded from the left with initial value zero.
pub open spec fn spec_xor_fold(s: Seq<u8>) -> u8
    decreases s.len(),
{
    if s.len() == 0 {
        0u8
    } else {
        (spec_xor_fold(s.drop_last()) ^ s.last()) as u8
    }
}

/// XOR checksum over a byte slice, as every multi-byte bootloader frame uses.
pub fn xor_checksum(bytes: &[u8]) -> (r: u8)
    ensures
        r == spec_xor_fold(bytes@),
{
    let mut acc: u8 = 0;
    let mut i: usize = 0;
    while i < bytes.len()
        invariant
            i <= bytes.len(),
            acc == spec_xor_fold(bytes@.take(i as int)),
        decreases bytes.len() - i,
    {
        proof {
            assert(bytes@.take(i + 1).drop_last() =~= bytes@.take(i as int));
        }
        acc = acc ^ bytes[i];
        i = i + 1;
    }
    proof {
        assert(bytes@.take(bytes@.len() as int) =~= bytes@);
    }
    acc
}

/// The four big-endian bytes of a 32-bit address.
pub open spec fn spec_be_bytes(a: u32) -> Seq<u8> {
    seq![
        (a >> 24) as u8,
        ((a >> 16) & 0xFF) as u8,
        ((a >> 8) & 0xFF) as u8,
        (a & 0xFF) as u8,
    ]
}

/// A command frame: the command byte followed by its complement.
pub open spec fn spec_cmd_frame(c: u8) -> Seq<u8> {
    seq![c, (c ^ 0xFF) as u8]
}

/// An address frame: four big-endian address bytes and their XOR.
pub open spec fn spec_address_frame(a: u32) -> Seq<u8> {
    spec_be_bytes(a).push(spec_xor_fold(spec_be_bytes(a)))
}

/// A write-memory payload frame: the length minus one, the data bytes,
/// and the XOR of everything before the checksum byte.
pub open spec fn spec_write_payload_frame(data: Seq<u8>) -> Seq<u8> {
    let body = seq![(data.len() - 1) as u8] + data;
    body.push(spec_xor_fold(body))
}

/// The trailer selecting mass erase under the extended erase command.
pub open spec fn spec_ext_erase_trailer() -> Seq<u8> {
    seq![0xFFu8, 0xFFu8, 0x00u8]
}

/// The trailer selecting mass erase under the legacy erase command.
pub open spec fn spec_legacy_erase_trailer() -> Seq<u8> {
    seq![0xFFu8, 0x00u8]
}

/// Builds the two-byte command frame for a command byte.
pub fn cmd_frame(c: u8) -> (r: Vec<u8>)
    ensures
        r@ == spec_cmd_frame(c),
{
    let mut v: Vec<u8> = Vec::new();
    v.push(c);
    v.push(c ^ 0xFF);
    proof {
        assert(v@ =~= spec_cmd_frame(c));
    }
    v
}

/// Builds the five-byte address frame for a 32-bit address.
pub fn address_frame(a: u32) -> (r: Vec<u8>)
    ensures
        r@ == spec_address_frame(a),
{
    let mut v: Vec<u8> = Vec::new();
    v.push((a >> 24) as u8);
    v.push(((a >> 16) & 0xFF) as u8);
    v.push(((a >> 8) & 0xFF) as u8);
    v.push((a & 0xFF) as u8);
    proof {
        assert(v@ =~= spec_be_bytes(a));
    }
    let ck = xor_checksum(v.as_slice());
    v.push(ck);
    proof {
        assert(v@ =~= spec_address_frame(a));
    }
    v
}

/// Builds the write-memory payload frame for a chunk of one to 256 bytes.
pub fn write_payload_frame(data: &[u8]) -> (r: Vec<u8>)
    requires
        1 <= data@.len() <= 256,
    ensures
        r@ == spec_write_payload_frame(data@),
{
    let mut v: Vec<u8> = Vec::new();
    v.push((data.len() - 1) as u8);
    let mut i: usize = 0;
    while i < data.len()
        invariant
            i <= data.len(),
            1 <= data@.len() <= 256,
            v@ =~= seq![(data@.len() - 1) as u8] + data@.take(i as int),
        decreases data.len() - i,
    {
        v.push(data[i]);
        proof {
            assert(data@.take(i + 1) =~= data@.take(i as int).push(data@[i as int]));
        }
        i = i + 1;
    }
    proof {
        assert(data@.take(data@.len() as int) =~= data@);
        assert(v@ =~= seq![(data@.len() - 1) as u8] + data@);
    }
    let ck = xor_checksum(v.as_slice());
    v.push(ck);
    proof {
        assert(v@ =~= spec_write_payload_frame(data@));
    }
    v
}

/// Builds the mass-erase trailer for the extended erase command.
pub fn ext_erase_trailer() -> (r: Vec<u8>)
    ensures
        r@ == spec_ext_erase_trailer(),
{
    let mut v: Vec<u8> = Vec::new();
    v.push(0xFF);
    v.push(0xFF);
    v.push(0x00);
    proof {
        assert(v@ =~= spec_ext_erase_trailer());
    }
    v
}

/// Builds the mass-erase trailer for the legacy erase command.
pub fn legacy_erase_trailer() -> (r: Vec<u8>)
    ensures
        r@ == spec_legacy_erase_trailer(),
{
    let mut v: Vec<u8> = Vec::new();
    v.push(0xFF);
    v.push(0x00);
    proof {
        assert(v@ =~= spec_legacy_erase_trailer());
    }
    v
}

} // verus!
