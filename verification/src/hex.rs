use vstd::prelude::*;
use crate::errors::{Error, ErrorSpec, spec_hex_byte, push_str, push_hex_byte};
use crate::image::{Image, seq_to_map};

verus! {

/// An ASCII hexadecimal digit, either case.
pub open spec fn is_hex_digit_byte(c: u8) -> bool {
    (0x30 <= c <= 0x39) || (0x41 <= c <= 0x46) || (0x61 <= c <= 0x66)
}

/// The value of an ASCII hexadecimal digit.
pub open spec fn hex_val(c: u8) -> u8 {
    if 0x30 <= c <= 0x39 {
        (c - 0x30) as u8
    } else if 0x41 <= c <= 0x46 {
        (c - 0x41 + 10) as u8
    } else if 0x61 <= c <= 0x66 {
        (c - 0x61 + 10) as u8
    } else {
        0
    }
}

/// Decodes pairs of hexadecimal digits into bytes.
pub open spec fn decode_pairs(d: Seq<u8>) -> Seq<u8> {
    Seq::new(d.len() / 2, |i: int| (hex_val(d[2 * i]) * 16 + hex_val(d[2 * i + 1])) as u8)
}

/// The wrapping sum of a byte sequence.
pub open spec fn sum8(s: Seq<u8>) -> u8
    decreases s.len(),
{
    if s.len() == 0 {
        0u8
    } else {
        vstd::wrapping::u8_specs::wrapping_add(sum8(s.drop_last()), s.last())
    }
}

/// The record checksum: the two's complement of the byte sum.
pub open spec fn record_checksum(s: Seq<u8>) -> u8 {
    vstd::wrapping::u8_specs::wrapping_sub(0u8, sum8(s))
}

/// How the parse of one record line can fail.
pub enum HexErr {
    /// The line does not begin with a colon.
    MissingStartCode,
    /// Shorter than the smallest valid record.
    RecordTooShort,
    /// Longer than a record with a 255-byte payload.
    RecordTooLong,
    /// Not a whole number of byte pairs.
    RecordNotEvenLength,
    /// A character that is not a hexadecimal digit.
    ContainsInvalidCharacters,
    /// Computed checksum and trailing checksum byte disagree.
    ChecksumMismatch(u8, u8),
    /// The length field disagrees with the payload length.
    PayloadLengthMismatch,
    /// A record type above the highest defined one.
    UnsupportedRecordType(u8),
    /// A defined record type with the wrong payload length.
    InvalidLengthForType,
}

/// The message carried by a record parse failure.
pub open spec fn spec_hex_err_text(e: HexErr) -> Seq<char> {
    match e {
        HexErr::MissingStartCode => "missing start code ':'"@,
        HexErr::RecordTooShort => "too short"@,
        HexErr::RecordTooLong => "too long"@,
        HexErr::RecordNotEvenLength => "record does not contain a whole number of bytes"@,
        HexErr::ContainsInvalidCharacters => "invalid characters encountered in record"@,
        HexErr::ChecksumMismatch(found, expecting) => "invalid checksum '"@ + spec_hex_byte(found)
            + "', expecting '"@ + spec_hex_byte(expecting) + "'"@,
        HexErr::PayloadLengthMismatch => "payload length does not match record header"@,
        HexErr::UnsupportedRecordType(t) => "unsupported IHEX record type '"@ + spec_hex_byte(t)
            + "'"@,
        HexErr::InvalidLengthForType => "payload length invalid for record type"@,
    }
}

/// A record as the image builder consumes it. Types other than data,
/// extended linear address and end-of-file parse but are ignored.
#[derive(Debug)]
pub enum Rec {
    Data { offset: u16, value: Vec<u8> },
    Ela(u16),
    Eof,
    Other,
}

/// The mathematical shape of a record.
pub enum RecSpec {
    Data { offset: u16, value: Seq<u8> },
    Ela(u16),
    Eof,
    Other,
}

impl View for Rec {
    type V = RecSpec;

    open spec fn view(&self) -> RecSpec {
        match self {
            Rec::Data { offset, value } => RecSpec::Data { offset: *offset, value: value@ },
            Rec::Ela(v) => RecSpec::Ela(*v),
            Rec::Eof => RecSpec::Eof,
            Rec::Other => RecSpec::Other,
        }
    }
}

/// The meaning of one record line: the checks run in the same order a
/// reader reports them, and the checksum is validated over everything
/// before the trailing checksum byte.
pub open spec fn spec_parse_record(line: Seq<u8>) -> Result<RecSpec, HexErr> {
    if line.len() == 0 || line[0] != 0x3Au8 {
        Err(HexErr::MissingStartCode)
    } else {
        let d = line.skip(1);
        if !(forall|i: int| 0 <= i < d.len() ==> is_hex_digit_byte(#[trigger] d[i])) {
            Err(HexErr::ContainsInvalidCharacters)
        } else if d.len() < 10 {
            Err(HexErr::RecordTooShort)
        } else if d.len() > 520 {
            Err(HexErr::RecordTooLong)
        } else if d.len() % 2 != 0 {
            Err(HexErr::RecordNotEvenLength)
        } else {
            let bytes = decode_pairs(d);
            let expected = bytes.last();
            let region = bytes.drop_last();
            let found = record_checksum(region);
            if found != expected {
                Err(HexErr::ChecksumMismatch(found, expected))
            } else {
                let length = region[0];
                let addr = ((region[1] as u16) << 8 | (region[2] as u16)) as u16;
                let rtype = region[3];
                let payload = region.skip(4);
                if payload.len() != length {
                    Err(HexErr::PayloadLengthMismatch)
                } else if rtype == 0 {
                    Ok(RecSpec::Data { offset: addr, value: payload })
                } else if rtype == 1 {
                    if payload.len() == 0 {
                        Ok(RecSpec::Eof)
                    } else {
                        Err(HexErr::InvalidLengthForType)
                    }
                } else if rtype == 2 {
                    if payload.len() == 2 {
                        Ok(RecSpec::Other)
                    } else {
                        Err(HexErr::InvalidLengthForType)
                    }
                } else if rtype == 3 {
                    if payload.len() == 4 {
                        Ok(RecSpec::Other)
                    } else {
                        Err(HexErr::InvalidLengthForType)
                    }
                } else if rtype == 4 {
                    if payload.len() == 2 {
                        Ok(RecSpec::Ela(((payload[0] as u16) << 8 | (payload[1] as u16)) as u16))
                    } else {
                        Err(HexErr::InvalidLengthForType)
                    }
                } else if rtype == 5 {
                    if payload.len() == 4 {
                        Ok(RecSpec::Other)
                    } else {
                        Err(HexErr::InvalidLengthForType)
                    }
                } else {
                    Err(HexErr::UnsupportedRecordType(rtype))
                }
            }
        }
    }
}

/// The position of the first newline byte, or the length if none.
pub open spec fn find_nl(t: Seq<u8>) -> int
    decreases t.len(),
{
    if t.len() == 0 {
        0
    } else if t[0] == 0x0Au8 {
        0
    } else {
        1 + find_nl(t.drop_first())
    }
}

pub proof fn lemma_find_nl(t: Seq<u8>)
    ensures
        0 <= find_nl(t) <= t.len(),
        find_nl(t) < t.len() ==> t[find_nl(t)] == 0x0Au8,
        forall|j: int| 0 <= j < find_nl(t) ==> t[j] != 0x0Au8,
    decreases t.len(),
{
    if t.len() > 0 && t[0] != 0x0Au8 {
        lemma_find_nl(t.drop_first());
        assert forall|j: int| 0 <= j < find_nl(t) implies t[j] != 0x0Au8 by {
            if j > 0 {
                assert(t.drop_first()[j - 1] != 0x0Au8);
            }
        }
    }
}

/// Drops one carriage return before a newline.
pub open spec fn strip_cr(l: Seq<u8>) -> Seq<u8> {
    if l.len() > 0 && l.last() == 0x0Du8 {
        l.drop_last()
    } else {
        l
    }
}

/// The line segments of a text: split at newlines, each segment that a
/// newline closed shedding one trailing carriage return, and the final
/// unterminated segment kept as it stands.
pub open spec fn spec_lines(t: Seq<u8>) -> Seq<Seq<u8>>
    decreases t.len(),
    via spec_lines_dec
{
    if t.len() == 0 {
        Seq::empty()
    } else {
        let i = find_nl(t);
        if i >= t.len() {
            seq![t]
        } else {
            seq![strip_cr(t.take(i))] + spec_lines(t.skip(i + 1))
        }
    }
}

#[via_fn]
proof fn spec_lines_dec(t: Seq<u8>) {
    lemma_find_nl(t);
}

/// An ASCII whitespace byte, as trimming a line sees it.
pub open spec fn is_ascii_space(b: u8) -> bool {
    b == 0x20 || (0x09 <= b <= 0x0D)
}

/// A line that trims to nothing is skipped.
pub open spec fn is_blank(l: Seq<u8>) -> bool {
    forall|j: int| 0 <= j < l.len() ==> is_ascii_space(#[trigger] l[j])
}

/// Stores a data record's bytes at consecutive addresses from the
/// base, wrapping modulo the 32-bit address space, later bytes
/// overwriting earlier ones.
pub open spec fn spec_run_record(m: Map<u32, u8>, base: u32, value: Seq<u8>) -> Map<u32, u8>
    decreases value.len(),
{
    if value.len() == 0 {
        m
    } else {
        spec_run_record(m, base, value.drop_last()).insert(
            vstd::wrapping::u32_specs::wrapping_add(base, (value.len() - 1) as u32),
            value.last(),
        )
    }
}

/// Folds the records of the remaining lines into the image: data
/// records store bytes under the current upper address half, extended
/// linear address records replace it, end-of-file stops, other
/// recognised records are ignored, and the first malformed record
/// fails the whole parse.
pub open spec fn spec_build(lines: Seq<Seq<u8>>, i: int, upper: u32, m: Map<u32, u8>) -> Result<
    Map<u32, u8>,
    HexErr,
>
    decreases lines.len() - i,
{
    if i < 0 || i >= lines.len() {
        Ok(m)
    } else if is_blank(lines[i]) {
        spec_build(lines, i + 1, upper, m)
    } else {
        match spec_parse_record(lines[i]) {
            Err(e) => Err(e),
            Ok(RecSpec::Data { offset, value }) => spec_build(
                lines,
                i + 1,
                upper,
                spec_run_record(m, (upper << 16) | (offset as u32), value),
            ),
            Ok(RecSpec::Ela(v)) => spec_build(lines, i + 1, v as u32, m),
            Ok(RecSpec::Eof) => Ok(m),
            Ok(RecSpec::Other) => spec_build(lines, i + 1, upper, m),
        }
    }
}

/// What parsing a whole text denotes: the sparse image map, or the
/// first record error.
pub open spec fn spec_parse_image(t: Seq<u8>) -> Result<Map<u32, u8>, HexErr> {
    spec_build(spec_lines(t), 0, 0u32, Map::empty())
}

/// The views of a split line list.
pub open spec fn lines_view(ls: Seq<Vec<u8>>) -> Seq<Seq<u8>> {
    ls.map_values(|l: Vec<u8>| l@)
}

fn hex_error(msg: &str) -> (e: Error)
    ensures
        e@ == ErrorSpec::Hex(msg@),
{
    let mut s = String::new();
    push_str(&mut s, msg);
    proof {
        assert(s@ =~= msg@);
    }
    Error::Hex(s)
}

fn is_hex_digit_exec(c: u8) -> (r: bool)
    ensures
        r == is_hex_digit_byte(c),
{
    (0x30 <= c && c <= 0x39) || (0x41 <= c && c <= 0x46) || (0x61 <= c && c <= 0x66)
}

fn hex_val_exec(c: u8) -> (r: u8)
    ensures
        r == hex_val(c),
        r <= 15,
{
    if 0x30 <= c && c <= 0x39 {
        c - 0x30
    } else if 0x41 <= c && c <= 0x46 {
        c - 0x41 + 10
    } else if 0x61 <= c && c <= 0x66 {
        c - 0x61 + 10
    } else {
        0
    }
}

fn sum_prefix(v: &Vec<u8>, n: usize) -> (r: u8)
    requires
        n <= v@.len(),
    ensures
        r == sum8(v@.take(n as int)),
{
    let mut acc: u8 = 0;
    let mut i: usize = 0;
    while i < n
        invariant
            i <= n <= v@.len(),
            acc == sum8(v@.take(i as int)),
        decreases n - i,
    {
        proof {
            assert(v@.take(i + 1).drop_last() =~= v@.take(i as int));
        }
        acc = acc.wrapping_add(v[i]);
        i = i + 1;
    }
    acc
}

/// Parses one record line, reporting the exact failure a reader of
/// this format names.
pub fn parse_record(line: &Vec<u8>) -> (r: Result<Rec, Error>)
    ensures
        match r {
            Ok(rec) => spec_parse_record(line@) == Ok::<RecSpec, HexErr>(rec@),
            Err(e) => spec_parse_record(line@) matches Err(h) && e@ == ErrorSpec::Hex(
                spec_hex_err_text(h),
            ),
        },
{
    if line.len() == 0 || line[0] != 0x3A {
        return Err(hex_error("missing start code ':'"));
    }
    let ghost d = line@.skip(1);
    let d_len = line.len() - 1;
    let mut i: usize = 0;
    while i < d_len
        invariant
            line@.len() >= 1 && line@[0] == 0x3Au8,
            d == line@.skip(1),
            d_len == d.len(),
            d_len == line@.len() - 1,
            i <= d_len,
            forall|j: int| 0 <= j < i ==> is_hex_digit_byte(#[trigger] d[j]),
        decreases d_len - i,
    {
        if !is_hex_digit_exec(line[i + 1]) {
            proof {
                assert(line@.skip(1)[i as int] == line@[i + 1]);
                assert(!is_hex_digit_byte(line@.skip(1)[i as int]));
                assert(spec_parse_record(line@) == Err::<RecSpec, HexErr>(
                    HexErr::ContainsInvalidCharacters,
                ));
            }
            return Err(hex_error("invalid characters encountered in record"));
        }
        proof {
            assert(d[i as int] == line@[i + 1]);
        }
        i = i + 1;
    }
    if d_len < 10 {
        return Err(hex_error("too short"));
    }
    if d_len > 520 {
        return Err(hex_error("too long"));
    }
    if d_len % 2 != 0 {
        return Err(hex_error("record does not contain a whole number of bytes"));
    }
    let m = d_len / 2;
    let mut bytes: Vec<u8> = Vec::new();
    let mut k: usize = 0;
    while k < m
        invariant
            line@.len() >= 1 && line@[0] == 0x3Au8,
            d == line@.skip(1),
            d_len == d.len(),
            d_len == line@.len() - 1,
            m == d_len / 2,
            d_len % 2 == 0,
            k <= m,
            forall|j: int| 0 <= j < d.len() ==> is_hex_digit_byte(#[trigger] d[j]),
            bytes@ =~= decode_pairs(d).take(k as int),
        decreases m - k,
    {
        let hi = hex_val_exec(line[1 + 2 * k]);
        let lo = hex_val_exec(line[2 + 2 * k]);
        bytes.push(hi * 16 + lo);
        proof {
            assert(d[2 * k as int] == line@[1 + 2 * k]);
            assert(d[2 * k as int + 1] == line@[2 + 2 * k]);
            assert(decode_pairs(d).take(k + 1) =~= decode_pairs(d).take(k as int).push(
                decode_pairs(d)[k as int],
            ));
        }
        k = k + 1;
    }
    proof {
        assert(bytes@ =~= decode_pairs(d));
        assert(bytes@.len() >= 5);
    }
    let rl = bytes.len() - 1;
    let expected = bytes[rl];
    let found = 0u8.wrapping_sub(sum_prefix(&bytes, rl));
    let ghost region = decode_pairs(d).drop_last();
    proof {
        assert(bytes@.take(rl as int) =~= region);
    }
    if found != expected {
        let mut s = String::new();
        push_str(&mut s, "invalid checksum '");
        push_hex_byte(&mut s, found);
        push_str(&mut s, "', expecting '");
        push_hex_byte(&mut s, expected);
        push_str(&mut s, "'");
        proof {
            assert(s@ =~= spec_hex_err_text(HexErr::ChecksumMismatch(found, expected)));
        }
        return Err(Error::Hex(s));
    }
    let length = bytes[0];
    let addr = ((bytes[1] as u16) << 8) | (bytes[2] as u16);
    let rtype = bytes[3];
    let ghost payload_s = region.skip(4);
    proof {
        assert(payload_s.len() == rl - 4);
    }
    if rl - 4 != length as usize {
        return Err(hex_error("payload length does not match record header"));
    }
    if rtype == 0 {
        let mut payload: Vec<u8> = Vec::new();
        let mut j: usize = 4;
        while j < rl
            invariant
                4 <= j <= rl,
                rl < bytes@.len(),
                region == bytes@.take(rl as int),
                payload_s == region.skip(4),
                payload@ =~= payload_s.take(j - 4),
            decreases rl - j,
        {
            payload.push(bytes[j]);
            proof {
                assert(payload_s[j - 4] == bytes@[j as int]);
                assert(payload_s.take(j - 4 + 1) =~= payload_s.take(j - 4).push(
                    payload_s[j - 4],
                ));
            }
            j = j + 1;
        }
        proof {
            assert(payload@ =~= payload_s);
        }
        Ok(Rec::Data { offset: addr, value: payload })
    } else if rtype == 1 {
        if rl - 4 == 0 {
            Ok(Rec::Eof)
        } else {
            Err(hex_error("payload length invalid for record type"))
        }
    } else if rtype == 2 {
        if rl - 4 == 2 {
            Ok(Rec::Other)
        } else {
            Err(hex_error("payload length invalid for record type"))
        }
    } else if rtype == 3 {
        if rl - 4 == 4 {
            Ok(Rec::Other)
        } else {
            Err(hex_error("payload length invalid for record type"))
        }
    } else if rtype == 4 {
        if rl - 4 == 2 {
            proof {
                assert(payload_s[0] == bytes@[4]);
                assert(payload_s[1] == bytes@[5]);
            }
            Ok(Rec::Ela(((bytes[4] as u16) << 8) | (bytes[5] as u16)))
        } else {
            Err(hex_error("payload length invalid for record type"))
        }
    } else if rtype == 5 {
        if rl - 4 == 4 {
            Ok(Rec::Other)
        } else {
            Err(hex_error("payload length invalid for record type"))
        }
    } else {
        let mut s = String::new();
        push_str(&mut s, "unsupported IHEX record type '");
        push_hex_byte(&mut s, rtype);
        push_str(&mut s, "'");
        proof {
            assert(s@ =~= spec_hex_err_text(HexErr::UnsupportedRecordType(rtype)));
        }
        Err(Error::Hex(s))
    }
}

fn is_blank_exec(line: &Vec<u8>) -> (r: bool)
    ensures
        r == is_blank(line@),
{
    let mut i: usize = 0;
    while i < line.len()
        invariant
            i <= line@.len(),
            forall|j: int| 0 <= j < i ==> is_ascii_space(#[trigger] line@[j]),
        decreases line@.len() - i,
    {
        let b = line[i];
        if !(b == 0x20 || (0x09 <= b && b <= 0x0D)) {
            return false;
        }
        i = i + 1;
    }
    true
}

/// Splits a text into its lines exactly as the line spec describes.
fn split_lines(text: &[u8]) -> (r: Vec<Vec<u8>>)
    ensures
        lines_view(r@) == spec_lines(text@),
{
    let mut out: Vec<Vec<u8>> = Vec::new();
    let mut cur: Vec<u8> = Vec::new();
    let mut i: usize = 0;
    proof {
        assert(cur@ + text@.skip(0) =~= text@);
        assert(lines_view(out@) =~= Seq::<Seq<u8>>::empty());
        assert(lines_view(out@) + spec_lines(text@) =~= spec_lines(text@));
    }
    while i < text.len()
        invariant
            i <= text@.len(),
            forall|j: int| 0 <= j < cur@.len() ==> (#[trigger] cur@[j]) != 0x0Au8,
            spec_lines(text@) =~= lines_view(out@) + spec_lines(cur@ + text@.skip(i as int)),
        decreases text@.len() - i,
    {
        let b = text[i];
        let ghost c_orig = cur@;
        let ghost tail = cur@ + text@.skip(i as int);
        proof {
            assert(tail[c_orig.len() as int] == text@[i as int]);
            assert(forall|j: int| 0 <= j < c_orig.len() ==> tail[j] == c_orig[j]);
        }
        if b == 0x0A {
            proof {
                lemma_find_nl(tail);
                if find_nl(tail) < c_orig.len() {
                    assert(tail[find_nl(tail)] == 0x0Au8);
                    assert(false);
                }
                assert(find_nl(tail) == c_orig.len());
                assert(tail.take(c_orig.len() as int) =~= c_orig);
                assert(tail.skip(c_orig.len() as int + 1) =~= text@.skip(i + 1));
                assert(spec_lines(tail) =~= seq![strip_cr(c_orig)] + spec_lines(
                    text@.skip(i + 1),
                ));
            }
            if cur.len() > 0 && cur[cur.len() - 1] == 0x0D {
                cur.pop();
                proof {
                    assert(cur@ =~= strip_cr(c_orig));
                }
            } else {
                proof {
                    assert(cur@ == strip_cr(c_orig));
                }
            }
            let ghost o0 = out@;
            out.push(cur);
            proof {
                assert(lines_view(out@) =~= lines_view(o0).push(strip_cr(c_orig)));
                assert(lines_view(out@) + spec_lines(text@.skip(i + 1)) =~= lines_view(o0) + (
                seq![strip_cr(c_orig)] + spec_lines(text@.skip(i + 1))));
            }
            cur = Vec::new();
            proof {
                assert(cur@ + text@.skip(i + 1) =~= text@.skip(i + 1));
                assert(spec_lines(text@) =~= lines_view(out@) + spec_lines(
                    cur@ + text@.skip(i + 1),
                ));
            }
        } else {
            cur.push(b);
            proof {
                assert(cur@ + text@.skip(i + 1) =~= c_orig + text@.skip(i as int));
            }
        }
        i = i + 1;
    }
    proof {
        assert(cur@ + text@.skip(text@.len() as int) =~= cur@);
    }
    if cur.len() > 0 {
        proof {
            lemma_find_nl(cur@);
            if find_nl(cur@) < cur@.len() {
                assert(cur@[find_nl(cur@)] == 0x0Au8);
                assert(false);
            }
            assert(spec_lines(cur@) =~= seq![cur@]);
        }
        let ghost o0 = out@;
        out.push(cur);
        proof {
            assert(lines_view(out@) =~= lines_view(o0).push(out@.last()@));
            assert(lines_view(out@) =~= spec_lines(text@));
        }
    } else {
        proof {
            assert(spec_lines(cur@) =~= Seq::<Seq<u8>>::empty());
            assert(lines_view(out@) + spec_lines(cur@) =~= lines_view(out@));
        }
    }
    out
}

/// Parses an Intel HEX text into a sparse firmware image.
///
/// On success the image denotes exactly the mapping the record spec
/// builds, with bytes from later data records overwriting earlier
/// ones; a text whose records parse but store nothing is rejected as
/// empty, and the first malformed record is rejected with its message.
pub fn parse_hex_to_image(text: &[u8]) -> (r: Result<Image, Error>)
    ensures
        match r {
            Ok(img) => {
                &&& img.wf()
                &&& spec_parse_image(text@) matches Ok(m) && img.to_map() == m
                &&& img@.len() > 0
            },
            Err(e) => {
                ||| (spec_parse_image(text@) matches Err(h) && e@ == ErrorSpec::Hex(
                    spec_hex_err_text(h),
                ))
                ||| (spec_parse_image(text@) matches Ok(m) && m == Map::<u32, u8>::empty() && e@
                    == ErrorSpec::HexFileEmpty)
            },
        },
{
    let lines = split_lines(text);
    let ghost lv = lines_view(lines@);
    let mut image = Image::new();
    let mut upper: u32 = 0;
    let mut li: usize = 0;
    let mut done = false;
    proof {
        assert(seq_to_map(Seq::<(u32, u8)>::empty()) == Map::<u32, u8>::empty());
    }
    while li < lines.len() && !done
        invariant
            lv == lines_view(lines@),
            li <= lines@.len(),
            image.wf(),
            !done ==> spec_build(lv, li as int, upper, image.to_map()) == spec_parse_image(
                text@,
            ),
            done ==> spec_parse_image(text@) == Ok::<Map<u32, u8>, HexErr>(image.to_map()),
        decreases lines@.len() - li,
    {
        let line = &lines[li];
        proof {
            assert(lv[li as int] == line@);
        }
        if is_blank_exec(line) {
            li = li + 1;
        } else {
            match parse_record(line) {
                Err(e) => {
                    return Err(e);
                },
                Ok(Rec::Data { offset, value }) => {
                    let base = (upper << 16) | (offset as u32);
                    let ghost m0 = image.to_map();
                    let mut k: usize = 0;
                    while k < value.len()
                        invariant
                            k <= value@.len(),
                            image.wf(),
                            image.to_map() == spec_run_record(m0, base, value@.take(k as int)),
                        decreases value@.len() - k,
                    {
                        proof {
                            assert(value@.take(k + 1).drop_last() =~= value@.take(k as int));
                            assert(value@.take(k + 1).last() == value@[k as int]);
                        }
                        image.insert(base.wrapping_add(k as u32), value[k]);
                        k = k + 1;
                    }
                    proof {
                        assert(value@.take(value@.len() as int) =~= value@);
                    }
                    li = li + 1;
                },
                Ok(Rec::Ela(v)) => {
                    upper = v as u32;
                    li = li + 1;
                },
                Ok(Rec::Eof) => {
                    done = true;
                    li = lines.len();
                },
                Ok(Rec::Other) => {
                    li = li + 1;
                },
            }
        }
    }
    if image.len() == 0 {
        proof {
            assert(image@ =~= Seq::<(u32, u8)>::empty());
            assert(image.to_map() == Map::<u32, u8>::empty());
        }
        return Err(Error::HexFileEmpty);
    }
    Ok(image)
}

} // verus!
