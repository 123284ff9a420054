use vstd::prelude::*;

verus! {

/// Everything that can go wrong while talking to the bootloader or
/// preparing a firmware image.
#[derive(Debug, Clone, PartialEq, Eq)]
pub enum Error {
    /// A low-level serial library failure not otherwise classified.
    Serial(String),
    /// An underlying read or write failure other than a timeout.
    Io(String),
    /// A malformed record in the firmware file.
    Hex(String),
    /// A response byte that is neither ACK nor NACK, or a malformed length reply.
    UnexpectedResponse(u8),
    /// No byte arrived within the deadline.
    Timeout,
    /// The target replied NACK to a framed request.
    Nack,
    /// Neither erase command is present in the discovered command set.
    NoEraseSupport,
    /// The port could not be found or opened.
    PortNotFound(String),
    /// The firmware file does not exist.
    HexFileNotFound(String),
    /// The firmware file parsed but holds no data bytes.
    HexFileEmpty,
}

/// The mathematical shape of an `Error`: payload strings as character sequences.
pub enum ErrorSpec {
    Serial(Seq<char>),
    Io(Seq<char>),
    Hex(Seq<char>),
    UnexpectedResponse(u8),
    Timeout,
    Nack,
    NoEraseSupport,
    PortNotFound(Seq<char>),
    HexFileNotFound(Seq<char>),
    HexFileEmpty,
}

impl View for Error {
    type V = ErrorSpec;

    open spec fn view(&self) -> ErrorSpec {
        match self {
            Error::Serial(m) => ErrorSpec::Serial(m@),
            Error::Io(m) => ErrorSpec::Io(m@),
            Error::Hex(m) => ErrorSpec::Hex(m@),
            Error::UnexpectedResponse(b) => ErrorSpec::UnexpectedResponse(*b),
            Error::Timeout => ErrorSpec::Timeout,
            Error::Nack => ErrorSpec::Nack,
            Error::NoEraseSupport => ErrorSpec::NoEraseSupport,
            Error::PortNotFound(n) => ErrorSpec::PortNotFound(n@),
            Error::HexFileNotFound(p) => ErrorSpec::HexFileNotFound(p@),
            Error::HexFileEmpty => ErrorSpec::HexFileEmpty,
        }
    }
}

/// The uppercase hexadecimal digit for a value below sixteen.
pub open spec fn spec_hex_digit(n: u8) -> char {
    if n == 0 { '0' } else if n == 1 { '1' } else if n == 2 { '2' } else if n == 3 { '3' }
    else if n == 4 { '4' } else if n == 5 { '5' } else if n == 6 { '6' } else if n == 7 { '7' }
    else if n == 8 { '8' } else if n == 9 { '9' } else if n == 10 { 'A' } else if n == 11 { 'B' }
    else if n == 12 { 'C' } else if n == 13 { 'D' } else if n == 14 { 'E' } else { 'F' }
}

/// The two uppercase hexadecimal digits of a byte.
pub open spec fn spec_hex_byte(b: u8) -> Seq<char> {
    seq![spec_hex_digit(b / 16), spec_hex_digit((b % 16) as u8)]
}

/// The message a rendered error carries, matching what a shell prints verbatim.
pub open spec fn spec_error_text(e: ErrorSpec) -> Seq<char> {
    match e {
        ErrorSpec::Serial(m) => "serial port error: "@ + m,
        ErrorSpec::Io(m) => "io error: "@ + m,
        ErrorSpec::Hex(m) => "hex parse error: "@ + m,
        ErrorSpec::UnexpectedResponse(b) =>
            "bootloader: unexpected response byte 0x"@ + spec_hex_byte(b),
        ErrorSpec::Timeout => "bootloader: timeout waiting for response"@,
        ErrorSpec::Nack => "bootloader: device returned NACK"@,
        ErrorSpec::NoEraseSupport => "bootloader: no supported erase command"@,
        ErrorSpec::PortNotFound(n) => "port '"@ + n + "' not found or cannot be opened"@,
        ErrorSpec::HexFileNotFound(p) => "hex file '"@ + p + "' not found"@,
        ErrorSpec::HexFileEmpty => "hex file is empty or contains no valid data"@,
    }
}

/// Relies on String::push_str: appends the slice's characters to the string.
#[verifier::external_body]
pub fn push_str(s: &mut String, t: &str)
    ensures
        final(s)@ == old(s)@ + t@,
{
    s.push_str(t);
}

/// Relies on String::push: appends one character to the string.
#[verifier::external_body]
pub fn push_char(s: &mut String, c: char)
    ensures
        final(s)@ == old(s)@.push(c),
{
    s.push(c);
}

/// The uppercase hexadecimal digit for a value below sixteen.
pub fn hex_digit(n: u8) -> (c: char)
    requires
        n < 16,
    ensures
        c == spec_hex_digit(n),
{
    if n == 0 { '0' } else if n == 1 { '1' } else if n == 2 { '2' } else if n == 3 { '3' }
    else if n == 4 { '4' } else if n == 5 { '5' } else if n == 6 { '6' } else if n == 7 { '7' }
    else if n == 8 { '8' } else if n == 9 { '9' } else if n == 10 { 'A' } else if n == 11 { 'B' }
    else if n == 12 { 'C' } else if n == 13 { 'D' } else if n == 14 { 'E' } else { 'F' }
}

/// Appends the two uppercase hexadecimal digits of a byte.
pub fn push_hex_byte(s: &mut String, b: u8)
    ensures
        final(s)@ == old(s)@ + spec_hex_byte(b),
{
    push_char(s, hex_digit(b / 16));
    push_char(s, hex_digit(b % 16));
    proof {
        assert(s@ =~= old(s)@ + spec_hex_byte(b));
    }
}

impl Error {
    /// Renders the error as the message its variant documents.
    pub fn text(&self) -> (r: String)
        ensures
            r@ == spec_error_text(self@),
    {
        let mut s = String::new();
        match self {
            Error::Serial(m) => {
                push_str(&mut s, "serial port error: ");
                push_str(&mut s, m.as_str());
            }
            Error::Io(m) => {
                push_str(&mut s, "io error: ");
                push_str(&mut s, m.as_str());
            }
            Error::Hex(m) => {
                push_str(&mut s, "hex parse error: ");
                push_str(&mut s, m.as_str());
            }
            Error::UnexpectedResponse(b) => {
                push_str(&mut s, "bootloader: unexpected response byte 0x");
                push_hex_byte(&mut s, *b);
            }
            Error::Timeout => {
                push_str(&mut s, "bootloader: timeout waiting for response");
            }
            Error::Nack => {
                push_str(&mut s, "bootloader: device returned NACK");
            }
            Error::NoEraseSupport => {
                push_str(&mut s, "bootloader: no supported erase command");
            }
            Error::PortNotFound(n) => {
                push_str(&mut s, "port '");
                push_str(&mut s, n.as_str());
                push_str(&mut s, "' not found or cannot be opened");
            }
            Error::HexFileNotFound(p) => {
                push_str(&mut s, "hex file '");
                push_str(&mut s, p.as_str());
                push_str(&mut s, "' not found");
            }
            Error::HexFileEmpty => {
                push_str(&mut s, "hex file is empty or contains no valid data");
            }
        }
        proof {
            assert(s@ =~= spec_error_text(self@));
        }
        s
    }
}

} // verus!
