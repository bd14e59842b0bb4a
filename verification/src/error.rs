use vstd::prelude::*;
use vstd::std_specs::convert::FromSpecImpl;
use vstd::string::StringExecFns;

verus! {

/// `std::io::Error`, carried through the library unopened.
#[verifier::external_type_specification]
#[verifier::external_body]
pub struct ExIoError(std::io::Error);

/// Everything that can go wrong while reading or writing an Omni stream.
#[derive(Debug)]
pub enum OmniError {
    /// I/O error reported by the operating system.
    Io(std::io::Error),
    /// A LEB128 varint would overflow `u64`.
    VarintOverflow,
    /// The input ended in the middle of a value.
    UnexpectedEof,
    /// No valid index footer was found.
    NoIndexFound,
    /// The magic number does not match.
    InvalidMagic,
    /// An offset of 0 is not allowed.
    InvalidOffset,
    /// A block length exceeds the available data.
    BlockTooLarge,
    /// The type list of a block is empty (at least one type varint is required).
    EmptyBlockType,
}

/// `std::io::Error::kind` compared with `ErrorKind::UnexpectedEof`: whether the
/// error reports that the input ended too early. Nothing is claimed of which
/// errors do.
#[verifier::external_body]
fn io_error_is_unexpected_eof(e: &std::io::Error) -> bool {
    e.kind() == std::io::ErrorKind::UnexpectedEof
}

/// `std::io::Error`'s `Display` text. Nothing is claimed of it.
#[verifier::external_body]
fn io_error_text(e: &std::io::Error) -> String {
    format!("{}", e)
}

impl OmniError {
    /// An I/O error as an Omni error: an early end of input becomes
    /// `UnexpectedEof`, every other error is kept as `Io`. Whether the error is an
    /// early end of input is asked of `std::io::Error::kind`.
    pub fn from_io(e: std::io::Error) -> (r: OmniError)
        ensures
            r is UnexpectedEof || r == OmniError::Io(e),
    {
        let unexpected_eof = io_error_is_unexpected_eof(&e);
        OmniError::from_io_kind(e, unexpected_eof)
    }

    /// An I/O error as an Omni error, given whether its kind is `UnexpectedEof`.
    pub fn from_io_kind(e: std::io::Error, unexpected_eof: bool) -> (r: OmniError)
        ensures
            unexpected_eof ==> r is UnexpectedEof,
            !unexpected_eof ==> r == OmniError::Io(e),
    {
        if unexpected_eof {
            OmniError::UnexpectedEof
        } else {
            OmniError::Io(e)
        }
    }

    /// The message of an I/O error whose own text is `text`.
    pub fn io_message(text: &str) -> (r: String)
        ensures
            r@ == "I/O Fehler: "@ + text@,
    {
        let mut m = String::from_str("I/O Fehler: ");
        m.append(text);
        m
    }

    /// The message `Display` shows.
    pub fn to_string(&self) -> (r: String)
        ensures
            self is VarintOverflow ==> r@ == "Varint Overflow: Wert überschreitet u64"@,
            self is UnexpectedEof ==> r@ == "Unerwartetes Dateiende"@,
            self is NoIndexFound ==> r@ == "Kein Index-Footer gefunden"@,
            self is InvalidMagic ==> r@ == "Ungültige Magic Number – keine Omni-Datei"@,
            self is InvalidOffset ==> r@ == "Offset 0 ist nicht erlaubt"@,
            self is BlockTooLarge ==> r@ == "Block-Länge überschreitet Puffergröße"@,
            self is EmptyBlockType ==> r@ == "Block-Typ darf nicht leer sein"@,
            self is Io ==> exists|text: Seq<char>| r@ == "I/O Fehler: "@ + text,
    {
        match self {
            OmniError::Io(e) => {
                let t = io_error_text(e);
                OmniError::io_message(t.as_str())
            },
            OmniError::VarintOverflow => String::from_str("Varint Overflow: Wert überschreitet u64"),
            OmniError::UnexpectedEof => String::from_str("Unerwartetes Dateiende"),
            OmniError::NoIndexFound => String::from_str("Kein Index-Footer gefunden"),
            OmniError::InvalidMagic => String::from_str("Ungültige Magic Number – keine Omni-Datei"),
            OmniError::InvalidOffset => String::from_str("Offset 0 ist nicht erlaubt"),
            OmniError::BlockTooLarge => String::from_str("Block-Länge überschreitet Puffergröße"),
            OmniError::EmptyBlockType => String::from_str("Block-Typ darf nicht leer sein"),
        }
    }
}

/// Lets `?` turn I/O errors into Omni errors, as `from_io` does.
impl From<std::io::Error> for OmniError {
    fn from(e: std::io::Error) -> (r: OmniError)
        ensures
            r is UnexpectedEof || r == OmniError::Io(e),
    {
        OmniError::from_io(e)
    }
}

/// `from` is not a function of the error's spec value alone (it depends on the
/// error's kind, which stays opaque), so no `from_spec` is claimed to hold; the
/// contract of `from` above says what does.
impl FromSpecImpl<std::io::Error> for OmniError {
    open spec fn obeys_from_spec() -> bool {
        false
    }

    open spec fn from_spec(e: std::io::Error) -> OmniError {
        OmniError::Io(e)
    }
}

} // verus!
