//! Checks applied to user input before it reaches the store: the reserved label,
//! base32 seeds and command words.
use vstd::prelude::*;
use vstd::string::StringSliceAdditionalSpecFns;

verus! {

/// Largest accepted seed, in bytes.
pub const MAX_SECRET_LEN: usize = 128;

/// ASCII lower-casing of one byte.
pub open spec fn ascii_lower(b: u8) -> u8 {
    if 65 <= b <= 90 {
        (b + 32) as u8
    } else {
        b
    }
}

/// Equality of two byte strings up to ASCII case.
pub open spec fn eq_ignore_case(a: Seq<u8>, b: Seq<u8>) -> bool {
    &&& a.len() == b.len()
    &&& forall|i: int| 0 <= i < a.len() ==> ascii_lower(#[trigger] a[i]) == ascii_lower(b[i])
}

/// The bytes of the reserved label `__version__`.
pub open spec fn sentinel_label() -> Seq<u8> {
    seq![95u8, 95, 118, 101, 114, 115, 105, 111, 110, 95, 95]
}

/// Whether `label` is the reserved label, in any case.
pub open spec fn is_reserved_spec(label: Seq<u8>) -> bool {
    eq_ignore_case(label, sentinel_label())
}

/// The reserved label `__version__`, under which the store keeps its password check.
pub fn sentinel() -> (r: Vec<u8>)
    ensures
        r@ == sentinel_label(),
{
    let r = vec![95u8, 95, 118, 101, 114, 115, 105, 111, 110, 95, 95];
    assert(r@ == sentinel_label());
    r
}

/// Lower-cases one ASCII byte.
pub fn lower_byte(b: u8) -> (r: u8)
    ensures
        r == ascii_lower(b),
{
    if 65 <= b && b <= 90 {
        b + 32
    } else {
        b
    }
}

/// Compares two byte strings, ignoring ASCII case.
pub fn bytes_eq_ignore_case(a: &[u8], b: &[u8]) -> (r: bool)
    ensures
        r == eq_ignore_case(a@, b@),
{
    if a.len() != b.len() {
        return false;
    }
    let mut i: usize = 0;
    while i < a.len()
        invariant
            a@.len() == b@.len(),
            i <= a@.len(),
            forall|j: int| 0 <= j < i ==> ascii_lower(#[trigger] a@[j]) == ascii_lower(b@[j]),
        decreases a@.len() - i,
    {
        if lower_byte(a[i]) != lower_byte(b[i]) {
            return false;
        }
        i += 1;
    }
    true
}

/// Whether `label` names the reserved entry, ignoring ASCII case.
pub fn is_reserved(label: &[u8]) -> (r: bool)
    ensures
        r == is_reserved_spec(label@),
{
    let s = sentinel();
    bytes_eq_ignore_case(label, s.as_slice())
}

/// Why a command was refused.
#[derive(Debug, Clone, Copy, PartialEq, Eq, Structural)]
pub enum CmdError {
    /// No label was given.
    MissingLabel,
    /// The label is the reserved one.
    InvalidLabel,
    /// No seed was given.
    MissingData,
    /// The seed is not base32.
    NotBase32,
    /// The seed decodes to no bytes.
    EmptyData,
    /// The seed decodes to more than `MAX_SECRET_LEN` bytes.
    TooLong,
    /// No entry exists under the label.
    UnknownLabel,
    /// An entry exists under the label but does not decrypt under this session's key.
    Unreadable,
    /// No fresh nonce could be drawn for the encryption.
    NoFreshNonce,
}

/// The message shown to the user for an error.
pub open spec fn message_spec(e: CmdError) -> Seq<char> {
    match e {
        CmdError::MissingLabel => "Missing <label>"@,
        CmdError::InvalidLabel => "Invalid <label>"@,
        CmdError::MissingData => "Missing <data>"@,
        CmdError::NotBase32 => "<data> is not base32"@,
        CmdError::EmptyData => "<data> is empty"@,
        CmdError::TooLong => "<data> is too long"@,
        CmdError::UnknownLabel => "Unknown <label>"@,
        CmdError::Unreadable => "Entry under <label> cannot be decrypted"@,
        CmdError::NoFreshNonce => "No random nonce available"@,
    }
}

impl CmdError {
    /// The message shown to the user.
    pub fn message(&self) -> (r: &'static str)
        ensures
            r@ == message_spec(*self),
    {
        match self {
            CmdError::MissingLabel => "Missing <label>",
            CmdError::InvalidLabel => "Invalid <label>",
            CmdError::MissingData => "Missing <data>",
            CmdError::NotBase32 => "<data> is not base32",
            CmdError::EmptyData => "<data> is empty",
            CmdError::TooLong => "<data> is too long",
            CmdError::UnknownLabel => "Unknown <label>",
            CmdError::Unreadable => "Entry under <label> cannot be decrypted",
            CmdError::NoFreshNonce => "No random nonce available",
        }
    }
}

/// Whether `b` is a symbol of the RFC 4648 base32 alphabet (`A`-`Z`, `2`-`7`).
pub open spec fn is_base32_symbol(b: u8) -> bool {
    (65 <= b <= 90) || (50 <= b <= 55)
}

/// What `data_encoding::BASE32_NOPAD` decodes `text` to, or `None` where it refuses it.
pub uninterp spec fn base32_decoding(text: Seq<u8>) -> Option<Seq<u8>>;

/// Relies on `data_encoding::BASE32_NOPAD.decode`: RFC 4648 base32 without padding;
/// `Err` on a symbol outside the alphabet `A`-`Z`, `2`-`7` (lower-case letters and
/// padding included), or a length that no input can have.
#[verifier::external_body]
fn decode_base32(text: &[u8]) -> (r: Option<Vec<u8>>)
    ensures
        match r {
            Some(v) => base32_decoding(text@) == Some(v@),
            None => base32_decoding(text@) is None,
        },
        (exists|i: int| 0 <= i < text@.len() && !is_base32_symbol(#[trigger] text@[i])) ==> r is None,
        (exists|i: int| 0 <= i < text@.len() && 97 <= #[trigger] text@[i] <= 122) ==> r is None,
{
    match data_encoding::BASE32_NOPAD.decode(text) {
        Ok(v) => Some(v),
        Err(_) => None,
    }
}

/// What a decoded seed yields: the seed itself, or the error for it.
pub open spec fn secret_outcome(decoded: Option<Seq<u8>>) -> Result<Seq<u8>, CmdError> {
    match decoded {
        None => Err(CmdError::NotBase32),
        Some(s) => if s.len() == 0 {
            Err(CmdError::EmptyData)
        } else if s.len() > MAX_SECRET_LEN {
            Err(CmdError::TooLong)
        } else {
            Ok(s)
        },
    }
}

/// The contents of an optional byte vector.
pub open spec fn bytes_view(o: Option<Vec<u8>>) -> Option<Seq<u8>> {
    match o {
        Some(v) => Some(v@),
        None => None,
    }
}

/// Accepts a decoded seed of 1 to `MAX_SECRET_LEN` bytes.
pub fn check_secret(decoded: Option<Vec<u8>>) -> (r: Result<Vec<u8>, CmdError>)
    ensures
        match r {
            Ok(v) => secret_outcome(bytes_view(decoded)) == Ok::<Seq<u8>, CmdError>(v@),
            Err(e) => secret_outcome(bytes_view(decoded)) == Err::<Seq<u8>, CmdError>(e),
        },
{
    match decoded {
        None => Err(CmdError::NotBase32),
        Some(v) => if v.len() == 0 {
            Err(CmdError::EmptyData)
        } else if v.len() > MAX_SECRET_LEN {
            Err(CmdError::TooLong)
        } else {
            Ok(v)
        },
    }
}

/// Decodes a base32 seed as typed by the user and checks its size.
pub fn parse_secret(text: &str) -> (r: Result<Vec<u8>, CmdError>)
    ensures
        match r {
            Ok(v) => secret_outcome(base32_decoding(text.spec_bytes())) == Ok::<Seq<u8>, CmdError>(v@),
            Err(e) => secret_outcome(base32_decoding(text.spec_bytes())) == Err::<Seq<u8>, CmdError>(e),
        },
        (exists|i: int| 0 <= i < text.spec_bytes().len() && !is_base32_symbol(#[trigger] text.spec_bytes()[i]))
            ==> r == Err::<Vec<u8>, CmdError>(CmdError::NotBase32),
{
    let decoded = decode_base32(text.as_bytes());
    assert(bytes_view(decoded) == base32_decoding(text.spec_bytes()));
    check_secret(decoded)
}

/// A command of the interactive session.
#[derive(Debug, Clone, Copy, PartialEq, Eq, Structural)]
pub enum Command {
    Add,
    Show,
    Remove,
    Help,
    Exit,
    Unknown,
}

/// The command that a word names, ignoring ASCII case.
pub open spec fn command_of(word: Seq<u8>) -> Command {
    if eq_ignore_case(word, seq![97u8, 100, 100]) {
        Command::Add
    } else if eq_ignore_case(word, seq![115u8, 104, 111, 119]) {
        Command::Show
    } else if eq_ignore_case(word, seq![114u8, 101, 109, 111, 118, 101]) {
        Command::Remove
    } else if eq_ignore_case(word, seq![104u8, 101, 108, 112]) {
        Command::Help
    } else if eq_ignore_case(word, seq![101u8, 120, 105, 116]) {
        Command::Exit
    } else {
        Command::Unknown
    }
}

/// Reads a command word (`add`, `show`, `remove`, `help`, `exit`, in any case).
pub fn parse_command(word: &str) -> (r: Command)
    ensures
        r == command_of(word.spec_bytes()),
{
    let w = word.as_bytes();
    let add = vec![97u8, 100, 100];
    let show = vec![115u8, 104, 111, 119];
    let remove = vec![114u8, 101, 109, 111, 118, 101];
    let help = vec![104u8, 101, 108, 112];
    let exit = vec![101u8, 120, 105, 116];
    assert(add@ == seq![97u8, 100, 100]);
    assert(show@ == seq![115u8, 104, 111, 119]);
    assert(remove@ == seq![114u8, 101, 109, 111, 118, 101]);
    assert(help@ == seq![104u8, 101, 108, 112]);
    assert(exit@ == seq![101u8, 120, 105, 116]);
    if bytes_eq_ignore_case(w, add.as_slice()) {
        Command::Add
    } else if bytes_eq_ignore_case(w, show.as_slice()) {
        Command::Show
    } else if bytes_eq_ignore_case(w, remove.as_slice()) {
        Command::Remove
    } else if bytes_eq_ignore_case(w, help.as_slice()) {
        Command::Help
    } else if bytes_eq_ignore_case(w, exit.as_slice()) {
        Command::Exit
    } else {
        Command::Unknown
    }
}

} // verus!
