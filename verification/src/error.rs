//! The error type shared by every layer of the engine.

use vstd::prelude::*;

verus! {

/// `std::io::Error`, the I/O error of the standard library. The engine
/// carries such a value through unchanged and never looks inside it.
#[verifier::external_type_specification]
#[verifier::external_body]
pub struct ExIoError(std::io::Error);

/// Common error type for the engine.
#[derive(Debug)]
pub enum DbError {
    /// An underlying I/O failure, surfaced unchanged.
    Io(std::io::Error),
    /// A byte-codec access of `size` bytes at `off` would leave a buffer of
    /// `len` bytes.
    OutOfBounds { off: usize, size: usize, len: usize },
    /// A structural invariant of the file or of a page is violated.
    Corruption(&'static str),
    /// The page has too few free bytes for the requested operation.
    NoSpace(&'static str),
    /// A slot id or a buffer size given by the caller is not acceptable.
    InvalidArgument(&'static str),
}

/// Result type of every fallible operation of the engine.
pub type DbResult<T> = Result<T, DbError>;

impl From<std::io::Error> for DbError {
    /// An I/O failure becomes `DbError::Io` and keeps the error that the
    /// system gave.
    fn from(err: std::io::Error) -> (e: DbError) {
        DbError::Io(err)
    }
}

impl vstd::std_specs::convert::FromSpecImpl<std::io::Error> for DbError {
    open spec fn obeys_from_spec() -> bool {
        true
    }

    open spec fn from_spec(err: std::io::Error) -> DbError {
        DbError::Io(err)
    }
}

/// The character of the decimal digit `d`.
pub open spec fn digit_char(d: nat) -> char {
    if d == 0 {
        '0'
    } else if d == 1 {
        '1'
    } else if d == 2 {
        '2'
    } else if d == 3 {
        '3'
    } else if d == 4 {
        '4'
    } else if d == 5 {
        '5'
    } else if d == 6 {
        '6'
    } else if d == 7 {
        '7'
    } else if d == 8 {
        '8'
    } else {
        '9'
    }
}

/// The decimal digits of `n`, most significant first, without leading
/// zeros.
pub open spec fn decimal(n: nat) -> Seq<char>
    decreases n,
{
    if n < 10 {
        seq![digit_char(n)]
    } else {
        decimal(n / 10).push(digit_char(n % 10))
    }
}

/// Appends `t` to `s`, as `String::push_str` does: the text of `s` is then
/// what it was, followed by the text of `t`.
#[verifier::external_body]
fn push_text(s: &mut String, t: &str)
    ensures
        final(s)@ == old(s)@ + t@,
{
    s.push_str(t);
}

/// Appends the character `c` to `s`, as `String::push` does.
#[verifier::external_body]
fn push_char(s: &mut String, c: char)
    ensures
        final(s)@ == old(s)@.push(c),
{
    s.push(c);
}

/// The text that `std::io::Error` displays, taken by `to_string`. Nothing
/// is claimed of it: it depends on the error and on the system.
#[verifier::external_body]
fn io_error_text(err: &std::io::Error) -> (text: String) {
    err.to_string()
}

/// The character of the decimal digit `d`.
fn digit(d: usize) -> (c: char)
    requires
        d < 10,
    ensures
        c == digit_char(d as nat),
{
    if d == 0 {
        '0'
    } else if d == 1 {
        '1'
    } else if d == 2 {
        '2'
    } else if d == 3 {
        '3'
    } else if d == 4 {
        '4'
    } else if d == 5 {
        '5'
    } else if d == 6 {
        '6'
    } else if d == 7 {
        '7'
    } else if d == 8 {
        '8'
    } else {
        '9'
    }
}

/// Appends the decimal digits of `n` to `s`.
fn push_decimal(s: &mut String, n: usize)
    ensures
        final(s)@ == old(s)@ + decimal(n as nat),
    decreases n,
{
    if n >= 10 {
        push_decimal(s, n / 10);
    }
    push_char(s, digit(n % 10));
    assert(s@ =~= old(s)@ + decimal(n as nat));
}

impl DbError {
    /// The text in front of the details of each kind of error.
    pub open spec fn prefix(&self) -> Seq<char> {
        match self {
            DbError::Io(_) => "io error: "@,
            DbError::OutOfBounds { .. } => "out of bounds: "@,
            DbError::Corruption(_) => "corruption: "@,
            DbError::NoSpace(_) => "no space: "@,
            DbError::InvalidArgument(_) => "invalid args: "@,
        }
    }

    /// The details behind the prefix, for every kind of error but `Io`,
    /// whose details are the text of the system.
    pub open spec fn details(&self) -> Seq<char> {
        match self {
            DbError::Io(_) => Seq::<char>::empty(),
            DbError::OutOfBounds { off, size, len } => "off="@ + decimal(*off as nat) + " size="@
                + decimal(*size as nat) + " len="@ + decimal(*len as nat),
            DbError::Corruption(reason) => reason@,
            DbError::NoSpace(reason) => reason@,
            DbError::InvalidArgument(reason) => reason@,
        }
    }

    /// The error as a line of text: a prefix that names the kind of error,
    /// then the reason, or the access that went out of bounds with its
    /// numbers in decimal, or what the system says of an I/O failure.
    pub fn message(&self) -> (text: String)
        ensures
            !(self is Io) ==> text@ == self.prefix() + self.details(),
            self is Io ==> text@.len() >= self.prefix().len() && text@.subrange(
                0,
                self.prefix().len() as int,
            ) == self.prefix(),
    {
        let mut text = String::new();
        match self {
            DbError::Io(err) => {
                push_text(&mut text, "io error: ");
                let said = io_error_text(err);
                push_text(&mut text, said.as_str());
                assert(text@.subrange(0, "io error: "@.len() as int) =~= "io error: "@);
            },
            DbError::OutOfBounds { off, size, len } => {
                push_text(&mut text, "out of bounds: ");
                push_text(&mut text, "off=");
                push_decimal(&mut text, *off);
                push_text(&mut text, " size=");
                push_decimal(&mut text, *size);
                push_text(&mut text, " len=");
                push_decimal(&mut text, *len);
                assert(text@ =~= self.prefix() + self.details());
            },
            DbError::Corruption(reason) => {
                push_text(&mut text, "corruption: ");
                push_text(&mut text, reason);
                assert(text@ =~= self.prefix() + self.details());
            },
            DbError::NoSpace(reason) => {
                push_text(&mut text, "no space: ");
                push_text(&mut text, reason);
                assert(text@ =~= self.prefix() + self.details());
            },
            DbError::InvalidArgument(reason) => {
                push_text(&mut text, "invalid args: ");
                push_text(&mut text, reason);
                assert(text@ =~= self.prefix() + self.details());
            },
        }
        text
    }
}

} // verus!
