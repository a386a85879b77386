//! The errors that a conversion reports.
use vstd::prelude::*;
use image::ImageError;

verus! {

#[verifier::external_type_specification]
#[verifier::external_body]
pub struct ExImageError(ImageError);

/// The errors that a conversion can report.
///
/// Each variant carries the human-readable message that is shown to users.
#[derive(Debug)]
#[non_exhaustive]
pub enum Error {
    /// An error reported by the `image` crate.
    Image(ImageError),
    InvalidArgument(String),
    Unsupported(String),
    Decode(String),
    Color(String),
    Encode(String),
}

/// Renders an error of the `image` crate with its `Display` impl (`ToString::to_string`);
/// nothing is stated of the text.
#[verifier::external_body]
fn image_error_text(e: &ImageError) -> String {
    e.to_string()
}

/// The character of a decimal digit.
pub open spec fn digit_char(d: nat) -> char {
    if d == 0 { '0' } else if d == 1 { '1' } else if d == 2 { '2' } else if d == 3 { '3' } else if d == 4 {
        '4'
    } else if d == 5 { '5' } else if d == 6 { '6' } else if d == 7 { '7' } else if d == 8 { '8' } else {
        '9'
    }
}

/// The decimal digits of `n`, most significant first, as `Display` renders an unsigned integer.
pub open spec fn decimal_text(n: nat) -> Seq<char>
    decreases n,
{
    if n < 10 {
        seq![digit_char(n)]
    } else {
        decimal_text(n / 10) + seq![digit_char(n % 10)]
    }
}

fn digit_str(d: usize) -> (s: &'static str)
    requires
        d < 10,
    ensures
        s@ == seq![digit_char(d as nat)],
{
    proof {
        reveal_strlit("0");
        reveal_strlit("1");
        reveal_strlit("2");
        reveal_strlit("3");
        reveal_strlit("4");
        reveal_strlit("5");
        reveal_strlit("6");
        reveal_strlit("7");
        reveal_strlit("8");
        reveal_strlit("9");
    }
    if d == 0 {
        "0"
    } else if d == 1 {
        "1"
    } else if d == 2 {
        "2"
    } else if d == 3 {
        "3"
    } else if d == 4 {
        "4"
    } else if d == 5 {
        "5"
    } else if d == 6 {
        "6"
    } else if d == 7 {
        "7"
    } else if d == 8 {
        "8"
    } else {
        "9"
    }
}

/// Appends the decimal digits of `n` to `out`.
pub(crate) fn push_decimal(out: &mut String, n: usize)
    ensures
        final(out)@ == old(out)@ + decimal_text(n as nat),
    decreases n,
{
    if n >= 10 {
        push_decimal(out, n / 10);
    }
    out.append(digit_str(n % 10));
    proof {
        assert(n < 10 ==> n % 10 == n);
    }
}

impl Error {
    /// The message carried by an error, as a sequence of characters.
    pub open spec fn message_view(&self) -> Seq<char> {
        match self {
            Error::Image(_) => Seq::empty(),
            Error::InvalidArgument(m) => m@,
            Error::Unsupported(m) => m@,
            Error::Decode(m) => m@,
            Error::Color(m) => m@,
            Error::Encode(m) => m@,
        }
    }

    pub fn invalid(message: &str) -> (e: Error)
        ensures
            e is InvalidArgument,
            e.message_view() == message@,
    {
        Error::InvalidArgument(message.to_owned())
    }

    pub fn unsupported(message: &str) -> (e: Error)
        ensures
            e is Unsupported,
            e.message_view() == message@,
    {
        Error::Unsupported(message.to_owned())
    }

    pub fn decode(message: &str) -> (e: Error)
        ensures
            e is Decode,
            e.message_view() == message@,
    {
        Error::Decode(message.to_owned())
    }

    pub fn color(message: &str) -> (e: Error)
        ensures
            e is Color,
            e.message_view() == message@,
    {
        Error::Color(message.to_owned())
    }

    pub fn encode(message: &str) -> (e: Error)
        ensures
            e is Encode,
            e.message_view() == message@,
    {
        Error::Encode(message.to_owned())
    }

    /// The text that users see for this error; for errors of the `image` crate it is that
    /// crate's own rendering.
    pub fn message(&self) -> (s: String)
        ensures
            !(self is Image) ==> s@ == self.message_view(),
    {
        match self {
            Error::Image(e) => image_error_text(e),
            Error::InvalidArgument(m) => m.clone(),
            Error::Unsupported(m) => m.clone(),
            Error::Decode(m) => m.clone(),
            Error::Color(m) => m.clone(),
            Error::Encode(m) => m.clone(),
        }
    }
}

} // verus!
