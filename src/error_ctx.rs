//! The context value that generated code stores in the appended field: where
//! the error was made and the stack trace at that moment, rendered with ANSI
//! colours.
use vstd::prelude::*;
use vstd::string::StringSliceAdditionalSpecFns;
use crate::text::{copy_bytes, dec_digits, dec_digits_of, push_bytes, push_str};

verus! {

/// The foreground colours the rendering uses.
#[derive(Clone, Copy, PartialEq, Eq, Structural, Debug)]
pub enum TermColor {
    Red,
    Green,
    Yellow,
    Blue,
}

/// `ESC [ <code> m`: the foreground colour's start sequence.
pub open spec fn color_start(c: TermColor) -> Seq<u8> {
    match c {
        TermColor::Red => seq![27u8, 91u8, 51u8, 49u8, 109u8],
        TermColor::Green => seq![27u8, 91u8, 51u8, 50u8, 109u8],
        TermColor::Yellow => seq![27u8, 91u8, 51u8, 51u8, 109u8],
        TermColor::Blue => seq![27u8, 91u8, 51u8, 52u8, 109u8],
    }
}

/// `ESC [0m`: the reset sequence.
pub open spec fn color_reset() -> Seq<u8> {
    seq![27u8, 91u8, 48u8, 109u8]
}

/// `b` painted in colour `c`.
pub open spec fn painted(c: TermColor, b: Seq<u8>) -> Seq<u8> {
    color_start(c) + b + color_reset()
}

/// Relies on ansi_term's `Colour::paint` written out by
/// `ANSIByteString::write_to`: the colour's prefix `ESC [3<n>m`, the bytes,
/// then the reset suffix `ESC [0m`.
#[verifier::external_body]
fn paint(c: TermColor, b: &[u8]) -> (r: Vec<u8>)
    ensures
        r@ == painted(c, b@),
{
    let colour = match c {
        TermColor::Red => ansi_term::Colour::Red,
        TermColor::Green => ansi_term::Colour::Green,
        TermColor::Yellow => ansi_term::Colour::Yellow,
        TermColor::Blue => ansi_term::Colour::Blue,
    };
    let mut out: Vec<u8> = Vec::new();
    let _ = colour.paint(b).write_to(&mut out);
    out
}

/// A captured context: the caller's source position and a stack trace.
#[derive(Debug)]
pub struct ErrorCtx {
    pub file: Vec<u8>,
    pub line: u32,
    pub column: u32,
    pub backtrace: Vec<u8>,
}

/// How a context renders: a red `ERROR`, the coloured position, then the
/// trace, each on its own line.
pub open spec fn error_ctx_text(c: ErrorCtx) -> Seq<u8> {
    painted(TermColor::Red, "ERROR".spec_bytes()) + " detected @ ".spec_bytes() + painted(
        TermColor::Blue,
        c.file@,
    ) + ":".spec_bytes() + painted(TermColor::Green, dec_digits_of(c.line as nat))
        + ":".spec_bytes() + painted(TermColor::Yellow, dec_digits_of(c.column as nat))
        + ":\n".spec_bytes() + c.backtrace@ + "\n".spec_bytes()
}

impl ErrorCtx {
    /// A context at `file:line:column` with the given rendered trace.
    pub fn new(file: &Vec<u8>, line: u32, column: u32, backtrace: &Vec<u8>) -> (r: ErrorCtx)
        ensures
            r.file@ == file@,
            r.line == line,
            r.column == column,
            r.backtrace@ == backtrace@,
    {
        ErrorCtx { file: copy_bytes(file), line, column, backtrace: copy_bytes(backtrace) }
    }

    /// The rendered context.
    pub fn render(&self) -> (r: Vec<u8>)
        ensures
            r@ == error_ctx_text(*self),
    {
        let mut out = paint(TermColor::Red, "ERROR".as_bytes());
        push_str(&mut out, " detected @ ");
        let file = paint(TermColor::Blue, self.file.as_slice());
        push_bytes(&mut out, file.as_slice());
        push_str(&mut out, ":");
        let line_digits = dec_digits(self.line as usize);
        let line = paint(TermColor::Green, line_digits.as_slice());
        push_bytes(&mut out, line.as_slice());
        push_str(&mut out, ":");
        let column_digits = dec_digits(self.column as usize);
        let column = paint(TermColor::Yellow, column_digits.as_slice());
        push_bytes(&mut out, column.as_slice());
        push_str(&mut out, ":\n");
        push_bytes(&mut out, self.backtrace.as_slice());
        push_str(&mut out, "\n");
        assert(out@ =~= error_ctx_text(*self));
        out
    }
}

} // verus!
