use vstd::prelude::*;

verus! {

/// The three lexical problems the scanner can run into. None of them stops
/// the scan.
#[derive(PartialEq, Eq, Structural, Clone, Copy, Debug)]
pub enum ErrorKind {
    /// A frontmatter fence `---` was opened and the input ended before it closed.
    UnterminatedCodeBlock,
    /// A `{` expression reached the end of input without a `}`.
    UnterminatedExpression,
    /// A character was asked for past the end of the input.
    OutOfBounds,
}

/// A diagnostic: what went wrong and on which line.
#[derive(PartialEq, Eq, Structural, Clone, Copy, Debug)]
pub struct ScanError {
    pub kind: ErrorKind,
    pub line: usize,
}

pub struct ScanErrorView {
    pub kind: ErrorKind,
    pub line: nat,
}

impl View for ScanError {
    type V = ScanErrorView;

    open spec fn view(&self) -> ScanErrorView {
        ScanErrorView { kind: self.kind, line: self.line as nat }
    }
}

pub open spec fn errors_view(es: Seq<ScanError>) -> Seq<ScanErrorView> {
    es.map_values(|e: ScanError| e@)
}

pub open spec fn message_text(kind: ErrorKind) -> Seq<char> {
    match kind {
        ErrorKind::UnterminatedCodeBlock => "Unterminated frontmatter fence token `---`"@,
        ErrorKind::UnterminatedExpression => "Unterminated curly brace `}`"@,
        ErrorKind::OutOfBounds => "Scanner went out of bound"@,
    }
}

impl ScanError {
    /// The human-readable message for this diagnostic.
    pub fn message(&self) -> (r: String)
        ensures
            r@ == message_text(self.kind),
    {
        match self.kind {
            ErrorKind::UnterminatedCodeBlock => String::from_str(
                "Unterminated frontmatter fence token `---`",
            ),
            ErrorKind::UnterminatedExpression => String::from_str("Unterminated curly brace `}`"),
            ErrorKind::OutOfBounds => String::from_str("Scanner went out of bound"),
        }
    }
}

} // verus!
