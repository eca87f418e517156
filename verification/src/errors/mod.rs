//! Errors raised while compiling or running a script, and how they are shown.
use vstd::prelude::*;
use vstd::string::*;
use crate::text::{
    chars_of, decimal, decimal_string, line_bounds, line_count, line_end, line_start, line_text,
    push_decimal, push_range, push_repeated, spaces, utf8_len, utf8_len_range,
};

pub mod runtime_errors;
pub mod type_errors;

verus! {

/// A position in source text: 1-based line and column, and the byte offset.
#[derive(Debug, Clone, Copy, PartialEq, Eq, Structural)]
pub struct Span {
    pub line: usize,
    pub col: usize,
    pub offset: usize,
}

impl Span {
    pub fn new(line: usize, col: usize, offset: usize) -> (s: Self)
        ensures
            s == (Span { line, col, offset }),
    {
        Self { line, col, offset }
    }

    /// The span used where no position is known: all zero.
    pub fn unknown() -> (s: Self)
        ensures
            s == (Span { line: 0, col: 0, offset: 0 }),
    {
        Self { line: 0, col: 0, offset: 0 }
    }
}

/// What went wrong, with its message.
#[derive(Debug, Clone)]
pub enum ErrorKind {
    ParseError(String),
    TypeError(String),
    ReferenceError(String),
    SyntaxError(String),
    RuntimeError(String),
    InternalError(String),
}

/// The six kinds of error, without their messages.
#[derive(Debug, Clone, Copy, PartialEq, Eq, Structural)]
pub enum ErrorClass {
    Parse,
    Type,
    Reference,
    Syntax,
    Runtime,
    Internal,
}

impl ErrorKind {
    pub open spec fn class(&self) -> ErrorClass {
        match self {
            ErrorKind::ParseError(_) => ErrorClass::Parse,
            ErrorKind::TypeError(_) => ErrorClass::Type,
            ErrorKind::ReferenceError(_) => ErrorClass::Reference,
            ErrorKind::SyntaxError(_) => ErrorClass::Syntax,
            ErrorKind::RuntimeError(_) => ErrorClass::Runtime,
            ErrorKind::InternalError(_) => ErrorClass::Internal,
        }
    }

    pub open spec fn msg(&self) -> Seq<char> {
        match self {
            ErrorKind::ParseError(m) => m@,
            ErrorKind::TypeError(m) => m@,
            ErrorKind::ReferenceError(m) => m@,
            ErrorKind::SyntaxError(m) => m@,
            ErrorKind::RuntimeError(m) => m@,
            ErrorKind::InternalError(m) => m@,
        }
    }
}

/// The name under which an error class is shown.
pub open spec fn class_name(c: ErrorClass) -> Seq<char> {
    match c {
        ErrorClass::Parse => "ParseError"@,
        ErrorClass::Type => "TypeError"@,
        ErrorClass::Reference => "ReferenceError"@,
        ErrorClass::Syntax => "SyntaxError"@,
        ErrorClass::Runtime => "RuntimeError"@,
        ErrorClass::Internal => "InternalError"@,
    }
}

/// An error with an optional source position and file name.
#[derive(Debug, Clone)]
pub struct Error {
    pub kind: ErrorKind,
    pub span: Option<Span>,
    pub file: Option<String>,
}

pub type Result<T> = core::result::Result<T, Error>;

/// The first line of the report: the error's name and message, in red.
pub open spec fn display_head(e: Error) -> Seq<char> {
    "\x1B[31m"@ + class_name(e.kind.class()) + ": "@ + e.kind.msg() + "\x1B[0m\n"@
}

/// The three lines that quote the source line and point at the column.
pub open spec fn display_excerpt(src: Seq<char>, line: nat, col: nat) -> Seq<char> {
    let lc = line_text(src, line - 1);
    let ln = decimal(line);
    let pad = spaces(ln.len());
    let marker: nat = if col == 0 { 0 } else { (col - 1) as nat };
    let marker: nat = if marker < utf8_len(lc) { marker } else { utf8_len(lc) };
    "   "@ + pad + " |\n"@ + ln + " | "@ + lc + "\n"@ + "   "@ + pad + " | "@ + spaces(marker) + "^\n"@
}

/// The whole report that `Error::display` builds.
pub open spec fn display_text(e: Error, source: Option<Seq<char>>) -> Seq<char> {
    let file = match e.file {
        Some(f) => f@,
        None => "<input>"@,
    };
    match e.span {
        Some(sp) if sp.line > 0 => {
            let loc = "  --> "@ + file + ":"@ + decimal(sp.line as nat) + ":"@ + decimal(
                sp.col as nat,
            ) + "\n"@;
            let excerpt = match source {
                Some(src) if sp.line <= line_count(src) => display_excerpt(
                    src,
                    sp.line as nat,
                    sp.col as nat,
                ),
                _ => Seq::empty(),
            };
            display_head(e) + loc + excerpt
        },
        _ => display_head(e),
    }
}

/// Appends the quoted source line and the caret line to `out`.
fn push_excerpt(out: &mut String, cs: &Vec<char>, line: usize, col: usize, start: usize, end: usize)
    requires
        0 < line <= line_count(cs@),
        start == line_start(cs@, line - 1),
        end == line_end(cs@, line - 1),
        0 <= start <= end <= cs.len(),
    ensures
        final(out)@ == old(out)@ + display_excerpt(cs@, line as nat, col as nat),
{
    let line_num = decimal_string(line as u64);
    let width = line_num.unicode_len();
    let mut ex = String::from_str("   ");
    push_repeated(&mut ex, ' ', width);
    ex.append(" |\n");
    ex.append(line_num.as_str());
    ex.append(" | ");
    push_range(&mut ex, cs, start, end);
    ex.append("\n");
    ex.append("   ");
    push_repeated(&mut ex, ' ', width);
    ex.append(" | ");
    let bytes = utf8_len_range(cs, start, end);
    let marker: u128 = if col == 0 {
        0
    } else {
        (col - 1) as u128
    };
    let marker: u128 = if marker < bytes {
        marker
    } else {
        bytes
    };
    assert(marker <= col);
    push_repeated(&mut ex, ' ', marker as usize);
    ex.append("^\n");
    assert(ex@ =~= display_excerpt(cs@, line as nat, col as nat));
    out.append(ex.as_str());
}

impl Error {
    #[allow(non_snake_case)]
    pub fn ParseError(msg: String) -> (e: Self)
        ensures
            e.kind == ErrorKind::ParseError(msg),
            e.span is None,
            e.file is None,
    {
        Self { kind: ErrorKind::ParseError(msg), span: None, file: None }
    }

    #[allow(non_snake_case)]
    pub fn TypeError(msg: String) -> (e: Self)
        ensures
            e.kind == ErrorKind::TypeError(msg),
            e.span is None,
            e.file is None,
    {
        Self { kind: ErrorKind::TypeError(msg), span: None, file: None }
    }

    #[allow(non_snake_case)]
    pub fn ReferenceError(msg: String) -> (e: Self)
        ensures
            e.kind == ErrorKind::ReferenceError(msg),
            e.span is None,
            e.file is None,
    {
        Self { kind: ErrorKind::ReferenceError(msg), span: None, file: None }
    }

    #[allow(non_snake_case)]
    pub fn SyntaxError(msg: String) -> (e: Self)
        ensures
            e.kind == ErrorKind::SyntaxError(msg),
            e.span is None,
            e.file is None,
    {
        Self { kind: ErrorKind::SyntaxError(msg), span: None, file: None }
    }

    #[allow(non_snake_case)]
    pub fn RuntimeError(msg: String) -> (e: Self)
        ensures
            e.kind == ErrorKind::RuntimeError(msg),
            e.span is None,
            e.file is None,
    {
        Self { kind: ErrorKind::RuntimeError(msg), span: None, file: None }
    }

    #[allow(non_snake_case)]
    pub fn InternalError(msg: String) -> (e: Self)
        ensures
            e.kind == ErrorKind::InternalError(msg),
            e.span is None,
            e.file is None,
    {
        Self { kind: ErrorKind::InternalError(msg), span: None, file: None }
    }

    /// The same error, placed at `span`.
    pub fn with_span(self, span: Span) -> (e: Self)
        ensures
            e.kind == self.kind,
            e.span == Some(span),
            e.file == self.file,
    {
        let mut e = self;
        e.span = Some(span);
        e
    }

    /// The same error, attributed to the file `file`.
    pub fn with_file(self, file: &str) -> (e: Self)
        ensures
            e.kind == self.kind,
            e.span == self.span,
            e.file matches Some(f) && f@ == file@,
    {
        let mut e = self;
        e.file = Some(file.to_owned());
        e
    }

    /// The name of the error's kind, such as `"TypeError"`.
    pub fn kind_name(&self) -> (r: &str)
        ensures
            r@ == class_name(self.kind.class()),
    {
        match &self.kind {
            ErrorKind::ParseError(_) => "ParseError",
            ErrorKind::TypeError(_) => "TypeError",
            ErrorKind::ReferenceError(_) => "ReferenceError",
            ErrorKind::SyntaxError(_) => "SyntaxError",
            ErrorKind::RuntimeError(_) => "RuntimeError",
            ErrorKind::InternalError(_) => "InternalError",
        }
    }

    /// The error's message.
    pub fn message(&self) -> (r: &str)
        ensures
            r@ == self.kind.msg(),
    {
        match &self.kind {
            ErrorKind::ParseError(m) => m.as_str(),
            ErrorKind::TypeError(m) => m.as_str(),
            ErrorKind::ReferenceError(m) => m.as_str(),
            ErrorKind::SyntaxError(m) => m.as_str(),
            ErrorKind::RuntimeError(m) => m.as_str(),
            ErrorKind::InternalError(m) => m.as_str(),
        }
    }

    /// `"<kind>: <message>"`, the one-line form of the error.
    pub fn to_string(&self) -> (r: String)
        ensures
            r@ == class_name(self.kind.class()) + ": "@ + self.kind.msg(),
    {
        let mut out = String::from_str(self.kind_name());
        out.append(": ");
        out.append(self.message());
        out
    }

    /// A report of the error for a terminal: its name and message in red, then,
    /// where the span has a line, the file and position, and, where the source is
    /// given and holds that line, the line itself with a caret under the column.
    pub fn display(&self, source: Option<&str>) -> (r: String)
        ensures
            r@ == display_text(
                *self,
                match source {
                    Some(s) => Some(s@),
                    None => None,
                },
            ),
    {
        let mut out = String::from_str("\x1B[31m");
        out.append(self.kind_name());
        out.append(": ");
        out.append(self.message());
        out.append("\x1B[0m\n");
        match &self.span {
            Some(span) => {
                if span.line > 0 {
                    out.append("  --> ");
                    match &self.file {
                        Some(f) => out.append(f.as_str()),
                        None => out.append("<input>"),
                    }
                    out.append(":");
                    push_decimal(&mut out, span.line as u64);
                    out.append(":");
                    push_decimal(&mut out, span.col as u64);
                    out.append("\n");
                    match source {
                        Some(src) => {
                            let cs = chars_of(src);
                            if let Some((start, end)) = line_bounds(&cs, span.line) {
                                push_excerpt(&mut out, &cs, span.line, span.col, start, end);
                            }
                        },
                        None => {},
                    }
                }
            },
            None => {},
        }
        out
    }
}

/// A parse error with the given message.
pub fn parse_error(msg: &str) -> (e: Error)
    ensures
        e.kind is ParseError,
        e.kind.msg() == msg@,
        e.span is None,
        e.file is None,
{
    Error::ParseError(msg.to_owned())
}

/// A type error with the given message.
pub fn type_error(msg: &str) -> (e: Error)
    ensures
        e.kind is TypeError,
        e.kind.msg() == msg@,
        e.span is None,
        e.file is None,
{
    Error::TypeError(msg.to_owned())
}

/// A reference error with the given message.
pub fn reference_error(msg: &str) -> (e: Error)
    ensures
        e.kind is ReferenceError,
        e.kind.msg() == msg@,
        e.span is None,
        e.file is None,
{
    Error::ReferenceError(msg.to_owned())
}

/// A runtime error with the given message.
pub fn runtime_error(msg: &str) -> (e: Error)
    ensures
        e.kind is RuntimeError,
        e.kind.msg() == msg@,
        e.span is None,
        e.file is None,
{
    Error::RuntimeError(msg.to_owned())
}

} // verus!
