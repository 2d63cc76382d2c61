//! Errors of template compilation and rendering.
use crate::text::str_eq;
use vstd::string::StringExecFns;
use vstd::prelude::*;

verus! {

/// The kind of a template error, one for each kind the template engine reports.
#[derive(Debug, Clone, Copy, PartialEq, Eq, Structural)]
pub enum ErrorKind {
    /// "not a primitive"
    NonPrimitive,
    /// "not a key type"
    NonKey,
    /// "invalid operation"
    InvalidOperation,
    /// "syntax error"
    SyntaxError,
    /// "template not found"
    TemplateNotFound,
    /// "too many arguments"
    TooManyArguments,
    /// "missing argument"
    MissingArgument,
    /// "unknown filter"
    UnknownFilter,
    /// "unknown test"
    UnknownTest,
    /// "unknown function"
    UnknownFunction,
    /// "unknown method"
    UnknownMethod,
    /// "bad string escape"
    BadEscape,
    /// "undefined value"
    UndefinedError,
    /// "could not serialize to value"
    BadSerialization,
    /// "cannot deserialize"
    CannotDeserialize,
    /// "could not render include"
    BadInclude,
    /// "could not render block"
    EvalBlock,
    /// "cannot unpack"
    CannotUnpack,
    /// "failed to write output"
    WriteFailure,
    /// "engine ran out of fuel"
    OutOfFuel,
    /// "invalid custom delimiters"
    InvalidDelimiter,
    /// "unknown block"
    UnknownBlock,
    /// A kind whose description this library does not know.
    Unknown,
}

/// The description that the template engine displays for each kind.
pub open spec fn kind_description(k: ErrorKind) -> Seq<char> {
    match k {
        ErrorKind::NonPrimitive => "not a primitive"@,
        ErrorKind::NonKey => "not a key type"@,
        ErrorKind::InvalidOperation => "invalid operation"@,
        ErrorKind::SyntaxError => "syntax error"@,
        ErrorKind::TemplateNotFound => "template not found"@,
        ErrorKind::TooManyArguments => "too many arguments"@,
        ErrorKind::MissingArgument => "missing argument"@,
        ErrorKind::UnknownFilter => "unknown filter"@,
        ErrorKind::UnknownTest => "unknown test"@,
        ErrorKind::UnknownFunction => "unknown function"@,
        ErrorKind::UnknownMethod => "unknown method"@,
        ErrorKind::BadEscape => "bad string escape"@,
        ErrorKind::UndefinedError => "undefined value"@,
        ErrorKind::BadSerialization => "could not serialize to value"@,
        ErrorKind::CannotDeserialize => "cannot deserialize"@,
        ErrorKind::BadInclude => "could not render include"@,
        ErrorKind::EvalBlock => "could not render block"@,
        ErrorKind::CannotUnpack => "cannot unpack"@,
        ErrorKind::WriteFailure => "failed to write output"@,
        ErrorKind::OutOfFuel => "engine ran out of fuel"@,
        ErrorKind::InvalidDelimiter => "invalid custom delimiters"@,
        ErrorKind::UnknownBlock => "unknown block"@,
        ErrorKind::Unknown => "unknown error"@,
    }
}

/// The kind whose description is `d`; `Unknown` when no kind has it.
pub open spec fn kind_of_description(d: Seq<char>) -> ErrorKind {
    if d == "not a primitive"@ {
        ErrorKind::NonPrimitive
    } else if d == "not a key type"@ {
        ErrorKind::NonKey
    } else if d == "invalid operation"@ {
        ErrorKind::InvalidOperation
    } else if d == "syntax error"@ {
        ErrorKind::SyntaxError
    } else if d == "template not found"@ {
        ErrorKind::TemplateNotFound
    } else if d == "too many arguments"@ {
        ErrorKind::TooManyArguments
    } else if d == "missing argument"@ {
        ErrorKind::MissingArgument
    } else if d == "unknown filter"@ {
        ErrorKind::UnknownFilter
    } else if d == "unknown test"@ {
        ErrorKind::UnknownTest
    } else if d == "unknown function"@ {
        ErrorKind::UnknownFunction
    } else if d == "unknown method"@ {
        ErrorKind::UnknownMethod
    } else if d == "bad string escape"@ {
        ErrorKind::BadEscape
    } else if d == "undefined value"@ {
        ErrorKind::UndefinedError
    } else if d == "could not serialize to value"@ {
        ErrorKind::BadSerialization
    } else if d == "cannot deserialize"@ {
        ErrorKind::CannotDeserialize
    } else if d == "could not render include"@ {
        ErrorKind::BadInclude
    } else if d == "could not render block"@ {
        ErrorKind::EvalBlock
    } else if d == "cannot unpack"@ {
        ErrorKind::CannotUnpack
    } else if d == "failed to write output"@ {
        ErrorKind::WriteFailure
    } else if d == "engine ran out of fuel"@ {
        ErrorKind::OutOfFuel
    } else if d == "invalid custom delimiters"@ {
        ErrorKind::InvalidDelimiter
    } else if d == "unknown block"@ {
        ErrorKind::UnknownBlock
    } else {
        ErrorKind::Unknown
    }
}

impl ErrorKind {
    /// The text the template engine displays for this kind.
    pub fn description(&self) -> (r: &'static str)
        ensures
            r@ == kind_description(*self),
    {
        match self {
            ErrorKind::NonPrimitive => "not a primitive",
            ErrorKind::NonKey => "not a key type",
            ErrorKind::InvalidOperation => "invalid operation",
            ErrorKind::SyntaxError => "syntax error",
            ErrorKind::TemplateNotFound => "template not found",
            ErrorKind::TooManyArguments => "too many arguments",
            ErrorKind::MissingArgument => "missing argument",
            ErrorKind::UnknownFilter => "unknown filter",
            ErrorKind::UnknownTest => "unknown test",
            ErrorKind::UnknownFunction => "unknown function",
            ErrorKind::UnknownMethod => "unknown method",
            ErrorKind::BadEscape => "bad string escape",
            ErrorKind::UndefinedError => "undefined value",
            ErrorKind::BadSerialization => "could not serialize to value",
            ErrorKind::CannotDeserialize => "cannot deserialize",
            ErrorKind::BadInclude => "could not render include",
            ErrorKind::EvalBlock => "could not render block",
            ErrorKind::CannotUnpack => "cannot unpack",
            ErrorKind::WriteFailure => "failed to write output",
            ErrorKind::OutOfFuel => "engine ran out of fuel",
            ErrorKind::InvalidDelimiter => "invalid custom delimiters",
            ErrorKind::UnknownBlock => "unknown block",
            ErrorKind::Unknown => "unknown error",
        }
    }

    /// The kind whose description is `d`.
    pub fn from_description(d: &str) -> (r: ErrorKind)
        ensures
            r == kind_of_description(d@),
    {
        if str_eq(d, "not a primitive") {
            ErrorKind::NonPrimitive
        } else if str_eq(d, "not a key type") {
            ErrorKind::NonKey
        } else if str_eq(d, "invalid operation") {
            ErrorKind::InvalidOperation
        } else if str_eq(d, "syntax error") {
            ErrorKind::SyntaxError
        } else if str_eq(d, "template not found") {
            ErrorKind::TemplateNotFound
        } else if str_eq(d, "too many arguments") {
            ErrorKind::TooManyArguments
        } else if str_eq(d, "missing argument") {
            ErrorKind::MissingArgument
        } else if str_eq(d, "unknown filter") {
            ErrorKind::UnknownFilter
        } else if str_eq(d, "unknown test") {
            ErrorKind::UnknownTest
        } else if str_eq(d, "unknown function") {
            ErrorKind::UnknownFunction
        } else if str_eq(d, "unknown method") {
            ErrorKind::UnknownMethod
        } else if str_eq(d, "bad string escape") {
            ErrorKind::BadEscape
        } else if str_eq(d, "undefined value") {
            ErrorKind::UndefinedError
        } else if str_eq(d, "could not serialize to value") {
            ErrorKind::BadSerialization
        } else if str_eq(d, "cannot deserialize") {
            ErrorKind::CannotDeserialize
        } else if str_eq(d, "could not render include") {
            ErrorKind::BadInclude
        } else if str_eq(d, "could not render block") {
            ErrorKind::EvalBlock
        } else if str_eq(d, "cannot unpack") {
            ErrorKind::CannotUnpack
        } else if str_eq(d, "failed to write output") {
            ErrorKind::WriteFailure
        } else if str_eq(d, "engine ran out of fuel") {
            ErrorKind::OutOfFuel
        } else if str_eq(d, "invalid custom delimiters") {
            ErrorKind::InvalidDelimiter
        } else if str_eq(d, "unknown block") {
            ErrorKind::UnknownBlock
        } else {
            ErrorKind::Unknown
        }
    }
}

/// An error of template compilation, rendering or argument checking: its kind
/// and the message it displays.
#[derive(Debug)]
pub struct TemplateError {
    pub kind: ErrorKind,
    pub message: String,
}

/// The message of an error of kind `kind` with detail text `detail`: the kind's
/// description, a colon and a space, and the detail.
pub open spec fn detailed_message(kind: ErrorKind, detail: Seq<char>) -> Seq<char> {
    kind_description(kind) + ": "@ + detail
}

/// A reported failure (kind description, displayed message) as a kind and a message.
pub open spec fn failure_view(f: (Seq<char>, Seq<char>)) -> (ErrorKind, Seq<char>) {
    (kind_of_description(f.0), f.1)
}

impl TemplateError {
    /// The kind and message as plain values.
    pub open spec fn view_parts(&self) -> (ErrorKind, Seq<char>) {
        (self.kind, self.message@)
    }

    /// The kind of this error.
    pub fn kind(&self) -> (r: ErrorKind)
        ensures
            r == self.kind,
    {
        self.kind
    }

    /// The message this error displays.
    pub fn to_message(&self) -> (r: String)
        ensures
            r@ == self.message@,
    {
        self.message.clone()
    }

    /// An error of `kind` whose detail text is `detail`.
    pub fn with_detail(kind: ErrorKind, detail: &str) -> (r: TemplateError)
        ensures
            r.kind == kind,
            r.message@ == detailed_message(kind, detail@),
    {
        let mut message = String::from_str(kind.description());
        message.append(": ");
        message.append(detail);
        TemplateError { kind, message }
    }

    /// The error that the template engine reported as `(kind description, message)`.
    pub fn from_failure(failure: (String, String)) -> (r: TemplateError)
        ensures
            r.view_parts() == failure_view((failure.0@, failure.1@)),
    {
        let (description, message) = failure;
        TemplateError { kind: ErrorKind::from_description(description.as_str()), message }
    }
}

/// Every kind is read back from its description: the kind of an error the
/// template engine reports is the kind it had.
pub proof fn law_kind_from_description(k: ErrorKind)
    ensures
        kind_of_description(kind_description(k)) == k,
{
    reveal_strlit("not a primitive");
    assert("not a primitive"@.len() == 15);
    reveal_strlit("not a key type");
    assert("not a key type"@.len() == 14);
    reveal_strlit("invalid operation");
    assert("invalid operation"@.len() == 17);
    reveal_strlit("syntax error");
    assert("syntax error"@.len() == 12);
    reveal_strlit("template not found");
    assert("template not found"@.len() == 18);
    reveal_strlit("too many arguments");
    assert("too many arguments"@.len() == 18);
    reveal_strlit("missing argument");
    assert("missing argument"@.len() == 16);
    reveal_strlit("unknown filter");
    assert("unknown filter"@.len() == 14);
    reveal_strlit("unknown test");
    assert("unknown test"@.len() == 12);
    reveal_strlit("unknown function");
    assert("unknown function"@.len() == 16);
    reveal_strlit("unknown method");
    assert("unknown method"@.len() == 14);
    reveal_strlit("bad string escape");
    assert("bad string escape"@.len() == 17);
    reveal_strlit("undefined value");
    assert("undefined value"@.len() == 15);
    reveal_strlit("could not serialize to value");
    assert("could not serialize to value"@.len() == 28);
    reveal_strlit("cannot deserialize");
    assert("cannot deserialize"@.len() == 18);
    reveal_strlit("could not render include");
    assert("could not render include"@.len() == 24);
    reveal_strlit("could not render block");
    assert("could not render block"@.len() == 22);
    reveal_strlit("cannot unpack");
    assert("cannot unpack"@.len() == 13);
    reveal_strlit("failed to write output");
    assert("failed to write output"@.len() == 22);
    reveal_strlit("engine ran out of fuel");
    assert("engine ran out of fuel"@.len() == 22);
    reveal_strlit("invalid custom delimiters");
    assert("invalid custom delimiters"@.len() == 25);
    reveal_strlit("unknown block");
    assert("unknown block"@.len() == 13);
    reveal_strlit("unknown error");
    assert("unknown error"@.len() == 13);
    // Descriptions of different lengths differ; those of equal length differ
    // at the position given.
    match k {
        ErrorKind::TooManyArguments => {
            assert("template not found"@[1] != "too many arguments"@[1]);
        },
        ErrorKind::UnknownFilter => {
            assert("not a key type"@[0] != "unknown filter"@[0]);
        },
        ErrorKind::UnknownTest => {
            assert("syntax error"@[0] != "unknown test"@[0]);
        },
        ErrorKind::UnknownFunction => {
            assert("missing argument"@[0] != "unknown function"@[0]);
        },
        ErrorKind::UnknownMethod => {
            assert("not a key type"@[0] != "unknown method"@[0]);
            assert("unknown filter"@[8] != "unknown method"@[8]);
        },
        ErrorKind::BadEscape => {
            assert("invalid operation"@[0] != "bad string escape"@[0]);
        },
        ErrorKind::UndefinedError => {
            assert("not a primitive"@[0] != "undefined value"@[0]);
        },
        ErrorKind::CannotDeserialize => {
            assert("template not found"@[0] != "cannot deserialize"@[0]);
            assert("too many arguments"@[0] != "cannot deserialize"@[0]);
        },
        ErrorKind::WriteFailure => {
            assert("could not render block"@[0] != "failed to write output"@[0]);
        },
        ErrorKind::OutOfFuel => {
            assert("could not render block"@[0] != "engine ran out of fuel"@[0]);
            assert("failed to write output"@[0] != "engine ran out of fuel"@[0]);
        },
        ErrorKind::UnknownBlock => {
            assert("cannot unpack"@[0] != "unknown block"@[0]);
        },
        ErrorKind::Unknown => {
            assert("cannot unpack"@[0] != "unknown error"@[0]);
            assert("unknown block"@[8] != "unknown error"@[8]);
        },
        _ => {},
    }
}

} // verus!
