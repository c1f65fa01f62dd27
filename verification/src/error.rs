//! The closed error vocabulary shared by the encoder and the decoder, the
//! human-readable text of each error, and the mapping of each error onto
//! exactly one host-runtime exception category.
use vstd::prelude::*;

verus! {

broadcast use vstd::string::group_string_axioms;

/// The host-runtime exception categories this crate maps errors onto.
#[derive(Clone, Copy, Debug, PartialEq, Eq, Structural)]
pub enum PyErrKind {
    /// The generic exception category, for framework-reported messages.
    Exception,
    /// The type-error category: a value of the wrong runtime kind.
    TypeError,
    /// The value-error category: a value of the right kind but wrong shape.
    ValueError,
    /// The overflow category: a numeric coercion out of range.
    OverflowError,
}

/// The view of a host exception: its category and its message.
pub struct PyErrV {
    pub kind: PyErrKind,
    pub message: Seq<char>,
}

/// A host-runtime exception as this crate models it: a category together
/// with a message.  Errors surfaced by the host cross into the engines as
/// values of this type, and every engine error maps back onto one.
#[derive(Debug, PartialEq)]
pub struct PyErr {
    pub kind: PyErrKind,
    pub message: String,
}

impl View for PyErr {
    type V = PyErrV;

    open spec fn view(&self) -> PyErrV {
        PyErrV { kind: self.kind, message: self.message@ }
    }
}

impl PyErr {
    pub fn new(kind: PyErrKind, message: String) -> (r: PyErr)
        ensures
            r@.kind == kind,
            r@.message == message@,
    {
        PyErr { kind, message }
    }
}

/// The view of an error classification.
pub enum SErr {
    HostErr(PyErrV),
    Message(Seq<char>),
    UnsupportedType(Seq<char>),
    UnexpectedType(Seq<char>),
    DictKeyNotString,
    IncorrectSequenceLength { expected: int, got: int },
    InvalidEnumType,
    InvalidLengthEnum,
    InvalidLengthChar,
}

/// Error codes for problems that can occur while converting between dynamic
/// objects and static values.
#[derive(Debug, PartialEq)]
pub enum ErrorImpl {
    /// An error originating from the host runtime, passed through verbatim.
    PyErr(PyErr),
    /// Generic error message reported by the generic framework.
    Message(String),
    /// A dynamic type not supported by the decoder, by reported type name.
    UnsupportedType(String),
    /// A dynamic object that failed a required kind check.
    UnexpectedType(String),
    /// Mapping keys must be strings to name struct fields or enum variants.
    DictKeyNotString,
    /// Sequence length did not match the expected tuple arity.
    IncorrectSequenceLength { expected: usize, got: usize },
    /// Enum input was neither a bare string nor a mapping.
    InvalidEnumType,
    /// A tagged-enum mapping whose key count is not exactly one.
    InvalidLengthEnum,
    /// A char target given a string whose length is not one.
    InvalidLengthChar,
}

impl View for ErrorImpl {
    type V = SErr;

    open spec fn view(&self) -> SErr {
        match self {
            ErrorImpl::PyErr(e) => SErr::HostErr(e@),
            ErrorImpl::Message(m) => SErr::Message(m@),
            ErrorImpl::UnsupportedType(t) => SErr::UnsupportedType(t@),
            ErrorImpl::UnexpectedType(t) => SErr::UnexpectedType(t@),
            ErrorImpl::DictKeyNotString => SErr::DictKeyNotString,
            ErrorImpl::IncorrectSequenceLength { expected, got } => (
                SErr::IncorrectSequenceLength { expected: *expected as int, got: *got as int }
            ),
            ErrorImpl::InvalidEnumType => SErr::InvalidEnumType,
            ErrorImpl::InvalidLengthEnum => SErr::InvalidLengthEnum,
            ErrorImpl::InvalidLengthChar => SErr::InvalidLengthChar,
        }
    }
}

/// An error of either engine.
#[derive(Debug, PartialEq)]
pub struct PythonizeError {
    pub inner: Box<ErrorImpl>,
}

impl View for PythonizeError {
    type V = SErr;

    open spec fn view(&self) -> SErr {
        self.inner@
    }
}

/// Alias kept for the crate's callers.
pub type PythonizeResult<T> = Result<T, PythonizeError>;

impl PythonizeError {
    pub fn from_impl(e: ErrorImpl) -> (r: PythonizeError)
        ensures
            r@ == e@,
    {
        PythonizeError { inner: Box::new(e) }
    }

    /// A generic message error, as the generic framework reports one.
    pub fn msg(text: String) -> (r: PythonizeError)
        ensures
            r@ == SErr::Message(text@),
    {
        PythonizeError { inner: Box::new(ErrorImpl::Message(text)) }
    }

    /// The same entry point under the name the generic framework uses.
    pub fn custom(text: String) -> (r: PythonizeError)
        ensures
            r@ == SErr::Message(text@),
    {
        PythonizeError::msg(text)
    }

    /// A host error passed through verbatim.
    pub fn host(e: PyErr) -> (r: PythonizeError)
        ensures
            r@ == SErr::HostErr(e@),
    {
        PythonizeError { inner: Box::new(ErrorImpl::PyErr(e)) }
    }

    pub fn unsupported_type(t: String) -> (r: PythonizeError)
        ensures
            r@ == SErr::UnsupportedType(t@),
    {
        PythonizeError { inner: Box::new(ErrorImpl::UnsupportedType(t)) }
    }

    pub fn unexpected_type(t: String) -> (r: PythonizeError)
        ensures
            r@ == SErr::UnexpectedType(t@),
    {
        PythonizeError { inner: Box::new(ErrorImpl::UnexpectedType(t)) }
    }

    pub fn dict_key_not_string() -> (r: PythonizeError)
        ensures
            r@ == SErr::DictKeyNotString,
    {
        PythonizeError { inner: Box::new(ErrorImpl::DictKeyNotString) }
    }

    pub fn incorrect_sequence_length(expected: usize, got: usize) -> (r: PythonizeError)
        ensures
            r@ == (SErr::IncorrectSequenceLength { expected: expected as int, got: got as int }),
    {
        PythonizeError {
            inner: Box::new(ErrorImpl::IncorrectSequenceLength { expected, got }),
        }
    }

    pub fn invalid_enum_type() -> (r: PythonizeError)
        ensures
            r@ == SErr::InvalidEnumType,
    {
        PythonizeError { inner: Box::new(ErrorImpl::InvalidEnumType) }
    }

    pub fn invalid_length_enum() -> (r: PythonizeError)
        ensures
            r@ == SErr::InvalidLengthEnum,
    {
        PythonizeError { inner: Box::new(ErrorImpl::InvalidLengthEnum) }
    }

    pub fn invalid_length_char() -> (r: PythonizeError)
        ensures
            r@ == SErr::InvalidLengthChar,
    {
        PythonizeError { inner: Box::new(ErrorImpl::InvalidLengthChar) }
    }

    /// The human-readable text of this error.
    pub fn message(&self) -> (r: String)
        ensures
            r@ == error_text(self@),
    {
        match &*self.inner {
            ErrorImpl::PyErr(e) => clone_string(&e.message),
            ErrorImpl::Message(m) => clone_string(m),
            ErrorImpl::UnsupportedType(t) => {
                let mut s = String::from_str("unsupported type ");
                s.append(t.as_str());
                s
            },
            ErrorImpl::UnexpectedType(t) => {
                let mut s = String::from_str("unexpected type: ");
                s.append(t.as_str());
                s
            },
            ErrorImpl::DictKeyNotString => String::from_str("dict keys must have type str"),
            ErrorImpl::IncorrectSequenceLength { expected, got } => {
                let mut s = String::from_str("expected sequence of length ");
                let e_str = usize_to_string(*expected);
                s.append(e_str.as_str());
                s.append(", got ");
                let g_str = usize_to_string(*got);
                s.append(g_str.as_str());
                s
            },
            ErrorImpl::InvalidEnumType => (
                String::from_str("expected either a str or dict for enum")
            ),
            ErrorImpl::InvalidLengthEnum => (
                String::from_str("expected tagged enum dict to have exactly 1 key")
            ),
            ErrorImpl::InvalidLengthChar => (
                String::from_str("expected a str of length 1 for char")
            ),
        }
    }
}

/// The text of each error classification.
pub open spec fn error_text(e: SErr) -> Seq<char> {
    match e {
        SErr::HostErr(p) => p.message,
        SErr::Message(m) => m,
        SErr::UnsupportedType(t) => "unsupported type "@ + t,
        SErr::UnexpectedType(t) => "unexpected type: "@ + t,
        SErr::DictKeyNotString => "dict keys must have type str"@,
        SErr::IncorrectSequenceLength { expected, got } => (
            "expected sequence of length "@ + dec_str(expected) + ", got "@ + dec_str(got)
        ),
        SErr::InvalidEnumType => "expected either a str or dict for enum"@,
        SErr::InvalidLengthEnum => "expected tagged enum dict to have exactly 1 key"@,
        SErr::InvalidLengthChar => "expected a str of length 1 for char"@,
    }
}

/// The exception category of each error classification: host errors pass
/// through; message, unsupported-type, unexpected-type, non-string-key and
/// invalid-enum-shape errors are type errors; the three length errors are
/// value errors.
pub open spec fn error_category(e: SErr) -> PyErrKind {
    match e {
        SErr::HostErr(p) => p.kind,
        SErr::Message(_) => PyErrKind::Exception,
        SErr::UnsupportedType(_) => PyErrKind::TypeError,
        SErr::UnexpectedType(_) => PyErrKind::TypeError,
        SErr::DictKeyNotString => PyErrKind::TypeError,
        SErr::IncorrectSequenceLength { expected: _, got: _ } => PyErrKind::ValueError,
        SErr::InvalidEnumType => PyErrKind::TypeError,
        SErr::InvalidLengthEnum => PyErrKind::ValueError,
        SErr::InvalidLengthChar => PyErrKind::ValueError,
    }
}

impl PyErr {
    /// Convert an engine error into the host exception it surfaces as: a
    /// host error passes through verbatim, everything else becomes a fresh
    /// exception in its category, carrying the error's text.
    pub fn from(other: PythonizeError) -> (r: PyErr)
        ensures
            r@.kind == error_category(other@),
            r@.message == error_text(other@),
    {
        let message = other.message();
        match *other.inner {
            ErrorImpl::PyErr(e) => e,
            ErrorImpl::Message(_) => PyErr { kind: PyErrKind::Exception, message },
            ErrorImpl::UnsupportedType(_)
            | ErrorImpl::UnexpectedType(_)
            | ErrorImpl::DictKeyNotString
            | ErrorImpl::InvalidEnumType => PyErr { kind: PyErrKind::TypeError, message },
            ErrorImpl::IncorrectSequenceLength { expected: _, got: _ }
            | ErrorImpl::InvalidLengthEnum
            | ErrorImpl::InvalidLengthChar => PyErr { kind: PyErrKind::ValueError, message },
        }
    }
}

/// The decimal digit characters.
pub open spec fn dec_digit(d: nat) -> char {
    if d == 0 {
        '0'
    } else if d == 1 {
        '1'
    } else if d == 2 {
        '2'
    } else if d == 3 {
        '3'
    } else if d == 4 {
        '4'
    } else if d == 5 {
        '5'
    } else if d == 6 {
        '6'
    } else if d == 7 {
        '7'
    } else if d == 8 {
        '8'
    } else {
        '9'
    }
}

/// The decimal text of a natural number.
pub open spec fn dec_str(n: int) -> Seq<char>
    decreases n,
{
    if n < 10 {
        seq![dec_digit(if n < 0 { 0 } else { n as nat })]
    } else {
        dec_str(n / 10).push(dec_digit((n % 10) as nat))
    }
}

/// Append one decimal digit.
fn push_digit(s: &mut String, d: usize)
    requires
        d < 10,
    ensures
        final(s)@ == old(s)@.push(dec_digit(d as nat)),
{
    if d == 0 {
        proof {
            reveal_strlit("0");
        }
        s.append("0");
    } else if d == 1 {
        proof {
            reveal_strlit("1");
        }
        s.append("1");
    } else if d == 2 {
        proof {
            reveal_strlit("2");
        }
        s.append("2");
    } else if d == 3 {
        proof {
            reveal_strlit("3");
        }
        s.append("3");
    } else if d == 4 {
        proof {
            reveal_strlit("4");
        }
        s.append("4");
    } else if d == 5 {
        proof {
            reveal_strlit("5");
        }
        s.append("5");
    } else if d == 6 {
        proof {
            reveal_strlit("6");
        }
        s.append("6");
    } else if d == 7 {
        proof {
            reveal_strlit("7");
        }
        s.append("7");
    } else if d == 8 {
        proof {
            reveal_strlit("8");
        }
        s.append("8");
    } else {
        proof {
            reveal_strlit("9");
        }
        s.append("9");
    }
    proof {
        assert(s@ =~= old(s)@.push(dec_digit(d as nat)));
    }
}

/// The decimal text of a machine-sized number.
pub fn usize_to_string(n: usize) -> (s: String)
    ensures
        s@ == dec_str(n as int),
    decreases n,
{
    if n < 10 {
        let mut s = String::new();
        push_digit(&mut s, n);
        proof {
            assert(s@ =~= seq![dec_digit(n as nat)]);
        }
        s
    } else {
        proof {
            vstd::arithmetic::div_mod::lemma_div_decreases(n as int, 10);
        }
        let mut s = usize_to_string(n / 10);
        push_digit(&mut s, n % 10);
        s
    }
}

/// Clone a string, keeping its view.
fn clone_string(s: &String) -> (r: String)
    ensures
        r@ == s@,
{
    s.clone()
}

} // verus!
