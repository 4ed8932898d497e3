use crate::render::escape::push_chars;
use crate::render::character::string_chars;
use vstd::prelude::*;

verus! {

/// The kind of an I/O error (`std::io::ErrorKind`), carried opaquely.
#[verifier::external_type_specification]
#[verifier::external_body]
pub struct ExIoErrorKind(std::io::ErrorKind);

/// What went wrong.
pub enum ErrorKind {
    Io(std::io::ErrorKind),
    Network,
    InvalidData,
    RebuildRequired,
    NotFound,
    Context,
    ContextDead,
}

/// The text that `std::io::ErrorKind`'s `Display` writes for `k`
/// (`format!("{}", k)`). Nothing is stated of the text.
#[verifier::external_body]
fn io_kind_text(k: &std::io::ErrorKind) -> String {
    format!("{}", k)
}

/// The name of an error kind, as error descriptions show it (the text of
/// an I/O kind is left open).
pub open spec fn kind_name(k: ErrorKind) -> Seq<char> {
    match k {
        ErrorKind::Io(_) => Seq::empty(),
        ErrorKind::Network => "Network"@,
        ErrorKind::InvalidData => "Invalid Data"@,
        ErrorKind::RebuildRequired => "Rebuild Required"@,
        ErrorKind::NotFound => "Not Found"@,
        ErrorKind::Context => "Context"@,
        ErrorKind::ContextDead => "Context Dead"@,
    }
}

impl ErrorKind {
    /// The name of the kind; an I/O kind reads `IO(<the I/O kind>)`.
    pub fn describe(&self) -> (r: String)
        ensures
            !(self is Io) ==> r@ == kind_name(*self),
            self is Io ==> r@.take(3) == "IO("@ && r@.last() == ')',
    {
        match self {
            ErrorKind::Io(sub) => {
                let mut s = String::new();
                s.append("IO(");
                let t = io_kind_text(sub);
                let v = string_chars(&t);
                push_chars(&mut s, &v);
                s.append(")");
                proof {
                    reveal_strlit("IO(");
                    reveal_strlit(")");
                    assert(s@.take(3) =~= "IO("@);
                }
                s
            },
            ErrorKind::Network => String::from_str("Network"),
            ErrorKind::InvalidData => String::from_str("Invalid Data"),
            ErrorKind::RebuildRequired => String::from_str("Rebuild Required"),
            ErrorKind::NotFound => String::from_str("Not Found"),
            ErrorKind::Context => String::from_str("Context"),
            ErrorKind::ContextDead => String::from_str("Context Dead"),
        }
    }
}

/// An engine error: a message, a kind and, for an error that wraps another,
/// the message of the wrapped error.
pub struct Error {
    msg: String,
    kind: ErrorKind,
    source: Option<String>,
}

impl Error {
    pub closed spec fn message(&self) -> Seq<char> {
        self.msg@
    }

    pub closed spec fn error_kind(&self) -> ErrorKind {
        self.kind
    }

    /// The message of the wrapped error, if any.
    pub closed spec fn cause(&self) -> Option<Seq<char>> {
        match self.source {
            Some(s) => Some(s@),
            None => None,
        }
    }

    pub fn new(msg: &str, kind: ErrorKind) -> (r: Self)
        ensures
            r.message() == msg@,
            r.error_kind() == kind,
            r.cause() is None,
    {
        Self { msg: String::from_str(msg), kind, source: None }
    }

    /// An error that wraps another, given by its message.
    pub fn from(err: String, msg: &str, kind: ErrorKind) -> (r: Self)
        ensures
            r.message() == msg@,
            r.error_kind() == kind,
            r.cause() == Some(err@),
    {
        Self { msg: String::from_str(msg), kind, source: Some(err) }
    }

    pub fn kind(&self) -> (r: &ErrorKind)
        ensures
            *r == self.error_kind(),
    {
        &self.kind
    }

    /// The message.
    pub fn description(&self) -> (r: &str)
        ensures
            r@ == self.message(),
    {
        self.msg.as_str()
    }

    /// The message of the wrapped error, if any.
    pub fn source(&self) -> (r: Option<&String>)
        ensures
            r matches Some(s) ==> self.cause() == Some(s@),
            r is None ==> self.cause() is None,
    {
        self.source.as_ref()
    }

    /// `<kind>: <message>`.
    pub fn describe(&self) -> (r: String)
        ensures
            !(self.error_kind() is Io) ==> r@ == kind_name(self.error_kind()) + ": "@
                + self.message(),
    {
        let mut s = self.kind.describe();
        s.append(": ");
        s.append(self.msg.as_str());
        s
    }
}

/// Each kind other than I/O has a name of its own: no two kinds share one,
/// and none is empty, so a description tells the kind.
pub proof fn law_kind_names_differ(a: ErrorKind, b: ErrorKind)
    requires
        !(a is Io),
        !(b is Io),
        a != b,
    ensures
        kind_name(a) != kind_name(b),
        kind_name(a).len() > 0,
{
    reveal_strlit("Network");
    reveal_strlit("Invalid Data");
    reveal_strlit("Rebuild Required");
    reveal_strlit("Not Found");
    reveal_strlit("Context");
    reveal_strlit("Context Dead");
    if kind_name(a) == kind_name(b) {
        assert(kind_name(a).len() == kind_name(b).len());
        assert(kind_name(a)[0] == kind_name(b)[0]);
        assert(kind_name(a)[4] == kind_name(b)[4]);
    }
}

} // verus!
