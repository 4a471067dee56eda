use vstd::prelude::*;

verus! {

/// What an error says: its own message and, where it wraps another error,
/// the text of that error.
pub struct CafErrorView {
    pub message: Seq<char>,
    pub source: Option<Seq<char>>,
}

/// The error of this library: a message, and the rendered text of the error
/// that caused it, if any.
#[derive(Debug)]
pub struct CafError {
    message: String,
    source: Option<String>,
}

impl View for CafError {
    type V = CafErrorView;

    closed spec fn view(&self) -> CafErrorView {
        CafErrorView {
            message: self.message@,
            source: match self.source {
                Some(s) => Some(s@),
                None => None,
            },
        }
    }
}

/// The text an error is displayed as: the message, a line break, and the
/// text of the source (nothing where there is no source).
pub open spec fn display_text(e: CafErrorView) -> Seq<char> {
    e.message + seq!['\n'] + match e.source {
        Some(s) => s,
        None => Seq::<char>::empty(),
    }
}

impl CafError {
    /// An error with the given message and no source.
    pub fn new(message: &str) -> (e: CafError)
        ensures
            e@.message == message@,
            e@.source is None,
    {
        CafError { message: message.to_string(), source: None }
    }

    /// An error with the given message caused by an error displayed as `source`.
    pub fn with_source(message: &str, source: String) -> (e: CafError)
        ensures
            e@.message == message@,
            e@.source == Some(source@),
    {
        CafError { message: message.to_string(), source: Some(source) }
    }

    /// The message of this error.
    pub fn message(&self) -> (m: &String)
        ensures
            m@ == self@.message,
    {
        &self.message
    }

    /// The text of the error that caused this one, if any.
    pub fn source_message(&self) -> (s: Option<&String>)
        ensures
            match s {
                Some(t) => self@.source == Some(t@),
                None => self@.source is None,
            },
    {
        match &self.source {
            Some(s) => Some(s),
            None => None,
        }
    }

    /// The text this error is displayed as.
    pub fn to_display_string(&self) -> (s: String)
        ensures
            s@ == display_text(self@),
    {
        let mut s = self.message.clone();
        s.append("\n");
        match &self.source {
            Some(src) => s.append(src.as_str()),
            None => {},
        }
        proof {
            reveal_strlit("\n");
        }
        s
    }
}

/// A value that can stand as the cause of a `CafError`: it renders to a text.
pub trait ErrorSource {
    spec fn source_text(&self) -> Seq<char>;

    fn describe(&self) -> (s: String)
        ensures
            s@ == self.source_text(),
    ;
}

impl ErrorSource for String {
    open spec fn source_text(&self) -> Seq<char> {
        self@
    }

    fn describe(&self) -> (s: String) {
        self.clone()
    }
}

impl ErrorSource for CafError {
    open spec fn source_text(&self) -> Seq<char> {
        display_text(self@)
    }

    fn describe(&self) -> (s: String) {
        self.to_display_string()
    }
}

/// Turns the error of a `Result` into a `CafError` that carries a message and
/// the error it replaces as its source.
pub trait WrapErrorInResult<T>: Sized {
    fn wrap_err(self, msg: &str) -> Result<T, CafError>;
}

impl<T, E: ErrorSource> WrapErrorInResult<T> for Result<T, E> {
    fn wrap_err(self, msg: &str) -> (r: Result<T, CafError>)
        ensures
            match self {
                Ok(v) => r == Ok::<T, CafError>(v),
                Err(e) => r matches Err(c) && c@ == (CafErrorView {
                    message: msg@,
                    source: Some(e.source_text()),
                }),
            },
    {
        match self {
            Ok(v) => Ok(v),
            Err(e) => Err(CafError::with_source(msg, e.describe())),
        }
    }
}

/// Turns an error into a failed `Result` whose `CafError` carries a message
/// and the error as its source.
pub trait WrapError<T>: Sized {
    /// The text of this error when it stands as a source.
    spec fn wrapped_text(&self) -> Seq<char>;

    fn wrap_err(self, msg: &str) -> (r: Result<T, CafError>)
        ensures
            match r {
                Ok(_) => false,
                Err(c) => c@ == (CafErrorView { message: msg@, source: Some(self.wrapped_text()) }),
            },
    ;
}

impl<T> WrapError<T> for String {
    open spec fn wrapped_text(&self) -> Seq<char> {
        self@
    }

    fn wrap_err(self, msg: &str) -> (r: Result<T, CafError>) {
        Err(CafError::with_source(msg, self))
    }
}

impl<T> WrapError<T> for CafError {
    open spec fn wrapped_text(&self) -> Seq<char> {
        display_text(self@)
    }

    fn wrap_err(self, msg: &str) -> (r: Result<T, CafError>) {
        Err(CafError::with_source(msg, self.to_display_string()))
    }
}

} // verus!
