use vstd::prelude::*;
use vstd::string::StringExecFns;

verus! {

/// The ways in which registering or resolving a binding can fail. Each
/// variant carries a message for diagnosis.
#[derive(Debug, PartialEq, Eq)]
pub enum Error {
    /// The storage could not be reached.
    Lock(String),
    /// A binding exists, but not with the type that was asked for.
    TypeMismatch(String),
    /// No binding can be reached under the key.
    KeyNotFound(String),
    /// A key was asked for again within the resolution chain that already
    /// holds it.
    CircularDependency(String),
    /// A binding was found, but it is private to another scope.
    InjectPrivateProvider(String),
    /// A failure that a factory reports of its own accord.
    User(String),
    /// Any other failure.
    Unknown(String),
}

/// What an [`Error`] is, with its message as a sequence of characters.
pub enum ErrorView {
    Lock(Seq<char>),
    TypeMismatch(Seq<char>),
    KeyNotFound(Seq<char>),
    CircularDependency(Seq<char>),
    InjectPrivateProvider(Seq<char>),
    User(Seq<char>),
    Unknown(Seq<char>),
}

impl ErrorView {
    /// The message that the error carries.
    pub open spec fn message(self) -> Seq<char> {
        match self {
            ErrorView::Lock(m) => m,
            ErrorView::TypeMismatch(m) => m,
            ErrorView::KeyNotFound(m) => m,
            ErrorView::CircularDependency(m) => m,
            ErrorView::InjectPrivateProvider(m) => m,
            ErrorView::User(m) => m,
            ErrorView::Unknown(m) => m,
        }
    }

    /// The words that introduce the message when the error is shown.
    pub open spec fn heading(self) -> Seq<char> {
        match self {
            ErrorView::Lock(_) => "Mutex lock error: `"@,
            ErrorView::TypeMismatch(_) => "Type mismatch: `"@,
            ErrorView::KeyNotFound(_) => "Key not found: `"@,
            ErrorView::CircularDependency(_) => "Circular dependency: `"@,
            ErrorView::InjectPrivateProvider(_) => "Try to inject private provider: `"@,
            ErrorView::User(_) => "User error: `"@,
            ErrorView::Unknown(_) => "Unknown error: `"@,
        }
    }

    /// The error as a line of text: the heading, then the message between
    /// backticks.
    pub open spec fn text(self) -> Seq<char> {
        self.heading() + self.message() + "`"@
    }
}

impl View for Error {
    type V = ErrorView;

    open spec fn view(&self) -> ErrorView {
        match self {
            Error::Lock(m) => ErrorView::Lock(m@),
            Error::TypeMismatch(m) => ErrorView::TypeMismatch(m@),
            Error::KeyNotFound(m) => ErrorView::KeyNotFound(m@),
            Error::CircularDependency(m) => ErrorView::CircularDependency(m@),
            Error::InjectPrivateProvider(m) => ErrorView::InjectPrivateProvider(m@),
            Error::User(m) => ErrorView::User(m@),
            Error::Unknown(m) => ErrorView::Unknown(m@),
        }
    }
}

impl Error {
    /// The message that the error carries.
    pub fn message(&self) -> (m: &str)
        ensures
            m@ == self@.message(),
    {
        match self {
            Error::Lock(m) => m.as_str(),
            Error::TypeMismatch(m) => m.as_str(),
            Error::KeyNotFound(m) => m.as_str(),
            Error::CircularDependency(m) => m.as_str(),
            Error::InjectPrivateProvider(m) => m.as_str(),
            Error::User(m) => m.as_str(),
            Error::Unknown(m) => m.as_str(),
        }
    }

    /// The error as a line of text.
    pub fn to_string(&self) -> (s: String)
        ensures
            s@ == self@.text(),
    {
        let heading = match self {
            Error::Lock(_) => "Mutex lock error: `",
            Error::TypeMismatch(_) => "Type mismatch: `",
            Error::KeyNotFound(_) => "Key not found: `",
            Error::CircularDependency(_) => "Circular dependency: `",
            Error::InjectPrivateProvider(_) => "Try to inject private provider: `",
            Error::User(_) => "User error: `",
            Error::Unknown(_) => "Unknown error: `",
        };
        let mut s = String::from_str(heading);
        s.append(self.message());
        s.append("`");
        s
    }
}

} // verus!
