//! What an object store operation can fail with.
use vstd::prelude::*;
use vstd::string::*;

verus! {

/// A failed object store operation.
#[derive(Debug)]
pub enum StoreError {
    /// A failure of the store itself, with the store's name.
    Generic { store: String, message: String },
    /// No object stands at the path.
    NotFound { path: String, message: String },
    /// The store cannot do what was asked.
    NotSupported { message: String },
    /// An object stands at the path already.
    AlreadyExists { path: String, message: String },
    /// A condition of the request does not hold.
    Precondition { path: String, message: String },
    /// The object is the one that the caller has.
    NotModified { path: String, message: String },
}

/// A `StoreError` by its texts.
#[verifier::ext_equal]
pub enum Failure {
    Generic { store: Seq<char>, message: Seq<char> },
    NotFound { path: Seq<char>, message: Seq<char> },
    NotSupported { message: Seq<char> },
    AlreadyExists { path: Seq<char>, message: Seq<char> },
    Precondition { path: Seq<char>, message: Seq<char> },
    NotModified { path: Seq<char>, message: Seq<char> },
}

impl View for StoreError {
    type V = Failure;

    open spec fn view(&self) -> Failure {
        match self {
            StoreError::Generic { store, message } => Failure::Generic {
                store: store@,
                message: message@,
            },
            StoreError::NotFound { path, message } => Failure::NotFound {
                path: path@,
                message: message@,
            },
            StoreError::NotSupported { message } => Failure::NotSupported { message: message@ },
            StoreError::AlreadyExists { path, message } => Failure::AlreadyExists {
                path: path@,
                message: message@,
            },
            StoreError::Precondition { path, message } => Failure::Precondition {
                path: path@,
                message: message@,
            },
            StoreError::NotModified { path, message } => Failure::NotModified {
                path: path@,
                message: message@,
            },
        }
    }
}

/// The failure of an outcome, if it is one.
pub open spec fn failure<T>(outcome: Result<T, StoreError>) -> Option<Failure> {
    match outcome {
        Ok(_) => None,
        Err(error) => Some(error@),
    }
}

/// A failure of the store named `store`.
pub(crate) fn generic(store: &str, message: String) -> (error: StoreError)
    ensures
        error@ == (Failure::Generic { store: store@, message: message@ }),
{
    StoreError::Generic { store: store.to_owned(), message }
}

/// No object at `path`.
pub(crate) fn not_found(path: &str, message: &str) -> (error: StoreError)
    ensures
        error@ == (Failure::NotFound { path: path@, message: message@ }),
{
    StoreError::NotFound { path: path.to_owned(), message: message.to_owned() }
}

/// Something that the store cannot do.
pub(crate) fn not_supported(message: &str) -> (error: StoreError)
    ensures
        error@ == (Failure::NotSupported { message: message@ }),
{
    StoreError::NotSupported { message: message.to_owned() }
}

/// An object at `path` already.
pub(crate) fn already_exists(path: &str, message: &str) -> (error: StoreError)
    ensures
        error@ == (Failure::AlreadyExists { path: path@, message: message@ }),
{
    StoreError::AlreadyExists { path: path.to_owned(), message: message.to_owned() }
}

/// A condition on the object at `path` that does not hold.
pub(crate) fn precondition(path: &str, message: &str) -> (error: StoreError)
    ensures
        error@ == (Failure::Precondition { path: path@, message: message@ }),
{
    StoreError::Precondition { path: path.to_owned(), message: message.to_owned() }
}

/// The object at `path` is unchanged.
pub(crate) fn not_modified(path: &str, message: &str) -> (error: StoreError)
    ensures
        error@ == (Failure::NotModified { path: path@, message: message@ }),
{
    StoreError::NotModified { path: path.to_owned(), message: message.to_owned() }
}

/// An error shows the texts that it holds, and an outcome fails with its error.
pub proof fn law_errors_show_their_texts(path: String, message: String, store: String, error: StoreError)
    ensures
        (StoreError::Generic { store, message })@ == (Failure::Generic {
            store: store@,
            message: message@,
        }),
        (StoreError::NotFound { path, message })@ == (Failure::NotFound {
            path: path@,
            message: message@,
        }),
        (StoreError::NotSupported { message })@ == (Failure::NotSupported { message: message@ }),
        (StoreError::AlreadyExists { path, message })@ == (Failure::AlreadyExists {
            path: path@,
            message: message@,
        }),
        (StoreError::Precondition { path, message })@ == (Failure::Precondition {
            path: path@,
            message: message@,
        }),
        (StoreError::NotModified { path, message })@ == (Failure::NotModified {
            path: path@,
            message: message@,
        }),
        failure(Err::<(), StoreError>(error)) == Some(error@),
        failure(Ok::<(), StoreError>(())) is None,
{
}

} // verus!
