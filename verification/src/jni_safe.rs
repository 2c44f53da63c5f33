//! Calls into Java: what a call came to, with the exception it may have thrown.
use crate::text::{behind_three, concat2, concat3, contains_text, tells, tells_behind, tells_more};
use vstd::prelude::*;

verus! {

/// Why a call into Java failed.
#[derive(Debug)]
pub enum SafeJniError {
    /// The call itself failed.
    Jni(String),
    JavaException { class: String, message: String },
    UnexpectedNull,
}

impl SafeJniError {
    /// The text of the message shown for the error.
    pub open spec fn text(&self) -> Seq<char> {
        match *self {
            SafeJniError::Jni(reason) => "JNI call failed: "@ + reason@,
            SafeJniError::JavaException { class, message } => "a Java exception was thrown: "@
                + class@ + " — "@ + message@,
            SafeJniError::UnexpectedNull => "expected a non-null Java object but got null"@,
        }
    }

    /// The message shown for the error.
    pub fn message(&self) -> (r: String)
        ensures
            r@ == self.text(),
    {
        match self {
            SafeJniError::Jni(reason) => concat2("JNI call failed: ", reason),
            SafeJniError::JavaException { class, message } => {
                let mut out = concat3("a Java exception was thrown: ", class, " — ");
                out.append(message);
                out
            },
            SafeJniError::UnexpectedNull =>
                "expected a non-null Java object but got null".to_owned(),
        }
    }
}

/// A pending exception: its class and its message, as far as they could be read.
#[derive(Debug)]
pub struct PendingException {
    pub class: Option<String>,
    pub message: Option<String>,
}

/// Whether an error is what a pending exception comes to: what could not be read,
/// and a message that is missing, is replaced by a stand-in.
pub open spec fn is_exception(e: SafeJniError, pending: PendingException) -> bool {
    match e {
        SafeJniError::JavaException { class, message } => {
            &&& class@ == (match pending.class {
                Some(c) => c@,
                None => "<unknown exception class>"@,
            })
            &&& message@ == (match pending.message {
                Some(m) => m@,
                None => "<no message>"@,
            })
        },
        _ => false,
    }
}

/// The error for a pending exception, which has been cleared.
pub fn check_exception(pending: Option<PendingException>) -> (r: Result<(), SafeJniError>)
    ensures
        match (r, pending) {
            (Ok(()), None) => true,
            (Err(e), Some(p)) => is_exception(e, p),
            _ => false,
        },
{
    match pending {
        None => Ok(()),
        Some(p) => Err(
            SafeJniError::JavaException {
                class: match p.class {
                    Some(c) => c,
                    None => "<unknown exception class>".to_owned(),
                },
                message: match p.message {
                    Some(m) => m,
                    None => "<no message>".to_owned(),
                },
            },
        ),
    }
}

/// What a call came to: an exception that it threw comes before everything else,
/// then an error of the call, then its value.
pub fn settle<T>(result: Result<T, String>, pending: Option<PendingException>) -> (r: Result<
    T,
    SafeJniError,
>)
    ensures
        match r {
            Ok(v) => pending is None && result == Ok::<T, String>(v),
            Err(SafeJniError::Jni(reason)) => pending is None && result == Err::<T, String>(reason),
            Err(e) => pending is Some && is_exception(e, pending->0),
        },
{
    match check_exception(pending) {
        Err(e) => Err(e),
        Ok(()) => match result {
            Ok(v) => Ok(v),
            Err(reason) => Err(SafeJniError::Jni(reason)),
        },
    }
}

/// What a call for an object came to: like [`settle`], and an error where the
/// object is null.
pub fn settle_object<T>(
    result: Result<Option<T>, String>,
    pending: Option<PendingException>,
) -> (r: Result<T, SafeJniError>)
    ensures
        match r {
            Ok(v) => pending is None && result == Ok::<Option<T>, String>(Some(v)),
            Err(SafeJniError::UnexpectedNull) => pending is None && result == Ok::<
                Option<T>,
                String,
            >(None),
            Err(SafeJniError::Jni(reason)) => pending is None && result == Err::<
                Option<T>,
                String,
            >(reason),
            Err(e) => pending is Some && is_exception(e, pending->0),
        },
{
    match settle(result, pending) {
        Ok(Some(v)) => Ok(v),
        Ok(None) => Err(SafeJniError::UnexpectedNull),
        Err(e) => Err(e),
    }
}

/// The message of an error tells what it is about; of an exception its class and message.
#[verifier::rlimit(40)]
pub proof fn message_tells_all(e: SafeJniError)
    ensures
        match e {
            SafeJniError::Jni(reason) => contains_text(e.text(), reason@),
            SafeJniError::JavaException { class, message } => contains_text(e.text(), "thrown: "@ + class@) && contains_text(e.text(), " — "@ + message@),
            _ => e.text().len() > 0,
        },
{
    match e {
        SafeJniError::Jni(reason) => {
            tells("JNI call failed: "@, reason@);
        },
        SafeJniError::JavaException { class, message } => {
            assert("a Java exception was thrown: "@ =~= "a Java exception was "@ + "thrown: "@) by {
                reveal_strlit("a Java exception was thrown: ");
                reveal_strlit("a Java exception was ");
                reveal_strlit("thrown: ");
            }
            tells("a Java exception was "@, "thrown: "@ + class@);
            behind_three("a Java exception was "@, "thrown: "@, class@, seq![]);
            tells_more("a Java exception was thrown: "@ + class@, " — "@, "thrown: "@ + class@);
            tells_more("a Java exception was thrown: "@ + class@ + " — "@, message@, "thrown: "@ + class@);
            assert(seq![] + " — "@ =~= " — "@);
            tells_behind("a Java exception was thrown: "@ + class@, seq![], " — "@, message@);
        },
        _ => {
            reveal_lens();
        },
    }
}

proof fn reveal_lens()
    ensures
        "expected a non-null Java object but got null"@.len() > 0,
{
    reveal_strlit("expected a non-null Java object but got null");
}

} // verus!
