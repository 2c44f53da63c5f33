//! What can go wrong when a Java library is called through an embedded JVM.
use crate::text::{behind_three, concat2, concat3, contains_text, tells, tells_behind, tells_more};
use vstd::prelude::*;

verus! {

/// What went wrong.
#[derive(Debug)]
pub enum EmbedJvmError {
    JvmStart(String),
    MavenDeploy { artifact: String, reason: String },
    CreateInstance { class: String, reason: String },
    Invoke { class: String, method: String, reason: String },
    Conversion(String),
}

impl EmbedJvmError {
    /// The text of the message shown for the error.
    pub open spec fn text(&self) -> Seq<char> {
        match *self {
            EmbedJvmError::JvmStart(reason) => "failed to start the embedded JVM: "@ + reason@,
            EmbedJvmError::MavenDeploy { artifact, reason } =>
                "failed to deploy Maven artifact \""@ + artifact@ + "\": "@ + reason@,
            EmbedJvmError::CreateInstance { class, reason } =>
                "failed to create Java instance of \""@ + class@ + "\": "@ + reason@,
            EmbedJvmError::Invoke { class, method, reason } => "failed to invoke \""@ + method@
                + "\" on \""@ + class@ + "\": "@ + reason@,
            EmbedJvmError::Conversion(reason) =>
                "failed to convert the Java return value to the requested Rust type: "@ + reason@,
        }
    }

    /// The message shown for the error.
    pub fn message(&self) -> (r: String)
        ensures
            r@ == self.text(),
    {
        match self {
            EmbedJvmError::JvmStart(reason) => concat2(
                "failed to start the embedded JVM: ",
                reason,
            ),
            EmbedJvmError::MavenDeploy { artifact, reason } => {
                let mut out = concat3("failed to deploy Maven artifact \"", artifact, "\": ");
                out.append(reason);
                out
            },
            EmbedJvmError::CreateInstance { class, reason } => {
                let mut out = concat3("failed to create Java instance of \"", class, "\": ");
                out.append(reason);
                out
            },
            EmbedJvmError::Invoke { class, method, reason } => {
                let mut out = concat3("failed to invoke \"", method, "\" on \"");
                out.append(class);
                out.append("\": ");
                out.append(reason);
                out
            },
            EmbedJvmError::Conversion(reason) => concat2(
                "failed to convert the Java return value to the requested Rust type: ",
                reason,
            ),
        }
    }

    /// The error for a method called on an instance, whose class is not known.
    pub fn invoke_on_instance(method: &str, reason: String) -> (r: Self)
        ensures
            match r {
                EmbedJvmError::Invoke { class, method: m, reason: why } => class@ == "<instance>"@
                    && m@ == method@ && why == reason,
                _ => false,
            },
    {
        EmbedJvmError::Invoke {
            class: "<instance>".to_owned(),
            method: method.to_owned(),
            reason,
        }
    }
}

/// The message of an error tells what it is about; of a call the method and the class.
#[verifier::rlimit(40)]
pub proof fn message_tells_all(e: EmbedJvmError)
    ensures
        match e {
            EmbedJvmError::JvmStart(reason) => contains_text(e.text(), reason@),
            EmbedJvmError::MavenDeploy { artifact, reason } => contains_text(e.text(), "artifact \""@ + artifact@) && contains_text(e.text(), ": "@ + reason@),
            EmbedJvmError::CreateInstance { class, reason } => contains_text(e.text(), "of \""@ + class@) && contains_text(e.text(), ": "@ + reason@),
            EmbedJvmError::Invoke { class, method, reason } => contains_text(e.text(), "invoke \""@ + method@) && contains_text(e.text(), "on \""@ + class@) && contains_text(e.text(), ": "@ + reason@),
            EmbedJvmError::Conversion(reason) => contains_text(e.text(), reason@),
        },
{
    match e {
        EmbedJvmError::JvmStart(reason) => {
            tells("failed to start the embedded JVM: "@, reason@);
        },
        EmbedJvmError::MavenDeploy { artifact, reason } => {
            assert("failed to deploy Maven artifact \""@ =~= "failed to deploy Maven "@ + "artifact \""@) by {
                reveal_strlit("failed to deploy Maven artifact \"");
                reveal_strlit("failed to deploy Maven ");
                reveal_strlit("artifact \"");
            }
            tells("failed to deploy Maven "@, "artifact \""@ + artifact@);
            behind_three("failed to deploy Maven "@, "artifact \""@, artifact@, seq![]);
            tells_more("failed to deploy Maven artifact \""@ + artifact@, "\": "@, "artifact \""@ + artifact@);
            tells_more("failed to deploy Maven artifact \""@ + artifact@ + "\": "@, reason@, "artifact \""@ + artifact@);
            assert("\": "@ =~= "\""@ + ": "@) by {
                reveal_strlit("\": ");
                reveal_strlit("\"");
                reveal_strlit(": ");
            }
            tells_behind("failed to deploy Maven artifact \""@ + artifact@, "\""@, ": "@, reason@);
        },
        EmbedJvmError::CreateInstance { class, reason } => {
            assert("failed to create Java instance of \""@ =~= "failed to create Java instance "@ + "of \""@) by {
                reveal_strlit("failed to create Java instance of \"");
                reveal_strlit("failed to create Java instance ");
                reveal_strlit("of \"");
            }
            tells("failed to create Java instance "@, "of \""@ + class@);
            behind_three("failed to create Java instance "@, "of \""@, class@, seq![]);
            tells_more("failed to create Java instance of \""@ + class@, "\": "@, "of \""@ + class@);
            tells_more("failed to create Java instance of \""@ + class@ + "\": "@, reason@, "of \""@ + class@);
            assert("\": "@ =~= "\""@ + ": "@) by {
                reveal_strlit("\": ");
                reveal_strlit("\"");
                reveal_strlit(": ");
            }
            tells_behind("failed to create Java instance of \""@ + class@, "\""@, ": "@, reason@);
        },
        EmbedJvmError::Invoke { class, method, reason } => {
            assert("failed to invoke \""@ =~= "failed to "@ + "invoke \""@) by {
                reveal_strlit("failed to invoke \"");
                reveal_strlit("failed to ");
                reveal_strlit("invoke \"");
            }
            tells("failed to "@, "invoke \""@ + method@);
            behind_three("failed to "@, "invoke \""@, method@, seq![]);
            tells_more("failed to invoke \""@ + method@, "\" on \""@, "invoke \""@ + method@);
            tells_more("failed to invoke \""@ + method@ + "\" on \""@, class@, "invoke \""@ + method@);
            tells_more("failed to invoke \""@ + method@ + "\" on \""@ + class@, "\": "@, "invoke \""@ + method@);
            tells_more("failed to invoke \""@ + method@ + "\" on \""@ + class@ + "\": "@, reason@, "invoke \""@ + method@);
            assert("\" on \""@ =~= "\" "@ + "on \""@) by {
                reveal_strlit("\" on \"");
                reveal_strlit("\" ");
                reveal_strlit("on \"");
            }
            tells_behind("failed to invoke \""@ + method@, "\" "@, "on \""@, class@);
            tells_more("failed to invoke \""@ + method@ + "\" on \""@ + class@, "\": "@, "on \""@ + class@);
            tells_more("failed to invoke \""@ + method@ + "\" on \""@ + class@ + "\": "@, reason@, "on \""@ + class@);
            assert("\": "@ =~= "\""@ + ": "@) by {
                reveal_strlit("\": ");
                reveal_strlit("\"");
                reveal_strlit(": ");
            }
            tells_behind("failed to invoke \""@ + method@ + "\" on \""@ + class@, "\""@, ": "@, reason@);
        },
        EmbedJvmError::Conversion(reason) => {
            tells("failed to convert the Java return value to the requested Rust type: "@, reason@);
        },
    }
}

} // verus!
