//! TLS on devices: when the platform's verifier may be used, and what is offered
//! to servers.
use crate::text::{concat2, views};
use vstd::prelude::*;

verus! {

/// Why there is no TLS configuration.
#[derive(Debug)]
pub enum TlsError {
    ConfigBuild(String),
    /// On Android the verifier has to be set up first.
    NotInitialized,
}

impl TlsError {
    /// The text of the message shown for the error.
    pub open spec fn text(&self) -> Seq<char> {
        match *self {
            TlsError::ConfigBuild(reason) => "rustls client config build failed: "@ + reason@,
            TlsError::NotInitialized =>
                "rusk_tls::init() was not called before building a client config — call it once early in ANativeActivity_onCreate"@,
        }
    }

    /// The message shown for the error.
    pub fn message(&self) -> (r: String)
        ensures
            r@ == self.text(),
    {
        match self {
            TlsError::ConfigBuild(reason) => concat2("rustls client config build failed: ", reason),
            TlsError::NotInitialized =>
                "rusk_tls::init() was not called before building a client config — call it once early in ANativeActivity_onCreate".to_owned(),
        }
    }
}

/// Where the limits of the platform's verifier on Android are described.
pub const ANDROID_LIMITATIONS: &'static str = "see rusk-tls crate docs: ANDROID_LIMITATIONS";

/// Whether the platform's verifier has been set up.
#[derive(Debug, Clone, Copy, PartialEq, Eq, Structural)]
pub struct TlsSetup {
    pub on_android: bool,
    pub initialized: bool,
}

impl TlsSetup {
    /// Before anything has been set up.
    pub fn new(on_android: bool) -> (r: Self)
        ensures
            r == (TlsSetup { on_android, initialized: false }),
    {
        TlsSetup { on_android, initialized: false }
    }

    /// Notes that the verifier is to be set up; whether that has to be done now.
    /// It is done once, and only on Android.
    pub fn init(&mut self) -> (r: bool)
        ensures
            r == (old(self).on_android && !old(self).initialized),
            final(self).on_android == old(self).on_android,
            final(self).initialized == (old(self).on_android || old(self).initialized),
    {
        if !self.on_android || self.initialized {
            return false;
        }
        self.initialized = true;
        true
    }

    /// Whether a configuration can be built: on Android only after [`TlsSetup::init`].
    pub fn client_config(&self) -> (r: Result<(), TlsError>)
        ensures
            match r {
                Ok(()) => !self.on_android || self.initialized,
                Err(TlsError::NotInitialized) => self.on_android && !self.initialized,
                Err(_) => false,
            },
    {
        if self.on_android && !self.initialized {
            Err(TlsError::NotInitialized)
        } else {
            Ok(())
        }
    }
}

/// The protocols that are offered to servers, in order of preference.
pub fn alpn_protocols() -> (r: Vec<String>)
    ensures
        views(r@) == seq!["h2"@, "http/1.1"@],
{
    let r = vec!["h2".to_owned(), "http/1.1".to_owned()];
    assert(views(r@) =~= seq!["h2"@, "http/1.1"@]);
    r
}

} // verus!
