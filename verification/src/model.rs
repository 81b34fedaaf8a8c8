//! The canonical network record and the library's error values.
//!
//! A record is created by an enumeration parser as partial data, completed
//! by credential and security-type resolution, and consumed once by the
//! payload builder. Recoverable conditions (nothing found, access denied)
//! are absent fields, never errors; an error means the underlying tool
//! could not be used at all.

use vstd::prelude::*;

verus! {

/// The mathematical value of a [`WifiNetwork`].
pub struct SpecNetwork {
    pub ssid: Seq<char>,
    pub password: Option<Seq<char>>,
    pub security_type: Option<Seq<char>>,
}

/// One known Wi-Fi network: its display name, its stored password where
/// one could be retrieved, and its security token (`WPA`, `WEP` or
/// `nopass`) where the platform could classify it.
#[derive(Clone, Debug)]
pub struct WifiNetwork {
    pub ssid: String,
    pub password: Option<String>,
    pub security_type: Option<String>,
}

impl View for WifiNetwork {
    type V = SpecNetwork;

    open spec fn view(&self) -> SpecNetwork {
        SpecNetwork {
            ssid: self.ssid@,
            password: self.password.deep_view(),
            security_type: self.security_type.deep_view(),
        }
    }
}

impl WifiNetwork {
    /// Fills in the resolved password; the rest of the record is kept.
    pub fn fill_password(&mut self, password: String)
        ensures
            final(self)@.ssid == old(self)@.ssid,
            final(self)@.password == Some(password@),
            final(self)@.security_type == old(self)@.security_type,
    {
        self.password = Some(password);
    }

    /// Fills in the resolved security token; the rest of the record is
    /// kept.
    pub fn fill_security_type(&mut self, token: String)
        ensures
            final(self)@.ssid == old(self)@.ssid,
            final(self)@.password == old(self)@.password,
            final(self)@.security_type == Some(token@),
    {
        self.security_type = Some(token);
    }
}

/// The run configuration as the argument layer hands it in: at most one
/// output mode is set, the destination path and the document design are
/// optional. The core never re-derives these from flags itself.
#[derive(Clone, Debug, Default)]
pub struct Args {
    /// The output path: a directory (the file name is then derived) or a
    /// full file path.
    pub output_path: Option<String>,
    /// Display the code in the console; no file.
    pub show: bool,
    /// Produce a PNG raster image.
    pub png: bool,
    /// Produce a JPG raster image.
    pub jpg: bool,
    /// Produce an SVG vector image.
    pub svg: bool,
    /// A custom document design file for the certificate document.
    pub design: Option<String>,
}

/// The native profile-listing tool could not be used: it was missing or
/// exited with a failure status. Enumeration is then reported as failed and
/// the caller falls back to manual entry.
#[derive(Debug)]
pub struct EnumerationError {
    pub message: String,
}

impl EnumerationError {
    /// The diagnostic text, with the tool's own words preserved.
    pub fn message(&self) -> (r: String)
        ensures
            r@ == self.message@,
    {
        self.message.clone()
    }
}

/// The native secret-store tool itself could not be invoked. A lookup that
/// ran but found nothing is not an error; it is an absent password.
#[derive(Debug)]
pub struct CredentialLookupError {
    pub message: String,
}

impl CredentialLookupError {
    /// The diagnostic text.
    pub fn message(&self) -> (r: String)
        ensures
            r@ == self.message@,
    {
        self.message.clone()
    }
}

/// The payload could not be encoded at the QR symbol's maximum capacity.
#[derive(Debug)]
pub struct RenderError {
    pub message: String,
}

impl RenderError {
    /// The diagnostic text.
    pub fn message(&self) -> (r: String)
        ensures
            r@ == self.message@,
    {
        self.message.clone()
    }
}

/// The typesetting compiler is not present on the host. Fatal before any
/// workspace work begins; the message carries platform remediation advice.
#[derive(Debug)]
pub struct CompilerUnavailableError {
    pub message: String,
}

impl CompilerUnavailableError {
    /// The remediation text.
    pub fn message(&self) -> (r: String)
        ensures
            r@ == self.message@,
    {
        self.message.clone()
    }
}

/// The typesetting run failed. The message carries the compiler's log,
/// standard output and standard error in full; the run is not retried.
#[derive(Debug)]
pub struct CompileError {
    pub message: String,
}

impl CompileError {
    /// The full diagnostic dump.
    pub fn message(&self) -> (r: String)
        ensures
            r@ == self.message@,
    {
        self.message.clone()
    }
}

} // verus!
