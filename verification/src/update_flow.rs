//! The order of a self-update once a release has been chosen: the checksum
//! manifest and its signature are downloaded and the signature checked before
//! the asset is downloaded, and the asset is installed only when its SHA-256
//! digest matches the signed manifest.
use vstd::prelude::*;
use crate::text::push_str;
use crate::updater::{checksum_ok, hex_lower, sha256, verify_sha256};

verus! {

broadcast use vstd::string::group_string_axioms;

/// Where an update stands.
#[derive(PartialEq, Eq, Structural)]
pub enum UpdatePhase {
    /// Waiting for the checksum manifest's bytes.
    AwaitChecksums,
    /// Waiting for the manifest's detached signature.
    AwaitSignature,
    /// Waiting for the signature check of the manifest.
    AwaitVerification,
    /// Waiting for the manifest's text.
    AwaitDecoding,
    /// Waiting for the asset's bytes.
    AwaitAsset,
    /// The asset is to be installed.
    Installing,
    /// The update stopped.
    Stopped,
}

/// What the update does next.
pub enum UpdateAction {
    /// Download the checksum manifest (`checksums_url`).
    DownloadChecksums,
    /// Download the manifest's signature (`signature_url`).
    DownloadSignature,
    /// Check the signature of the downloaded manifest.
    VerifySignature,
    /// Read the verified manifest as UTF-8 text.
    DecodeChecksums,
    /// Download the asset (`asset_url`).
    DownloadAsset,
    /// Install the downloaded asset, whose digest matched the manifest.
    Install,
    /// The downloaded asset's digest does not match the manifest.
    ChecksumMismatch,
    /// Stop with this message.
    Fail(String),
}

/// What the last action gave.
pub enum UpdateEvent {
    /// A download's bytes, or why it failed.
    Downloaded(Result<Vec<u8>, String>),
    /// The signature check passed, or why it failed.
    SignatureChecked(Result<(), String>),
    /// The manifest's text, or why it is not UTF-8.
    Decoded(Result<String, String>),
}

/// One update of the running binary to the release asset `asset_name`.
pub struct UpdateRun {
    pub asset_name: String,
    pub asset_url: String,
    pub checksums_url: String,
    pub signature_url: String,
    pub phase: UpdatePhase,
    /// The downloaded checksum manifest.
    pub checksums: Vec<u8>,
    /// The downloaded signature of the manifest.
    pub signature: Vec<u8>,
    /// The manifest's text, once decoded.
    pub checksums_text: String,
    /// The downloaded asset.
    pub asset: Vec<u8>,
    /// Whether the manifest's signature was checked and passed.
    pub signature_verified: bool,
}

/// `prefix` followed by `detail`.
fn message(prefix: &str, detail: &str) -> (r: String)
    ensures
        r@ == prefix@ + detail@,
{
    let mut m = String::new();
    push_str(&mut m, prefix);
    push_str(&mut m, detail);
    m
}

impl UpdateRun {
    /// The phases after a successful signature check need one.
    pub open spec fn wf(&self) -> bool {
        (self.phase == UpdatePhase::AwaitDecoding || self.phase == UpdatePhase::AwaitAsset || self.phase
            == UpdatePhase::Installing) ==> self.signature_verified
    }

    /// Whether `event` answers the action the update asked for last.
    pub open spec fn expects(&self, event: UpdateEvent) -> bool {
        match self.phase {
            UpdatePhase::AwaitChecksums | UpdatePhase::AwaitSignature | UpdatePhase::AwaitAsset => event is Downloaded,
            UpdatePhase::AwaitVerification => event is SignatureChecked,
            UpdatePhase::AwaitDecoding => event is Decoded,
            _ => false,
        }
    }

    /// Starts the update of a planned release: the checksum manifest comes first.
    pub fn start(asset_name: String, asset_url: String, checksums_url: String, signature_url: String) -> (r: (
        UpdateRun,
        UpdateAction,
    ))
        ensures
            r.0.wf(),
            r.0.asset_name@ == asset_name@,
            r.0.asset_url@ == asset_url@,
            r.0.checksums_url@ == checksums_url@,
            r.0.signature_url@ == signature_url@,
            r.0.phase == UpdatePhase::AwaitChecksums,
            !r.0.signature_verified,
            r.1 is DownloadChecksums,
    {
        let run = UpdateRun {
            asset_name,
            asset_url,
            checksums_url,
            signature_url,
            phase: UpdatePhase::AwaitChecksums,
            checksums: Vec::new(),
            signature: Vec::new(),
            checksums_text: String::new(),
            asset: Vec::new(),
            signature_verified: false,
        };
        (run, UpdateAction::DownloadChecksums)
    }

    /// Takes the outcome of the last action and says what to do next. The
    /// order is fixed: manifest, signature, signature check, manifest text,
    /// asset, digest check, install; any failure stops the update.
    ///
    /// The asset is downloaded only after the manifest's signature passed,
    /// and installed only when its digest matches that manifest.
    pub fn step(&mut self, event: UpdateEvent) -> (r: UpdateAction)
        requires
            old(self).wf(),
            old(self).expects(event),
        ensures
            final(self).wf(),
            final(self).asset_name@ == old(self).asset_name@,
            final(self).signature_verified == (old(self).signature_verified || (event matches UpdateEvent::SignatureChecked(
                Ok(_),
            ))),
            r is DownloadAsset ==> final(self).signature_verified,
            r is Install ==> {
                &&& final(self).phase == UpdatePhase::Installing
                &&& final(self).signature_verified
                &&& event matches UpdateEvent::Downloaded(Ok(bytes)) && final(self).asset@ == bytes@
                &&& checksum_ok(hex_lower(sha256(final(self).asset@)), final(self).asset_name@, final(self).checksums_text@)
            },
            match (old(self).phase, event) {
                (UpdatePhase::AwaitChecksums, UpdateEvent::Downloaded(Ok(bytes))) => r is DownloadSignature
                    && final(self).phase == UpdatePhase::AwaitSignature && final(self).checksums@ == bytes@,
                (UpdatePhase::AwaitChecksums, UpdateEvent::Downloaded(Err(e))) => r matches UpdateAction::Fail(m)
                    && m@ == "Could not download checksums: "@ + e@ + ". Aborting update."@
                    && final(self).phase == UpdatePhase::Stopped,
                (UpdatePhase::AwaitSignature, UpdateEvent::Downloaded(Ok(bytes))) => r is VerifySignature
                    && final(self).phase == UpdatePhase::AwaitVerification && final(self).signature@ == bytes@
                    && final(self).checksums@ == old(self).checksums@,
                (UpdatePhase::AwaitSignature, UpdateEvent::Downloaded(Err(e))) => r matches UpdateAction::Fail(m)
                    && m@ == "Could not download checksum signature: "@ + e@
                    && final(self).phase == UpdatePhase::Stopped,
                (UpdatePhase::AwaitVerification, UpdateEvent::SignatureChecked(Ok(_))) => r is DecodeChecksums
                    && final(self).phase == UpdatePhase::AwaitDecoding
                    && final(self).checksums@ == old(self).checksums@,
                (UpdatePhase::AwaitVerification, UpdateEvent::SignatureChecked(Err(e))) => r matches UpdateAction::Fail(m)
                    && m@ == "Checksum signature verification FAILED: "@ + e@
                    && final(self).phase == UpdatePhase::Stopped,
                (UpdatePhase::AwaitDecoding, UpdateEvent::Decoded(Ok(text))) => r is DownloadAsset
                    && final(self).phase == UpdatePhase::AwaitAsset && final(self).checksums_text@ == text@,
                (UpdatePhase::AwaitDecoding, UpdateEvent::Decoded(Err(e))) => r matches UpdateAction::Fail(m)
                    && m@ == "SHA256SUMS.txt is not valid UTF-8: "@ + e@
                    && final(self).phase == UpdatePhase::Stopped,
                (UpdatePhase::AwaitAsset, UpdateEvent::Downloaded(Ok(bytes))) => final(self).asset@ == bytes@
                    && final(self).checksums_text@ == old(self).checksums_text@ && if checksum_ok(
                    hex_lower(sha256(bytes@)),
                    old(self).asset_name@,
                    old(self).checksums_text@,
                ) {
                    r is Install && final(self).phase == UpdatePhase::Installing
                } else {
                    r is ChecksumMismatch && final(self).phase == UpdatePhase::Stopped
                },
                (UpdatePhase::AwaitAsset, UpdateEvent::Downloaded(Err(e))) => r matches UpdateAction::Fail(m)
                    && m@ == "Download failed: "@ + e@
                    && final(self).phase == UpdatePhase::Stopped,
                _ => false,
            },
    {
        match event {
            UpdateEvent::Downloaded(Ok(bytes)) => {
                if self.phase == UpdatePhase::AwaitChecksums {
                    self.checksums = bytes;
                    self.phase = UpdatePhase::AwaitSignature;
                    UpdateAction::DownloadSignature
                } else if self.phase == UpdatePhase::AwaitSignature {
                    self.signature = bytes;
                    self.phase = UpdatePhase::AwaitVerification;
                    UpdateAction::VerifySignature
                } else {
                    self.asset = bytes;
                    if verify_sha256(self.asset.as_slice(), self.asset_name.as_str(), self.checksums_text.as_str()) {
                        self.phase = UpdatePhase::Installing;
                        UpdateAction::Install
                    } else {
                        self.phase = UpdatePhase::Stopped;
                        UpdateAction::ChecksumMismatch
                    }
                }
            },
            UpdateEvent::Downloaded(Err(e)) => {
                let m = if self.phase == UpdatePhase::AwaitChecksums {
                {
                    let mut m = message("Could not download checksums: ", e.as_str());
                    push_str(&mut m, ". Aborting update.");
                    m
                }
                } else if self.phase == UpdatePhase::AwaitSignature {
                    message("Could not download checksum signature: ", e.as_str())
                } else {
                    message("Download failed: ", e.as_str())
                };
                self.phase = UpdatePhase::Stopped;
                UpdateAction::Fail(m)
            },
            UpdateEvent::SignatureChecked(Ok(())) => {
                self.signature_verified = true;
                self.phase = UpdatePhase::AwaitDecoding;
                UpdateAction::DecodeChecksums
            },
            UpdateEvent::SignatureChecked(Err(e)) => {
                self.phase = UpdatePhase::Stopped;
                UpdateAction::Fail(message("Checksum signature verification FAILED: ", e.as_str()))
            },
            UpdateEvent::Decoded(Ok(text)) => {
                self.checksums_text = text;
                self.phase = UpdatePhase::AwaitAsset;
                UpdateAction::DownloadAsset
            },
            UpdateEvent::Decoded(Err(e)) => {
                self.phase = UpdatePhase::Stopped;
                UpdateAction::Fail(message("SHA256SUMS.txt is not valid UTF-8: ", e.as_str()))
            },
        }
    }
}

} // verus!
