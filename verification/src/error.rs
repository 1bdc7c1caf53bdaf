//! Why a request, a report or a session is refused.

use vstd::prelude::*;

verus! {

/// What can be wrong with a FIDO report, a CTAP message or a device selection.
#[derive(Clone, Copy, Debug, PartialEq, Eq, Structural)]
pub enum FidoError {
    /// A HID report that is not exactly one report long; carries its length.
    ReportSize(usize),
    /// A CTAPHID payload above the accepted maximum.
    PayloadTooLarge,
    /// A continuation report on a channel with no message under way.
    UnexpectedContinuation,
    /// A continuation report with the wrong sequence number.
    OutOfOrderContinuation,
    /// Bytes that are not one CBOR value.
    InvalidCbor,
    /// A CBOR value that should have been a map.
    NotAMap,
    /// An integer that CBOR cannot hold.
    IntegerOutOfRange,
    /// A map without the key.
    MissingKey(i128),
    /// The key leads to an integer that is not an unsigned byte.
    NotUnsignedByte(i128),
    /// The key does not lead to an integer.
    NotInteger(i128),
    /// The key does not lead to a byte string.
    NotBytes(i128),
    /// The key does not lead to text.
    NotText(i128),
    /// A PIN/UV protocol other than the first.
    UnsupportedProtocol,
    /// A response without even a status.
    EmptyResponse,
    /// The authenticator answered with this status.
    Rejected(u8),
    /// The relying party of a MakeCredential request is not a map.
    RelyingPartyNotAMap,
    /// The relying party of a MakeCredential request has no id.
    RelyingPartyWithoutId,
    /// The options of a GetAssertion request are not a map.
    AssertionOptionsNotAMap,
    /// The `up` option of a GetAssertion request is not a boolean.
    PresenceNotBoolean,
    /// The options in the authenticator's description of itself are not a map.
    InfoOptionsNotAMap,
    /// A key for key agreement that is not a map.
    KeyAgreementNotAMap,
    /// A key for key agreement that is not an elliptic-curve key on P-256.
    NotP256Key,
    /// A coordinate that is not 32 bytes long.
    CoordinateSize,
    /// A point that is not on the curve.
    NotOnCurve,
    /// A text to encrypt or decrypt that is not a positive number of whole blocks.
    Unaligned,
    /// A cipher key that is not 32 bytes long.
    KeySize,
    /// An authentication parameter of the wrong length.
    ProofSize,
    /// An authentication parameter that does not belong to the message.
    ProofMismatch,
    /// A command that cannot carry a PIN/UV proof.
    UnsupportedCommand,
    /// A PIN/UV proof while no token is out.
    NoPinSession,
    /// A token for other operations or another relying party.
    TokenScope,
    /// A token asked for with no permission, or with one that is not offered.
    UnsupportedPermissions,
    /// A device read of a length that no report has.
    InputReportSize(usize),
    /// A device took only the first so many of so many bytes.
    ShortWrite(usize, usize),
    /// More reports in one packet than are taken in at a time.
    TooManyReports,
    /// Writing to or reading from a device failed.
    Device,
    /// The authenticator did not answer in time.
    Timeout,
    /// The authenticator rejected the PIN, as often as it was asked for.
    PinRejected,
    /// Told of something that was not asked for, or asked to start before the last
    /// packet was dealt with.
    UnexpectedSignal,
    /// An answer of the PIN prompt that is not in its format.
    PinentryResponse,
    /// A PIN that is not UTF-8.
    PinNotUtf8,
    /// The PIN prompt was cancelled.
    PinCancelled,
    /// An empty PIN.
    EmptyPin,
    /// There is no PIN prompt program.
    NoPinentry,
    /// A PIN prompt program could not be started or talked to.
    PinentryFailed,
    /// A USB vendor or product identifier above 16 bits.
    DeviceIdentifier,
    /// A virtual device identifier that is empty, too long, or has other characters than
    /// ASCII letters, digits, `_` and `-`.
    VirtualIdentifier,
    /// A virtual device event of a kind that is not known.
    UnknownEvent(u32),
}

/// Why a client session ends.
#[derive(Clone, Copy, Debug, PartialEq, Eq, Structural)]
pub enum ClientError {
    /// An image above the accepted size; carries its width and height.
    ImageTooBig(u32, u32),
    /// A cursor above the accepted size; carries its width, height and hot spot.
    CursorTooBig(u32, u32, u32, u32),
    /// The user could not be asked or told something.
    Interface,
    /// A turn of the login conversation without content.
    LoginConversation,
    /// A zoom that is not a finite number of at least one.
    Zoom,
    /// The sound device failed.
    Sound,
    /// No connection to the server.
    Connection,
    /// The shared memory with the images cannot be mapped.
    ImageSource,
    /// The TLS server name is neither a host name nor an address.
    ServerName,
    /// TLS cannot be set up.
    Tls,
    /// Sending to or receiving from the server failed.
    Exchange,
    /// The server speaks another version.
    VersionMismatch,
    /// Kerberos authentication failed.
    Kerberos,
    /// Zoom with a server that keeps its resolution.
    ZoomNeedsAdaptiveServer,
    /// FIDO forwarding was asked for, and the server does not allow it.
    FidoNotAllowed,
    /// The authenticator cannot be opened, or forwarding to or from it failed.
    Fido,
    /// The display failed.
    Display,
    /// The video decoder cannot be set up.
    Codec,
    /// An image with longer lines than are accepted.
    BytesPerLine,
    /// The server sent FIDO reports that were not negotiated.
    FidoNotNegotiated,
    /// Told of something that was not asked for.
    UnexpectedEvent,
}

} // verus!
