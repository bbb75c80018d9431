//! The `.blade` artifact: a compiled module with its metadata, behind a
//! header of four magic bytes and a format version. Encoding and decoding
//! of the bytes is done with `postcard`; this module states what makes a
//! decoded artifact acceptable.

use vstd::prelude::*;
use vstd::string::StringExecFns;
use crate::module::IrModule;
use crate::text::{decimal, push_decimal};

verus! {

/// `std::io::Error`, carried opaquely in `BladeError::Io`.
#[verifier::external_type_specification]
#[verifier::external_body]
pub struct ExIoError(std::io::Error);

/// `postcard::Error`, carried opaquely in `BladeError::Serialization`.
#[verifier::external_type_specification]
#[verifier::external_body]
pub struct ExPostcardError(postcard::Error);

/// The format version this library writes and reads.
pub const BLADE_VERSION: u32 = 1;

/// The magic bytes that open every artifact: `BLAD`.
pub open spec fn blade_magic_spec() -> Seq<u8> {
    seq![66u8, 76u8, 65u8, 68u8]
}

/// The magic bytes that open every artifact: `BLAD`.
pub fn blade_magic() -> (r: [u8; 4])
    ensures
        r@ == blade_magic_spec(),
{
    let r: [u8; 4] = [66u8, 76u8, 65u8, 68u8];
    proof { assert(r@ =~= blade_magic_spec()); }
    r
}

/// What is known about the module an artifact holds.
#[derive(Debug, Clone)]
pub struct BladeMetadata {
    /// Module name.
    pub name: String,
    /// Path of the source file.
    pub source_path: String,
    /// Modification time of the source file, in seconds since the Unix epoch.
    pub source_timestamp: u64,
    /// Compilation time, in seconds since the Unix epoch.
    pub compile_timestamp: u64,
    /// Modules this one depends on.
    pub dependencies: Vec<String>,
    /// Version of the compiler that wrote the artifact.
    pub compiler_version: String,
}

/// A decoded artifact: header, metadata and module.
#[derive(Debug)]
pub struct BladeModule {
    pub magic: [u8; 4],
    pub version: u32,
    pub metadata: BladeMetadata,
    pub mir: IrModule,
}

/// Why an artifact could not be written or read.
#[derive(Debug)]
pub enum BladeError {
    /// Reading or writing the file failed.
    Io(std::io::Error),
    /// Encoding or decoding the bytes failed.
    Serialization(postcard::Error),
    /// The artifact does not start with the magic bytes.
    InvalidMagic,
    /// The artifact has another format version.
    UnsupportedVersion(u32),
}

/// Calls `to_string` on a `std::io::Error`, which writes it with its
/// `Display`. Nothing is stated of the text: it can come from the
/// operating system.
#[verifier::external_body]
fn io_error_text(e: &std::io::Error) -> String {
    e.to_string()
}

/// Calls `to_string` on a `postcard::Error`, which writes it with the
/// `Display` that `postcard` gives it: one fixed, non-empty sentence per
/// variant. The contract claims only that the text is not empty.
#[verifier::external_body]
fn postcard_error_text(e: &postcard::Error) -> (r: String)
    ensures
        r@.len() > 0,
{
    e.to_string()
}

/// The outside failures that an error message describes.
#[derive(Clone, Copy, Debug, PartialEq, Eq, Structural)]
pub enum OutsideFailure {
    Io,
    Serialization,
}

/// The text that opens the message of an outside failure.
pub open spec fn failure_prefix(kind: OutsideFailure) -> Seq<char> {
    match kind {
        OutsideFailure::Io => "I/O error: "@,
        OutsideFailure::Serialization => "Serialization error: "@,
    }
}

/// The message of an outside failure whose own text is `text`.
pub fn error_message(kind: OutsideFailure, text: &str) -> (r: String)
    ensures
        r@ == failure_prefix(kind) + text@,
{
    let mut s = match kind {
        OutsideFailure::Io => "I/O error: ".to_owned(),
        OutsideFailure::Serialization => "Serialization error: ".to_owned(),
    };
    s.append(text);
    s
}

impl BladeError {
    /// A description of the error. For an I/O or encoding error it is
    /// `error_message` of the underlying error's text, which that error's
    /// `Display` gives.
    pub fn message(&self) -> (r: String)
        ensures
            match self {
                BladeError::Io(_) => exists|t: Seq<char>| r@ == failure_prefix(OutsideFailure::Io) + t,
                BladeError::Serialization(_) => exists|t: Seq<char>|
                    t.len() > 0 && r@ == failure_prefix(OutsideFailure::Serialization) + t,
                BladeError::InvalidMagic => r@ == "Invalid BLADE magic number"@,
                BladeError::UnsupportedVersion(v) => r@ == "Unsupported BLADE version: "@ + decimal(*v as nat),
            },
    {
        match self {
            BladeError::Io(e) => {
                let t = io_error_text(e);
                error_message(OutsideFailure::Io, t.as_str())
            },
            BladeError::Serialization(e) => {
                let t = postcard_error_text(e);
                error_message(OutsideFailure::Serialization, t.as_str())
            },
            BladeError::InvalidMagic => "Invalid BLADE magic number".to_owned(),
            BladeError::UnsupportedVersion(v) => {
                let mut s = "Unsupported BLADE version: ".to_owned();
                push_decimal(&mut s, *v as usize);
                s
            },
        }
    }
}

/// The outcome of checking a header: the magic bytes first, then the version.
pub open spec fn header_check(magic: Seq<u8>, version: u32) -> Result<(), BladeError> {
    if magic != blade_magic_spec() {
        Err(BladeError::InvalidMagic)
    } else if version != BLADE_VERSION {
        Err(BladeError::UnsupportedVersion(version))
    } else {
        Ok(())
    }
}

/// An artifact written with this library's header is accepted when read
/// back, and a decoded artifact gives back the module and metadata it holds.
pub proof fn lemma_written_header_accepted(b: BladeModule)
    requires
        b.magic@ == blade_magic_spec(),
        b.version == BLADE_VERSION,
    ensures
        header_check(b.magic@, b.version) == Ok::<(), BladeError>(()),
{
}

/// The header every artifact is written with.
pub fn blade_header() -> (r: ([u8; 4], u32))
    ensures
        r.0@ == blade_magic_spec(),
        r.1 == BLADE_VERSION,
        header_check(r.0@, r.1) is Ok,
{
    (blade_magic(), BLADE_VERSION)
}

/// Checks a header: `InvalidMagic` unless it opens with the magic bytes,
/// then `UnsupportedVersion` unless it has this library's version.
pub fn check_header(magic: &[u8; 4], version: u32) -> (r: Result<(), BladeError>)
    ensures
        r is Ok <==> header_check(magic@, version) is Ok,
        r is Err ==> r == header_check(magic@, version),
{
    let expected = blade_magic();
    let mut i: usize = 0;
    while i < 4
        invariant
            i <= 4,
            expected@ == blade_magic_spec(),
            forall|k: int| 0 <= k < i ==> magic@[k] == expected@[k],
        decreases 4 - i,
    {
        if magic[i] != expected[i] {
            return Err(BladeError::InvalidMagic);
        }
        i = i + 1;
    }
    proof { assert(magic@ =~= blade_magic_spec()); }
    if version != BLADE_VERSION {
        return Err(BladeError::UnsupportedVersion(version));
    }
    Ok(())
}

impl BladeModule {
    /// An artifact of `mir` and its metadata, with this library's header.
    pub fn new(metadata: BladeMetadata, mir: IrModule) -> (r: BladeModule)
        ensures
            r.magic@ == blade_magic_spec(),
            r.version == BLADE_VERSION,
            r.metadata == metadata,
            r.mir == mir,
    {
        BladeModule { magic: blade_magic(), version: BLADE_VERSION, metadata, mir }
    }

    /// The module and metadata of a decoded artifact whose header checks out.
    pub fn into_parts(self) -> (r: Result<(IrModule, BladeMetadata), BladeError>)
        ensures
            r is Ok <==> header_check(self.magic@, self.version) is Ok,
            r is Ok ==> r == Ok::<(IrModule, BladeMetadata), BladeError>((self.mir, self.metadata)),
            r matches Err(e) ==> header_check(self.magic@, self.version) == Err::<(), BladeError>(e),
    {
        match check_header(&self.magic, self.version) {
            Ok(()) => Ok((self.mir, self.metadata)),
            Err(e) => Err(e),
        }
    }
}

} // verus!
