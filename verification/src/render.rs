//! Rendering a file of the container: its type is read off the path's suffix,
//! and storage is asked only for what that type needs.

use std::sync::Arc;
use vstd::prelude::*;
use vstd::slice::slice_to_vec;
use vstd::string::{StringExecFns, StringSliceAdditionalSpecFns};
use vstd::utf8::{decode_utf8, encode_utf8_decode_utf8, valid_utf8};
use brdb::schema::{BrdbSchemaGlobalData, ReadBrdbSchema};
use brdb::BrdbSchemaError;
use crate::path::{after_last, extension};
use crate::text::str_eq;

verus! {

/// The container's global data (`brdb::schema::BrdbSchemaGlobalData`), which a
/// schema is decoded with. It is handed on as it came from storage.
#[verifier::external_type_specification]
#[verifier::external_body]
pub struct ExBrdbSchemaGlobalData(BrdbSchemaGlobalData);

/// Why `brdb` could not decode a schema (`brdb::BrdbSchemaError`).
#[verifier::external_type_specification]
#[verifier::external_body]
pub struct ExBrdbSchemaError(BrdbSchemaError);

/// The types of file that can be rendered.
#[derive(Clone, Copy, Debug, PartialEq, Eq, Structural)]
pub enum FileKind {
    /// A schema descriptor, shown in its text form.
    Schema,
    /// Text, shown as it is.
    Json,
    /// A binary payload, written out byte for byte.
    Mps,
}

/// Why a file could not be rendered.
#[derive(Debug, PartialEq, Eq)]
pub enum RenderError {
    /// Storage has no bytes under the path.
    StorageReadFailed,
    /// Storage has no global data to decode a schema with.
    GlobalDataUnavailable,
    /// The bytes are no schema.
    SchemaDecodeFailed,
    /// The bytes are no UTF-8 text.
    InvalidEncoding,
    /// The suffix names none of the types, and is carried here.
    UnsupportedFileType(String),
}

/// A `RenderError` with the suffix it carries as a sequence of characters.
pub enum RenderFailure {
    StorageReadFailed,
    GlobalDataUnavailable,
    SchemaDecodeFailed,
    InvalidEncoding,
    UnsupportedFileType(Seq<char>),
}

impl View for RenderError {
    type V = RenderFailure;

    open spec fn view(&self) -> RenderFailure {
        match self {
            RenderError::StorageReadFailed => RenderFailure::StorageReadFailed,
            RenderError::GlobalDataUnavailable => RenderFailure::GlobalDataUnavailable,
            RenderError::SchemaDecodeFailed => RenderFailure::SchemaDecodeFailed,
            RenderError::InvalidEncoding => RenderFailure::InvalidEncoding,
            RenderError::UnsupportedFileType(suffix) => RenderFailure::UnsupportedFileType(
                suffix@,
            ),
        }
    }
}

/// The words that tell a user of the failure `e`.
pub open spec fn failure_text(e: RenderFailure) -> Seq<char> {
    match e {
        RenderFailure::StorageReadFailed => "couldnt read file"@,
        RenderFailure::GlobalDataUnavailable => "couldnt get global data"@,
        RenderFailure::SchemaDecodeFailed => "couldnt read schema"@,
        RenderFailure::InvalidEncoding => "couldnt convert file bytes to str"@,
        RenderFailure::UnsupportedFileType(_) => "Invalid file type"@,
    }
}

impl RenderError {
    /// The words that tell a user of this error.
    pub fn message(&self) -> (text: String)
        ensures
            text@ == failure_text(self@),
    {
        match self {
            RenderError::StorageReadFailed => String::from_str("couldnt read file"),
            RenderError::GlobalDataUnavailable => String::from_str("couldnt get global data"),
            RenderError::SchemaDecodeFailed => String::from_str("couldnt read schema"),
            RenderError::InvalidEncoding => String::from_str("couldnt convert file bytes to str"),
            RenderError::UnsupportedFileType(_) => String::from_str("Invalid file type"),
        }
    }
}

/// What rendering a file gives: bytes to write to the raw output as they
/// are, and after them text to print.
#[derive(Debug, PartialEq, Eq)]
pub struct RenderedOutput {
    pub raw: Vec<u8>,
    pub text: String,
}

/// A `RenderedOutput` as sequences of bytes and of characters.
pub struct Rendering {
    pub raw: Seq<u8>,
    pub text: Seq<char>,
}

impl View for RenderedOutput {
    type V = Rendering;

    open spec fn view(&self) -> Rendering {
        Rendering { raw: self.raw@, text: self.text@ }
    }
}

/// What storage has answered to one request.
#[derive(Debug)]
pub enum Fetched<T> {
    /// The request has not been made.
    NotYet,
    /// Storage could not serve it.
    Failed,
    /// Storage served it.
    Got(T),
}

/// What to do next for a file: ask storage for something more, or stop with
/// the outcome.
#[derive(Debug, PartialEq, Eq)]
pub enum ReadStep {
    /// Ask storage for the bytes under the path.
    FetchFile,
    /// Ask storage for the container's global data.
    FetchGlobalData,
    /// Nothing is left to ask for.
    Done(Result<RenderedOutput, RenderError>),
}

/// A `ReadStep` with its outcome as sequences.
pub enum ReadStepView {
    FetchFile,
    FetchGlobalData,
    Done(Result<Rendering, RenderFailure>),
}

impl View for ReadStep {
    type V = ReadStepView;

    open spec fn view(&self) -> ReadStepView {
        match self {
            ReadStep::FetchFile => ReadStepView::FetchFile,
            ReadStep::FetchGlobalData => ReadStepView::FetchGlobalData,
            ReadStep::Done(Ok(out)) => ReadStepView::Done(Ok(out@)),
            ReadStep::Done(Err(e)) => ReadStepView::Done(Err(e@)),
        }
    }
}

/// The text form of the schema that `brdb` decodes from `bytes`, or `None`
/// where it decodes none. This only names what `brdb` computes: its value is
/// known of no input, and all that is claimed of it is that `decode_schema`
/// returns it.
pub uninterp spec fn schema_text(bytes: Seq<u8>) -> Option<Seq<char>>;

/// The type that a suffix names.
pub open spec fn kind_of(suffix: Seq<char>) -> Option<FileKind> {
    if suffix == "schema"@ {
        Some(FileKind::Schema)
    } else if suffix == "json"@ {
        Some(FileKind::Json)
    } else if suffix == "mps"@ {
        Some(FileKind::Mps)
    } else {
        None
    }
}

/// The type of the file at `path`, by what follows its last `.`.
pub open spec fn kind_of_path(path: Seq<char>) -> Result<FileKind, RenderFailure> {
    let suffix = after_last(path, '.')->0;
    match kind_of(suffix) {
        Some(kind) => Ok(kind),
        None => Err(RenderFailure::UnsupportedFileType(suffix)),
    }
}

/// Text shown as it is: the characters that `bytes` encode in UTF-8.
pub open spec fn text_rendering(bytes: Seq<u8>) -> Result<Rendering, RenderFailure> {
    if valid_utf8(bytes) {
        Ok(Rendering { raw: Seq::empty(), text: decode_utf8(bytes) })
    } else {
        Err(RenderFailure::InvalidEncoding)
    }
}

/// A binary payload: the bytes go out raw, and no text follows.
pub open spec fn raw_rendering(bytes: Seq<u8>) -> Rendering {
    Rendering { raw: bytes, text: Seq::empty() }
}

/// A schema: the text form of what was decoded, if anything was.
pub open spec fn schema_rendering(decoded: Option<Seq<char>>) -> Result<Rendering, RenderFailure> {
    match decoded {
        Some(text) => Ok(Rendering { raw: Seq::empty(), text }),
        None => Err(RenderFailure::SchemaDecodeFailed),
    }
}

/// The next step for the file at `path`, given what storage has answered so
/// far. A suffix that names no type ends it before anything is asked for.
/// Then the file's bytes are needed. Text and binary payloads end with them;
/// a schema needs the global data as well, and is decoded once both are in.
pub open spec fn next_step(
    path: Seq<char>,
    file: Fetched<Vec<u8>>,
    global_data: Fetched<Arc<BrdbSchemaGlobalData>>,
) -> ReadStepView {
    match kind_of_path(path) {
        Err(e) => ReadStepView::Done(Err(e)),
        Ok(kind) => match file {
            Fetched::NotYet => ReadStepView::FetchFile,
            Fetched::Failed => ReadStepView::Done(Err(RenderFailure::StorageReadFailed)),
            Fetched::Got(bytes) => match kind {
                FileKind::Json => ReadStepView::Done(text_rendering(bytes@)),
                FileKind::Mps => ReadStepView::Done(Ok(raw_rendering(bytes@))),
                FileKind::Schema => match global_data {
                    Fetched::NotYet => ReadStepView::FetchGlobalData,
                    Fetched::Failed => ReadStepView::Done(
                        Err(RenderFailure::GlobalDataUnavailable),
                    ),
                    Fetched::Got(_) => ReadStepView::Done(schema_rendering(schema_text(bytes@))),
                },
            },
        },
    }
}

/// `core::str::from_utf8`, with its error dropped. Believed of it, as its
/// documentation has it and without proof: it gives a string exactly when
/// `bytes` are well-formed UTF-8, and the string is the one that `bytes`
/// encode.
#[verifier::external_body]
fn utf8_text(bytes: &[u8]) -> (r: Option<&str>)
    ensures
        r is Some <==> valid_utf8(bytes@),
        r matches Some(text) ==> text.spec_bytes() == bytes@,
{
    core::str::from_utf8(bytes).ok()
}

/// `ReadBrdbSchema::read_brdb_schema_with_data` of `brdb` on a byte slice, and
/// the `Display` form of the schema it gives. Believed of it without proof:
/// whether it decodes a schema, and the text if it does, depend on the bytes
/// alone. `brdb` builds the schema from the bytes and only attaches the global
/// data to the result, and the text form does not read what was attached.
#[verifier::external_body]
fn decode_schema(bytes: &[u8], global_data: &Arc<BrdbSchemaGlobalData>) -> (r: Result<
    String,
    BrdbSchemaError,
>)
    ensures
        match r {
            Ok(text) => schema_text(bytes@) == Some(text@),
            Err(_) => schema_text(bytes@) is None,
        },
{
    let mut input = bytes;
    match input.read_brdb_schema_with_data(global_data.clone()) {
        Ok(schema) => Ok(format!("{schema}")),
        Err(e) => Err(e),
    }
}

/// The type that `suffix` names, if it names one.
pub fn kind_of_suffix(suffix: &str) -> (r: Option<FileKind>)
    ensures
        r == kind_of(suffix@),
{
    if str_eq(suffix, "schema") {
        Some(FileKind::Schema)
    } else if str_eq(suffix, "json") {
        Some(FileKind::Json)
    } else if str_eq(suffix, "mps") {
        Some(FileKind::Mps)
    } else {
        None
    }
}

/// Whether `path` has a `.`, and with it a suffix to tell its type by.
pub fn has_suffix(path: &str) -> (r: bool)
    ensures
        r == (after_last(path@, '.') is Some),
{
    extension(path).is_some()
}

/// The type of the file at `path`, or the suffix that names none.
pub fn classify(path: &str) -> (r: Result<FileKind, RenderError>)
    requires
        after_last(path@, '.') is Some,
    ensures
        match r {
            Ok(kind) => kind_of_path(path@) == Ok::<FileKind, RenderFailure>(kind),
            Err(e) => kind_of_path(path@) == Err::<FileKind, RenderFailure>(e@),
        },
{
    let suffix = extension(path).unwrap();
    match kind_of_suffix(suffix) {
        Some(kind) => Ok(kind),
        None => Err(RenderError::UnsupportedFileType(suffix.to_owned())),
    }
}

/// Renders text: the bytes as a string, if they are UTF-8.
pub fn render_text(bytes: &[u8]) -> (r: Result<RenderedOutput, RenderError>)
    ensures
        match r {
            Ok(out) => text_rendering(bytes@) == Ok::<Rendering, RenderFailure>(out@),
            Err(e) => text_rendering(bytes@) == Err::<Rendering, RenderFailure>(e@),
        },
{
    match utf8_text(bytes) {
        Some(text) => {
            proof {
                encode_utf8_decode_utf8(text@);
            }
            Ok(RenderedOutput { raw: Vec::new(), text: String::from_str(text) })
        },
        None => Err(RenderError::InvalidEncoding),
    }
}

/// Renders a binary payload: the bytes themselves, and no text.
pub fn render_raw(bytes: &[u8]) -> (out: RenderedOutput)
    ensures
        out@ == raw_rendering(bytes@),
{
    RenderedOutput { raw: slice_to_vec(bytes), text: String::new() }
}

/// Renders what decoding a schema gave: its text, or the failure to decode.
pub fn render_decoded(decoded: Result<String, BrdbSchemaError>) -> (r: Result<
    RenderedOutput,
    RenderError,
>)
    ensures
        match (decoded, r) {
            (Ok(text), Ok(out)) => out@ == Rendering { raw: Seq::empty(), text: text@ },
            (Err(_), Err(e)) => e@ == RenderFailure::SchemaDecodeFailed,
            _ => false,
        },
{
    match decoded {
        Ok(text) => Ok(RenderedOutput { raw: Vec::new(), text }),
        Err(_) => Err(RenderError::SchemaDecodeFailed),
    }
}

/// Renders a schema: `bytes` decoded with the container's global data, in
/// text form.
pub fn render_schema(bytes: &[u8], global_data: &Arc<BrdbSchemaGlobalData>) -> (r: Result<
    RenderedOutput,
    RenderError,
>)
    ensures
        match r {
            Ok(out) => schema_rendering(schema_text(bytes@)) == Ok::<Rendering, RenderFailure>(
                out@,
            ),
            Err(e) => schema_rendering(schema_text(bytes@)) == Err::<Rendering, RenderFailure>(
                e@,
            ),
        },
{
    render_decoded(decode_schema(bytes, global_data))
}

/// The next step in rendering the file at `path`: what to ask storage for,
/// given what it has answered so far, or the outcome. The caller asks, notes
/// the answer, and comes back until the step is `Done`.
pub fn read_file(
    path: &str,
    file: &Fetched<Vec<u8>>,
    global_data: &Fetched<Arc<BrdbSchemaGlobalData>>,
) -> (step: ReadStep)
    requires
        after_last(path@, '.') is Some,
    ensures
        step@ == next_step(path@, *file, *global_data),
{
    let kind = match classify(path) {
        Ok(kind) => kind,
        Err(e) => {
            return ReadStep::Done(Err(e));
        },
    };
    let bytes = match file {
        Fetched::NotYet => {
            return ReadStep::FetchFile;
        },
        Fetched::Failed => {
            return ReadStep::Done(Err(RenderError::StorageReadFailed));
        },
        Fetched::Got(bytes) => bytes.as_slice(),
    };
    match kind {
        FileKind::Json => ReadStep::Done(render_text(bytes)),
        FileKind::Mps => ReadStep::Done(Ok(render_raw(bytes))),
        FileKind::Schema => match global_data {
            Fetched::NotYet => ReadStep::FetchGlobalData,
            Fetched::Failed => ReadStep::Done(Err(RenderError::GlobalDataUnavailable)),
            Fetched::Got(data) => ReadStep::Done(render_schema(bytes, data)),
        },
    }
}

} // verus!
