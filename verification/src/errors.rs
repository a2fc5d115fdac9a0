//! The error taxonomy of the layer. Every component reports one of these
//! kinds rather than a transport error; the lifecycle layer maps them to
//! client-visible outcomes. `message` renders the client-visible text.

use vstd::prelude::*;
use crate::text::dec_digits;

verus! {

/// What went wrong, from the caller's point of view.
#[derive(Debug)]
pub enum ErrorTypes {
    /// The application id has no record in the registry.
    ApplicationNotFound(String),
    /// The index name is not listed by the owning application.
    IndexNotFound(String),
    /// The document id resolves to nothing.
    DocumentNotFound(String),
    /// The engine rejected the payload or mapping.
    BadDataRequest,
    /// A create collided with an index that already exists.
    IndexExists(String),
    /// The engine cannot be reached.
    ServerDown,
    /// Any other non-success outcome.
    Unknown,
}

/// The client-visible text for an error kind.
pub open spec fn spec_error_message(e: ErrorTypes) -> Seq<char> {
    match e {
        ErrorTypes::ApplicationNotFound(id) => "Application ID ["@ + id@ + "] not found"@,
        ErrorTypes::IndexNotFound(name) => "Index ["@ + name@ + "] not found"@,
        ErrorTypes::DocumentNotFound(id) => "Document ID ["@ + id@ + "] not found"@,
        ErrorTypes::BadDataRequest => "Bad data request"@,
        ErrorTypes::IndexExists(name) => "Failed to create new index, index ["@ + name@
            + "] already exists"@,
        ErrorTypes::ServerDown => "Server currently unavailable"@,
        ErrorTypes::Unknown => "Unknown error occured"@,
    }
}

impl ErrorTypes {
    /// Renders the error as its client-visible text.
    pub fn message(&self) -> (r: String)
        ensures
            r@ == spec_error_message(*self),
    {
        match self {
            ErrorTypes::ApplicationNotFound(id) => {
                let mut s = String::new();
                s.append("Application ID [");
                s.append(id.as_str());
                s.append("] not found");
                s
            },
            ErrorTypes::IndexNotFound(name) => {
                let mut s = String::new();
                s.append("Index [");
                s.append(name.as_str());
                s.append("] not found");
                s
            },
            ErrorTypes::DocumentNotFound(id) => {
                let mut s = String::new();
                s.append("Document ID [");
                s.append(id.as_str());
                s.append("] not found");
                s
            },
            ErrorTypes::BadDataRequest => {
                let mut s = String::new();
                s.append("Bad data request");
                s
            },
            ErrorTypes::IndexExists(name) => {
                let mut s = String::new();
                s.append("Failed to create new index, index [");
                s.append(name.as_str());
                s.append("] already exists");
                s
            },
            ErrorTypes::ServerDown => {
                let mut s = String::new();
                s.append("Server currently unavailable");
                s
            },
            ErrorTypes::Unknown => {
                let mut s = String::new();
                s.append("Unknown error occured");
                s
            },
        }
    }
}

/// What went wrong with an uploaded data file.
#[derive(Debug)]
pub enum FileErrorTypes {
    /// A line of the file did not parse as a record.
    InvalidLine(usize),
    /// The file is bigger than the configured limit; holds the found size
    /// and the limit.
    FileTooLarge(usize, usize),
    /// The file extension is none of the accepted ones; holds the
    /// accepted list.
    InvalidFileExtension(String),
    /// The file did not parse at all; holds the format name.
    InvalidFile(String),
}

/// The client-visible text for a file error. The oversize message shows
/// the found size in both brackets, as the layer has always rendered it.
pub open spec fn spec_file_error_message(e: FileErrorTypes) -> Seq<char> {
    match e {
        FileErrorTypes::InvalidLine(n) => "Found inconsistent data at line ["@ + dec_digits(
            n as nat,
        ) + "]"@,
        FileErrorTypes::FileTooLarge(found, _max) => "File Too Large, found ["@ + dec_digits(
            found as nat,
        ) + "] of maximum ["@ + dec_digits(found as nat) + "]"@,
        FileErrorTypes::InvalidFileExtension(valid) => "Invalid file extension, valid file extensions: ["@
            + valid@ + "]"@,
        FileErrorTypes::InvalidFile(kind) => "Invalid ["@ + kind@ + "] File"@,
    }
}

impl FileErrorTypes {
    /// Renders the file error as its client-visible text.
    pub fn message(&self) -> (r: String)
        ensures
            r@ == spec_file_error_message(*self),
    {
        match self {
            FileErrorTypes::InvalidLine(n) => {
                let mut s = String::new();
                s.append("Found inconsistent data at line [");
                let d = crate::text::u64_to_dec_string(*n as u64);
                s.append(d.as_str());
                s.append("]");
                s
            },
            FileErrorTypes::FileTooLarge(found, _max) => {
                let mut s = String::new();
                s.append("File Too Large, found [");
                let d = crate::text::u64_to_dec_string(*found as u64);
                s.append(d.as_str());
                s.append("] of maximum [");
                s.append(d.as_str());
                s.append("]");
                s
            },
            FileErrorTypes::InvalidFileExtension(valid) => {
                let mut s = String::new();
                s.append("Invalid file extension, valid file extensions: [");
                s.append(valid.as_str());
                s.append("]");
                s
            },
            FileErrorTypes::InvalidFile(kind) => {
                let mut s = String::new();
                s.append("Invalid [");
                s.append(kind.as_str());
                s.append("] File");
                s
            },
        }
    }
}

} // verus!
