//! The ways in which a compile ends without an artifact.

use vstd::prelude::*;
use vstd::string::*;

verus! {

pub const SAID_READ: &'static str = "Failed to read image ";

pub const SAID_DECODE: &'static str = "Failed to decode image ";

pub const SAID_ASSEMBLY: &'static str = "Failed to assemble document: ";

pub const SAID_WRITE: &'static str = "Failed to write output: ";

pub const SAID_BECAUSE: &'static str = ": ";

/// The cause given when the driver reports something that the compile did
/// not ask for.
pub const CAUSE_UNEXPECTED: &'static str = "unexpected event for the current step";

/// The cause given when an image is too large for its text to be counted.
pub const CAUSE_TOO_LARGE: &'static str = "image is too large to embed";

/// The cause given when the steps of a compile cannot be counted.
pub const CAUSE_TOO_MANY: &'static str = "too many slides";

/// The cause given when a decoded image does not hold three samples for
/// each of its pixels.
pub const CAUSE_BAD_SAMPLES: &'static str = "sample count does not match image size";

/// Why a compile failed. Each failure ends the compile; no artifact is
/// written.
#[derive(Debug, Clone)]
pub enum CompileError {
    /// A slide's image is missing or cannot be read.
    ImageRead { path: String, cause: String },
    /// A slide's image is corrupt or in no supported raster format.
    ImageDecode { path: String, cause: String },
    /// The output structure could not be built or serialized.
    DocumentAssembly { cause: String },
    /// The finished artifact could not be written.
    OutputWrite { cause: String },
}

/// The view of a [`CompileError`].
pub enum CompileErrorView {
    ImageRead { path: Seq<char>, cause: Seq<char> },
    ImageDecode { path: Seq<char>, cause: Seq<char> },
    DocumentAssembly { cause: Seq<char> },
    OutputWrite { cause: Seq<char> },
}

impl View for CompileError {
    type V = CompileErrorView;

    open spec fn view(&self) -> CompileErrorView {
        match self {
            CompileError::ImageRead { path, cause } => CompileErrorView::ImageRead {
                path: path@,
                cause: cause@,
            },
            CompileError::ImageDecode { path, cause } => CompileErrorView::ImageDecode {
                path: path@,
                cause: cause@,
            },
            CompileError::DocumentAssembly { cause } => CompileErrorView::DocumentAssembly {
                cause: cause@,
            },
            CompileError::OutputWrite { cause } => CompileErrorView::OutputWrite { cause: cause@ },
        }
    }
}

/// The message of an error: the stage, the image path where there is one,
/// and the cause.
pub open spec fn message_text(e: CompileErrorView) -> Seq<char> {
    match e {
        CompileErrorView::ImageRead { path, cause } => SAID_READ@ + path + SAID_BECAUSE@ + cause,
        CompileErrorView::ImageDecode { path, cause } => SAID_DECODE@ + path + SAID_BECAUSE@
            + cause,
        CompileErrorView::DocumentAssembly { cause } => SAID_ASSEMBLY@ + cause,
        CompileErrorView::OutputWrite { cause } => SAID_WRITE@ + cause,
    }
}

impl CompileError {
    /// Describes the error for the caller: the stage that failed, the path
    /// of the offending image where there is one, and the underlying cause.
    pub fn message(&self) -> (text: String)
        ensures
            text@ == message_text(self@),
    {
        let mut text = String::new();
        proof {
            assert(text@ + SAID_READ@ == SAID_READ@);
            assert(text@ + SAID_DECODE@ == SAID_DECODE@);
            assert(text@ + SAID_ASSEMBLY@ == SAID_ASSEMBLY@);
            assert(text@ + SAID_WRITE@ == SAID_WRITE@);
        }
        match self {
            CompileError::ImageRead { path, cause } => {
                text.append(SAID_READ);
                text.append(path.as_str());
                text.append(SAID_BECAUSE);
                text.append(cause.as_str());
            },
            CompileError::ImageDecode { path, cause } => {
                text.append(SAID_DECODE);
                text.append(path.as_str());
                text.append(SAID_BECAUSE);
                text.append(cause.as_str());
            },
            CompileError::DocumentAssembly { cause } => {
                text.append(SAID_ASSEMBLY);
                text.append(cause.as_str());
            },
            CompileError::OutputWrite { cause } => {
                text.append(SAID_WRITE);
                text.append(cause.as_str());
            },
        }
        text
    }
}

} // verus!
