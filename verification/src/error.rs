//! Why a run can end without a site.

use vstd::prelude::*;

verus! {

/// How the message of a configuration error begins.
pub const MESSAGE_CONFIGURATION: &'static str = "configuration: missing or unusable ";

/// How the message of a load error begins.
pub const MESSAGE_LOAD: &'static str = "cannot load articles from ";

/// How the message of an error of the file system begins.
pub const MESSAGE_IO: &'static str = "cannot ";

/// What stands between operation and path in a message.
pub const MESSAGE_AT: &'static str = " at ";

/// How the message of a copy error begins.
pub const MESSAGE_COPY: &'static str = "cannot copy ";

/// What stands between source and destination in a message.
pub const MESSAGE_TO: &'static str = " to ";

/// Why a run ended without a site.
#[derive(Debug, Clone, PartialEq, Eq)]
pub enum SiteError {
    /// A setting is missing or names nothing that can be used.
    Configuration { setting: String },
    /// The articles could not be read from `path`.
    Load { path: String },
    /// The file system refused `operation` at `path`.
    Io { operation: String, path: String },
    /// Copying `source` to `destination` failed.
    Copy { source: String, destination: String },
}

/// What an error is, as text.
pub enum SiteErrorView {
    Configuration { setting: Seq<char> },
    Load { path: Seq<char> },
    Io { operation: Seq<char>, path: Seq<char> },
    Copy { source: Seq<char>, destination: Seq<char> },
}

impl View for SiteError {
    type V = SiteErrorView;

    open spec fn view(&self) -> SiteErrorView {
        match self {
            SiteError::Configuration { setting } => SiteErrorView::Configuration {
                setting: setting@,
            },
            SiteError::Load { path } => SiteErrorView::Load { path: path@ },
            SiteError::Io { operation, path } => SiteErrorView::Io {
                operation: operation@,
                path: path@,
            },
            SiteError::Copy { source, destination } => SiteErrorView::Copy {
                source: source@,
                destination: destination@,
            },
        }
    }
}

/// The message of an error: it names the operation and the path.
pub open spec fn message_of(error: SiteErrorView) -> Seq<char> {
    match error {
        SiteErrorView::Configuration { setting } => MESSAGE_CONFIGURATION@ + setting,
        SiteErrorView::Load { path } => MESSAGE_LOAD@ + path,
        SiteErrorView::Io { operation, path } => MESSAGE_IO@ + operation + MESSAGE_AT@ + path,
        SiteErrorView::Copy { source, destination } => MESSAGE_COPY@ + source + MESSAGE_TO@
            + destination,
    }
}

impl SiteError {
    /// The message of the error, for the user.
    pub fn message(&self) -> (text: String)
        ensures
            text@ == message_of(self@),
    {
        let mut text = String::new();
        match self {
            SiteError::Configuration { setting } => {
                text.append(MESSAGE_CONFIGURATION);
                text.append(setting.as_str());
            },
            SiteError::Load { path } => {
                text.append(MESSAGE_LOAD);
                text.append(path.as_str());
            },
            SiteError::Io { operation, path } => {
                text.append(MESSAGE_IO);
                text.append(operation.as_str());
                text.append(MESSAGE_AT);
                text.append(path.as_str());
            },
            SiteError::Copy { source, destination } => {
                text.append(MESSAGE_COPY);
                text.append(source.as_str());
                text.append(MESSAGE_TO);
                text.append(destination.as_str());
            },
        }
        text
    }
}

} // verus!
