//! The error values of discovery and of the manifest walk.
//!
//! Discovery errors are fatal to the discovery call that raised them: no
//! partially built platform or corpus is ever returned. Walk errors are
//! values inside the yielded sequence, so one bad directory entry, file or
//! document never aborts the rest of the walk.

use vstd::prelude::*;

verus! {

/// Why discovery refused a directory tree. Carries the offending path, and
/// for a listing failure the reported message.
#[derive(Debug, Clone, PartialEq)]
pub enum DiscoveryError {
    /// An expected directory does not exist.
    Missing { path: String },
    /// An expected directory exists but is not a directory.
    NotADirectory { path: String },
    /// A directory, or one of its entries, could not be read while
    /// enumerating platform or component candidates.
    Unreadable { path: String, message: String },
}

/// The mathematical value of a [`DiscoveryError`].
#[verifier::ext_equal]
pub enum DiscoveryErrorView {
    Missing { path: Seq<char> },
    NotADirectory { path: Seq<char> },
    Unreadable { path: Seq<char>, message: Seq<char> },
}

impl View for DiscoveryError {
    type V = DiscoveryErrorView;

    open spec fn view(&self) -> DiscoveryErrorView {
        match self {
            DiscoveryError::Missing { path } => DiscoveryErrorView::Missing { path: path@ },
            DiscoveryError::NotADirectory { path } => DiscoveryErrorView::NotADirectory {
                path: path@,
            },
            DiscoveryError::Unreadable { path, message } => DiscoveryErrorView::Unreadable {
                path: path@,
                message: message@,
            },
        }
    }
}

impl DeepView for DiscoveryError {
    type V = DiscoveryErrorView;

    open spec fn deep_view(&self) -> DiscoveryErrorView {
        self.view()
    }
}

/// The mathematical value of a discovery result: the success value replaced
/// by its own mathematical value, the error by its view.
pub open spec fn disc_view<T: DeepView>(r: Result<T, DiscoveryError>) -> Result<
    T::V,
    DiscoveryErrorView,
> {
    match r {
        Ok(v) => Ok(v.deep_view()),
        Err(e) => Err(e@),
    }
}

/// A failure surfaced as one item of the walked sequence.
#[derive(Debug, Clone, PartialEq)]
pub enum WalkError {
    /// A directory entry could not be read while listing a component's
    /// manifest directory.
    Listing { directory: String, message: String },
    /// A manifest file could not be opened or read.
    FileOpen { file: String, message: String },
    /// One YAML document of a manifest file could not be decoded.
    /// `document_index` counts documents inside the file from 1.
    Decode { file: String, document_index: usize, message: String },
}

/// The mathematical value of a [`WalkError`].
#[verifier::ext_equal]
pub enum WalkErrorView {
    Listing { directory: Seq<char>, message: Seq<char> },
    FileOpen { file: Seq<char>, message: Seq<char> },
    Decode { file: Seq<char>, document_index: nat, message: Seq<char> },
}

impl View for WalkError {
    type V = WalkErrorView;

    open spec fn view(&self) -> WalkErrorView {
        match self {
            WalkError::Listing { directory, message } => WalkErrorView::Listing {
                directory: directory@,
                message: message@,
            },
            WalkError::FileOpen { file, message } => WalkErrorView::FileOpen {
                file: file@,
                message: message@,
            },
            WalkError::Decode { file, document_index, message } => WalkErrorView::Decode {
                file: file@,
                document_index: *document_index as nat,
                message: message@,
            },
        }
    }
}

impl DeepView for WalkError {
    type V = WalkErrorView;

    open spec fn deep_view(&self) -> WalkErrorView {
        self.view()
    }
}

} // verus!
