//! Plain-value reports of what the filesystem said: the status of a probed
//! path, one entry of a directory listing, and the outcome of listing a
//! directory. The surrounding program fills these in from real filesystem
//! calls; every decision taken over them lives in verified code.

use vstd::prelude::*;

verus! {

/// What probing a single path reported.
#[derive(Debug, Clone, Copy, PartialEq, Eq, Structural)]
pub enum DirStatus {
    /// The path exists and is a directory.
    Directory,
    /// The path exists but is not a directory.
    NotDirectory,
    /// The path does not exist.
    Absent,
}

/// One entry of a directory listing, as reported by the program that read the
/// directory. An entry whose name could not be decoded, or that could not be
/// read at all, is reported as [`ListEntry::Failure`] with a message.
#[derive(Debug, Clone)]
pub struct DirEntryRecord {
    /// The entry's file name (the last path segment alone).
    pub name: String,
    /// Whether the entry is a directory.
    pub is_dir: bool,
    /// Whether the entry is a regular file.
    pub is_file: bool,
}

/// The mathematical value of a [`DirEntryRecord`].
#[verifier::ext_equal]
pub struct EntryView {
    pub name: Seq<char>,
    pub is_dir: bool,
    pub is_file: bool,
}

impl View for DirEntryRecord {
    type V = EntryView;

    open spec fn view(&self) -> EntryView {
        EntryView { name: self.name@, is_dir: self.is_dir, is_file: self.is_file }
    }
}

impl DeepView for DirEntryRecord {
    type V = EntryView;

    open spec fn deep_view(&self) -> EntryView {
        self.view()
    }
}

/// One item yielded while enumerating a directory: either an entry, or a
/// failure to read that entry.
#[derive(Debug, Clone)]
pub enum ListEntry {
    Entry(DirEntryRecord),
    Failure(String),
}

/// The mathematical value of a [`ListEntry`].
#[verifier::ext_equal]
pub enum ListEntryView {
    Entry(EntryView),
    Failure(Seq<char>),
}

impl View for ListEntry {
    type V = ListEntryView;

    open spec fn view(&self) -> ListEntryView {
        match self {
            ListEntry::Entry(r) => ListEntryView::Entry(r@),
            ListEntry::Failure(m) => ListEntryView::Failure(m@),
        }
    }
}

impl DeepView for ListEntry {
    type V = ListEntryView;

    open spec fn deep_view(&self) -> ListEntryView {
        self.view()
    }
}

/// The outcome of enumerating one directory: its entries in listing order, or
/// a failure to enumerate at all.
#[derive(Debug, Clone)]
pub enum Listing {
    Entries(Vec<ListEntry>),
    Failed(String),
}

/// The mathematical value of a [`Listing`].
#[verifier::ext_equal]
pub enum ListingView {
    Entries(Seq<ListEntryView>),
    Failed(Seq<char>),
}

impl View for Listing {
    type V = ListingView;

    open spec fn view(&self) -> ListingView {
        match self {
            Listing::Entries(es) => ListingView::Entries(es.deep_view()),
            Listing::Failed(m) => ListingView::Failed(m@),
        }
    }
}

impl DeepView for Listing {
    type V = ListingView;

    open spec fn deep_view(&self) -> ListingView {
        self.view()
    }
}

/// A path paired with what probing it reported; the unit of directory
/// validation.
#[derive(Debug, Clone)]
pub struct DirCheck {
    pub path: String,
    pub status: DirStatus,
}

/// The mathematical value of a [`DirCheck`].
#[verifier::ext_equal]
pub struct DirCheckView {
    pub path: Seq<char>,
    pub status: DirStatus,
}

impl View for DirCheck {
    type V = DirCheckView;

    open spec fn view(&self) -> DirCheckView {
        DirCheckView { path: self.path@, status: self.status }
    }
}

impl DeepView for DirCheck {
    type V = DirCheckView;

    open spec fn deep_view(&self) -> DirCheckView {
        self.view()
    }
}

} // verus!
