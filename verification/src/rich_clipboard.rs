//! Rich text on the clipboard: what was copied here last, and the note that goes with the
//! plain text.
use crate::settings::{InlineImage, InlineImageView};
use crate::text::text_eq;
use vstd::prelude::*;
use vstd::string::*;

verus! {

/// The note that goes with plain text on the clipboard.
#[derive(Debug, PartialEq, Eq)]
pub struct Metadata {
    pub format: String,
    pub html: String,
}

/// Mathematical form of [`Metadata`].
#[verifier::ext_equal]
pub struct MetadataView {
    pub format: Seq<char>,
    pub html: Seq<char>,
}

impl DeepView for Metadata {
    type V = MetadataView;

    open spec fn deep_view(&self) -> MetadataView {
        MetadataView {
            format: self.format.deep_view(),
            html: self.html.deep_view(),
        }
    }
}

/// A piece of rich text with its images.
#[derive(Debug, PartialEq, Eq)]
pub struct RichContent {
    pub html: String,
    pub images: Vec<InlineImage>,
}

/// Mathematical form of [`RichContent`].
#[verifier::ext_equal]
pub struct RichContentView {
    pub html: Seq<char>,
    pub images: Seq<InlineImageView>,
}

impl DeepView for RichContent {
    type V = RichContentView;

    open spec fn deep_view(&self) -> RichContentView {
        RichContentView {
            html: self.html.deep_view(),
            images: self.images.deep_view(),
        }
    }
}

impl Clone for RichContent {
    fn clone(&self) -> (copy: Self)
        ensures
            copy.deep_view() == self.deep_view(),
    {
        RichContent {
            html: self.html.clone(),
            images: crate::model::clone_list(&self.images),
        }
    }
}

/// Rich text that was copied here, and the plain text that went to the clipboard.
#[derive(Debug, PartialEq, Eq)]
pub struct StoredContent {
    pub text: String,
    pub rich: RichContent,
}

/// Mathematical form of [`StoredContent`].
#[verifier::ext_equal]
pub struct StoredContentView {
    pub text: Seq<char>,
    pub rich: RichContentView,
}

impl DeepView for StoredContent {
    type V = StoredContentView;

    open spec fn deep_view(&self) -> StoredContentView {
        StoredContentView {
            text: self.text.deep_view(),
            rich: self.rich.deep_view(),
        }
    }
}

/// The rich text that was copied here last.
#[derive(Debug, PartialEq, Eq)]
pub struct RichClipboard {
    pub stored: Option<StoredContent>,
}

/// Mathematical form of [`RichClipboard`].
#[verifier::ext_equal]
pub struct RichClipboardView {
    pub stored: Option<StoredContentView>,
}

impl DeepView for RichClipboard {
    type V = RichClipboardView;

    open spec fn deep_view(&self) -> RichClipboardView {
        RichClipboardView {
            stored: self.stored.deep_view(),
        }
    }
}


/// How the note says that it is one of ours.
pub open spec fn selection_format() -> Seq<char> {
    "aviary/html-selection-v1"@
}

/// What a note holds: rich text without images, where the note is one of ours.
pub open spec fn noted(metadata: Option<MetadataView>) -> Option<RichContentView> {
    match metadata {
        Some(metadata) => if metadata.format == selection_format() {
            Some(RichContentView { html: metadata.html, images: Seq::empty() })
        } else {
            None
        },
        None => None,
    }
}

impl RichClipboardView {
    /// What is pasted for what the clipboard holds: what was copied here with the same plain
    /// text, else what the note holds. Without text there is nothing to paste.
    pub open spec fn pasted(self, text: Option<Seq<char>>, metadata: Option<MetadataView>) -> Option<RichContentView> {
        match text {
            None => None,
            Some(text) => match self.stored {
                Some(stored) => if stored.text == text {
                    Some(stored.rich)
                } else {
                    noted(metadata)
                },
                None => noted(metadata),
            },
        }
    }

    /// After rich text was copied.
    pub open spec fn copied(self, text: Seq<char>, html: Seq<char>, images: Seq<InlineImageView>) -> RichClipboardView {
        RichClipboardView { stored: Some(StoredContentView { text, rich: RichContentView { html, images } }) }
    }

    /// The note that goes with a copy.
    pub open spec fn note(html: Seq<char>) -> MetadataView {
        MetadataView { format: selection_format(), html }
    }
}

impl RichClipboard {
    /// Nothing was copied yet.
    pub fn new() -> (clipboard: Self)
        ensures
            clipboard.deep_view().stored is None,
    {
        RichClipboard { stored: None }
    }

    /// Copies rich text. What goes to the clipboard is the plain text and this note.
    pub fn write(&mut self, text: String, html: String, images: Vec<InlineImage>) -> (item: (String, Metadata))
        ensures
            item.0@ == text@,
            item.1.deep_view() == RichClipboardView::note(html@),
            final(self).deep_view() == old(self).deep_view().copied(text@, html@, images.deep_view()),
    {
        self.stored = Some(StoredContent { text: text.clone(), rich: RichContent { html: html.clone(), images } });
        (text, Metadata { format: "aviary/html-selection-v1".to_owned(), html })
    }

    /// Rich text for what the clipboard holds.
    pub fn read(&self, text: Option<&str>, metadata: Option<&Metadata>) -> (content: Option<RichContent>)
        ensures
            content.deep_view() == self.deep_view().pasted(
                match text {
                    Some(text) => Some(text@),
                    None => None,
                },
                match metadata {
                    Some(metadata) => Some(metadata.deep_view()),
                    None => None,
                },
            ),
    {
        let text: &str = match text {
            Some(text) => text,
            None => {
                return None;
            },
        };
        if let Some(stored) = &self.stored {
            if text_eq(stored.text.as_str(), text) {
                return Some(stored.rich.clone());
            }
        }
        match metadata {
            Some(metadata) => if text_eq(metadata.format.as_str(), "aviary/html-selection-v1") {
                let images: Vec<InlineImage> = Vec::new();
                assert(images.deep_view() =~= Seq::<InlineImageView>::empty());
                Some(RichContent { html: metadata.html.clone(), images })
            } else {
                None
            },
            None => None,
        }
    }

    /// Forgets what was copied here.
    pub fn clear(&mut self)
        ensures
            final(self).deep_view().stored is None,
    {
        self.stored = None;
    }
}

/// What was copied here is pasted with its images, whatever note the clipboard kept. Once it
/// is forgotten, or where another copy of the program reads it, the note still gives the
/// text back, without images. Under another text, nothing of it is pasted.
pub proof fn law_copies_are_pasted(
    clipboard: RichClipboardView,
    other: RichClipboardView,
    text: Seq<char>,
    html: Seq<char>,
    images: Seq<InlineImageView>,
    kept: Option<MetadataView>,
    another: Seq<char>,
)
    ensures
        clipboard.copied(text, html, images).pasted(Some(text), kept) == Some(RichContentView { html, images }),
        other.stored is None ==> other.pasted(Some(text), Some(RichClipboardView::note(html))) == Some(
            RichContentView { html, images: Seq::empty() },
        ),
        another != text ==> clipboard.copied(text, html, images).pasted(Some(another), None) is None,
        clipboard.pasted(None, kept) is None,
{
}

} // verus!
