//! The kinds of items that links name and that the queue holds.

use vstd::prelude::*;

verus! {

/// The kind of a leaf item: what can be downloaded.
#[derive(Clone, Copy, Debug, PartialEq, Eq, Structural)]
pub enum IndexedTy {
    Track,
    Episode,
}

/// The kind of entity that a link names.
#[derive(Clone, Copy, Debug, PartialEq, Eq, Structural)]
pub enum LinkKind {
    Playlist,
    Album,
    Track,
    Episode,
    Show,
}

impl IndexedTy {
    /// The lower-case word for this kind, as it appears in links.
    pub open spec fn word(self) -> Seq<char> {
        match self {
            IndexedTy::Track => "track"@,
            IndexedTy::Episode => "episode"@,
        }
    }

    /// The kind's word as text.
    pub fn as_str(&self) -> (r: &'static str)
        ensures
            r@ == self.word(),
    {
        match self {
            IndexedTy::Track => "track",
            IndexedTy::Episode => "episode",
        }
    }

    /// The kind's word as an owned string.
    pub fn to_string(&self) -> (r: String)
        ensures
            r@ == self.word(),
    {
        self.as_str().to_owned()
    }
}

impl LinkKind {
    /// Whether a link of this kind names a leaf item, and which.
    pub open spec fn leaf(self) -> Option<IndexedTy> {
        match self {
            LinkKind::Track => Some(IndexedTy::Track),
            LinkKind::Episode => Some(IndexedTy::Episode),
            _ => None,
        }
    }

    /// The kind of leaf items that a link of this kind contributes.
    pub open spec fn item_kind(self) -> IndexedTy {
        match self {
            LinkKind::Show | LinkKind::Episode => IndexedTy::Episode,
            _ => IndexedTy::Track,
        }
    }

    /// The leaf kind named directly by this link, if it is no container.
    pub fn as_leaf(&self) -> (r: Option<IndexedTy>)
        ensures
            r == self.leaf(),
    {
        match self {
            LinkKind::Track => Some(IndexedTy::Track),
            LinkKind::Episode => Some(IndexedTy::Episode),
            _ => None,
        }
    }

    /// The kind of the leaf items that this link expands to.
    pub fn contributes(&self) -> (r: IndexedTy)
        ensures
            r == self.item_kind(),
    {
        match self {
            LinkKind::Show | LinkKind::Episode => IndexedTy::Episode,
            _ => IndexedTy::Track,
        }
    }

    /// Whether the link names a container whose contents must be fetched.
    pub fn is_container(&self) -> (r: bool)
        ensures
            r == (self.leaf() is None),
    {
        match self {
            LinkKind::Track | LinkKind::Episode => false,
            _ => true,
        }
    }
}

} // verus!
