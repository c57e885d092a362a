//! Acquiring one item: which record to use, which stream to fetch, which
//! artwork to hand on, and what is left of the decrypted stream.

use vstd::prelude::*;
use vstd::slice::slice_subrange;
use crate::files::{candidates, get_usable_file_id, preferred, FileFormat, FileId, Files};
use crate::text::{owned_text, texts};
use crate::ids::ItemId;
use crate::kinds::IndexedTy;

verus! {

/// The number of bytes at the start of a decrypted stream that belong to the
/// container and not to the audio.
pub const HEADER_LEN: usize = 160;

/// Why an item could not be acquired.
#[derive(Clone, Copy, Debug, PartialEq, Eq, Structural)]
pub enum AcquireError {
    /// Neither the item nor any of its alternatives is available.
    Unavailable,
    /// The item offers no Vorbis stream.
    NoUsableEncoding,
    /// The item has no artwork, and the delivery needs one.
    NoCoverArt,
    /// The key or the stream could not be fetched or decrypted.
    StreamFailed,
    /// The decrypted stream is shorter than its header.
    TruncatedStream,
}

/// What sets a track's record apart from an episode's.
#[derive(Clone, Debug, PartialEq, Eq)]
pub enum Details {
    Track { artists: Vec<String>, album: String, alternatives: Vec<ItemId> },
    Episode { publisher: String, show: String },
}

/// The metadata of one leaf item, as the service returned it.
#[derive(Debug)]
pub struct AudioItem {
    pub id: ItemId,
    pub name: String,
    pub available: bool,
    /// References to the item's artwork, in the order of the service.
    pub covers: Vec<String>,
    pub files: Files,
    pub details: Details,
}

/// What to fetch for an item, and the artwork to hand on with it.
#[derive(Clone, Debug, PartialEq, Eq)]
pub struct StreamPlan {
    /// The stream of the chosen encoding.
    pub file: FileId,
    /// The reference to the item's artwork, if it has any.
    pub cover: Option<String>,
}

/// What is settled for an item before its stream is fetched: the encoding
/// first, then the artwork. An item with no Vorbis stream fails for that,
/// whatever its artwork; one without artwork fails where artwork is
/// `required`.
pub open spec fn plan_for(
    files: Map<FileFormat, FileId>,
    covers: Seq<Seq<char>>,
    required: bool,
) -> Result<(FileId, Option<Seq<char>>), AcquireError> {
    match preferred(files) {
        None => Err(AcquireError::NoUsableEncoding),
        Some(file) => if covers.len() > 0 {
            Ok((file, Some(covers[0])))
        } else if required {
            Err(AcquireError::NoCoverArt)
        } else {
            Ok((file, None))
        },
    }
}

/// Which record the acquisition goes on with.
#[derive(Clone, Copy, Debug, PartialEq, Eq, Structural)]
pub enum Choice {
    /// The record of the item itself.
    Primary,
    /// The record of the alternative at this position of the item's list.
    Alternative(usize),
}

/// What to do next while settling which record to use.
#[derive(Clone, Copy, Debug, PartialEq, Eq, Structural)]
pub enum Resolution {
    /// Go on with this record.
    Use(Choice),
    /// Fetch the metadata of the alternative at this position and report
    /// whether it is available.
    Fetch(usize),
    /// Give the item up as unavailable.
    Fail,
}

/// The position of the first `true` in `flags`, or their number if none is.
pub open spec fn first_true(flags: Seq<bool>) -> int
    decreases flags.len(),
{
    if flags.len() == 0 {
        0
    } else if flags.first() {
        0
    } else {
        1 + first_true(flags.drop_first())
    }
}

/// What to do next. An episode is used as it is, available or not. A track
/// that is available is used. For one that is not, the alternatives are
/// asked for in listed order, and the first available one is used; `seen`
/// holds, for the alternatives asked for so far, whether each was available.
pub open spec fn resolution(
    kind: IndexedTy,
    available: bool,
    alternatives: nat,
    seen: Seq<bool>,
) -> Resolution {
    if kind == IndexedTy::Episode || available {
        Resolution::Use(Choice::Primary)
    } else if first_true(seen) < seen.len() {
        Resolution::Use(Choice::Alternative(first_true(seen) as usize))
    } else if seen.len() < alternatives {
        Resolution::Fetch(seen.len() as usize)
    } else {
        Resolution::Fail
    }
}

proof fn lemma_first_true(flags: Seq<bool>)
    ensures
        0 <= first_true(flags) <= flags.len(),
        first_true(flags) < flags.len() ==> flags[first_true(flags)],
        forall|i: int| 0 <= i < first_true(flags) ==> !flags[i],
    decreases flags.len(),
{
    if flags.len() > 0 && !flags.first() {
        let rest = flags.drop_first();
        lemma_first_true(rest);
        assert forall|i: int| 0 <= i < first_true(flags) implies !flags[i] by {
            if i > 0 {
                assert(flags[i] == rest[i - 1]);
            }
        }
    }
}

proof fn lemma_first_true_is(flags: Seq<bool>, f: int)
    requires
        0 <= f <= flags.len(),
        forall|i: int| 0 <= i < f ==> !flags[i],
        f < flags.len() ==> flags[f],
    ensures
        first_true(flags) == f,
{
    lemma_first_true(flags);
    let g = first_true(flags);
    if g < f {
        assert(!flags[g]);
    }
    if f < g {
        assert(!flags[f]);
    }
}

/// An unavailable track is settled by asking for its alternatives in listed
/// order, one at a time. As long as none of those seen is available, the
/// next one is asked for; once one is, it is used, whatever comes after it;
/// when all have been seen and none is available, the item is given up.
pub proof fn law_alternatives_in_order(outcomes: Seq<bool>, k: int)
    requires
        0 <= k <= outcomes.len(),
    ensures
        ({
            let first = first_true(outcomes);
            let next = resolution(IndexedTy::Track, false, outcomes.len(), outcomes.take(k));
            &&& k <= first && k < outcomes.len() ==> next == Resolution::Fetch(k as usize)
            &&& first < k ==> next == Resolution::Use(Choice::Alternative(first as usize))
            &&& k == first == outcomes.len() ==> next == Resolution::Fail
        }),
{
    lemma_first_true(outcomes);
    let first = first_true(outcomes);
    let seen = outcomes.take(k);
    if k <= first {
        assert forall|i: int| 0 <= i < k implies !seen[i] by {
            assert(!outcomes[i]);
        }
        lemma_first_true_is(seen, k);
    } else {
        assert forall|i: int| 0 <= i < first implies !seen[i] by {
            assert(!outcomes[i]);
        }
        assert(seen[first]);
        lemma_first_true_is(seen, first);
    }
}

/// Decides how to go on after the metadata of an item, and of some of its
/// alternatives, has been fetched. `seen[i]` tells whether alternative `i`
/// was fetched and marked available.
pub fn resolve_step(kind: IndexedTy, available: bool, alternatives: usize, seen: &[bool]) -> (r:
    Resolution)
    ensures
        r == resolution(kind, available, alternatives as nat, seen@),
{
    match kind {
        IndexedTy::Episode => {
            return Resolution::Use(Choice::Primary);
        },
        IndexedTy::Track => {},
    }
    if available {
        return Resolution::Use(Choice::Primary);
    }
    let mut i: usize = 0;
    while i < seen.len()
        invariant
            i <= seen.len(),
            kind == IndexedTy::Track,
            !available,
            forall|j: int| 0 <= j < i ==> !seen@[j],
        decreases seen.len() - i,
    {
        if seen[i] {
            proof {
                lemma_first_true(seen@);
                let f = first_true(seen@);
                if f < i {
                    assert(!seen@[f]);
                }
                if f > i {
                    assert(!seen@[i as int]);
                }
            }
            return Resolution::Use(Choice::Alternative(i));
        }
        i += 1;
    }
    proof {
        lemma_first_true(seen@);
        let f = first_true(seen@);
        if f < seen@.len() {
            assert(!seen@[f]);
        }
    }
    if seen.len() < alternatives {
        Resolution::Fetch(seen.len())
    } else {
        Resolution::Fail
    }
}

impl AudioItem {
    /// The names of those who made the item: a track's artists, an episode's
    /// publisher.
    pub open spec fn contributors_of(self) -> Seq<Seq<char>> {
        match self.details {
            Details::Track { artists, .. } => texts(artists@),
            Details::Episode { publisher, .. } => seq![publisher@],
        }
    }

    /// The name of what the item belongs to: a track's album, an episode's
    /// show.
    pub open spec fn group_of(self) -> Seq<char> {
        match self.details {
            Details::Track { album, .. } => album@,
            Details::Episode { show, .. } => show@,
        }
    }

    /// The kind of the item.
    pub open spec fn kind_of(self) -> IndexedTy {
        match self.details {
            Details::Track { .. } => IndexedTy::Track,
            Details::Episode { .. } => IndexedTy::Episode,
        }
    }

    /// The identifiers to try in place of an unavailable track.
    pub open spec fn alternatives_of(self) -> Seq<ItemId> {
        match self.details {
            Details::Track { alternatives, .. } => alternatives@,
            Details::Episode { .. } => Seq::empty(),
        }
    }

    /// The kind of the item.
    pub fn kind(&self) -> (r: IndexedTy)
        ensures
            r == self.kind_of(),
    {
        match &self.details {
            Details::Track { .. } => IndexedTy::Track,
            Details::Episode { .. } => IndexedTy::Episode,
        }
    }

    /// The alternative at position `i` of the item's list.
    pub fn alternative(&self, i: usize) -> (r: Option<ItemId>)
        ensures
            r is Some <==> i < self.alternatives_of().len(),
            r matches Some(id) ==> id == self.alternatives_of()[i as int],
    {
        match &self.details {
            Details::Track { alternatives, .. } => {
                if i < alternatives.len() {
                    Some(alternatives[i])
                } else {
                    None
                }
            },
            Details::Episode { .. } => None,
        }
    }

    /// The names of those who made the item.
    pub fn contributors(&self) -> (r: Vec<String>)
        ensures
            texts(r@) == self.contributors_of(),
    {
        let mut out: Vec<String> = Vec::new();
        match &self.details {
            Details::Track { artists, .. } => {
                let mut i: usize = 0;
                while i < artists.len()
                    invariant
                        i <= artists.len(),
                        texts(out@) == texts(artists@).take(i as int),
                    decreases artists.len() - i,
                {
                    let ghost before = out@;
                    let name = artists[i].clone();
                    out.push(name);
                    i += 1;
                    assert(texts(out@) =~= texts(before).push(name@));
                    assert(texts(artists@).take(i as int) =~= texts(artists@).take(i - 1).push(
                        artists@[i - 1]@,
                    ));
                }
                assert(texts(artists@).take(artists.len() as int) == texts(artists@));
            },
            Details::Episode { publisher, .. } => {
                out.push(publisher.clone());
                assert(texts(out@) == seq![publisher@]);
            },
        }
        out
    }

    /// The name of the album or show that the item belongs to.
    pub fn group_name(&self) -> (r: &str)
        ensures
            r@ == self.group_of(),
    {
        match &self.details {
            Details::Track { album, .. } => album.as_str(),
            Details::Episode { show, .. } => show.as_str(),
        }
    }

    /// Decides how to go on with this record as the primary one of its item.
    pub fn resolve(&self, seen: &[bool]) -> (r: Resolution)
        ensures
            r == resolution(
                self.kind_of(),
                self.available,
                self.alternatives_of().len(),
                seen@,
            ),
    {
        let n = match &self.details {
            Details::Track { alternatives, .. } => alternatives.len(),
            Details::Episode { .. } => 0,
        };
        resolve_step(self.kind(), self.available, n, seen)
    }

    /// The stream to fetch: the best Vorbis stream that the item offers.
    pub fn select_encoding(&self) -> (r: Result<FileId, AcquireError>)
        ensures
            match preferred(candidates(self.files)) {
                Some(file) => r == Ok::<FileId, AcquireError>(file),
                None => r == Err::<FileId, AcquireError>(AcquireError::NoUsableEncoding),
            },
    {
        match get_usable_file_id(&self.files) {
            Some(file) => Ok(*file),
            None => Err(AcquireError::NoUsableEncoding),
        }
    }

    /// The artwork to hand on: the first reference of the item's list. An
    /// item without artwork fails where artwork is `required`, and has none
    /// to hand on where it is not.
    pub fn cover(&self, required: bool) -> (r: Result<Option<&str>, AcquireError>)
        ensures
            self.covers@.len() > 0 ==> (r matches Ok(Some(url)) && url@ == self.covers@[0]@),
            self.covers@.len() == 0 && required ==> r == Err::<Option<&str>, AcquireError>(
                AcquireError::NoCoverArt,
            ),
            self.covers@.len() == 0 && !required ==> r == Ok::<Option<&str>, AcquireError>(None),
    {
        if self.covers.len() > 0 {
            Ok(Some(self.covers[0].as_str()))
        } else if required {
            Err(AcquireError::NoCoverArt)
        } else {
            Ok(None)
        }
    }

    /// Settles what to fetch for the item and which artwork goes with it.
    pub fn plan(&self, cover_required: bool) -> (r: Result<StreamPlan, AcquireError>)
        ensures
            match plan_for(candidates(self.files), texts(self.covers@), cover_required) {
                Ok((file, cover)) => r matches Ok(p) && p.file == file && owned_text(p.cover)
                    == cover,
                Err(e) => r == Err::<StreamPlan, AcquireError>(e),
            },
    {
        let file = match self.select_encoding() {
            Ok(file) => file,
            Err(e) => {
                return Err(e);
            },
        };
        match self.cover(cover_required) {
            Ok(Some(url)) => Ok(StreamPlan { file, cover: Some(url.to_owned()) }),
            Ok(None) => Ok(StreamPlan { file, cover: None }),
            Err(e) => Err(e),
        }
    }
}

/// The audio of a decrypted stream: the stream without its header.
pub fn strip_header(stream: &[u8]) -> (r: Result<&[u8], AcquireError>)
    ensures
        stream@.len() >= HEADER_LEN ==> (r matches Ok(audio) && audio@ == stream@.skip(
            HEADER_LEN as int,
        )),
        stream@.len() < HEADER_LEN ==> r == Err::<&[u8], AcquireError>(
            AcquireError::TruncatedStream,
        ),
{
    if stream.len() >= HEADER_LEN {
        let audio = slice_subrange(stream, HEADER_LEN, stream.len());
        assert(audio@ == stream@.skip(HEADER_LEN as int));
        Ok(audio)
    } else {
        Err(AcquireError::TruncatedStream)
    }
}

} // verus!
