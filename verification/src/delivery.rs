//! Delivering one item: whether there is anything to do, what the helper is
//! called with, and what its exit status means.

use vstd::prelude::*;
use crate::text::{text_of, texts};

verus! {

/// How items are written out.
#[derive(Clone, Copy, Debug, PartialEq, Eq, Structural)]
pub enum DeliveryMode {
    /// The audio is written to the destination file as it is.
    Direct,
    /// The audio is handed to the tagging helper, which writes the file.
    /// With `stage_cover`, the artwork is fetched and put beside it first.
    Helper { stage_cover: bool },
}

/// What delivering an item takes.
#[derive(Clone, Copy, Debug, PartialEq, Eq, Structural)]
pub enum DeliveryAction {
    /// Nothing: the destination file is there already.
    AlreadyDelivered,
    /// Write the audio to the destination file.
    WriteFile,
    /// Run the helper, after staging the artwork where `stage_cover` is set.
    RunHelper { stage_cover: bool },
}

/// Why an item could not be delivered.
#[derive(Clone, Copy, Debug, PartialEq, Eq, Structural)]
pub enum DeliveryError {
    /// The helper did not exit with status 0.
    HelperFailed,
    /// The destination file could not be written.
    WriteFailed,
}

/// What delivering an item takes, given whether its destination file exists.
pub open spec fn delivery_for(exists: bool, mode: DeliveryMode) -> DeliveryAction {
    if exists {
        DeliveryAction::AlreadyDelivered
    } else {
        match mode {
            DeliveryMode::Direct => DeliveryAction::WriteFile,
            DeliveryMode::Helper { stage_cover } => DeliveryAction::RunHelper { stage_cover },
        }
    }
}

/// Decides what delivering an item takes. An item whose destination file
/// exists counts as delivered: nothing is fetched, run or written for it.
pub fn plan_delivery(exists: bool, mode: DeliveryMode) -> (r: DeliveryAction)
    ensures
        r == delivery_for(exists, mode),
        exists ==> r == DeliveryAction::AlreadyDelivered,
{
    if exists {
        DeliveryAction::AlreadyDelivered
    } else {
        match mode {
            DeliveryMode::Direct => DeliveryAction::WriteFile,
            DeliveryMode::Helper { stage_cover } => DeliveryAction::RunHelper { stage_cover },
        }
    }
}

/// The files of an output location after an item was delivered to `name`:
/// a delivery that succeeded leaves the file there.
pub open spec fn location_after(files: Set<Seq<char>>, name: Seq<char>, succeeded: bool) -> Set<
    Seq<char>,
> {
    if succeeded {
        files.insert(name)
    } else {
        files
    }
}

/// Once an item has been delivered, delivering it again to the same location
/// takes nothing, as long as no file is removed in between.
pub proof fn law_delivered_once(
    files: Set<Seq<char>>,
    later: Set<Seq<char>>,
    name: Seq<char>,
    mode: DeliveryMode,
)
    requires
        location_after(files, name, true).subset_of(later),
    ensures
        delivery_for(later.contains(name), mode) == DeliveryAction::AlreadyDelivered,
{
    assert(location_after(files, name, true).contains(name));
}

/// A value that may be absent, as a list of none or one.
pub open spec fn present(value: Option<Seq<char>>) -> Seq<Seq<char>> {
    match value {
        Some(v) => seq![v],
        None => Seq::empty(),
    }
}

/// The arguments that the helper is called with: the item's canonical
/// identifier, its title, the name of its group, then the destination path
/// and the artwork reference where there are any, then the contributors.
pub open spec fn helper_line(
    id: Seq<char>,
    title: Seq<char>,
    group: Seq<char>,
    destination: Option<Seq<char>>,
    cover: Option<Seq<char>>,
    contributors: Seq<Seq<char>>,
) -> Seq<Seq<char>> {
    seq![id, title, group] + present(destination) + present(cover) + contributors
}

/// The arguments that the helper is called with for one item.
pub fn helper_args(
    id: &str,
    title: &str,
    group: &str,
    destination: Option<&str>,
    cover: Option<&str>,
    contributors: &[String],
) -> (r: Vec<String>)
    ensures
        texts(r@) == helper_line(
            id@,
            title@,
            group@,
            text_of(destination),
            text_of(cover),
            texts(contributors@),
        ),
{
    let mut args: Vec<String> = Vec::new();
    args.push(id.to_owned());
    args.push(title.to_owned());
    args.push(group.to_owned());
    assert(texts(args@) =~= seq![id@, title@, group@]);
    match destination {
        Some(path) => {
            let ghost before = texts(args@);
            args.push(path.to_owned());
            assert(texts(args@) =~= before + present(text_of(destination)));
        },
        None => {
            assert(texts(args@) =~= texts(args@) + present(text_of(destination)));
        },
    }
    match cover {
        Some(url) => {
            let ghost before = texts(args@);
            args.push(url.to_owned());
            assert(texts(args@) =~= before + present(text_of(cover)));
        },
        None => {
            assert(texts(args@) =~= texts(args@) + present(text_of(cover)));
        },
    }
    let ghost fixed = texts(args@);
    let mut i: usize = 0;
    assert(texts(args@) =~= fixed + texts(contributors@).take(0));
    while i < contributors.len()
        invariant
            i <= contributors.len(),
            texts(args@) == fixed + texts(contributors@).take(i as int),
        decreases contributors.len() - i,
    {
        let ghost before = texts(args@);
        let name = contributors[i].clone();
        args.push(name);
        i += 1;
        assert(texts(args@) =~= before.push(name@));
        assert(fixed + texts(contributors@).take(i as int) =~= (fixed + texts(contributors@).take(
            i - 1,
        )).push(contributors@[i - 1]@));
    }
    assert(texts(contributors@).take(contributors.len() as int) == texts(contributors@));
    args
}

/// What the helper's exit says of the delivery. `status` is the exit status,
/// `None` where the helper ended without one. Only status 0 is a success.
pub fn helper_outcome(status: Option<i32>) -> (r: Result<(), DeliveryError>)
    ensures
        r is Ok <==> status == Some(0i32),
        r is Err ==> r == Err::<(), DeliveryError>(DeliveryError::HelperFailed),
{
    match status {
        Some(0) => Ok(()),
        _ => Err(DeliveryError::HelperFailed),
    }
}

} // verus!
