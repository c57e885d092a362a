//! What can go wrong in a run, and how far each failure reaches.

use vstd::prelude::*;
use crate::acquire::AcquireError;
use crate::delivery::DeliveryError;
use crate::queue::ExpandError;

verus! {

/// A failure anywhere in a run.
#[derive(Clone, Copy, Debug, PartialEq, Eq, Structural)]
pub enum Failure {
    /// A line of input names nothing.
    ParseSkip,
    /// The contents of a container could not be fetched.
    ContainerExpansionFailed,
    /// An item could not be acquired.
    AcquisitionFailed { reason: AcquireError },
    /// An item could not be delivered.
    DeliveryFailed { reason: DeliveryError },
    /// The connection to the service could not be made.
    ConnectionFailed,
}

/// How far a failure reaches.
#[derive(Clone, Copy, Debug, PartialEq, Eq, Structural)]
pub enum Reach {
    /// Nothing is lost and nothing is reported.
    Silent,
    /// The link contributes nothing; the run goes on with the next link.
    Link,
    /// The item is dropped; the run goes on with the next item.
    Item,
    /// The run ends before any item is dealt with.
    Run,
}

/// How far each failure reaches. Only a failed connection ends the run.
pub open spec fn reach_of(failure: Failure) -> Reach {
    match failure {
        Failure::ParseSkip => Reach::Silent,
        Failure::ContainerExpansionFailed => Reach::Link,
        Failure::AcquisitionFailed { .. } => Reach::Item,
        Failure::DeliveryFailed { .. } => Reach::Item,
        Failure::ConnectionFailed => Reach::Run,
    }
}

impl Failure {
    /// How far the failure reaches.
    pub fn reach(&self) -> (r: Reach)
        ensures
            r == reach_of(*self),
    {
        match self {
            Failure::ParseSkip => Reach::Silent,
            Failure::ContainerExpansionFailed => Reach::Link,
            Failure::AcquisitionFailed { .. } => Reach::Item,
            Failure::DeliveryFailed { .. } => Reach::Item,
            Failure::ConnectionFailed => Reach::Run,
        }
    }

    /// Whether the failure ends the run.
    pub fn is_fatal(&self) -> (r: bool)
        ensures
            r == (*self == Failure::ConnectionFailed),
            r == (reach_of(*self) == Reach::Run),
    {
        match self {
            Failure::ConnectionFailed => true,
            _ => false,
        }
    }

    /// The failure of a link that could not be expanded.
    pub fn of_expansion(e: ExpandError) -> (r: Failure)
        ensures
            r == Failure::ContainerExpansionFailed,
    {
        match e {
            ExpandError::ContainerExpansionFailed => Failure::ContainerExpansionFailed,
        }
    }

    /// The failure of an item that could not be acquired.
    pub fn of_acquisition(reason: AcquireError) -> (r: Failure)
        ensures
            r == (Failure::AcquisitionFailed { reason }),
    {
        Failure::AcquisitionFailed { reason }
    }

    /// The failure of an item that could not be delivered.
    pub fn of_delivery(reason: DeliveryError) -> (r: Failure)
        ensures
            r == (Failure::DeliveryFailed { reason }),
    {
        Failure::DeliveryFailed { reason }
    }
}

} // verus!
