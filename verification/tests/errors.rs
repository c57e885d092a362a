use oggify::acquire::AcquireError;
use oggify::delivery::DeliveryError;
use oggify::errors::{Failure, Reach};
use oggify::queue::ExpandError;

#[test]
fn only_a_failed_connection_is_fatal() {
    let all = [
        Failure::ParseSkip,
        Failure::ContainerExpansionFailed,
        Failure::AcquisitionFailed { reason: AcquireError::Unavailable },
        Failure::AcquisitionFailed { reason: AcquireError::NoUsableEncoding },
        Failure::AcquisitionFailed { reason: AcquireError::NoCoverArt },
        Failure::AcquisitionFailed { reason: AcquireError::StreamFailed },
        Failure::AcquisitionFailed { reason: AcquireError::TruncatedStream },
        Failure::DeliveryFailed { reason: DeliveryError::HelperFailed },
        Failure::DeliveryFailed { reason: DeliveryError::WriteFailed },
        Failure::ConnectionFailed,
    ];
    for failure in all {
        assert_eq!(failure.is_fatal(), failure == Failure::ConnectionFailed);
    }
}

#[test]
fn failures_reach_as_far_as_their_kind() {
    assert_eq!(Failure::ParseSkip.reach(), Reach::Silent);
    assert_eq!(Failure::ContainerExpansionFailed.reach(), Reach::Link);
    assert_eq!(Failure::of_acquisition(AcquireError::Unavailable).reach(), Reach::Item);
    assert_eq!(Failure::of_delivery(DeliveryError::HelperFailed).reach(), Reach::Item);
    assert_eq!(Failure::ConnectionFailed.reach(), Reach::Run);
}

#[test]
fn failures_are_made_from_their_causes() {
    assert_eq!(Failure::of_expansion(ExpandError::ContainerExpansionFailed), Failure::ContainerExpansionFailed);
    assert_eq!(
        Failure::of_acquisition(AcquireError::NoCoverArt),
        Failure::AcquisitionFailed { reason: AcquireError::NoCoverArt }
    );
    assert_eq!(
        Failure::of_delivery(DeliveryError::WriteFailed),
        Failure::DeliveryFailed { reason: DeliveryError::WriteFailed }
    );
}
