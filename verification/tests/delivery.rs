use oggify::delivery::{helper_args, helper_outcome, plan_delivery, DeliveryAction, DeliveryError, DeliveryMode};

fn strings(list: &[&str]) -> Vec<String> {
    list.iter().map(|s| s.to_string()).collect()
}

#[test]
fn existing_file_is_not_delivered_again() {
    for mode in [DeliveryMode::Direct, DeliveryMode::Helper { stage_cover: true }, DeliveryMode::Helper { stage_cover: false }] {
        assert_eq!(plan_delivery(true, mode), DeliveryAction::AlreadyDelivered);
    }
}

#[test]
fn missing_file_is_delivered_by_the_mode() {
    assert_eq!(plan_delivery(false, DeliveryMode::Direct), DeliveryAction::WriteFile);
    assert_eq!(plan_delivery(false, DeliveryMode::Helper { stage_cover: true }), DeliveryAction::RunHelper { stage_cover: true });
    assert_eq!(plan_delivery(false, DeliveryMode::Helper { stage_cover: false }), DeliveryAction::RunHelper { stage_cover: false });
}

#[test]
fn helper_gets_its_arguments_in_order() {
    assert_eq!(
        helper_args("4GNcXTGWmnZ3ySrqvol3o4", "So What", "Kind of Blue", Some("/data/albums/x/a.ogg"), Some("https://i.example/c"), &strings(&["Miles Davis", "John Coltrane"])),
        strings(&["4GNcXTGWmnZ3ySrqvol3o4", "So What", "Kind of Blue", "/data/albums/x/a.ogg", "https://i.example/c", "Miles Davis", "John Coltrane"])
    );
}

#[test]
fn helper_arguments_leave_out_what_is_absent() {
    assert_eq!(helper_args("id", "t", "g", None, None, &strings(&["a"])), strings(&["id", "t", "g", "a"]));
    assert_eq!(helper_args("id", "t", "g", Some("p"), None, &[]), strings(&["id", "t", "g", "p"]));
    assert_eq!(helper_args("id", "t", "g", None, Some("c"), &[]), strings(&["id", "t", "g", "c"]));
    assert_eq!(helper_args("", "", "", None, None, &[]), strings(&["", "", ""]));
}

#[test]
fn only_exit_status_zero_is_success() {
    assert_eq!(helper_outcome(Some(0)), Ok(()));
    assert_eq!(helper_outcome(Some(1)), Err(DeliveryError::HelperFailed));
    assert_eq!(helper_outcome(Some(-1)), Err(DeliveryError::HelperFailed));
    assert_eq!(helper_outcome(Some(255)), Err(DeliveryError::HelperFailed));
    assert_eq!(helper_outcome(None), Err(DeliveryError::HelperFailed));
}
