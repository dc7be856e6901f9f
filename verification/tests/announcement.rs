use live_region::uia::{announcer_provider_options, processing, NotificationProcessing};
use live_region::{announce, announce_with_priority, Priority};

#[test]
fn priority_levels_match_macos() {
    assert_eq!(Priority::Low.value(), 10);
    assert_eq!(Priority::Medium.value(), 50);
    assert_eq!(Priority::High.value(), 90);
    assert!(Priority::Low.value() < Priority::Medium.value());
    assert!(Priority::Medium.value() < Priority::High.value());
}

#[test]
fn default_priority_is_high() {
    assert_eq!(Priority::default_level(), Priority::High);
    let a = announce("Hello from the live region!").unwrap();
    assert_eq!(a.priority, Priority::High);
    assert_eq!(a.text, "Hello from the live region!");
}

#[test]
fn blank_message_is_not_announced() {
    assert!(announce_with_priority("", Priority::Low).is_none());
    assert!(announce_with_priority(" \n\t ", Priority::High).is_none());
    assert!(announce("\u{1}\u{2}").is_none());
}

#[test]
fn announcement_carries_cleaned_text_and_priority() {
    let a = announce_with_priority("  line one\nline two  ", Priority::Medium).unwrap();
    assert_eq!(a.text, "line one line two");
    assert_eq!(a.priority, Priority::Medium);
}

#[test]
fn priorities_map_to_processing_modes() {
    assert_eq!(processing(Priority::Low), NotificationProcessing::All);
    assert_eq!(processing(Priority::Medium), NotificationProcessing::CurrentThenMostRecent);
    assert_eq!(processing(Priority::High), NotificationProcessing::ImportantMostRecent);
}

#[test]
fn processing_modes_are_distinct() {
    let all = [Priority::Low, Priority::Medium, Priority::High];
    for p in all {
        for q in all {
            if p != q {
                assert_ne!(processing(p), processing(q));
            }
        }
    }
}

#[test]
fn processing_codes_match_uia() {
    assert_eq!(NotificationProcessing::ImportantAll.value(), 0);
    assert_eq!(NotificationProcessing::ImportantMostRecent.value(), 1);
    assert_eq!(NotificationProcessing::All.value(), 2);
    assert_eq!(NotificationProcessing::MostRecent.value(), 3);
    assert_eq!(NotificationProcessing::CurrentThenMostRecent.value(), 4);
}

#[test]
fn provider_options_are_server_side_with_com_threading() {
    assert_eq!(announcer_provider_options(), 0x22);
}
