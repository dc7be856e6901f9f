use live_region::providers::{
    Event, Phase, ProviderRegistry, Request, Step, WindowMessageAction, UIA_ROOT_OBJECT_ID,
    WM_GETOBJECT, WM_NCDESTROY,
};
use live_region::uia::NotificationProcessing;
use live_region::{Announcement, Priority};

/// Drives `request` to its end, answering each step from the given outcomes, and
/// returns the steps asked for (the last one being `Finish`).
fn drive(
    reg: &mut ProviderRegistry<String>,
    request: Request,
    installed: bool,
    listening: bool,
    raised: bool,
) -> Vec<Step> {
    let mut steps = Vec::new();
    let mut request = request;
    let mut event = Event::Begin;
    loop {
        let (next, step) = reg.step(request, event);
        request = next;
        steps.push(step);
        event = match step {
            Step::MakeProvider(k) => Event::ProviderMade(format!("provider {k}")),
            Step::Install(k) => {
                // The provider is reachable while the window is hooked.
                assert_eq!(reg.get(k).map(String::as_str), Some(format!("provider {k}").as_str()));
                Event::Installed(installed)
            }
            Step::AskListeners => Event::Listening(listening),
            Step::Raise(k, _) => {
                assert!(reg.get(k).is_some());
                assert!(request.text().is_some());
                Event::Raised(raised)
            }
            Step::Finish(_) => {
                assert_eq!(request.phase(), Phase::Done);
                return steps;
            }
        };
    }
}

fn speech(text: &str, priority: Priority) -> Announcement {
    Announcement { text: text.to_string(), priority }
}

#[test]
fn first_preparation_installs_provider() {
    let mut reg = ProviderRegistry::new();
    let steps = drive(&mut reg, Request::set_live_region(7), true, true, true);
    assert_eq!(steps, vec![Step::MakeProvider(7), Step::Install(7), Step::Finish(true)]);
    assert!(reg.is_registered(7));
    assert_eq!(reg.get(7).map(String::as_str), Some("provider 7"));
}

#[test]
fn preparation_is_once_per_window() {
    let mut reg = ProviderRegistry::new();
    drive(&mut reg, Request::set_live_region(3), true, true, true);
    let steps = drive(&mut reg, Request::set_live_region(3), false, false, false);
    assert_eq!(steps, vec![Step::Finish(true)]);
    assert_eq!(reg.get(3).map(String::as_str), Some("provider 3"));
}

#[test]
fn failed_install_leaves_no_provider() {
    let mut reg = ProviderRegistry::new();
    let steps = drive(&mut reg, Request::set_live_region(5), false, true, true);
    assert_eq!(steps, vec![Step::MakeProvider(5), Step::Install(5), Step::Finish(false)]);
    assert!(!reg.is_registered(5));
    assert!(reg.get(5).is_none());
}

#[test]
fn null_window_has_no_live_region() {
    let mut reg = ProviderRegistry::new();
    assert_eq!(drive(&mut reg, Request::set_live_region(0), true, true, true), vec![Step::Finish(false)]);
    assert!(!reg.is_registered(0));
    assert_eq!(
        drive(&mut reg, Request::announce(0, speech("x", Priority::High)), true, true, true),
        vec![Step::Finish(false)]
    );
    assert!(!reg.is_registered(0));
}

#[test]
fn announce_raises_with_processing_of_priority() {
    let mut reg = ProviderRegistry::new();
    let steps = drive(&mut reg, Request::announce(9, speech("hello", Priority::Low)), true, true, true);
    assert_eq!(
        steps,
        vec![
            Step::MakeProvider(9),
            Step::Install(9),
            Step::AskListeners,
            Step::Raise(9, NotificationProcessing::All),
            Step::Finish(true),
        ]
    );
}

#[test]
fn raise_carries_the_announced_text() {
    let mut reg: ProviderRegistry<String> = ProviderRegistry::new();
    let mut request = Request::announce(4, speech("spoken words", Priority::Medium));
    for event in [Event::Begin, Event::ProviderMade("p".to_string()), Event::Installed(true), Event::Listening(true)] {
        let (next, _) = reg.step(request, event);
        request = next;
    }
    assert_eq!(request.phase(), Phase::AwaitRaise);
    assert_eq!(request.text(), Some("spoken words"));
    assert_eq!(Request::set_live_region(4).text(), None);
}

#[test]
fn announce_without_listeners_keeps_provider() {
    let mut reg = ProviderRegistry::new();
    let steps = drive(&mut reg, Request::announce(1, speech("x", Priority::High)), true, false, true);
    assert_eq!(steps, vec![Step::MakeProvider(1), Step::Install(1), Step::AskListeners, Step::Finish(false)]);
    assert!(reg.is_registered(1));
}

#[test]
fn announce_on_registered_window_skips_install() {
    let mut reg = ProviderRegistry::new();
    drive(&mut reg, Request::set_live_region(6), true, true, true);
    let steps = drive(&mut reg, Request::announce(6, speech("x", Priority::High)), false, true, true);
    assert_eq!(
        steps,
        vec![Step::AskListeners, Step::Raise(6, NotificationProcessing::ImportantMostRecent), Step::Finish(true)]
    );
}

#[test]
fn announce_when_install_fails() {
    let mut reg = ProviderRegistry::new();
    let steps = drive(&mut reg, Request::announce(4, speech("x", Priority::Medium)), false, true, true);
    assert_eq!(steps, vec![Step::MakeProvider(4), Step::Install(4), Step::Finish(false)]);
    assert!(!reg.is_registered(4));
}

#[test]
fn announce_reports_raise_result() {
    let mut reg = ProviderRegistry::new();
    let steps = drive(&mut reg, Request::announce(4, speech("x", Priority::Medium)), true, true, false);
    assert_eq!(steps.last(), Some(&Step::Finish(false)));
    assert!(reg.is_registered(4));
}

#[test]
fn out_of_order_event_ends_request() {
    let mut reg: ProviderRegistry<String> = ProviderRegistry::new();
    let (request, step) = reg.step(Request::set_live_region(8), Event::Installed(true));
    assert_eq!(step, Step::Finish(false));
    assert_eq!(request.phase(), Phase::Done);
    let (_, step) = reg.step(request, Event::Begin);
    assert_eq!(step, Step::Finish(false));
    assert!(!reg.is_registered(8));
}

#[test]
fn root_object_request_is_served() {
    let mut reg = ProviderRegistry::new();
    assert_eq!(reg.on_window_message(2, WM_GETOBJECT, UIA_ROOT_OBJECT_ID), WindowMessageAction::PassOn);
    drive(&mut reg, Request::set_live_region(2), true, true, true);
    assert_eq!(
        reg.on_window_message(2, WM_GETOBJECT, UIA_ROOT_OBJECT_ID),
        WindowMessageAction::ServeProvider
    );
    assert_eq!(reg.on_window_message(2, WM_GETOBJECT, -4), WindowMessageAction::PassOn);
    assert_eq!(reg.on_window_message(2, 0x000F, UIA_ROOT_OBJECT_ID), WindowMessageAction::PassOn);
    assert!(reg.is_registered(2));
}

#[test]
fn destroy_releases_only_that_window() {
    let mut reg = ProviderRegistry::new();
    drive(&mut reg, Request::set_live_region(2), true, true, true);
    drive(&mut reg, Request::set_live_region(3), true, true, true);
    assert_eq!(reg.on_window_message(2, WM_NCDESTROY, 0), WindowMessageAction::ReleaseWindow);
    assert!(!reg.is_registered(2));
    assert!(reg.is_registered(3));
    assert_eq!(reg.on_window_message(2, WM_GETOBJECT, UIA_ROOT_OBJECT_ID), WindowMessageAction::PassOn);
    assert_eq!(reg.on_window_message(9, WM_NCDESTROY, 0), WindowMessageAction::ReleaseWindow);
}

#[test]
fn any_five_events_finish_a_request() {
    let mut reg: ProviderRegistry<String> = ProviderRegistry::new();
    let mut request = Request::announce(12, speech("x", Priority::Low));
    let events = [
        Event::Begin,
        Event::ProviderMade("p".to_string()),
        Event::Listening(true),
        Event::Installed(true),
        Event::Raised(true),
    ];
    for event in events {
        let (next, _) = reg.step(request, event);
        request = next;
    }
    assert_eq!(request.phase(), Phase::Done);
    // The provider made for the window stays: only a failed hook removes it.
    assert!(reg.is_registered(12));
}
