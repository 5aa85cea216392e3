use molsurf::application::Application;
use molsurf::ui::{Message, UserInterface};

#[test]
fn solvent_radius_message_is_applied_unrounded() {
    let mut a = Application::new(2, 2);
    let ui = UserInterface::new();
    ui.update(Message::SolventRadiusChanged(1234), &mut a);
    assert_eq!(a.solvent_radius(), 1234);
    assert!(a.camera_changed);
}

#[test]
fn count_messages_round_to_whole_counts() {
    let mut a = Application::new(2, 2);
    let ui = UserInterface::new();
    ui.update(Message::MaxNeighboursChanged(22_499), &mut a);
    assert_eq!(a.max_neighbours(), 22);
    ui.update(Message::MaxNeighboursChanged(22_500), &mut a);
    assert_eq!(a.max_neighbours(), 23);
    ui.update(Message::MaxStepsChanged(7_800), &mut a);
    assert_eq!(a.max_steps(), 8);
}
