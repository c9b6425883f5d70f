use astromech_control::requests::RoutineRequest;
use astromech_control::routine::{Command, RoutineAction, RoutineManager, RoutineState};

fn mv(name: &str, position: i32) -> Command {
    Command::MoveServo { servo_name: name.to_string(), position, duration: 0 }
}

#[test]
fn pause_separates_dispatches() {
    let mut run = RoutineManager::new(vec![mv("A", 10_000), Command::Pause { duration: 100 }, mv("B", 20_000)]);
    assert_eq!(run.state(), RoutineState::Idle);
    assert_eq!(run.next_action(), RoutineAction::Dispatch(mv("A", 10_000)));
    assert_eq!(run.state(), RoutineState::Running);
    assert_eq!(run.next_action(), RoutineAction::Wait(100));
    assert_eq!(run.next_action(), RoutineAction::Dispatch(mv("B", 20_000)));
    assert_eq!(run.state(), RoutineState::Running);
    assert_eq!(run.next_action(), RoutineAction::Complete);
    assert_eq!(run.state(), RoutineState::Completed);
    assert_eq!(run.next_action(), RoutineAction::Complete);
}

#[test]
fn empty_routine_completes_at_once() {
    let mut run = RoutineManager::new(Vec::new());
    assert_eq!(run.next_action(), RoutineAction::Complete);
    assert_eq!(run.state(), RoutineState::Completed);
}

#[test]
fn audio_and_moves_dispatch_back_to_back() {
    let play = Command::PlayAudio { file: "beep.mp3".to_string() };
    let request = RoutineRequest { commands: vec![play.clone(), mv("A", 0), Command::Pause { duration: 0 }] };
    let mut run = RoutineManager::new(request.commands);
    assert_eq!(run.next_action(), RoutineAction::Dispatch(play));
    assert_eq!(run.next_action(), RoutineAction::Dispatch(mv("A", 0)));
    assert_eq!(run.next_action(), RoutineAction::Wait(0));
    assert_eq!(run.next_action(), RoutineAction::Complete);
}

#[test]
fn command_execute_maps_to_action() {
    assert_eq!(Command::Pause { duration: 250 }.execute(), RoutineAction::Wait(250));
    assert_eq!(mv("A", 5).execute(), RoutineAction::Dispatch(mv("A", 5)));
}
