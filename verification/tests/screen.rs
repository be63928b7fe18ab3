use rs_snake::screen::{anchor, death_key, quits, splash_key};
use rs_snake::{with_blank_screen, Action, Key, Report, Scene, Screen};

fn show(action: Action<&'static str>) -> String {
    match action {
        Action::Show(scene) => format!("show {:?}", scene),
        Action::Leave(after) => format!("leave {:?}", after),
        Action::Finish(result) => format!("finish {:?}", result),
    }
}

#[test]
fn entered_screen_shows_the_first_scene() {
    let action = with_blank_screen(Scene::Splash, Report::Entered(Ok(())));
    assert_eq!(show(action), "show Splash");
    let action = with_blank_screen(Scene::Death, Report::Entered(Ok(())));
    assert_eq!(show(action), "show Death");
}

#[test]
fn screen_that_cannot_be_entered_ends_the_session() {
    let action = with_blank_screen(Scene::Splash, Report::Entered(Err("no terminal")));
    assert_eq!(show(action), "finish Err(\"no terminal\")");
}

#[test]
fn scene_names_the_next_scene() {
    let action = with_blank_screen(Scene::Splash, Report::Shown(Ok(Screen::Next(Scene::Game))));
    assert_eq!(show(action), "show Game");
    let action = with_blank_screen(Scene::Splash, Report::Shown(Ok(Screen::Next(Scene::Death))));
    assert_eq!(show(action), "show Death");
}

#[test]
fn exit_leaves_the_screen_with_success() {
    let action = with_blank_screen(Scene::Splash, Report::Shown(Ok(Screen::Exit)));
    assert_eq!(show(action), "leave Ok(())");
}

#[test]
fn failed_scene_leaves_the_screen_with_its_error() {
    let action = with_blank_screen(Scene::Splash, Report::Shown(Err("broken pipe")));
    assert_eq!(show(action), "leave Err(\"broken pipe\")");
}

#[test]
fn left_screen_ends_the_session_with_what_it_had_come_to() {
    let action = with_blank_screen(Scene::Splash, Report::Left { left: Ok(()), after: Ok(()) });
    assert_eq!(show(action), "finish Ok(())");
    let action =
        with_blank_screen(Scene::Splash, Report::Left { left: Ok(()), after: Err("broken pipe") });
    assert_eq!(show(action), "finish Err(\"broken pipe\")");
}

#[test]
fn failure_to_leave_wins_over_what_came_before() {
    let action =
        with_blank_screen(Scene::Splash, Report::Left { left: Err("stuck"), after: Ok(()) });
    assert_eq!(show(action), "finish Err(\"stuck\")");
    let action = with_blank_screen(
        Scene::Splash,
        Report::Left { left: Err("stuck"), after: Err("broken pipe") },
    );
    assert_eq!(show(action), "finish Err(\"stuck\")");
}

#[test]
fn session_runs_from_title_to_death() {
    // What each scene hands back, in the order in which the scenes are shown.
    let mut script: Vec<Result<Screen, &'static str>> =
        vec![Ok(Screen::Next(Scene::Game)), Ok(Screen::Next(Scene::Death)), Ok(Screen::Exit)];
    script.reverse();
    let mut shown: Vec<Scene> = Vec::new();
    let mut left: u32 = 0;
    let mut report: Report<&'static str> = Report::Entered(Ok(()));
    let result: Result<(), &'static str> = loop {
        match with_blank_screen(Scene::Splash, report) {
            Action::Show(scene) => {
                shown.push(scene);
                report = Report::Shown(script.pop().unwrap());
            }
            Action::Leave(after) => {
                left += 1;
                report = Report::Left { left: Ok(()), after };
            }
            Action::Finish(result) => break result,
        }
    };
    assert_eq!(result, Ok(()));
    assert_eq!(shown, vec![Scene::Splash, Scene::Game, Scene::Death]);
    assert_eq!(left, 1);
    assert!(script.is_empty());
}

#[test]
fn session_ends_when_a_scene_fails() {
    let mut script: Vec<Result<Screen, &'static str>> =
        vec![Ok(Screen::Next(Scene::Game)), Err("lost the terminal")];
    script.reverse();
    let mut shown: Vec<Scene> = Vec::new();
    let mut left: u32 = 0;
    let mut report: Report<&'static str> = Report::Entered(Ok(()));
    let result: Result<(), &'static str> = loop {
        match with_blank_screen(Scene::Splash, report) {
            Action::Show(scene) => {
                shown.push(scene);
                report = Report::Shown(script.pop().unwrap());
            }
            Action::Leave(after) => {
                left += 1;
                report = Report::Left { left: Ok(()), after };
            }
            Action::Finish(result) => break result,
        }
    };
    assert_eq!(result, Err("lost the terminal"));
    assert_eq!(shown, vec![Scene::Splash, Scene::Game]);
    assert_eq!(left, 1);
}

#[test]
fn escape_and_q_quit() {
    assert!(quits(Key::Esc));
    assert!(quits(Key::Char('q')));
    assert!(!quits(Key::Char('Q')));
    assert!(!quits(Key::Char('x')));
    assert!(!quits(Key::Enter));
    assert!(!quits(Key::Up));
    assert!(!quits(Key::Other));
}

#[test]
fn title_waits_for_enter_or_quit() {
    assert_eq!(splash_key(Key::Esc), Some(Screen::Exit));
    assert_eq!(splash_key(Key::Char('q')), Some(Screen::Exit));
    assert_eq!(splash_key(Key::Enter), Some(Screen::Next(Scene::Game)));
    assert_eq!(splash_key(Key::Char('a')), None);
    assert_eq!(splash_key(Key::Up), None);
    assert_eq!(splash_key(Key::Other), None);
}

#[test]
fn death_waits_for_enter() {
    assert_eq!(death_key(Key::Enter), Some(Screen::Exit));
    assert_eq!(death_key(Key::Esc), None);
    assert_eq!(death_key(Key::Char('q')), None);
    assert_eq!(death_key(Key::Down), None);
    assert_eq!(death_key(Key::Other), None);
}

#[test]
fn texts_are_anchored_off_the_middle() {
    assert_eq!(anchor((80, 24), 9, 1), (31, 11));
    assert_eq!(anchor((80, 24), 3, 0), (37, 12));
    assert_eq!(anchor((81, 25), 9, 1), (31, 11));
    assert_eq!(anchor((18, 2), 9, 1), (0, 0));
    assert_eq!(anchor((0, 0), 0, 0), (0, 0));
}
