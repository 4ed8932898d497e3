use ssh_colony::error::{Error, ErrorKind};
use ssh_colony::render::renderer::RenderSignal;
use ssh_colony::scenes::{script_answer, Dispatcher, SceneSignal, Signal, Step};

/// A step written as a short word, scenes by name and render work by the
/// number it carries.
fn word(s: &Step<&'static str>) -> String {
    match s {
        Step::Continue => "-".to_string(),
        Step::Cancel => "cancel".to_string(),
        Step::Send(RenderSignal::PageUI(n)) => format!("send{}", n),
        Step::Send(_) => "send".to_string(),
        Step::Start { scene, suspend_top, .. } => format!("start {} {}", scene, suspend_top),
        Step::PushScene(s) => format!("push {}", s),
        Step::PopScene => "pop".to_string(),
        Step::Refused => "refused".to_string(),
        Step::Fail(e) => format!("fail {}", e.description()),
    }
}

fn run(d: &mut Dispatcher<&'static str>) -> Vec<String> {
    let mut out = Vec::new();
    while let Some(s) = d.next() {
        if let Step::Start { scene, .. } = &s {
            let scene = *scene;
            out.push(word(&s));
            d.started(scene, Signal::Render(RenderSignal::PageUI(9)));
            continue;
        }
        out.push(word(&s));
    }
    out
}

fn page(n: i32) -> Signal<&'static str> {
    Signal::Render(RenderSignal::PageUI(n))
}

#[test]
fn sequence_is_handled_in_order() {
    let mut d = Dispatcher::new(1);
    d.handle(Signal::Sequence(vec![page(1), page(2), page(3)]));
    assert_eq!(run(&mut d), vec!["-", "send1", "send2", "send3"]);
    assert!(d.is_idle());
}

#[test]
fn batch_takes_first_then_from_the_back() {
    let mut d = Dispatcher::new(1);
    d.handle(Signal::Batch(vec![page(1), page(2), page(3), page(4)]));
    assert_eq!(run(&mut d), vec!["-", "send1", "send4", "send3", "send2"]);
}

#[test]
fn new_scene_answer_comes_before_push() {
    let mut d = Dispatcher::new(1);
    let new = SceneSignal::New { scene: "menu", signal: Some(Box::new(Signal::Nothing)) };
    d.handle(Signal::Sequence(vec![Signal::Scenes(new), Signal::Quit]));
    assert_eq!(run(&mut d), vec!["-", "start menu true", "send9", "push menu", "cancel"]);
    assert_eq!(d.scene_count(), 2);
}

#[test]
fn sequence_of_new_scenes_stacks_them_in_order() {
    let mut d = Dispatcher::new(0);
    let a = SceneSignal::New { scene: "a", signal: None };
    let b = SceneSignal::New { scene: "b", signal: None };
    d.handle(Signal::Sequence(vec![Signal::Scenes(a), Signal::Scenes(b)]));
    assert_eq!(
        run(&mut d),
        vec!["-", "start a false", "send9", "push a", "start b true", "send9", "push b"]
    );
    assert_eq!(d.scene_count(), 2);
}

#[test]
fn first_scene_suspends_nothing() {
    let mut d = Dispatcher::new(0);
    d.handle(Signal::Scenes(SceneSignal::New { scene: "intro", signal: None }));
    assert_eq!(run(&mut d), vec!["start intro false", "send9", "push intro"]);
    assert_eq!(d.scene_count(), 1);
}

#[test]
fn pop_keeps_the_last_scene() {
    let mut d = Dispatcher::new(2);
    d.handle(Signal::Sequence(vec![
        Signal::Scenes(SceneSignal::Pop),
        Signal::Scenes(SceneSignal::Pop),
        Signal::Log("x".to_string()),
    ]));
    assert_eq!(run(&mut d), vec!["-", "pop", "refused", "-"]);
    assert_eq!(d.scene_count(), 1);
}

#[test]
fn error_stops_everything_left() {
    let mut d = Dispatcher::new(1);
    d.handle(page(7));
    d.handle(Signal::Sequence(vec![
        Signal::Error(Error::new("boom", ErrorKind::Context)),
        page(1),
    ]));
    assert_eq!(run(&mut d), vec!["-", "fail boom"]);
    assert!(d.is_idle());
}

#[test]
fn script_answers() {
    assert!(matches!(script_answer::<&str>("Quit"), Signal::Quit));
    assert!(matches!(script_answer::<&str>("quit"), Signal::Nothing));
    assert!(matches!(script_answer::<&str>("Quitting"), Signal::Nothing));
    assert!(matches!(script_answer::<&str>(""), Signal::Nothing));
}
