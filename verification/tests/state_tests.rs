use important::state::{
    status_label, ChatRole, EventOutcome, InputEvent, KeyInput, State, BOX_CHAR,
};
use important::term::Canvas;

fn key(c: char) -> InputEvent {
    InputEvent::Key { code: KeyInput::Char(c), control: false }
}

fn ctrl(c: char) -> InputEvent {
    InputEvent::Key { code: KeyInput::Char(c), control: true }
}

fn fresh() -> State {
    State::build(Canvas::build((80, 24)))
}

#[test]
fn build_starts_empty() {
    let s = fresh();
    assert!(!s.loading);
    assert_eq!(s.status, "");
    assert!(s.history.is_empty());
    assert_eq!(s.canvas.size, (80, 24));
}

#[test]
fn typing_editing_and_enter() {
    let mut s = fresh();
    for c in "hi".chars() {
        assert!(matches!(s.handle_event(key(c)), EventOutcome::Continue));
    }
    s.handle_event(InputEvent::Key { code: KeyInput::Enter, control: false });
    s.handle_event(key('x'));
    assert_eq!(s.canvas.prompt_domain.buf, "hi\nx");
    s.handle_event(InputEvent::Key { code: KeyInput::Backspace, control: false });
    assert_eq!(s.canvas.prompt_domain.buf, "hi\n");
    s.handle_event(InputEvent::Key { code: KeyInput::Other, control: false });
    s.handle_event(InputEvent::Other);
    assert_eq!(s.canvas.prompt_domain.buf, "hi\n");
}

#[test]
fn backspace_on_empty_prompt_keeps_it_empty() {
    let mut s = fresh();
    s.handle_event(InputEvent::Key { code: KeyInput::Backspace, control: true });
    assert_eq!(s.canvas.prompt_domain.buf, "");
}

#[test]
fn typing_then_backspace_restores_prompt() {
    let mut s = fresh();
    s.canvas.prompt_domain.buf = "héllo".to_string();
    s.handle_event(key('ß'));
    s.handle_event(InputEvent::Key { code: KeyInput::Backspace, control: false });
    assert_eq!(s.canvas.prompt_domain.buf, "héllo");
}

#[test]
fn control_other_letters_are_typed() {
    let mut s = fresh();
    s.handle_event(ctrl('a'));
    s.handle_event(key('s'));
    s.handle_event(key('c'));
    assert_eq!(s.canvas.prompt_domain.buf, "asc");
}

#[test]
fn control_s_submits() {
    let mut s = fresh();
    for c in "ask".chars() {
        s.handle_event(key(c));
    }
    s.handle_event(ctrl('s'));
    assert_eq!(s.canvas.prompt_domain.holder, "ask");
    assert_eq!(s.canvas.prompt_domain.buf, "");
    assert!(s.canvas.prompt_domain.is_submit);
    s.handle_event(key('z'));
    assert!(!s.canvas.prompt_domain.is_submit);
    assert_eq!(s.canvas.prompt_domain.holder, "ask");
}

#[test]
fn take_submission_records_submitted_prompt() {
    let mut s = fresh();
    s.handle_event(key('q'));
    s.handle_event(ctrl('s'));
    assert!(s.take_submission());
    assert!(!s.canvas.prompt_domain.is_submit);
    assert_eq!(s.history.len(), 1);
    assert_eq!(s.history[0].role, ChatRole::User);
    assert_eq!(s.history[0].content, "q");
    assert!(!s.take_submission());
    assert_eq!(s.history.len(), 1);
}

#[test]
fn handle_buf_appends_user_message() {
    let mut s = fresh();
    s.canvas.prompt_domain.holder = "why?".to_string();
    s.handle_buf();
    s.handle_buf();
    assert_eq!(s.history.len(), 2);
    assert_eq!(s.history[1].content, "why?");
    assert_eq!(s.history[1].role, ChatRole::User);
}

#[test]
fn control_c_quits_with_message() {
    let mut s = fresh();
    s.handle_event(key('o'));
    s.handle_event(key('k'));
    match s.handle_event(ctrl('c')) {
        EventOutcome::Quit(msg) => assert_eq!(msg, "ctrl c pressed! final string:\nok"),
        EventOutcome::Continue => panic!("expected to quit"),
    }
    assert_eq!(s.canvas.prompt_domain.buf, "ok");
}

#[test]
fn resize_then_update_margins() {
    let mut s = fresh();
    s.handle_event(InputEvent::Resize(120, 30));
    assert_eq!(s.canvas.size, (120, 30));
    assert_eq!(s.canvas.prompt_domain.zero, (0, 16));
    s.update_margins();
    assert_eq!(s.canvas.response_domain.size_e, (120, 20));
    assert_eq!(s.canvas.prompt_domain.zero, (0, 20));
    assert_eq!(s.canvas.prompt_domain.size_e, (120, 10));
    assert_eq!(s.status, "term size: 120x30");
}

#[test]
fn update_status_replaces_status() {
    let mut s = fresh();
    s.update_status("loading…");
    assert_eq!(s.status, "loading…");
}

#[test]
fn status_column_centres_status() {
    let mut s = fresh();
    s.update_margins();
    assert_eq!(s.status, "term size: 80x24");
    assert_eq!(s.status_column(), 40 - 8);
    s.update_status("é");
    assert_eq!(s.status_column(), 39);
}

#[test]
fn styled_status_is_white_on_purple() {
    let mut s = fresh();
    s.update_status("ok");
    assert_eq!(s.styled_status(), "\x1b[97m\x1b[105mok\x1b[0m\x1b[0m");
    assert_eq!(status_label(), "\x1b[97m\x1b[105mSTATUS:\x1b[0m\x1b[0m");
}

#[test]
fn separator_bar_has_one_cell_per_column() {
    let s = State::build(Canvas::build((3, 10)));
    assert_eq!(s.separator_bar(), BOX_CHAR.repeat(3));
    let s = State::build(Canvas::build((0, 10)));
    assert_eq!(s.separator_bar(), "");
}

#[test]
fn receive_chunk_appends_to_response() {
    let mut s = fresh();
    assert!(s.awaiting_response());
    s.receive_chunk("Hel");
    s.receive_chunk("lo");
    assert_eq!(s.canvas.response_domain.buf, "Hello");
    s.canvas.response_domain.is_done = true;
    assert!(!s.awaiting_response());
}

#[test]
fn frame_without_event_changes_nothing_before_stream() {
    let mut s = fresh();
    s.canvas.prompt_domain.buf = "draft".to_string();
    assert!(matches!(s.begin_frame(None), EventOutcome::Continue));
    assert_eq!(s.canvas.prompt_domain.buf, "draft");
    assert!(!s.canvas.prompt_domain.is_submit);
    assert!(!s.finish_frame(None));
    assert!(s.history.is_empty());
}

#[test]
fn frame_appends_awaited_piece_only() {
    let mut s = fresh();
    s.begin_frame(None);
    s.finish_frame(Some("Hi"));
    s.finish_frame(Some(" there"));
    assert_eq!(s.canvas.response_domain.buf, "Hi there");
    s.canvas.response_domain.is_done = true;
    s.finish_frame(Some("ignored"));
    assert_eq!(s.canvas.response_domain.buf, "Hi there");
}

#[test]
fn submission_is_taken_in_its_frame_once() {
    let mut s = fresh();
    for c in "tell me".chars() {
        s.begin_frame(Some(key(c)));
        assert!(!s.finish_frame(None));
    }
    s.begin_frame(Some(ctrl('s')));
    assert!(s.canvas.prompt_domain.is_submit);
    assert!(s.finish_frame(Some("x")));
    assert_eq!(s.history.len(), 1);
    assert_eq!(s.history[0].content, "tell me");
    assert_eq!(s.canvas.response_domain.buf, "x");
    s.begin_frame(None);
    assert!(!s.finish_frame(None));
    assert_eq!(s.history.len(), 1);
}

#[test]
fn begin_frame_quits_on_control_c() {
    let mut s = fresh();
    s.begin_frame(Some(key('a')));
    match s.begin_frame(Some(ctrl('c'))) {
        EventOutcome::Quit(msg) => assert_eq!(msg, "ctrl c pressed! final string:\na"),
        EventOutcome::Continue => panic!("expected to quit"),
    }
}

#[test]
fn tall_terminal_is_laid_out() {
    let mut s = State::build(Canvas::build((80, 40000)));
    assert_eq!(s.canvas.response_domain.size_e, (80, 26666));
    assert_eq!(s.canvas.prompt_domain.zero, (0, 26666));
    assert_eq!(s.canvas.prompt_domain.size_e, (80, 13334));
    s.handle_event(InputEvent::Resize(10, u16::MAX));
    s.update_margins();
    assert_eq!(s.canvas.response_domain.size_e, (10, 43690));
    assert_eq!(s.canvas.prompt_domain.size_e, (10, 21845));
}
