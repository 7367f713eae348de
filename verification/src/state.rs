//! The session state of the terminal front end, with plain values only: the
//! canvas, the status line and the conversation. Keys, resizes and streamed
//! answer pieces are handed in as plain events.

use vstd::prelude::*;
use crate::color::{
    background_codes_are_ansi, foreground_codes_are_ansi, sgr, Color, color_bg, color_fg,
    colored_bg, colored_fg,
};
use crate::term::{
    byte_len, prompt_extent, prompt_origin, response_extent, response_origin,
    Canvas,
};
use crate::text::{decimal, pop_char, push_char, push_decimal};

verus! {

/// The cell drawn, repeated, as the bar between the two domains.
pub const BOX_CHAR: &'static str = "\x1b[0;105m \x1b[0m";

/// A key as the session distinguishes it.
#[derive(Clone, Copy, Debug, PartialEq, Eq, Structural)]
pub enum KeyInput {
    Backspace,
    Enter,
    Char(char),
    Other,
}

/// A terminal event: a key press (with whether Control was held), a resize,
/// or anything else.
#[derive(Clone, Copy, Debug, PartialEq, Eq, Structural)]
pub enum InputEvent {
    Key { code: KeyInput, control: bool },
    Resize(u16, u16),
    Other,
}

/// What the caller has to do after an event.
#[derive(Debug)]
pub enum EventOutcome {
    /// Go on with the session.
    Continue,
    /// Leave the terminal and end the program with this message.
    Quit(String),
}

/// The author of a message of the conversation.
#[derive(Clone, Copy, Debug, PartialEq, Eq, Structural)]
pub enum ChatRole {
    User,
    Assistant,
    System,
}

/// One message of the conversation.
#[derive(Debug)]
pub struct ChatEntry {
    pub role: ChatRole,
    pub content: String,
}

/// The session: the canvas, whether a load is running, the status line and
/// the conversation sent to the model.
#[derive(Debug)]
pub struct State {
    pub canvas: Canvas,
    pub loading: bool,
    pub status: String,
    pub history: Vec<ChatEntry>,
}

/// Whether the event is Control-S, which submits the prompt.
pub open spec fn is_submit_event(event: InputEvent) -> bool {
    event == InputEvent::Key { code: KeyInput::Char('s'), control: true }
}

/// Whether the event is Control-C, which ends the session.
pub open spec fn is_quit_event(event: InputEvent) -> bool {
    event == InputEvent::Key { code: KeyInput::Char('c'), control: true }
}

/// The prompt buffer after an event: Backspace removes the last character,
/// Enter adds a newline, Control-S empties it, Control-C leaves it, any other
/// character is added; other events leave it as it is.
pub open spec fn prompt_after(buf: Seq<char>, event: InputEvent) -> Seq<char> {
    match event {
        InputEvent::Key { code, control } => match code {
            KeyInput::Backspace => if buf.len() > 0 {
                buf.drop_last()
            } else {
                buf
            },
            KeyInput::Enter => buf.push('\n'),
            KeyInput::Char(x) => if control && x == 's' {
                Seq::empty()
            } else if control && x == 'c' {
                buf
            } else {
                buf.push(x)
            },
            KeyInput::Other => buf,
        },
        _ => buf,
    }
}

/// The terminal size after an event.
pub open spec fn size_after(size: (u16, u16), event: InputEvent) -> (u16, u16) {
    match event {
        InputEvent::Resize(w, h) => (w, h),
        _ => size,
    }
}

/// The message shown when the session is ended with Control-C.
pub open spec fn quit_message(buf: Seq<char>) -> Seq<char> {
    "ctrl c pressed! final string:\n"@ + buf
}

/// The status line for a terminal size: `term size: WxH`.
pub open spec fn size_status(size: (u16, u16)) -> Seq<char> {
    "term size: "@ + decimal(size.0 as nat) + seq!['x'] + decimal(size.1 as nat)
}

/// A text repeated `n` times.
pub open spec fn repeat(s: Seq<char>, n: nat) -> Seq<char>
    decreases n,
{
    if n == 0 {
        seq![]
    } else {
        repeat(s, (n - 1) as nat) + s
    }
}

/// Text in high-intensity white on a high-intensity purple background.
pub open spec fn status_styled(text: Seq<char>) -> Seq<char> {
    colored_fg(colored_bg(text, Color::HighIntensityBgPurple), Color::HighIntensityWhite)
}

/// The column at which the status line starts so that it is centred.
pub open spec fn status_column_of(width: u16, status: Seq<char>) -> u16 {
    (width / 2 - (byte_len(status) / 2) as u16) as u16
}

/// Whether the centred status line fits: its half length is at most half the width.
pub open spec fn status_fits(width: u16, status: Seq<char>) -> bool {
    ((byte_len(status) / 2) as u16) <= width / 2
}

impl State {
    /// A session on the given canvas, not loading, with an empty status line
    /// and an empty conversation.
    pub fn build(canvas: Canvas) -> (res: Self)
        ensures
            res.canvas == canvas,
            !res.loading,
            res.status@ == Seq::<char>::empty(),
            res.history@.len() == 0,
    {
        State { canvas, loading: false, status: String::new(), history: Vec::new() }
    }

    /// Applies a terminal event to the session and says whether to go on.
    /// The submit flag is cleared first; Control-S then moves the prompt
    /// into the holder and raises the flag again.
    pub fn handle_event(&mut self, event: InputEvent) -> (outcome: EventOutcome)
        ensures
            final(self).canvas.prompt_domain.buf@ == prompt_after(
                old(self).canvas.prompt_domain.buf@,
                event,
            ),
            final(self).canvas.prompt_domain.holder@ == if is_submit_event(event) {
                old(self).canvas.prompt_domain.buf@
            } else {
                old(self).canvas.prompt_domain.holder@
            },
            final(self).canvas.prompt_domain.is_submit == is_submit_event(event),
            final(self).canvas.size == size_after(old(self).canvas.size, event),
            final(self).canvas.prompt_domain.zero == old(self).canvas.prompt_domain.zero,
            final(self).canvas.prompt_domain.size_e == old(self).canvas.prompt_domain.size_e,
            final(self).canvas.prompt_domain.indices == old(self).canvas.prompt_domain.indices,
            final(self).canvas.prompt_domain.newline_index
                == old(self).canvas.prompt_domain.newline_index,
            final(self).canvas.response_domain == old(self).canvas.response_domain,
            final(self).canvas.window_newline_index == old(self).canvas.window_newline_index,
            final(self).loading == old(self).loading,
            final(self).status == old(self).status,
            final(self).history == old(self).history,
            outcome is Quit <==> is_quit_event(event),
            outcome matches EventOutcome::Quit(msg) ==> msg@ == quit_message(
                old(self).canvas.prompt_domain.buf@,
            ),
    {
        self.canvas.prompt_domain.is_submit = false;
        match event {
            InputEvent::Key { code, control } => match code {
                KeyInput::Backspace => {
                    let _ = pop_char(&mut self.canvas.prompt_domain.buf);
                },
                KeyInput::Enter => {
                    push_char(&mut self.canvas.prompt_domain.buf, '\n');
                },
                KeyInput::Char(x) => {
                    if x == 's' && control {
                        self.canvas.prompt_domain.holder = self.canvas.prompt_domain.buf.clone();
                        self.canvas.prompt_domain.buf = String::new();
                        self.canvas.prompt_domain.is_submit = true;
                    } else if x == 'c' && control {
                        let mut msg = String::from_str("ctrl c pressed! final string:\n");
                        msg.append(self.canvas.prompt_domain.buf.as_str());
                        return EventOutcome::Quit(msg);
                    } else {
                        push_char(&mut self.canvas.prompt_domain.buf, x);
                    }
                },
                KeyInput::Other => {},
            },
            InputEvent::Resize(width, height) => {
                self.canvas.size = (width, height);
            },
            InputEvent::Other => {},
        }
        EventOutcome::Continue
    }

    /// Lays both domains out for the canvas size and shows that size in the
    /// status line.
    pub fn update_margins(&mut self)
        ensures
            final(self).canvas.size == old(self).canvas.size,
            final(self).canvas.response_domain.zero == response_origin(old(self).canvas.size),
            final(self).canvas.response_domain.size_e == response_extent(old(self).canvas.size),
            final(self).canvas.prompt_domain.zero == prompt_origin(old(self).canvas.size),
            final(self).canvas.prompt_domain.size_e == prompt_extent(old(self).canvas.size),
            final(self).canvas.response_domain.buf == old(self).canvas.response_domain.buf,
            final(self).canvas.response_domain.holder == old(self).canvas.response_domain.holder,
            final(self).canvas.response_domain.indices == old(self).canvas.response_domain.indices,
            final(self).canvas.response_domain.newline_index
                == old(self).canvas.response_domain.newline_index,
            final(self).canvas.response_domain.is_done == old(self).canvas.response_domain.is_done,
            final(self).canvas.prompt_domain.buf == old(self).canvas.prompt_domain.buf,
            final(self).canvas.prompt_domain.holder == old(self).canvas.prompt_domain.holder,
            final(self).canvas.prompt_domain.indices == old(self).canvas.prompt_domain.indices,
            final(self).canvas.prompt_domain.newline_index
                == old(self).canvas.prompt_domain.newline_index,
            final(self).canvas.prompt_domain.is_submit == old(self).canvas.prompt_domain.is_submit,
            final(self).canvas.window_newline_index == old(self).canvas.window_newline_index,
            final(self).status@ == size_status(old(self).canvas.size),
            final(self).loading == old(self).loading,
            final(self).history == old(self).history,
    {
        let size: (u16, u16) = self.canvas.size;
        self.canvas.response_domain.update(size);
        self.canvas.prompt_domain.update(size);
        let mut status = String::from_str("term size: ");
        push_decimal(&mut status, size.0 as u64);
        push_char(&mut status, 'x');
        push_decimal(&mut status, size.1 as u64);
        self.status = status;
    }

    /// Replaces the status line.
    pub fn update_status(&mut self, txt: &str)
        ensures
            final(self).status@ == txt@,
            final(self).canvas == old(self).canvas,
            final(self).loading == old(self).loading,
            final(self).history == old(self).history,
    {
        self.status = String::from_str(txt);
    }

    /// The column at which the status line is drawn, centred on the screen.
    pub fn status_column(&self) -> (col: u16)
        requires
            status_fits(self.canvas.size.0, self.status@),
        ensures
            col == status_column_of(self.canvas.size.0, self.status@),
            col as int + (byte_len(self.status@) / 2) as u16 as int == self.canvas.size.0 as int / 2,
    {
        let half: u16 = self.canvas.size.0 / 2;
        let half_len: u16 = (self.status.as_str().len() / 2) as u16;
        half - half_len
    }

    /// The status line as drawn: white on purple.
    pub fn styled_status(&self) -> (res: String)
        ensures
            res@ == status_styled(self.status@),
    {
        let on_purple = color_bg(self.status.as_str(), Color::HighIntensityBgPurple);
        color_fg(on_purple.as_str(), Color::HighIntensityWhite)
    }

    /// The bar drawn between the two domains: one box cell per column.
    pub fn separator_bar(&self) -> (bar: String)
        ensures
            bar@ == repeat(BOX_CHAR@, self.canvas.size.0 as nat),
    {
        let width: u16 = self.canvas.size.0;
        let mut bar = String::new();
        let mut i: u16 = 0;
        while i < width
            invariant
                i <= width,
                bar@ == repeat(BOX_CHAR@, i as nat),
            decreases width - i,
        {
            bar.append(BOX_CHAR);
            i = i + 1;
        }
        bar
    }

    /// Whether the answer is still streaming in, so that the next piece is awaited.
    pub fn awaiting_response(&self) -> (res: bool)
        ensures
            res == !self.canvas.response_domain.is_done,
    {
        !self.canvas.response_domain.is_done
    }

    /// Appends a piece of the streamed answer to the response buffer.
    pub fn receive_chunk(&mut self, content: &str)
        ensures
            final(self).canvas.response_domain.buf@ == old(self).canvas.response_domain.buf@
                + content@,
            final(self).canvas.prompt_domain == old(self).canvas.prompt_domain,
            final(self).canvas.size == old(self).canvas.size,
            final(self).canvas.response_domain.is_done == old(self).canvas.response_domain.is_done,
            final(self).canvas.response_domain.zero == old(self).canvas.response_domain.zero,
            final(self).canvas.response_domain.size_e == old(self).canvas.response_domain.size_e,
            final(self).canvas.response_domain.holder == old(self).canvas.response_domain.holder,
            final(self).canvas.response_domain.indices == old(self).canvas.response_domain.indices,
            final(self).canvas.response_domain.newline_index
                == old(self).canvas.response_domain.newline_index,
            final(self).canvas.window_newline_index == old(self).canvas.window_newline_index,
            final(self).status == old(self).status,
            final(self).loading == old(self).loading,
            final(self).history == old(self).history,
    {
        self.canvas.response_domain.buf.append(content);
    }

    /// Adds the submitted prompt, which Control-S moved into the holder, to
    /// the conversation as a message of the user.
    pub fn handle_buf(&mut self)
        ensures
            final(self).history@.len() == old(self).history@.len() + 1,
            forall|i: int|
                0 <= i < old(self).history@.len() ==> final(self).history@[i] == old(
                    self,
                ).history@[i],
            final(self).history@.last().role == ChatRole::User,
            final(self).history@.last().content@ == old(self).canvas.prompt_domain.holder@,
            final(self).canvas == old(self).canvas,
            final(self).status == old(self).status,
            final(self).loading == old(self).loading,
    {
        let content = self.canvas.prompt_domain.holder.clone();
        self.history.push(ChatEntry { role: ChatRole::User, content });
    }

    /// When the prompt was submitted, adds it to the conversation, clears the
    /// submit flag and says so; otherwise changes nothing.
    pub fn take_submission(&mut self) -> (submitted: bool)
        ensures
            submitted == old(self).canvas.prompt_domain.is_submit,
            !final(self).canvas.prompt_domain.is_submit,
            !submitted ==> final(self).history == old(self).history,
            submitted ==> final(self).history@.len() == old(self).history@.len() + 1,
            submitted ==> forall|i: int|
                0 <= i < old(self).history@.len() ==> final(self).history@[i] == old(
                    self,
                ).history@[i],
            submitted ==> final(self).history@.last().role == ChatRole::User,
            submitted ==> final(self).history@.last().content@
                == old(self).canvas.prompt_domain.holder@,
            final(self).canvas.prompt_domain.buf == old(self).canvas.prompt_domain.buf,
            final(self).canvas.prompt_domain.holder == old(self).canvas.prompt_domain.holder,
            final(self).canvas.prompt_domain.zero == old(self).canvas.prompt_domain.zero,
            final(self).canvas.prompt_domain.size_e == old(self).canvas.prompt_domain.size_e,
            final(self).canvas.prompt_domain.indices == old(self).canvas.prompt_domain.indices,
            final(self).canvas.prompt_domain.newline_index
                == old(self).canvas.prompt_domain.newline_index,
            final(self).canvas.response_domain == old(self).canvas.response_domain,
            final(self).canvas.size == old(self).canvas.size,
            final(self).canvas.window_newline_index == old(self).canvas.window_newline_index,
            final(self).status == old(self).status,
            final(self).loading == old(self).loading,
    {
        if self.canvas.prompt_domain.is_submit {
            self.handle_buf();
            self.canvas.prompt_domain.is_submit = false;
            true
        } else {
            false
        }
    }
}

/// The response buffer after the stream step of a frame: the piece of answer
/// is appended when one is awaited and one arrived; otherwise it stays.
pub open spec fn response_after_frame(buf: Seq<char>, is_done: bool, piece: Option<Seq<char>>) -> Seq<char> {
    match piece {
        Some(p) => if !is_done {
            buf + p
        } else {
            buf
        },
        None => buf,
    }
}

/// Whether the submit flag is up when a frame ends: the event of the frame
/// decides it when there is one, otherwise it stays as the frame began.
pub open spec fn submits_in_frame(flag_at_start: bool, event: Option<InputEvent>) -> bool {
    match event {
        Some(e) => is_submit_event(e),
        None => flag_at_start,
    }
}

/// The piece's view, when there is one.
pub open spec fn piece_view(piece: Option<&str>) -> Option<Seq<char>> {
    match piece {
        Some(p) => Some(p@),
        None => None,
    }
}

impl State {
    /// The start of one frame of the session loop: handles the event, if the
    /// terminal gave one. The submit flag then says whether this frame
    /// submits; the response domain is untouched.
    pub fn begin_frame(&mut self, event: Option<InputEvent>) -> (outcome: EventOutcome)
        ensures
            final(self).canvas.prompt_domain.is_submit == submits_in_frame(
                old(self).canvas.prompt_domain.is_submit,
                event,
            ),
            final(self).canvas.response_domain == old(self).canvas.response_domain,
            final(self).history == old(self).history,
            final(self).status == old(self).status,
            final(self).loading == old(self).loading,
            match event {
                Some(e) => {
                    &&& final(self).canvas.prompt_domain.buf@ == prompt_after(
                        old(self).canvas.prompt_domain.buf@,
                        e,
                    )
                    &&& final(self).canvas.prompt_domain.holder@ == if is_submit_event(e) {
                        old(self).canvas.prompt_domain.buf@
                    } else {
                        old(self).canvas.prompt_domain.holder@
                    }
                    &&& final(self).canvas.size == size_after(old(self).canvas.size, e)
                    &&& final(self).canvas.prompt_domain.zero == old(self).canvas.prompt_domain.zero
                    &&& final(self).canvas.prompt_domain.size_e
                        == old(self).canvas.prompt_domain.size_e
                    &&& final(self).canvas.prompt_domain.indices
                        == old(self).canvas.prompt_domain.indices
                    &&& final(self).canvas.prompt_domain.newline_index
                        == old(self).canvas.prompt_domain.newline_index
                    &&& final(self).canvas.window_newline_index
                        == old(self).canvas.window_newline_index
                    &&& (outcome is Quit <==> is_quit_event(e))
                    &&& (outcome matches EventOutcome::Quit(msg) ==> msg@ == quit_message(
                        old(self).canvas.prompt_domain.buf@,
                    ))
                },
                None => {
                    &&& final(self).canvas == old(self).canvas
                    &&& outcome is Continue
                },
            },
    {
        match event {
            Some(e) => self.handle_event(e),
            None => EventOutcome::Continue,
        }
    }

    /// The end of one frame of the session loop, after the screen was drawn:
    /// the stream step (a piece of answer is appended when an answer is
    /// awaited), then the submission, if the prompt was submitted (recorded
    /// in the conversation and the flag cleared). Says whether the
    /// conversation is to be sent.
    pub fn finish_frame(&mut self, piece: Option<&str>) -> (submitted: bool)
        ensures
            final(self).canvas.response_domain.buf@ == response_after_frame(
                old(self).canvas.response_domain.buf@,
                old(self).canvas.response_domain.is_done,
                piece_view(piece),
            ),
            final(self).canvas.response_domain.is_done == old(self).canvas.response_domain.is_done,
            submitted == old(self).canvas.prompt_domain.is_submit,
            !final(self).canvas.prompt_domain.is_submit,
            !submitted ==> final(self).history == old(self).history,
            submitted ==> final(self).history@.len() == old(self).history@.len() + 1,
            submitted ==> forall|i: int|
                0 <= i < old(self).history@.len() ==> final(self).history@[i] == old(
                    self,
                ).history@[i],
            submitted ==> final(self).history@.last().role == ChatRole::User,
            submitted ==> final(self).history@.last().content@
                == old(self).canvas.prompt_domain.holder@,
            final(self).canvas.prompt_domain.buf == old(self).canvas.prompt_domain.buf,
            final(self).canvas.prompt_domain.holder == old(self).canvas.prompt_domain.holder,
            final(self).canvas.prompt_domain.zero == old(self).canvas.prompt_domain.zero,
            final(self).canvas.prompt_domain.size_e == old(self).canvas.prompt_domain.size_e,
            final(self).canvas.response_domain.zero == old(self).canvas.response_domain.zero,
            final(self).canvas.response_domain.size_e == old(self).canvas.response_domain.size_e,
            final(self).canvas.prompt_domain.indices == old(self).canvas.prompt_domain.indices,
            final(self).canvas.prompt_domain.newline_index
                == old(self).canvas.prompt_domain.newline_index,
            final(self).canvas.response_domain.holder == old(self).canvas.response_domain.holder,
            final(self).canvas.response_domain.indices == old(self).canvas.response_domain.indices,
            final(self).canvas.response_domain.newline_index
                == old(self).canvas.response_domain.newline_index,
            final(self).canvas.window_newline_index == old(self).canvas.window_newline_index,
            final(self).canvas.size == old(self).canvas.size,
            final(self).status == old(self).status,
            final(self).loading == old(self).loading,
    {
        if self.awaiting_response() {
            match piece {
                Some(content) => self.receive_chunk(content),
                None => {},
            }
        }
        self.take_submission()
    }
}

/// Across a frame the response buffer only grows by appending: what it held
/// when the frame began stays its prefix. Handling the frame's event and
/// laying the screen out keep it unchanged, by their contracts.
pub proof fn response_grows_by_appending(buf: Seq<char>, is_done: bool, piece: Option<Seq<char>>)
    ensures
        buf.is_prefix_of(response_after_frame(buf, is_done, piece)),
        !is_done && piece is Some ==> response_after_frame(buf, is_done, piece) == buf
            + piece->0,
        is_done || piece is None ==> response_after_frame(buf, is_done, piece) == buf,
{
    match piece {
        Some(p) => {
            if !is_done {
                assert((buf + p).subrange(0, buf.len() as int) =~= buf);
            }
        },
        None => {},
    }
}

/// A frame that begins with the submit flag down (as every frame after
/// `finish_frame`, and the first on a fresh canvas, does) sends the
/// conversation exactly when its event is Control-S.
pub proof fn submission_taken_in_its_frame(event: Option<InputEvent>)
    ensures
        submits_in_frame(false, event) <==> event == Some(
            InputEvent::Key { code: KeyInput::Char('s'), control: true },
        ),
{
}

/// The label drawn at the start of the status line: `STATUS:` in white on purple.
pub fn status_label() -> (res: String)
    ensures
        res@ == status_styled("STATUS:"@),
{
    let on_purple = color_bg("STATUS:", Color::HighIntensityBgPurple);
    color_fg(on_purple.as_str(), Color::HighIntensityWhite)
}

/// Control changes nothing but for `s` and `c`: Enter adds exactly one
/// newline, Backspace removes the last character (if any), another character
/// is added, and other keys and events leave the prompt, whether Control is
/// held or not.
pub proof fn control_matters_only_for_s_and_c(buf: Seq<char>, control: bool, x: char)
    ensures
        prompt_after(buf, InputEvent::Key { code: KeyInput::Enter, control }) == buf + seq!['\n'],
        prompt_after(buf, InputEvent::Key { code: KeyInput::Backspace, control }) == buf.subrange(
            0,
            if buf.len() > 0 {
                buf.len() - 1
            } else {
                0
            },
        ),
        x != 's' && x != 'c' ==> prompt_after(
            buf,
            InputEvent::Key { code: KeyInput::Char(x), control },
        ) == buf + seq![x],
        prompt_after(buf, InputEvent::Key { code: KeyInput::Other, control }) == buf,
        forall|w: u16, h: u16| #[trigger] prompt_after(buf, InputEvent::Resize(w, h)) == buf,
        prompt_after(buf, InputEvent::Other) == buf,
        !control ==> prompt_after(buf, InputEvent::Key { code: KeyInput::Char(x), control })
            == buf + seq![x],
{
    assert(buf.push('\n') =~= buf + seq!['\n']);
    assert(buf.push(x) =~= buf + seq![x]);
    if buf.len() > 0 {
        assert(buf.drop_last() =~= buf.subrange(0, buf.len() - 1));
    } else {
        assert(buf =~= buf.subrange(0, 0));
    }
}

/// The status line is centred on the terminal's width: its column plus half
/// its byte length is half the width, for every width it fits in.
pub proof fn status_is_centred(width: u16, status: Seq<char>)
    requires
        status_fits(width, status),
    ensures
        status_column_of(width, status) as int + (byte_len(status) / 2) as u16 as int == width as int
            / 2,
{
}

/// The status line after a layout reads `term size: `, the width in decimal,
/// `x`, and the height in decimal; the quit message is its fixed text
/// followed by the prompt.
pub proof fn status_and_quit_texts(size: (u16, u16), buf: Seq<char>)
    ensures
        size_status(size) == seq!['t', 'e', 'r', 'm', ' ', 's', 'i', 'z', 'e', ':', ' '] + decimal(
            size.0 as nat,
        ) + seq!['x'] + decimal(size.1 as nat),
        quit_message(buf) == seq![
            'c', 't', 'r', 'l', ' ', 'c', ' ', 'p', 'r', 'e', 's', 's', 'e', 'd', '!', ' ',
            'f', 'i', 'n', 'a', 'l', ' ', 's', 't', 'r', 'i', 'n', 'g', ':', '\n',
        ] + buf,
{
    reveal_strlit("term size: ");
    reveal_strlit("ctrl c pressed! final string:\n");
    assert("term size: "@ =~= seq!['t', 'e', 'r', 'm', ' ', 's', 'i', 'z', 'e', ':', ' ']);
    assert("ctrl c pressed! final string:\n"@ =~= seq![
        'c', 't', 'r', 'l', ' ', 'c', ' ', 'p', 'r', 'e', 's', 's', 'e', 'd', '!', ' ',
        'f', 'i', 'n', 'a', 'l', ' ', 's', 't', 'r', 'i', 'n', 'g', ':', '\n',
    ]);
}

/// The status line is drawn in high-intensity white (code 97) on a
/// high-intensity purple background (code 105).
pub proof fn status_is_white_on_purple(text: Seq<char>)
    ensures
        status_styled(text) == sgr(seq!['9', '7'], sgr(seq!['1', '0', '5'], text)),
{
    background_codes_are_ansi(text);
    foreground_codes_are_ansi(sgr(seq!['1', '0', '5'], text));
}

/// Submitting is Control-S and quitting is Control-C, nothing else; a resize
/// sets the size to the new one and every other event keeps it.
pub proof fn event_meanings(event: InputEvent, size: (u16, u16), w: u16, h: u16)
    ensures
        is_submit_event(event) <==> event == (InputEvent::Key {
            code: KeyInput::Char('s'),
            control: true,
        }),
        is_quit_event(event) <==> event == (InputEvent::Key {
            code: KeyInput::Char('c'),
            control: true,
        }),
        size_after(size, InputEvent::Resize(w, h)) == (w, h),
        !(event is Resize) ==> (size_after(size, event) == size),
{
}

/// The separator bar is the box cell repeated: its length is the width times
/// the cell's length, and one more column adds one more cell at the end.
pub proof fn repeat_has_one_copy_per_column(s: Seq<char>, n: nat)
    ensures
        repeat(s, n).len() == n * s.len(),
        repeat(s, n + 1) == repeat(s, n) + s,
        repeat(s, 0) == Seq::<char>::empty(),
    decreases n,
{
    if n > 0 {
        repeat_has_one_copy_per_column(s, (n - 1) as nat);
        assert(n * s.len() == (n - 1) * s.len() + s.len()) by (nonlinear_arith);
    }
}

/// Typing a plain character and then Backspace leaves the prompt as it was.
pub proof fn backspace_undoes_typing(buf: Seq<char>, x: char)
    ensures
        prompt_after(
            prompt_after(buf, InputEvent::Key { code: KeyInput::Char(x), control: false }),
            InputEvent::Key { code: KeyInput::Backspace, control: false },
        ) == buf,
        prompt_after(
            prompt_after(buf, InputEvent::Key { code: KeyInput::Enter, control: false }),
            InputEvent::Key { code: KeyInput::Backspace, control: false },
        ) == buf,
{
    assert(buf.push(x).drop_last() =~= buf);
    assert(buf.push('\n').drop_last() =~= buf);
}

/// The prompt after typing each character of `text` in turn, without Control.
pub open spec fn type_text(buf: Seq<char>, text: Seq<char>) -> Seq<char>
    decreases text.len(),
{
    if text.len() == 0 {
        buf
    } else {
        type_text(
            prompt_after(buf, InputEvent::Key { code: KeyInput::Char(text[0]), control: false }),
            text.drop_first(),
        )
    }
}

/// Typing a text character by character, without Control, appends it to the prompt.
pub proof fn typing_appends(buf: Seq<char>, text: Seq<char>)
    ensures
        type_text(buf, text) == buf + text,
    decreases text.len(),
{
    if text.len() == 0 {
        assert(buf + text =~= buf);
    } else {
        typing_appends(buf.push(text[0]), text.drop_first());
        assert(buf.push(text[0]) + text.drop_first() =~= buf + text);
    }
}

/// Control-S clears the prompt whatever it held, and only Control-C leaves it
/// unchanged among the character keys pressed with Control.
pub proof fn submit_clears_prompt(buf: Seq<char>)
    ensures
        prompt_after(buf, InputEvent::Key { code: KeyInput::Char('s'), control: true })
            == Seq::<char>::empty(),
        prompt_after(buf, InputEvent::Key { code: KeyInput::Char('c'), control: true }) == buf,
{
}

} // verus!
