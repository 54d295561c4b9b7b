//! Session state and the input-matching engine: which texts are played in
//! which order, how far the current one has been typed, and how a single
//! input event (a character, Enter, or Tab) is judged against the expected
//! next character.

use vstd::prelude::*;

use crate::color::DisplayColor;
use crate::color::rainbow_wheel;
use crate::color::spec_rainbow_wheel;
use crate::render::count_newlines;
use crate::render::scroll_row;
use crate::text::Program;

verus! {

/// One logical input event, as the input collaborator delivers it.
#[derive(Clone, Copy, Debug)]
pub enum InputEvent {
    Char(char),
    Enter,
    Tab,
}

/// The judgement of one input event against the expected next character.
#[derive(Clone, Copy, Debug, PartialEq, Eq, Structural)]
pub enum Outcome {
    Correct,
    Incorrect,
    Completed,
}

/// What `advance_on_finished` decided.
#[derive(Clone, Copy, Debug, PartialEq, Eq, Structural)]
pub enum AdvanceOutcome {
    StillTyping,
    Advanced,
    SessionEnded,
}

/// The character an event must meet in the target text to count as correct:
/// Enter stands for a newline, Tab for a tab.
pub open spec fn event_char(ev: InputEvent) -> char {
    match ev {
        InputEvent::Char(c) => c,
        InputEvent::Enter => '\n',
        InputEvent::Tab => '\t',
    }
}

/// The judgement of `ev` against `content` at typed position `typed.len()`:
/// past the end the text is complete; at the expected character the event is
/// correct; anywhere else it is incorrect.
pub open spec fn spec_outcome(content: Seq<char>, typed: Seq<char>, ev: InputEvent) -> Outcome {
    if typed.len() >= content.len() {
        Outcome::Completed
    } else if content[typed.len() as int] == event_char(ev) {
        Outcome::Correct
    } else {
        Outcome::Incorrect
    }
}

/// The typed progress after feeding `ev`: a correct event appends the
/// matched character, an incorrect one removes the last typed character as a
/// penalty (a no-op on empty progress), and a completed text is untouched.
pub open spec fn spec_typed_after(content: Seq<char>, typed: Seq<char>, ev: InputEvent) -> Seq<
    char,
> {
    match spec_outcome(content, typed, ev) {
        Outcome::Completed => typed,
        Outcome::Correct => typed.push(event_char(ev)),
        Outcome::Incorrect => if typed.len() == 0 {
            typed
        } else {
            typed.drop_last()
        },
    }
}

/// The whole session: the ordered texts, the active index, the typed
/// progress of the active text, and the transient color state of the
/// fast-typing reward.
#[derive(Debug)]
pub struct App {
    pub programs: Vec<Program>,
    pub current: usize,
    pub finished: bool,
    pub typed: Vec<char>,
    pub wheel_pos: u8,
    pub rainbow: bool,
    pub typed_color: DisplayColor,
    pub last_typed_millis: i64,
}

/// A serializable snapshot of a session: the names of the texts, the active
/// index, the typed prefix of the active text only, and when the snapshot
/// was taken (milliseconds since the Unix epoch).
#[derive(Debug)]
pub struct Save {
    pub programs: Vec<String>,
    pub current: usize,
    pub typed: Vec<char>,
    pub time_saved: i64,
}

/// What a snapshot holds of the session it was taken from.
pub open spec fn save_of(s: Save, app: App) -> bool {
    &&& s.programs@.len() == app.programs@.len()
    &&& forall|i: int|
        0 <= i < app.programs@.len() ==> (#[trigger] s.programs@[i])@ == app.programs@[i].name@
    &&& s.current == app.current
    &&& s.typed@ == app.typed@
}

/// What a session restored from texts, an active index, and a typed prefix
/// looks like: progress carried over, everything transient reset.
pub open spec fn restored_of(app: App, programs: Seq<Program>, current: usize, typed: Seq<
    char,
>) -> bool {
    &&& app.programs@ == programs
    &&& app.current == current
    &&& app.typed@ == typed
    &&& !app.finished
    &&& app.wheel_pos == 0
    &&& !app.rainbow
    &&& app.typed_color == DisplayColor::Yellow
    &&& app.last_typed_millis >= 0
}

/// Relies on chrono's `Utc::now` together with `DateTime::timestamp_millis`
/// for the current wall-clock time in milliseconds since the Unix epoch.
/// `Utc::now` itself refuses (by panicking) a system clock set before the
/// epoch, so the result is never negative; beyond that nothing is promised
/// of a clock reading.
#[verifier::external_body]
fn now_unix_millis() -> (t: i64)
    ensures
        t >= 0,
{
    chrono::Utc::now().timestamp_millis()
}

impl App {
    /// The session invariant: the active index names one of the texts, and
    /// the last-correct-input instant is a valid timestamp.
    pub open spec fn wf(&self) -> bool {
        &&& (self.current as int) < self.programs@.len()
        &&& self.last_typed_millis >= 0
    }

    /// The content of the active text, as the contracts speak of it.
    pub open spec fn current_content(&self) -> Seq<char> {
        self.programs@[self.current as int]@.content
    }

    /// Builds a session over `programs`, starting at text `current` with
    /// `typed` characters of it already confirmed, as when a saved session
    /// is resumed. A fresh session is the special case of index zero and
    /// empty progress.
    pub fn restore(programs: Vec<Program>, current: usize, typed: Vec<char>) -> (app: App)
        requires
            (current as int) < programs@.len(),
        ensures
            restored_of(app, programs@, current, typed@),
            app.wf(),
    {
        let last_typed_millis = now_unix_millis();
        App {
            programs,
            current,
            finished: false,
            typed,
            wheel_pos: 0,
            rainbow: false,
            typed_color: DisplayColor::Yellow,
            last_typed_millis,
        }
    }

    /// The active text, or `None` when there is none to point at.
    pub fn get_current(&self) -> (r: Option<Program>)
        ensures
            match r {
                Some(p) => (self.current as int) < self.programs@.len() && p@ == self.programs@[
                    self.current as int
                ]@,
                None => (self.current as int) >= self.programs@.len(),
            },
    {
        if self.current < self.programs.len() {
            Some(self.programs[self.current].clone())
        } else {
            None
        }
    }

    /// The next character the user has to type, or `None` when the active
    /// text is fully consumed. Offsets count characters, never bytes.
    pub fn expected_char(&self) -> (r: Option<char>)
        requires
            self.wf(),
        ensures
            r == (if self.typed@.len() < self.current_content().len() {
                Some(self.current_content()[self.typed@.len() as int])
            } else {
                None::<char>
            }),
    {
        let content = &self.programs[self.current].content;
        if self.typed.len() < content.len() {
            Some(content[self.typed.len()])
        } else {
            None
        }
    }

    /// Applies the error penalty: the last typed character is removed, if
    /// there is one. The caller emits the matching "incorrect" sound intent.
    pub fn play_error_sound(&mut self)
        ensures
            final(self).typed@ == (if old(self).typed@.len() == 0 {
                old(self).typed@
            } else {
                old(self).typed@.drop_last()
            }),
            final(self).programs == old(self).programs,
            final(self).current == old(self).current,
            final(self).finished == old(self).finished,
            final(self).wheel_pos == old(self).wheel_pos,
            final(self).rainbow == old(self).rainbow,
            final(self).typed_color == old(self).typed_color,
            final(self).last_typed_millis == old(self).last_typed_millis,
    {
        if self.typed.len() > 0 {
            self.typed.pop();
        }
    }

    /// Records the instant of a correct input, which feeds the fast-typing
    /// reward window. The caller emits the matching "correct" sound intent.
    pub fn play_correct_sound(&mut self)
        ensures
            final(self).last_typed_millis >= 0,
            final(self).programs == old(self).programs,
            final(self).current == old(self).current,
            final(self).finished == old(self).finished,
            final(self).typed == old(self).typed,
            final(self).wheel_pos == old(self).wheel_pos,
            final(self).rainbow == old(self).rainbow,
            final(self).typed_color == old(self).typed_color,
    {
        self.last_typed_millis = now_unix_millis();
    }

    /// Judges one input event against the expected next character of the
    /// active text and applies the matching state change.
    pub fn handle_event(&mut self, ev: InputEvent) -> (r: Outcome)
        requires
            old(self).wf(),
        ensures
            final(self).wf(),
            r == spec_outcome(old(self).current_content(), old(self).typed@, ev),
            final(self).typed@ == spec_typed_after(old(self).current_content(), old(self).typed@, ev),
            final(self).finished == (old(self).finished || r == Outcome::Completed),
            final(self).programs == old(self).programs,
            final(self).current == old(self).current,
            final(self).wheel_pos == old(self).wheel_pos,
            final(self).rainbow == old(self).rainbow,
            final(self).typed_color == old(self).typed_color,
            r == Outcome::Correct ==> final(self).last_typed_millis >= 0,
            r != Outcome::Correct ==> final(self).last_typed_millis == old(self).last_typed_millis,
    {
        let guess: char = match ev {
            InputEvent::Char(c) => c,
            InputEvent::Enter => '\n',
            InputEvent::Tab => '\t',
        };
        match self.expected_char() {
            Some(expected) => {
                if expected == guess {
                    self.typed.push(guess);
                    self.play_correct_sound();
                    Outcome::Correct
                } else {
                    self.play_error_sound();
                    Outcome::Incorrect
                }
            },
            None => {
                self.finished = true;
                Outcome::Completed
            },
        }
    }

    /// Judges a plain character event.
    pub fn check_char_guess(&mut self, c: char) -> (r: Outcome)
        requires
            old(self).wf(),
        ensures
            final(self).wf(),
            r == spec_outcome(old(self).current_content(), old(self).typed@, InputEvent::Char(c)),
            final(self).typed@ == spec_typed_after(
                old(self).current_content(),
                old(self).typed@,
                InputEvent::Char(c),
            ),
            final(self).finished == (old(self).finished || r == Outcome::Completed),
            final(self).programs == old(self).programs,
            final(self).current == old(self).current,
    {
        self.handle_event(InputEvent::Char(c))
    }

    /// Judges an Enter event, which matches exactly a newline in the text.
    pub fn check_enter_guess(&mut self) -> (r: Outcome)
        requires
            old(self).wf(),
        ensures
            final(self).wf(),
            r == spec_outcome(old(self).current_content(), old(self).typed@, InputEvent::Enter),
            final(self).typed@ == spec_typed_after(
                old(self).current_content(),
                old(self).typed@,
                InputEvent::Enter,
            ),
            final(self).finished == (old(self).finished || r == Outcome::Completed),
            final(self).programs == old(self).programs,
            final(self).current == old(self).current,
    {
        self.handle_event(InputEvent::Enter)
    }

    /// Judges a Tab event, which matches exactly a tab in the text.
    pub fn check_tab_guess(&mut self) -> (r: Outcome)
        requires
            old(self).wf(),
        ensures
            final(self).wf(),
            r == spec_outcome(old(self).current_content(), old(self).typed@, InputEvent::Tab),
            final(self).typed@ == spec_typed_after(
                old(self).current_content(),
                old(self).typed@,
                InputEvent::Tab,
            ),
            final(self).finished == (old(self).finished || r == Outcome::Completed),
            final(self).programs == old(self).programs,
            final(self).current == old(self).current,
    {
        self.handle_event(InputEvent::Tab)
    }

    /// One draw tick at wall-clock `now_millis`: while the reward window is
    /// open the wheel advances and recolors the typed text, otherwise the
    /// color falls back to the fixed normal one; then the window is
    /// re-evaluated against the most recent correct input.
    pub fn tick(&mut self, now_millis: i64)
        requires
            old(self).last_typed_millis >= 0,
        ensures
            old(self).rainbow ==> final(self).wheel_pos == ((old(self).wheel_pos + 10) % 256) as u8
                && final(self).typed_color == spec_rainbow_wheel(final(self).wheel_pos),
            !old(self).rainbow ==> final(self).wheel_pos == old(self).wheel_pos
                && final(self).typed_color == DisplayColor::Yellow,
            final(self).rainbow == (old(self).last_typed_millis <= now_millis
                && now_millis <= old(self).last_typed_millis + 80),
            final(self).programs == old(self).programs,
            final(self).current == old(self).current,
            final(self).finished == old(self).finished,
            final(self).typed == old(self).typed,
            final(self).last_typed_millis == old(self).last_typed_millis,
    {
        if self.rainbow {
            let advanced: u16 = self.wheel_pos as u16 + 10;
            self.wheel_pos = (advanced % 256) as u8;
            self.typed_color = rainbow_wheel(self.wheel_pos);
        } else {
            self.typed_color = DisplayColor::Yellow;
        }
        self.rainbow = now_millis >= self.last_typed_millis && now_millis - self.last_typed_millis
            <= 80;
    }

    /// When the active text is finished: the session ends on the last text,
    /// otherwise play moves to the next text with fresh progress. Before the
    /// active text is finished nothing changes.
    pub fn advance_on_finished(&mut self) -> (r: AdvanceOutcome)
        requires
            old(self).wf(),
        ensures
            final(self).wf(),
            !old(self).finished ==> r == AdvanceOutcome::StillTyping && *final(self) == *old(self),
            old(self).finished && old(self).current + 1 == old(self).programs@.len() ==> r
                == AdvanceOutcome::SessionEnded && *final(self) == *old(self),
            old(self).finished && old(self).current + 1 < old(self).programs@.len() ==> r
                == AdvanceOutcome::Advanced
                && final(self).current == old(self).current + 1
                && !final(self).finished
                && final(self).typed@ == Seq::<char>::empty()
                && final(self).programs == old(self).programs
                && final(self).wheel_pos == old(self).wheel_pos
                && final(self).rainbow == old(self).rainbow
                && final(self).typed_color == old(self).typed_color
                && final(self).last_typed_millis == old(self).last_typed_millis,
    {
        if !self.finished {
            return AdvanceOutcome::StillTyping;
        }
        if self.current == self.programs.len() - 1 {
            AdvanceOutcome::SessionEnded
        } else {
            self.current = self.current + 1;
            self.finished = false;
            self.typed = Vec::new();
            AdvanceOutcome::Advanced
        }
    }

    /// The renderer's scroll position: the row is the number of completed
    /// lines in the typed progress, the column is always zero.
    pub fn get_cursor_position(&self, _tab_char: &str) -> (r: (u16, u16))
        requires
            self.typed@.len() <= u16::MAX,
        ensures
            r.0 == count_newlines(self.typed@),
            r.1 == 0,
    {
        (scroll_row(&self.typed), 0)
    }
}

impl Save {
    /// Takes a snapshot of a session without changing it.
    pub fn new(app: &App) -> (s: Save)
        ensures
            save_of(s, *app),
            s.time_saved >= 0,
    {
        let mut programs: Vec<String> = Vec::new();
        let mut i: usize = 0;
        while i < app.programs.len()
            invariant
                i <= app.programs@.len(),
                programs@.len() == i,
                forall|k: int|
                    0 <= k < i ==> (#[trigger] programs@[k])@ == app.programs@[k].name@,
            decreases app.programs@.len() - i,
        {
            programs.push(app.programs[i].name.clone());
            i += 1;
        }
        let typed = app.typed.clone();
        proof {
            assert(typed@ =~= app.typed@);
        }
        Save { programs, current: app.current, typed, time_saved: now_unix_millis() }
    }
}

/// Restoring a snapshot reconstructs the progress it recorded: whatever
/// texts are loaded for the saved names, the restored session resumes at the
/// saved index with exactly the saved typed prefix, so its typed length
/// equals the snapshotted session's.
pub proof fn lemma_save_round_trip(app: App, s: Save, programs: Seq<Program>, restored: App)
    requires
        save_of(s, app),
        restored_of(restored, programs, s.current, s.typed@),
    ensures
        restored.typed@ == app.typed@,
        restored.typed@.len() == app.typed@.len(),
        restored.current == app.current,
{
}

/// Feeding the event that matches the expected next character of an
/// unfinished text is always judged `Correct` and grows the typed progress
/// by exactly that character.
pub proof fn lemma_matching_event_advances(content: Seq<char>, typed: Seq<char>, ev: InputEvent)
    requires
        typed.len() < content.len(),
        event_char(ev) == content[typed.len() as int],
    ensures
        spec_outcome(content, typed, ev) == Outcome::Correct,
        spec_typed_after(content, typed, ev) == typed.push(content[typed.len() as int]),
        spec_typed_after(content, typed, ev).len() == typed.len() + 1,
{
}

/// Feeding any event that does not match the expected next character of an
/// unfinished text is always judged `Incorrect` and never grows the typed
/// progress.
pub proof fn lemma_mismatch_never_advances(content: Seq<char>, typed: Seq<char>, ev: InputEvent)
    requires
        typed.len() < content.len(),
        event_char(ev) != content[typed.len() as int],
    ensures
        spec_outcome(content, typed, ev) == Outcome::Incorrect,
        spec_typed_after(content, typed, ev).len() <= typed.len(),
{
}

/// Once the typed progress covers the whole text, every further event is
/// judged `Completed` and the progress stays exactly as it is.
pub proof fn lemma_completed_leaves_progress(content: Seq<char>, typed: Seq<char>, ev: InputEvent)
    requires
        typed.len() >= content.len(),
    ensures
        spec_outcome(content, typed, ev) == Outcome::Completed,
        spec_typed_after(content, typed, ev) == typed,
{
}

} // verus!
