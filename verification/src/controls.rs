use vstd::prelude::*;

verus! {

/// Whether the game is still being set up, paused, or running.
#[derive(Clone, Copy, Debug, PartialEq, Eq, Structural)]
pub enum GameState {
    Starting,
    Paused,
    Running,
}

impl Default for GameState {
    fn default() -> (s: Self)
        ensures
            s == GameState::Starting,
    {
        GameState::Starting
    }
}

/// The text on the run/pause button.
#[derive(Clone, Copy, Debug, PartialEq, Eq, Structural)]
pub enum ButtonLabel {
    Run,
    Pause,
    Loading,
}

impl ButtonLabel {
    /// The words of the label.
    pub open spec fn text_spec(self) -> Seq<char> {
        match self {
            ButtonLabel::Run => "Run"@,
            ButtonLabel::Pause => "Pause"@,
            ButtonLabel::Loading => "Loading..."@,
        }
    }

    /// The words shown on the button.
    pub fn text(&self) -> (s: &'static str)
        ensures
            s@ == self.text_spec(),
    {
        match self {
            ButtonLabel::Run => "Run",
            ButtonLabel::Pause => "Pause",
            ButtonLabel::Loading => "Loading...",
        }
    }
}

/// The label that offers what pressing the button in `state` does.
pub open spec fn label_for(state: GameState) -> ButtonLabel {
    match state {
        GameState::Starting => ButtonLabel::Loading,
        GameState::Paused => ButtonLabel::Run,
        GameState::Running => ButtonLabel::Pause,
    }
}

/// What pausing or resuming does in `state`: the next state and the new label.
/// Nothing happens while the game is starting.
pub open spec fn run_toggle(state: GameState) -> Option<(GameState, ButtonLabel)> {
    match state {
        GameState::Starting => None,
        GameState::Running => Some((GameState::Paused, ButtonLabel::Run)),
        GameState::Paused => Some((GameState::Running, ButtonLabel::Pause)),
    }
}

/// Milliseconds between two generations.
pub struct TickDelay(pub u64);

impl Default for TickDelay {
    fn default() -> (d: Self)
        ensures
            d.0 == 500,
    {
        TickDelay(500)
    }
}

/// The delay after speeding up: 100 ms less, unless that would go below 0.
pub open spec fn faster(d: u64) -> u64 {
    if d >= 100 {
        (d - 100) as u64
    } else {
        d
    }
}

/// The delay after slowing down: 100 ms more, unless it is above 400 already.
pub open spec fn slower(d: u64) -> u64 {
    if d <= 400 {
        (d + 100) as u64
    } else {
        d
    }
}

impl TickDelay {
    /// Shortens the delay by 100 ms, unless that would go below 0.
    pub fn speed_up(&mut self)
        ensures
            final(self).0 == faster(old(self).0),
    {
        if self.0 >= 100 {
            self.0 -= 100;
        }
    }

    /// Lengthens the delay by 100 ms, unless it is above 400 already.
    pub fn slow_down(&mut self)
        ensures
            final(self).0 == slower(old(self).0),
    {
        if self.0 <= 400 {
            self.0 += 100;
        }
    }
}

/// The keys pressed since the last frame that the game listens to.
#[derive(Clone, Copy, Debug, PartialEq, Eq, Structural)]
pub struct KeysPressed {
    /// The space bar: pause or resume.
    pub space: bool,
    /// Minus, on the main keyboard or the keypad: speed up.
    pub minus: bool,
    /// Equals, or plus on the keypad: slow down.
    pub equal: bool,
}

/// Reacts to the keyboard: the space bar pauses or resumes (and the result gives the
/// next state and the button's new label); otherwise minus speeds up and equals
/// slows down. The space bar wins over the others, and minus over equals.
pub fn keyboard_input(keys: KeysPressed, state: GameState, tick_delay: &mut TickDelay) -> (res:
    Option<(GameState, ButtonLabel)>)
    ensures
        keys.space ==> res == run_toggle(state) && final(tick_delay).0 == old(tick_delay).0,
        !keys.space && keys.minus ==> res is None && final(tick_delay).0 == faster(
            old(tick_delay).0,
        ),
        !keys.space && !keys.minus && keys.equal ==> res is None && final(tick_delay).0 == slower(
            old(tick_delay).0,
        ),
        !keys.space && !keys.minus && !keys.equal ==> res is None && final(tick_delay).0 == old(
            tick_delay,
        ).0,
{
    if keys.space {
        match state {
            GameState::Starting => None,
            GameState::Running => Some((GameState::Paused, ButtonLabel::Run)),
            GameState::Paused => Some((GameState::Running, ButtonLabel::Pause)),
        }
    } else if keys.minus {
        tick_delay.speed_up();
        None
    } else if keys.equal {
        tick_delay.slow_down();
        None
    } else {
        None
    }
}

/// How the pointer stands to a button.
#[derive(Clone, Copy, Debug, PartialEq, Eq, Structural)]
pub enum Interaction {
    Pressed,
    Hovered,
    Idle,
}

/// The colours a button is drawn in.
#[derive(Clone, Copy, Debug, PartialEq, Eq, Structural)]
pub enum ButtonLook {
    /// Lighter, with a white border.
    Hovered,
    /// Dark, with a black border.
    Normal,
}

/// What a change of a button's interaction asks for: a state to move to, a new
/// label, new colours, and whether the button's action runs.
#[derive(Clone, Copy, Debug, PartialEq, Eq, Structural)]
pub struct ButtonResponse {
    pub next_state: Option<GameState>,
    pub label: Option<ButtonLabel>,
    pub look: Option<ButtonLook>,
    pub activate: bool,
}

/// The response of the run/pause button to `interaction` in `state`.
pub open spec fn state_button_spec(interaction: Interaction, state: GameState) -> ButtonResponse {
    match interaction {
        Interaction::Pressed => match run_toggle(state) {
            Some((next, label)) => ButtonResponse {
                next_state: Some(next),
                label: Some(label),
                look: None,
                activate: true,
            },
            None => ButtonResponse {
                next_state: None,
                label: Some(ButtonLabel::Loading),
                look: None,
                activate: true,
            },
        },
        Interaction::Hovered => ButtonResponse {
            next_state: None,
            label: None,
            look: Some(ButtonLook::Hovered),
            activate: false,
        },
        Interaction::Idle => ButtonResponse {
            next_state: None,
            label: Some(label_for(state)),
            look: Some(ButtonLook::Normal),
            activate: false,
        },
    }
}

/// The run/pause button: a press pauses or resumes (showing "Loading..." while
/// starting), hovering lightens it, and leaving it restores its colours and the
/// label that names what a press does.
pub fn state_button_update(interaction: Interaction, state: GameState) -> (res: ButtonResponse)
    ensures
        res == state_button_spec(interaction, state),
        interaction != Interaction::Pressed ==> res.next_state is None,
        res.activate == (interaction == Interaction::Pressed),
{
    match interaction {
        Interaction::Pressed => {
            let (next_state, label) = match state {
                GameState::Starting => (None, ButtonLabel::Loading),
                GameState::Paused => (Some(GameState::Running), ButtonLabel::Pause),
                GameState::Running => (Some(GameState::Paused), ButtonLabel::Run),
            };
            ButtonResponse { next_state, label: Some(label), look: None, activate: true }
        },
        Interaction::Hovered => ButtonResponse {
            next_state: None,
            label: None,
            look: Some(ButtonLook::Hovered),
            activate: false,
        },
        Interaction::Idle => {
            let label = match state {
                GameState::Starting => ButtonLabel::Loading,
                GameState::Paused => ButtonLabel::Run,
                GameState::Running => ButtonLabel::Pause,
            };
            ButtonResponse {
                next_state: None,
                label: Some(label),
                look: Some(ButtonLook::Normal),
                activate: false,
            }
        },
    }
}

/// The response of the random and clear buttons to `interaction`.
pub open spec fn action_button_spec(interaction: Interaction) -> ButtonResponse {
    ButtonResponse {
        next_state: None,
        label: None,
        look: match interaction {
            Interaction::Pressed => None,
            Interaction::Hovered => Some(ButtonLook::Hovered),
            Interaction::Idle => Some(ButtonLook::Normal),
        },
        activate: interaction == Interaction::Pressed,
    }
}

/// The random and clear buttons: a press runs the button's action, hovering
/// lightens it, and leaving it restores its colours.
pub fn action_button_update(interaction: Interaction) -> (res: ButtonResponse)
    ensures
        res == action_button_spec(interaction),
        res.next_state is None,
        res.activate == (interaction == Interaction::Pressed),
{
    match interaction {
        Interaction::Pressed => ButtonResponse {
            next_state: None,
            label: None,
            look: None,
            activate: true,
        },
        Interaction::Hovered => ButtonResponse {
            next_state: None,
            label: None,
            look: Some(ButtonLook::Hovered),
            activate: false,
        },
        Interaction::Idle => ButtonResponse {
            next_state: None,
            label: None,
            look: Some(ButtonLook::Normal),
            activate: false,
        },
    }
}

/// F11 shows or hides the frame-rate overlay: the new setting of the overlay when
/// F11 was pressed, which the debug text's visibility follows, and `None` otherwise.
pub fn debug_text_update(f11_pressed: bool, enabled: bool) -> (res: Option<bool>)
    ensures
        res == if f11_pressed { Some(!enabled) } else { None::<bool> },
{
    if f11_pressed {
        Some(!enabled)
    } else {
        None
    }
}

} // verus!
