//! The player's input buffer and special-ability charge.
use crate::grid::{CloudDir, INIT_POS};
use vstd::prelude::*;

verus! {

/// Capacity of the input buffer.
pub const MAX_BUFFER_INPUT: usize = 2;
/// Special inputs needed to trigger the special ability.
pub const SPECIAL_ACTIVATION_NB: u8 = 2;
/// Player turns after which an incomplete special charge decays.
pub const SPECIAL_TIMEOUT: u8 = 4;

/// One discrete intent of the player.
#[derive(Clone, Copy, Debug, PartialEq, Eq, Structural)]
pub enum GameControl {
    Idle,
    Up,
    Down,
    Left,
    Right,
    Special,
}

/// The intent delivered by the input collaborator this frame.
pub struct Actions {
    pub next_action: GameControl,
}

pub open spec fn is_direction(c: GameControl) -> bool {
    match c {
        GameControl::Up | GameControl::Down | GameControl::Left | GameControl::Right => true,
        _ => false,
    }
}

pub open spec fn control_dir(c: GameControl) -> CloudDir
    recommends
        is_direction(c),
{
    match c {
        GameControl::Up => CloudDir::Up,
        GameControl::Down => CloudDir::Down,
        GameControl::Left => CloudDir::Left,
        _ => CloudDir::Right,
    }
}

/// The buffer after `input` arrives: it fills the first idle slot; on a
/// full buffer a direction restarts it and a special takes the last slot; a
/// direction always drops a queued special.
pub open spec fn buffer_after_input(b: Seq<GameControl>, input: GameControl) -> Seq<GameControl> {
    if input == GameControl::Idle {
        b
    } else if is_direction(input) && (b[0] == GameControl::Special || b[1]
        == GameControl::Special) {
        seq![input, GameControl::Idle]
    } else if b[0] == GameControl::Idle {
        seq![input, b[1]]
    } else if b[1] == GameControl::Idle {
        seq![b[0], input]
    } else if is_direction(input) {
        seq![input, GameControl::Idle]
    } else {
        seq![b[0], input]
    }
}

/// Contains the info about the player. The buffer is a FIFO, with the
/// oldest element at index 0.
pub struct PlayerControl {
    pub input_buffer: [GameControl; MAX_BUFFER_INPUT],
    pub special_control: u8,
    pub player_pos: [i8; 2],
    pub special_timeout: u8,
}

impl PlayerControl {
    pub open spec fn wf(&self) -> bool {
        &&& self.special_control < SPECIAL_ACTIVATION_NB
        &&& self.special_timeout < SPECIAL_TIMEOUT
    }

    /// The player's state at the start of a run.
    pub fn new() -> (r: PlayerControl)
        ensures
            r.wf(),
            r.input_buffer@ == seq![GameControl::Idle, GameControl::Idle],
            r.player_pos == INIT_POS,
            r.special_control == 0,
            r.special_timeout == 0,
    {
        let r = PlayerControl {
            input_buffer: [GameControl::Idle, GameControl::Idle],
            special_control: 0,
            player_pos: INIT_POS,
            special_timeout: 0,
        };
        assert(r.input_buffer@ =~= seq![GameControl::Idle, GameControl::Idle]);
        r
    }

    /// Take the oldest buffered action; the rest moves up.
    pub fn pop_action(&mut self) -> (r: GameControl)
        ensures
            r == old(self).input_buffer[0],
            final(self).input_buffer@ == seq![old(self).input_buffer[1], GameControl::Idle],
            final(self).special_control == old(self).special_control,
            final(self).special_timeout == old(self).special_timeout,
            final(self).player_pos == old(self).player_pos,
    {
        let r = self.input_buffer[0];
        self.input_buffer = [self.input_buffer[1], GameControl::Idle];
        assert(self.input_buffer@ =~= seq![old(self).input_buffer[1], GameControl::Idle]);
        r
    }
}

/// Add the intent of this frame to the player's buffer, and consume it.
pub fn fill_player_buffer(actions: &mut Actions, player_control: &mut PlayerControl)
    requires
        old(player_control).wf(),
    ensures
        final(player_control).wf(),
        final(actions).next_action == GameControl::Idle,
        final(player_control).input_buffer@ == buffer_after_input(
            old(player_control).input_buffer@,
            old(actions).next_action,
        ),
        final(player_control).special_control == if is_direction(old(actions).next_action) {
            0
        } else {
            old(player_control).special_control
        },
        final(player_control).special_timeout == old(player_control).special_timeout,
        final(player_control).player_pos == old(player_control).player_pos,
{
    let input = actions.next_action;
    let b0 = player_control.input_buffer[0];
    let b1 = player_control.input_buffer[1];
    let is_dir = match input {
        GameControl::Up | GameControl::Down | GameControl::Left | GameControl::Right => true,
        _ => false,
    };
    if input != GameControl::Idle {
        if is_dir {
            // Every direction resets the special charge.
            player_control.special_control = 0;
        }
        let new_buffer: [GameControl; MAX_BUFFER_INPUT] = if is_dir && (b0 == GameControl::Special
            || b1 == GameControl::Special) {
            [input, GameControl::Idle]
        } else if b0 == GameControl::Idle {
            [input, b1]
        } else if b1 == GameControl::Idle {
            [b0, input]
        } else if is_dir {
            [input, GameControl::Idle]
        } else {
            [b0, input]
        };
        player_control.input_buffer = new_buffer;
    }
    actions.next_action = GameControl::Idle;
    assert(player_control.input_buffer@ =~= buffer_after_input(
        old(player_control).input_buffer@,
        old(actions).next_action,
    ));
}

} // verus!
