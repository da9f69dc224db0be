//! The message loops, and the icon in the tray that the program lives behind once its
//! window is closed.

use vstd::prelude::*;

verus! {

/// The command of the tray menu that ends the program.
pub const IDM_EXIT: usize = 1002;

/// What fetching a message came to.
#[derive(Clone, Copy, Debug, PartialEq, Eq, Structural)]
pub enum Pump {
    /// There is a message to be dispatched.
    Dispatch,
    /// The loop is to end.
    Quit,
    /// Fetching failed.
    Fail,
}

/// What a result of fetching means.
pub open spec fn kind_of(result: i32) -> Pump {
    if result > 0 {
        Pump::Dispatch
    } else if result == 0 {
        Pump::Quit
    } else {
        Pump::Fail
    }
}

/// Fetching gives a number above zero for a message, zero at the end, and one below zero
/// for a failure.
pub fn classify_message(result: i32) -> (pump: Pump)
    ensures
        pump == (if result > 0 {
            Pump::Dispatch
        } else if result == 0 {
            Pump::Quit
        } else {
            Pump::Fail
        }),
        pump == kind_of(result),
{
    if result > 0 {
        Pump::Dispatch
    } else if result == 0 {
        Pump::Quit
    } else {
        Pump::Fail
    }
}

/// The loop behind the tray icon goes on.
pub open spec fn goes_on(pump: Pump, should_exit: bool) -> bool {
    pump == Pump::Dispatch && !should_exit
}

/// Whether the loop behind the tray icon goes on: a message was dispatched, and the program
/// is not about to end.
pub fn tray_loop_continues(pump: Pump, should_exit: bool) -> (continues: bool)
    ensures
        continues == (pump == Pump::Dispatch && !should_exit),
        continues == goes_on(pump, should_exit),
{
    match pump {
        Pump::Dispatch => !should_exit,
        _ => false,
    }
}

/// The messages that the tray window answers itself.
#[derive(Clone, Copy, Debug, PartialEq, Eq, Structural)]
pub enum TrayMessage {
    /// Something happened to the icon; whether the right button was released.
    Icon(bool),
    /// A command, with its parameter.
    Command(usize),
    Destroy,
    Other,
}

/// How the tray window answers.
#[derive(Clone, Copy, Debug, PartialEq, Eq, Structural)]
pub enum TrayReply {
    /// Show the menu where the mouse is.
    Menu,
    /// Tell everybody that the program ends, and end the message loop.
    Exit,
    /// Leave it to the system.
    Standard,
}

/// The number of a command: the lower half of the parameter.
pub open spec fn command_number(parameter: usize) -> usize {
    parameter % 0x1_0000
}

/// The answer to a message.
pub open spec fn answer_to(message: TrayMessage) -> TrayReply {
    match message {
        TrayMessage::Icon(right_button_up) => if right_button_up {
            TrayReply::Menu
        } else {
            TrayReply::Standard
        },
        TrayMessage::Command(parameter) => if command_number(parameter) == IDM_EXIT {
            TrayReply::Exit
        } else {
            TrayReply::Standard
        },
        TrayMessage::Destroy => TrayReply::Exit,
        TrayMessage::Other => TrayReply::Standard,
    }
}

pub fn tray_wnd_proc(message: TrayMessage) -> (reply: TrayReply)
    ensures
        reply == (match message {
            TrayMessage::Icon(right_button_up) => if right_button_up {
                TrayReply::Menu
            } else {
                TrayReply::Standard
            },
            TrayMessage::Command(parameter) => if command_number(parameter) == IDM_EXIT {
                TrayReply::Exit
            } else {
                TrayReply::Standard
            },
            TrayMessage::Destroy => TrayReply::Exit,
            TrayMessage::Other => TrayReply::Standard,
        }),
        reply == answer_to(message),
{
    match message {
        TrayMessage::Icon(right_button_up) => if right_button_up {
            TrayReply::Menu
        } else {
            TrayReply::Standard
        },
        TrayMessage::Command(parameter) => if parameter % 0x1_0000 == IDM_EXIT {
            TrayReply::Exit
        } else {
            TrayReply::Standard
        },
        TrayMessage::Destroy => TrayReply::Exit,
        TrayMessage::Other => TrayReply::Standard,
    }
}

/// The loop ends with the first result that is not a message: at the end, on a failure, and on any
/// message once the program is about to end.
pub proof fn law_loop_runs_on_messages(result: i32, should_exit: bool)
    ensures
        goes_on(kind_of(result), should_exit) <==> result > 0 && !should_exit,
        kind_of(result) == Pump::Quit <==> result == 0,
        kind_of(result) == Pump::Fail <==> result < 0,
{
}

/// The program ends on the command with the number 1002, whatever stands in the upper half of its
/// parameter, and when its window is destroyed; on nothing else. The menu is shown where the right
/// button is released over the icon, and nowhere else.
pub proof fn law_one_command_ends_the_program(message: TrayMessage, upper: int, lower: int)
    requires
        0 <= lower < 0x1_0000,
        0 <= upper,
        upper * 0x1_0000 + lower <= usize::MAX,
    ensures
        answer_to(TrayMessage::Command((upper * 0x1_0000 + lower) as usize)) == TrayReply::Exit
            <==> lower == 1002,
        answer_to(message) == TrayReply::Exit ==> message is Command || message
            == TrayMessage::Destroy,
        answer_to(TrayMessage::Destroy) == TrayReply::Exit,
        answer_to(message) == TrayReply::Menu <==> message == TrayMessage::Icon(true),
{
    assert((upper * 0x1_0000 + lower) % 0x1_0000 == lower);
}

} // verus!
