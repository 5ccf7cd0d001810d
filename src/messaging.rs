//! Power-supply commands and their wire text.

use vstd::prelude::*;

use crate::fixed_format::{fixed_2dp_text, put_fixed_2dp};
use crate::text::{put, text_bytes, text_new};

verus! {

/// A command for the power supply. Currents and voltages are fixed-point
/// values in hundredths of an ampere or a volt.
#[derive(Clone, Copy, Debug, PartialEq, Eq, Structural)]
pub enum PSUCommand {
    OutputOn,
    OutputOff,
    SetCurrent(i32),
    SetVoltage(i32),
}

/// The wire text of a command: `OUT1`, `OUT0`, `ISET1:<value>`, `VSET1:<value>`,
/// with no line terminator.
pub open spec fn command_text(cmd: PSUCommand) -> Seq<u8> {
    match cmd {
        PSUCommand::OutputOn => seq!['O' as u8, 'U' as u8, 'T' as u8, '1' as u8],
        PSUCommand::OutputOff => seq!['O' as u8, 'U' as u8, 'T' as u8, '0' as u8],
        PSUCommand::SetCurrent(h) => seq!['I' as u8, 'S' as u8, 'E' as u8, 'T' as u8, '1' as u8, ':' as u8]
            + fixed_2dp_text(h as int),
        PSUCommand::SetVoltage(h) => seq!['V' as u8, 'S' as u8, 'E' as u8, 'T' as u8, '1' as u8, ':' as u8]
            + fixed_2dp_text(h as int),
    }
}

impl PSUCommand {
    /// The wire text of this command.
    pub fn to_wire(&self) -> (r: heapless::String<32>)
        ensures
            text_bytes(r) == command_text(*self),
    {
        let mut out = text_new();
        match *self {
            PSUCommand::OutputOn => {
                put(&mut out, 'O');
                put(&mut out, 'U');
                put(&mut out, 'T');
                put(&mut out, '1');
            },
            PSUCommand::OutputOff => {
                put(&mut out, 'O');
                put(&mut out, 'U');
                put(&mut out, 'T');
                put(&mut out, '0');
            },
            PSUCommand::SetCurrent(h) => {
                put(&mut out, 'I');
                put(&mut out, 'S');
                put(&mut out, 'E');
                put(&mut out, 'T');
                put(&mut out, '1');
                put(&mut out, ':');
                put_fixed_2dp(&mut out, h);
            },
            PSUCommand::SetVoltage(h) => {
                put(&mut out, 'V');
                put(&mut out, 'S');
                put(&mut out, 'E');
                put(&mut out, 'T');
                put(&mut out, '1');
                put(&mut out, ':');
                put_fixed_2dp(&mut out, h);
            },
        }
        assert(text_bytes(out) =~= command_text(*self));
        out
    }
}

} // verus!
