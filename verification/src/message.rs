//! The messages exchanged between the host and the microcontroller.

use vstd::prelude::*;
use vstd::string::StringExecFns;

verus! {

/// The duty value that drives the output for the whole period.
pub const MAX_DUTY: u16 = u16::MAX - 1_536;

/// A message between the host and the microcontroller.
#[derive(Debug, Clone, Copy, PartialEq, Eq, Structural)]
pub enum Message {
    /// From the host: set this duty cycle. From the microcontroller: the
    /// duty cycle now in force.
    DutyCycle(u16),
}

/// The character of one decimal digit.
pub open spec fn digit(value: nat) -> char {
    if value == 0 {
        '0'
    } else if value == 1 {
        '1'
    } else if value == 2 {
        '2'
    } else if value == 3 {
        '3'
    } else if value == 4 {
        '4'
    } else if value == 5 {
        '5'
    } else if value == 6 {
        '6'
    } else if value == 7 {
        '7'
    } else if value == 8 {
        '8'
    } else {
        '9'
    }
}

/// The decimal digits of `value`, without leading zeros.
pub open spec fn decimal(value: nat) -> Seq<char>
    decreases value,
{
    if value < 10 {
        seq![digit(value)]
    } else {
        decimal(value / 10).push(digit(value % 10))
    }
}

/// The text of one decimal digit.
fn digit_text(value: u16) -> (text: &'static str)
    requires
        value < 10,
    ensures
        text@ == seq![digit(value as nat)],
{
    proof {
        reveal_strlit("0");
        reveal_strlit("1");
        reveal_strlit("2");
        reveal_strlit("3");
        reveal_strlit("4");
        reveal_strlit("5");
        reveal_strlit("6");
        reveal_strlit("7");
        reveal_strlit("8");
        reveal_strlit("9");
    }
    let text = match value {
        0 => "0",
        1 => "1",
        2 => "2",
        3 => "3",
        4 => "4",
        5 => "5",
        6 => "6",
        7 => "7",
        8 => "8",
        _ => "9",
    };
    assert(text@ =~= seq![digit(value as nat)]);
    text
}

/// Appends the decimal digits of `value` to `text`.
fn push_decimal(value: u16, text: &mut String)
    ensures
        final(text)@ == old(text)@ + decimal(value as nat),
    decreases value,
{
    if value >= 10 {
        push_decimal(value / 10, text);
    }
    let ghost before = text@;
    text.append(digit_text(value % 10));
    assert(text@ =~= old(text)@ + decimal(value as nat));
}

impl Message {
    /// The duty value a message carries.
    pub open spec fn duty_value(self) -> u16 {
        match self {
            Message::DutyCycle(duty) => duty,
        }
    }

    /// The duty value this message carries.
    pub fn duty(&self) -> (duty: u16)
        ensures
            duty == self.duty_value(),
    {
        match self {
            Message::DutyCycle(duty) => *duty,
        }
    }

    /// What [`Message::describe`] returns.
    pub open spec fn description(self) -> Seq<char> {
        "Set duty cycle to: "@ + decimal(self.duty_value() as nat)
    }

    /// The message in words, for a log.
    pub fn describe(&self) -> (text: String)
        ensures
            text@ == self.description(),
    {
        let mut text = String::from_str("Set duty cycle to: ");
        push_decimal(self.duty(), &mut text);
        text
    }

    /// Whether the duty value lies within the range of the output stage.
    pub fn within_range(&self) -> (ok: bool)
        ensures
            ok <==> self.duty_value() <= MAX_DUTY,
    {
        self.duty() <= MAX_DUTY
    }
}

/// A message with the time at which it was sent or received.
#[derive(Debug, Clone)]
pub struct MessageInfo {
    /// The message.
    pub message: Message,
    /// The time, as the log shows it.
    pub timestamp: String,
}

impl MessageInfo {
    /// What [`MessageInfo::line`] returns.
    pub open spec fn line_of(self) -> Seq<char> {
        self.timestamp@ + " -- "@ + self.message.description()
    }

    /// The line of this message in the log: the time, then the message in
    /// words.
    pub fn line(&self) -> (text: String)
        ensures
            text@ == self.line_of(),
    {
        let mut text = self.timestamp.clone();
        text.append(" -- ");
        let words = self.message.describe();
        text.append(words.as_str());
        text
    }
}

} // verus!
