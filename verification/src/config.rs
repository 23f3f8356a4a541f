use vstd::prelude::*;

verus! {

/// Number of data bits per character frame.
#[derive(Debug, Clone, Copy, PartialEq, Eq, Structural)]
pub enum DataBits {
    Five,
    Six,
    Seven,
    Eight,
}

/// Flow control discipline of the line.
#[derive(Debug, Clone, Copy, PartialEq, Eq, Structural)]
pub enum FlowControl {
    Disabled,
    Software,
    Hardware,
}

/// Parity checking mode of the line.
#[derive(Debug, Clone, Copy, PartialEq, Eq, Structural)]
pub enum Parity {
    Disabled,
    Odd,
    Even,
}

/// Number of stop bits per character frame.
#[derive(Debug, Clone, Copy, PartialEq, Eq, Structural)]
pub enum StopBits {
    One,
    Two,
}

/// A fully resolved line configuration: every optional field replaced by its
/// documented default.
#[derive(Debug, Clone, Copy, PartialEq, Eq, Structural)]
pub struct PortConfig {
    pub baud_rate: u32,
    pub data_bits: DataBits,
    pub flow_control: FlowControl,
    pub parity: Parity,
    pub stop_bits: StopBits,
    pub timeout_ms: u64,
}

/// The data-bits value a request resolves to: 5, 6, 7 and 8 name themselves,
/// anything else (absent or unrecognized) falls back to eight.
pub open spec fn spec_data_bits(value: Option<usize>) -> DataBits {
    match value {
        Option::Some(v) => {
            if v == 5 {
                DataBits::Five
            } else if v == 6 {
                DataBits::Six
            } else if v == 7 {
                DataBits::Seven
            } else {
                DataBits::Eight
            }
        },
        Option::None => DataBits::Eight,
    }
}

/// The flow control a request resolves to: "Software" and "Hardware" name
/// themselves, anything else falls back to none.
pub open spec fn spec_flow_control(value: Option<Seq<char>>) -> FlowControl {
    match value {
        Option::Some(s) => {
            if s == "Software"@ {
                FlowControl::Software
            } else if s == "Hardware"@ {
                FlowControl::Hardware
            } else {
                FlowControl::Disabled
            }
        },
        Option::None => FlowControl::Disabled,
    }
}

/// The parity a request resolves to: "Odd" and "Even" name themselves,
/// anything else falls back to none.
pub open spec fn spec_parity(value: Option<Seq<char>>) -> Parity {
    match value {
        Option::Some(s) => {
            if s == "Odd"@ {
                Parity::Odd
            } else if s == "Even"@ {
                Parity::Even
            } else {
                Parity::Disabled
            }
        },
        Option::None => Parity::Disabled,
    }
}

/// The stop-bits value a request resolves to: 1 and 2 name themselves,
/// anything else falls back to two.
pub open spec fn spec_stop_bits(value: Option<usize>) -> StopBits {
    match value {
        Option::Some(v) => {
            if v == 1 {
                StopBits::One
            } else {
                StopBits::Two
            }
        },
        Option::None => StopBits::Two,
    }
}

/// The read timeout a request resolves to, in milliseconds: 200 when absent.
pub open spec fn spec_timeout_ms(value: Option<u64>) -> u64 {
    match value {
        Option::Some(v) => v,
        Option::None => 200u64,
    }
}

fn string_is(value: &String, literal: &str) -> (r: bool)
    ensures
        r == (value@ == literal@),
{
    let owned: String = literal.to_owned();
    *value == owned
}

pub fn get_data_bits(value: Option<usize>) -> (r: DataBits)
    ensures
        r == spec_data_bits(value),
{
    match value {
        Some(v) => {
            if v == 5 {
                DataBits::Five
            } else if v == 6 {
                DataBits::Six
            } else if v == 7 {
                DataBits::Seven
            } else {
                DataBits::Eight
            }
        },
        None => DataBits::Eight,
    }
}

pub fn get_flow_control(value: Option<String>) -> (r: FlowControl)
    ensures
        r == spec_flow_control(value.deep_view()),
{
    match value {
        Some(s) => {
            if string_is(&s, "Software") {
                FlowControl::Software
            } else if string_is(&s, "Hardware") {
                FlowControl::Hardware
            } else {
                FlowControl::Disabled
            }
        },
        None => FlowControl::Disabled,
    }
}

pub fn get_parity(value: Option<String>) -> (r: Parity)
    ensures
        r == spec_parity(value.deep_view()),
{
    match value {
        Some(s) => {
            if string_is(&s, "Odd") {
                Parity::Odd
            } else if string_is(&s, "Even") {
                Parity::Even
            } else {
                Parity::Disabled
            }
        },
        None => Parity::Disabled,
    }
}

pub fn get_stop_bits(value: Option<usize>) -> (r: StopBits)
    ensures
        r == spec_stop_bits(value),
{
    match value {
        Some(v) => {
            if v == 1 {
                StopBits::One
            } else {
                StopBits::Two
            }
        },
        None => StopBits::Two,
    }
}

/// Resolves a raw open request to a full configuration, translating absent or
/// unrecognized optional fields to their documented defaults.
pub fn resolve_config(
    baud_rate: u32,
    data_bits: Option<usize>,
    flow_control: Option<String>,
    parity: Option<String>,
    stop_bits: Option<usize>,
    timeout: Option<u64>,
) -> (c: PortConfig)
    ensures
        c.baud_rate == baud_rate,
        c.data_bits == spec_data_bits(data_bits),
        c.flow_control == spec_flow_control(flow_control.deep_view()),
        c.parity == spec_parity(parity.deep_view()),
        c.stop_bits == spec_stop_bits(stop_bits),
        c.timeout_ms == spec_timeout_ms(timeout),
{
    let timeout_ms: u64 = match timeout {
        Some(v) => v,
        None => 200,
    };
    PortConfig {
        baud_rate,
        data_bits: get_data_bits(data_bits),
        flow_control: get_flow_control(flow_control),
        parity: get_parity(parity),
        stop_bits: get_stop_bits(stop_bits),
        timeout_ms,
    }
}

} // verus!
