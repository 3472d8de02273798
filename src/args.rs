//! The run mode and the command-line options that select it.
use vstd::prelude::*;
use crate::colorramp::{ColorSetting, FULL_BRIGHTNESS, MAX_TEMP, MIN_TEMP, NEUTRAL_TEMP};

verus! {

/// Selected run mode.
#[derive(Clone, Copy, Debug, PartialEq, Eq, Structural)]
pub enum Mode {
    /// Reset the screen.
    Reset,
    /// Set the given color temperature once.
    Manual(i32),
}

/// What is wrong with a command line.
#[derive(Clone, Copy, Debug, PartialEq, Eq, Structural)]
pub enum ArgsError {
    /// `-S` without a temperature after it.
    MissingTemperature,
    /// The temperature after `-S` is not an integer.
    InvalidTemperature,
    /// The temperature is outside the supported range.
    TemperatureOutOfRange(i32),
}

impl Mode {
    /// The options that select this mode.
    pub fn as_args(&self) -> (r: &'static str)
        ensures
            r@ == (match *self {
                Mode::Reset => "--reset|-x"@,
                Mode::Manual(_) => "--Set|-S"@,
            }),
    {
        match self {
            Mode::Reset => "--reset|-x",
            Mode::Manual(..) => "--Set|-S",
        }
    }

    /// The color setting that this mode applies: the neutral one to reset.
    pub fn setting(&self) -> (r: ColorSetting)
        requires
            match *self {
                Mode::Manual(t) => MIN_TEMP <= t <= MAX_TEMP,
                Mode::Reset => true,
            },
        ensures
            r.wf(),
            r.brightness == FULL_BRIGHTNESS,
            r.temp == match *self {
                Mode::Manual(t) => t,
                Mode::Reset => NEUTRAL_TEMP,
            },
    {
        match self {
            Mode::Reset => ColorSetting::at_temperature(NEUTRAL_TEMP),
            Mode::Manual(t) => ColorSetting::at_temperature(*t),
        }
    }
}

/// Options of a run.
pub struct Args {
    pub help: bool,
    pub version: bool,
    pub method: Option<String>,
    pub mode: Mode,
}

/// The text is one or more ASCII digits.
pub open spec fn is_digits(d: Seq<char>) -> bool {
    &&& d.len() > 0
    &&& forall|i: int| 0 <= i < d.len() ==> '0' <= #[trigger] d[i] <= '9'
}

/// The value of a string of decimal digits.
pub open spec fn digits_value(d: Seq<char>) -> int
    decreases d.len(),
{
    if d.len() == 0 {
        0
    } else {
        digits_value(d.drop_last()) * 10 + (d.last() as int - '0' as int)
    }
}

/// The integer that a text writes in decimal: an optional `+` or `-`, then
/// one or more ASCII digits.
pub open spec fn decimal_value(s: Seq<char>) -> Option<int> {
    if s.len() > 0 && (s[0] == '+' || s[0] == '-') {
        let d = s.drop_first();
        if is_digits(d) {
            Some(if s[0] == '-' { -digits_value(d) } else { digits_value(d) })
        } else {
            None
        }
    } else if is_digits(s) {
        Some(digits_value(s))
    } else {
        None
    }
}

/// The `i32` that a text writes in decimal, if it is in range.
pub open spec fn decimal_i32(s: Seq<char>) -> Option<i32> {
    match decimal_value(s) {
        Some(v) => if i32::MIN <= v <= i32::MAX {
            Some(v as i32)
        } else {
            None
        },
        None => None,
    }
}

/// Relies on `str::parse::<i32>` (`i32::from_str_radix` with radix 10): a
/// sign and decimal digits give their value where it fits in `i32`, and any
/// other text gives an error.
#[verifier::external_body]
fn parse_i32(s: &str) -> (r: Option<i32>)
    ensures
        r == decimal_i32(s@),
{
    s.parse::<i32>().ok()
}

/// The text is one of two option spellings.
fn is_option(arg: &String, short: &str, long: &str) -> (r: bool)
    ensures
        r == (arg@ == short@ || arg@ == long@),
{
    let a: &str = arg.as_str();
    let x: String = a.to_owned();
    let s: String = short.to_owned();
    let l: String = long.to_owned();
    x == s || x == l
}

/// The mode that `-S` with a temperature selects.
pub open spec fn manual_mode(t: Option<i32>) -> Result<Mode, ArgsError> {
    match t {
        None => Err(ArgsError::InvalidTemperature),
        Some(t) => if MIN_TEMP <= t <= MAX_TEMP {
            Ok(Mode::Manual(t))
        } else {
            Err(ArgsError::TemperatureOutOfRange(t))
        },
    }
}

/// Checks a requested temperature.
pub fn check_temperature(t: i32) -> (r: Result<Mode, ArgsError>)
    ensures
        r == manual_mode(Some(t)),
{
    if t < MIN_TEMP || t > MAX_TEMP {
        Err(ArgsError::TemperatureOutOfRange(t))
    } else {
        Ok(Mode::Manual(t))
    }
}

/// Wraps a message as the error of a malformed command line.
pub fn malformed<T>(msg: String) -> (r: Result<T, String>)
    ensures
        r == Err::<T, String>(msg),
{
    Err(msg)
}

impl Args {
    /// Options before the command line is read: set the neutral temperature.
    pub fn defaults() -> (r: Args)
        ensures
            !r.help,
            !r.version,
            r.method.is_none(),
            r.mode == Mode::Manual(NEUTRAL_TEMP),
    {
        Args { help: false, version: false, method: None, mode: Mode::Manual(NEUTRAL_TEMP) }
    }

    /// Reads the arguments after the program name. The first one decides:
    /// `-h`/`--help` and `-V`/`--version` set their flag, `-S`/`--Set` with a
    /// temperature selects that temperature, `-x`/`--reset` selects the reset;
    /// anything else leaves the options as they are.
    pub fn update_from_args(self, args: &Vec<String>) -> (r: Result<Args, ArgsError>)
        ensures
            args@.len() == 0 ==> r == Ok::<Args, ArgsError>(self),
            args@.len() > 0 ==> {
                let a = args@[0]@;
                if a == "-h"@ || a == "--help"@ {
                    r == Ok::<Args, ArgsError>(Args { help: true, ..self })
                } else if a == "-V"@ || a == "--version"@ {
                    r == Ok::<Args, ArgsError>(Args { version: true, ..self })
                } else if a == "-S"@ || a == "--Set"@ {
                    if args@.len() < 2 {
                        r == Err::<Args, ArgsError>(ArgsError::MissingTemperature)
                    } else {
                        match manual_mode(decimal_i32(args@[1]@)) {
                            Ok(m) => r == Ok::<Args, ArgsError>(Args { mode: m, ..self }),
                            Err(e) => r == Err::<Args, ArgsError>(e),
                        }
                    }
                } else if a == "-x"@ || a == "--reset"@ {
                    r == Ok::<Args, ArgsError>(Args { mode: Mode::Reset, ..self })
                } else {
                    r == Ok::<Args, ArgsError>(self)
                }
            },
    {
        if args.len() == 0 {
            return Ok(self);
        }
        let first = &args[0];
        if is_option(first, "-h", "--help") {
            return Ok(Args { help: true, ..self });
        }
        if is_option(first, "-V", "--version") {
            return Ok(Args { version: true, ..self });
        }
        if is_option(first, "-S", "--Set") {
            if args.len() < 2 {
                return Err(ArgsError::MissingTemperature);
            }
            let mode = match parse_i32(args[1].as_str()) {
                None => {
                    return Err(ArgsError::InvalidTemperature);
                },
                Some(t) => check_temperature(t),
            };
            return match mode {
                Ok(m) => Ok(Args { mode: m, ..self }),
                Err(e) => Err(e),
            };
        }
        if is_option(first, "-x", "--reset") {
            return Ok(Args { mode: Mode::Reset, ..self });
        }
        Ok(self)
    }
}

} // verus!
