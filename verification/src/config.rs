//! The emulator's settings and the command line that gives them.

use vstd::prelude::*;
use vstd::string::StrSliceExecFns;
use crate::text::{decimal_u32, numeric_suffix, option_name, parse_u32, same_text};

verus! {

/// The settings of one emulation session.
pub struct Chip8Configuration {
    /// Where the program image is read from; empty if none was named.
    pub rom_path: String,
    /// Instructions per second.
    pub clock_hz: u32,
    /// The colour of dark pixels, as `0xAARRGGBB`.
    pub background_color: u32,
    /// The colour of lit pixels, as `0xAARRGGBB`.
    pub foreground_color: u32,
    /// The window's size in pixels (`Ok`), or the factor by which the
    /// 64 by 32 display is scaled (`Err`); `None` leaves the choice to the host.
    pub window_size: Option<Result<(u32, u32), u32>>,
    pub is_fullscreen: bool,
    /// Whether a draw instruction ends the frame's execution.
    pub is_drawsync: bool,
    pub is_vsync: bool,
}

/// The settings as plain values.
pub struct Settings {
    pub rom_path: Seq<char>,
    pub clock_hz: u32,
    pub background_color: u32,
    pub foreground_color: u32,
    pub window_size: Option<Result<(u32, u32), u32>>,
    pub is_fullscreen: bool,
    pub is_drawsync: bool,
    pub is_vsync: bool,
}

impl View for Chip8Configuration {
    type V = Settings;

    open spec fn view(&self) -> Settings {
        Settings {
            rom_path: self.rom_path@,
            clock_hz: self.clock_hz,
            background_color: self.background_color,
            foreground_color: self.foreground_color,
            window_size: self.window_size,
            is_fullscreen: self.is_fullscreen,
            is_drawsync: self.is_drawsync,
            is_vsync: self.is_vsync,
        }
    }
}

/// Why a number could not be read.
#[derive(Clone, Copy, Debug, PartialEq, Eq, Structural)]
pub enum ParseError {
    /// No argument is left to read it from.
    Missing,
    /// The text is not a number that fits 32 bits.
    Invalid,
}

/// Why a colour could not be read.
#[derive(Clone, Copy, Debug, PartialEq, Eq, Structural)]
pub enum ParseColorError {
    /// No argument is left to read it from.
    Missing,
    /// Red and green were given without blue.
    MissingBlue,
    /// The first value is not a number.
    Invalid,
    /// The single value is beyond `0xFFFFFF`.
    InvalidRgb,
    /// Red is beyond 255.
    InvalidRed,
    /// Green is beyond 255.
    InvalidGreen,
    /// Blue is beyond 255.
    InvalidBlue,
}

/// Why a command line gives no settings.
#[derive(Clone, Copy, Debug, PartialEq, Eq, Structural)]
pub enum ConfigError {
    /// The background colour could not be read.
    Background(ParseColorError),
    /// The foreground colour could not be read.
    Foreground(ParseColorError),
    /// The clock speed could not be read.
    ClockSpeed(ParseError),
    /// The scale factor could not be read.
    ScaleFactor(ParseError),
    /// The window's width could not be read.
    WindowWidth(ParseError),
    /// The window's height could not be read.
    WindowHeight(ParseError),
    /// Help was asked for: the caller shows `HELP_TEXT` and stops.
    Help,
    /// A second program image was named.
    SeveralRoms,
}

impl ConfigError {
    pub open spec fn message_spec(self) -> Seq<char> {
        match self {
            ConfigError::Background(ParseColorError::Missing) => "Background color is missing!"@,
            ConfigError::Background(ParseColorError::MissingBlue) =>
                "Missing blue value for background!"@,
            ConfigError::Background(ParseColorError::Invalid) =>
                "Background color is not a number!"@,
            ConfigError::Background(ParseColorError::InvalidRgb) =>
                "Invalid rgb value for background!"@,
            ConfigError::Background(ParseColorError::InvalidRed) =>
                "Invalid red value for background!"@,
            ConfigError::Background(ParseColorError::InvalidGreen) =>
                "Invalid green value for background!"@,
            ConfigError::Background(ParseColorError::InvalidBlue) =>
                "Invalid blue value for background!"@,
            ConfigError::Foreground(ParseColorError::Missing) => "Foreground color is missing!"@,
            ConfigError::Foreground(ParseColorError::MissingBlue) =>
                "Missing blue value for foreground!"@,
            ConfigError::Foreground(ParseColorError::Invalid) =>
                "Foreground color is not a number!"@,
            ConfigError::Foreground(ParseColorError::InvalidRgb) =>
                "Invalid rgb value for foreground!"@,
            ConfigError::Foreground(ParseColorError::InvalidRed) =>
                "Invalid red value for foreground!"@,
            ConfigError::Foreground(ParseColorError::InvalidGreen) =>
                "Invalid green value for foreground!"@,
            ConfigError::Foreground(ParseColorError::InvalidBlue) =>
                "Invalid blue value for foreground!"@,
            ConfigError::ClockSpeed(ParseError::Missing) => "Clock speed is missing!"@,
            ConfigError::ClockSpeed(ParseError::Invalid) => "Clock speed is not a number!"@,
            ConfigError::ScaleFactor(ParseError::Missing) => "Scale factor is missing!"@,
            ConfigError::ScaleFactor(ParseError::Invalid) => "Scale factor is not a number!"@,
            ConfigError::WindowWidth(ParseError::Missing) => "Window width is missing!"@,
            ConfigError::WindowWidth(ParseError::Invalid) => "Window width is not a number!"@,
            ConfigError::WindowHeight(ParseError::Missing) => "Window height is missing!"@,
            ConfigError::WindowHeight(ParseError::Invalid) => "Window height is not a number!"@,
            ConfigError::Help => ""@,
            ConfigError::SeveralRoms => "More than one rom paths found!"@,
        }
    }

    /// The text shown to the user for this error; empty after a request for help.
    pub fn message(&self) -> (text: &'static str)
        ensures
            text@ == self.message_spec(),
    {
        match self {
            ConfigError::Background(ParseColorError::Missing) => "Background color is missing!",
            ConfigError::Background(ParseColorError::MissingBlue) =>
                "Missing blue value for background!",
            ConfigError::Background(ParseColorError::Invalid) =>
                "Background color is not a number!",
            ConfigError::Background(ParseColorError::InvalidRgb) =>
                "Invalid rgb value for background!",
            ConfigError::Background(ParseColorError::InvalidRed) =>
                "Invalid red value for background!",
            ConfigError::Background(ParseColorError::InvalidGreen) =>
                "Invalid green value for background!",
            ConfigError::Background(ParseColorError::InvalidBlue) =>
                "Invalid blue value for background!",
            ConfigError::Foreground(ParseColorError::Missing) => "Foreground color is missing!",
            ConfigError::Foreground(ParseColorError::MissingBlue) =>
                "Missing blue value for foreground!",
            ConfigError::Foreground(ParseColorError::Invalid) =>
                "Foreground color is not a number!",
            ConfigError::Foreground(ParseColorError::InvalidRgb) =>
                "Invalid rgb value for foreground!",
            ConfigError::Foreground(ParseColorError::InvalidRed) =>
                "Invalid red value for foreground!",
            ConfigError::Foreground(ParseColorError::InvalidGreen) =>
                "Invalid green value for foreground!",
            ConfigError::Foreground(ParseColorError::InvalidBlue) =>
                "Invalid blue value for foreground!",
            ConfigError::ClockSpeed(ParseError::Missing) => "Clock speed is missing!",
            ConfigError::ClockSpeed(ParseError::Invalid) => "Clock speed is not a number!",
            ConfigError::ScaleFactor(ParseError::Missing) => "Scale factor is missing!",
            ConfigError::ScaleFactor(ParseError::Invalid) => "Scale factor is not a number!",
            ConfigError::WindowWidth(ParseError::Missing) => "Window width is missing!",
            ConfigError::WindowWidth(ParseError::Invalid) => "Window width is not a number!",
            ConfigError::WindowHeight(ParseError::Missing) => "Window height is missing!",
            ConfigError::WindowHeight(ParseError::Invalid) => "Window height is not a number!",
            ConfigError::Help => "",
            ConfigError::SeveralRoms => "More than one rom paths found!",
        }
    }
}

/// The text that explains the command line, to be shown when help is asked for.
pub const HELP_TEXT: &'static str = "\
    chip8-emulator <Rom path> <Options>\n\
    Options:\n    \
    -bg -background   <RGB color> | <Red> <Green> <Blue>  (default: 0, 0, 0)\n    \
    -c  -clock        <Cycles per second>                 (default: 500 hz)\n    \
    -fg -foreground   <RGB color> | <Red> <Green> <Blue>  (default: 255, 255, 255)\n    \
    -fs -fullscreen   Turns on fullscreen mode\n    \
    -h  -help         Displays this help message\n        \
        -nodrawsync   Turns off the 60hz draw sync\n        \
        -novsync      Turns off vertical sync\n    \
    -sf -scalefactor  <Scale factor of 64x32 screen>\n    \
    -w  -windowsize   <Pixel width> <Pixel height>\
";

/// The number that `text` writes, or the reason why it writes none.
pub open spec fn number(text: Seq<char>) -> Result<u32, ParseError> {
    match decimal_u32(text) {
        Some(value) => Ok(value),
        None => Err(ParseError::Invalid),
    }
}

/// The value of an option and the position after it. The value is what
/// follows the option's name in `arg`; if nothing follows, it is the
/// argument at `position`, which is then used up.
pub open spec fn first_number(
    args: Seq<String>,
    position: int,
    arg: Seq<char>,
    arg_type: Seq<char>,
) -> (Result<u32, ParseError>, int) {
    if arg.len() != arg_type.len() {
        (number(arg.subrange(arg_type.len() as int, arg.len() as int)), position)
    } else if 0 <= position < args.len() {
        (number(args[position]@), position + 1)
    } else {
        (Err(ParseError::Missing), position)
    }
}

/// The number at `position` and the position after it. An argument that
/// is no number is left where it is.
pub open spec fn next_number(args: Seq<String>, position: int) -> (Result<u32, ParseError>, int) {
    if 0 <= position < args.len() {
        match decimal_u32(args[position]@) {
            Some(value) => (Ok(value), position + 1),
            None => (Err(ParseError::Invalid), position),
        }
    } else {
        (Err(ParseError::Missing), position)
    }
}

/// An opaque colour from its red, green and blue parts.
pub open spec fn opaque_color(red: u32, green: u32, blue: u32) -> u32 {
    (0xFF00_0000 + red * 0x1_0000 + green * 0x100 + blue) as u32
}

/// The colour of an option and the position after it. One number is the
/// colour as `0xRRGGBB`; three numbers in a row are its red, green and
/// blue parts. The result is opaque.
pub open spec fn color(args: Seq<String>, position: int, arg: Seq<char>, arg_type: Seq<char>) -> (
    Result<u32, ParseColorError>,
    int,
) {
    let (first, after_first) = first_number(args, position, arg, arg_type);
    match first {
        Err(ParseError::Missing) => (Err(ParseColorError::Missing), after_first),
        Err(ParseError::Invalid) => (Err(ParseColorError::Invalid), after_first),
        Ok(red) => {
            let (second, after_second) = next_number(args, after_first);
            match second {
                Err(_) => if red > 0xFF_FFFF {
                    (Err(ParseColorError::InvalidRgb), after_second)
                } else {
                    (Ok((0xFF00_0000 + red) as u32), after_second)
                },
                Ok(green) => {
                    let (third, after_third) = next_number(args, after_second);
                    match third {
                        Err(_) => (Err(ParseColorError::MissingBlue), after_third),
                        Ok(blue) => if red > 0xFF {
                            (Err(ParseColorError::InvalidRed), after_third)
                        } else if green > 0xFF {
                            (Err(ParseColorError::InvalidGreen), after_third)
                        } else if blue > 0xFF {
                            (Err(ParseColorError::InvalidBlue), after_third)
                        } else {
                            (Ok(opaque_color(red, green, blue)), after_third)
                        },
                    }
                },
            }
        },
    }
}

/// Reads the value of an option: what follows the option's name
/// `arg_type` in `arg`, or else the argument at `position`, which is then
/// used up whether it is a number or not.
pub fn parse_first_number(args: &Vec<String>, position: &mut usize, arg: &str, arg_type: &str) -> (value:
    Result<u32, ParseError>)
    requires
        arg_type@.is_prefix_of(arg@),
    ensures
        (value, *final(position) as int) == first_number(
            args@,
            *old(position) as int,
            arg@,
            arg_type@,
        ),
{
    let whole: usize = arg.unicode_len();
    let name: usize = arg_type.unicode_len();
    let parsed: Option<u32> = if whole != name {
        parse_u32(arg.substring_char(name, whole))
    } else if *position < args.len() {
        let next: &String = &args[*position];
        *position = *position + 1;
        parse_u32(next.as_str())
    } else {
        return Err(ParseError::Missing);
    };
    match parsed {
        Some(number) => Ok(number),
        None => Err(ParseError::Invalid),
    }
}

/// Reads the argument at `position` as a number and uses it up; an
/// argument that is no number stays where it is.
pub fn parse_next_number(args: &Vec<String>, position: &mut usize) -> (value: Result<
    u32,
    ParseError,
>)
    ensures
        (value, *final(position) as int) == next_number(args@, *old(position) as int),
{
    if *position < args.len() {
        match parse_u32(args[*position].as_str()) {
            Some(number) => {
                *position = *position + 1;
                Ok(number)
            },
            None => Err(ParseError::Invalid),
        }
    } else {
        Err(ParseError::Missing)
    }
}

/// Reads the colour of an option: either one number, the colour as
/// `0xRRGGBB`, or three numbers in a row, its red, green and blue parts.
pub fn parse_color(args: &Vec<String>, position: &mut usize, arg: &str, arg_type: &str) -> (value:
    Result<u32, ParseColorError>)
    requires
        arg_type@.is_prefix_of(arg@),
    ensures
        (value, *final(position) as int) == color(args@, *old(position) as int, arg@, arg_type@),
{
    let red: u32 = match parse_first_number(args, position, arg, arg_type) {
        Ok(hue) => hue,
        Err(ParseError::Missing) => return Err(ParseColorError::Missing),
        Err(ParseError::Invalid) => return Err(ParseColorError::Invalid),
    };
    let green: u32 = match parse_next_number(args, position) {
        Ok(hue) => hue,
        Err(_) => {
            if red > 0xFF_FFFF {
                return Err(ParseColorError::InvalidRgb);
            }
            return Ok(0xFF00_0000 + red);
        },
    };
    let blue: u32 = match parse_next_number(args, position) {
        Ok(hue) => hue,
        Err(_) => return Err(ParseColorError::MissingBlue),
    };
    if red > 0xFF {
        return Err(ParseColorError::InvalidRed);
    }
    if green > 0xFF {
        return Err(ParseColorError::InvalidGreen);
    }
    if blue > 0xFF {
        return Err(ParseColorError::InvalidBlue);
    }
    Ok(0xFF00_0000 + red * 0x1_0000 + green * 0x100 + blue)
}

/// The settings of a command line without arguments.
pub open spec fn defaults() -> Settings {
    Settings {
        rom_path: Seq::empty(),
        clock_hz: 500,
        background_color: 0xFF00_0000,
        foreground_color: 0xFFFF_FFFF,
        window_size: None,
        is_fullscreen: false,
        is_drawsync: true,
        is_vsync: true,
    }
}

/// What an argument asks for.
#[derive(Clone, Copy, Debug, PartialEq, Eq, Structural)]
pub enum Argument {
    Background,
    Clock,
    Foreground,
    Fullscreen,
    Help,
    NoDrawSync,
    NoVsync,
    ScaleFactor,
    WindowSize,
    /// Not an option: the path of the program image.
    RomPath,
}

/// What the argument whose name is `name` asks for.
pub open spec fn argument_kind(name: Seq<char>) -> Argument {
    if name == "-bg"@ || name == "-background"@ {
        Argument::Background
    } else if name == "-c"@ || name == "-clock"@ {
        Argument::Clock
    } else if name == "-fg"@ || name == "-foreground"@ {
        Argument::Foreground
    } else if name == "-fs"@ || name == "fullscreen"@ {
        Argument::Fullscreen
    } else if name == "-h"@ || name == "-help"@ {
        Argument::Help
    } else if name == "-nodrawsync"@ {
        Argument::NoDrawSync
    } else if name == "-novsync"@ {
        Argument::NoVsync
    } else if name == "-sf"@ || name == "-scalefactor"@ {
        Argument::ScaleFactor
    } else if name == "-w"@ || name == "-windowsize"@ {
        Argument::WindowSize
    } else {
        Argument::RomPath
    }
}

/// What the argument at `position`, with the values that follow it, makes
/// of `settings`, and the position after them. The argument's name is what
/// is left of it without the numeric characters at its end; an option's
/// value follows its name directly or in the next argument. An argument
/// that names no option is the path of the program image, of which there
/// may be one.
pub open spec fn apply_argument(args: Seq<String>, position: int, settings: Settings) -> (
    Result<Settings, ConfigError>,
    int,
) {
    let arg = args[position]@;
    let name = option_name(arg);
    match argument_kind(name) {
        Argument::Background => {
            let (value, next) = color(args, position + 1, arg, name);
            match value {
                Ok(background_color) => (Ok(Settings { background_color, ..settings }), next),
                Err(error) => (Err(ConfigError::Background(error)), next),
            }
        },
        Argument::Clock => {
            let (value, next) = first_number(args, position + 1, arg, name);
            match value {
                Ok(clock_hz) => (Ok(Settings { clock_hz, ..settings }), next),
                Err(error) => (Err(ConfigError::ClockSpeed(error)), next),
            }
        },
        Argument::Foreground => {
            let (value, next) = color(args, position + 1, arg, name);
            match value {
                Ok(foreground_color) => (Ok(Settings { foreground_color, ..settings }), next),
                Err(error) => (Err(ConfigError::Foreground(error)), next),
            }
        },
        Argument::Fullscreen => (Ok(Settings { is_fullscreen: true, ..settings }), position + 1),
        Argument::Help => (Err(ConfigError::Help), position + 1),
        Argument::NoDrawSync => (Ok(Settings { is_drawsync: false, ..settings }), position + 1),
        Argument::NoVsync => (Ok(Settings { is_vsync: false, ..settings }), position + 1),
        Argument::ScaleFactor => {
            let (value, next) = first_number(args, position + 1, arg, name);
            match value {
                Ok(scale) => (Ok(Settings { window_size: Some(Err(scale)), ..settings }), next),
                Err(error) => (Err(ConfigError::ScaleFactor(error)), next),
            }
        },
        Argument::WindowSize => {
            let (first, after_width) = first_number(args, position + 1, arg, name);
            match first {
                Ok(width) => {
                    let (second, next) = next_number(args, after_width);
                    match second {
                        Ok(height) => (
                            Ok(Settings { window_size: Some(Ok((width, height))), ..settings }),
                            next,
                        ),
                        Err(error) => (Err(ConfigError::WindowHeight(error)), next),
                    }
                },
                Err(error) => (Err(ConfigError::WindowWidth(error)), after_width),
            }
        },
        Argument::RomPath => if settings.rom_path.len() == 0 {
            (Ok(Settings { rom_path: arg, ..settings }), position + 1)
        } else {
            (Err(ConfigError::SeveralRoms), position + 1)
        },
    }
}

/// Every argument uses up itself at least.
pub proof fn lemma_apply_advances(args: Seq<String>, position: int, settings: Settings)
    requires
        0 <= position < args.len(),
    ensures
        position < apply_argument(args, position, settings).1 <= args.len(),
{
}

/// What the arguments from `position` on make of `settings`: they are
/// applied in turn, and the first error ends the reading.
pub open spec fn parse_from(args: Seq<String>, position: int, settings: Settings) -> Result<
    Settings,
    ConfigError,
>
    decreases args.len() - position,
{
    if position < 0 || position >= args.len() {
        Ok(settings)
    } else {
        let (applied, next) = apply_argument(args, position, settings);
        match applied {
            Ok(changed) => parse_from(args, next, changed),
            Err(error) => Err(error),
        }
    }
}

/// Tells what the argument whose name is `name` asks for.
pub fn classify(name: &str) -> (kind: Argument)
    ensures
        kind == argument_kind(name@),
{
    if same_text(name, "-bg") || same_text(name, "-background") {
        Argument::Background
    } else if same_text(name, "-c") || same_text(name, "-clock") {
        Argument::Clock
    } else if same_text(name, "-fg") || same_text(name, "-foreground") {
        Argument::Foreground
    } else if same_text(name, "-fs") || same_text(name, "fullscreen") {
        Argument::Fullscreen
    } else if same_text(name, "-h") || same_text(name, "-help") {
        Argument::Help
    } else if same_text(name, "-nodrawsync") {
        Argument::NoDrawSync
    } else if same_text(name, "-novsync") {
        Argument::NoVsync
    } else if same_text(name, "-sf") || same_text(name, "-scalefactor") {
        Argument::ScaleFactor
    } else if same_text(name, "-w") || same_text(name, "-windowsize") {
        Argument::WindowSize
    } else {
        Argument::RomPath
    }
}

impl Chip8Configuration {
    /// The settings of a command line without arguments.
    pub fn new() -> (config: Chip8Configuration)
        ensures
            config@ == defaults(),
    {
        let config = Chip8Configuration {
            rom_path: String::new(),
            clock_hz: 500,
            background_color: 0xFF00_0000,
            foreground_color: 0xFFFF_FFFF,
            window_size: None,
            is_fullscreen: false,
            is_drawsync: true,
            is_vsync: true,
        };
        assert(config@.rom_path =~= defaults().rom_path);
        config
    }

    /// Applies the argument at `position`, with the values that follow
    /// it, and moves `position` past them.
    pub fn apply(&mut self, args: &Vec<String>, position: &mut usize) -> (failure: Option<
        ConfigError,
    >)
        requires
            *old(position) < args@.len(),
        ensures
            *old(position) < *final(position) <= args@.len(),
            apply_argument(args@, *old(position) as int, old(self)@) == (
                match failure {
                    None => Ok::<Settings, ConfigError>(final(self)@),
                    Some(error) => Err::<Settings, ConfigError>(error),
                },
                *final(position) as int,
            ),
            failure is Some ==> final(self)@ == old(self)@,
    {
        let count: usize = args.len();
        let arg: &str = args[*position].as_str();
        let arg_type: &str = arg.substring_char(0, numeric_suffix(arg));
        proof {
            lemma_apply_advances(args@, *position as int, self@);
        }
        *position = *position + 1;
        match classify(arg_type) {
            Argument::Background => match parse_color(args, position, arg, arg_type) {
                Ok(color) => {
                    self.background_color = color;
                    None
                },
                Err(error) => Some(ConfigError::Background(error)),
            },
            Argument::Clock => match parse_first_number(args, position, arg, arg_type) {
                Ok(hz) => {
                    self.clock_hz = hz;
                    None
                },
                Err(error) => Some(ConfigError::ClockSpeed(error)),
            },
            Argument::Foreground => match parse_color(args, position, arg, arg_type) {
                Ok(color) => {
                    self.foreground_color = color;
                    None
                },
                Err(error) => Some(ConfigError::Foreground(error)),
            },
            Argument::Fullscreen => {
                self.is_fullscreen = true;
                None
            },
            Argument::Help => Some(ConfigError::Help),
            Argument::NoDrawSync => {
                self.is_drawsync = false;
                None
            },
            Argument::NoVsync => {
                self.is_vsync = false;
                None
            },
            Argument::ScaleFactor => match parse_first_number(args, position, arg, arg_type) {
                Ok(scale) => {
                    self.window_size = Some(Err(scale));
                    None
                },
                Err(error) => Some(ConfigError::ScaleFactor(error)),
            },
            Argument::WindowSize => match parse_first_number(args, position, arg, arg_type) {
                Ok(width) => match parse_next_number(args, position) {
                    Ok(height) => {
                        self.window_size = Some(Ok((width, height)));
                        None
                    },
                    Err(error) => Some(ConfigError::WindowHeight(error)),
                },
                Err(error) => Some(ConfigError::WindowWidth(error)),
            },
            Argument::RomPath => if self.rom_path.as_str().is_empty() {
                self.rom_path = args[*position - 1].clone();
                None
            } else {
                Some(ConfigError::SeveralRoms)
            },
        }
    }

    /// Reads the settings from the command line's arguments, the
    /// program's own name left out. Without a program image among them,
    /// `rom_path` is empty.
    pub fn parse(args: &Vec<String>) -> (parsed: Result<Chip8Configuration, ConfigError>)
        ensures
            match parsed {
                Ok(config) => parse_from(args@, 0, defaults()) == Ok::<Settings, ConfigError>(
                    config@,
                ),
                Err(error) => parse_from(args@, 0, defaults()) == Err::<Settings, ConfigError>(
                    error,
                ),
            },
    {
        let mut config = Chip8Configuration::new();
        let mut position: usize = 0;
        while position < args.len()
            invariant
                position <= args@.len(),
                parse_from(args@, position as int, config@) == parse_from(args@, 0, defaults()),
            decreases args@.len() - position,
        {
            match config.apply(args, &mut position) {
                Some(error) => {
                    return Err(error);
                },
                None => {},
            }
        }
        Ok(config)
    }
}

} // verus!
