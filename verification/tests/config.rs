use chip8_emulator::config::{
    classify, parse_color, parse_first_number, parse_next_number, Argument,
    Chip8Configuration, ConfigError, ParseColorError, ParseError, HELP_TEXT,
};
use chip8_emulator::text::{numeric_suffix, same_text};

fn words(line: &[&str]) -> Vec<String> {
    line.iter().map(|word| word.to_string()).collect()
}

fn parsed(line: &[&str]) -> Chip8Configuration {
    match Chip8Configuration::parse(&words(line)) {
        Ok(config) => config,
        Err(error) => panic!("{}", error.message()),
    }
}

fn refused(line: &[&str]) -> ConfigError {
    match Chip8Configuration::parse(&words(line)) {
        Ok(_) => panic!("accepted"),
        Err(error) => error,
    }
}

#[test]
fn no_arguments_give_the_defaults() {
    let config = parsed(&[]);
    assert_eq!(config.rom_path, "");
    assert_eq!(config.clock_hz, 500);
    assert_eq!(config.background_color, 0xFF000000);
    assert_eq!(config.foreground_color, 0xFFFFFFFF);
    assert_eq!(config.window_size, None);
    assert!(!config.is_fullscreen);
    assert!(config.is_drawsync);
    assert!(config.is_vsync);
    let config = Chip8Configuration::new();
    assert_eq!(config.rom_path, "");
    assert_eq!(config.clock_hz, 500);
    assert_eq!(config.background_color, 0xFF000000);
    assert_eq!(config.foreground_color, 0xFFFFFFFF);
    assert_eq!(config.window_size, None);
    assert!(!config.is_fullscreen);
    assert!(config.is_drawsync);
    assert!(config.is_vsync);
}

#[test]
fn a_lone_argument_is_the_rom_path() {
    assert_eq!(parsed(&["games/pong.ch8"]).rom_path, "games/pong.ch8");
    assert_eq!(parsed(&["pong2"]).rom_path, "pong2");
    assert_eq!(parsed(&["2048"]).rom_path, "2048");
    assert_eq!(parsed(&["-fullscreen"]).rom_path, "-fullscreen");
    assert_eq!(parsed(&["-x"]).rom_path, "-x");
}

#[test]
fn a_second_rom_path_is_refused() {
    assert_eq!(refused(&["a.ch8", "b.ch8"]), ConfigError::SeveralRoms);
    assert_eq!(refused(&["a.ch8", "-c", "700", "b.ch8"]), ConfigError::SeveralRoms);
    assert_eq!(parsed(&["", "b.ch8"]).rom_path, "b.ch8");
}

#[test]
fn clock_speed_is_read_attached_or_detached() {
    assert_eq!(parsed(&["-c", "700"]).clock_hz, 700);
    assert_eq!(parsed(&["-c700"]).clock_hz, 700);
    assert_eq!(parsed(&["-clock", "1000"]).clock_hz, 1000);
    assert_eq!(parsed(&["-clock1000"]).clock_hz, 1000);
    assert_eq!(parsed(&["-c", "+60"]).clock_hz, 60);
    assert_eq!(parsed(&["-c", "0"]).clock_hz, 0);
    assert_eq!(parsed(&["-c", "4294967295"]).clock_hz, u32::MAX);
    assert_eq!(parsed(&["-c0007"]).clock_hz, 7);
    assert_eq!(parsed(&["-c", "1", "-c", "2"]).clock_hz, 2);
    assert_eq!(parsed(&["-c", "+00"]).clock_hz, 0);
    assert_eq!(parsed(&["-c", "00000000000000000000000000000012"]).clock_hz, 12);
    assert_eq!(parsed(&["-c", "+4294967295"]).clock_hz, u32::MAX);
}

#[test]
fn clock_speed_errors() {
    assert_eq!(refused(&["-c"]), ConfigError::ClockSpeed(ParseError::Missing));
    assert_eq!(refused(&["rom", "-clock"]), ConfigError::ClockSpeed(ParseError::Missing));
    assert_eq!(refused(&["-c", "fast"]), ConfigError::ClockSpeed(ParseError::Invalid));
    assert_eq!(refused(&["-c", "4294967296"]), ConfigError::ClockSpeed(ParseError::Invalid));
    assert_eq!(refused(&["-c", "-5"]), ConfigError::ClockSpeed(ParseError::Invalid));
    assert_eq!(refused(&["-c", ""]), ConfigError::ClockSpeed(ParseError::Invalid));
    assert_eq!(refused(&["-c", " 5"]), ConfigError::ClockSpeed(ParseError::Invalid));
    assert_eq!(refused(&["-c", "5_0"]), ConfigError::ClockSpeed(ParseError::Invalid));
    assert_eq!(refused(&["-c", "0x10"]), ConfigError::ClockSpeed(ParseError::Invalid));
    assert_eq!(refused(&["-c", "+"]), ConfigError::ClockSpeed(ParseError::Invalid));
    assert_eq!(refused(&["-c", "-0"]), ConfigError::ClockSpeed(ParseError::Invalid));
    assert_eq!(refused(&["-c", "++1"]), ConfigError::ClockSpeed(ParseError::Invalid));
    assert_eq!(refused(&["-c", "1+"]), ConfigError::ClockSpeed(ParseError::Invalid));
    assert_eq!(refused(&["-c", "1e3"]), ConfigError::ClockSpeed(ParseError::Invalid));
    assert_eq!(refused(&["-c", "12 "]), ConfigError::ClockSpeed(ParseError::Invalid));
    assert_eq!(refused(&["-c", "\u{FF11}"]), ConfigError::ClockSpeed(ParseError::Invalid));
    assert_eq!(refused(&["-c", "+4294967296"]), ConfigError::ClockSpeed(ParseError::Invalid));
    assert_eq!(
        refused(&["-c", "100000000000000000000000000000000"]),
        ConfigError::ClockSpeed(ParseError::Invalid)
    );
    assert_eq!(refused(&["-c99999999999"]), ConfigError::ClockSpeed(ParseError::Invalid));
    assert_eq!(refused(&["-c\u{0665}"]), ConfigError::ClockSpeed(ParseError::Invalid));
    assert_eq!(refused(&["-c", "-fs"]), ConfigError::ClockSpeed(ParseError::Invalid));
}

#[test]
fn a_single_colour_value_is_made_opaque() {
    assert_eq!(parsed(&["-bg", "0"]).background_color, 0xFF000000);
    assert_eq!(parsed(&["-bg", "255"]).background_color, 0xFF0000FF);
    assert_eq!(parsed(&["-bg16777215"]).background_color, 0xFFFFFFFF);
    assert_eq!(parsed(&["-background", "1193046"]).background_color, 0xFF123456);
    assert_eq!(parsed(&["-fg", "1193046"]).foreground_color, 0xFF123456);
    assert_eq!(parsed(&["-foreground1193046"]).foreground_color, 0xFF123456);
    assert_eq!(parsed(&["-fg", "1", "rom"]).rom_path, "rom");
    assert_eq!(parsed(&["-fg", "1", "rom"]).foreground_color, 0xFF000001);
}

#[test]
fn three_colour_values_are_red_green_and_blue() {
    assert_eq!(parsed(&["-bg", "18", "52", "86"]).background_color, 0xFF123456);
    assert_eq!(parsed(&["-bg18", "52", "86"]).background_color, 0xFF123456);
    assert_eq!(parsed(&["-fg", "255", "255", "255"]).foreground_color, 0xFFFFFFFF);
    assert_eq!(parsed(&["-fg", "0", "0", "0"]).foreground_color, 0xFF000000);
    assert_eq!(parsed(&["-fg", "1", "2", "3", "4"]).foreground_color, 0xFF010203);
    assert_eq!(parsed(&["-fg", "1", "2", "3", "4"]).rom_path, "4");
}

#[test]
fn colour_errors() {
    assert_eq!(refused(&["-bg"]), ConfigError::Background(ParseColorError::Missing));
    assert_eq!(refused(&["-bg", "red"]), ConfigError::Background(ParseColorError::Invalid));
    assert_eq!(refused(&["-bg", "16777216"]), ConfigError::Background(ParseColorError::InvalidRgb));
    assert_eq!(refused(&["-bg", "1", "2"]), ConfigError::Background(ParseColorError::MissingBlue));
    assert_eq!(
        refused(&["-bg", "1", "2", "rom"]),
        ConfigError::Background(ParseColorError::MissingBlue)
    );
    assert_eq!(
        refused(&["-bg", "256", "2", "3"]),
        ConfigError::Background(ParseColorError::InvalidRed)
    );
    assert_eq!(
        refused(&["-bg", "1", "256", "3"]),
        ConfigError::Background(ParseColorError::InvalidGreen)
    );
    assert_eq!(
        refused(&["-bg", "1", "2", "256"]),
        ConfigError::Background(ParseColorError::InvalidBlue)
    );
    assert_eq!(
        refused(&["-bg", "256", "256", "256"]),
        ConfigError::Background(ParseColorError::InvalidRed)
    );
    assert_eq!(refused(&["-fg"]), ConfigError::Foreground(ParseColorError::Missing));
    assert_eq!(refused(&["-fg", "red"]), ConfigError::Foreground(ParseColorError::Invalid));
    assert_eq!(refused(&["-fg", "16777216"]), ConfigError::Foreground(ParseColorError::InvalidRgb));
    assert_eq!(refused(&["-fg", "1", "2"]), ConfigError::Foreground(ParseColorError::MissingBlue));
    assert_eq!(
        refused(&["-fg", "256", "2", "3"]),
        ConfigError::Foreground(ParseColorError::InvalidRed)
    );
    assert_eq!(
        refused(&["-fg", "1", "256", "3"]),
        ConfigError::Foreground(ParseColorError::InvalidGreen)
    );
    assert_eq!(
        refused(&["-fg", "1", "2", "256"]),
        ConfigError::Foreground(ParseColorError::InvalidBlue)
    );
}

#[test]
fn switches_are_read() {
    assert!(parsed(&["-fs"]).is_fullscreen);
    assert!(parsed(&["fullscreen"]).is_fullscreen);
    assert!(parsed(&["-fs1"]).is_fullscreen);
    assert!(!parsed(&["-nodrawsync"]).is_drawsync);
    assert!(!parsed(&["-novsync"]).is_vsync);
    let config = parsed(&["-novsync", "rom.ch8", "-nodrawsync", "-fs"]);
    assert!(config.is_fullscreen);
    assert!(!config.is_drawsync);
    assert!(!config.is_vsync);
    assert_eq!(config.rom_path, "rom.ch8");
}

#[test]
fn window_size_and_scale_factor_are_read() {
    assert_eq!(parsed(&["-sf", "10"]).window_size, Some(Err(10)));
    assert_eq!(parsed(&["-scalefactor4"]).window_size, Some(Err(4)));
    assert_eq!(parsed(&["-w", "640", "320"]).window_size, Some(Ok((640, 320))));
    assert_eq!(parsed(&["-w640", "320"]).window_size, Some(Ok((640, 320))));
    assert_eq!(parsed(&["-windowsize", "1", "2"]).window_size, Some(Ok((1, 2))));
    assert_eq!(parsed(&["-w", "640", "320", "-sf", "2"]).window_size, Some(Err(2)));
    assert_eq!(parsed(&["-sf", "2", "-w", "640", "320"]).window_size, Some(Ok((640, 320))));
}

#[test]
fn window_size_and_scale_factor_errors() {
    assert_eq!(refused(&["-sf"]), ConfigError::ScaleFactor(ParseError::Missing));
    assert_eq!(refused(&["-sf", "big"]), ConfigError::ScaleFactor(ParseError::Invalid));
    assert_eq!(refused(&["-w"]), ConfigError::WindowWidth(ParseError::Missing));
    assert_eq!(refused(&["-w", "wide"]), ConfigError::WindowWidth(ParseError::Invalid));
    assert_eq!(refused(&["-w", "640"]), ConfigError::WindowHeight(ParseError::Missing));
    assert_eq!(refused(&["-w", "640", "high"]), ConfigError::WindowHeight(ParseError::Invalid));
    assert_eq!(refused(&["-w640"]), ConfigError::WindowHeight(ParseError::Missing));
}

#[test]
fn help_stops_the_reading() {
    assert_eq!(refused(&["-h"]), ConfigError::Help);
    assert_eq!(refused(&["-help"]), ConfigError::Help);
    assert_eq!(refused(&["rom", "-h", "-c", "x"]), ConfigError::Help);
    assert_eq!(refused(&["-c", "x", "-h"]), ConfigError::ClockSpeed(ParseError::Invalid));
}

#[test]
fn a_whole_command_line_is_read() {
    let config = parsed(&[
        "roms/tetris.ch8", "-c1200", "-bg", "0", "0", "64", "-fg", "16777215", "-w", "1280", "640",
        "-novsync",
    ]);
    assert_eq!(config.rom_path, "roms/tetris.ch8");
    assert_eq!(config.clock_hz, 1200);
    assert_eq!(config.background_color, 0xFF000040);
    assert_eq!(config.foreground_color, 0xFFFFFFFF);
    assert_eq!(config.window_size, Some(Ok((1280, 640))));
    assert!(!config.is_fullscreen);
    assert!(config.is_drawsync);
    assert!(!config.is_vsync);
}

#[test]
fn apply_moves_past_the_argument_and_its_values() {
    let line = words(&["-bg", "1", "2", "3", "-c", "x"]);
    let mut config = Chip8Configuration::new();
    let mut position = 0;
    assert_eq!(config.apply(&line, &mut position), None);
    assert_eq!(position, 4);
    assert_eq!(config.background_color, 0xFF010203);
    assert_eq!(
        config.apply(&line, &mut position),
        Some(ConfigError::ClockSpeed(ParseError::Invalid))
    );
    assert_eq!(position, 6);
    assert_eq!(config.clock_hz, 500);
}

#[test]
fn first_number_prefers_the_attached_value() {
    let line = words(&["12", "34"]);
    let mut position = 0;
    assert_eq!(parse_first_number(&line, &mut position, "-c56", "-c"), Ok(56));
    assert_eq!(position, 0);
    assert_eq!(parse_first_number(&line, &mut position, "-c", "-c"), Ok(12));
    assert_eq!(position, 1);
    assert_eq!(parse_first_number(&line, &mut position, "-c", "-c"), Ok(34));
    assert_eq!(position, 2);
    assert_eq!(parse_first_number(&line, &mut position, "-c", "-c"), Err(ParseError::Missing));
    assert_eq!(position, 2);
    assert_eq!(parse_first_number(&line, &mut position, "-c7", "-c"), Ok(7));
    let line = words(&["x"]);
    let mut position = 0;
    assert_eq!(parse_first_number(&line, &mut position, "-c", "-c"), Err(ParseError::Invalid));
    assert_eq!(position, 1);
    let mut position = 5;
    assert_eq!(parse_first_number(&line, &mut position, "-c", "-c"), Err(ParseError::Missing));
    assert_eq!(position, 5);
    assert_eq!(
        parse_first_number(&line, &mut position, "-c\u{00B2}", "-c"),
        Err(ParseError::Invalid)
    );
}

#[test]
fn next_number_leaves_what_is_no_number() {
    let line = words(&["12", "x", "34"]);
    let mut position = 0;
    assert_eq!(parse_next_number(&line, &mut position), Ok(12));
    assert_eq!(position, 1);
    assert_eq!(parse_next_number(&line, &mut position), Err(ParseError::Invalid));
    assert_eq!(position, 1);
    position = 2;
    assert_eq!(parse_next_number(&line, &mut position), Ok(34));
    assert_eq!(position, 3);
    assert_eq!(parse_next_number(&line, &mut position), Err(ParseError::Missing));
    assert_eq!(position, 3);
}

#[test]
fn colour_reads_one_or_three_numbers() {
    let line = words(&["1", "2", "3", "4", "x", "5", "6"]);
    let mut position = 0;
    assert_eq!(parse_color(&line, &mut position, "-bg", "-bg"), Ok(0xFF010203));
    assert_eq!(position, 3);
    assert_eq!(parse_color(&line, &mut position, "-bg", "-bg"), Ok(0xFF000004));
    assert_eq!(position, 4);
    assert_eq!(parse_color(&line, &mut position, "-bg", "-bg"), Err(ParseColorError::Invalid));
    assert_eq!(position, 5);
    assert_eq!(parse_color(&line, &mut position, "-bg", "-bg"), Err(ParseColorError::MissingBlue));
    assert_eq!(position, 7);
    assert_eq!(parse_color(&line, &mut position, "-bg", "-bg"), Err(ParseColorError::Missing));
    assert_eq!(position, 7);
    assert_eq!(parse_color(&line, &mut position, "-bg9", "-bg"), Ok(0xFF000009));
    position = 5;
    assert_eq!(parse_color(&line, &mut position, "-bg300", "-bg"), Err(ParseColorError::InvalidRed));
    assert_eq!(position, 7);
    let mut position = 0;
    assert_eq!(
        parse_color(&words(&["16777216"]), &mut position, "-bg", "-bg"),
        Err(ParseColorError::InvalidRgb)
    );
    let mut position = 0;
    assert_eq!(
        parse_color(&words(&["1", "256", "3"]), &mut position, "-bg", "-bg"),
        Err(ParseColorError::InvalidGreen)
    );
    let mut position = 0;
    assert_eq!(
        parse_color(&words(&["1", "2", "256"]), &mut position, "-bg", "-bg"),
        Err(ParseColorError::InvalidBlue)
    );
}

#[test]
fn arguments_are_classified_by_name() {
    assert_eq!(classify("-bg"), Argument::Background);
    assert_eq!(classify("-background"), Argument::Background);
    assert_eq!(classify("-c"), Argument::Clock);
    assert_eq!(classify("-clock"), Argument::Clock);
    assert_eq!(classify("-fg"), Argument::Foreground);
    assert_eq!(classify("-foreground"), Argument::Foreground);
    assert_eq!(classify("-fs"), Argument::Fullscreen);
    assert_eq!(classify("fullscreen"), Argument::Fullscreen);
    assert_eq!(classify("-h"), Argument::Help);
    assert_eq!(classify("-help"), Argument::Help);
    assert_eq!(classify("-nodrawsync"), Argument::NoDrawSync);
    assert_eq!(classify("-novsync"), Argument::NoVsync);
    assert_eq!(classify("-sf"), Argument::ScaleFactor);
    assert_eq!(classify("-scalefactor"), Argument::ScaleFactor);
    assert_eq!(classify("-w"), Argument::WindowSize);
    assert_eq!(classify("-windowsize"), Argument::WindowSize);
    assert_eq!(classify(""), Argument::RomPath);
    assert_eq!(classify("-"), Argument::RomPath);
    assert_eq!(classify("-C"), Argument::RomPath);
    assert_eq!(classify("-bgx"), Argument::RomPath);
    assert_eq!(classify("c"), Argument::RomPath);
    assert_eq!(classify("-fullscreen"), Argument::RomPath);
}

#[test]
fn the_numeric_suffix_is_found() {
    assert_eq!(numeric_suffix(""), 0);
    assert_eq!(numeric_suffix("-c"), 2);
    assert_eq!(numeric_suffix("-c500"), 2);
    assert_eq!(numeric_suffix("500"), 0);
    assert_eq!(numeric_suffix("a1b22"), 3);
    assert_eq!(numeric_suffix("-c+5"), 3);
    assert_eq!(numeric_suffix("caf\u{00E9}12"), 4);
    assert_eq!(numeric_suffix("x\u{00B2}"), 1);
    assert_eq!(numeric_suffix("x\u{0665}\u{2167}"), 1);
    assert_eq!(numeric_suffix("12 "), 3);
}

#[test]
fn texts_are_compared_by_their_characters() {
    assert!(same_text("", ""));
    assert!(same_text("-bg", "-bg"));
    assert!(same_text("caf\u{00E9}", "caf\u{00E9}"));
    assert!(!same_text("-bg", "-bG"));
    assert!(!same_text("-bg", "-b"));
    assert!(!same_text("-b", "-bg"));
    assert!(!same_text("", "x"));
    assert!(!same_text("cafe", "caf\u{00E9}"));
}

#[test]
fn errors_have_their_messages() {
    let colour_errors = [
        (ParseColorError::Missing, "Background color is missing!", "Foreground color is missing!"),
        (
            ParseColorError::MissingBlue,
            "Missing blue value for background!",
            "Missing blue value for foreground!",
        ),
        (
            ParseColorError::Invalid,
            "Background color is not a number!",
            "Foreground color is not a number!",
        ),
        (
            ParseColorError::InvalidRgb,
            "Invalid rgb value for background!",
            "Invalid rgb value for foreground!",
        ),
        (
            ParseColorError::InvalidRed,
            "Invalid red value for background!",
            "Invalid red value for foreground!",
        ),
        (
            ParseColorError::InvalidGreen,
            "Invalid green value for background!",
            "Invalid green value for foreground!",
        ),
        (
            ParseColorError::InvalidBlue,
            "Invalid blue value for background!",
            "Invalid blue value for foreground!",
        ),
    ];
    for (error, background, foreground) in colour_errors {
        assert_eq!(ConfigError::Background(error).message(), background);
        assert_eq!(ConfigError::Foreground(error).message(), foreground);
    }
    assert_eq!(ConfigError::ClockSpeed(ParseError::Missing).message(), "Clock speed is missing!");
    assert_eq!(
        ConfigError::ClockSpeed(ParseError::Invalid).message(),
        "Clock speed is not a number!"
    );
    assert_eq!(ConfigError::ScaleFactor(ParseError::Missing).message(), "Scale factor is missing!");
    assert_eq!(
        ConfigError::ScaleFactor(ParseError::Invalid).message(),
        "Scale factor is not a number!"
    );
    assert_eq!(ConfigError::WindowWidth(ParseError::Missing).message(), "Window width is missing!");
    assert_eq!(
        ConfigError::WindowWidth(ParseError::Invalid).message(),
        "Window width is not a number!"
    );
    assert_eq!(
        ConfigError::WindowHeight(ParseError::Missing).message(),
        "Window height is missing!"
    );
    assert_eq!(
        ConfigError::WindowHeight(ParseError::Invalid).message(),
        "Window height is not a number!"
    );
    assert_eq!(ConfigError::Help.message(), "");
    assert_eq!(ConfigError::SeveralRoms.message(), "More than one rom paths found!");
}

#[test]
fn the_help_text_lists_every_option() {
    let expected = "\
        chip8-emulator <Rom path> <Options>\n\
        Options:\n    \
        -bg -background   <RGB color> | <Red> <Green> <Blue>  (default: 0, 0, 0)\n    \
        -c  -clock        <Cycles per second>                 (default: 500 hz)\n    \
        -fg -foreground   <RGB color> | <Red> <Green> <Blue>  (default: 255, 255, 255)\n    \
        -fs -fullscreen   Turns on fullscreen mode\n    \
        -h  -help         Displays this help message\n        \
            -nodrawsync   Turns off the 60hz draw sync\n        \
            -novsync      Turns off vertical sync\n    \
        -sf -scalefactor  <Scale factor of 64x32 screen>\n    \
        -w  -windowsize   <Pixel width> <Pixel height>\
    ";
    assert_eq!(HELP_TEXT, expected);
    assert_eq!(HELP_TEXT.lines().count(), 11);
    assert!(HELP_TEXT.contains("\n        -novsync      Turns off vertical sync\n    -sf"));
}
