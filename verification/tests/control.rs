use rinputer::codes::{ABS_HAT0Y, ABS_Z, BTN_DPAD_UP, BTN_EAST, BTN_SOUTH, BTN_TL2};
use rinputer::control::{split_command, Command};
use rinputer::{parse_command, InputRemap, RinputerEvent};

fn maps(line: &str, from: InputRemap, to: InputRemap) {
    match parse_command(line) {
        Some(RinputerEvent::ConfigUpdate(a, b)) => {
            assert!(a.same(&from), "{:?} gave source {:?}", line, a);
            assert!(b.same(&to), "{:?} gave target {:?}", line, b);
        }
        other => panic!("{:?} gave {:?}", line, other),
    }
}

fn ignored(line: &str) {
    assert!(parse_command(line).is_none(), "{:?} was not passed over", line);
}

#[test]
fn map_command_is_read() {
    maps("map BTN_SOUTH as BTN_EAST", InputRemap::Key(BTN_SOUTH), InputRemap::Key(BTN_EAST));
    maps("map ABS_Z@256 as BTN_TL2", InputRemap::Abs(ABS_Z, 256), InputRemap::Key(BTN_TL2));
    maps(
        "map BTN_DPAD_UP as ABS_HAT0Y@-1",
        InputRemap::Key(BTN_DPAD_UP),
        InputRemap::Abs(ABS_HAT0Y, -1),
    );
    maps(
        "map BTN_SOUTH as SteamQuickAccess",
        InputRemap::Key(BTN_SOUTH),
        InputRemap::SteamQuickAccess,
    );
    maps(
        "map SteamQuickAccess as BTN_SOUTH",
        InputRemap::SteamQuickAccess,
        InputRemap::Key(BTN_SOUTH),
    );
}

#[test]
fn malformed_map_command_is_passed_over() {
    ignored("map");
    ignored("map ");
    ignored("mapBTN_SOUTH as BTN_EAST");
    ignored("map BTN_SOUTH");
    ignored("map BTN_SOUTH BTN_EAST");
    ignored("map BTN_SOUTH as");
    ignored("map BTN_SOUTH as ");
    ignored("map  as BTN_EAST");
    ignored("map BTN_SOUTH as BTN_EAST as BTN_WEST");
    ignored("map BTN_NOPE as BTN_EAST");
    ignored("map BTN_SOUTH as BTN_NOPE");
    ignored("map BTN_SOUTH  as BTN_EAST");
    ignored("map BTN_SOUTH as  BTN_EAST");
    ignored("map BTN_SOUTH as BTN_EAST ");
    ignored("map ABS_Z as BTN_EAST");
    ignored("map ABS_Z@ as BTN_EAST");
    ignored("MAP BTN_SOUTH as BTN_EAST");
    ignored(" map BTN_SOUTH as BTN_EAST");
    ignored("mapreset");
    ignored("mapprint");
}

#[test]
fn reset_command_is_read() {
    assert!(matches!(parse_command("reset"), Some(RinputerEvent::ResetConfig)));
}

#[test]
fn print_command_is_read() {
    assert!(matches!(parse_command("print"), Some(RinputerEvent::PrintConfig)));
}

#[test]
fn reset_and_print_stand_alone_on_their_line() {
    ignored("reset now");
    ignored("resetprint");
    ignored("resetXYZ");
    ignored("reset ");
    ignored("reset\r");
    ignored("reset\n");
    ignored("printer");
    ignored("print it");
    ignored("print ");
    ignored("printreset");
    ignored("print\n");
}

#[test]
fn other_lines_are_passed_over() {
    ignored("");
    ignored(" ");
    ignored("rese");
    ignored("prin");
    ignored(" reset");
    ignored("Reset");
    ignored("PRINT");
    ignored("help");
    ignored("BTN_SOUTH as BTN_EAST");
}

#[test]
fn lines_are_taken_apart() {
    assert!(matches!(
        split_command("map a as b"),
        Command::Remap("a", "b")
    ));
    assert!(matches!(
        split_command("map  as "),
        Command::Remap("", "")
    ));
    assert!(matches!(
        split_command("map x as as y"),
        Command::Remap("x", "as y")
    ));
    assert!(matches!(split_command("map a as b as c"), Command::Nothing));
    assert!(matches!(split_command("map a"), Command::Nothing));
    assert!(matches!(split_command("mapa as b"), Command::Nothing));
    assert!(matches!(split_command("reset"), Command::Reset));
    assert!(matches!(split_command("print"), Command::Print));
    assert!(matches!(split_command("print it"), Command::Nothing));
    assert!(matches!(split_command("resetting"), Command::Nothing));
    assert!(matches!(split_command("map reset"), Command::Nothing));
    assert!(matches!(split_command("quit"), Command::Nothing));
}
