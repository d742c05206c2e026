use vstd::prelude::*;

verus! {

/// A key of the keyboard; letters are given in lower case.
#[derive(Debug, Clone, Copy, PartialEq, Eq, Structural)]
pub enum Key {
    Char(char),
    ArrowLeft,
    ArrowRight,
    Delete,
    F5,
    F11,
    Escape,
    Enter,
}

/// What a key asks the viewer to do.
#[derive(Debug, Clone, Copy, PartialEq, Eq, Structural)]
pub enum Command {
    Open,
    SaveAs,
    Reload,
    NewWindow,
    Undo,
    Redo,
    Copy,
    Paste,
    Resize,
    RotateLeft,
    RotateRight,
    ZoomIn,
    ZoomOut,
    BestFit,
    LargestFit,
    Crop,
    Fullscreen,
    Delete,
    /// Zoom to this many hundred percent.
    Zoom(u8),
    Previous,
    Next,
    Help,
    Exit,
    Close,
    Cancel,
    Confirm,
}

/// The keybinds: `ctrl` tells whether Control is held.
pub open spec fn command_for(key: Key, ctrl: bool) -> Option<Command> {
    if ctrl {
        match key {
            Key::Char('o') => Some(Command::Open),
            Key::Char('s') => Some(Command::SaveAs),
            Key::Char('n') => Some(Command::NewWindow),
            Key::Char('z') => Some(Command::Undo),
            Key::Char('y') => Some(Command::Redo),
            Key::Char('c') => Some(Command::Copy),
            Key::Char('v') => Some(Command::Paste),
            Key::Char('r') => Some(Command::Resize),
            Key::Char('b') => Some(Command::BestFit),
            Key::Char('l') => Some(Command::LargestFit),
            Key::Char('x') => Some(Command::Crop),
            Key::Char('h') => Some(Command::Help),
            Key::Char('q') => Some(Command::Exit),
            Key::Char('w') => Some(Command::Close),
            Key::Char(c) => if '1' <= c && c <= '9' {
                Some(Command::Zoom((c as u32 - '0' as u32) as u8))
            } else {
                None
            },
            _ => None,
        }
    } else {
        match key {
            Key::Char('q') => Some(Command::RotateLeft),
            Key::Char('e') => Some(Command::RotateRight),
            Key::Char('-') => Some(Command::ZoomIn),
            Key::Char('+') => Some(Command::ZoomOut),
            Key::Char('f') => Some(Command::Fullscreen),
            Key::Char('a') => Some(Command::Previous),
            Key::Char('h') => Some(Command::Previous),
            Key::Char('d') => Some(Command::Next),
            Key::Char('l') => Some(Command::Next),
            Key::ArrowLeft => Some(Command::Previous),
            Key::ArrowRight => Some(Command::Next),
            Key::Delete => Some(Command::Delete),
            Key::F5 => Some(Command::Reload),
            Key::F11 => Some(Command::Fullscreen),
            Key::Escape => Some(Command::Cancel),
            Key::Enter => Some(Command::Confirm),
            _ => None,
        }
    }
}

/// The command a key asks for, if any.
pub fn key_command(key: Key, ctrl: bool) -> (r: Option<Command>)
    ensures
        r == command_for(key, ctrl),
{
    if ctrl {
        match key {
            Key::Char('o') => Some(Command::Open),
            Key::Char('s') => Some(Command::SaveAs),
            Key::Char('n') => Some(Command::NewWindow),
            Key::Char('z') => Some(Command::Undo),
            Key::Char('y') => Some(Command::Redo),
            Key::Char('c') => Some(Command::Copy),
            Key::Char('v') => Some(Command::Paste),
            Key::Char('r') => Some(Command::Resize),
            Key::Char('b') => Some(Command::BestFit),
            Key::Char('l') => Some(Command::LargestFit),
            Key::Char('x') => Some(Command::Crop),
            Key::Char('h') => Some(Command::Help),
            Key::Char('q') => Some(Command::Exit),
            Key::Char('w') => Some(Command::Close),
            Key::Char(c) => if '1' <= c && c <= '9' {
                Some(Command::Zoom((c as u32 - '0' as u32) as u8))
            } else {
                None
            },
            _ => None,
        }
    } else {
        match key {
            Key::Char('q') => Some(Command::RotateLeft),
            Key::Char('e') => Some(Command::RotateRight),
            Key::Char('-') => Some(Command::ZoomIn),
            Key::Char('+') => Some(Command::ZoomOut),
            Key::Char('f') => Some(Command::Fullscreen),
            Key::Char('a') => Some(Command::Previous),
            Key::Char('h') => Some(Command::Previous),
            Key::Char('d') => Some(Command::Next),
            Key::Char('l') => Some(Command::Next),
            Key::ArrowLeft => Some(Command::Previous),
            Key::ArrowRight => Some(Command::Next),
            Key::Delete => Some(Command::Delete),
            Key::F5 => Some(Command::Reload),
            Key::F11 => Some(Command::Fullscreen),
            Key::Escape => Some(Command::Cancel),
            Key::Enter => Some(Command::Confirm),
            _ => None,
        }
    }
}

/// The quarter turns a rotation command asks for: left turns back by one,
/// right turns on by one.
pub open spec fn turn_of(c: Command) -> Option<i32> {
    match c {
        Command::RotateLeft => Some(-1i32),
        Command::RotateRight => Some(1i32),
        _ => None,
    }
}

/// The quarter turns a rotation command asks for.
pub fn command_turn(c: Command) -> (r: Option<i32>)
    ensures
        r == turn_of(c),
{
    match c {
        Command::RotateLeft => Some(-1),
        Command::RotateRight => Some(1),
        _ => None,
    }
}

/// An item of the menu bar.
#[derive(Debug, Clone, Copy, PartialEq, Eq, Structural)]
pub enum MenuItem {
    Open,
    OpenFolder,
    SaveAs,
    NewWindow,
    Reload,
    Exit,
    Undo,
    Redo,
    Copy,
    Paste,
    Preferences,
    RotateLeft,
    RotateRight,
    FlipHorizontal,
    FlipVertical,
    ZoomIn,
    ZoomOut,
    BestFit,
    LargestFit,
    Color,
    Crop,
    Resize,
    Metadata,
    Delete,
    Repository,
    ReportBug,
    Help,
    ThirdPartySoftware,
    About,
}

/// Whether a menu item can be chosen. `has_image` tells whether an image is
/// on screen, `working` whether a request is running, `has_metadata` whether
/// the image on screen has metadata. Opening, new windows, exiting, the
/// preferences and the help menu need no image; the vertical flip and the
/// crop also wait for the running request; the metadata needs some metadata;
/// every other item needs an image.
pub open spec fn menu_enabled(item: MenuItem, has_image: bool, working: bool, has_metadata: bool) -> bool {
    match item {
        MenuItem::Open | MenuItem::OpenFolder | MenuItem::NewWindow | MenuItem::Exit
        | MenuItem::Preferences | MenuItem::Repository | MenuItem::ReportBug | MenuItem::Help
        | MenuItem::ThirdPartySoftware | MenuItem::About => true,
        MenuItem::FlipVertical | MenuItem::Crop => has_image && !working,
        MenuItem::Metadata => has_image && has_metadata,
        _ => has_image,
    }
}

impl MenuItem {
    /// Whether this item can be chosen (see [`menu_enabled`]).
    pub fn is_enabled(&self, has_image: bool, working: bool, has_metadata: bool) -> (r: bool)
        ensures
            r == menu_enabled(*self, has_image, working, has_metadata),
    {
        match self {
            MenuItem::Open | MenuItem::OpenFolder | MenuItem::NewWindow | MenuItem::Exit
            | MenuItem::Preferences | MenuItem::Repository | MenuItem::ReportBug | MenuItem::Help
            | MenuItem::ThirdPartySoftware | MenuItem::About => true,
            MenuItem::FlipVertical | MenuItem::Crop => has_image && !working,
            MenuItem::Metadata => has_image && has_metadata,
            _ => has_image,
        }
    }
}

/// The keys that step through the directory, undo and redo: D, L and the
/// right arrow go to the next image, A, H and the left arrow to the previous
/// one (all without Control); Control + Z undoes and Control + Y redoes.
pub proof fn navigation_and_history_keys(key: Key, ctrl: bool)
    ensures
        command_for(key, ctrl) == Some(Command::Next) <==> (!ctrl && (key == Key::Char('d')
            || key == Key::Char('l') || key == Key::ArrowRight)),
        command_for(key, ctrl) == Some(Command::Previous) <==> (!ctrl && (key == Key::Char('a')
            || key == Key::Char('h') || key == Key::ArrowLeft)),
        command_for(key, ctrl) == Some(Command::Undo) <==> (ctrl && key == Key::Char('z')),
        command_for(key, ctrl) == Some(Command::Redo) <==> (ctrl && key == Key::Char('y')),
        command_for(key, ctrl) == Some(Command::RotateLeft) <==> (!ctrl && key == Key::Char('q')),
        command_for(key, ctrl) == Some(Command::RotateRight) <==> (!ctrl && key == Key::Char('e')),
{
}

} // verus!
