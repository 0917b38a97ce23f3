//! What each key means.

use vstd::prelude::*;

use crate::tui::screens::Screen;

verus! {

/// A key.
#[derive(Debug, Clone, Copy, PartialEq, Eq, Structural)]
pub enum Key {
    Char(char),
    Enter,
    Esc,
    Tab,
    BackTab,
    Up,
    Down,
    Left,
    Right,
    PageUp,
    PageDown,
    Backspace,
    Other,
}

/// The keys that are held down with another.
#[derive(Debug, Clone, Copy, PartialEq, Eq, Structural)]
pub struct Mods {
    pub control: bool,
    pub shift: bool,
    /// Any other than these two.
    pub other: bool,
}

impl Mods {
    /// Control, and nothing else.
    pub open spec fn only_control(self) -> bool {
        self.control && !self.shift && !self.other
    }
}

/// How a selected item is to be played.
#[derive(Debug, Clone, Copy, PartialEq, Eq, Structural)]
pub enum PlayMode {
    /// Opens what holds other items, plays what does not.
    PlayNow,
    /// Adds to the end of the queue.
    Enqueue,
    /// Puts behind the current item.
    PlayNext,
    /// Plays everything in it at once.
    PlayContainer,
}

/// What a key asks for.
#[derive(Debug, Clone, Copy, PartialEq, Eq, Structural)]
pub enum Action {
    Ignore,
    Quit,
    OpenHelp,
    CloseHelp,
    /// Leaves the search field.
    Unfocus,
    Type(char),
    Erase,
    ClearQuery,
    /// Moves the selection down by so many rows.
    Down(usize),
    /// Moves the selection up by so many rows.
    Up(usize),
    NextScreen,
    PrevScreen,
    Show(Screen),
    FocusSearch,
    Refresh,
    /// Closes an open album, series or playlist.
    Back,
    /// What the screen does with its selection.
    Choose,
    Play(PlayMode),
    TogglePause,
    Stop,
    Next,
    Previous,
    Louder,
    Quieter,
    UseLocal,
    CycleServer,
    ToggleShuffle,
    CycleRepeat,
    RemoveSelected,
    ClearQueue,
    CycleReplayGain,
    CycleCrossfade,
    CycleOverlap,
    NudgeBass(i32),
    NudgeTreble(i32),
    ToggleEq,
    PrevBand,
    NextBand,
    /// Changes the gain of the selected band, in tenths of a decibel.
    NudgeBand(i32),
}

/// What a key asks for while the help is shown: only to close it, or to quit.
pub open spec fn help_key(key: Key, mods: Mods) -> Action {
    if key == Key::Char('?') || key == Key::Esc {
        Action::CloseHelp
    } else if key == Key::Char('c') && mods.control {
        Action::Quit
    } else {
        Action::Ignore
    }
}

/// What a key asks for while a search is typed.
pub open spec fn search_key(key: Key, mods: Mods) -> Action {
    match key {
        Key::Esc => Action::Unfocus,
        Key::Tab => Action::Unfocus,
        Key::Enter => Action::Play(PlayMode::PlayNow),
        Key::Down => Action::Down(1),
        Key::Up => Action::Up(1),
        Key::Backspace => Action::Erase,
        Key::Char(c) => if !mods.control {
            Action::Type(c)
        } else if c == 'c' {
            Action::Quit
        } else if c == 'u' {
            Action::ClearQuery
        } else if c == 'a' {
            Action::Play(PlayMode::Enqueue)
        } else if c == 'n' {
            Action::Play(PlayMode::PlayNext)
        } else {
            Action::Ignore
        },
        _ => Action::Ignore,
    }
}

/// What a character asks for on a screen.
pub open spec fn char_key(screen: Screen, c: char, mods: Mods) -> Action {
    if c == 'q' || (c == 'c' && mods.only_control()) {
        Action::Quit
    } else if c == '1' {
        Action::Show(Screen::Music)
    } else if c == '2' {
        Action::Show(Screen::Videos)
    } else if c == '3' {
        Action::Show(Screen::Playlists)
    } else if c == '4' {
        Action::Show(Screen::Queue)
    } else if c == '5' {
        Action::Show(Screen::Search)
    } else if c == '6' {
        Action::Show(Screen::Devices)
    } else if c == '7' {
        Action::Show(Screen::Settings)
    } else if c == '/' {
        Action::FocusSearch
    } else if c == 'r' {
        Action::Refresh
    } else if c == 'j' {
        Action::Down(1)
    } else if c == 'k' {
        Action::Up(1)
    } else if c == 'a' {
        Action::Play(PlayMode::Enqueue)
    } else if c == 'n' {
        Action::Play(PlayMode::PlayNext)
    } else if c == 'x' {
        Action::Play(PlayMode::PlayContainer)
    } else if c == ' ' || c == 'p' {
        Action::TogglePause
    } else if c == 's' {
        Action::Stop
    } else if c == '>' || c == 'l' {
        Action::Next
    } else if c == '<' || c == 'h' {
        Action::Previous
    } else if c == '+' || c == '=' {
        Action::Louder
    } else if c == '-' || c == '_' {
        Action::Quieter
    } else if c == 'm' {
        Action::UseLocal
    } else if c == 't' {
        Action::CycleServer
    } else if c == 'z' {
        Action::ToggleShuffle
    } else if c == 'R' {
        Action::CycleRepeat
    } else if c == 'd' && screen == Screen::Queue {
        Action::RemoveSelected
    } else if c == 'C' && screen == Screen::Queue {
        Action::ClearQueue
    } else if c == 'g' {
        Action::CycleReplayGain
    } else if c == 'F' {
        Action::CycleOverlap
    } else if c == 'f' {
        Action::CycleCrossfade
    } else if c == 'b' {
        Action::NudgeBass(-1i32)
    } else if c == 'B' {
        Action::NudgeBass(1)
    } else if c == 'y' {
        Action::NudgeTreble(-1i32)
    } else if c == 'Y' {
        Action::NudgeTreble(1)
    } else if c == '?' {
        Action::OpenHelp
    } else if c == 'E' {
        Action::ToggleEq
    } else if c == '[' && screen == Screen::Settings {
        Action::PrevBand
    } else if c == ']' && screen == Screen::Settings {
        Action::NextBand
    } else {
        Action::Ignore
    }
}

/// What a key asks for on a screen.
pub open spec fn screen_key(screen: Screen, key: Key, mods: Mods) -> Action {
    match key {
        Key::Char(c) => char_key(screen, c, mods),
        Key::Tab => Action::NextScreen,
        Key::BackTab => Action::PrevScreen,
        Key::Right => if mods.only_control() {
            Action::NextScreen
        } else {
            Action::Ignore
        },
        Key::Left => if mods.only_control() {
            Action::PrevScreen
        } else {
            Action::Ignore
        },
        Key::Esc => Action::Back,
        Key::Up => if screen == Screen::Settings && mods.shift {
            Action::NudgeBand(10)
        } else {
            Action::Up(1)
        },
        Key::Down => if screen == Screen::Settings && mods.shift {
            Action::NudgeBand(-10i32)
        } else {
            Action::Down(1)
        },
        Key::PageDown => Action::Down(10),
        Key::PageUp => Action::Up(10),
        Key::Enter => Action::Choose,
        Key::Backspace => Action::Ignore,
        Key::Other => Action::Ignore,
    }
}

/// What a key asks for: of the help where it is shown, of the search field
/// where something is typed, else of the screen.
pub open spec fn key_meaning(
    help_open: bool,
    typing: bool,
    screen: Screen,
    key: Key,
    mods: Mods,
) -> Action {
    if help_open {
        help_key(key, mods)
    } else if screen == Screen::Search && typing {
        search_key(key, mods)
    } else {
        screen_key(screen, key, mods)
    }
}

fn is_only_control(m: Mods) -> (r: bool)
    ensures
        r == m.only_control(),
{
    m.control && !m.shift && !m.other
}

fn of_char(screen: Screen, c: char, mods: Mods) -> (r: Action)
    ensures
        r == char_key(screen, c, mods),
{
    match c {
        'q' => Action::Quit,
        'c' => if is_only_control(mods) {
            Action::Quit
        } else {
            Action::Ignore
        },
        '1' => Action::Show(Screen::Music),
        '2' => Action::Show(Screen::Videos),
        '3' => Action::Show(Screen::Playlists),
        '4' => Action::Show(Screen::Queue),
        '5' => Action::Show(Screen::Search),
        '6' => Action::Show(Screen::Devices),
        '7' => Action::Show(Screen::Settings),
        '/' => Action::FocusSearch,
        'r' => Action::Refresh,
        'j' => Action::Down(1),
        'k' => Action::Up(1),
        'a' => Action::Play(PlayMode::Enqueue),
        'n' => Action::Play(PlayMode::PlayNext),
        'x' => Action::Play(PlayMode::PlayContainer),
        ' ' => Action::TogglePause,
        'p' => Action::TogglePause,
        's' => Action::Stop,
        '>' => Action::Next,
        'l' => Action::Next,
        '<' => Action::Previous,
        'h' => Action::Previous,
        '+' => Action::Louder,
        '=' => Action::Louder,
        '-' => Action::Quieter,
        '_' => Action::Quieter,
        'm' => Action::UseLocal,
        't' => Action::CycleServer,
        'z' => Action::ToggleShuffle,
        'R' => Action::CycleRepeat,
        'd' => if screen == Screen::Queue {
            Action::RemoveSelected
        } else {
            Action::Ignore
        },
        'C' => if screen == Screen::Queue {
            Action::ClearQueue
        } else {
            Action::Ignore
        },
        'g' => Action::CycleReplayGain,
        'F' => Action::CycleOverlap,
        'f' => Action::CycleCrossfade,
        'b' => Action::NudgeBass(-1),
        'B' => Action::NudgeBass(1),
        'y' => Action::NudgeTreble(-1),
        'Y' => Action::NudgeTreble(1),
        '?' => Action::OpenHelp,
        'E' => Action::ToggleEq,
        '[' => if screen == Screen::Settings {
            Action::PrevBand
        } else {
            Action::Ignore
        },
        ']' => if screen == Screen::Settings {
            Action::NextBand
        } else {
            Action::Ignore
        },
        _ => Action::Ignore,
    }
}

/// What a key asks for.
pub fn key_action(help_open: bool, typing: bool, screen: Screen, key: Key, mods: Mods) -> (r:
    Action)
    ensures
        r == key_meaning(help_open, typing, screen, key, mods),
{
    if help_open {
        return match key {
            Key::Char('?') => Action::CloseHelp,
            Key::Esc => Action::CloseHelp,
            Key::Char('c') => if mods.control {
                Action::Quit
            } else {
                Action::Ignore
            },
            _ => Action::Ignore,
        };
    }
    if screen == Screen::Search && typing {
        return match key {
            Key::Esc => Action::Unfocus,
            Key::Tab => Action::Unfocus,
            Key::Enter => Action::Play(PlayMode::PlayNow),
            Key::Down => Action::Down(1),
            Key::Up => Action::Up(1),
            Key::Backspace => Action::Erase,
            Key::Char(c) => if !mods.control {
                Action::Type(c)
            } else {
                match c {
                    'c' => Action::Quit,
                    'u' => Action::ClearQuery,
                    'a' => Action::Play(PlayMode::Enqueue),
                    'n' => Action::Play(PlayMode::PlayNext),
                    _ => Action::Ignore,
                }
            },
            _ => Action::Ignore,
        };
    }
    match key {
        Key::Char(c) => of_char(screen, c, mods),
        Key::Tab => Action::NextScreen,
        Key::BackTab => Action::PrevScreen,
        Key::Right => if is_only_control(mods) {
            Action::NextScreen
        } else {
            Action::Ignore
        },
        Key::Left => if is_only_control(mods) {
            Action::PrevScreen
        } else {
            Action::Ignore
        },
        Key::Esc => Action::Back,
        Key::Up => if screen == Screen::Settings && mods.shift {
            Action::NudgeBand(10)
        } else {
            Action::Up(1)
        },
        Key::Down => if screen == Screen::Settings && mods.shift {
            Action::NudgeBand(-10i32)
        } else {
            Action::Down(1)
        },
        Key::PageDown => Action::Down(10),
        Key::PageUp => Action::Up(10),
        Key::Enter => Action::Choose,
        Key::Backspace => Action::Ignore,
        Key::Other => Action::Ignore,
    }
}

/// While the help is shown, no key does anything but close it or quit.
pub proof fn lemma_help_swallows(typing: bool, screen: Screen, key: Key, mods: Mods)
    ensures
        ({
            let a = key_meaning(true, typing, screen, key, mods);
            a == Action::CloseHelp || a == Action::Quit || a == Action::Ignore
        }),
{
}

/// Whatever is typed into the search field lands there: no character without
/// control leaves the field or plays anything.
pub proof fn lemma_typing_lands(c: char, mods: Mods)
    requires
        !mods.control,
    ensures
        key_meaning(false, true, Screen::Search, Key::Char(c), mods) == Action::Type(c),
{
}

/// The digits show the screens, in the order of their tabs.
pub proof fn lemma_digits_show_tabs(screen: Screen, n: int, mods: Mods)
    requires
        0 <= n < 7,
    ensures
        char_key(screen, (49 + n) as char, mods) == Action::Show(Screen::tabs()[n]),
{
}

/// The letters that move do as the arrows do; the signs for a step do as the
/// letters beside them; and each key of the transport does what it is for, on
/// every screen.
pub proof fn lemma_transport_keys(screen: Screen, mods: Mods)
    requires
        screen != Screen::Settings || !mods.shift,
    ensures
        char_key(screen, 'j', mods) == screen_key(screen, Key::Down, mods),
        char_key(screen, 'k', mods) == screen_key(screen, Key::Up, mods),
        screen_key(screen, Key::Down, mods) == Action::Down(1),
        screen_key(screen, Key::Up, mods) == Action::Up(1),
        screen_key(screen, Key::PageDown, mods) == Action::Down(10),
        screen_key(screen, Key::PageUp, mods) == Action::Up(10),
        char_key(screen, ' ', mods) == Action::TogglePause,
        char_key(screen, 'p', mods) == Action::TogglePause,
        char_key(screen, 's', mods) == Action::Stop,
        char_key(screen, '>', mods) == Action::Next,
        char_key(screen, 'l', mods) == Action::Next,
        char_key(screen, '<', mods) == Action::Previous,
        char_key(screen, 'h', mods) == Action::Previous,
        char_key(screen, '+', mods) == Action::Louder,
        char_key(screen, '=', mods) == Action::Louder,
        char_key(screen, '-', mods) == Action::Quieter,
        char_key(screen, '_', mods) == Action::Quieter,
        screen_key(screen, Key::Tab, mods) == Action::NextScreen,
        screen_key(screen, Key::BackTab, mods) == Action::PrevScreen,
        screen_key(screen, Key::Enter, mods) == Action::Choose,
        screen_key(screen, Key::Esc, mods) == Action::Back,
{
}

/// The keys of the queue: what is selected is played, added, put next, or played
/// with all that is in it. Only on the queue an entry is taken out, or all are.
pub proof fn lemma_queue_keys(screen: Screen, mods: Mods)
    ensures
        char_key(screen, 'a', mods) == Action::Play(PlayMode::Enqueue),
        char_key(screen, 'n', mods) == Action::Play(PlayMode::PlayNext),
        char_key(screen, 'x', mods) == Action::Play(PlayMode::PlayContainer),
        char_key(screen, 'z', mods) == Action::ToggleShuffle,
        char_key(screen, 'R', mods) == Action::CycleRepeat,
        char_key(screen, 'd', mods) == (if screen == Screen::Queue {
            Action::RemoveSelected
        } else {
            Action::Ignore
        }),
        char_key(screen, 'C', mods) == (if screen == Screen::Queue {
            Action::ClearQueue
        } else {
            Action::Ignore
        }),
{
}

/// The keys for the sound and for the rest: a small letter takes away, a large
/// one adds.
pub proof fn lemma_other_keys(screen: Screen, mods: Mods)
    ensures
        char_key(screen, 'b', mods) == Action::NudgeBass(-1i32),
        char_key(screen, 'B', mods) == Action::NudgeBass(1),
        char_key(screen, 'y', mods) == Action::NudgeTreble(-1i32),
        char_key(screen, 'Y', mods) == Action::NudgeTreble(1),
        char_key(screen, 'g', mods) == Action::CycleReplayGain,
        char_key(screen, 'f', mods) == Action::CycleCrossfade,
        char_key(screen, 'F', mods) == Action::CycleOverlap,
        char_key(screen, 'E', mods) == Action::ToggleEq,
        char_key(Screen::Settings, '[', mods) == Action::PrevBand,
        char_key(Screen::Settings, ']', mods) == Action::NextBand,
        mods.shift ==> screen_key(Screen::Settings, Key::Up, mods) == Action::NudgeBand(10),
        mods.shift ==> screen_key(Screen::Settings, Key::Down, mods) == Action::NudgeBand(-10i32),
        char_key(screen, 'm', mods) == Action::UseLocal,
        char_key(screen, 't', mods) == Action::CycleServer,
        char_key(screen, 'r', mods) == Action::Refresh,
        char_key(screen, '/', mods) == Action::FocusSearch,
        char_key(screen, '?', mods) == Action::OpenHelp,
        char_key(screen, 'q', mods) == Action::Quit,
        char_key(screen, 'c', mods) == (if mods.control && !mods.shift && !mods.other {
            Action::Quit
        } else {
            Action::Ignore
        }),
{
}

/// While a search is typed, the field is left with escape or tab, a character is
/// taken back or all are, and what is selected is played, added or put next.
/// While the help is shown, it is closed by the key that opens it, or by escape.
pub proof fn lemma_field_keys(mods: Mods, typing: bool, screen: Screen)
    ensures
        search_key(Key::Esc, mods) == Action::Unfocus,
        search_key(Key::Tab, mods) == Action::Unfocus,
        search_key(Key::Backspace, mods) == Action::Erase,
        search_key(Key::Enter, mods) == Action::Play(PlayMode::PlayNow),
        search_key(Key::Down, mods) == Action::Down(1),
        search_key(Key::Up, mods) == Action::Up(1),
        mods.control ==> search_key(Key::Char('c'), mods) == Action::Quit,
        mods.control ==> search_key(Key::Char('u'), mods) == Action::ClearQuery,
        mods.control ==> search_key(Key::Char('a'), mods) == Action::Play(PlayMode::Enqueue),
        mods.control ==> search_key(Key::Char('n'), mods) == Action::Play(PlayMode::PlayNext),
        key_meaning(true, typing, screen, Key::Esc, mods) == Action::CloseHelp,
        key_meaning(true, typing, screen, Key::Char('?'), mods) == Action::CloseHelp,
        mods.control ==> key_meaning(true, typing, screen, Key::Char('c'), mods) == Action::Quit,
{
}

/// Outside of the search field and the help, a key means what it means on its
/// screen.
pub proof fn lemma_keys_reach_screen(screen: Screen, key: Key, mods: Mods)
    ensures
        key_meaning(false, false, screen, key, mods) == screen_key(screen, key, mods),
        screen != Screen::Search ==> key_meaning(false, true, screen, key, mods) == screen_key(
            screen,
            key,
            mods,
        ),
        key_meaning(false, true, Screen::Search, key, mods) == search_key(key, mods),
        key matches Key::Char(c) ==> screen_key(screen, key, mods) == char_key(screen, c, mods),
{
}

} // verus!
