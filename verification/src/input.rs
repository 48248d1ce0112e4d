//! Client-agnostic input intents.
//!
//! Terminal keys and browser events are first translated into these intents;
//! the session turns them into validated semantic commands. Neither client
//! ever constructs a `Command` directly, so both stay identical in behaviour.
use vstd::prelude::*;

use crate::geometry::{Direction, Point};
use crate::text::push_char;

verus! {

#[derive(Debug, Clone, PartialEq, Eq)]
pub enum Intent {
    /// Move / bump-attack in a direction (arrows, HJKL+YUBN).
    Move(Direction),
    Wait,
    /// Fire the flintlock: enters or confirms target selection.
    Fire,
    /// Fire a silver bullet: enters or confirms target selection.
    FireSilver,
    /// Aim manoeuvre.
    Aim,
    /// Power Attack manoeuvre.
    PowerAttack,
    /// Sprint: captures two direction presses.
    Sprint,
    /// Set Snare: captures one direction press.
    SetSnare,
    /// Killing Blow on an adjacent eligible target.
    KillingBlow,
    /// Drink a wound draught.
    Draught,
    /// Use a binding charm on an adjacent villain.
    Charm,
    /// Context interact: opportunities, travel, crafting, graves, NPCs.
    Interact,
    /// Walk a path to a tile, stopping when anything worth a decision
    /// happens. A click on distant ground, or Enter on the look cursor.
    TravelTo(Point),
    /// Put the look cursor on the next thing in sight.
    NextThreat,
    /// Open the case dossier: what the hunter knows, owes, and carries.
    Dossier,
    /// Open the grimoire.
    Grimoire,
    /// Open the hunter's guide: how a hunt is actually solved.
    Guide,
    /// Open the relationship map.
    Relationships,
    /// Open the region (travel) map.
    RegionMap,
    /// Open the full event log.
    EventLog,
    /// Toggle look mode: detach an inspection cursor from the hunter.
    ToggleLook,
    /// Fire the action at this index in the current action list (clicks on
    /// the on-screen action panel).
    DoAction(usize),
    /// Menu navigation.
    Up,
    Down,
    Confirm,
    Cancel,
    /// Pick the row at this index directly, as a mouse click on a menu does.
    /// On a menu whose rows do something, this also activates the row; on a
    /// reference list it just moves the selection.
    Select(usize),
    /// Move the highlight to this row without activating it: the mouse is
    /// merely over it. Keeps keyboard and mouse agreeing about what is
    /// selected, so confirming after hovering does what the highlight shows.
    HoverRow(usize),
    /// Text entry for seed / share-code screens.
    Char(char),
    Backspace,
    Paste(String),
    /// Mouse hover over a map tile (map coordinates).
    Hover(Point),
    /// Mouse hover left the map.
    HoverClear,
    /// Mouse click on a map tile (map coordinates).
    Click(Point),
    /// Copy the current share code (client performs the clipboard part).
    CopyCode,
}

/// A platform-neutral key press. Each client maps its raw events onto
/// these; what a key *means* is decided once, in [`intent_for_key`], so the
/// clients cannot disagree.
#[derive(Debug, Clone, Copy, PartialEq, Eq, Structural)]
pub enum Key {
    Char(char),
    Up,
    Down,
    Left,
    Right,
    Enter,
    Escape,
    Backspace,
    Tab,
    Home,
    End,
    PageUp,
    PageDown,
    /// Numpad 5 with NumLock off.
    Clear,
}

/// How the session is currently listening.
#[derive(Debug, Clone, Copy, PartialEq, Eq, Structural)]
pub enum InputMode {
    /// Seed or share-code entry: characters go to the field.
    TextEntry,
    /// A modal or a non-run screen: arrows and jk are list navigation.
    ListNav,
    /// The run screen proper: arrows and the roguelike keys move the hunter.
    Tactical,
}

/// The run screen's character bindings: one table that the key translator
/// and the action panel both read, so what is pressed and what is printed
/// beside an action can never disagree. Movement characters (hjkl, yubn,
/// the numpad) live in [`intent_for_key`] because their meaning depends on
/// the input mode.
pub open spec fn spec_char_bindings() -> Seq<(char, Intent)> {
    seq![
        ('e', Intent::Interact),
        (';', Intent::ToggleLook),
        ('.', Intent::Wait),
        (' ', Intent::Wait),
        ('f', Intent::Fire),
        ('a', Intent::Aim),
        ('p', Intent::PowerAttack),
        ('s', Intent::Sprint),
        ('x', Intent::SetSnare),
        ('q', Intent::Draught),
        ('c', Intent::Charm),
        ('d', Intent::Dossier),
        ('g', Intent::Grimoire),
        ('r', Intent::Relationships),
        ('v', Intent::RegionMap),
        ('i', Intent::Guide),
        // The universal help key opens the guide too, so a lost player who
        // reaches for '?' finds how a hunt is solved rather than nothing.
        ('?', Intent::Guide),
    ]
}

fn char_bindings() -> (r: Vec<(char, Intent)>)
    ensures
        r@ == spec_char_bindings(),
{
    let r = vec![
        ('e', Intent::Interact),
        (';', Intent::ToggleLook),
        ('.', Intent::Wait),
        (' ', Intent::Wait),
        ('f', Intent::Fire),
        ('a', Intent::Aim),
        ('p', Intent::PowerAttack),
        ('s', Intent::Sprint),
        ('x', Intent::SetSnare),
        ('q', Intent::Draught),
        ('c', Intent::Charm),
        ('d', Intent::Dossier),
        ('g', Intent::Grimoire),
        ('r', Intent::Relationships),
        ('v', Intent::RegionMap),
        ('i', Intent::Guide),
        ('?', Intent::Guide),
    ];
    proof {
        assert(r@ =~= spec_char_bindings());
    }
    r
}

/// How the player drives the hunter.
///
/// The two schemes differ in one thing that then decides another: whether
/// the letter keys steer. Under [`ControlScheme::Numpad`] they do not, which
/// frees `b`, `k` and `l` for the three commands that would otherwise need
/// a capital, so the whole scheme can be played without reaching for shift.
#[derive(Debug, Clone, Copy, PartialEq, Eq, Structural, Default)]
pub enum ControlScheme {
    /// Numpad and arrows steer; every command is a lowercase letter.
    #[default]
    Numpad,
    /// The roguelike hands: hjkl and yubn steer, and the three commands
    /// whose letters those take are capitals instead.
    Roguelike,
}

impl ControlScheme {
    /// The bindings this scheme adds on top of the common table.
    pub open spec fn spec_extra_bindings(self) -> Seq<(char, Intent)> {
        match self {
            ControlScheme::Numpad => seq![('b', Intent::FireSilver), ('k', Intent::KillingBlow), ('l', Intent::EventLog)],
            ControlScheme::Roguelike => seq![('F', Intent::FireSilver), ('K', Intent::KillingBlow), ('L', Intent::EventLog)],
        }
    }

    /// Every binding in force under this scheme, common table first.
    pub open spec fn spec_bindings(self) -> Seq<(char, Intent)> {
        spec_char_bindings() + self.spec_extra_bindings()
    }

    pub fn next(self) -> (r: Self)
        ensures
            r != self,
    {
        match self {
            ControlScheme::Numpad => ControlScheme::Roguelike,
            ControlScheme::Roguelike => ControlScheme::Numpad,
        }
    }

    /// String id for the scheme's name, shown on the splash.
    pub fn label_id(self) -> (r: &'static str)
        ensures
            r@ == match self {
                ControlScheme::Numpad => "ui.controls.numpad"@,
                ControlScheme::Roguelike => "ui.controls.roguelike"@,
            },
    {
        match self {
            ControlScheme::Numpad => "ui.controls.numpad",
            ControlScheme::Roguelike => "ui.controls.roguelike",
        }
    }

    /// String id for how this scheme steers, shown in the splash's keys
    /// column. Letters only appear here when they actually move the hunter.
    pub fn steer_id(self) -> (r: &'static str)
        ensures
            r@ == match self {
                ControlScheme::Numpad => "ui.controls.numpad.steer"@,
                ControlScheme::Roguelike => "ui.controls.roguelike.steer"@,
            },
    {
        match self {
            ControlScheme::Numpad => "ui.controls.numpad.steer",
            ControlScheme::Roguelike => "ui.controls.roguelike.steer",
        }
    }

    /// The bindings this scheme adds on top of the common table.
    fn extra_bindings(self) -> (r: Vec<(char, Intent)>)
        ensures
            r@ == self.spec_extra_bindings(),
    {
        let r = match self {
            // Letters are free here, so the awkward capitals become lowercase.
            ControlScheme::Numpad => vec![('b', Intent::FireSilver), ('k', Intent::KillingBlow), ('l', Intent::EventLog)],
            ControlScheme::Roguelike => vec![('F', Intent::FireSilver), ('K', Intent::KillingBlow), ('L', Intent::EventLog)],
        };
        proof {
            assert(r@ =~= self.spec_extra_bindings());
        }
        r
    }

    /// Every binding in force under this scheme, common table first.
    fn bindings(self) -> (r: Vec<(char, Intent)>)
        ensures
            r@ == self.spec_bindings(),
    {
        let mut all = char_bindings();
        let mut extra = self.extra_bindings();
        all.append(&mut extra);
        all
    }
}

/// The intent bound to `c` by the first binding (from `i` on) that names it.
pub open spec fn bound_intent(bindings: Seq<(char, Intent)>, c: char, i: int) -> Option<Intent>
    decreases bindings.len() - i,
{
    if i < 0 || i >= bindings.len() {
        None
    } else if bindings[i].0 == c {
        Some(bindings[i].1)
    } else {
        bound_intent(bindings, c, i + 1)
    }
}

/// The key of the first binding (from `i` on) for `intent`.
pub open spec fn bound_key(bindings: Seq<(char, Intent)>, intent: Intent, i: int) -> Option<char>
    decreases bindings.len() - i,
{
    if i < 0 || i >= bindings.len() {
        None
    } else if bindings[i].1 == intent {
        Some(bindings[i].0)
    } else {
        bound_key(bindings, intent, i + 1)
    }
}

/// Roguelike numpad movement: 1-9 laid out like the keypad, 5 waits.
pub open spec fn spec_numpad_move(c: char) -> Option<Intent> {
    if c == '1' {
        Some(Intent::Move(Direction::SouthWest))
    } else if c == '2' {
        Some(Intent::Move(Direction::South))
    } else if c == '3' {
        Some(Intent::Move(Direction::SouthEast))
    } else if c == '4' {
        Some(Intent::Move(Direction::West))
    } else if c == '5' {
        Some(Intent::Wait)
    } else if c == '6' {
        Some(Intent::Move(Direction::East))
    } else if c == '7' {
        Some(Intent::Move(Direction::NorthWest))
    } else if c == '8' {
        Some(Intent::Move(Direction::North))
    } else if c == '9' {
        Some(Intent::Move(Direction::NorthEast))
    } else {
        None
    }
}

/// The hjkl/yubn steering of the roguelike scheme.
pub open spec fn spec_roguelike_move(c: char) -> Option<Intent> {
    if c == 'j' {
        Some(Intent::Move(Direction::South))
    } else if c == 'k' {
        Some(Intent::Move(Direction::North))
    } else if c == 'h' {
        Some(Intent::Move(Direction::West))
    } else if c == 'l' {
        Some(Intent::Move(Direction::East))
    } else if c == 'y' {
        Some(Intent::Move(Direction::NorthWest))
    } else if c == 'u' {
        Some(Intent::Move(Direction::NorthEast))
    } else if c == 'b' {
        Some(Intent::Move(Direction::SouthWest))
    } else if c == 'n' {
        Some(Intent::Move(Direction::SouthEast))
    } else {
        None
    }
}

pub open spec fn spec_char_intent(c: char, scheme: ControlScheme, in_menu: bool) -> Option<Intent> {
    if !in_menu && spec_numpad_move(c) is Some {
        spec_numpad_move(c)
    } else if in_menu && c == 'j' {
        Some(Intent::Down)
    } else if in_menu && c == 'k' {
        Some(Intent::Up)
    } else if !in_menu && scheme == ControlScheme::Roguelike && spec_roguelike_move(c) is Some {
        spec_roguelike_move(c)
    } else {
        bound_intent(scheme.spec_bindings(), c, 0)
    }
}

pub open spec fn spec_intent_for_key(mode: InputMode, scheme: ControlScheme, key: Key) -> Option<Intent> {
    if mode == InputMode::TextEntry {
        match key {
            Key::Char(c) => Some(Intent::Char(c)),
            Key::Backspace => Some(Intent::Backspace),
            Key::Enter => Some(Intent::Confirm),
            Key::Escape => Some(Intent::Cancel),
            _ => None,
        }
    } else {
        let in_menu = mode == InputMode::ListNav;
        match key {
            Key::Escape => Some(Intent::Cancel),
            Key::Enter => Some(Intent::Confirm),
            Key::Tab => if !in_menu {
                Some(Intent::NextThreat)
            } else {
                None
            },
            Key::Up => if in_menu {
                Some(Intent::Up)
            } else {
                Some(Intent::Move(Direction::North))
            },
            Key::Down => if in_menu {
                Some(Intent::Down)
            } else {
                Some(Intent::Move(Direction::South))
            },
            Key::Left => Some(Intent::Move(Direction::West)),
            Key::Right => Some(Intent::Move(Direction::East)),
            Key::Home => if !in_menu {
                Some(Intent::Move(Direction::NorthWest))
            } else {
                None
            },
            Key::PageUp => if !in_menu {
                Some(Intent::Move(Direction::NorthEast))
            } else {
                None
            },
            Key::End => if !in_menu {
                Some(Intent::Move(Direction::SouthWest))
            } else {
                None
            },
            Key::PageDown => if !in_menu {
                Some(Intent::Move(Direction::SouthEast))
            } else {
                None
            },
            Key::Clear => if !in_menu {
                Some(Intent::Wait)
            } else {
                None
            },
            Key::Char(c) => spec_char_intent(c, scheme, in_menu),
            Key::Backspace => None,
        }
    }
}

/// The key an action's hint names: Tab for the look sweep, otherwise the
/// first character bound to it.
pub open spec fn spec_label_key(scheme: ControlScheme, intent: Intent) -> Option<Key> {
    if intent == Intent::NextThreat {
        Some(Key::Tab)
    } else {
        match bound_key(scheme.spec_bindings(), intent, 0) {
            Some(c) => Some(Key::Char(c)),
            None => None,
        }
    }
}

/// The digit keys are laid out like a keypad: a digit's column (1, 2, 3
/// left to right) and row (7-9 top, 1-3 bottom) are the direction it moves,
/// and 5 in the middle waits.
pub proof fn lemma_digits_move_like_a_keypad(scheme: ControlScheme, d: int)
    requires
        1 <= d <= 9,
    ensures
        d == 5 ==> spec_intent_for_key(InputMode::Tactical, scheme, Key::Char(('0' as int + d) as char)) == Some(
            Intent::Wait,
        ),
        d != 5 ==> (spec_intent_for_key(InputMode::Tactical, scheme, Key::Char(('0' as int + d) as char)) matches Some(
            Intent::Move(dir),
        ) && dir.spec_delta() == ((d - 1) % 3 - 1, 1 - (d - 1) / 3)),
{
    let c = ('0' as int + d) as char;
    if d == 1 {
        assert(c == '1');
    } else if d == 2 {
        assert(c == '2');
    } else if d == 3 {
        assert(c == '3');
    } else if d == 4 {
        assert(c == '4');
    } else if d == 5 {
        assert(c == '5');
    } else if d == 6 {
        assert(c == '6');
    } else if d == 7 {
        assert(c == '7');
    } else if d == 8 {
        assert(c == '8');
    } else {
        assert(c == '9');
    }
}

/// On the run screen a numpad with NumLock off moves as its digits do,
/// whatever the scheme: Home, Up and PageUp are 7, 8 and 9; Left, Clear and
/// Right are 4, 5 and 6; End, Down and PageDown are 1, 2 and 3.
pub proof fn lemma_navigation_keys_match_their_digits(scheme: ControlScheme)
    ensures
        spec_intent_for_key(InputMode::Tactical, scheme, Key::Home) == spec_intent_for_key(
            InputMode::Tactical,
            scheme,
            Key::Char('7'),
        ),
        spec_intent_for_key(InputMode::Tactical, scheme, Key::Up) == spec_intent_for_key(
            InputMode::Tactical,
            scheme,
            Key::Char('8'),
        ),
        spec_intent_for_key(InputMode::Tactical, scheme, Key::PageUp) == spec_intent_for_key(
            InputMode::Tactical,
            scheme,
            Key::Char('9'),
        ),
        spec_intent_for_key(InputMode::Tactical, scheme, Key::Left) == spec_intent_for_key(
            InputMode::Tactical,
            scheme,
            Key::Char('4'),
        ),
        spec_intent_for_key(InputMode::Tactical, scheme, Key::Clear) == spec_intent_for_key(
            InputMode::Tactical,
            scheme,
            Key::Char('5'),
        ),
        spec_intent_for_key(InputMode::Tactical, scheme, Key::Right) == spec_intent_for_key(
            InputMode::Tactical,
            scheme,
            Key::Char('6'),
        ),
        spec_intent_for_key(InputMode::Tactical, scheme, Key::End) == spec_intent_for_key(
            InputMode::Tactical,
            scheme,
            Key::Char('1'),
        ),
        spec_intent_for_key(InputMode::Tactical, scheme, Key::Down) == spec_intent_for_key(
            InputMode::Tactical,
            scheme,
            Key::Char('2'),
        ),
        spec_intent_for_key(InputMode::Tactical, scheme, Key::PageDown) == spec_intent_for_key(
            InputMode::Tactical,
            scheme,
            Key::Char('3'),
        ),
{
}

/// Translate a key press into the intent it means under the given mode.
/// Pure and total over the binding tables; the session wraps it with the
/// mode it is actually in.
pub fn intent_for_key(mode: InputMode, scheme: ControlScheme, key: Key) -> (r: Option<Intent>)
    ensures
        r == spec_intent_for_key(mode, scheme, key),
{
    if mode == InputMode::TextEntry {
        return match key {
            Key::Char(c) => Some(Intent::Char(c)),
            Key::Backspace => Some(Intent::Backspace),
            Key::Enter => Some(Intent::Confirm),
            Key::Escape => Some(Intent::Cancel),
            _ => None,
        };
    }
    let in_menu = mode == InputMode::ListNav;
    match key {
        Key::Escape => Some(Intent::Cancel),
        Key::Enter => Some(Intent::Confirm),
        // Tab sweeps the look cursor over everything in sight.
        Key::Tab => if !in_menu {
            Some(Intent::NextThreat)
        } else {
            None
        },
        Key::Up => if in_menu {
            Some(Intent::Up)
        } else {
            Some(Intent::Move(Direction::North))
        },
        Key::Down => if in_menu {
            Some(Intent::Down)
        } else {
            Some(Intent::Move(Direction::South))
        },
        Key::Left => Some(Intent::Move(Direction::West)),
        Key::Right => Some(Intent::Move(Direction::East)),
        // Numpad diagonals (NumLock off sends these navigation keys).
        Key::Home => if !in_menu {
            Some(Intent::Move(Direction::NorthWest))
        } else {
            None
        },
        Key::PageUp => if !in_menu {
            Some(Intent::Move(Direction::NorthEast))
        } else {
            None
        },
        Key::End => if !in_menu {
            Some(Intent::Move(Direction::SouthWest))
        } else {
            None
        },
        Key::PageDown => if !in_menu {
            Some(Intent::Move(Direction::SouthEast))
        } else {
            None
        },
        Key::Clear => if !in_menu {
            Some(Intent::Wait)
        } else {
            None
        },
        Key::Char(c) => char_intent(c, scheme, in_menu),
        Key::Backspace => None,
    }
}

fn roguelike_move(c: char) -> (r: Option<Intent>)
    ensures
        r == spec_roguelike_move(c),
{
    match c {
        'j' => Some(Intent::Move(Direction::South)),
        'k' => Some(Intent::Move(Direction::North)),
        'h' => Some(Intent::Move(Direction::West)),
        'l' => Some(Intent::Move(Direction::East)),
        'y' => Some(Intent::Move(Direction::NorthWest)),
        'u' => Some(Intent::Move(Direction::NorthEast)),
        'b' => Some(Intent::Move(Direction::SouthWest)),
        'n' => Some(Intent::Move(Direction::SouthEast)),
        _ => None,
    }
}

fn char_intent(c: char, scheme: ControlScheme, in_menu: bool) -> (r: Option<Intent>)
    ensures
        r == spec_char_intent(c, scheme, in_menu),
{
    // Numpad digits (NumLock on) are roguelike movement in the run screen.
    if !in_menu {
        match numpad_move(c) {
            Some(intent) => {
                return Some(intent);
            },
            None => {},
        }
    }
    // jk always navigate a list, whichever scheme is in force: every other
    // list key is shared too, and a menu is not a place you steer.
    if in_menu {
        if c == 'j' {
            return Some(Intent::Down);
        }
        if c == 'k' {
            return Some(Intent::Up);
        }
    } else if scheme == ControlScheme::Roguelike {
        match roguelike_move(c) {
            Some(intent) => {
                return Some(intent);
            },
            None => {},
        }
    }
    let mut table = scheme.bindings();
    let mut k: usize = 0;
    while k < table.len()
        invariant
            k <= table.len(),
            table@ == scheme.spec_bindings(),
            spec_char_intent(c, scheme, in_menu) == bound_intent(table@, c, 0),
            bound_intent(table@, c, 0) == bound_intent(table@, c, k as int),
        decreases table.len() - k,
    {
        if table[k].0 == c {
            let ghost before = table@;
            let (_, intent) = table.remove(k);
            proof {
                assert(before[k as int].1 == intent);
                assert(bound_intent(before, c, k as int) == Some(intent));
            }
            return Some(intent);
        }
        k = k + 1;
    }
    None
}

/// Roguelike numpad movement: 1-9 laid out like the keypad, 5 waits.
fn numpad_move(c: char) -> (r: Option<Intent>)
    ensures
        r == spec_numpad_move(c),
{
    match c {
        '1' => Some(Intent::Move(Direction::SouthWest)),
        '2' => Some(Intent::Move(Direction::South)),
        '3' => Some(Intent::Move(Direction::SouthEast)),
        '4' => Some(Intent::Move(Direction::West)),
        '5' => Some(Intent::Wait),
        '6' => Some(Intent::Move(Direction::East)),
        '7' => Some(Intent::Move(Direction::NorthWest)),
        '8' => Some(Intent::Move(Direction::North)),
        '9' => Some(Intent::Move(Direction::NorthEast)),
        _ => None,
    }
}

/// Whether a binding's intent is `intent`. Every intent in the binding
/// tables carries no data, so comparing variants compares the values.
fn binds(bound: &Intent, intent: &Intent) -> (r: bool)
    ensures
        is_plain(*bound) ==> r == (*bound == *intent),
{
    match bound {
        Intent::Interact => matches!(intent, Intent::Interact),
        Intent::ToggleLook => matches!(intent, Intent::ToggleLook),
        Intent::Wait => matches!(intent, Intent::Wait),
        Intent::Fire => matches!(intent, Intent::Fire),
        Intent::FireSilver => matches!(intent, Intent::FireSilver),
        Intent::Aim => matches!(intent, Intent::Aim),
        Intent::PowerAttack => matches!(intent, Intent::PowerAttack),
        Intent::Sprint => matches!(intent, Intent::Sprint),
        Intent::SetSnare => matches!(intent, Intent::SetSnare),
        Intent::KillingBlow => matches!(intent, Intent::KillingBlow),
        Intent::Draught => matches!(intent, Intent::Draught),
        Intent::Charm => matches!(intent, Intent::Charm),
        Intent::Dossier => matches!(intent, Intent::Dossier),
        Intent::Grimoire => matches!(intent, Intent::Grimoire),
        Intent::Guide => matches!(intent, Intent::Guide),
        Intent::Relationships => matches!(intent, Intent::Relationships),
        Intent::RegionMap => matches!(intent, Intent::RegionMap),
        Intent::EventLog => matches!(intent, Intent::EventLog),
        _ => false,
    }
}

/// The intents a binding table may hold: those without data.
pub open spec fn is_plain(intent: Intent) -> bool {
    ||| intent is Interact
    ||| intent is ToggleLook
    ||| intent is Wait
    ||| intent is Fire
    ||| intent is FireSilver
    ||| intent is Aim
    ||| intent is PowerAttack
    ||| intent is Sprint
    ||| intent is SetSnare
    ||| intent is KillingBlow
    ||| intent is Draught
    ||| intent is Charm
    ||| intent is Dossier
    ||| intent is Grimoire
    ||| intent is Guide
    ||| intent is Relationships
    ||| intent is RegionMap
    ||| intent is EventLog
}

/// The key hint printed beside an action, read back off the same table
/// that translates the press.
pub fn key_label(scheme: ControlScheme, intent: &Intent) -> (r: Option<String>)
    ensures
        r is Some <==> spec_label_key(scheme, *intent) is Some,
        spec_label_key(scheme, *intent) == Some(Key::Tab) ==> r.unwrap()@ == "Tab"@,
        spec_label_key(scheme, *intent) matches Some(Key::Char(c)) ==> r.unwrap()@ == seq![c],
{
    if matches!(intent, Intent::NextThreat) {
        let mut tab = String::new();
        crate::text::push_text(&mut tab, "Tab");
        return Some(tab);
    }
    let table = scheme.bindings();
    proof {
        assert forall|i: int| 0 <= i < table@.len() implies is_plain(#[trigger] table@[i].1) by {
            assert(table@ == spec_char_bindings() + scheme.spec_extra_bindings());
        }
    }
    let mut k: usize = 0;
    while k < table.len()
        invariant
            k <= table.len(),
            table@ == scheme.spec_bindings(),
            forall|i: int| 0 <= i < table@.len() ==> is_plain(#[trigger] table@[i].1),
            bound_key(table@, *intent, 0) == bound_key(table@, *intent, k as int),
        decreases table.len() - k,
    {
        if binds(&table[k].1, intent) {
            let mut label = String::new();
            push_char(&mut label, table[k].0);
            return Some(label);
        }
        k = k + 1;
    }
    None
}

/// What is printed beside an action is a key that performs it: on the run
/// screen, pressing the labelled key yields exactly the labelled intent.
pub proof fn lemma_label_presses_its_intent(scheme: ControlScheme, intent: Intent)
    requires
        spec_label_key(scheme, intent) is Some,
    ensures
        spec_intent_for_key(InputMode::Tactical, scheme, spec_label_key(scheme, intent).unwrap()) == Some(intent),
{
    reveal_with_fuel(bound_key, 22);
    reveal_with_fuel(bound_intent, 22);
    let table = scheme.spec_bindings();
    assert(table =~= spec_char_bindings() + scheme.spec_extra_bindings());
}

} // verus!
