//! What holds of the keys, the palette and the names of people.

use vstd::prelude::*;

use crate::app::keymap::{
    binding, digit_value, key_named, mapped, number, Action, KeyCode, KeyEvent, KeyModifiers, Mode, Prefix,
};
use crate::layout::tiling::Dir;
use crate::text::{before, decimal, digit, lemma_before_is};

verus! {

// ------------------------------------------------------------------------------ keys

/// A key with these modifiers.
pub open spec fn press(code: KeyCode, modifiers: KeyModifiers) -> KeyEvent {
    KeyEvent { code, modifiers }
}

/// What a key does while the transcript has the keyboard, where it is not the prefix.
pub open spec fn read_key(code: KeyCode, m: KeyModifiers, prefix: Prefix) -> Action {
    mapped(press(code, m), Mode::Normal, prefix).0
}

/// What a key does behind the prefix.
pub open spec fn prefixed_key(c: char, m: KeyModifiers, prefix: Prefix) -> Action {
    mapped(press(KeyCode::Char(c), m), Mode::Prefix, prefix).0
}

/// Whether none of these keys is the prefix.
pub open spec fn all_free(codes: Seq<KeyCode>, m: KeyModifiers, prefix: Prefix) -> bool {
    forall|i: int| 0 <= i < codes.len() ==> !prefix.is_pressed(press(#[trigger] codes[i], m))
}

/// Whether two actions scroll by the same number of lines, the first up and the second down.
pub open spec fn opposite(up: Action, down: Action) -> bool {
    match (up, down) {
        (Action::ScrollUp(a), Action::ScrollDown(b)) => a == b && a > 0,
        _ => false,
    }
}

/// Keys that point up scroll up and keys that point down scroll down, as far as one another; a
/// page is further than a step of the control keys, and that further than a line.
pub proof fn law_up_is_up_and_down_is_down(m: KeyModifiers, prefix: Prefix)
    requires
        all_free(
            seq![
                KeyCode::Up,
                KeyCode::Down,
                KeyCode::PageUp,
                KeyCode::PageDown,
                KeyCode::Char('k'),
                KeyCode::Char('j'),
                KeyCode::Char('u'),
                KeyCode::Char('d'),
            ],
            m,
            prefix,
        ),
    ensures
        opposite(read_key(KeyCode::Up, m, prefix), read_key(KeyCode::Down, m, prefix)),
        opposite(read_key(KeyCode::PageUp, m, prefix), read_key(KeyCode::PageDown, m, prefix)),
        opposite(read_key(KeyCode::Char('k'), m, prefix), read_key(KeyCode::Char('j'), m, prefix)),
        m.control ==> opposite(read_key(KeyCode::Char('u'), m, prefix), read_key(KeyCode::Char('d'), m, prefix)),
        read_key(KeyCode::Up, m, prefix) == read_key(KeyCode::Char('k'), m, prefix),
        read_key(KeyCode::Up, m, prefix)->ScrollUp_0 == 1,
        m.control ==> read_key(KeyCode::Char('u'), m, prefix)->ScrollUp_0 == 10,
        read_key(KeyCode::PageUp, m, prefix)->ScrollUp_0 == 20,
        !m.control ==> read_key(KeyCode::Char('u'), m, prefix) is Ignore,
        !m.control ==> read_key(KeyCode::Char('d'), m, prefix) is Ignore,
{
    let codes = seq![
        KeyCode::Up,
        KeyCode::Down,
        KeyCode::PageUp,
        KeyCode::PageDown,
        KeyCode::Char('k'),
        KeyCode::Char('j'),
        KeyCode::Char('u'),
        KeyCode::Char('d'),
    ];
    assert(!prefix.is_pressed(press(codes[0], m)));
    assert(!prefix.is_pressed(press(codes[1], m)));
    assert(!prefix.is_pressed(press(codes[2], m)));
    assert(!prefix.is_pressed(press(codes[3], m)));
    assert(!prefix.is_pressed(press(codes[4], m)));
    assert(!prefix.is_pressed(press(codes[5], m)));
    assert(!prefix.is_pressed(press(codes[6], m)));
    assert(!prefix.is_pressed(press(codes[7], m)));
}

/// While the transcript has the keyboard, a letter acts on what is selected or asked, and the
/// transcript keeps the keyboard unless a message is to be written.
pub proof fn law_letters_act_on_the_transcript(c: char, m: KeyModifiers, prefix: Prefix)
    requires
        !prefix.is_pressed(press(KeyCode::Char(c), m)),
    ensures
        c == 'y' <==> read_key(KeyCode::Char(c), m, prefix) is Approve,
        c == 'n' <==> read_key(KeyCode::Char(c), m, prefix) is Deny,
        c == 'r' <==> read_key(KeyCode::Char(c), m, prefix) is Reply,
        c == 'e' <==> read_key(KeyCode::Char(c), m, prefix) is EditMessage,
        c == 'D' <==> read_key(KeyCode::Char(c), m, prefix) is RedactMessage,
        c == 'g' <==> read_key(KeyCode::Char(c), m, prefix) is ScrollTop,
        c == 'G' <==> read_key(KeyCode::Char(c), m, prefix) is ScrollBottom,
        c == 'q' <==> read_key(KeyCode::Char(c), m, prefix) is Quit,
        c == ':' <==> read_key(KeyCode::Char(c), m, prefix) is CommandPalette,
        c == 'i' <==> read_key(KeyCode::Char(c), m, prefix) is EnterInsert,
        c == 'i' <==> mapped(press(KeyCode::Char(c), m), Mode::Normal, prefix).1 is Insert,
        c != 'i' <==> mapped(press(KeyCode::Char(c), m), Mode::Normal, prefix).1 is Normal,
{
}

/// The keys without a letter do what is on them, and only a tab unfolds a card.
pub proof fn law_other_keys_of_the_transcript(code: KeyCode, m: KeyModifiers, prefix: Prefix)
    requires
        !(code is Char),
        !prefix.is_pressed(press(code, m)),
    ensures
        code is Tab <==> read_key(code, m, prefix) is ToggleCard,
        mapped(press(code, m), Mode::Normal, prefix).1 is Normal,
        code is Esc || code is Enter || code is Backspace || code is Delete || code is Left || code is Right
            || code is Home || code is End || code is F || code is Other ==> read_key(code, m, prefix) is Ignore,
{
}

/// Whether these two keys move the focus and a border the same way.
pub open spec fn points(small: char, large: char, dir: Dir, m: KeyModifiers, prefix: Prefix) -> bool {
    &&& prefixed_key(small, m, prefix) == Action::FocusPane(dir)
    &&& prefixed_key(large, m, prefix) == Action::ResizePane(dir)
}

/// Behind the prefix, a small letter moves the focus where the large one moves a border: left,
/// down, up and right stand in a row on the keyboard.
pub proof fn law_directions_behind_the_prefix(m: KeyModifiers, prefix: Prefix)
    ensures
        points('h', 'H', Dir::Left, m, prefix),
        points('j', 'J', Dir::Down, m, prefix),
        points('k', 'K', Dir::Up, m, prefix),
        points('l', 'L', Dir::Right, m, prefix),
        prefixed_key('|', m, prefix) == Action::Split(Dir::Right),
        prefixed_key('\\', m, prefix) == prefixed_key('|', m, prefix),
        prefixed_key('-', m, prefix) == Action::Split(Dir::Down),
        prefixed_key('_', m, prefix) == prefixed_key('-', m, prefix),
{
}

/// Behind the prefix, each letter has a command of its own, and no other key has it.
pub proof fn law_commands_behind_the_prefix(c: char, m: KeyModifiers, prefix: Prefix)
    ensures
        c == 'z' <==> prefixed_key(c, m, prefix) is ZoomPane,
        c == 'x' <==> prefixed_key(c, m, prefix) is ClosePane,
        c == 'c' <==> prefixed_key(c, m, prefix) is NewThread,
        c == 't' <==> prefixed_key(c, m, prefix) is OpenThreads,
        c == 'n' <==> prefixed_key(c, m, prefix) is NextTab,
        c == 'p' <==> prefixed_key(c, m, prefix) is PrevTab,
        c == 'w' <==> prefixed_key(c, m, prefix) is NextWorkspace,
        c == 'W' <==> prefixed_key(c, m, prefix) is PrevWorkspace,
        c == 'f' <==> prefixed_key(c, m, prefix) is FuzzyJump,
        c == 'r' <==> prefixed_key(c, m, prefix) is ReactToSelected,
        c == 'e' <==> prefixed_key(c, m, prefix) is EmojiIntoComposer,
        c == 'v' <==> prefixed_key(c, m, prefix) is StartVerification,
        c == 'R' <==> prefixed_key(c, m, prefix) is OpenRecovery,
        c == 'a' <==> prefixed_key(c, m, prefix) is JoinRoom,
        c == 'X' <==> prefixed_key(c, m, prefix) is LeaveRoom,
        c == '?' <==> prefixed_key(c, m, prefix) is ToggleHelp,
        c == 'q' <==> prefixed_key(c, m, prefix) is Quit,
{
}

/// While a message is written, enter sends it and shift makes of that a new line; backspace takes
/// back; escape leaves the composer, and nothing else does but the prefix. A control key types
/// nothing.
pub proof fn law_keys_of_the_composer(key: KeyEvent, prefix: Prefix)
    requires
        !prefix.is_pressed(key),
    ensures
        ({
            let (action, mode) = mapped(key, Mode::Insert, prefix);
            &&& key.code is Esc <==> mode is Normal
            &&& !(key.code is Esc) <==> mode is Insert
            &&& key.code is Esc <==> action is EnterNormal
            &&& key.code is Backspace <==> action is Backspace
            &&& key.code is Enter && key.modifiers.shift <==> action is Newline
            &&& key.code is Enter && !key.modifiers.shift <==> action is Submit
            &&& key.code is Char && !key.modifiers.control <==> action is Insert
            &&& action is Insert ==> action->Insert_0 == key.code->Char_0
        }),
{
}

/// A key is the prefix exactly where it is that key with those modifiers: no more of them, no
/// fewer.
pub proof fn law_the_prefix_is_one_key(prefix: Prefix, key: KeyEvent)
    ensures
        prefix.is_pressed(key) <==> key.code == prefix.code && key.modifiers.control == prefix.modifiers.control
            && key.modifiers.alt == prefix.modifiers.alt && key.modifiers.shift == prefix.modifiers.shift,
{
}

/// The name of a modifier in front of a binding adds that modifier to it, and nothing else.
pub proof fn law_a_modifier_is_added_to_its_key(rest: Seq<char>, m: KeyModifiers)
    ensures
        binding("ctrl"@ + seq!['+'] + rest, m) == binding(rest, KeyModifiers { control: true, ..m }),
        binding("control"@ + seq!['+'] + rest, m) == binding(rest, KeyModifiers { control: true, ..m }),
        binding("alt"@ + seq!['+'] + rest, m) == binding(rest, KeyModifiers { alt: true, ..m }),
        binding("meta"@ + seq!['+'] + rest, m) == binding(rest, KeyModifiers { alt: true, ..m }),
        binding("shift"@ + seq!['+'] + rest, m) == binding(rest, KeyModifiers { shift: true, ..m }),
{
    reveal_strlit("ctrl");
    reveal_strlit("control");
    reveal_strlit("alt");
    reveal_strlit("meta");
    reveal_strlit("shift");
    lemma_modifier_read("ctrl"@, rest, m);
    lemma_modifier_read("control"@, rest, m);
    lemma_modifier_read("alt"@, rest, m);
    lemma_modifier_read("meta"@, rest, m);
    lemma_modifier_read("shift"@, rest, m);
    assert("alt"@.len() == 3 && "ctrl"@.len() == 4 && "meta"@.len() == 4 && "shift"@.len() == 5 && "control"@.len() == 7);
    assert("ctrl"@[0] == 'c' && "meta"@[0] == 'm');
}

proof fn lemma_modifier_read(name: Seq<char>, rest: Seq<char>, m: KeyModifiers)
    requires
        forall|i: int| 0 <= i < name.len() ==> name[i] != '+',
    ensures
        binding(name + seq!['+'] + rest, m) == (match crate::app::keymap::with_modifier(m, name) {
            Some(more) => binding(rest, more),
            None => None,
        }),
{
    let s = name + seq!['+'] + rest;
    let n = name.len() as int;
    assert(s[n] == '+');
    assert forall|i: int| 0 <= i < n implies s[i] != '+' by {
        assert(s[i] == name[i]);
    }
    lemma_before_is(s, '+', n);
    assert(s.take(n) =~= name);
    assert(s.skip(n + 1) =~= rest);
}

/// A single character names the key that types it, with the modifiers that stood before it; a
/// function key is named by its number.
pub proof fn law_a_key_is_named_by_what_is_on_it(c: char, n: nat, m: KeyModifiers)
    requires
        c != '+',
        n <= 255,
    ensures
        binding(seq![c], m) == Some(Prefix { code: KeyCode::Char(c), modifiers: m }),
        key_named(seq!['f'] + decimal(n)) == Some(KeyCode::F(n as u8)),
        key_named("space"@) == Some(KeyCode::Char(' ')),
        key_named("tab"@) == Some(KeyCode::Tab),
        key_named("enter"@) == Some(KeyCode::Enter),
        key_named("return"@) == Some(KeyCode::Enter),
        key_named("esc"@) == Some(KeyCode::Esc),
        key_named("escape"@) == Some(KeyCode::Esc),
{
    reveal_strlit("esc");
    reveal_strlit("escape");
    reveal_strlit("tab");
    reveal_strlit("space");
    reveal_strlit("enter");
    reveal_strlit("return");
    let one = seq![c];
    lemma_before_is(one, '+', 1);
    assert(one.skip(1) =~= Seq::<char>::empty());
    assert(number(Seq::<char>::empty()) is None);
    let s = seq!['f'] + decimal(n);
    lemma_number_reads(n);
    assert(s.skip(1) =~= decimal(n));
    assert(s[0] == 'f');
    assert("esc"@[0] == 'e' && "escape"@[0] == 'e' && "tab"@[0] == 't' && "space"@[0] == 's');
    assert("enter"@[0] == 'e' && "return"@[0] == 'r');
    assert("esc"@.len() == 3 && "escape"@.len() == 6 && "tab"@.len() == 3 && "space"@.len() == 5);
    assert("enter"@.len() == 5 && "return"@.len() == 6);
}

/// A number that was written down is read as that number.
pub proof fn lemma_number_reads(n: nat)
    ensures
        number(decimal(n)) == Some(n),
        decimal(n).len() > 0,
    decreases n,
{
    let s = decimal(n);
    let d = (n % 10) as int;
    assert(digit_value(digit(d)) == Some(d as nat));
    if n >= 10 {
        lemma_number_reads(n / 10);
        assert(s.drop_last() =~= decimal(n / 10));
        assert(s.last() == digit(d));
        assert(s.len() > 1);
        assert((n / 10) * 10 + n % 10 == n);
    } else {
        assert(s[0] == digit(n as int));
    }
}

/// A prefix is written with a sign for each of its modifiers, in front of its key.
pub proof fn law_a_prefix_is_written_with_its_modifiers(prefix: Prefix, c: char)
    requires
        prefix.code == KeyCode::Char(c),
        c != ' ',
    ensures
        prefix.written().len() == 1 + (if prefix.modifiers.control {
            1int
        } else {
            0
        }) + (if prefix.modifiers.alt {
            crate::app::glyphs::ALT_SIGN@.len() as int
        } else {
            0
        }) + (if prefix.modifiers.shift {
            crate::app::glyphs::SHIFT_SIGN@.len() as int
        } else {
            0
        }),
        prefix.written().last() == c,
        prefix.modifiers.control ==> prefix.written()[0] == '^',
{
    reveal_strlit("^");
    reveal_strlit("");
}

} // verus!
