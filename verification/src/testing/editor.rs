//! A minimal text field that applies key events through a fixed keymap.
use crate::engine::manual::{layout_keycode, RU, US};
use crate::event::{InputEvent, KeyState};
use crate::text::string_from;
use vstd::prelude::*;

verus! {

#[derive(Debug, Clone, Copy, PartialEq, Eq, Structural)]
pub enum EditorAction {
    Insert(char),
    DeleteBackward,
    FocusChange,
    Unchanged,
}

#[derive(Debug, Clone)]
pub struct EditorState {
    pub text: Vec<char>,
    pub cursor: usize,
    pub focused: bool,
}

impl EditorState {
    /// Cursor within the text, with room for one more character.
    pub open spec fn sane(self) -> bool {
        self.cursor <= self.text@.len() && self.text@.len() < usize::MAX
    }

    pub fn new() -> (s: EditorState)
        ensures
            s.text@ == Seq::<char>::empty(),
            s.cursor == 0,
            s.focused,
    {
        EditorState { text: Vec::new(), cursor: 0, focused: true }
    }

    pub fn text_string(&self) -> (s: String)
        ensures
            s@ == self.text@,
    {
        let s = string_from(self.text.as_slice(), 0, self.text.len());
        assert(self.text@.subrange(0, self.text@.len() as int) =~= self.text@);
        s
    }

    /// Inserts at the cursor and moves past it; ignored without focus.
    pub fn insert(&mut self, ch: char)
        requires
            old(self).sane(),
        ensures
            old(self).focused ==> final(self).text@ == old(self).text@.insert(
                old(self).cursor as int,
                ch,
            ) && final(self).cursor == old(self).cursor + 1,
            !old(self).focused ==> final(self).text@ == old(self).text@ && final(self).cursor
                == old(self).cursor,
            final(self).focused == old(self).focused,
    {
        if !self.focused {
            return;
        }
        self.text.insert(self.cursor, ch);
        self.cursor += 1;
    }

    /// Deletes the character before the cursor; ignored without focus or at
    /// the start.
    pub fn delete_backward(&mut self)
        requires
            old(self).sane(),
        ensures
            old(self).focused && old(self).cursor > 0 ==> final(self).text@ == old(self).text@.remove(
                old(self).cursor - 1,
            ) && final(self).cursor == old(self).cursor - 1,
            !(old(self).focused && old(self).cursor > 0) ==> final(self).text@ == old(self).text@
                && final(self).cursor == old(self).cursor,
            final(self).focused == old(self).focused,
    {
        if !self.focused || self.cursor == 0 {
            return;
        }
        self.cursor -= 1;
        self.text.remove(self.cursor);
    }

    pub fn unfocus(&mut self)
        ensures
            final(self).text@ == old(self).text@,
            final(self).cursor == old(self).cursor,
            !final(self).focused,
    {
        self.focused = false;
    }

    pub fn focus(&mut self)
        ensures
            final(self).text@ == old(self).text@,
            final(self).cursor == old(self).cursor,
            final(self).focused,
    {
        self.focused = true;
    }
}

impl Default for EditorState {
    fn default() -> (s: EditorState)
        ensures
            s.text@ == Seq::<char>::empty(),
            s.cursor == 0,
            s.focused,
    {
        EditorState::new()
    }
}

/// The character a US QWERTY key types (letters, Space, Enter, Tab).
pub open spec fn us_key_char(keycode: u32) -> Option<char> {
    if keycode == 16 { Some('q') } else if keycode == 17 { Some('w') } else if keycode == 18 { Some('e') }
    else if keycode == 19 { Some('r') } else if keycode == 20 { Some('t') } else if keycode == 21 { Some('y') }
    else if keycode == 22 { Some('u') } else if keycode == 23 { Some('i') } else if keycode == 24 { Some('o') }
    else if keycode == 25 { Some('p') } else if keycode == 30 { Some('a') } else if keycode == 31 { Some('s') }
    else if keycode == 32 { Some('d') } else if keycode == 33 { Some('f') } else if keycode == 34 { Some('g') }
    else if keycode == 35 { Some('h') } else if keycode == 36 { Some('j') } else if keycode == 37 { Some('k') }
    else if keycode == 38 { Some('l') } else if keycode == 44 { Some('z') } else if keycode == 45 { Some('x') }
    else if keycode == 46 { Some('c') } else if keycode == 47 { Some('v') } else if keycode == 48 { Some('b') }
    else if keycode == 49 { Some('n') } else if keycode == 50 { Some('m') } else if keycode == 57 { Some(' ') }
    else if keycode == 28 { Some('\n') } else if keycode == 15 { Some('\t') } else { None }
}

/// The character a key types with the Russian letters overlaid on the US map:
/// the top and home rows, the bottom row, and the `б`/`ю` keys.
pub open spec fn ru_key_char(keycode: u32) -> Option<char> {
    if keycode == 16 { Some('й') } else if keycode == 17 { Some('ц') } else if keycode == 18 { Some('у') }
    else if keycode == 19 { Some('к') } else if keycode == 20 { Some('е') } else if keycode == 21 { Some('н') }
    else if keycode == 22 { Some('г') } else if keycode == 23 { Some('ш') } else if keycode == 24 { Some('щ') }
    else if keycode == 25 { Some('з') } else if keycode == 30 { Some('ф') } else if keycode == 31 { Some('ы') }
    else if keycode == 32 { Some('в') } else if keycode == 33 { Some('а') } else if keycode == 34 { Some('п') }
    else if keycode == 35 { Some('р') } else if keycode == 36 { Some('о') } else if keycode == 37 { Some('л') }
    else if keycode == 38 { Some('д') } else if keycode == 44 { Some('я') } else if keycode == 45 { Some('ч') }
    else if keycode == 46 { Some('с') } else if keycode == 47 { Some('м') } else if keycode == 48 { Some('и') }
    else if keycode == 49 { Some('т') } else if keycode == 50 { Some('ь') } else if keycode == 51 { Some('б') }
    else if keycode == 52 { Some('ю') } else { us_key_char(keycode) }
}

pub open spec fn key_char(ru: bool, keycode: u32) -> Option<char> {
    if ru {
        ru_key_char(keycode)
    } else {
        us_key_char(keycode)
    }
}

fn lookup_key(ru: bool, keycode: u32) -> (r: Option<char>)
    ensures
        r == key_char(ru, keycode),
{
    if ru {
        if keycode == 16 { return Some('й'); } if keycode == 17 { return Some('ц'); }
        if keycode == 18 { return Some('у'); } if keycode == 19 { return Some('к'); }
        if keycode == 20 { return Some('е'); } if keycode == 21 { return Some('н'); }
        if keycode == 22 { return Some('г'); } if keycode == 23 { return Some('ш'); }
        if keycode == 24 { return Some('щ'); } if keycode == 25 { return Some('з'); }
        if keycode == 30 { return Some('ф'); } if keycode == 31 { return Some('ы'); }
        if keycode == 32 { return Some('в'); } if keycode == 33 { return Some('а'); }
        if keycode == 34 { return Some('п'); } if keycode == 35 { return Some('р'); }
        if keycode == 36 { return Some('о'); } if keycode == 37 { return Some('л'); }
        if keycode == 38 { return Some('д'); } if keycode == 44 { return Some('я'); }
        if keycode == 45 { return Some('ч'); } if keycode == 46 { return Some('с'); }
        if keycode == 47 { return Some('м'); } if keycode == 48 { return Some('и'); }
        if keycode == 49 { return Some('т'); } if keycode == 50 { return Some('ь'); }
        if keycode == 51 { return Some('б'); } if keycode == 52 { return Some('ю'); }
    }
    if keycode == 16 { return Some('q'); } if keycode == 17 { return Some('w'); }
    if keycode == 18 { return Some('e'); } if keycode == 19 { return Some('r'); }
    if keycode == 20 { return Some('t'); } if keycode == 21 { return Some('y'); }
    if keycode == 22 { return Some('u'); } if keycode == 23 { return Some('i'); }
    if keycode == 24 { return Some('o'); } if keycode == 25 { return Some('p'); }
    if keycode == 30 { return Some('a'); } if keycode == 31 { return Some('s'); }
    if keycode == 32 { return Some('d'); } if keycode == 33 { return Some('f'); }
    if keycode == 34 { return Some('g'); } if keycode == 35 { return Some('h'); }
    if keycode == 36 { return Some('j'); } if keycode == 37 { return Some('k'); }
    if keycode == 38 { return Some('l'); } if keycode == 44 { return Some('z'); }
    if keycode == 45 { return Some('x'); } if keycode == 46 { return Some('c'); }
    if keycode == 47 { return Some('v'); } if keycode == 48 { return Some('b'); }
    if keycode == 49 { return Some('n'); } if keycode == 50 { return Some('m'); }
    if keycode == 57 { return Some(' '); } if keycode == 28 { return Some('\n'); }
    if keycode == 15 { return Some('\t'); }
    None
}

/// The character a focused editor inserts for a press: none for Backspace
/// (keycode 14), else the event's own character, else the keymap's.
pub open spec fn typed_char(ru: bool, event: InputEvent) -> Option<char> {
    if event.keycode == 14 {
        None
    } else if event.character is Some {
        event.character
    } else {
        key_char(ru, event.keycode)
    }
}

/// What one event does to a field with the given keymap and focus: the new
/// text, the new cursor and the action reported.
pub open spec fn edit_step(ru: bool, focused: bool, text: Seq<char>, cursor: int, event: InputEvent) -> (
    Seq<char>,
    int,
    EditorAction,
) {
    if !focused || event.state == KeyState::Released {
        (text, cursor, EditorAction::Unchanged)
    } else if event.keycode == 14 {
        if cursor > 0 {
            (text.remove(cursor - 1), cursor - 1, EditorAction::DeleteBackward)
        } else {
            (text, cursor, EditorAction::DeleteBackward)
        }
    } else {
        match typed_char(ru, event) {
            Some(c) => (text.insert(cursor, c), cursor + 1, EditorAction::Insert(c)),
            None => (text, cursor, EditorAction::Unchanged),
        }
    }
}

/// `edit_step` over a sequence of events, in order: the final text, the final
/// cursor and one action per event.
pub open spec fn edit_run(ru: bool, focused: bool, text: Seq<char>, cursor: int, events: Seq<InputEvent>) -> (
    Seq<char>,
    int,
    Seq<EditorAction>,
)
    decreases events.len(),
{
    if events.len() == 0 {
        (text, cursor, Seq::empty())
    } else {
        let prior = edit_run(ru, focused, text, cursor, events.drop_last());
        let step = edit_step(ru, focused, prior.0, prior.1, events.last());
        (step.0, step.1, prior.2.push(step.2))
    }
}

pub struct TestEditor {
    pub state: EditorState,
    ru: bool,
}

impl TestEditor {
    /// Whether the Russian keymap is in use.
    pub closed spec fn russian(self) -> bool {
        self.ru
    }

    /// The editor's text, cursor and focus: the value of the public field
    /// `state`.
    pub closed spec fn current(self) -> EditorState {
        self.state
    }

    /// A focused, empty editor with the US keymap.
    pub fn new() -> (e: TestEditor)
        ensures
            e.current().text@ == Seq::<char>::empty(),
            e.current().cursor == 0,
            e.current().focused,
            !e.russian(),
    {
        TestEditor { state: EditorState::new(), ru: false }
    }

    /// The same editor with the Russian keymap.
    pub fn with_ru_layout(self) -> (e: TestEditor)
        ensures
            e.current().text@ == self.current().text@,
            e.current().cursor == self.current().cursor,
            e.current().focused == self.current().focused,
            e.russian(),
    {
        TestEditor { state: self.state, ru: true }
    }

    /// Applies one event: presses of Backspace delete, other presses insert
    /// their character; releases and unfocused input change nothing.
    pub fn apply(&mut self, event: &InputEvent) -> (a: EditorAction)
        requires
            old(self).current().sane(),
        ensures
            final(self).russian() == old(self).russian(),
            final(self).current().focused == old(self).current().focused,
            final(self).current().sane() || final(self).current().text@.len() == usize::MAX,
            final(self).current().cursor <= final(self).current().text@.len(),
            (final(self).current().text@, final(self).current().cursor as int, a) == edit_step(
                old(self).russian(),
                old(self).current().focused,
                old(self).current().text@,
                old(self).current().cursor as int,
                *event,
            ),
            !old(self).current().focused || event.state == KeyState::Released ==> a
                == EditorAction::Unchanged && final(self).current().text@ == old(self).current().text@
                && final(self).current().cursor == old(self).current().cursor,
            old(self).current().focused && event.state == KeyState::Pressed && event.keycode == 14 ==> a
                == EditorAction::DeleteBackward && (if old(self).current().cursor > 0 {
                final(self).current().text@ == old(self).current().text@.remove(old(self).current().cursor - 1)
                    && final(self).current().cursor == old(self).current().cursor - 1
            } else {
                final(self).current().text@ == old(self).current().text@ && final(self).current().cursor == 0
            }),
            old(self).current().focused && event.state == KeyState::Pressed && event.keycode != 14 ==> match typed_char(
                old(self).russian(),
                *event,
            ) {
                Some(c) => a == EditorAction::Insert(c) && final(self).current().text@
                    == old(self).current().text@.insert(old(self).current().cursor as int, c)
                    && final(self).current().cursor == old(self).current().cursor + 1,
                None => a == EditorAction::Unchanged && final(self).current().text@
                    == old(self).current().text@ && final(self).current().cursor == old(self).current().cursor,
            },
    {
        if !self.state.focused {
            return EditorAction::Unchanged;
        }
        match event.state {
            KeyState::Pressed => {
                if event.keycode == 14 {
                    self.state.delete_backward();
                    EditorAction::DeleteBackward
                } else {
                    let c = match event.character {
                        Some(ch) => Some(ch),
                        None => lookup_key(self.ru, event.keycode),
                    };
                    match c {
                        Some(ch) => {
                            self.state.insert(ch);
                            EditorAction::Insert(ch)
                        },
                        None => EditorAction::Unchanged,
                    }
                }
            },
            KeyState::Released => EditorAction::Unchanged,
        }
    }

    /// Applies each event in turn.
    pub fn apply_sequence(&mut self, events: &[InputEvent]) -> (r: Vec<EditorAction>)
        requires
            old(self).current().cursor <= old(self).current().text@.len(),
            old(self).current().text@.len() + events@.len() < usize::MAX,
        ensures
            r@.len() == events@.len(),
            final(self).russian() == old(self).russian(),
            final(self).current().focused == old(self).current().focused,
            (final(self).current().text@, final(self).current().cursor as int, r@) == edit_run(
                old(self).russian(),
                old(self).current().focused,
                old(self).current().text@,
                old(self).current().cursor as int,
                events@,
            ),
    {
        let mut actions: Vec<EditorAction> = Vec::new();
        let mut i: usize = 0;
        while i < events.len()
            invariant
                i <= events@.len(),
                actions@.len() == i,
                self.state.cursor <= self.state.text@.len(),
                self.state.text@.len() <= old(self).state.text@.len() + i,
                old(self).state.text@.len() + events@.len() < usize::MAX,
                self.ru == old(self).ru,
                self.state.focused == old(self).state.focused,
                (self.state.text@, self.state.cursor as int, actions@) == edit_run(
                    old(self).ru,
                    old(self).state.focused,
                    old(self).state.text@,
                    old(self).state.cursor as int,
                    events@.take(i as int),
                ),
            decreases events.len() - i,
        {
            proof {
                assert(events@.take(i + 1).drop_last() =~= events@.take(i as int));
            }
            let a = self.apply(&events[i]);
            actions.push(a);
            i += 1;
        }
        proof {
            assert(events@.take(events@.len() as int) =~= events@);
        }
        actions
    }

    pub fn text(&self) -> (s: String)
        ensures
            s@ == self.current().text@,
    {
        self.state.text_string()
    }

    pub fn cursor(&self) -> (c: usize)
        ensures
            c == self.current().cursor,
    {
        self.state.cursor
    }

    pub fn unfocus(&mut self)
        ensures
            final(self).current().text@ == old(self).current().text@,
            final(self).current().cursor == old(self).current().cursor,
            !final(self).current().focused,
            final(self).russian() == old(self).russian(),
    {
        self.state.unfocus();
    }

    pub fn focus(&mut self)
        ensures
            final(self).current().text@ == old(self).current().text@,
            final(self).current().cursor == old(self).current().cursor,
            final(self).current().focused,
            final(self).russian() == old(self).russian(),
    {
        self.state.focus();
    }
}

impl Default for TestEditor {
    fn default() -> (e: TestEditor)
        ensures
            e.current().text@ == Seq::<char>::empty(),
            e.current().cursor == 0,
            e.current().focused,
            !e.russian(),
    {
        TestEditor::new()
    }
}

/// The editor's keymaps are the physical keyboard: the key at each position
/// of the layout types the lowercase US letter at that position of `US`, and,
/// with the Russian keymap, the Russian letter at that position of `RU`
/// (for the keys that carry a letter in both layouts, and `б` and `ю`).
pub proof fn law_editor_keys_follow_layout(i: int)
    requires
        0 <= i < 33,
    ensures
        'a' <= US@[i] && US@[i] <= 'z' ==> us_key_char(layout_keycode(i) as u32) == Some(US@[i]),
        ('a' <= US@[i] && US@[i] <= 'z') || i == 31 || i == 32 ==> ru_key_char(layout_keycode(i) as u32) == Some(RU@[i]),
{
    reveal_strlit("`qwertyuiop[]asdfghjkl;'zxcvbnm,.~QWERTYUIOP{}ASDFGHJKL:\"ZXCVBNM<>");
    reveal_strlit("ёйцукенгшщзхъфывапролджэячсмитьбюЁЙЦУКЕНГШЩЗХЪФЫВАПРОЛДЖЭЯЧСМИТЬБЮ");
    if i == 0 {} else if i == 1 {} else if i == 2 {} else if i == 3 {} else if i == 4 {} else if i == 5 {} else if i == 6 {} else if i == 7 {} else if i == 8 {} else if i == 9 {} else if i == 10 {} else if i == 11 {} else if i == 12 {} else if i == 13 {} else if i == 14 {} else if i == 15 {} else if i == 16 {} else if i == 17 {} else if i == 18 {} else if i == 19 {} else if i == 20 {} else if i == 21 {} else if i == 22 {} else if i == 23 {} else if i == 24 {} else if i == 25 {} else if i == 26 {} else if i == 27 {} else if i == 28 {} else if i == 29 {} else if i == 30 {} else if i == 31 {} else {}
}

} // verus!
