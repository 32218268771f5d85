//! Correction of words typed in the wrong keyboard layout. Letters are held
//! back until the word ends; a word that is not in its own layout's dictionary
//! but whose key-for-key counterpart is in the other one is erased and typed
//! again in the other layout. Two Shift presses close together convert the
//! held word unconditionally.
use crate::engine::manual::{key_map, layout_keycode, map_key, Direction, RU, US};
use crate::event::{current_time, InputEvent, KeyState};
use crate::inject::keycode_of;
use crate::input::scan_lines;
use crate::pipeline::PipelineStage;
use crate::text::{alphabetic, byte_len, is_alphabetic, lowercase, str_eq, str_len, string_from, texts, to_chars, to_lowercase};
use crate::time::{saturated, Duration, Instant};
use crate::typing::{backspaces, presses, push_key, BACKSPACE};
use vstd::prelude::*;

verus! {

pub const LEFT_SHIFT: u32 = 42;

pub const RIGHT_SHIFT: u32 = 54;

/// A line ended by `\n` without the `\r` before it, if any.
pub open spec fn strip_cr(line: Seq<char>) -> Seq<char> {
    if line.len() > 0 && line.last() == '\r' {
        line.drop_last()
    } else {
        line
    }
}

/// The lines of `s` as `str::lines` gives them: split at `\n` with a `\r`
/// before it dropped, and no empty line after a final `\n`.
pub open spec fn text_lines(s: Seq<char>) -> Seq<Seq<char>> {
    let (ls, tail) = scan_lines(s);
    ls.map_values(|l: Seq<char>| strip_cr(l)) + if tail.len() > 0 {
        seq![tail]
    } else {
        Seq::empty()
    }
}

/// The lines of `s`, as `str::lines` gives them.
pub fn split_lines(s: &str) -> (r: Vec<String>)
    ensures
        texts(r@) == text_lines(s@),
{
    let chars = to_chars(s);
    let mut lines: Vec<String> = Vec::new();
    let mut current: Vec<char> = Vec::new();
    let mut i: usize = 0;
    while i < chars.len()
        invariant
            i <= chars@.len(),
            texts(lines@) == scan_lines(chars@.take(i as int)).0.map_values(
                |l: Seq<char>| strip_cr(l),
            ),
            current@ == scan_lines(chars@.take(i as int)).1,
        decreases chars.len() - i,
    {
        assert(chars@.take(i + 1).drop_last() =~= chars@.take(i as int));
        if chars[i] == '\n' {
            let n = current.len();
            let line = if n > 0 && current[n - 1] == '\r' {
                string_from(&current, 0, n - 1)
            } else {
                string_from(&current, 0, n)
            };
            assert(line@ =~= strip_cr(current@));
            let ghost before = scan_lines(chars@.take(i as int)).0;
            let ghost lines_before = lines@;
            lines.push(line);
            assert(before.push(current@).map_values(|l: Seq<char>| strip_cr(l)) =~= before.map_values(
                |l: Seq<char>| strip_cr(l),
            ).push(strip_cr(current@)));
            assert(texts(lines@) =~= texts(lines_before).push(line@));
            current = Vec::new();
        } else {
            current.push(chars[i]);
        }
        i += 1;
    }
    assert(chars@.take(chars@.len() as int) =~= s@);
    let ghost all = scan_lines(s@).0.map_values(|l: Seq<char>| strip_cr(l));
    if current.len() > 0 {
        let n = current.len();
        let last = string_from(&current, 0, n);
        assert(last@ =~= current@);
        lines.push(last);
        assert(texts(lines@) =~= all + seq![current@]);
    } else {
        assert(texts(lines@) =~= all + Seq::<Seq<char>>::empty());
    }
    lines
}

/// A set of words, held lowercased.
pub struct Dictionary {
    words: Vec<String>,
}

impl Dictionary {
    /// The words, in the order they were read.
    pub closed spec fn entries(self) -> Seq<Seq<char>> {
        texts(self.words@)
    }

    /// Whether the dictionary accepts `word` as a word: two bytes or more,
    /// and present whatever its case.
    pub open spec fn accepts(self, word: Seq<char>) -> bool {
        byte_len(word) >= 2 && self.entries().contains(lowercase(word))
    }

    /// The dictionary of a word list: one word per line, each lowercased.
    pub fn from_text(content: &str) -> (d: Dictionary)
        ensures
            d.entries() == text_lines(content@).map_values(|l: Seq<char>| lowercase(l)),
    {
        let lines = split_lines(content);
        let mut words: Vec<String> = Vec::new();
        let mut i: usize = 0;
        while i < lines.len()
            invariant
                i <= lines@.len(),
                texts(words@) == texts(lines@).take(i as int).map_values(|l: Seq<char>| lowercase(l)),
            decreases lines.len() - i,
        {
            let w = to_lowercase(lines[i].as_str());
            let ghost words_before = words@;
            words.push(w);
            assert(texts(lines@).take(i + 1) =~= texts(lines@).take(i as int).push(lines@[i as int]@));
            assert(texts(words@) =~= texts(words_before).push(w@));
            i += 1;
        }
        assert(texts(lines@).take(lines@.len() as int) =~= texts(lines@));
        Dictionary { words }
    }

    /// Whether the lowercased `word` is in the dictionary.
    pub fn contains(&self, word: &str) -> (b: bool)
        ensures
            b == self.entries().contains(lowercase(word@)),
    {
        let w = to_lowercase(word);
        let mut i: usize = 0;
        while i < self.words.len()
            invariant
                i <= self.words@.len(),
                w@ == lowercase(word@),
                forall|j: int| 0 <= j < i ==> self.entries()[j] != w@,
            decreases self.words.len() - i,
        {
            if str_eq(self.words[i].as_str(), w.as_str()) {
                assert(self.entries()[i as int] == w@);
                return true;
            }
            i += 1;
        }
        false
    }

    /// Whether `word` is at least two bytes long and in the dictionary.
    pub fn is_valid_word(&self, word: &str) -> (b: bool)
        ensures
            b == self.accepts(word@),
    {
        str_len(word) >= 2 && self.contains(word)
    }
}

/// The key that types `c` in the US or the Russian layout, as the corrector
/// retypes words.
pub open spec fn corrector_keycode(c: char) -> Option<u32> {
    match c {
        'q' | 'Q' => Some(16u32),
        'w' | 'W' => Some(17u32),
        'e' | 'E' => Some(18u32),
        'r' | 'R' => Some(19u32),
        't' | 'T' => Some(20u32),
        'y' | 'Y' => Some(21u32),
        'u' | 'U' => Some(22u32),
        'i' | 'I' => Some(23u32),
        'o' | 'O' => Some(24u32),
        'p' | 'P' => Some(25u32),
        'a' | 'A' => Some(30u32),
        's' | 'S' => Some(31u32),
        'd' | 'D' => Some(32u32),
        'f' | 'F' => Some(33u32),
        'g' | 'G' => Some(34u32),
        'h' | 'H' => Some(35u32),
        'j' | 'J' => Some(36u32),
        'k' | 'K' => Some(37u32),
        'l' | 'L' => Some(38u32),
        'z' | 'Z' => Some(44u32),
        'x' | 'X' => Some(45u32),
        'c' | 'C' => Some(46u32),
        'v' | 'V' => Some(47u32),
        'b' | 'B' => Some(48u32),
        'n' | 'N' => Some(49u32),
        'm' | 'M' => Some(50u32),
        'ё' | 'Ё' => Some(41u32),
        'й' | 'Й' => Some(16u32),
        'ц' | 'Ц' => Some(17u32),
        'у' | 'У' => Some(18u32),
        'к' | 'К' => Some(19u32),
        'е' | 'Е' => Some(20u32),
        'н' | 'Н' => Some(21u32),
        'г' | 'Г' => Some(22u32),
        'ш' | 'Ш' => Some(23u32),
        'щ' | 'Щ' => Some(24u32),
        'з' | 'З' => Some(25u32),
        'х' | 'Х' => Some(26u32),
        'ъ' | 'Ъ' => Some(27u32),
        'ф' | 'Ф' => Some(30u32),
        'ы' | 'Ы' => Some(31u32),
        'в' | 'В' => Some(32u32),
        'а' | 'А' => Some(33u32),
        'п' | 'П' => Some(34u32),
        'р' | 'Р' => Some(35u32),
        'о' | 'О' => Some(36u32),
        'л' | 'Л' => Some(37u32),
        'д' | 'Д' => Some(38u32),
        'ж' | 'Ж' => Some(39u32),
        'э' | 'Э' => Some(40u32),
        'я' | 'Я' => Some(44u32),
        'ч' | 'Ч' => Some(45u32),
        'с' | 'С' => Some(46u32),
        'м' | 'М' => Some(47u32),
        'и' | 'И' => Some(48u32),
        'т' | 'Т' => Some(49u32),
        'ь' | 'Ь' => Some(50u32),
        'б' | 'Б' => Some(51u32),
        'ю' | 'Ю' => Some(52u32),
        ' ' => Some(57u32),
        _ => None,
    }
}

fn corrector_char_keycode(c: char) -> (r: Option<u32>)
    ensures
        r == corrector_keycode(c),
{
    match c {
        'q' | 'Q' => Some(16),
        'w' | 'W' => Some(17),
        'e' | 'E' => Some(18),
        'r' | 'R' => Some(19),
        't' | 'T' => Some(20),
        'y' | 'Y' => Some(21),
        'u' | 'U' => Some(22),
        'i' | 'I' => Some(23),
        'o' | 'O' => Some(24),
        'p' | 'P' => Some(25),
        'a' | 'A' => Some(30),
        's' | 'S' => Some(31),
        'd' | 'D' => Some(32),
        'f' | 'F' => Some(33),
        'g' | 'G' => Some(34),
        'h' | 'H' => Some(35),
        'j' | 'J' => Some(36),
        'k' | 'K' => Some(37),
        'l' | 'L' => Some(38),
        'z' | 'Z' => Some(44),
        'x' | 'X' => Some(45),
        'c' | 'C' => Some(46),
        'v' | 'V' => Some(47),
        'b' | 'B' => Some(48),
        'n' | 'N' => Some(49),
        'm' | 'M' => Some(50),
        'ё' | 'Ё' => Some(41),
        'й' | 'Й' => Some(16),
        'ц' | 'Ц' => Some(17),
        'у' | 'У' => Some(18),
        'к' | 'К' => Some(19),
        'е' | 'Е' => Some(20),
        'н' | 'Н' => Some(21),
        'г' | 'Г' => Some(22),
        'ш' | 'Ш' => Some(23),
        'щ' | 'Щ' => Some(24),
        'з' | 'З' => Some(25),
        'х' | 'Х' => Some(26),
        'ъ' | 'Ъ' => Some(27),
        'ф' | 'Ф' => Some(30),
        'ы' | 'Ы' => Some(31),
        'в' | 'В' => Some(32),
        'а' | 'А' => Some(33),
        'п' | 'П' => Some(34),
        'р' | 'Р' => Some(35),
        'о' | 'О' => Some(36),
        'л' | 'Л' => Some(37),
        'д' | 'Д' => Some(38),
        'ж' | 'Ж' => Some(39),
        'э' | 'Э' => Some(40),
        'я' | 'Я' => Some(44),
        'ч' | 'Ч' => Some(45),
        'с' | 'С' => Some(46),
        'м' | 'М' => Some(47),
        'и' | 'И' => Some(48),
        'т' | 'Т' => Some(49),
        'ь' | 'Ь' => Some(50),
        'б' | 'Б' => Some(51),
        'ю' | 'Ю' => Some(52),
        ' ' => Some(57),
        _ => None,
    }
}

/// The keys that retype `text`, in order; characters without a key are skipped.
pub open spec fn corrector_keys(text: Seq<char>) -> Seq<u32>
    decreases text.len(),
{
    if text.len() == 0 {
        Seq::empty()
    } else {
        match corrector_keycode(text.last()) {
            Some(k) => corrector_keys(text.drop_last()).push(k),
            Option::None => corrector_keys(text.drop_last()),
        }
    }
}

/// Appends a press and release for each key of `text`.
fn push_text(events: &mut Vec<InputEvent>, text: &Vec<char>)
    ensures
        forall|keys: Seq<u32>|
            presses(old(events)@, keys) ==> #[trigger] presses(final(events)@, keys + corrector_keys(text@)),
{
    let ghost start = events@;
    let mut i: usize = 0;
    while i < text.len()
        invariant
            i <= text@.len(),
            forall|keys: Seq<u32>|
                presses(start, keys) ==> #[trigger] presses(events@, keys + corrector_keys(text@.take(i as int))),
        decreases text.len() - i,
    {
        assert(text@.take(i + 1).drop_last() =~= text@.take(i as int));
        match corrector_char_keycode(text[i]) {
            Some(k) => {
                let ghost before = events@;
                push_key(events, k);
                assert forall|keys: Seq<u32>| presses(start, keys) implies #[trigger] presses(
                    events@,
                    keys + corrector_keys(text@.take(i + 1)),
                ) by {
                    assert(presses(before, keys + corrector_keys(text@.take(i as int))));
                    assert((keys + corrector_keys(text@.take(i as int))).push(k) =~= keys
                        + corrector_keys(text@.take(i + 1)));
                }
            },
            None => {
                assert(corrector_keys(text@.take(i + 1)) == corrector_keys(text@.take(i as int)));
            },
        }
        i += 1;
    }
    assert(text@.take(text@.len() as int) =~= text@);
}

/// Appends `n` Backspace presses.
fn push_backspaces(events: &mut Vec<InputEvent>, n: usize)
    requires
        old(events)@.len() == 0,
    ensures
        presses(final(events)@, backspaces(n as nat)),
{
    let mut k: usize = 0;
    while k < n
        invariant
            k <= n,
            presses(events@, backspaces(k as nat)),
        decreases n - k,
    {
        push_key(events, BACKSPACE);
        assert(backspaces(k as nat).push(BACKSPACE) =~= backspaces((k + 1) as nat));
        k += 1;
    }
}

/// The character on the same key in the other layout, or `c` itself.
pub open spec fn swapped(c: char, direction: Direction) -> char {
    match key_map(direction, c) {
        Some(d) => d,
        Option::None => c,
    }
}

/// `word` retyped key for key in the other layout.
pub open spec fn transliterated(word: Seq<char>, direction: Direction) -> Seq<char> {
    word.map_values(|c: char| swapped(c, direction))
}

pub open spec fn ascii_text(s: Seq<char>) -> bool {
    forall|i: int| 0 <= i < s.len() ==> (s[i] as u32) < 128
}

/// A word in ASCII is taken as typed in the US layout, any other as Russian.
pub open spec fn direction_of(word: Seq<char>) -> Direction {
    if ascii_text(word) {
        Direction::UsToRu
    } else {
        Direction::RuToUs
    }
}

fn is_ascii_text(v: &Vec<char>) -> (b: bool)
    ensures
        b == ascii_text(v@),
{
    let mut i: usize = 0;
    while i < v.len()
        invariant
            i <= v@.len(),
            forall|j: int| 0 <= j < i ==> (v@[j] as u32) < 128,
        decreases v.len() - i,
    {
        if (v[i] as u32) >= 128 {
            return false;
        }
        i += 1;
    }
    true
}

fn transliterate(word: &Vec<char>, direction: Direction) -> (r: Vec<char>)
    ensures
        r@ == transliterated(word@, direction),
{
    let mut r: Vec<char> = Vec::new();
    let mut i: usize = 0;
    while i < word.len()
        invariant
            i <= word@.len(),
            r@ == transliterated(word@.take(i as int), direction),
        decreases word.len() - i,
    {
        let c = match map_key(word[i], direction) {
            Some(d) => d,
            None => word[i],
        };
        r.push(c);
        assert(transliterated(word@.take(i + 1), direction) =~= transliterated(word@.take(i as int), direction).push(c));
        i += 1;
    }
    assert(word@.take(word@.len() as int) =~= word@);
    r
}

/// Characters that end a word.
pub open spec fn separator_char(c: char) -> bool {
    c == ' ' || c == '\t' || c == '\n' || c == '\r' || c == '.' || c == ',' || c == '!' || c == '?'
        || c == ';' || c == ':' || c == '(' || c == ')' || c == '[' || c == ']' || c == '{' || c == '}'
}

/// The keys that correct `word`, if it needs and admits correction: it is at
/// least `min_len` characters long, its own layout's dictionary does not accept
/// it lowercased, and the other one accepts its counterpart.
pub open spec fn correction_keys(ru: Dictionary, en: Dictionary, min_len: nat, word: Seq<char>) -> Option<
    Seq<u32>,
> {
    let lower = lowercase(word);
    let en_word = ascii_text(lower);
    let other = transliterated(lower, direction_of(lower));
    if word.len() < min_len {
        None
    } else if en_word && en.accepts(lower) {
        None
    } else if !en_word && ru.accepts(lower) {
        None
    } else if (if en_word { ru } else { en }).accepts(other) {
        Some(backspaces(word.len()) + corrector_keys(other))
    } else {
        None
    }
}

/// The keys that convert `word` unconditionally.
pub open spec fn forced_keys(word: Seq<char>) -> Seq<u32> {
    let lower = lowercase(word);
    if word.len() == 0 {
        Seq::empty()
    } else {
        backspaces(word.len()) + corrector_keys(transliterated(lower, direction_of(lower)))
    }
}

/// Whether `out` presses `keys` and then holds `tail`.
pub open spec fn emits(out: Seq<InputEvent>, keys: Seq<u32>, tail: Seq<InputEvent>) -> bool {
    &&& out.len() == 2 * keys.len() + tail.len()
    &&& presses(out.take(2 * keys.len() as int), keys)
    &&& out.skip(2 * keys.len() as int) == tail
}

pub open spec fn is_shift(keycode: u32) -> bool {
    keycode == LEFT_SHIFT || keycode == RIGHT_SHIFT
}

/// Whether `out` is `events` followed by `event`, where `events` presses `keys`.
proof fn lemma_emits(events: Seq<InputEvent>, keys: Seq<u32>, event: InputEvent)
    requires
        presses(events, keys),
    ensures
        emits(events.push(event), keys, seq![event]),
{
    let out = events.push(event);
    assert(out.take(2 * keys.len() as int) =~= events);
    assert(out.skip(2 * keys.len() as int) =~= seq![event]);
}

pub struct LayoutCorrector {
    ru_dict: Dictionary,
    en_dict: Dictionary,
    word_buffer: Vec<char>,
    min_word_length: usize,
    last_shift_press: Option<Instant>,
    double_shift_corrects: bool,
    double_shift_window: Duration,
}

impl LayoutCorrector {
    /// The letters held back, in order.
    pub closed spec fn word(self) -> Seq<char> {
        self.word_buffer@
    }

    /// When Shift was last pressed, while a second press can still count.
    pub closed spec fn last_shift(self) -> Option<Instant> {
        self.last_shift_press
    }

    pub closed spec fn ru(self) -> Dictionary {
        self.ru_dict
    }

    pub closed spec fn en(self) -> Dictionary {
        self.en_dict
    }

    pub closed spec fn min_len(self) -> nat {
        self.min_word_length as nat
    }

    pub closed spec fn double_shift(self) -> bool {
        self.double_shift_corrects
    }

    pub closed spec fn window(self) -> Duration {
        self.double_shift_window
    }

    /// Whether two correctors hold the same dictionaries and settings.
    pub open spec fn same_settings(self, other: LayoutCorrector) -> bool {
        &&& self.ru() == other.ru()
        &&& self.en() == other.en()
        &&& self.min_len() == other.min_len()
        &&& self.double_shift() == other.double_shift()
        &&& self.window() == other.window()
    }

    pub fn new(
        ru_dict: Dictionary,
        en_dict: Dictionary,
        min_word_length: usize,
        double_shift_corrects: bool,
        double_shift_window_ms: u64,
    ) -> (c: LayoutCorrector)
        ensures
            c.ru() == ru_dict,
            c.en() == en_dict,
            c.word() == Seq::<char>::empty(),
            c.min_len() == min_word_length,
            c.last_shift() is None,
            c.double_shift() == double_shift_corrects,
            c.window().nanos == saturated(double_shift_window_ms * 1_000_000),
    {
        LayoutCorrector {
            ru_dict,
            en_dict,
            word_buffer: Vec::new(),
            min_word_length,
            last_shift_press: None,
            double_shift_corrects,
            double_shift_window: Duration::from_millis(double_shift_window_ms),
        }
    }

    /// Whether `ch` belongs to a word.
    pub fn is_word_char(ch: char) -> (b: bool)
        ensures
            b == alphabetic(ch),
    {
        is_alphabetic(ch)
    }

    /// Whether `ch` ends a word.
    pub fn is_word_separator(ch: char) -> (b: bool)
        ensures
            b == separator_char(ch),
    {
        ch == ' ' || ch == '\t' || ch == '\n' || ch == '\r' || ch == '.' || ch == ',' || ch == '!'
            || ch == '?' || ch == ';' || ch == ':' || ch == '(' || ch == ')' || ch == '[' || ch
            == ']' || ch == '{' || ch == '}'
    }

    /// The held word lowercased, and whether it is in ASCII.
    fn lowered(&self) -> (r: (Vec<char>, bool))
        ensures
            r.0@ == lowercase(self.word()),
            r.1 == ascii_text(lowercase(self.word())),
    {
        let n = self.word_buffer.len();
        let word = string_from(&self.word_buffer, 0, n);
        assert(word@ =~= self.word_buffer@);
        let lower = to_lowercase(word.as_str());
        let chars = to_chars(lower.as_str());
        let ascii = is_ascii_text(&chars);
        (chars, ascii)
    }

    /// The events that correct the held word, if it needs and admits correction.
    pub fn try_correct(&self) -> (r: Option<Vec<InputEvent>>)
        ensures
            match correction_keys(self.ru(), self.en(), self.min_len(), self.word()) {
                Some(keys) => r matches Some(events) && presses(events@, keys),
                Option::None => r is None,
            },
    {
        if self.word_buffer.len() < self.min_word_length {
            return None;
        }
        let (lower, en_word) = self.lowered();
        let lower_text = string_from(&lower, 0, lower.len());
        assert(lower_text@ =~= lower@);
        if en_word && self.en_dict.is_valid_word(lower_text.as_str()) {
            return None;
        }
        if !en_word && self.ru_dict.is_valid_word(lower_text.as_str()) {
            return None;
        }
        let direction = if en_word {
            Direction::UsToRu
        } else {
            Direction::RuToUs
        };
        let other = transliterate(&lower, direction);
        let other_text = string_from(&other, 0, other.len());
        assert(other_text@ =~= other@);
        let accepted = if en_word {
            self.ru_dict.is_valid_word(other_text.as_str())
        } else {
            self.en_dict.is_valid_word(other_text.as_str())
        };
        if accepted {
            let mut events: Vec<InputEvent> = Vec::new();
            push_backspaces(&mut events, self.word_buffer.len());
            push_text(&mut events, &other);
            Some(events)
        } else {
            None
        }
    }

    /// Converts the held word unconditionally and forgets it.
    pub fn force_correct(&mut self) -> (r: Vec<InputEvent>)
        ensures
            presses(r@, forced_keys(old(self).word())),
            final(self).word() == Seq::<char>::empty(),
            final(self).last_shift() == old(self).last_shift(),
            final(self).same_settings(*old(self)),
    {
        if self.word_buffer.len() == 0 {
            return Vec::new();
        }
        let (lower, en_word) = self.lowered();
        let direction = if en_word {
            Direction::UsToRu
        } else {
            Direction::RuToUs
        };
        let other = transliterate(&lower, direction);
        let mut events: Vec<InputEvent> = Vec::new();
        push_backspaces(&mut events, self.word_buffer.len());
        push_text(&mut events, &other);
        self.word_buffer.clear();
        events
    }

    /// Types the held word as it is and forgets it.
    pub fn flush_buffer(&mut self) -> (r: Vec<InputEvent>)
        ensures
            presses(r@, corrector_keys(old(self).word())),
            final(self).word() == Seq::<char>::empty(),
            final(self).last_shift() == old(self).last_shift(),
            final(self).same_settings(*old(self)),
    {
        let mut events: Vec<InputEvent> = Vec::new();
        assert(presses(events@, Seq::<u32>::empty()));
        push_text(&mut events, &self.word_buffer);
        assert(Seq::<u32>::empty() + corrector_keys(self.word_buffer@) =~= corrector_keys(self.word_buffer@));
        self.word_buffer.clear();
        events
    }
}

/// Whether `event` is a Shift press that double-Shift watches for.
pub open spec fn shift_press(c: LayoutCorrector, event: InputEvent) -> bool {
    c.double_shift() && event.state == KeyState::Pressed && is_shift(event.keycode)
}

/// Whether `event`, read at `now`, is the second of two Shift presses within
/// the window.
pub open spec fn second_shift(c: LayoutCorrector, event: InputEvent, now: Instant) -> bool {
    shift_press(c, event) && match c.last_shift() {
        Some(last) => last.nanos <= now.nanos && now.nanos - last.nanos < c.window().nanos
            || now.nanos < last.nanos && 0 < c.window().nanos,
        Option::None => false,
    }
}

/// One event handled at `now`: `old` becomes `new` and `out` is emitted.
pub open spec fn corrector_step(
    old: LayoutCorrector,
    new: LayoutCorrector,
    event: InputEvent,
    now: Instant,
    out: Seq<InputEvent>,
) -> bool {
    &&& new.same_settings(old)
    &&& if second_shift(old, event, now) {
        &&& new.last_shift() is None
        &&& new.word() == Seq::<char>::empty()
        &&& presses(out, forced_keys(old.word()))
    } else {
        &&& new.last_shift() == if shift_press(old, event) {
            Some(now)
        } else {
            old.last_shift()
        }
        &&& match event.character {
            Option::None => out == seq![event] && new.word() == old.word(),
            Some(c) => if alphabetic(c) {
                out == Seq::<InputEvent>::empty() && new.word() == old.word().push(c)
            } else {
                &&& new.word() == Seq::<char>::empty()
                &&& emits(
                    out,
                    if separator_char(c) {
                        match correction_keys(old.ru(), old.en(), old.min_len(), old.word()) {
                            Some(keys) => keys,
                            Option::None => corrector_keys(old.word()),
                        }
                    } else {
                        corrector_keys(old.word())
                    },
                    seq![event],
                )
            },
        }
    }
}

impl LayoutCorrector {
    /// Handles `event` as if read at `now`. A second Shift press within the
    /// window converts the held word; a letter is held back; a separator
    /// corrects or types the held word, then passes; anything else types the
    /// held word and passes; an event without a character passes.
    pub fn process_at(&mut self, event: InputEvent, now: Instant) -> (r: Vec<InputEvent>)
        ensures
            corrector_step(*old(self), *final(self), event, now, r@),
    {
        if self.double_shift_corrects && event.state == KeyState::Pressed && (event.keycode
            == LEFT_SHIFT || event.keycode == RIGHT_SHIFT) {
            match self.last_shift_press {
                Some(last) => {
                    if now.saturating_duration_since(last).nanos < self.double_shift_window.nanos {
                        self.last_shift_press = None;
                        return self.force_correct();
                    }
                },
                None => {},
            }
            self.last_shift_press = Some(now);
        }
        let ch = match event.character {
            Some(c) => c,
            None => {
                let mut out: Vec<InputEvent> = Vec::new();
                out.push(event);
                return out;
            },
        };
        if Self::is_word_char(ch) {
            self.word_buffer.push(ch);
            return Vec::new();
        }
        if Self::is_word_separator(ch) {
            let ghost before = *self;
            let mut result = match self.try_correct() {
                Some(events) => events,
                None => self.flush_buffer(),
            };
            proof {
                let keys = match correction_keys(before.ru(), before.en(), before.min_len(), before.word()) {
                    Some(keys) => keys,
                    Option::None => corrector_keys(before.word()),
                };
                lemma_emits(result@, keys, event);
            }
            result.push(event);
            self.word_buffer.clear();
            return result;
        }
        let mut result = self.flush_buffer();
        proof {
            lemma_emits(result@, corrector_keys(old(self).word()), event);
        }
        result.push(event);
        result
    }
}

impl PipelineStage for LayoutCorrector {
    open spec fn named(&self, name: Seq<char>) -> bool {
        name == "layout-corrector"@
    }

    open spec fn is_reset(&self) -> bool {
        self.word() == Seq::<char>::empty()
    }

    fn name(&self) -> (s: &str)
        ensures
            s@ == "layout-corrector"@,
    {
        "layout-corrector"
    }

    /// Handles `event` at the current time (see `process_at`).
    fn process(&mut self, event: InputEvent) -> (r: Vec<InputEvent>)
        ensures
            exists|now: Instant| corrector_step(*old(self), *final(self), event, now, r@),
    {
        let now = current_time();
        self.process_at(event, now)
    }

    /// Forgets the held word.
    fn reset(&mut self)
        ensures
            final(self).word() == Seq::<char>::empty(),
            final(self).last_shift() == old(self).last_shift(),
            final(self).same_settings(*old(self)),
    {
        self.word_buffer.clear();
    }
}

/// A word shorter than the minimum is never corrected.
pub proof fn law_short_words_have_no_correction(ru: Dictionary, en: Dictionary, min_len: nat, word: Seq<char>)
    requires
        word.len() < min_len,
    ensures
        correction_keys(ru, en, min_len, word) is None,
{
}

/// A word its own layout's dictionary accepts is never corrected.
pub proof fn law_known_words_have_no_correction(ru: Dictionary, en: Dictionary, min_len: nat, word: Seq<char>)
    requires
        (if ascii_text(lowercase(word)) { en } else { ru }).accepts(lowercase(word)),
    ensures
        correction_keys(ru, en, min_len, word) is None,
{
}

/// When a separator ends a word that is not corrected, the word's own keys
/// are typed back, in order, before the separator passes, and the word is
/// forgotten.
pub proof fn law_uncorrected_word_is_typed_back(
    old: LayoutCorrector,
    new: LayoutCorrector,
    event: InputEvent,
    now: Instant,
    out: Seq<InputEvent>,
    c: char,
)
    requires
        corrector_step(old, new, event, now, out),
        !second_shift(old, event, now),
        event.character == Some(c),
        separator_char(c),
        !alphabetic(c),
        correction_keys(old.ru(), old.en(), old.min_len(), old.word()) is None,
    ensures
        emits(out, corrector_keys(old.word()), seq![event]),
        new.word() == Seq::<char>::empty(),
{
}

/// A letter is held back: nothing passes and the word grows by it.
pub proof fn law_letters_are_held(
    old: LayoutCorrector,
    new: LayoutCorrector,
    event: InputEvent,
    now: Instant,
    out: Seq<InputEvent>,
    c: char,
)
    requires
        corrector_step(old, new, event, now, out),
        !second_shift(old, event, now),
        event.character == Some(c),
        alphabetic(c),
    ensures
        out == Seq::<InputEvent>::empty(),
        new.word() == old.word().push(c),
{
}

/// The corrector retypes a letter with the key that carries it: the letter
/// at each position of `RU`, and the US letter at each position of `US`, is
/// typed with the evdev key at that position of the layout, and Space with
/// the key the injector types it with.
pub proof fn law_corrector_keys_follow_layout(i: int)
    requires
        0 <= i < 66,
    ensures
        corrector_keycode(RU@[i]) matches Some(k) && k == layout_keycode(i),
        ('a' <= US@[i] && US@[i] <= 'z') || ('A' <= US@[i] && US@[i] <= 'Z') ==> (corrector_keycode(US@[i])
            matches Some(k) && k == layout_keycode(i)),
        corrector_keycode(' ') == keycode_of(' '),
{
    reveal_strlit("`qwertyuiop[]asdfghjkl;'zxcvbnm,.~QWERTYUIOP{}ASDFGHJKL:\"ZXCVBNM<>");
    reveal_strlit("ёйцукенгшщзхъфывапролджэячсмитьбюЁЙЦУКЕНГШЩЗХЪФЫВАПРОЛДЖЭЯЧСМИТЬБЮ");
    if i == 0 {} else if i == 1 {} else if i == 2 {} else if i == 3 {} else if i == 4 {} else if i == 5 {} else if i == 6 {} else if i == 7 {} else if i == 8 {} else if i == 9 {} else if i == 10 {} else if i == 11 {} else if i == 12 {} else if i == 13 {} else if i == 14 {} else if i == 15 {} else if i == 16 {} else if i == 17 {} else if i == 18 {} else if i == 19 {} else if i == 20 {} else if i == 21 {} else if i == 22 {} else if i == 23 {} else if i == 24 {} else if i == 25 {} else if i == 26 {} else if i == 27 {} else if i == 28 {} else if i == 29 {} else if i == 30 {} else if i == 31 {} else if i == 32 {} else if i == 33 {} else if i == 34 {} else if i == 35 {} else if i == 36 {} else if i == 37 {} else if i == 38 {} else if i == 39 {} else if i == 40 {} else if i == 41 {} else if i == 42 {} else if i == 43 {} else if i == 44 {} else if i == 45 {} else if i == 46 {} else if i == 47 {} else if i == 48 {} else if i == 49 {} else if i == 50 {} else if i == 51 {} else if i == 52 {} else if i == 53 {} else if i == 54 {} else if i == 55 {} else if i == 56 {} else if i == 57 {} else if i == 58 {} else if i == 59 {} else if i == 60 {} else if i == 61 {} else if i == 62 {} else if i == 63 {} else if i == 64 {} else {}
}

} // verus!
