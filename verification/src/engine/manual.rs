//! Explicit US/Russian letter-key conversion of the whitespace-delimited token
//! that ends at the caret. No dictionary, no layout inference.
use super::{replace_chars, replace_spec, Plan, Rejection, Snapshot, MAX_REPLACEMENT_BYTES};
use crate::text::{append_chars, byte_len, is_space_char, is_whitespace, push_char, str_len, to_chars};
use crate::time::{Duration, Instant};
use vstd::prelude::*;

verus! {

#[derive(Clone, Copy, Debug, PartialEq, Eq, Structural)]
pub enum Direction {
    UsToRu,
    RuToUs,
}

/// The US row of letter keys, in the order of the Russian row below.
pub const US: &'static str = "`qwertyuiop[]asdfghjkl;'zxcvbnm,.~QWERTYUIOP{}ASDFGHJKL:\"ZXCVBNM<>";

/// The Russian letters on the same physical keys as `US`.
pub const RU: &'static str = "ёйцукенгшщзхъфывапролджэячсмитьбюЁЙЦУКЕНГШЩЗХЪФЫВАПРОЛДЖЭЯЧСМИТЬБЮ";

/// The Russian letter on the key that carries a US character.
pub open spec fn us_to_ru(c: char) -> Option<char> {
    match c {
        '`' => Some('ё'),
        'q' => Some('й'),
        'w' => Some('ц'),
        'e' => Some('у'),
        'r' => Some('к'),
        't' => Some('е'),
        'y' => Some('н'),
        'u' => Some('г'),
        'i' => Some('ш'),
        'o' => Some('щ'),
        'p' => Some('з'),
        '[' => Some('х'),
        ']' => Some('ъ'),
        'a' => Some('ф'),
        's' => Some('ы'),
        'd' => Some('в'),
        'f' => Some('а'),
        'g' => Some('п'),
        'h' => Some('р'),
        'j' => Some('о'),
        'k' => Some('л'),
        'l' => Some('д'),
        ';' => Some('ж'),
        '\'' => Some('э'),
        'z' => Some('я'),
        'x' => Some('ч'),
        'c' => Some('с'),
        'v' => Some('м'),
        'b' => Some('и'),
        'n' => Some('т'),
        'm' => Some('ь'),
        ',' => Some('б'),
        '.' => Some('ю'),
        '~' => Some('Ё'),
        'Q' => Some('Й'),
        'W' => Some('Ц'),
        'E' => Some('У'),
        'R' => Some('К'),
        'T' => Some('Е'),
        'Y' => Some('Н'),
        'U' => Some('Г'),
        'I' => Some('Ш'),
        'O' => Some('Щ'),
        'P' => Some('З'),
        '{' => Some('Х'),
        '}' => Some('Ъ'),
        'A' => Some('Ф'),
        'S' => Some('Ы'),
        'D' => Some('В'),
        'F' => Some('А'),
        'G' => Some('П'),
        'H' => Some('Р'),
        'J' => Some('О'),
        'K' => Some('Л'),
        'L' => Some('Д'),
        ':' => Some('Ж'),
        '"' => Some('Э'),
        'Z' => Some('Я'),
        'X' => Some('Ч'),
        'C' => Some('С'),
        'V' => Some('М'),
        'B' => Some('И'),
        'N' => Some('Т'),
        'M' => Some('Ь'),
        '<' => Some('Б'),
        '>' => Some('Ю'),
        _ => None,
    }
}

/// The US character on the key that carries a Russian letter.
pub open spec fn ru_to_us(c: char) -> Option<char> {
    match c {
        'ё' => Some('`'),
        'й' => Some('q'),
        'ц' => Some('w'),
        'у' => Some('e'),
        'к' => Some('r'),
        'е' => Some('t'),
        'н' => Some('y'),
        'г' => Some('u'),
        'ш' => Some('i'),
        'щ' => Some('o'),
        'з' => Some('p'),
        'х' => Some('['),
        'ъ' => Some(']'),
        'ф' => Some('a'),
        'ы' => Some('s'),
        'в' => Some('d'),
        'а' => Some('f'),
        'п' => Some('g'),
        'р' => Some('h'),
        'о' => Some('j'),
        'л' => Some('k'),
        'д' => Some('l'),
        'ж' => Some(';'),
        'э' => Some('\''),
        'я' => Some('z'),
        'ч' => Some('x'),
        'с' => Some('c'),
        'м' => Some('v'),
        'и' => Some('b'),
        'т' => Some('n'),
        'ь' => Some('m'),
        'б' => Some(','),
        'ю' => Some('.'),
        'Ё' => Some('~'),
        'Й' => Some('Q'),
        'Ц' => Some('W'),
        'У' => Some('E'),
        'К' => Some('R'),
        'Е' => Some('T'),
        'Н' => Some('Y'),
        'Г' => Some('U'),
        'Ш' => Some('I'),
        'Щ' => Some('O'),
        'З' => Some('P'),
        'Х' => Some('{'),
        'Ъ' => Some('}'),
        'Ф' => Some('A'),
        'Ы' => Some('S'),
        'В' => Some('D'),
        'А' => Some('F'),
        'П' => Some('G'),
        'Р' => Some('H'),
        'О' => Some('J'),
        'Л' => Some('K'),
        'Д' => Some('L'),
        'Ж' => Some(':'),
        'Э' => Some('"'),
        'Я' => Some('Z'),
        'Ч' => Some('X'),
        'С' => Some('C'),
        'М' => Some('V'),
        'И' => Some('B'),
        'Т' => Some('N'),
        'Ь' => Some('M'),
        'Б' => Some('<'),
        'Ю' => Some('>'),
        _ => None,
    }
}

/// The character on the same key in the other layout.
pub open spec fn key_map(direction: Direction, c: char) -> Option<char> {
    match direction {
        Direction::UsToRu => us_to_ru(c),
        Direction::RuToUs => ru_to_us(c),
    }
}

pub open spec fn reverse(direction: Direction) -> Direction {
    match direction {
        Direction::UsToRu => Direction::RuToUs,
        Direction::RuToUs => Direction::UsToRu,
    }
}

/// Each key maps back to itself: converting a character to the other layout
/// and back gives the character again.
pub proof fn lemma_key_round_trip(direction: Direction, c: char)
    requires
        key_map(direction, c) is Some,
    ensures
        key_map(reverse(direction), key_map(direction, c)->Some_0) == Some(c),
{
}

/// What `map_token` answers: the key-for-key conversion of a nonempty token.
pub open spec fn map_token_spec(word: Seq<char>, direction: Direction) -> Result<Seq<char>, Rejection> {
    if word.len() == 0 {
        Err(Rejection::InvalidRange)
    } else if exists|i: int| 0 <= i < word.len() && #[trigger] key_map(direction, word[i]) is None {
        Err(Rejection::Unsupported)
    } else {
        Ok(Seq::new(word.len(), |i: int| key_map(direction, word[i])->Some_0))
    }
}

/// Converting a token to the other layout and back gives the token again.
pub proof fn law_map_token_round_trip(word: Seq<char>, direction: Direction)
    requires
        map_token_spec(word, direction) is Ok,
    ensures
        map_token_spec(map_token_spec(word, direction)->Ok_0, reverse(direction)) == Ok::<
            Seq<char>,
            Rejection,
        >(word),
{
    let mapped = map_token_spec(word, direction)->Ok_0;
    assert forall|i: int| 0 <= i < word.len() implies key_map(direction, #[trigger] word[i]) is Some by {
        if key_map(direction, word[i]) is None {
            assert(exists|j: int| 0 <= j < word.len() && #[trigger] key_map(direction, word[j]) is None);
        }
    }
    assert forall|i: int| 0 <= i < mapped.len() implies key_map(reverse(direction), #[trigger] mapped[i])
        == Some(word[i]) by {
        lemma_key_round_trip(direction, word[i]);
    }
    assert(!exists|i: int| 0 <= i < mapped.len() && #[trigger] key_map(reverse(direction), mapped[i]) is None);
    assert(Seq::new(mapped.len(), |i: int| key_map(reverse(direction), mapped[i])->Some_0) =~= word);
}

/// Length of `s[0..n]` without its trailing Space characters.
pub open spec fn trimmed_len(s: Seq<char>, n: int) -> int
    decreases n,
{
    if n > 0 && s[n - 1] == ' ' {
        trimmed_len(s, n - 1)
    } else {
        n
    }
}

/// Start of the token that ends at `n`: just after the last whitespace in
/// `s[0..n]`, or 0.
pub open spec fn word_start(s: Seq<char>, n: int) -> int
    decreases n,
{
    if n <= 0 {
        0
    } else if is_space_char(s[n - 1]) {
        n
    } else {
        word_start(s, n - 1)
    }
}

pub proof fn lemma_trimmed_len(s: Seq<char>, n: int)
    requires
        0 <= n <= s.len(),
    ensures
        0 <= trimmed_len(s, n) <= n,
        forall|i: int| trimmed_len(s, n) <= i < n ==> s[i] == ' ',
        trimmed_len(s, n) > 0 ==> s[trimmed_len(s, n) - 1] != ' ',
    decreases n,
{
    if n > 0 && s[n - 1] == ' ' {
        lemma_trimmed_len(s, n - 1);
    }
}

pub proof fn lemma_word_start(s: Seq<char>, n: int)
    requires
        0 <= n <= s.len(),
    ensures
        0 <= word_start(s, n) <= n,
        forall|i: int| word_start(s, n) <= i < n ==> !is_space_char(#[trigger] s[i]),
        word_start(s, n) > 0 ==> is_space_char(s[word_start(s, n) - 1]),
    decreases n,
{
    if n > 0 && !is_space_char(s[n - 1]) {
        lemma_word_start(s, n - 1);
    }
}

/// What `convert_suffix` answers for the characters before the caret: where
/// the last token starts, and its conversion followed by the trailing Spaces.
pub open spec fn convert_suffix_spec(prefix: Seq<char>, direction: Direction) -> Result<
    (int, Seq<char>),
    Rejection,
> {
    let word_end = trimmed_len(prefix, prefix.len() as int);
    let start = word_start(prefix, word_end);
    match map_token_spec(prefix.subrange(start, word_end), direction) {
        Err(e) => Err(e),
        Ok(mapped) => {
            let replacement = mapped + prefix.subrange(word_end, prefix.len() as int);
            if byte_len(replacement) > MAX_REPLACEMENT_BYTES {
                Err(Rejection::Limit)
            } else {
                Ok((start, replacement))
            }
        },
    }
}

/// What `prepare_manual` plans: the token start, the replacement and the text
/// after the edit.
pub open spec fn manual_spec(snapshot: Snapshot, direction: Direction) -> Result<
    (int, Seq<char>, Seq<char>),
    Rejection,
> {
    let text = snapshot.text@;
    let caret = snapshot.caret as int;
    match snapshot.check_spec() {
        Err(e) => Err(e),
        Ok(_) => if !(caret > 0 && text[caret - 1] == ' ') && caret < text.len() && !is_space_char(
            text[caret],
        ) {
            Err(Rejection::InvalidRange)
        } else {
            match convert_suffix_spec(text.take(caret), direction) {
                Err(e) => Err(e),
                Ok((start, replacement)) => match replace_spec(text, start, caret, replacement) {
                    Err(e) => Err(e),
                    Ok(after) => Ok((start, replacement, after)),
                },
            }
        },
    }
}

/// The character on the same key in the other layout.
pub fn map_key(c: char, direction: Direction) -> (r: Option<char>)
    ensures
        r == key_map(direction, c),
{
    match direction {
        Direction::UsToRu => match c {
        '`' => Some('ё'),
        'q' => Some('й'),
        'w' => Some('ц'),
        'e' => Some('у'),
        'r' => Some('к'),
        't' => Some('е'),
        'y' => Some('н'),
        'u' => Some('г'),
        'i' => Some('ш'),
        'o' => Some('щ'),
        'p' => Some('з'),
        '[' => Some('х'),
        ']' => Some('ъ'),
        'a' => Some('ф'),
        's' => Some('ы'),
        'd' => Some('в'),
        'f' => Some('а'),
        'g' => Some('п'),
        'h' => Some('р'),
        'j' => Some('о'),
        'k' => Some('л'),
        'l' => Some('д'),
        ';' => Some('ж'),
        '\'' => Some('э'),
        'z' => Some('я'),
        'x' => Some('ч'),
        'c' => Some('с'),
        'v' => Some('м'),
        'b' => Some('и'),
        'n' => Some('т'),
        'm' => Some('ь'),
        ',' => Some('б'),
        '.' => Some('ю'),
        '~' => Some('Ё'),
        'Q' => Some('Й'),
        'W' => Some('Ц'),
        'E' => Some('У'),
        'R' => Some('К'),
        'T' => Some('Е'),
        'Y' => Some('Н'),
        'U' => Some('Г'),
        'I' => Some('Ш'),
        'O' => Some('Щ'),
        'P' => Some('З'),
        '{' => Some('Х'),
        '}' => Some('Ъ'),
        'A' => Some('Ф'),
        'S' => Some('Ы'),
        'D' => Some('В'),
        'F' => Some('А'),
        'G' => Some('П'),
        'H' => Some('Р'),
        'J' => Some('О'),
        'K' => Some('Л'),
        'L' => Some('Д'),
        ':' => Some('Ж'),
        '"' => Some('Э'),
        'Z' => Some('Я'),
        'X' => Some('Ч'),
        'C' => Some('С'),
        'V' => Some('М'),
        'B' => Some('И'),
        'N' => Some('Т'),
        'M' => Some('Ь'),
        '<' => Some('Б'),
        '>' => Some('Ю'),
            _ => None,
        },
        Direction::RuToUs => match c {
        'ё' => Some('`'),
        'й' => Some('q'),
        'ц' => Some('w'),
        'у' => Some('e'),
        'к' => Some('r'),
        'е' => Some('t'),
        'н' => Some('y'),
        'г' => Some('u'),
        'ш' => Some('i'),
        'щ' => Some('o'),
        'з' => Some('p'),
        'х' => Some('['),
        'ъ' => Some(']'),
        'ф' => Some('a'),
        'ы' => Some('s'),
        'в' => Some('d'),
        'а' => Some('f'),
        'п' => Some('g'),
        'р' => Some('h'),
        'о' => Some('j'),
        'л' => Some('k'),
        'д' => Some('l'),
        'ж' => Some(';'),
        'э' => Some('\''),
        'я' => Some('z'),
        'ч' => Some('x'),
        'с' => Some('c'),
        'м' => Some('v'),
        'и' => Some('b'),
        'т' => Some('n'),
        'ь' => Some('m'),
        'б' => Some(','),
        'ю' => Some('.'),
        'Ё' => Some('~'),
        'Й' => Some('Q'),
        'Ц' => Some('W'),
        'У' => Some('E'),
        'К' => Some('R'),
        'Е' => Some('T'),
        'Н' => Some('Y'),
        'Г' => Some('U'),
        'Ш' => Some('I'),
        'Щ' => Some('O'),
        'З' => Some('P'),
        'Х' => Some('{'),
        'Ъ' => Some('}'),
        'Ф' => Some('A'),
        'Ы' => Some('S'),
        'В' => Some('D'),
        'А' => Some('F'),
        'П' => Some('G'),
        'Р' => Some('H'),
        'О' => Some('J'),
        'Л' => Some('K'),
        'Д' => Some('L'),
        'Ж' => Some(':'),
        'Э' => Some('"'),
        'Я' => Some('Z'),
        'Ч' => Some('X'),
        'С' => Some('C'),
        'М' => Some('V'),
        'И' => Some('B'),
        'Т' => Some('N'),
        'Ь' => Some('M'),
        'Б' => Some('<'),
        'Ю' => Some('>'),
            _ => None,
        },
    }
}

/// Maps one complete token key for key; case is kept because shifted keys
/// map to shifted keys.
pub fn map_token(word: &str, direction: Direction) -> (r: Result<String, Rejection>)
    ensures
        match r {
            Ok(s) => map_token_spec(word@, direction) == Ok::<Seq<char>, Rejection>(s@),
            Err(e) => map_token_spec(word@, direction) == Err::<Seq<char>, Rejection>(e),
        },
{
    let chars = to_chars(word);
    assert(chars@.subrange(0, chars@.len() as int) =~= chars@);
    map_chars(&chars, 0, chars.len(), direction)
}

/// `map_token` on `v[from..to]`.
pub fn map_chars(v: &[char], from: usize, to: usize, direction: Direction) -> (r: Result<
    String,
    Rejection,
>)
    requires
        from <= to <= v@.len(),
    ensures
        match r {
            Ok(s) => map_token_spec(v@.subrange(from as int, to as int), direction) == Ok::<
                Seq<char>,
                Rejection,
            >(s@),
            Err(e) => map_token_spec(v@.subrange(from as int, to as int), direction) == Err::<
                Seq<char>,
                Rejection,
            >(e),
        },
{
    let ghost word = v@.subrange(from as int, to as int);
    if from == to {
        return Err(Rejection::InvalidRange);
    }
    let mut out = String::new();
    let mut i = from;
    while i < to
        invariant
            from <= i <= to <= v@.len(),
            word == v@.subrange(from as int, to as int),
            out@.len() == i - from,
            forall|j: int| 0 <= j < i - from ==> key_map(direction, #[trigger] word[j]) is Some
                && out@[j] == key_map(direction, word[j])->Some_0,
        decreases to - i,
    {
        match map_key(v[i], direction) {
            Some(m) => {
                push_char(&mut out, m);
            },
            None => {
                assert(key_map(direction, word[i - from]) is None);
                return Err(Rejection::Unsupported);
            },
        }
        i += 1;
    }
    assert(out@ =~= Seq::new(word.len(), |k: int| key_map(direction, word[k])->Some_0));
    Ok(out)
}

/// Length of `v[0..n]` without trailing Spaces.
pub fn trim_spaces_end(v: &[char], n: usize) -> (r: usize)
    requires
        n <= v@.len(),
    ensures
        r == trimmed_len(v@, n as int),
{
    let mut i = n;
    while i > 0 && v[i - 1] == ' '
        invariant
            i <= n <= v@.len(),
            trimmed_len(v@, i as int) == trimmed_len(v@, n as int),
        decreases i,
    {
        i -= 1;
    }
    i
}

/// Start of the token that ends at `n`.
pub fn find_word_start(v: &[char], n: usize) -> (r: usize)
    requires
        n <= v@.len(),
    ensures
        r == word_start(v@, n as int),
{
    let mut i = n;
    while i > 0 && !is_whitespace(v[i - 1])
        invariant
            i <= n <= v@.len(),
            word_start(v@, i as int) == word_start(v@, n as int),
        decreases i,
    {
        i -= 1;
    }
    i
}

/// Converts the last whitespace-delimited token of `v[0..n]`, keeping the
/// Spaces that follow it; answers the token's start and the replacement.
pub fn convert_suffix(v: &[char], n: usize, direction: Direction) -> (r: Result<
    (usize, String),
    Rejection,
>)
    requires
        n <= v@.len(),
    ensures
        match r {
            Ok((start, s)) => convert_suffix_spec(v@.take(n as int), direction) == Ok::<
                (int, Seq<char>),
                Rejection,
            >((start as int, s@)),
            Err(e) => convert_suffix_spec(v@.take(n as int), direction) == Err::<
                (int, Seq<char>),
                Rejection,
            >(e),
        },
{
    let ghost prefix = v@.take(n as int);
    let word_end = trim_spaces_end(v, n);
    proof {
        lemma_trimmed_len(v@, n as int);
    }
    let start = find_word_start(v, word_end);
    proof {
        lemma_word_start(v@, word_end as int);
        assert forall|m: int| 0 <= m <= n implies trimmed_len(prefix, m) == trimmed_len(v@, m) by {
            lemma_trimmed_prefix(v@, n as int, m);
        }
        assert forall|m: int| 0 <= m <= n implies word_start(prefix, m) == word_start(v@, m) by {
            lemma_word_start_prefix(v@, n as int, m);
        }
        assert(prefix.subrange(start as int, word_end as int) =~= v@.subrange(start as int, word_end as int));
        assert(prefix.len() == n);
    }
    let mut replacement = match map_chars(v, start, word_end, direction) {
        Ok(m) => m,
        Err(e) => {
            return Err(e);
        },
    };
    append_chars(&mut replacement, v, word_end, n);
    proof {
        assert(v@.subrange(word_end as int, n as int) =~= prefix.subrange(word_end as int, n as int));
    }
    if str_len(replacement.as_str()) > MAX_REPLACEMENT_BYTES {
        return Err(Rejection::Limit);
    }
    Ok((start, replacement))
}

proof fn lemma_trimmed_prefix(s: Seq<char>, n: int, m: int)
    requires
        0 <= m <= n <= s.len(),
    ensures
        trimmed_len(s.take(n), m) == trimmed_len(s, m),
    decreases m,
{
    if m > 0 {
        lemma_trimmed_prefix(s, n, m - 1);
    }
}

proof fn lemma_word_start_prefix(s: Seq<char>, n: int, m: int)
    requires
        0 <= m <= n <= s.len(),
    ensures
        word_start(s.take(n), m) == word_start(s, m),
    decreases m,
{
    if m > 0 {
        lemma_word_start_prefix(s, n, m - 1);
    }
}

/// Plans the conversion of the complete token before the caret (an explicit
/// command, not automatic detection). The caret must follow a Space or stand
/// before whitespace or the end of text.
pub fn prepare_manual(snapshot: Snapshot, direction: Direction, now: Instant, ttl: Duration) -> (r:
    Result<Plan, Rejection>)
    ensures
        match manual_spec(snapshot, direction) {
            Err(e) => r == Err::<Plan, Rejection>(e),
            Ok((start, replacement, after)) => r matches Ok(p) && p.before_state() == snapshot
                && p.start() == start && p.end() == snapshot.caret && p.replacement_text()
                == replacement && p.after() == after && p.created() == now && p.ttl() == ttl,
        },
{
    match snapshot.check() {
        Err(e) => {
            return Err(e);
        },
        Ok(()) => {},
    }
    let chars = to_chars(snapshot.text.as_str());
    let caret = snapshot.caret;
    let after_space = caret > 0 && chars[caret - 1] == ' ';
    if !after_space && caret < chars.len() && !is_whitespace(chars[caret]) {
        return Err(Rejection::InvalidRange);
    }
    let (start, replacement) = match convert_suffix(&chars, caret, direction) {
        Ok(x) => x,
        Err(e) => {
            return Err(e);
        },
    };
    proof {
        let w = trimmed_len(chars@.take(caret as int), caret as int);
        lemma_trimmed_len(chars@.take(caret as int), caret as int);
        lemma_word_start(chars@.take(caret as int), w);
    }
    let after = replace_chars(snapshot.text.as_str(), start..caret, replacement.as_str());
    match after {
        Err(e) => Err(e),
        Ok(after_text) => Ok(Plan::assemble(snapshot, start, replacement, after_text, now, ttl)),
    }
}


/// The evdev code of the key at position `i` of `US` and of `RU`: the Grave
/// key (41), then the top row from Q (16) through the brackets, the home row
/// from A (30) through the apostrophe key, and the bottom row from Z (44)
/// through the full-stop key; the second half repeats the first with Shift.
pub open spec fn layout_keycode(i: int) -> int {
    let j = if i >= 33 { i - 33 } else { i };
    if j == 0 {
        41
    } else if j <= 12 {
        15 + j
    } else if j <= 23 {
        17 + j
    } else {
        20 + j
    }
}

/// Manual conversion is key for key: the character at each position of
/// `US` becomes the Russian letter at the same position of `RU`, and back.
pub proof fn law_key_map_follows_layout(i: int)
    requires
        0 <= i < 66,
    ensures
        US@.len() == 66,
        RU@.len() == 66,
        key_map(Direction::UsToRu, US@[i]) == Some(RU@[i]),
        key_map(Direction::RuToUs, RU@[i]) == Some(US@[i]),
{
    reveal_strlit("`qwertyuiop[]asdfghjkl;'zxcvbnm,.~QWERTYUIOP{}ASDFGHJKL:\"ZXCVBNM<>");
    reveal_strlit("ёйцукенгшщзхъфывапролджэячсмитьбюЁЙЦУКЕНГШЩЗХЪФЫВАПРОЛДЖЭЯЧСМИТЬБЮ");
    if i == 0 {} else if i == 1 {} else if i == 2 {} else if i == 3 {} else if i == 4 {} else if i == 5 {} else if i == 6 {} else if i == 7 {} else if i == 8 {} else if i == 9 {} else if i == 10 {} else if i == 11 {} else if i == 12 {} else if i == 13 {} else if i == 14 {} else if i == 15 {} else if i == 16 {} else if i == 17 {} else if i == 18 {} else if i == 19 {} else if i == 20 {} else if i == 21 {} else if i == 22 {} else if i == 23 {} else if i == 24 {} else if i == 25 {} else if i == 26 {} else if i == 27 {} else if i == 28 {} else if i == 29 {} else if i == 30 {} else if i == 31 {} else if i == 32 {} else if i == 33 {} else if i == 34 {} else if i == 35 {} else if i == 36 {} else if i == 37 {} else if i == 38 {} else if i == 39 {} else if i == 40 {} else if i == 41 {} else if i == 42 {} else if i == 43 {} else if i == 44 {} else if i == 45 {} else if i == 46 {} else if i == 47 {} else if i == 48 {} else if i == 49 {} else if i == 50 {} else if i == 51 {} else if i == 52 {} else if i == 53 {} else if i == 54 {} else if i == 55 {} else if i == 56 {} else if i == 57 {} else if i == 58 {} else if i == 59 {} else if i == 60 {} else if i == 61 {} else if i == 62 {} else if i == 63 {} else if i == 64 {} else {}
}

} // verus!
