//! Text snippets typed by trigger: when the characters typed so far end with a
//! trigger (at a word boundary), the trigger is erased with Backspace and the
//! replacement typed instead. Replacements may hold `{{date}}`, `{{time}}`
//! and `{{shell:command}}`; the clock and the shell are the host's.
use crate::config::SnippetsConfig;
use crate::event::{InputEvent, KeyState};
use crate::inject::{char_to_keycode, typed_keys};
use crate::pipeline::PipelineStage;
use crate::text::{decimal, ends_with, ends_with_at, occurs_at, occurs_at_exec, push_char, texts, to_chars};
use crate::typing::{backspaces, lemma_presses_concat, presses, push_key, BACKSPACE};
use vstd::prelude::*;

verus! {

/// What expansion reads from outside: the clock and the shell. Nothing is
/// stated of either answer.
pub trait Environment {
    /// Seconds since the Unix epoch.
    fn unix_seconds(&self) -> u64;

    /// The trimmed standard output of `sh -c command`, empty on failure.
    fn shell_output(&self, command: &str) -> String;
}

pub struct Snippet {
    pub trigger: String,
    pub replacement: String,
    pub word_boundary: bool,
}

/// Characters after which a trigger starts a word.
pub open spec fn boundary_char(c: char) -> bool {
    c == ' ' || c == '\t' || c == '\n' || c == '(' || c == '[' || c == '{' || c == ',' || c == '.'
        || c == ':'
}

/// Whether the last `n` characters of `buffer` start at a word boundary: at
/// the start, or after a boundary character.
pub open spec fn at_boundary(buffer: Seq<char>, n: int) -> bool {
    n >= buffer.len() || boundary_char(buffer[buffer.len() - n - 1])
}

pub open spec fn matches(s: Snippet, buffer: Seq<char>) -> bool {
    ends_with(buffer, s.trigger@) && (!s.word_boundary || at_boundary(buffer, s.trigger@.len() as int))
}

/// The first snippet whose trigger ends the buffer, by position.
pub open spec fn first_match(snippets: Seq<Snippet>, buffer: Seq<char>, from: int) -> Option<int>
    decreases snippets.len() - from,
{
    if from >= snippets.len() || from < 0 {
        None
    } else if matches(snippets[from], buffer) {
        Some(from)
    } else {
        first_match(snippets, buffer, from + 1)
    }
}

/// `n` in decimal, zero-padded to `width` digits.
pub open spec fn padded(n: nat, width: nat) -> Seq<char> {
    let d = decimal(n);
    if d.len() >= width {
        d
    } else {
        Seq::new((width - d.len()) as nat, |i: int| '0') + d
    }
}

/// The date written for `{{date}}`: 365-day years and 30-day months from 1970.
pub open spec fn date_text(secs: nat) -> Seq<char> {
    let days = secs / 86400;
    let year = 1970 + days / 365;
    let doy = days % 365;
    padded(year, 4) + "-"@ + padded(doy / 30 + 1, 2) + "-"@ + padded(doy % 30 + 1, 2)
}

/// The time of day written for `{{time}}`.
pub open spec fn time_text(secs: nat) -> Seq<char> {
    let s = secs % 86400;
    padded(s / 3600, 2) + ":"@ + padded((s % 3600) / 60, 2) + ":"@ + padded(s % 60, 2)
}

/// `s` with every non-overlapping occurrence of `pat`, left to right, replaced.
pub open spec fn replace_all(s: Seq<char>, pat: Seq<char>, rep: Seq<char>) -> Seq<char>
    decreases s.len(),
{
    if pat.len() == 0 || s.len() < pat.len() {
        s
    } else if occurs_at(s, pat, 0) {
        rep + replace_all(s.skip(pat.len() as int), pat, rep)
    } else {
        seq![s[0]] + replace_all(s.skip(1), pat, rep)
    }
}

/// The template with `{{date}}` filled in from one clock reading and then
/// `{{time}}` from another.
pub open spec fn clock_expanded(template: Seq<char>, date_secs: nat, time_secs: nat) -> Seq<char> {
    replace_all(replace_all(template, "{{date}}"@, date_text(date_secs)), "{{time}}"@, time_text(time_secs))
}

fn push_padded(s: &mut String, n: u64, width: usize)
    requires
        width <= 4,
    ensures
        final(s)@ == old(s)@ + padded(n as nat, width as nat),
{
    let digits = crate::text::decimal_string(n);
    let len = digits.as_str().unicode_len();
    let ghost start = s@;
    let mut i: usize = len;
    while i < width
        invariant
            len == decimal(n as nat).len(),
            digits@ == decimal(n as nat),
            len <= i,
            i <= width || i == len,
            s@ == start + Seq::new((i - len) as nat, |k: int| '0'),
        decreases width - i,
    {
        push_char(s, '0');
        assert(start + Seq::new((i + 1 - len) as nat, |k: int| '0') =~= start + Seq::new((i - len) as nat, |k: int| '0').push('0'));
        i += 1;
    }
    s.append(digits.as_str());
    proof {
        if len >= width {
            assert(Seq::new(0nat, |k: int| '0') =~= Seq::<char>::empty());
            assert(s@ =~= start + decimal(n as nat));
        } else {
            assert(s@ =~= start + (Seq::new((width - len) as nat, |k: int| '0') + decimal(n as nat)));
        }
    }
}

/// The text for `{{date}}` at `secs`.
pub fn date_string(secs: u64) -> (s: String)
    ensures
        s@ == date_text(secs as nat),
{
    let days = secs / 86400;
    let year = 1970 + days / 365;
    let doy = days % 365;
    let mut s = String::new();
    push_padded(&mut s, year, 4);
    s.append("-");
    push_padded(&mut s, doy / 30 + 1, 2);
    s.append("-");
    push_padded(&mut s, doy % 30 + 1, 2);
    s
}

/// The text for `{{time}}` at `secs`.
pub fn time_string(secs: u64) -> (s: String)
    ensures
        s@ == time_text(secs as nat),
{
    let t = secs % 86400;
    let mut s = String::new();
    push_padded(&mut s, t / 3600, 2);
    s.append(":");
    push_padded(&mut s, (t % 3600) / 60, 2);
    s.append(":");
    push_padded(&mut s, t % 60, 2);
    s
}

/// `text` with every non-overlapping occurrence of `pat`, left to right,
/// replaced by `rep`.
pub fn replace_all_exec(text: &str, pat: &str, rep: &str) -> (r: String)
    ensures
        r@ == replace_all(text@, pat@, rep@),
    decreases text@.len(),
{
    let v = to_chars(text);
    let p = to_chars(pat);
    if p.len() == 0 || v.len() < p.len() {
        return String::from_str(text);
    }
    if occurs_at_exec(&v, &p, 0) {
        let rest = crate::text::string_from(&v, p.len(), v.len());
        assert(v@.subrange(p@.len() as int, v@.len() as int) =~= text@.skip(pat@.len() as int));
        let tail = replace_all_exec(rest.as_str(), pat, rep);
        let mut r = String::from_str(rep);
        r.append(tail.as_str());
        r
    } else {
        let rest = crate::text::string_from(&v, 1, v.len());
        assert(v@.subrange(1, v@.len() as int) =~= text@.skip(1));
        let tail = replace_all_exec(rest.as_str(), pat, rep);
        let mut r = String::new();
        push_char(&mut r, v[0]);
        r.append(tail.as_str());
        assert(r@ =~= seq![text@[0]] + tail@);
        r
    }
}

/// The first `}}` at or after `from`.
pub open spec fn closing(s: Seq<char>, from: int) -> Option<int>
    decreases s.len() - from,
{
    if from < 0 || from + 2 > s.len() {
        None
    } else if s[from] == '}' && s[from + 1] == '}' {
        Some(from)
    } else {
        closing(s, from + 1)
    }
}

/// The first `{{shell:` at or after `from`, if the first `}}` after it closes
/// it: the marker's start and the position of that `}}`.
pub open spec fn shell_marker(s: Seq<char>, from: int) -> Option<(int, int)>
    decreases s.len() - from,
{
    if from < 0 || from >= s.len() || from + "{{shell:"@.len() > s.len() {
        None
    } else if occurs_at(s, "{{shell:"@, from) {
        match closing(s, from + "{{shell:"@.len()) {
            Some(e) => Some((from, e)),
            Option::None => None,
        }
    } else {
        shell_marker(s, from + 1)
    }
}

/// The commands of the shell markers of `s`, left to right.
pub open spec fn shell_commands(s: Seq<char>) -> Seq<Seq<char>>
    decreases s.len(),
{
    match shell_marker(s, 0) {
        Some(m) => if 0 <= m.0 && m.0 + "{{shell:"@.len() <= m.1 && m.1 + 2 <= s.len() {
            seq![s.subrange(m.0 + "{{shell:"@.len(), m.1)] + shell_commands(s.skip(m.1 + 2))
        } else {
            Seq::empty()
        },
        Option::None => Seq::empty(),
    }
}

/// `s` with its shell markers, left to right, replaced by `outputs` in turn
/// (by nothing once they run out). Inserted output is not scanned again.
pub open spec fn shell_expanded(s: Seq<char>, outputs: Seq<Seq<char>>) -> Seq<char>
    decreases s.len(),
{
    match shell_marker(s, 0) {
        Some(m) => if 0 <= m.0 && m.0 + "{{shell:"@.len() <= m.1 && m.1 + 2 <= s.len() {
            let head = if outputs.len() > 0 { outputs[0] } else { Seq::empty() };
            let rest = if outputs.len() > 0 { outputs.drop_first() } else { outputs };
            s.take(m.0) + head + shell_expanded(s.skip(m.1 + 2), rest)
        } else {
            s
        },
        Option::None => s,
    }
}

/// Whether `text` is what expanding `template` gives for some clock readings
/// and some command outputs, one for each shell marker.
pub open spec fn is_expansion(template: Seq<char>, text: Seq<char>) -> bool {
    exists|d: nat, t: nat, outputs: Seq<Seq<char>>|
        #![trigger shell_expanded(clock_expanded(template, d, t), outputs)]
        outputs.len() == shell_commands(clock_expanded(template, d, t)).len()
            && text == shell_expanded(clock_expanded(template, d, t), outputs)
}

proof fn lemma_closing_bounds(s: Seq<char>, from: int)
    ensures
        closing(s, from) matches Some(e) ==> from <= e && e + 2 <= s.len(),
    decreases s.len() - from,
{
    if !(from < 0 || from + 2 > s.len()) && !(s[from] == '}' && s[from + 1] == '}') {
        lemma_closing_bounds(s, from + 1);
    }
}

proof fn lemma_marker_bounds(s: Seq<char>, from: int)
    ensures
        shell_marker(s, from) matches Some(m) ==> from <= m.0 && m.0 + "{{shell:"@.len() <= m.1
            && m.1 + 2 <= s.len(),
    decreases s.len() - from,
{
    if !(from < 0 || from >= s.len() || from + "{{shell:"@.len() > s.len()) {
        if occurs_at(s, "{{shell:"@, from) {
            lemma_closing_bounds(s, from + "{{shell:"@.len());
        } else {
            lemma_marker_bounds(s, from + 1);
        }
    }
}

fn find_closing(v: &Vec<char>, from: usize) -> (r: Option<usize>)
    ensures
        match r {
            Some(e) => closing(v@, from as int) == Some(e as int),
            Option::None => closing(v@, from as int) is None,
        },
{
    let mut i = from;
    while i < v.len() && v.len() - i >= 2
        invariant
            from <= i,
            closing(v@, from as int) == closing(v@, i as int),
        decreases v.len() - i,
    {
        if v[i] == '}' && v[i + 1] == '}' {
            return Some(i);
        }
        i += 1;
    }
    None
}

fn find_marker(v: &Vec<char>, open: &Vec<char>, from: usize) -> (r: Option<(usize, usize)>)
    requires
        open@ == "{{shell:"@,
    ensures
        match r {
            Some(m) => shell_marker(v@, from as int) == Some((m.0 as int, m.1 as int)),
            Option::None => shell_marker(v@, from as int) is None,
        },
{
    proof {
        reveal_strlit("{{shell:");
    }
    let mut i = from;
    while i <= v.len() && v.len() - i >= open.len()
        invariant
            open@ == "{{shell:"@,
            open@.len() == 8,
            from <= i,
            shell_marker(v@, from as int) == shell_marker(v@, i as int),
        decreases v.len() - i,
    {
        if occurs_at_exec(v, open, i) {
            return match find_closing(v, i + open.len()) {
                Some(e) => Some((i, e)),
                None => None,
            };
        }
        i += 1;
    }
    None
}

/// The commands of the shell markers of `text`, left to right.
pub fn shell_commands_of(text: &str) -> (r: Vec<String>)
    ensures
        texts(r@) == shell_commands(text@),
    decreases text@.len(),
{
    let v = to_chars(text);
    let open = to_chars("{{shell:");
    match find_marker(&v, &open, 0) {
        None => Vec::new(),
        Some((a, e)) => {
            proof {
                lemma_marker_bounds(v@, 0);
            }
            let n = v.len();
            let cmd = crate::text::string_from(&v, a + open.len(), e);
            let rest = crate::text::string_from(&v, e + 2, n);
            assert(rest@ =~= text@.skip(e + 2));
            let mut tail = shell_commands_of(rest.as_str());
            let mut r: Vec<String> = Vec::new();
            r.push(cmd);
            let ghost tail_view = tail@;
            r.append(&mut tail);
            assert(texts(r@) =~= seq![cmd@] + texts(tail_view));
            r
        },
    }
}

fn expand_markers_from(text: &str, outputs: &[String], k: usize) -> (r: String)
    requires
        k <= outputs@.len(),
    ensures
        r@ == shell_expanded(text@, texts(outputs@).skip(k as int)),
    decreases text@.len(),
{
    let v = to_chars(text);
    let open = to_chars("{{shell:");
    let ghost outs = texts(outputs@).skip(k as int);
    match find_marker(&v, &open, 0) {
        None => String::from_str(text),
        Some((a, e)) => {
            proof {
                lemma_marker_bounds(v@, 0);
            }
            let n = v.len();
            let rest = crate::text::string_from(&v, e + 2, n);
            assert(rest@ =~= text@.skip(e + 2));
            let mut r = crate::text::string_from(&v, 0, a);
            assert(r@ =~= text@.take(a as int));
            if k < outputs.len() {
                r.append(outputs[k].as_str());
                assert(texts(outputs@).skip(k + 1) =~= outs.drop_first());
                let tail = expand_markers_from(rest.as_str(), outputs, k + 1);
                r.append(tail.as_str());
            } else {
                let tail = expand_markers_from(rest.as_str(), outputs, k);
                r.append(tail.as_str());
                assert(outs.len() == 0);
                assert(r@ =~= text@.take(a as int) + Seq::<char>::empty() + tail@);
            }
            r
        },
    }
}

/// `text` with its shell markers, left to right, replaced by `outputs` in turn.
pub fn expand_shell_markers(text: &str, outputs: &[String]) -> (r: String)
    ensures
        r@ == shell_expanded(text@, texts(outputs@)),
{
    assert(texts(outputs@).skip(0) =~= texts(outputs@));
    expand_markers_from(text, outputs, 0)
}

/// Expands a replacement: `{{date}}` and `{{time}}` from the environment's
/// clock, then each `{{shell:command}}`, left to right, by the environment's
/// output for its command. Command output is inserted as it is.
pub fn expand_variables<E: Environment>(template: &str, env: &E) -> (r: String)
    ensures
        is_expansion(template@, r@),
{
    let d = env.unix_seconds();
    let date = date_string(d);
    let with_date = replace_all_exec(template, "{{date}}", date.as_str());
    let t = env.unix_seconds();
    let time = time_string(t);
    let clocked = replace_all_exec(with_date.as_str(), "{{time}}", time.as_str());
    let commands = shell_commands_of(clocked.as_str());
    let mut outputs: Vec<String> = Vec::new();
    let mut i: usize = 0;
    while i < commands.len()
        invariant
            i <= commands@.len(),
            outputs@.len() == i,
        decreases commands.len() - i,
    {
        outputs.push(env.shell_output(commands[i].as_str()));
        i += 1;
    }
    let r = expand_shell_markers(clocked.as_str(), outputs.as_slice());
    assert(clocked@ == clock_expanded(template@, d as nat, t as nat));
    assert(texts(outputs@).len() == shell_commands(clock_expanded(template@, d as nat, t as nat)).len());
    r
}

/// The presses and releases that type `text`; characters without a key are
/// skipped.
fn text_to_events(text: &str) -> (r: Vec<InputEvent>)
    ensures
        presses(r@, typed_keys(text@)),
{
    let chars = to_chars(text);
    let mut r: Vec<InputEvent> = Vec::new();
    let mut i: usize = 0;
    while i < chars.len()
        invariant
            i <= chars@.len(),
            presses(r@, typed_keys(chars@.take(i as int))),
        decreases chars.len() - i,
    {
        assert(chars@.take(i + 1).drop_last() =~= chars@.take(i as int));
        match char_to_keycode(chars[i]) {
            Some(k) => push_key(&mut r, k),
            None => {},
        }
        i += 1;
    }
    assert(chars@.take(chars@.len() as int) =~= text@);
    r
}

/// Whether a trigger of `n` characters at the end of `buffer` starts a word.
fn is_boundary(buffer: &Vec<char>, trigger_len: usize) -> (b: bool)
    ensures
        b == at_boundary(buffer@, trigger_len as int),
{
    if trigger_len >= buffer.len() {
        return true;
    }
    let c = buffer[buffer.len() - trigger_len - 1];
    c == ' ' || c == '\t' || c == '\n' || c == '(' || c == '[' || c == '{' || c == ',' || c == '.'
        || c == ':'
}

/// The number of characters of `s`.
fn str_len_chars(s: &str) -> (n: usize)
    ensures
        n == s@.len(),
{
    to_chars(s).len()
}

/// The position of the first snippet whose trigger ends `buffer`.
fn find_match(snippets: &Vec<Snippet>, buffer: &Vec<char>) -> (r: Option<usize>)
    ensures
        match r {
            Some(i) => first_match(snippets@, buffer@, 0) == Some(i as int) && i < snippets@.len()
                && snippets@[i as int].trigger@.len() <= buffer@.len(),
            Option::None => first_match(snippets@, buffer@, 0) is None,
        },
{
    let n = snippets.len();
    let len = buffer.len();
    let mut i: usize = 0;
    while i < n
        invariant
            n == snippets@.len(),
            len == buffer@.len(),
            i <= n,
            first_match(snippets@, buffer@, 0) == first_match(snippets@, buffer@, i as int),
        decreases n - i,
    {
        let trigger = to_chars(snippets[i].trigger.as_str());
        if trigger.len() <= len && ends_with_at(buffer, len, &trigger) && (!snippets[i].word_boundary
            || is_boundary(buffer, trigger.len())) {
            assert(buffer@.subrange(0, len as int) =~= buffer@);
            return Some(i);
        }
        assert(buffer@.subrange(0, len as int) =~= buffer@);
        i += 1;
    }
    None
}

/// Expands snippets as they are typed. It remembers the characters typed
/// (at most `max_buffer_size` of them, oldest dropped first, while nothing
/// expands).
pub struct SnippetExpander<E: Environment> {
    buffer: Vec<char>,
    max_buffer_size: usize,
    snippets: Vec<Snippet>,
    env: E,
}

impl<E: Environment> SnippetExpander<E> {
    /// The characters remembered, oldest first.
    pub closed spec fn typed(self) -> Seq<char> {
        self.buffer@
    }

    /// The snippets, in the order they are tried.
    pub closed spec fn snippet_list(self) -> Seq<Snippet> {
        self.snippets@
    }

    pub closed spec fn capacity(self) -> nat {
        self.max_buffer_size as nat
    }

    pub fn new(snippets: Vec<Snippet>, env: E) -> (x: Self)
        ensures
            x.typed() == Seq::<char>::empty(),
            x.snippet_list() == snippets@,
            x.capacity() == 256,
    {
        SnippetExpander { buffer: Vec::new(), max_buffer_size: 256, snippets, env }
    }

    /// One snippet per configured entry: the trigger is the prefix followed by
    /// the entry's trigger, and it expands only at a word boundary.
    pub fn from_config(config: &SnippetsConfig, env: E) -> (x: Self)
        ensures
            x.typed() == Seq::<char>::empty(),
            x.capacity() == 256,
            x.snippet_list().len() == config.entries@.len(),
            forall|i: int|
                0 <= i < config.entries@.len() ==> {
                    &&& (#[trigger] x.snippet_list()[i]).trigger@ == config.trigger_prefix@
                        + config.entries@[i].0@
                    &&& x.snippet_list()[i].replacement@ == config.entries@[i].1@
                    &&& x.snippet_list()[i].word_boundary
                },
    {
        let mut snippets: Vec<Snippet> = Vec::new();
        let mut i: usize = 0;
        while i < config.entries.len()
            invariant
                i <= config.entries@.len(),
                snippets@.len() == i,
                forall|j: int|
                    0 <= j < i ==> {
                        &&& (#[trigger] snippets@[j]).trigger@ == config.trigger_prefix@
                            + config.entries@[j].0@
                        &&& snippets@[j].replacement@ == config.entries@[j].1@
                        &&& snippets@[j].word_boundary
                    },
            decreases config.entries.len() - i,
        {
            let mut trigger = config.trigger_prefix.clone();
            trigger.append(config.entries[i].0.as_str());
            let replacement = config.entries[i].1.clone();
            snippets.push(Snippet { trigger, replacement, word_boundary: true });
            i += 1;
        }
        Self::new(snippets, env)
    }
}

/// What `process` does with a typed character `c` when the snippet at `k`
/// (if any) is the first whose trigger ends the characters typed.
pub open spec fn expansion_step(
    typed: Seq<char>,
    capacity: nat,
    matched: Option<Snippet>,
    events_out: Seq<InputEvent>,
    typed_after: Seq<char>,
) -> bool {
    match matched {
        Some(s) => {
            &&& typed_after == typed.take(typed.len() - s.trigger@.len())
            &&& exists|text: Seq<char>|
                is_expansion(s.replacement@, text) && #[trigger] presses(
                    events_out,
                    backspaces(s.trigger@.len()) + typed_keys(text),
                )
        },
        Option::None => typed_after == if typed.len() > capacity {
            typed.drop_first()
        } else {
            typed
        },
    }
}

impl<E: Environment> PipelineStage for SnippetExpander<E> {
    open spec fn named(&self, name: Seq<char>) -> bool {
        name == "snippet-expander"@
    }

    /// The stage keeps nothing that a reset would forget.
    fn reset(&mut self) {
    }

    fn name(&self) -> (s: &str)
        ensures
            s@ == "snippet-expander"@,
    {
        "snippet-expander"
    }

    /// An event without a character passes unchanged. Otherwise the character
    /// is remembered; if a snippet's trigger now ends the characters typed
    /// (at a word boundary where the snippet asks for one), the first such
    /// trigger is erased with Backspace presses and its expansion typed in
    /// place of the event.
    fn process(&mut self, event: InputEvent) -> (r: Vec<InputEvent>)
        ensures
            final(self).snippet_list() == old(self).snippet_list(),
            final(self).capacity() == old(self).capacity(),
            match event.character {
                Option::None => r@ == seq![event] && final(self).typed() == old(self).typed(),
                Some(c) => {
                    let typed = old(self).typed().push(c);
                    let matched = match first_match(old(self).snippet_list(), typed, 0) {
                        Some(k) => Some(old(self).snippet_list()[k]),
                        Option::None => None,
                    };
                    &&& expansion_step(typed, old(self).capacity(), matched, r@, final(self).typed())
                    &&& matched is None ==> r@ == seq![event]
                },
            },
    {
        let ch = match event.character {
            Some(c) => c,
            None => {
                let mut out: Vec<InputEvent> = Vec::new();
                out.push(event);
                return out;
            },
        };
        let ghost snippets0 = self.snippets@;
        let ghost capacity0 = self.max_buffer_size;
        self.buffer.push(ch);
        let ghost typed = self.buffer@;
        match find_match(&self.snippets, &self.buffer) {
            Some(i) => {
                let expanded = expand_variables(self.snippets[i].replacement.as_str(), &self.env);
                let tl = str_len_chars(self.snippets[i].trigger.as_str());
                let len = self.buffer.len();
                let mut k: usize = 0;
                let mut events: Vec<InputEvent> = Vec::new();
                while k < tl
                    invariant
                        k <= tl <= len,
                        len == typed.len(),
                        self.snippets@ == snippets0,
                        self.max_buffer_size == capacity0,
                        self.buffer@ == typed.take(len - k),
                        presses(events@, backspaces(k as nat)),
                    decreases tl - k,
                {
                    self.buffer.pop();
                    push_key(&mut events, BACKSPACE);
                    assert(backspaces(k as nat).push(BACKSPACE) =~= backspaces((k + 1) as nat));
                    assert(typed.take(len - k).subrange(0, len - k - 1) =~= typed.take(len - (k + 1)));
                    k += 1;
                }
                let mut typed_events = text_to_events(expanded.as_str());
                proof {
                    lemma_presses_concat(events@, backspaces(tl as nat), typed_events@, typed_keys(expanded@));
                }
                events.append(&mut typed_events);
                events
            },
            None => {
                if self.buffer.len() > self.max_buffer_size {
                    self.buffer.remove(0);
                    assert(self.buffer@ =~= typed.drop_first());
                }
                let mut out: Vec<InputEvent> = Vec::new();
                out.push(event);
                out
            },
        }
    }
}

} // verus!
