//! Reading a bracketed list out of token text: where the list ends, and
//! where its elements are cut. Only what stands at the top level counts:
//! commas and brackets inside parentheses, brackets or braces, and inside
//! string and character literals, belong to the element that holds them.

use crate::text::{chars_of, texts, trim, trim_bounds};
use vstd::prelude::*;

verus! {

/// What the text is in the middle of.
#[derive(Debug, Clone, Copy, PartialEq, Eq, Structural)]
pub enum Mode {
    /// Ordinary tokens.
    Code,
    /// A string literal `"..."`.
    Text,
    /// Behind a backslash in a string literal.
    TextEscape,
    /// A raw string literal `r"..."` or `r#"..."#`.
    Raw,
    /// A character literal `'...'`.
    Quote,
    /// Behind a backslash in a character literal.
    QuoteEscape,
}

/// The state of a scan: what the text is in the middle of, how many brackets
/// are open, and with how many `#` the raw string at hand was opened.
pub struct Scan {
    pub mode: Mode,
    pub depth: nat,
    pub hashes: nat,
}

/// The state at the start of a text.
pub open spec fn at_start() -> Scan {
    Scan { mode: Mode::Code, depth: 0, hashes: 0 }
}

/// `c` opens a pair of brackets.
pub open spec fn is_opener(c: char) -> bool {
    c == '(' || c == '[' || c == '{'
}

/// `c` closes a pair of brackets.
pub open spec fn is_closer(c: char) -> bool {
    c == ')' || c == ']' || c == '}'
}

/// How many `#` stand directly before index `i`.
pub open spec fn hashes_before(t: Seq<char>, i: int) -> nat
    decreases i,
{
    if 0 < i <= t.len() && t[i - 1] == '#' {
        1 + hashes_before(t, i - 1)
    } else {
        0
    }
}

/// `k` characters `#` stand at index `j` and after it.
pub open spec fn hashes_at(t: Seq<char>, j: int, k: nat) -> bool
    decreases k,
{
    k == 0 || (0 <= j < t.len() && t[j] == '#' && hashes_at(t, j + 1, (k - 1) as nat))
}

/// The `"` at index `i` opens a raw string: an `r` stands before it, with
/// nothing but `#` between them.
pub open spec fn opens_raw(t: Seq<char>, i: int) -> bool {
    i - hashes_before(t, i) >= 1 && t[i - hashes_before(t, i) - 1] == 'r'
}

/// The `'` at index `i` opens a character literal and not a lifetime: a
/// backslash follows it, or the character after the next is a `'`.
pub open spec fn opens_quote(t: Seq<char>, i: int) -> bool {
    (i + 1 < t.len() && t[i + 1] == '\\') || (i + 2 < t.len() && t[i + 2] == '\'')
}

/// The state behind the character at index `i`, given the state `s` before
/// it.
pub open spec fn step(s: Scan, t: Seq<char>, i: int) -> Scan {
    let c = t[i];
    match s.mode {
        Mode::Code => {
            if c == '"' {
                if opens_raw(t, i) {
                    Scan { mode: Mode::Raw, depth: s.depth, hashes: hashes_before(t, i) }
                } else {
                    Scan { mode: Mode::Text, depth: s.depth, hashes: s.hashes }
                }
            } else if c == '\'' {
                if opens_quote(t, i) {
                    Scan { mode: Mode::Quote, depth: s.depth, hashes: s.hashes }
                } else {
                    s
                }
            } else if is_opener(c) {
                Scan { mode: Mode::Code, depth: s.depth + 1, hashes: s.hashes }
            } else if is_closer(c) && s.depth > 0 {
                Scan { mode: Mode::Code, depth: (s.depth - 1) as nat, hashes: s.hashes }
            } else {
                s
            }
        },
        Mode::Text => {
            if c == '\\' {
                Scan { mode: Mode::TextEscape, depth: s.depth, hashes: s.hashes }
            } else if c == '"' {
                Scan { mode: Mode::Code, depth: s.depth, hashes: s.hashes }
            } else {
                s
            }
        },
        Mode::TextEscape => Scan { mode: Mode::Text, depth: s.depth, hashes: s.hashes },
        Mode::Raw => {
            if c == '"' && hashes_at(t, i + 1, s.hashes) {
                Scan { mode: Mode::Code, depth: s.depth, hashes: s.hashes }
            } else {
                s
            }
        },
        Mode::Quote => {
            if c == '\\' {
                Scan { mode: Mode::QuoteEscape, depth: s.depth, hashes: s.hashes }
            } else if c == '\'' {
                Scan { mode: Mode::Code, depth: s.depth, hashes: s.hashes }
            } else {
                s
            }
        },
        Mode::QuoteEscape => Scan { mode: Mode::Quote, depth: s.depth, hashes: s.hashes },
    }
}

/// The state before the character at index `i`.
pub open spec fn scan(t: Seq<char>, i: int) -> Scan
    decreases i,
{
    if i <= 0 {
        at_start()
    } else {
        step(scan(t, i - 1), t, i - 1)
    }
}

/// The character at index `i` stands at the top level: outside every pair
/// of brackets that the text opens and outside every literal.
pub open spec fn at_top(t: Seq<char>, i: int) -> bool {
    scan(t, i).mode == Mode::Code && scan(t, i).depth == 0
}

/// The character at index `i` closes the list that holds the text.
pub open spec fn closes_list(t: Seq<char>, i: int) -> bool {
    0 <= i < t.len() && at_top(t, i) && t[i] == ']'
}

/// The character at index `i` parts two elements of the list.
pub open spec fn is_cut(t: Seq<char>, i: int) -> bool {
    0 <= i < t.len() && at_top(t, i) && t[i] == ','
}

/// The least index at or after `from` that closes the list.
pub open spec fn list_end(t: Seq<char>, from: int) -> Option<int>
    decreases t.len() - from,
{
    if from < 0 || from >= t.len() {
        None
    } else if closes_list(t, from) {
        Some(from)
    } else {
        list_end(t, from + 1)
    }
}

/// The first `k` characters of the text, cut at each comma at the top
/// level. There is always at least one piece.
pub open spec fn pieces(t: Seq<char>, k: int) -> Seq<Seq<char>>
    decreases k,
{
    if k <= 0 {
        seq![Seq::<char>::empty()]
    } else {
        let before = pieces(t, k - 1);
        if is_cut(t, k - 1) {
            before.push(Seq::<char>::empty())
        } else {
            before.drop_last().push(before.last().push(t[k - 1]))
        }
    }
}

/// The elements of the list whose text starts `t`, as they are written:
/// the text up to the bracket that closes the list, cut at the commas at the
/// top level, each piece trimmed. There is no list if no bracket closes it.
pub open spec fn elements(t: Seq<char>) -> Option<Seq<Seq<char>>> {
    match list_end(t, 0) {
        Some(end) => Some(pieces(t, end).map_values(|piece: Seq<char>| trim(piece))),
        None => None,
    }
}

/// The pieces in order, with a comma between neighbours.
pub open spec fn rejoined(parts: Seq<Seq<char>>) -> Seq<char>
    decreases parts.len(),
{
    if parts.len() == 0 {
        Seq::empty()
    } else if parts.len() == 1 {
        parts[0]
    } else {
        rejoined(parts.drop_last()).push(',') + parts.last()
    }
}

/// There is always at least one piece.
pub proof fn lemma_pieces_nonempty(t: Seq<char>, k: int)
    ensures
        pieces(t, k).len() >= 1,
    decreases k,
{
    if k > 0 {
        lemma_pieces_nonempty(t, k - 1);
    }
}

/// The bracket that `list_end` yields closes the list, and nothing before
/// it does.
pub proof fn lemma_list_end(t: Seq<char>, from: int)
    requires
        0 <= from,
    ensures
        match list_end(t, from) {
            Some(end) => from <= end && closes_list(t, end) && forall|j: int|
                from <= j < end ==> !closes_list(t, j),
            None => forall|j: int| from <= j ==> !closes_list(t, j),
        },
    decreases t.len() - from,
{
    if from < t.len() && !closes_list(t, from) {
        lemma_list_end(t, from + 1);
    }
}

/// The pieces put together again, with a comma between neighbours, are the
/// text: a cut takes away nothing but the comma it stands on.
pub proof fn lemma_pieces_cover_the_text(t: Seq<char>, k: int)
    requires
        0 <= k <= t.len(),
    ensures
        rejoined(pieces(t, k)) == t.take(k),
    decreases k,
{
    if k > 0 {
        lemma_pieces_nonempty(t, k - 1);
        lemma_pieces_cover_the_text(t, k - 1);
        let before = pieces(t, k - 1);
        assert(t.take(k) == t.take(k - 1).push(t[k - 1]));
        if is_cut(t, k - 1) {
            assert(before.push(Seq::<char>::empty()).drop_last() == before);
        } else {
            let longer = before.drop_last().push(before.last().push(t[k - 1]));
            assert(longer.drop_last() == before.drop_last());
            if before.len() == 1 {
                assert(rejoined(before) == before[0]);
            }
        }
    } else {
        assert(t.take(0) =~= Seq::<char>::empty());
    }
}

/// A text without a comma at the top level is a single piece, whatever
/// commas stand inside its brackets and literals.
pub proof fn lemma_uncut_text_is_one_piece(t: Seq<char>, k: int)
    requires
        0 <= k <= t.len(),
        forall|j: int| 0 <= j < k ==> !is_cut(t, j),
    ensures
        pieces(t, k) == seq![t.take(k)],
    decreases k,
{
    if k > 0 {
        lemma_uncut_text_is_one_piece(t, k - 1);
        assert(!is_cut(t, k - 1));
        assert(t.take(k - 1).push(t[k - 1]) == t.take(k));
        assert(seq![t.take(k - 1)].drop_last().push(t.take(k)) == seq![t.take(k)]);
    } else {
        assert(t.take(0) == Seq::<char>::empty());
    }
}

/// The first piece is the text before the first comma at the top level.
pub proof fn lemma_first_piece(t: Seq<char>, k: int, c: int)
    requires
        0 <= c < k <= t.len(),
        is_cut(t, c),
        forall|j: int| 0 <= j < c ==> !is_cut(t, j),
    ensures
        pieces(t, k).len() >= 2,
        pieces(t, k)[0] == t.take(c),
    decreases k,
{
    if k == c + 1 {
        lemma_uncut_text_is_one_piece(t, c);
    } else {
        lemma_first_piece(t, k - 1, c);
    }
}

fn count_hashes_before(chars: &Vec<char>, i: usize) -> (k: usize)
    requires
        i <= chars.len(),
    ensures
        k == hashes_before(chars@, i as int),
        k <= i,
{
    let mut k: usize = 0;
    while k < i && chars[i - k - 1] == '#'
        invariant
            k <= i <= chars.len(),
            hashes_before(chars@, i as int) == k + hashes_before(chars@, i - k),
        decreases i - k,
    {
        k += 1;
    }
    k
}

fn has_hashes_at(chars: &Vec<char>, j: usize, k: usize) -> (b: bool)
    requires
        j <= chars.len(),
    ensures
        b == hashes_at(chars@, j as int, k as nat),
{
    let mut m: usize = 0;
    while m < k
        invariant
            m <= k,
            j + m <= chars.len(),
            hashes_at(chars@, j as int, k as nat) == hashes_at(chars@, j + m, (k - m) as nat),
        decreases k - m,
    {
        if j + m >= chars.len() || chars[j + m] != '#' {
            return false;
        }
        m += 1;
    }
    true
}

fn opens_quote_at(chars: &Vec<char>, i: usize) -> (b: bool)
    requires
        i < chars.len(),
    ensures
        b == opens_quote(chars@, i as int),
{
    let n = chars.len();
    (n - i > 1 && chars[i + 1] == '\\') || (n - i > 2 && chars[i + 2] == '\'')
}

/// The state of a scan as the scanner holds it.
struct State {
    mode: Mode,
    depth: usize,
    hashes: usize,
}

impl State {
    spec fn as_scan(&self) -> Scan {
        Scan { mode: self.mode, depth: self.depth as nat, hashes: self.hashes as nat }
    }
}

fn next_state(chars: &Vec<char>, i: usize, s: State) -> (r: State)
    requires
        i < chars.len(),
        s.depth <= i,
        s.hashes <= i,
    ensures
        r.as_scan() == step(s.as_scan(), chars@, i as int),
        r.depth <= i + 1,
        r.hashes <= i + 1,
{
    let c = chars[i];
    match s.mode {
        Mode::Code => {
            if c == '"' {
                let k = count_hashes_before(chars, i);
                if i - k >= 1 && chars[i - k - 1] == 'r' {
                    State { mode: Mode::Raw, depth: s.depth, hashes: k }
                } else {
                    State { mode: Mode::Text, depth: s.depth, hashes: s.hashes }
                }
            } else if c == '\'' {
                if opens_quote_at(chars, i) {
                    State { mode: Mode::Quote, depth: s.depth, hashes: s.hashes }
                } else {
                    s
                }
            } else if c == '(' || c == '[' || c == '{' {
                State { mode: Mode::Code, depth: s.depth + 1, hashes: s.hashes }
            } else if (c == ')' || c == ']' || c == '}') && s.depth > 0 {
                State { mode: Mode::Code, depth: s.depth - 1, hashes: s.hashes }
            } else {
                s
            }
        },
        Mode::Text => {
            if c == '\\' {
                State { mode: Mode::TextEscape, depth: s.depth, hashes: s.hashes }
            } else if c == '"' {
                State { mode: Mode::Code, depth: s.depth, hashes: s.hashes }
            } else {
                s
            }
        },
        Mode::TextEscape => State { mode: Mode::Text, depth: s.depth, hashes: s.hashes },
        Mode::Raw => {
            if c == '"' && has_hashes_at(chars, i + 1, s.hashes) {
                State { mode: Mode::Code, depth: s.depth, hashes: s.hashes }
            } else {
                s
            }
        },
        Mode::Quote => {
            if c == '\\' {
                State { mode: Mode::QuoteEscape, depth: s.depth, hashes: s.hashes }
            } else if c == '\'' {
                State { mode: Mode::Code, depth: s.depth, hashes: s.hashes }
            } else {
                s
            }
        },
        Mode::QuoteEscape => State { mode: Mode::Quote, depth: s.depth, hashes: s.hashes },
    }
}

/// The elements of the list whose text starts `t`: what stands up to the
/// bracket that closes the list, cut at the commas at the top level, each
/// piece trimmed. `None` if no bracket closes the list.
pub fn list_elements(t: &str) -> (r: Option<Vec<String>>)
    ensures
        match r {
            Some(list) => elements(t@) == Some(texts(list@)) && list@.len() >= 1,
            None => elements(t@) is None,
        },
{
    let chars = chars_of(t);
    let mut list: Vec<String> = Vec::new();
    let mut state = State { mode: Mode::Code, depth: 0, hashes: 0 };
    let mut start: usize = 0;
    let mut i: usize = 0;
    assert(texts(list@) =~= pieces(chars@, 0).drop_last().map_values(
        |piece: Seq<char>| trim(piece),
    ));
    assert(chars@.subrange(0, 0) =~= Seq::<char>::empty());
    while i < chars.len()
        invariant
            chars@ == t@,
            start <= i <= chars.len(),
            state.as_scan() == scan(chars@, i as int),
            state.depth <= i,
            state.hashes <= i,
            list_end(chars@, 0) == list_end(chars@, i as int),
            pieces(chars@, i as int).len() == list.len() + 1,
            pieces(chars@, i as int).last() == chars@.subrange(start as int, i as int),
            texts(list@) == pieces(chars@, i as int).drop_last().map_values(
                |piece: Seq<char>| trim(piece),
            ),
        decreases chars.len() - i,
    {
        let ghost before = pieces(chars@, i as int);
        let ghost done = list@;
        let top = match state.mode {
            Mode::Code => state.depth == 0,
            _ => false,
        };
        assert(top == at_top(chars@, i as int));
        if top && chars[i] == ']' {
            let (a, b) = trim_bounds(&chars, start, i);
            list.push(String::from_str(t.substring_char(a, b)));
            assert forall|k: int| 0 <= k < list@.len() implies #[trigger] texts(list@)[k] == trim(
                before[k],
            ) by {
                if k < done.len() {
                    assert(texts(done)[k] == trim(before.drop_last()[k]));
                }
            }
            assert(texts(list@) =~= before.map_values(|piece: Seq<char>| trim(piece)));
            return Some(list);
        }
        if top && chars[i] == ',' {
            let (a, b) = trim_bounds(&chars, start, i);
            list.push(String::from_str(t.substring_char(a, b)));
            start = i + 1;
            assert(pieces(chars@, i as int + 1) == before.push(Seq::<char>::empty()));
            assert(before.push(Seq::<char>::empty()).drop_last() == before);
            assert forall|k: int| 0 <= k < list@.len() implies #[trigger] texts(list@)[k] == trim(
                before[k],
            ) by {
                if k < done.len() {
                    assert(texts(done)[k] == trim(before.drop_last()[k]));
                }
            }
            assert(texts(list@) =~= before.map_values(|piece: Seq<char>| trim(piece)));
            assert(chars@.subrange(i as int + 1, i as int + 1) =~= Seq::<char>::empty());
        } else {
            assert(chars@.subrange(start as int, i as int).push(chars@[i as int])
                == chars@.subrange(start as int, i as int + 1));
            assert(before.drop_last().push(before.last().push(chars@[i as int])).drop_last()
                == before.drop_last());
        }
        state = next_state(&chars, i, state);
        i += 1;
    }
    None
}

} // verus!
