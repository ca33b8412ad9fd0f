//! Greedy word wrapping of a text to a column width.

use vstd::prelude::*;
use crate::app::{push_char, MessageType};
use vstd::string::{StrSliceExecFns, StringExecFns};

verus! {

/// Characters with the Unicode White_Space property.
pub open spec fn is_white_space(c: char) -> bool {
    let u = c as u32;
    (0x9 <= u && u <= 0xD) || u == 0x20 || u == 0x85 || u == 0xA0 || u == 0x1680
        || (0x2000 <= u && u <= 0x200A) || u == 0x2028 || u == 0x2029 || u == 0x202F
        || u == 0x205F || u == 0x3000
}

/// Number of bytes of a character in UTF-8.
pub open spec fn utf8_len(c: char) -> nat {
    let u = c as u32;
    if u < 0x80 { 1 } else if u < 0x800 { 2 } else if u < 0x10000 { 3 } else { 4 }
}

/// Number of bytes of a text in UTF-8.
pub open spec fn byte_len(s: Seq<char>) -> nat
    decreases s.len(),
{
    if s.len() == 0 { 0 } else { byte_len(s.drop_last()) + utf8_len(s.last()) }
}

/// Progress of the wrapper through a text: the finished lines, the line being
/// filled, and the word being read.
pub struct WrapState {
    pub lines: Seq<Seq<char>>,
    pub cur: Seq<char>,
    pub word: Seq<char>,
}

/// Places the word just read: after one space on the current line when the
/// line, the space and the word fit in `width` bytes; else at the start of a
/// new line.
pub open spec fn place_word(st: WrapState, width: int) -> WrapState {
    if st.word.len() == 0 {
        st
    } else if st.cur.len() == 0 {
        WrapState { lines: st.lines, cur: st.word, word: Seq::empty() }
    } else if byte_len(st.cur) + 1 + byte_len(st.word) > width {
        WrapState { lines: st.lines.push(st.cur), cur: st.word, word: Seq::empty() }
    } else {
        WrapState { lines: st.lines, cur: st.cur.push(' ') + st.word, word: Seq::empty() }
    }
}

/// One character read: a newline ends the line, other white space ends a word,
/// anything else extends the word.
pub open spec fn wrap_step(st: WrapState, c: char, width: int) -> WrapState {
    if c == '\n' {
        let p = place_word(st, width);
        WrapState { lines: p.lines.push(p.cur), cur: Seq::empty(), word: Seq::empty() }
    } else if is_white_space(c) {
        place_word(st, width)
    } else {
        WrapState { word: st.word.push(c), ..st }
    }
}

pub open spec fn wrap_scan(s: Seq<char>, width: int) -> WrapState
    decreases s.len(),
{
    if s.len() == 0 {
        WrapState { lines: Seq::empty(), cur: Seq::empty(), word: Seq::empty() }
    } else {
        wrap_step(wrap_scan(s.drop_last(), width), s.last(), width)
    }
}

/// The width actually used: never below ten columns.
pub open spec fn effective_width(max_width: usize) -> int {
    if max_width < 10 { 10 } else { max_width as int }
}

/// The lines of `s` wrapped to `max_width`: each newline-separated part is
/// split into words at white space, and the words are packed greedily, one
/// space apart, into lines of at most the width in bytes (a longer word stands
/// alone on its line). Every part gives at least one line, possibly empty.
pub open spec fn wrapped(s: Seq<char>, max_width: usize) -> Seq<Seq<char>> {
    let w = effective_width(max_width);
    let p = place_word(wrap_scan(s, w), w);
    p.lines.push(p.cur)
}

pub open spec fn lines_view(v: Seq<String>) -> Seq<Seq<char>> {
    Seq::new(v.len(), |i: int| v[i]@)
}

/// Relies on char::is_whitespace: true exactly for the White_Space characters.
#[verifier::external_body]
fn white_space(c: char) -> (r: bool)
    ensures
        r == is_white_space(c),
{
    c.is_whitespace()
}

fn char_bytes(c: char) -> (r: u128)
    ensures
        r == utf8_len(c),
{
    let u = c as u32;
    if u < 0x80 {
        1
    } else if u < 0x800 {
        2
    } else if u < 0x10000 {
        3
    } else {
        4
    }
}

proof fn lemma_byte_len_push(s: Seq<char>, c: char)
    ensures
        byte_len(s.push(c)) == byte_len(s) + utf8_len(c),
{
    assert(s.push(c).drop_last() =~= s);
}

proof fn lemma_byte_len_concat(a: Seq<char>, b: Seq<char>)
    ensures
        byte_len(a + b) == byte_len(a) + byte_len(b),
    decreases b.len(),
{
    if b.len() == 0 {
        assert(a + b =~= a);
    } else {
        lemma_byte_len_concat(a, b.drop_last());
        assert((a + b).drop_last() =~= a + b.drop_last());
    }
}

/// `l` holds no space character.
pub open spec fn no_space(l: Seq<char>) -> bool {
    forall|i: int| 0 <= i < l.len() ==> l[i] != ' '
}

/// `l` fits in `width` bytes, or is a single word.
pub open spec fn fits(l: Seq<char>, width: int) -> bool {
    byte_len(l) <= width || no_space(l)
}

pub open spec fn state_fits(st: WrapState, width: int) -> bool {
    &&& forall|i: int| 0 <= i < st.lines.len() ==> fits(#[trigger] st.lines[i], width)
    &&& fits(st.cur, width)
    &&& no_space(st.word)
}

proof fn lemma_place_fits(st: WrapState, width: int)
    requires
        state_fits(st, width),
    ensures
        state_fits(place_word(st, width), width),
{
    let p = place_word(st, width);
    if st.word.len() > 0 && st.cur.len() > 0 && byte_len(st.cur) + 1 + byte_len(st.word) <= width {
        lemma_byte_len_push(st.cur, ' ');
        lemma_byte_len_concat(st.cur.push(' '), st.word);
    }
    assert forall|i: int| 0 <= i < p.lines.len() implies fits(#[trigger] p.lines[i], width) by {
        if i < st.lines.len() {
            assert(p.lines[i] == st.lines[i]);
        }
    }
}

proof fn lemma_scan_fits(s: Seq<char>, width: int)
    ensures
        state_fits(wrap_scan(s, width), width),
    decreases s.len(),
{
    if s.len() > 0 {
        lemma_scan_fits(s.drop_last(), width);
        let st = wrap_scan(s.drop_last(), width);
        let c = s.last();
        if c == '\n' {
            lemma_place_fits(st, width);
            let p = place_word(st, width);
            let n = wrap_step(st, c, width);
            assert forall|i: int| 0 <= i < n.lines.len() implies fits(#[trigger] n.lines[i], width) by {
                if i < p.lines.len() {
                    assert(n.lines[i] == p.lines[i]);
                }
            }
        } else if is_white_space(c) {
            lemma_place_fits(st, width);
        } else {
            assert(is_white_space(' '));
            let w = st.word.push(c);
            assert forall|i: int| 0 <= i < w.len() implies w[i] != ' ' by {
                if i < st.word.len() {
                    assert(w[i] == st.word[i]);
                }
            }
        }
    }
}

/// No wrapped line is wider than the width in bytes (at least ten), unless it
/// is a single word.
pub proof fn lemma_wrapped_fits(s: Seq<char>, max_width: usize)
    ensures
        forall|i: int| 0 <= i < wrapped(s, max_width).len()
            ==> fits(#[trigger] wrapped(s, max_width)[i], effective_width(max_width)),
{
    let w = effective_width(max_width);
    lemma_scan_fits(s, w);
    lemma_place_fits(wrap_scan(s, w), w);
    let p = place_word(wrap_scan(s, w), w);
    let r = wrapped(s, max_width);
    assert forall|i: int| 0 <= i < r.len() implies fits(#[trigger] r[i], w) by {
        if i < p.lines.len() {
            assert(r[i] == p.lines[i]);
        }
    }
}

pub open spec fn empty_state() -> WrapState {
    WrapState { lines: Seq::empty(), cur: Seq::empty(), word: Seq::empty() }
}

/// The state after reading `s` from state `st`.
pub open spec fn scan_from(st: WrapState, s: Seq<char>, width: int) -> WrapState
    decreases s.len(),
{
    if s.len() == 0 { st } else { wrap_step(scan_from(st, s.drop_last(), width), s.last(), width) }
}

/// `st` with `pre` in front of its finished lines.
pub open spec fn with_lines_before(st: WrapState, pre: Seq<Seq<char>>) -> WrapState {
    WrapState { lines: pre + st.lines, ..st }
}

proof fn lemma_scan_concat(a: Seq<char>, b: Seq<char>, width: int)
    ensures
        wrap_scan(a + b, width) == scan_from(wrap_scan(a, width), b, width),
    decreases b.len(),
{
    if b.len() == 0 {
        assert(a + b =~= a);
    } else {
        lemma_scan_concat(a, b.drop_last(), width);
        assert((a + b).drop_last() =~= a + b.drop_last());
        assert((a + b).last() == b.last());
    }
}

proof fn lemma_step_shift(st: WrapState, c: char, pre: Seq<Seq<char>>, width: int)
    ensures
        wrap_step(with_lines_before(st, pre), c, width) == with_lines_before(wrap_step(st, c, width), pre),
{
    let p = place_word(st, width);
    assert(place_word(with_lines_before(st, pre), width) == with_lines_before(p, pre)) by {
        assert((pre + st.lines).push(st.cur) =~= pre + st.lines.push(st.cur));
    }
    assert((pre + p.lines).push(p.cur) =~= pre + p.lines.push(p.cur));
}

proof fn lemma_scan_shift(st: WrapState, s: Seq<char>, pre: Seq<Seq<char>>, width: int)
    ensures
        scan_from(with_lines_before(st, pre), s, width) == with_lines_before(scan_from(st, s, width), pre),
    decreases s.len(),
{
    if s.len() > 0 {
        lemma_scan_shift(st, s.drop_last(), pre, width);
        lemma_step_shift(scan_from(st, s.drop_last(), width), s.last(), pre, width);
    }
}

/// A newline ends a block: the text before it and the text after it are
/// wrapped each on its own, and their lines follow one another.
pub proof fn lemma_wrapped_newline(a: Seq<char>, b: Seq<char>, max_width: usize)
    ensures
        wrapped(a + seq!['\n'] + b, max_width) == wrapped(a, max_width) + wrapped(b, max_width),
{
    let w = effective_width(max_width);
    let nl = seq!['\n'];
    lemma_scan_concat(a + nl, b, w);
    lemma_scan_concat(a, nl, w);
    assert(nl.drop_last() =~= Seq::<char>::empty());
    assert(nl.last() == '\n');
    assert(scan_from(wrap_scan(a, w), nl.drop_last(), w) == wrap_scan(a, w));
    let after = wrap_scan(a + nl, w);
    assert(after.cur =~= Seq::<char>::empty());
    assert(after.word =~= Seq::<char>::empty());
    assert(after.lines == wrapped(a, max_width));
    assert(after == with_lines_before(empty_state(), wrapped(a, max_width))) by {
        assert(wrapped(a, max_width) + Seq::<Seq<char>>::empty() =~= wrapped(a, max_width));
    }
    lemma_scan_shift(empty_state(), b, wrapped(a, max_width), w);
    lemma_scan_concat(Seq::empty(), b, w);
    assert(Seq::<char>::empty() + b =~= b);
    assert(wrap_scan(Seq::<char>::empty(), w) == empty_state());
    let sb = wrap_scan(b, w);
    let p = place_word(sb, w);
    assert(place_word(with_lines_before(sb, wrapped(a, max_width)), w) == with_lines_before(p, wrapped(a, max_width))) by {
        assert((wrapped(a, max_width) + sb.lines).push(sb.cur) =~= wrapped(a, max_width) + sb.lines.push(sb.cur));
    }
    assert((wrapped(a, max_width) + p.lines).push(p.cur) =~= wrapped(a, max_width) + p.lines.push(p.cur));
}

/// The characters of `s` that are not white space, in order.
pub open spec fn visible(s: Seq<char>) -> Seq<char>
    decreases s.len(),
{
    if s.len() == 0 {
        Seq::empty()
    } else if is_white_space(s.last()) {
        visible(s.drop_last())
    } else {
        visible(s.drop_last()).push(s.last())
    }
}

/// The characters of the lines that are not white space, in order.
pub open spec fn visible_lines(ls: Seq<Seq<char>>) -> Seq<char>
    decreases ls.len(),
{
    if ls.len() == 0 { Seq::empty() } else { visible_lines(ls.drop_last()) + visible(ls.last()) }
}

pub open spec fn no_white_space(s: Seq<char>) -> bool {
    forall|i: int| 0 <= i < s.len() ==> !is_white_space(#[trigger] s[i])
}

/// What the wrapper has read so far is accounted for: nothing visible is lost
/// or reordered.
pub open spec fn state_keeps(st: WrapState, read: Seq<char>) -> bool {
    &&& visible_lines(st.lines) + visible(st.cur) + st.word == visible(read)
    &&& no_white_space(st.word)
}

proof fn lemma_visible_concat(a: Seq<char>, b: Seq<char>)
    ensures
        visible(a + b) == visible(a) + visible(b),
    decreases b.len(),
{
    if b.len() == 0 {
        assert(a + b =~= a);
        assert(visible(a) + visible(b) =~= visible(a));
    } else {
        lemma_visible_concat(a, b.drop_last());
        assert((a + b).drop_last() =~= a + b.drop_last());
        assert((a + b).last() == b.last());
        assert((visible(a) + visible(b.drop_last())).push(b.last()) =~= visible(a) + visible(b.drop_last()).push(b.last()));
    }
}

proof fn lemma_visible_word(w: Seq<char>)
    requires
        no_white_space(w),
    ensures
        visible(w) == w,
    decreases w.len(),
{
    if w.len() > 0 {
        assert(no_white_space(w.drop_last())) by {
            assert forall|i: int| 0 <= i < w.drop_last().len() implies !is_white_space(#[trigger] w.drop_last()[i]) by {
                assert(w.drop_last()[i] == w[i]);
            }
        }
        lemma_visible_word(w.drop_last());
        assert(!is_white_space(w[w.len() - 1]));
        assert(w.drop_last().push(w.last()) =~= w);
    }
}

proof fn lemma_visible_lines_push(ls: Seq<Seq<char>>, l: Seq<char>)
    ensures
        visible_lines(ls.push(l)) == visible_lines(ls) + visible(l),
{
    assert(ls.push(l).drop_last() =~= ls);
}

proof fn lemma_place_keeps(st: WrapState, read: Seq<char>, width: int)
    requires
        state_keeps(st, read),
    ensures
        state_keeps(place_word(st, width), read),
        place_word(st, width).word.len() == 0,
{
    let p = place_word(st, width);
    let vl = visible_lines(st.lines);
    if st.word.len() > 0 {
        lemma_visible_word(st.word);
        if st.cur.len() == 0 {
            assert(visible(st.cur) =~= Seq::<char>::empty());
            assert(vl + visible(st.cur) + st.word =~= vl + visible(p.cur) + p.word);
        } else if byte_len(st.cur) + 1 + byte_len(st.word) > width {
            lemma_visible_lines_push(st.lines, st.cur);
            assert(vl + visible(st.cur) + st.word =~= visible_lines(p.lines) + visible(p.cur) + p.word);
        } else {
            lemma_visible_concat(st.cur.push(' '), st.word);
            assert(is_white_space(' '));
            assert(st.cur.push(' ').drop_last() =~= st.cur);
            assert(vl + visible(st.cur) + st.word =~= vl + visible(p.cur) + p.word);
        }
    }
}

proof fn lemma_scan_keeps(s: Seq<char>, width: int)
    ensures
        state_keeps(wrap_scan(s, width), s),
    decreases s.len(),
{
    if s.len() == 0 {
        assert(visible_lines(Seq::empty()) + visible(Seq::empty()) + Seq::<char>::empty() =~= visible(s));
    } else {
        let prev = s.drop_last();
        lemma_scan_keeps(prev, width);
        let st = wrap_scan(prev, width);
        let c = s.last();
        let n = wrap_step(st, c, width);
        if c == '\n' || is_white_space(c) {
            assert(is_white_space('\n'));
            lemma_place_keeps(st, prev, width);
            let p = place_word(st, width);
            if c == '\n' {
                lemma_visible_lines_push(p.lines, p.cur);
                assert(visible(n.cur) =~= Seq::<char>::empty());
                assert(visible_lines(p.lines) + visible(p.cur) + p.word =~= visible_lines(n.lines) + visible(n.cur) + n.word);
            }
        } else {
            assert(no_white_space(n.word)) by {
                assert forall|i: int| 0 <= i < n.word.len() implies !is_white_space(#[trigger] n.word[i]) by {
                    if i < st.word.len() {
                        assert(n.word[i] == st.word[i]);
                    }
                }
            }
            assert((visible_lines(st.lines) + visible(st.cur) + st.word).push(c)
                =~= visible_lines(n.lines) + visible(n.cur) + n.word);
        }
    }
}

/// Wrapping keeps every word, in order: the characters of the lines that are
/// not white space are those of the text, in the same order.
pub proof fn lemma_wrapped_keeps_words(s: Seq<char>, max_width: usize)
    ensures
        visible_lines(wrapped(s, max_width)) == visible(s),
{
    let w = effective_width(max_width);
    lemma_scan_keeps(s, w);
    lemma_place_keeps(wrap_scan(s, w), s, w);
    let p = place_word(wrap_scan(s, w), w);
    lemma_visible_lines_push(p.lines, p.cur);
    assert(p.word =~= Seq::<char>::empty());
    assert(visible_lines(p.lines) + visible(p.cur) + p.word =~= visible_lines(p.lines) + visible(p.cur));
}

proof fn lemma_lines_view_push(v: Seq<String>, s: String)
    ensures
        lines_view(v.push(s)) == lines_view(v).push(s@),
{
    assert(lines_view(v.push(s)) =~= lines_view(v).push(s@));
}

/// Moves the word just read onto the lines, as `place_word` says.
fn place(
    lines: &mut Vec<String>,
    cur: &mut String,
    cur_bytes: &mut u128,
    word: &mut String,
    word_bytes: &mut u128,
    width: usize,
)
    requires
        *old(cur_bytes) == byte_len(old(cur)@),
        *old(word_bytes) == byte_len(old(word)@),
        *old(cur_bytes) + *old(word_bytes) + 1 < u128::MAX,
    ensures
        (WrapState { lines: lines_view(final(lines)@), cur: final(cur)@, word: final(word)@ })
            == place_word(
            WrapState { lines: lines_view(old(lines)@), cur: old(cur)@, word: old(word)@ },
            width as int,
        ),
        *final(cur_bytes) == byte_len(final(cur)@),
        *final(word_bytes) == byte_len(final(word)@),
        *final(cur_bytes) <= *old(cur_bytes) + *old(word_bytes) + 1,
{
    if word.as_str().is_empty() {
        return;
    }
    if cur.as_str().is_empty() || *cur_bytes + 1 + *word_bytes > width as u128 {
        if !cur.as_str().is_empty() {
            let mut done = String::new();
            std::mem::swap(&mut done, cur);
            proof {
                lemma_lines_view_push(lines@, done);
            }
            lines.push(done);
        }
        let mut w = String::new();
        std::mem::swap(&mut w, word);
        *cur = w;
        *cur_bytes = *word_bytes;
    } else {
        let ghost before = cur@;
        push_char(cur, ' ');
        cur.append(word.as_str());
        proof {
            lemma_byte_len_push(before, ' ');
            lemma_byte_len_concat(before.push(' '), word@);
        }
        *cur_bytes = *cur_bytes + 1 + *word_bytes;
    }
    *word = String::new();
    *word_bytes = 0;
}

/// Wraps `line` to `max_width` columns (at least ten), word by word.
pub fn wrap_single_line(line: &str, max_width: usize) -> (r: Vec<String>)
    ensures
        lines_view(r@) == wrapped(line@, max_width),
{
    let width: usize = if max_width < 10 { 10 } else { max_width };
    let n = line.unicode_len();
    let mut lines: Vec<String> = Vec::new();
    let mut cur = String::new();
    let mut cur_bytes: u128 = 0;
    let mut word = String::new();
    let mut word_bytes: u128 = 0;
    let mut i: usize = 0;
    assert(lines_view(lines@) =~= Seq::<Seq<char>>::empty());
    assert(line@.take(0) =~= Seq::<char>::empty());
    while i < n
        invariant
            n == line@.len(),
            i <= n,
            width as int == effective_width(max_width),
            wrap_scan(line@.take(i as int), width as int)
                == (WrapState { lines: lines_view(lines@), cur: cur@, word: word@ }),
            cur_bytes == byte_len(cur@),
            word_bytes == byte_len(word@),
            cur_bytes + word_bytes <= 4 * i,
        decreases n - i,
    {
        let c = line.get_char(i);
        assert(line@.take(i + 1).drop_last() =~= line@.take(i as int));
        assert(line@.take(i + 1).last() == c);
        let ghost prev = WrapState { lines: lines_view(lines@), cur: cur@, word: word@ };
        if c == '\n' {
            place(&mut lines, &mut cur, &mut cur_bytes, &mut word, &mut word_bytes, width);
            let mut done = String::new();
            std::mem::swap(&mut done, &mut cur);
            proof {
                lemma_lines_view_push(lines@, done);
            }
            lines.push(done);
            cur_bytes = 0;
            assert(lines_view(lines@) == wrap_step(prev, c, width as int).lines);
            assert(cur@ =~= Seq::<char>::empty());
            assert(word@ =~= Seq::<char>::empty());
        } else if white_space(c) {
            place(&mut lines, &mut cur, &mut cur_bytes, &mut word, &mut word_bytes, width);
        } else {
            let ghost before = word@;
            push_char(&mut word, c);
            proof {
                lemma_byte_len_push(before, c);
            }
            word_bytes = word_bytes + char_bytes(c);
        }
        i = i + 1;
    }
    assert(line@.take(n as int) =~= line@);
    place(&mut lines, &mut cur, &mut cur_bytes, &mut word, &mut word_bytes, width);
    proof {
        lemma_lines_view_push(lines@, cur);
    }
    lines.push(cur);
    lines
}

/// How a line of the message list is shown.
#[derive(Clone, Copy, Debug, PartialEq, Eq, Structural)]
pub enum LineStyle {
    /// A line of the user's own message, aligned right.
    Own,
    /// A line of another sender's message, prefixed by the sender's name.
    Other,
    /// A line of a system message.
    System,
}

/// One laid-out line of the message list.
#[derive(Clone, Debug, PartialEq, Eq)]
pub struct StyledLine {
    pub text: String,
    pub style: LineStyle,
}

pub open spec fn spaces(n: nat) -> Seq<char> {
    Seq::new(n, |i: int| ' ')
}

/// The laid-out lines of one message.
pub open spec fn message_lines(m: MessageType, max_width: usize, user: Option<Seq<char>>) -> Seq<(Seq<char>, LineStyle)> {
    match m {
        MessageType::ChatMessage { sender, content } => {
            let ws = wrapped(content@, max_width);
            if user == Some(sender@) {
                Seq::new(ws.len(), |i: int| {
                    let pad = if byte_len(ws[i]) < max_width { (max_width - byte_len(ws[i])) as nat } else { 0 };
                    (spaces(pad) + ws[i], LineStyle::Own)
                })
            } else {
                Seq::new(ws.len(), |i: int| (sender@ + seq![':', ' '] + ws[i], LineStyle::Other))
            }
        },
        MessageType::SystemMessage(text) => {
            let ws = wrapped(text@, max_width);
            Seq::new(ws.len(), |i: int| (ws[i], LineStyle::System))
        },
    }
}

/// The laid-out lines of a sequence of messages, in order.
pub open spec fn all_message_lines(ms: Seq<MessageType>, max_width: usize, user: Option<Seq<char>>) -> Seq<(Seq<char>, LineStyle)>
    decreases ms.len(),
{
    if ms.len() == 0 {
        Seq::empty()
    } else {
        all_message_lines(ms.drop_last(), max_width, user) + message_lines(ms.last(), max_width, user)
    }
}

pub open spec fn styled_view(v: Seq<StyledLine>) -> Seq<(Seq<char>, LineStyle)> {
    Seq::new(v.len(), |i: int| (v[i].text@, v[i].style))
}

/// Number of bytes of `s` in UTF-8.
fn text_bytes(s: &str) -> (r: u128)
    ensures
        r == byte_len(s@),
{
    let n = s.unicode_len();
    let mut total: u128 = 0;
    let mut i: usize = 0;
    assert(s@.take(0) =~= Seq::<char>::empty());
    while i < n
        invariant
            n == s@.len(),
            i <= n,
            total == byte_len(s@.take(i as int)),
            total <= 4 * i,
        decreases n - i,
    {
        let c = s.get_char(i);
        assert(s@.take(i + 1).drop_last() =~= s@.take(i as int));
        total = total + char_bytes(c);
        i = i + 1;
    }
    assert(s@.take(n as int) =~= s@);
    total
}

/// Lays out the messages as lines of at most `max_width` columns: the user's
/// own messages padded to the right edge, those of others after their
/// sender's name, system messages as they are.
pub fn wrap_text(messages: &Vec<MessageType>, max_width: usize, current_username: Option<&String>) -> (r: Vec<StyledLine>)
    ensures
        styled_view(r@) == all_message_lines(messages@, max_width, name_of(current_username)),
{
    let ghost user = name_of(current_username);
    let mut out: Vec<StyledLine> = Vec::new();
    let mut k: usize = 0;
    assert(styled_view(out@) =~= all_message_lines(messages@.take(0), max_width, user));
    while k < messages.len()
        invariant
            k <= messages@.len(),
            user == name_of(current_username),
            styled_view(out@) == all_message_lines(messages@.take(k as int), max_width, user),
        decreases messages@.len() - k,
    {
        let m = &messages[k];
        let ghost start = styled_view(out@);
        let ghost base = out@.len();
        let ghost expect = message_lines(*m, max_width, user);
        let (text, own, prefix): (&String, bool, Option<&String>) = match m {
            MessageType::ChatMessage { sender, content } => {
                let own = match current_username {
                    Some(name) => *sender == *name,
                    None => false,
                };
                (content, own, Some(sender))
            },
            MessageType::SystemMessage(text) => (text, false, None),
        };
        assert(match *m {
            MessageType::ChatMessage { sender, content } => text@ == content@
                && own == (user == Some(sender@))
                && (match prefix { Some(p) => p@ == sender@, None => false }),
            MessageType::SystemMessage(t) => text@ == t@ && !own && prefix is None,
        });
        let ws = wrap_single_line(text.as_str(), max_width);
        let mut j: usize = 0;
        while j < ws.len()
            invariant
                j <= ws@.len(),
                lines_view(ws@) == wrapped(text@, max_width),
                expect == message_lines(*m, max_width, user),
                expect.len() == ws@.len(),
                match *m {
                    MessageType::ChatMessage { sender, content } => text@ == content@
                        && own == (user == Some(sender@))
                        && (match prefix { Some(p) => p@ == sender@, None => false }),
                    MessageType::SystemMessage(t) => text@ == t@ && !own && prefix is None,
                },
                out@.len() == base + j,
                styled_view(out@) == start + expect.take(j as int),
            decreases ws@.len() - j,
        {
            let line = &ws[j];
            assert(line@ == lines_view(ws@)[j as int]);
            let item = if own {
                let bytes = text_bytes(line.as_str());
                let mut padded = String::new();
                let pad: u128 = if bytes < max_width as u128 { max_width as u128 - bytes } else { 0 };
                let mut p: u128 = 0;
                while p < pad
                    invariant
                        p <= pad,
                        padded@ == spaces(p as nat),
                    decreases pad - p,
                {
                    push_char(&mut padded, ' ');
                    assert(padded@ =~= spaces((p + 1) as nat));
                    p = p + 1;
                }
                padded.append(line.as_str());
                StyledLine { text: padded, style: LineStyle::Own }
            } else {
                match prefix {
                    Some(sender) => {
                        let t = sender.clone().concat(": ").concat(line.as_str());
                        proof {
                            reveal_strlit(": ");
                        }
                        StyledLine { text: t, style: LineStyle::Other }
                    },
                    None => StyledLine { text: line.clone(), style: LineStyle::System },
                }
            };
            assert(item.text@ =~= expect[j as int].0);
            assert(item.style == expect[j as int].1);
            let ghost before = out@;
            out.push(item);
            assert(styled_view(out@) =~= styled_view(before).push(expect[j as int]));
            assert(expect.take(j + 1) =~= expect.take(j as int).push(expect[j as int]));
            assert(styled_view(out@) =~= start + expect.take(j + 1));
            j = j + 1;
        }
        assert(expect.take(j as int) =~= expect);
        assert(messages@.take(k + 1).drop_last() =~= messages@.take(k as int));
        k = k + 1;
    }
    assert(messages@.take(k as int) =~= messages@);
    out
}

pub open spec fn name_of(n: Option<&String>) -> Option<Seq<char>> {
    match n {
        Some(s) => Some(s@),
        None => None,
    }
}

} // verus!
