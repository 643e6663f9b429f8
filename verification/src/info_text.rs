//! Text panels: bold spans, bullets, words to wrap.
use vstd::prelude::*;
use vstd::string::*;

use crate::text::{
    cat2, chars_of, is_space, owned, same_text, split, split_on, string_of, texts, whitespace,
};

verus! {

/// Do two asterisks stand at `i`?
pub open spec fn marker_at(s: Seq<char>, i: int) -> bool {
    0 <= i && i + 1 < s.len() && s[i] == '*' && s[i + 1] == '*'
}

/// Where the next two asterisks stand, from `i` on; the length of `s` if nowhere.
pub open spec fn next_marker(s: Seq<char>, i: int) -> int
    decreases s.len() - i,
{
    if i >= s.len() {
        s.len() as int
    } else if marker_at(s, i) {
        i
    } else {
        next_marker(s, i + 1)
    }
}

/// A piece of text, if it holds anything.
pub open spec fn piece(s: Seq<char>, bold: bool) -> Seq<(Seq<char>, bool)> {
    if s.len() == 0 {
        Seq::empty()
    } else {
        seq![(s, bold)]
    }
}

/// The spans of `s` from `i` on, with the plain text `buf` before them. A marker
/// with another behind it makes what lies between them bold; one alone is text.
pub open spec fn spans_from(s: Seq<char>, i: int, buf: Seq<char>) -> Seq<(Seq<char>, bool)>
    decreases s.len() - i,
{
    let j = next_marker(s, i + 2);
    if i >= s.len() {
        piece(buf, false)
    } else if marker_at(s, i) && i + 2 <= j && j + 2 <= s.len() {
        piece(buf, false) + piece(s.subrange(i + 2, j), true) + spans_from(s, j + 2, Seq::empty())
    } else {
        spans_from(s, i + 1, buf.push(s[i]))
    }
}

/// The spans of a line; one empty span if there are none.
pub open spec fn spans(s: Seq<char>) -> Seq<(Seq<char>, bool)> {
    let r = spans_from(s, 0, Seq::empty());
    if r.len() == 0 {
        seq![(Seq::<char>::empty(), false)]
    } else {
        r
    }
}

/// The characters of spans.
pub open spec fn span_texts(v: Seq<(String, bool)>) -> Seq<(Seq<char>, bool)> {
    v.map_values(|p: (String, bool)| (p.0@, p.1))
}

proof fn lemma_next_marker(s: Seq<char>, i: int)
    requires
        0 <= i,
    ensures
        i <= s.len() ==> i <= next_marker(s, i) <= s.len(),
        next_marker(s, i) < s.len() ==> marker_at(s, next_marker(s, i)),
    decreases s.len() - i,
{
    if i < s.len() && !marker_at(s, i) {
        lemma_next_marker(s, i + 1);
    }
}

/// Where the next two asterisks stand, from `from` on.
fn find_marker(v: &Vec<char>, from: usize) -> (j: usize)
    requires
        from <= v.len(),
    ensures
        j == next_marker(v@, from as int),
        from <= j <= v.len(),
{
    let mut j: usize = from;
    while j < v.len()
        invariant
            from <= j <= v.len(),
            next_marker(v@, from as int) == next_marker(v@, j as int),
        decreases v.len() - j,
    {
        if v[j] == '*' && v.len() - j > 1 && v[j + 1] == '*' {
            return j;
        }
        j = j + 1;
    }
    j
}

/// Put a piece of text behind the spans, if it holds anything.
fn push_piece(out: &mut Vec<(String, bool)>, text: String, bold: bool)
    ensures
        span_texts(final(out)@) == span_texts(old(out)@) + piece(text@, bold),
{
    let ghost before = out@;
    if !text.as_str().is_empty() {
        out.push((text, bold));
        proof {
            assert(span_texts(out@) =~= span_texts(before) + seq![(text@, bold)]);
        }
    } else {
        proof {
            assert(span_texts(out@) =~= span_texts(before) + Seq::empty());
        }
    }
}

/// A line as spans of text, each bold or not: what stands between two pairs of
/// asterisks is bold. A pair without another is text as it stands. A line without
/// text gives one empty span.
pub fn parse_info_text_spans(line: &str) -> (r: Vec<(String, bool)>)
    ensures
        span_texts(r@) == spans(line@),
{
    let v = chars_of(line);
    let mut out: Vec<(String, bool)> = Vec::new();
    let mut buf = String::new();
    let mut i: usize = 0;
    let ghost whole = spans_from(line@, 0, Seq::empty());
    proof {
        assert(span_texts(out@) + whole =~= whole);
    }
    while i < v.len()
        invariant
            v@ == line@,
            i <= v.len(),
            whole == spans_from(line@, 0, Seq::empty()),
            span_texts(out@) + spans_from(line@, i as int, buf@) == whole,
        decreases v.len() - i,
    {
        let marked = v[i] == '*' && v.len() - i > 1 && v[i + 1] == '*';
        if marked {
            let j: usize = find_marker(&v, i + 2);
            proof {
                lemma_next_marker(v@, i + 2);
            }
            if j < v.len() {
                let ghost was = span_texts(out@);
                let ghost plain = buf@;
                push_piece(&mut out, buf, false);
                let inner = string_of(&v, i + 2, j);
                push_piece(&mut out, inner, true);
                buf = String::new();
                proof {
                    let rest = spans_from(line@, j + 2, Seq::empty());
                    assert(buf@ =~= Seq::<char>::empty());
                    assert(span_texts(out@) + rest =~= was + (piece(plain, false) + piece(
                        line@.subrange(i + 2, j as int),
                        true,
                    ) + rest));
                }
                i = j + 2;
                continue ;
            }
        }
        buf.push(v[i]);
        i = i + 1;
    }
    push_piece(&mut out, buf, false);
    if out.len() == 0 {
        proof {
            assert(whole.len() == span_texts(out@).len());
        }
        out.push((String::new(), false));
        proof {
            assert(span_texts(out@) =~= seq![(Seq::<char>::empty(), false)]);
        }
    } else {
        proof {
            assert(whole.len() == span_texts(out@).len());
        }
    }
    out
}

/// A line without a pair of asterisks is one plain span.
pub proof fn plain_lines_are_one_span(s: Seq<char>)
    requires
        forall|i: int| !marker_at(s, i),
    ensures
        spans(s) == seq![(s, false)],
{
    lemma_plain(s, 0, Seq::empty());
    assert(Seq::<char>::empty() + s.skip(0) =~= s);
    if s.len() == 0 {
        assert(s =~= Seq::<char>::empty());
    }
}

proof fn lemma_plain(s: Seq<char>, i: int, buf: Seq<char>)
    requires
        0 <= i <= s.len(),
        forall|k: int| !marker_at(s, k),
    ensures
        spans_from(s, i, buf) == piece(buf + s.skip(i), false),
    decreases s.len() - i,
{
    if i < s.len() {
        lemma_plain(s, i + 1, buf.push(s[i]));
        assert(buf.push(s[i]) + s.skip(i + 1) =~= buf + s.skip(i));
    } else {
        assert(buf + s.skip(i) =~= buf);
    }
}

// ---------------------------------------------------------------- lines

/// Is a line a bullet?
pub open spec fn is_bullet(s: Seq<char>) -> bool {
    s == "-"@ || (s.len() >= 2 && s[0] == '-' && s[1] == ' ')
}

/// What a line says behind its bullet, if it has one.
pub open spec fn behind_bullet(s: Seq<char>) -> Seq<char> {
    if s == "-"@ {
        Seq::empty()
    } else if is_bullet(s) {
        s.skip(2)
    } else {
        s
    }
}

/// The pieces of a line: its spans, with a bullet before the first of them where
/// the line is one.
pub open spec fn line_pieces(s: Seq<char>) -> Seq<(Seq<char>, bool)> {
    let p = spans(behind_bullet(s));
    if is_bullet(s) {
        p.update(0, ("• "@ + p[0].0, p[0].1))
    } else {
        p
    }
}

/// The pieces of a line: its spans, with a bullet before the first of them where
/// the line is one.
pub fn info_line(line: &str) -> (r: Vec<(String, bool)>)
    ensures
        span_texts(r@) == line_pieces(line@),
{
    let v = chars_of(line);
    proof {
        reveal_strlit("-");
    }
    let alone = same_text(line, "-");
    let bullet = alone || (v.len() >= 2 && v[0] == '-' && v[1] == ' ');
    let mut r = if alone {
        let none = String::new();
        proof {
            assert(none@ =~= Seq::<char>::empty());
        }
        parse_info_text_spans(none.as_str())
    } else if bullet {
        let rest = line.substring_char(2, v.len());
        proof {
            assert(rest@ =~= line@.skip(2));
        }
        parse_info_text_spans(rest)
    } else {
        parse_info_text_spans(line)
    };
    if bullet {
        let ghost p = span_texts(r@);
        proof {
            assert(p.len() == r.len());
            lemma_spans_nonempty(behind_bullet(line@));
        }
        let head = cat2("• ", r[0].0.as_str());
        let bold = r[0].1;
        r[0] = (head, bold);
        proof {
            assert(span_texts(r@) =~= p.update(0, ("• "@ + p[0].0, p[0].1)));
        }
    }
    r
}

proof fn lemma_spans_nonempty(s: Seq<char>)
    ensures
        spans(s).len() > 0,
{
}

/// The lines of a text panel, each as pieces to print.
pub fn info_lines(text: &str) -> (r: Vec<Vec<(String, bool)>>)
    ensures
        r.len() == split(text@, '\n').len(),
        forall|i: int|
            0 <= i < r.len() ==> span_texts((#[trigger] r@[i])@) == line_pieces(split(text@, '\n')[i]),
{
    let lines = split_on(text, '\n');
    let ghost all = split(text@, '\n');
    let mut out: Vec<Vec<(String, bool)>> = Vec::new();
    let mut i: usize = 0;
    proof {
        assert(texts(lines@).len() == lines.len());
    }
    while i < lines.len()
        invariant
            i <= lines.len() == all.len(),
            texts(lines@) == all,
            out.len() == i,
            forall|k: int| 0 <= k < i ==> span_texts((#[trigger] out@[k])@) == line_pieces(all[k]),
        decreases lines.len() - i,
    {
        proof {
            assert(all[i as int] == lines@[i as int]@);
        }
        let l = info_line(lines[i].as_str());
        out.push(l);
        i = i + 1;
    }
    out
}

// ---------------------------------------------------------------- words

/// How many leading characters of `s` are alike in being white space or not.
pub open spec fn run_len(s: Seq<char>) -> int
    decreases s.len(),
{
    if s.len() == 0 {
        0
    } else if s.len() == 1 || is_space(s[1]) != is_space(s[0]) {
        1
    } else {
        1 + run_len(s.drop_first())
    }
}

/// The runs of white space and of other characters that `s` is made of.
pub open spec fn runs(s: Seq<char>) -> Seq<Seq<char>>
    decreases s.len(),
{
    let n = run_len(s);
    if 0 < n <= s.len() {
        seq![s.take(n)] + runs(s.skip(n))
    } else {
        Seq::empty()
    }
}

proof fn lemma_run_len(s: Seq<char>)
    requires
        s.len() > 0,
    ensures
        1 <= run_len(s) <= s.len(),
        forall|k: int| 0 <= k < run_len(s) ==> is_space(#[trigger] s[k]) == is_space(s[0]),
        run_len(s) < s.len() ==> is_space(s[run_len(s)]) != is_space(s[0]),
    decreases s.len(),
{
    if s.len() == 1 || is_space(s[1]) != is_space(s[0]) {
    } else {
        let t = s.drop_first();
        lemma_run_len(t);
        assert forall|k: int| 0 <= k < run_len(s) implies is_space(#[trigger] s[k]) == is_space(s[0]) by {
            if k > 0 {
                assert(s[k] == t[k - 1]);
            }
        }
    }
}

proof fn lemma_run_len_is(s: Seq<char>, n: int)
    requires
        1 <= n <= s.len(),
        forall|k: int| 0 <= k < n ==> is_space(#[trigger] s[k]) == is_space(s[0]),
        n < s.len() ==> is_space(s[n]) != is_space(s[0]),
    ensures
        run_len(s) == n,
{
    lemma_run_len(s);
    if run_len(s) < n {
        assert(is_space(s[run_len(s)]) == is_space(s[0]));
    }
}

/// The runs of white space and of other characters that `s` is made of.
pub fn split_keeping_spaces(s: &str) -> (r: Vec<String>)
    ensures
        texts(r@) == runs(s@),
{
    let v = chars_of(s);
    let mut out: Vec<String> = Vec::new();
    let mut from: usize = 0;
    proof {
        assert(v@.skip(0) =~= s@);
        assert(texts(out@) + runs(s@) =~= runs(s@));
    }
    while from < v.len()
        invariant
            v@ == s@,
            from <= v.len(),
            texts(out@) + runs(v@.skip(from as int)) == runs(s@),
        decreases v.len() - from,
    {
        let kind = whitespace(v[from]);
        let mut to: usize = from + 1;
        while to < v.len() && whitespace(v[to]) == kind
            invariant
                from < to <= v.len(),
                kind == is_space(v@[from as int]),
                forall|k: int| from <= k < to ==> is_space(#[trigger] v@[k]) == kind,
            decreases v.len() - to,
        {
            to = to + 1;
        }
        let ghost rest = v@.skip(from as int);
        let ghost before = out@;
        let word = string_of(&v, from, to);
        proof {
            assert forall|k: int| 0 <= k < to - from implies is_space(#[trigger] rest[k]) == is_space(
                rest[0],
            ) by {
                assert(rest[k] == v@[from + k]);
            }
            lemma_run_len_is(rest, to - from);
            assert(word@ =~= rest.take(to - from));
            assert(rest.skip(to - from) =~= v@.skip(to as int));
        }
        out.push(word);
        proof {
            assert(texts(out@) =~= texts(before).push(word@));
            assert(texts(out@) + runs(v@.skip(to as int)) =~= texts(before) + (seq![word@] + runs(
                v@.skip(to as int),
            )));
        }
        from = to;
    }
    proof {
        assert(runs(v@.skip(from as int)) =~= Seq::empty());
        assert(texts(out@) =~= runs(s@));
    }
    out
}

/// All parts one behind the other.
pub open spec fn flat(parts: Seq<Seq<char>>) -> Seq<char>
    decreases parts.len(),
{
    if parts.len() == 0 {
        Seq::empty()
    } else {
        parts[0] + flat(parts.drop_first())
    }
}

/// The words one behind the other are the text again; none is empty, none mixes
/// white space with other characters, and no two neighbours are of one kind.
pub proof fn words_lose_nothing(s: Seq<char>)
    ensures
        flat(runs(s)) == s,
        forall|i: int| 0 <= i < runs(s).len() ==> (#[trigger] runs(s)[i]).len() > 0,
        forall|i: int, k: int|
            0 <= i < runs(s).len() && 0 <= k < runs(s)[i].len() ==> is_space(
                #[trigger] runs(s)[i][k],
            ) == is_space(runs(s)[i][0]),
        forall|i: int|
            0 <= i && i + 1 < runs(s).len() ==> is_space((#[trigger] runs(s)[i])[0]) != is_space(
                runs(s)[i + 1][0],
            ),
    decreases s.len(),
{
    if s.len() > 0 {
        lemma_run_len(s);
        let n = run_len(s);
        let t = s.skip(n);
        let head = s.take(n);
        words_lose_nothing(t);
        let r = runs(s);
        assert(r =~= seq![head] + runs(t));
        assert(r.drop_first() =~= runs(t));
        assert(flat(r) =~= s);
        assert forall|i: int| 0 <= i < r.len() implies (#[trigger] r[i]).len() > 0 by {
            if i > 0 {
                assert(r[i] == runs(t)[i - 1]);
            }
        }
        assert forall|i: int, k: int| 0 <= i < r.len() && 0 <= k < r[i].len() implies is_space(
            #[trigger] r[i][k],
        ) == is_space(r[i][0]) by {
            if i > 0 {
                assert(r[i] == runs(t)[i - 1]);
            } else {
                assert(head[k] == s[k]);
            }
        }
        assert forall|i: int| 0 <= i && i + 1 < r.len() implies is_space((#[trigger] r[i])[0])
            != is_space(r[i + 1][0]) by {
            if i > 0 {
                assert(r[i] == runs(t)[i - 1]);
                assert(r[i + 1] == runs(t)[i]);
            } else {
                assert(r[1] == runs(t)[0]);
                assert(t.len() > 0);
                lemma_run_len(t);
                assert(runs(t)[0] =~= t.take(run_len(t)));
                assert(runs(t)[0][0] == t[0]);
                assert(t[0] == s[n]);
            }
        }
    } else {
        assert(flat(runs(s)) =~= s);
    }
}

/// Where the next word goes, in units of the screen.
#[derive(Clone, Copy, Debug, PartialEq, Eq, Structural)]
pub struct Pen {
    pub x: i64,
    pub y: i64,
}

/// The area that words are set into, and the height of a line and of the gap below
/// it.
#[derive(Clone, Copy, Debug, PartialEq, Eq, Structural)]
pub struct TextArea {
    pub left: i64,
    pub width: i64,
    pub bottom: i64,
    pub line_height: u64,
    pub line_gap: u64,
}

/// Does a word go to the next line? It does if it would reach beyond the right edge and
/// is not the first on its line.
pub open spec fn wraps(pen: Pen, width: i64, area: TextArea) -> bool {
    pen.x + width > area.left + area.width && pen.x > area.left
}

/// How far down a word is set: on the line or on the next one.
pub open spec fn word_top(pen: Pen, width: i64, area: TextArea) -> int {
    if wraps(pen, width, area) {
        pen.y + area.line_height + area.line_gap
    } else {
        pen.y as int
    }
}

/// Is `r` where a word of this width stands: behind the pen, or at the start of the next
/// line where it does not fit, and nowhere where that is under the bottom?
pub open spec fn word_placed(pen: Pen, width: i64, area: TextArea, r: Option<Pen>) -> bool {
    match r {
        Some(p) => {
            &&& p.x == if wraps(pen, width, area) {
                area.left
            } else {
                pen.x
            }
            &&& p.y == word_top(pen, width, area)
            &&& p.y + area.line_height <= area.bottom
        },
        None => word_top(pen, width, area) + area.line_height > area.bottom,
    }
}

/// Set a word of the given width: where it is painted, or nothing if it would reach
/// below the area. A word on the next line starts at the left.
pub fn place_word(pen: Pen, width: i64, area: TextArea) -> (r: Option<Pen>)
    ensures
        word_placed(pen, width, area, r),
{
    let line: i128 = area.line_height as i128;
    let over = pen.x as i128 + width as i128 > area.left as i128 + area.width as i128 && pen.x
        > area.left;
    let top: i128 = if over {
        pen.y as i128 + line + area.line_gap as i128
    } else {
        pen.y as i128
    };
    if top + line > area.bottom as i128 {
        None
    } else if over {
        Some(Pen { x: area.left, y: top as i64 })
    } else {
        Some(pen)
    }
}

// ---------------------------------------------------------------- shortened text

/// `s` cut to `max` characters, the last of them an ellipsis, where it is longer
/// and there is room for more than three.
pub open spec fn shortened(s: Seq<char>, max: int) -> Seq<char> {
    if s.len() > max && max > 3 {
        s.take(max - 1).push('…')
    } else {
        s
    }
}

/// `s` cut to `max` characters, the last of them an ellipsis, where it is longer
/// and there is room for more than three.
pub fn shorten(s: &str, max: usize) -> (r: String)
    ensures
        r@ == shortened(s@, max as int),
{
    if s.unicode_len() > max && max > 3 {
        let mut out = owned(s.substring_char(0, max - 1));
        out.push('…');
        proof {
            assert(out@ =~= s@.take(max - 1).push('…'));
        }
        out
    } else {
        owned(s)
    }
}

/// How many bytes the UTF-8 encoding of a character takes, by its first byte. A
/// byte that starts no character counts as one.
pub fn utf8_char_len(first_byte: u8) -> (r: usize)
    ensures
        r == if first_byte < 0xC0 {
            1
        } else if first_byte < 0xE0 {
            2
        } else if first_byte < 0xF0 {
            3
        } else {
            4int
        },
{
    if first_byte < 0xC0 {
        1
    } else if first_byte < 0xE0 {
        2
    } else if first_byte < 0xF0 {
        3
    } else {
        4
    }
}

} // verus!
