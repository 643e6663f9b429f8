//! Labels and texts: what the label of a panel says, how a format is read, and how a text
//! is broken into words and marked in bold.
use vstd::prelude::*;

use crate::info_text::{
    line_pieces, marker_at, next_marker, piece, spans, spans_from, word_placed, Pen, TextArea,
};
use crate::label::{
    dressed, label_of, overlay_at, plan_of, precision_digits, skip_all, width_digits, FormatPlan,
    LabelOverride, LabelText, MetaPart, NumberFormat,
};
use crate::store::{extremes_bound_the_series, TraceStore};
use crate::template::{Cell, LabelMode};
use crate::text::{dec, first_of_unique, printing_can_be_read_back, unsigned_number, NumberError};

verus! {

// ---------------------------------------------------------------- labels

/// The panel's own mode counts unless another is forced, which then counts whatever the
/// panel says.
pub proof fn forced_modes_win(r: Option<LabelText>, cell: Cell, s: TraceStore, m: LabelMode)
    ensures
        ({
            let forced = LabelOverride::Force(m);
            &&& m == LabelMode::Off && label_of(r, cell, s, forced) ==> r is None
            &&& m == LabelMode::Data && label_of(r, cell, s, forced) ==> !(r is Some
                && r->0 is Metadata)
            &&& m == LabelMode::Metadata && label_of(r, cell, s, forced) ==> !(r is Some
                && r->0 is Data)
            &&& cell.label_mode == m ==> (label_of(r, cell, s, LabelOverride::Respect) <==> label_of(
                r,
                cell,
                s,
                forced,
            ))
        }),
{
}

/// A label of data holds the latest number of the panel's first channel, of its fallback
/// where that has none, and is missing exactly where neither has one.
pub proof fn data_labels_hold_the_latest_number(
    r: Option<LabelText>,
    cell: Cell,
    s: TraceStore,
)
    requires
        label_of(r, cell, s, LabelOverride::Force(LabelMode::Data)),
    ensures
        cell.sources.len() == 0 ==> r is None,
        cell.sources.len() > 0 ==> {
            let src = cell.sources@[0];
            let own = s.series(src.key@);
            let other = match src.fallback {
                Some(f) => s.series(f@),
                None => Seq::empty(),
            };
            &&& r is None <==> own.len() == 0 && other.len() == 0
            &&& r is Some ==> r->0 is Data
            &&& own.len() > 0 ==> (r->0)->value == own[own.len() - 1].value
            &&& own.len() == 0 && other.len() > 0 ==> (r->0)->value == other[other.len() - 1].value
        },
{
}

/// Where the panel asks for it the label gives the smallest and the largest number of the
/// same channel, in this order; otherwise neither.
pub proof fn ranges_bound_the_channel(r: Option<LabelText>, cell: Cell, s: TraceStore)
    requires
        label_of(r, cell, s, LabelOverride::Force(LabelMode::Data)),
        cell.sources.len() > 0,
        s.series(cell.sources@[0].key@).len() > 0,
    ensures
        ({
            let p = s.series(cell.sources@[0].key@);
            let asked = cell.label_data is Some && cell.label_data->0.show_min_max;
            let range = (r->0)->range;
            let (lo, hi) = range->0;
            &&& range is Some <==> asked
            &&& asked ==> forall|i: int|
                0 <= i < p.len() ==> !(#[trigger] p[i]).value.below(lo) && !hi.below(p[i].value)
            &&& asked ==> exists|i: int| 0 <= i < p.len() && (#[trigger] p[i]).value == lo
            &&& asked ==> exists|i: int| 0 <= i < p.len() && (#[trigger] p[i]).value == hi
        }),
{
    extremes_bound_the_series(s.series(cell.sources@[0].key@));
}

/// A label of metadata says where the channel comes from, in which unit and how often, in
/// this order, leaving out what is not known; without metadata it names the channel.
pub proof fn metadata_labels_name_path_unit_and_rate(
    r: Option<LabelText>,
    cell: Cell,
    s: TraceStore,
)
    requires
        label_of(r, cell, s, LabelOverride::Force(LabelMode::Metadata)),
    ensures
        r is Some ==> r->0 is Metadata,
        cell.label_metadata is None && cell.sources.len() > 0 ==> {
            let parts = (r->0)->parts@;
            r is Some && parts.len() == 1 && parts[0] is Text && parts[0]->Text_0@
                == cell.sources@[0].key@
        },
        cell.label_metadata is None && cell.sources.len() == 0 ==> r is None,
        cell.label_metadata is Some ==> {
            let md = cell.label_metadata->0;
            let parts = (r->0)->parts@;
            let path = md.source_path@.len() > 0;
            let unit = md.units@.len() > 0;
            let rate = md.stream_rate_hz is Some;
            &&& r is Some <==> path || unit || rate
            &&& path ==> parts[0] is Text && parts[0]->Text_0@ == md.source_path@
            &&& path && unit ==> parts[1] is Text && parts[1]->Text_0@ == md.units@
            &&& !path && unit ==> parts[0] is Text && parts[0]->Text_0@ == md.units@
            &&& rate ==> parts[parts.len() - 1] == MetaPart::Rate(md.stream_rate_hz->0)
            &&& r is Some && !rate ==> parts[parts.len() - 1] is Text
        },
{
}

/// The label of a panel stands six pixels to the right of its corner and six below.
pub proof fn labels_stand_inside_the_corner(left: int, top: int, px: int)
    ensures
        overlay_at(left, top, px).0 - left == 6 * px,
        overlay_at(left, top, px).1 - top == 6 * px,
{
}

// ---------------------------------------------------------------- formats

/// A format that was written with a width, a precision and a letter is read as written,
/// with what stands around it. `e` is for powers of ten and a plus for a sign.
pub proof fn formats_are_read_as_written(
    plan: FormatPlan,
    front: Seq<char>,
    back: Seq<char>,
    width: nat,
    precision: nat,
    plus: bool,
    letter: char,
)
    requires
        plan_of(plan, front + written(plus, width, precision, letter) + back),
        forall|i: int| 0 <= i < front.len() ==> front[i] != '{',
        letter == 'f' || letter == 'e' || letter == 'g',
        width <= usize::MAX,
        precision <= usize::MAX,
    ensures
        plan is Number,
        ({
            let f = plan->Number_0;
            &&& f.prefix@ == front
            &&& f.suffix@ == back
            &&& f.width == width
            &&& f.precision == precision
            &&& f.plus == plus
            &&& f.scientific == (letter == 'e')
        }),
{
    let inner = inside(plus, width, precision, letter);
    let s = front + written(plus, width, precision, letter) + back;
    let rest = s.skip(front.len() as int + 1);
    lemma_body(width, precision, letter);
    lemma_inside(plus, width, precision, letter);
    assert(s[front.len() as int] == '{');
    first_of_unique(s, '{', '{', front.len() as int);
    assert(s.take(front.len() as int) =~= front);
    assert(rest =~= inner + seq!['}'] + back);
    assert forall|i: int| 0 <= i < inner.len() implies rest[i] != '}' by {
        assert(rest[i] == inner[i]);
    }
    assert(rest[inner.len() as int] == '}');
    first_of_unique(rest, '}', '}', inner.len() as int);
    assert(rest.take(inner.len() as int) =~= inner);
    assert(rest.skip(inner.len() as int + 1) =~= back);
    printing_can_be_read_back(width);
    printing_can_be_read_back(precision);
    let max = usize::MAX as nat;
    assert(unsigned_number(dec(width), max) == Ok::<nat, NumberError>(width));
    assert(unsigned_number(dec(precision), max) == Ok::<nat, NumberError>(precision));
}

/// A format behind its colon and its sign.
spec fn bare(width: nat, precision: nat, letter: char) -> Seq<char> {
    dec(width) + seq!['.'] + dec(precision) + seq![letter]
}

proof fn lemma_body(width: nat, precision: nat, letter: char)
    requires
        letter == 'f' || letter == 'e' || letter == 'g',
    ensures
        ({
            let body = bare(width, precision, letter);
            &&& body.len() > 0
            &&& forall|i: int|
                0 <= i < body.len() ==> body[i] != '}' && body[i] != ':' && body[i] != '+'
            &&& body.last() == letter
            &&& width_digits(body) == dec(width)
            &&& precision_digits(body) == dec(precision)
        }),
{
    let body = bare(width, precision, letter);
    let n = dec(width).len() as int;
    printing_can_be_read_back(width);
    printing_can_be_read_back(precision);
    assert forall|i: int| 0 <= i < body.len() implies body[i] != '}' && body[i] != ':' && body[i]
        != '+' by {
        if i < n {
            assert(body[i] == dec(width)[i]);
        } else if n < i < n + 1 + dec(precision).len() {
            assert(body[i] == dec(precision)[i - n - 1]);
        }
    }
    assert forall|i: int| 0 <= i < n implies body[i] != '.' by {
        assert(body[i] == dec(width)[i]);
    }
    assert(body[n] == '.');
    first_of_unique(body, '.', '.', n);
    assert(body.take(n) =~= dec(width));
    assert(body.skip(n + 1) =~= dec(precision) + seq![letter]);
    assert(body.skip(n + 1).drop_last() =~= dec(precision));
}

proof fn lemma_inside(plus: bool, width: nat, precision: nat, letter: char)
    requires
        letter == 'f' || letter == 'e' || letter == 'g',
    ensures
        ({
            let inner = inside(plus, width, precision, letter);
            let body = bare(width, precision, letter);
            let signed = skip_all(inner, ':');
            &&& forall|i: int| 0 <= i < inner.len() ==> inner[i] != '}'
            &&& signed.len() > 0
            &&& (signed[0] == '+') == plus
            &&& skip_all(signed, '+') == body
        }),
{
    let inner = inside(plus, width, precision, letter);
    let body = bare(width, precision, letter);
    lemma_body(width, precision, letter);
    let signed = if plus {
        seq!['+'] + body
    } else {
        body
    };
    assert(inner =~= seq![':'] + signed);
    assert forall|i: int| 0 <= i < inner.len() implies inner[i] != '}' by {
        if i > 0 {
            assert(inner[i] == signed[i - 1]);
        }
    }
    assert(inner.drop_first() =~= signed);
    assert(signed[0] != ':');
    reveal_with_fuel(skip_all, 2);
    assert(skip_all(inner, ':') == signed);
    if plus {
        assert(signed.drop_first() =~= body);
    }
    assert(body[0] != '+');
}

/// What stands between the braces of a format.
pub open spec fn inside(plus: bool, width: nat, precision: nat, letter: char) -> Seq<char> {
    let sign = if plus {
        seq!['+']
    } else {
        Seq::empty()
    };
    seq![':'] + sign + dec(width) + seq!['.'] + dec(precision) + seq![letter]
}

/// A format as it is written, with its braces.
pub open spec fn written(plus: bool, width: nat, precision: nat, letter: char) -> Seq<char> {
    seq!['{'] + inside(plus, width, precision, letter) + seq!['}']
}

/// A format without a width has none, and one without a precision has two digits.
pub proof fn formats_without_numbers_have_two_digits(
    plan: FormatPlan,
    front: Seq<char>,
    back: Seq<char>,
)
    requires
        plan_of(plan, front + seq!['{', '}'] + back),
        forall|i: int| 0 <= i < front.len() ==> front[i] != '{',
    ensures
        plan is Number,
        plan->Number_0.prefix@ == front,
        plan->Number_0.suffix@ == back,
        plan->Number_0.width == 0,
        plan->Number_0.precision == 2,
        !plan->Number_0.plus,
        !plan->Number_0.scientific,
{
    let s = front + seq!['{', '}'] + back;
    assert(s[front.len() as int] == '{');
    first_of_unique(s, '{', '{', front.len() as int);
    assert(s.take(front.len() as int) =~= front);
    let rest = s.skip(front.len() as int + 1);
    assert(rest =~= seq!['}'] + back);
    first_of_unique(rest, '}', '}', 0);
    assert(rest.take(0) =~= Seq::<char>::empty());
    assert(rest.skip(1) =~= back);
    let none = Seq::<char>::empty();
    assert(skip_all(none, ':') == none);
    assert(skip_all(none, '+') == none);
    first_of_unique(none, '.', '.', 0);
}

/// A text without a brace stands for itself, and no text for the default.
pub proof fn texts_without_braces_are_literal(plan: FormatPlan, s: Seq<char>)
    requires
        plan_of(plan, s),
        forall|i: int| 0 <= i < s.len() ==> s[i] != '{',
    ensures
        s.len() == 0 ==> plan is Default,
        s.len() > 0 ==> plan is Literal && plan->Literal_0@ == s,
{
    first_of_unique(s, '{', '{', s.len() as int);
}

/// A number stands at the right of its width with blanks before it, between what the
/// format puts in front and behind.
pub proof fn numbers_stand_at_the_right(f: NumberFormat, number: Seq<char>)
    ensures
        ({
            let r = dressed(f, number);
            let a = f.prefix@.len() as int;
            let b = r.len() - f.suffix@.len();
            &&& r.take(a) == f.prefix@
            &&& r.skip(b) == f.suffix@
            &&& r.subrange(b - number.len(), b) == number
            &&& b - a >= f.width && b - a >= number.len()
            &&& b - a == f.width || b - a == number.len()
            &&& forall|i: int| a <= i < b - number.len() ==> #[trigger] r[i] == ' '
        }),
{
    let r = dressed(f, number);
    let a = f.prefix@.len() as int;
    let b = r.len() - f.suffix@.len();
    assert(r.take(a) =~= f.prefix@);
    assert(r.skip(b) =~= f.suffix@);
    assert(r.subrange(b - number.len(), b) =~= number);
}

// ---------------------------------------------------------------- bold

/// What stands between two pairs of asterisks is bold, and what stands before and behind
/// is not; the asterisks are gone.
pub proof fn pairs_of_asterisks_make_bold(a: Seq<char>, b: Seq<char>, c: Seq<char>)
    requires
        a.len() > 0,
        b.len() > 0,
        c.len() > 0,
        forall|i: int| 0 <= i < a.len() ==> a[i] != '*',
        forall|i: int| 0 <= i < b.len() ==> b[i] != '*',
        forall|i: int| 0 <= i < c.len() ==> c[i] != '*',
    ensures
        spans(a + seq!['*', '*'] + b + seq!['*', '*'] + c) == seq![(a, false), (b, true), (c, false)],
{
    let m = seq!['*', '*'];
    let s = a + m + b + m + c;
    let j = (a.len() + 2 + b.len()) as int;
    lemma_plain_until(s, 0, a.len() as int, Seq::empty());
    assert(s.subrange(0, a.len() as int) =~= a);
    assert(Seq::<char>::empty() + a =~= a);
    assert(marker_at(s, a.len() as int));
    lemma_marker(s, a.len() as int + 2, j);
    assert(s.subrange(a.len() as int + 2, j) =~= b);
    lemma_plain_until(s, j + 2, s.len() as int, Seq::empty());
    assert(s.subrange(j + 2, s.len() as int) =~= c);
    assert(Seq::<char>::empty() + c =~= c);
    assert(spans_from(s, a.len() as int, a) == piece(a, false) + piece(b, true) + spans_from(
        s,
        j + 2,
        Seq::empty(),
    ));
    assert(spans(s) =~= seq![(a, false), (b, true), (c, false)]);
}

/// Asterisks without a second pair stay as they are.
pub proof fn single_pairs_of_asterisks_stay(a: Seq<char>, b: Seq<char>)
    requires
        forall|i: int| 0 <= i < a.len() ==> a[i] != '*',
        forall|i: int| 0 <= i < b.len() ==> b[i] != '*',
    ensures
        spans(a + seq!['*', '*'] + b) == seq![(a + seq!['*', '*'] + b, false)],
{
    let s = a + seq!['*', '*'] + b;
    let n = a.len() as int;
    lemma_plain_until(s, 0, n, Seq::empty());
    assert(s.subrange(0, n) =~= a);
    assert(Seq::<char>::empty() + a =~= a);
    lemma_no_marker(s, n + 2);
    let t = a.push(s[n]);
    lemma_plain_until(s, n + 1, s.len() as int, t);
    assert(t + s.subrange(n + 1, s.len() as int) =~= s);
    assert(spans(s) =~= seq![(s, false)]);
}

proof fn lemma_plain_until(s: Seq<char>, i: int, j: int, buf: Seq<char>)
    requires
        0 <= i <= j <= s.len(),
        forall|k: int| i <= k < j ==> !marker_at(s, k),
    ensures
        spans_from(s, i, buf) == spans_from(s, j, buf + s.subrange(i, j)),
    decreases j - i,
{
    if i < j {
        lemma_plain_until(s, i + 1, j, buf.push(s[i]));
        assert(buf.push(s[i]) + s.subrange(i + 1, j) =~= buf + s.subrange(i, j));
        assert(!marker_at(s, i));
    } else {
        assert(buf + s.subrange(i, j) =~= buf);
    }
}

proof fn lemma_marker(s: Seq<char>, i: int, j: int)
    requires
        0 <= i <= j,
        marker_at(s, j),
        forall|k: int| i <= k < j ==> !marker_at(s, k),
    ensures
        next_marker(s, i) == j,
    decreases j - i,
{
    if i < j {
        assert(!marker_at(s, i));
        lemma_marker(s, i + 1, j);
    }
}

proof fn lemma_no_marker(s: Seq<char>, i: int)
    requires
        0 <= i <= s.len(),
        forall|k: int| i <= k < s.len() ==> !marker_at(s, k),
    ensures
        next_marker(s, i) == s.len(),
    decreases s.len() - i,
{
    if i < s.len() {
        assert(!marker_at(s, i));
        lemma_no_marker(s, i + 1);
    }
}

/// A line that begins with a dash and a blank is an item: a bullet takes their place, and
/// the rest is as it would be without. Any other line is as it is.
pub proof fn dashes_become_bullets(rest: Seq<char>)
    ensures
        ({
            let p = line_pieces(seq!['-', ' '] + rest);
            let q = spans(rest);
            &&& p.len() == q.len()
            &&& p[0].0 == seq!['•', ' '] + q[0].0
            &&& p[0].1 == q[0].1
            &&& forall|i: int| 1 <= i < p.len() ==> #[trigger] p[i] == q[i]
        }),
        rest.len() > 0 && rest[0] != '-' ==> line_pieces(rest) == spans(rest),
        rest.len() > 1 && rest[0] == '-' && rest[1] != ' ' ==> line_pieces(rest) == spans(rest),
{
    reveal_strlit("-");
    reveal_strlit("• ");
    let s = seq!['-', ' '] + rest;
    assert("-"@.len() == 1);
    assert("• "@ =~= seq!['•', ' ']);
    assert(s.skip(2) =~= rest);
    assert(spans(rest).len() > 0);
    assert("-"@[0] == '-');
}

// ---------------------------------------------------------------- words

/// A word that fits stands behind the pen; one that does not stands at the left of the next
/// line, one line and one gap further down; a word at the left of a line stays there however
/// wide it is. No word reaches under the bottom.
pub proof fn words_stand_behind_the_pen_or_on_the_next_line(
    pen: Pen,
    width: i64,
    area: TextArea,
    r: Option<Pen>,
)
    requires
        word_placed(pen, width, area, r),
        pen.x >= area.left,
    ensures
        ({
            let stays = pen.x + width <= area.left + area.width || pen.x == area.left;
            let down = pen.y + area.line_height + area.line_gap;
            &&& stays && pen.y + area.line_height <= area.bottom ==> r == Some(pen)
            &&& stays && pen.y + area.line_height > area.bottom ==> r is None
            &&& !stays && down + area.line_height <= area.bottom ==> r is Some && r->0.x == area.left
                && r->0.y == down
            &&& !stays && down + area.line_height > area.bottom ==> r is None
        }),
{
}

} // verus!
