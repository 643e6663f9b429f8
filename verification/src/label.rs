//! Overlays of panels: which mode counts, how a number is to be printed, and what
//! the overlay says.
use vstd::prelude::*;
use vstd::string::*;

use crate::num::Num;
use crate::status::number_of;
use crate::store::{highest, lowest, TraceStore};
use crate::template::{Cell, LabelMode};
use crate::text::{
    cat2, chars_of, find_from, first_of, owned, parse_unsigned, string_of, unsigned_number,
};

verus! {

/// The label mode of all panels, where it is not each panel's own.
#[derive(Clone, Copy, Debug, PartialEq, Eq, Structural)]
pub enum LabelOverride {
    /// Each panel goes by its own mode.
    Respect,
    /// All panels go by this one.
    Force(LabelMode),
}

impl Default for LabelOverride {
    fn default() -> (r: LabelOverride)
        ensures
            r == LabelOverride::Respect,
    {
        LabelOverride::Respect
    }
}

impl LabelOverride {
    /// The mode that counts for a panel.
    pub open spec fn effective(self, cell_mode: LabelMode) -> LabelMode {
        match self {
            LabelOverride::Respect => cell_mode,
            LabelOverride::Force(m) => m,
        }
    }

    /// The mode that counts for a panel.
    pub fn resolve(self, cell_mode: LabelMode) -> (r: LabelMode)
        ensures
            r == self.effective(cell_mode),
    {
        match self {
            LabelOverride::Respect => cell_mode,
            LabelOverride::Force(m) => m,
        }
    }
}

// ---------------------------------------------------------------- formats

/// How a number is printed, with the text around it.
#[derive(Clone, Debug)]
pub struct NumberFormat {
    pub prefix: String,
    /// A plus sign before numbers that are not negative.
    pub plus: bool,
    /// How many characters the number takes at least.
    pub width: usize,
    /// Digits behind the point.
    pub precision: usize,
    /// With an exponent.
    pub scientific: bool,
    pub suffix: String,
}

/// What a format says.
#[derive(Clone, Debug)]
pub enum FormatPlan {
    /// Nothing: two digits behind the point.
    Default,
    /// A text without a number.
    Literal(String),
    /// A number and what stands around it.
    Number(NumberFormat),
}

/// `s` without the `c`s at its front.
pub open spec fn skip_all(s: Seq<char>, c: char) -> Seq<char>
    decreases s.len(),
{
    if s.len() > 0 && s[0] == c {
        skip_all(s.drop_first(), c)
    } else {
        s
    }
}

/// Is `c` a letter that says how a number is printed?
pub open spec fn is_type(c: char) -> bool {
    c == 'f' || c == 'e' || c == 'g'
}

/// The digits of the precision in `body`: what stands behind its point, without the
/// type letter.
pub open spec fn precision_digits(body: Seq<char>) -> Seq<char> {
    let dot = first_of(body, '.', '.');
    if dot >= body.len() {
        Seq::empty()
    } else {
        let p = body.skip(dot + 1);
        if p.len() > 0 && is_type(p.last()) {
            p.drop_last()
        } else {
            p
        }
    }
}

/// The digits of the width in `body`: what stands before its point or, without one,
/// before the type letter.
pub open spec fn width_digits(body: Seq<char>) -> Seq<char> {
    let dot = first_of(body, '.', '.');
    if dot < body.len() {
        body.take(dot)
    } else if body.len() > 0 && is_type(body.last()) {
        body.drop_last()
    } else {
        body
    }
}

/// Is `f` what the text between the braces says? It is: colons, plus signs, the
/// width, a point and the precision, a type letter.
pub open spec fn number_format(
    f: NumberFormat,
    prefix: Seq<char>,
    inner: Seq<char>,
    suffix: Seq<char>,
) -> bool {
    let signed = skip_all(inner, ':');
    let body = skip_all(signed, '+');
    &&& f.prefix@ == prefix
    &&& f.suffix@ == suffix
    &&& f.plus == (signed.len() > 0 && signed[0] == '+')
    &&& f.scientific == (body.len() > 0 && body.last() == 'e')
    &&& f.width == match unsigned_number(width_digits(body), usize::MAX as nat) {
        Ok(n) => n,
        Err(_) => 0,
    }
    &&& f.precision == match unsigned_number(precision_digits(body), usize::MAX as nat) {
        Ok(n) => n,
        Err(_) => 2,
    }
}

/// Is `p` what the format `s` says? A number is printed where braces stand; what
/// stands before and behind them is printed as it is. Without both braces all of
/// it is text.
pub open spec fn plan_of(p: FormatPlan, s: Seq<char>) -> bool {
    let i = first_of(s, '{', '{');
    let rest = s.skip(i + 1);
    let j = first_of(rest, '}', '}');
    if s.len() == 0 {
        p is Default
    } else if i >= s.len() {
        p is Literal && p->Literal_0@ == s
    } else if j >= rest.len() {
        p is Literal && p->Literal_0@ == s.take(i) + rest
    } else {
        p is Number && number_format(p->Number_0, s.take(i), rest.take(j), rest.skip(j + 1))
    }
}

/// From where on `v[from..to]` does not start with `c`.
fn past_all(v: &Vec<char>, from: usize, to: usize, c: char) -> (r: usize)
    requires
        from <= to <= v.len(),
    ensures
        from <= r <= to,
        v@.subrange(r as int, to as int) == skip_all(v@.subrange(from as int, to as int), c),
        (r > from) == (from < to && v@[from as int] == c),
{
    let mut r: usize = from;
    while r < to && v[r] == c
        invariant
            from <= r <= to <= v.len(),
            skip_all(v@.subrange(from as int, to as int), c) == skip_all(
                v@.subrange(r as int, to as int),
                c,
            ),
            (r > from) ==> (from < to && v@[from as int] == c),
        decreases to - r,
    {
        proof {
            assert(v@.subrange(r as int, to as int).drop_first() =~= v@.subrange(
                r + 1,
                to as int,
            ));
        }
        r = r + 1;
    }
    r
}

/// What the format `s` says.
#[verifier::rlimit(60)]
#[verifier::spinoff_prover]
pub fn parse_format(s: &str) -> (p: FormatPlan)
    ensures
        plan_of(p, s@),
{
    let v = chars_of(s);
    let n: usize = v.len();
    if n == 0 {
        return FormatPlan::Default;
    }
    let i: usize = find_from(&v, 0, '{', '{');
    proof {
        assert(v@.skip(0) =~= s@);
    }
    if i == n {
        return FormatPlan::Literal(owned(s));
    }
    let close: usize = find_from(&v, i + 1, '}', '}');
    let ghost rest = s@.skip(i + 1);
    let ghost j = close - (i + 1);
    let prefix = string_of(&v, 0, i);
    proof {
        assert(v@.skip(i + 1) =~= rest);
        assert(prefix@ =~= s@.take(i as int));
    }
    if close == n {
        let tail = string_of(&v, i + 1, n);
        proof {
            assert(tail@ =~= rest);
        }
        return FormatPlan::Literal(cat2(prefix.as_str(), tail.as_str()));
    }
    let suffix = string_of(&v, close + 1, n);
    let ghost inner = rest.take(j);
    proof {
        assert(suffix@ =~= rest.skip(j + 1));
        assert(v@.subrange(i + 1, close as int) =~= inner);
    }
    let a: usize = past_all(&v, i + 1, close, ':');
    let b: usize = past_all(&v, a, close, '+');
    let ghost body = v@.subrange(b as int, close as int);
    let scientific = b < close && v[close - 1] == 'e';
    let found: usize = find_from(&v, b, '.', '.');
    proof {
        assert(body == skip_all(skip_all(inner, ':'), '+'));
        lemma_first_of_prefix(v@.skip(b as int), close - b, '.');
        assert(v@.skip(b as int).take(close - b) =~= body);
        if b < close {
            assert(body.last() == v@[close - 1]);
        }
    }
    let typed = b < close && (v[close - 1] == 'f' || v[close - 1] == 'e' || v[close - 1] == 'g');
    let width_end: usize = if found < close {
        found
    } else if typed {
        close - 1
    } else {
        close
    };
    let width_text = string_of(&v, b, width_end);
    proof {
        assert(width_text@ =~= width_digits(body));
    }
    let width: usize = match parse_unsigned(width_text.as_str(), usize::MAX as u64) {
        Ok(k) => k as usize,
        Err(_) => 0,
    };
    let precision: usize = if found >= close {
        proof {
            assert(precision_digits(body) =~= Seq::<char>::empty());
        }
        2
    } else {
        let mut to: usize = close;
        let ghost p = body.skip(found - b + 1);
        proof {
            assert(p =~= v@.subrange(found + 1, close as int));
        }
        if found + 1 < close {
            let last: char = v[close - 1];
            proof {
                assert(p.last() == last);
            }
            if last == 'f' || last == 'e' || last == 'g' {
                to = close - 1;
            }
        }
        let digits = string_of(&v, found + 1, to);
        proof {
            assert(digits@ =~= precision_digits(body));
        }
        match parse_unsigned(digits.as_str(), usize::MAX as u64) {
            Ok(k) => k as usize,
            Err(_) => 2,
        }
    };
    FormatPlan::Number(NumberFormat { prefix, plus: b > a, width, precision, scientific, suffix })
}

/// `s` with as many spaces before it as it takes to make it `width` long.
pub open spec fn padded(s: Seq<char>, width: nat) -> Seq<char> {
    if s.len() < width {
        Seq::new((width - s.len()) as nat, |i: int| ' ') + s
    } else {
        s
    }
}

/// A printed number within its format: padded to the width, between what stands in front
/// and behind.
pub open spec fn dressed(f: NumberFormat, number: Seq<char>) -> Seq<char> {
    f.prefix@ + padded(number, f.width as nat) + f.suffix@
}

impl NumberFormat {
    /// A number that was printed, with what stands around it: at least as wide as the
    /// format says, between its prefix and its suffix.
    pub fn dress(&self, number: &str) -> (r: String)
        ensures
            r@ == dressed(*self, number@),
    {
        let mut out = owned(self.prefix.as_str());
        let len: usize = number.unicode_len();
        let ghost start = out@;
        let missing: usize = if len < self.width {
            self.width - len
        } else {
            0
        };
        let mut i: usize = 0;
        while i < missing
            invariant
                i <= missing,
                out@ =~= start + Seq::new(i as nat, |k: int| ' '),
            decreases missing - i,
        {
            out.push(' ');
            i = i + 1;
        }
        out.append(number);
        out.append(self.suffix.as_str());
        proof {
            assert(out@ =~= self.prefix@ + padded(number@, self.width as nat) + self.suffix@);
        }
        out
    }
}

/// Searching a prefix finds what searching the whole does, where that lies in it.
proof fn lemma_first_of_prefix(s: Seq<char>, n: int, c: char)
    requires
        0 <= n <= s.len(),
    ensures
        first_of(s.take(n), c, c) == if first_of(s, c, c) < n {
            first_of(s, c, c)
        } else {
            n
        },
{
    let t = s.take(n);
    crate::text::first_of_bounds(s, c, c);
    let i = if first_of(s, c, c) < n {
        first_of(s, c, c)
    } else {
        n
    };
    crate::text::first_of_unique(t, c, c, i);
}

// ---------------------------------------------------------------- overlay texts

/// A part of a metadata overlay.
#[derive(Clone, Debug)]
pub enum MetaPart {
    Text(String),
    /// A rate in hertz.
    Rate(Num),
}

/// What an overlay says.
#[derive(Clone, Debug)]
pub enum LabelText {
    /// A value as the format prints it, and the range of the values.
    Data { value: Num, format: FormatPlan, range: Option<(Num, Num)> },
    /// Lines, one part each.
    Metadata { parts: Vec<MetaPart> },
}

/// The latest value of the panel's first source, or of its fallback.
pub open spec fn shown_value(cell: Cell, s: TraceStore) -> Option<Num> {
    if cell.sources.len() == 0 {
        None
    } else {
        let src = cell.sources@[0];
        match number_of(s, src.key@) {
            Some(v) => Some(v),
            None => match src.fallback {
                Some(f) => number_of(s, f@),
                None => None,
            },
        }
    }
}

/// The channel whose range is shown: the first source's, or its fallback's where
/// that has no points.
pub open spec fn range_key(cell: Cell, s: TraceStore) -> Seq<char> {
    let src = cell.sources@[0];
    if s.series(src.key@).len() > 0 {
        src.key@
    } else {
        match src.fallback {
            Some(f) => f@,
            None => src.key@,
        }
    }
}

/// The range of the values, where the panel asks for it and there are any.
pub open spec fn shown_range(cell: Cell, s: TraceStore) -> Option<(Num, Num)> {
    let pts = s.series(range_key(cell, s));
    if cell.label_data is Some && cell.label_data->0.show_min_max && pts.len() > 0 {
        Some((lowest(pts), highest(pts)))
    } else {
        None
    }
}

/// The format of the panel's value.
pub open spec fn format_of(cell: Cell) -> Seq<char> {
    match cell.label_data {
        Some(d) => d.format@,
        None => Seq::empty(),
    }
}

/// Is the `i`-th part this text?
pub open spec fn text_part(parts: Seq<MetaPart>, i: int, t: Seq<char>) -> bool {
    0 <= i < parts.len() && match parts[i] {
        MetaPart::Text(s) => s@ == t,
        _ => false,
    }
}

/// Are these the parts of the panel's metadata? Path, units and rate, those that
/// there are; the first source's key where the panel has no metadata.
pub open spec fn meta_parts(parts: Seq<MetaPart>, cell: Cell) -> bool {
    match cell.label_metadata {
        Some(md) => {
            let a: int = if md.source_path@.len() > 0 {
                1
            } else {
                0
            };
            let b: int = if md.units@.len() > 0 {
                1
            } else {
                0
            };
            &&& parts.len() == a + b + if md.stream_rate_hz is Some {
                1int
            } else {
                0
            }
            &&& a == 1 ==> text_part(parts, 0, md.source_path@)
            &&& b == 1 ==> text_part(parts, a, md.units@)
            &&& md.stream_rate_hz is Some ==> parts[a + b] == MetaPart::Rate(md.stream_rate_hz->0)
        },
        None => if cell.sources.len() > 0 {
            parts.len() == 1 && text_part(parts, 0, cell.sources@[0].key@)
        } else {
            parts.len() == 0
        },
    }
}

/// Is `r` what the overlay of a panel says?
pub open spec fn label_of(r: Option<LabelText>, cell: Cell, s: TraceStore, ov: LabelOverride) -> bool {
    match ov.effective(cell.label_mode) {
        LabelMode::Off => r is None,
        LabelMode::Data => match shown_value(cell, s) {
            None => r is None,
            Some(v) => match r {
                Some(LabelText::Data { value, format, range }) => value == v && plan_of(
                    format,
                    format_of(cell),
                ) && range == shown_range(cell, s),
                _ => false,
            },
        },
        LabelMode::Metadata => match r {
            None => meta_parts(Seq::empty(), cell),
            Some(LabelText::Metadata { parts }) => parts.len() > 0 && meta_parts(parts@, cell),
            _ => false,
        },
    }
}

/// The parts of the panel's metadata.
fn collect_meta(cell: &Cell) -> (parts: Vec<MetaPart>)
    ensures
        meta_parts(parts@, *cell),
{
    let mut parts: Vec<MetaPart> = Vec::new();
    match &cell.label_metadata {
        Some(md) => {
            if !md.source_path.as_str().is_empty() {
                parts.push(MetaPart::Text(md.source_path.clone()));
            }
            if !md.units.as_str().is_empty() {
                parts.push(MetaPart::Text(md.units.clone()));
            }
            match md.stream_rate_hz {
                Some(hz) => {
                    parts.push(MetaPart::Rate(hz));
                },
                None => {},
            }
        },
        None => {
            if cell.sources.len() > 0 {
                parts.push(MetaPart::Text(cell.sources[0].key.clone()));
            }
        },
    }
    parts
}

/// What the overlay of a panel says; nothing where it is off or has nothing to say.
pub fn build_label_text(cell: &Cell, store: &TraceStore, label_override: LabelOverride) -> (r: Option<
    LabelText,
>)
    requires
        store.wf(),
    ensures
        label_of(r, *cell, *store, label_override),
{
    match label_override.resolve(cell.label_mode) {
        LabelMode::Off => None,
        LabelMode::Data => {
            if cell.sources.len() == 0 {
                return None;
            }
            let key = cell.sources[0].key.as_str();
            let value: Num = match store.latest(key) {
                Some(v) => v,
                None => match &cell.sources[0].fallback {
                    Some(f) => match store.latest(f.as_str()) {
                        Some(v) => v,
                        None => {
                            return None;
                        },
                    },
                    None => {
                        return None;
                    },
                },
            };
            let format = match &cell.label_data {
                Some(d) => parse_format(d.format.as_str()),
                None => FormatPlan::Default,
            };
            let wants = match &cell.label_data {
                Some(d) => d.show_min_max,
                None => false,
            };
            let range = if wants {
                if store.len(key) > 0 {
                    store.min_max(key)
                } else {
                    match &cell.sources[0].fallback {
                        Some(f) => store.min_max(f.as_str()),
                        None => store.min_max(key),
                    }
                }
            } else {
                None
            };
            Some(LabelText::Data { value, format, range })
        },
        LabelMode::Metadata => {
            let parts = collect_meta(cell);
            if parts.len() == 0 {
                proof {
                    assert(parts@ =~= Seq::empty());
                }
                None
            } else {
                Some(LabelText::Metadata { parts })
            }
        },
    }
}

/// How far inside a plot its overlay starts, in pixels.
pub const OVERLAY_PAD: i128 = 6;

/// Where the label of a panel stands, by the panel's corner and the size of a pixel.
pub open spec fn overlay_at(left: int, top: int, px: int) -> (int, int) {
    (left + OVERLAY_PAD * px, top + OVERLAY_PAD * px)
}

/// Where the overlay of a plot starts: a little inside its upper left corner, so
/// that it does not hide the newest points. The size of the text makes no
/// difference. `px` is the length of a pixel.
pub fn compute_overlay_pos(left: i64, top: i64, px: i64) -> (r: (i128, i128))
    ensures
        (r.0 as int, r.1 as int) == overlay_at(left as int, top as int, px as int),
{
    let pad: i128 = OVERLAY_PAD * px as i128;
    (left as i128 + pad, top as i128 + pad)
}

} // verus!
