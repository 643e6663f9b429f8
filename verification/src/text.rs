//! Characters and strings: trimming, splitting, searching, ordering and decimal
//! numbers. Every operation is stated over the sequence of characters.
use vstd::prelude::*;
use vstd::string::*;

verus! {

/// `String::push` appends one character at the end.
pub assume_specification[ std::string::String::push ](s: &mut std::string::String, c: char)
    ensures
        final(s)@ == old(s)@.push(c),
;

// ---------------------------------------------------------------- white space

/// The characters with the Unicode property `White_Space`.
pub open spec fn is_space(c: char) -> bool {
    let n = c as u32;
    (9 <= n <= 13) || n == 32 || n == 0x85 || n == 0xA0 || n == 0x1680 || (0x2000 <= n <= 0x200A)
        || n == 0x2028 || n == 0x2029 || n == 0x202F || n == 0x205F || n == 0x3000
}

/// Does `c` count as white space?
pub fn whitespace(c: char) -> (r: bool)
    ensures
        r == is_space(c),
{
    let n: u32 = c as u32;
    (9 <= n && n <= 13) || n == 32 || n == 0x85 || n == 0xA0 || n == 0x1680 || (0x2000 <= n && n
        <= 0x200A) || n == 0x2028 || n == 0x2029 || n == 0x202F || n == 0x205F || n == 0x3000
}

/// `s` without its leading white space.
pub open spec fn trim_front(s: Seq<char>) -> Seq<char>
    decreases s.len(),
{
    if s.len() > 0 && is_space(s[0]) {
        trim_front(s.drop_first())
    } else {
        s
    }
}

/// `s` without its trailing white space.
pub open spec fn trim_back(s: Seq<char>) -> Seq<char>
    decreases s.len(),
{
    if s.len() > 0 && is_space(s.last()) {
        trim_back(s.drop_last())
    } else {
        s
    }
}

/// `s` without the white space at its two ends.
pub open spec fn trimmed(s: Seq<char>) -> Seq<char> {
    trim_back(trim_front(s))
}

/// The part of `s` without the white space at its two ends.
pub fn trim(s: &str) -> (r: &str)
    ensures
        r@ == trimmed(s@),
{
    let v = chars_of(s);
    let n: usize = v.len();
    let mut i: usize = 0;
    proof {
        assert(s@.skip(0) =~= s@);
    }
    while i < n && whitespace(v[i])
        invariant
            v@ == s@,
            n == v.len(),
            i <= n,
            trim_front(s@) == trim_front(s@.skip(i as int)),
        decreases n - i,
    {
        proof {
            assert(s@.skip(i as int).drop_first() =~= s@.skip(i + 1));
        }
        i = i + 1;
    }
    let mut j: usize = n;
    proof {
        assert(s@.subrange(i as int, n as int) =~= s@.skip(i as int));
    }
    while j > i && whitespace(v[j - 1])
        invariant
            v@ == s@,
            n == v.len(),
            i <= j <= n,
            trimmed(s@) == trim_back(s@.subrange(i as int, j as int)),
        decreases j,
    {
        proof {
            assert(s@.subrange(i as int, j as int).drop_last() =~= s@.subrange(i as int, j - 1));
        }
        j = j - 1;
    }
    s.substring_char(i, j)
}

/// Is nothing left of `s` once it is trimmed?
pub fn is_blank(s: &str) -> (r: bool)
    ensures
        r == (trimmed(s@).len() == 0),
{
    let t = trim(s);
    t.unicode_len() == 0
}

/// What is left after trimming is a part of `s` whose two ends are no white
/// space, so that trimming it again changes nothing.
pub proof fn trim_twice(s: Seq<char>)
    ensures
        trimmed(trimmed(s)) == trimmed(s),
        trimmed(s).len() > 0 ==> !is_space(trimmed(s)[0]) && !is_space(trimmed(s).last()),
        trimmed(s).len() <= s.len(),
{
    let t = trim_front(s);
    lemma_trim_front(s);
    lemma_trim_back(t);
    let r = trimmed(s);
    if r.len() > 0 {
        assert(r[0] == t[0]);
    }
}

proof fn lemma_trim_front(s: Seq<char>)
    ensures
        trim_front(s).len() <= s.len(),
        trim_front(s).len() > 0 ==> !is_space(trim_front(s)[0]),
    decreases s.len(),
{
    if s.len() > 0 && is_space(s[0]) {
        lemma_trim_front(s.drop_first());
    }
}

proof fn lemma_trim_back(s: Seq<char>)
    ensures
        trim_back(s).len() <= s.len(),
        trim_back(s) == s.take(trim_back(s).len() as int),
        trim_back(s).len() > 0 ==> !is_space(trim_back(s).last()),
    decreases s.len(),
{
    if s.len() > 0 && is_space(s.last()) {
        lemma_trim_back(s.drop_last());
        let n = trim_back(s).len() as int;
        assert(s.drop_last().take(n) =~= s.take(n));
    } else {
        assert(s.take(s.len() as int) =~= s);
    }
}

// ---------------------------------------------------------------- whole strings

/// The characters of a string, in order.
pub fn chars_of(s: &str) -> (v: Vec<char>)
    ensures
        v@ == s@,
{
    let mut v: Vec<char> = Vec::new();
    for c in it: s.chars()
        invariant
            v@ == it.seq().take(it.index()),
            it.seq() == s@,
    {
        v.push(c);
    }
    v
}

/// The string made of `v[from..to]`.
pub fn string_of(v: &Vec<char>, from: usize, to: usize) -> (s: String)
    requires
        from <= to <= v.len(),
    ensures
        s@ == v@.subrange(from as int, to as int),
{
    let mut s = String::new();
    let mut i: usize = from;
    while i < to
        invariant
            from <= i <= to <= v.len(),
            s@ =~= v@.subrange(from as int, i as int),
        decreases to - i,
    {
        s.push(v[i]);
        i = i + 1;
    }
    s
}

/// Do two strings hold the same characters?
pub fn same_text(a: &str, b: &str) -> (r: bool)
    ensures
        r == (a@ == b@),
{
    let x = chars_of(a);
    let y = chars_of(b);
    if x.len() != y.len() {
        return false;
    }
    let mut i: usize = 0;
    while i < x.len()
        invariant
            i <= x.len() == y.len(),
            x@ == a@,
            y@ == b@,
            forall|k: int| 0 <= k < i ==> x@[k] == y@[k],
        decreases x.len() - i,
    {
        if x[i] != y[i] {
            return false;
        }
        i = i + 1;
    }
    proof {
        assert(a@ =~= b@);
    }
    true
}

/// An owned copy of `s`.
pub fn owned(s: &str) -> (r: String)
    ensures
        r@ == s@,
{
    String::from_str(s)
}

/// `a` followed by `b`.
pub fn cat2(a: &str, b: &str) -> (r: String)
    ensures
        r@ == a@ + b@,
{
    let mut s = String::from_str(a);
    s.append(b);
    s
}

/// `a`, `b` and `c`, one behind the other.
pub fn cat3(a: &str, b: &str, c: &str) -> (r: String)
    ensures
        r@ == a@ + b@ + c@,
{
    let mut s = String::from_str(a);
    s.append(b);
    s.append(c);
    s
}

/// A sentence with a row and a column in it.
pub open spec fn slot_sentence(
    a: Seq<char>,
    row: usize,
    b: Seq<char>,
    col: usize,
    c: Seq<char>,
) -> Seq<char> {
    a + dec(row as nat) + b + dec(col as nat) + c
}

/// A sentence with a row and a column in it.
pub fn say_slot(a: &str, row: usize, b: &str, col: usize, c: &str) -> (r: String)
    ensures
        r@ == slot_sentence(a@, row, b@, col, c@),
{
    let mut s = String::from_str(a);
    let x = decimal(row as u64);
    s.append(x.as_str());
    s.append(b);
    let y = decimal(col as u64);
    s.append(y.as_str());
    s.append(c);
    s
}

/// The parts with `sep` between each two of them.
pub open spec fn joined(parts: Seq<Seq<char>>, sep: Seq<char>) -> Seq<char>
    decreases parts.len(),
{
    if parts.len() == 0 {
        Seq::empty()
    } else if parts.len() == 1 {
        parts[0]
    } else {
        joined(parts.drop_last(), sep) + sep + parts.last()
    }
}

/// The characters of each string of a list.
pub open spec fn texts(v: Seq<String>) -> Seq<Seq<char>> {
    v.map_values(|s: String| s@)
}

/// `parts` in one string, with `sep` between each two of them.
pub fn join(parts: &Vec<String>, sep: &str) -> (r: String)
    ensures
        r@ == joined(texts(parts@), sep@),
{
    let mut out = String::new();
    let mut i: usize = 0;
    while i < parts.len()
        invariant
            i <= parts.len(),
            out@ == joined(texts(parts@).take(i as int), sep@),
        decreases parts.len() - i,
    {
        proof {
            let all = texts(parts@);
            assert(all.take(i + 1).drop_last() =~= all.take(i as int));
            assert(all.take(i + 1).last() == parts@[i as int]@);
        }
        if i > 0 {
            out.append(sep);
        }
        out.append(parts[i].as_str());
        proof {
            if i == 0 {
                assert(out@ =~= parts@[0]@);
            }
        }
        i = i + 1;
    }
    proof {
        assert(texts(parts@).take(parts.len() as int) =~= texts(parts@));
    }
    out
}

// ---------------------------------------------------------------- searching

/// Index of the first character of `s` that is `c` or `d`; the length of `s` if
/// there is none.
pub open spec fn first_of(s: Seq<char>, c: char, d: char) -> int
    decreases s.len(),
{
    if s.len() == 0 || s[0] == c || s[0] == d {
        0
    } else {
        1 + first_of(s.drop_first(), c, d)
    }
}

/// `first_of` is an index of `s` or its length, nothing before it is `c` or `d`,
/// and what stands there is.
pub proof fn first_of_bounds(s: Seq<char>, c: char, d: char)
    ensures
        0 <= first_of(s, c, d) <= s.len(),
        forall|k: int| 0 <= k < first_of(s, c, d) ==> s[k] != c && s[k] != d,
        first_of(s, c, d) < s.len() ==> s[first_of(s, c, d)] == c || s[first_of(s, c, d)] == d,
    decreases s.len(),
{
    if s.len() == 0 || s[0] == c || s[0] == d {
    } else {
        let t = s.drop_first();
        first_of_bounds(t, c, d);
        assert forall|k: int| 0 <= k < first_of(s, c, d) implies s[k] != c && s[k] != d by {
            if k > 0 {
                assert(s[k] == t[k - 1]);
            }
        }
    }
}

/// An index with nothing sought before it, and the sought at it, is `first_of`.
pub proof fn first_of_unique(s: Seq<char>, c: char, d: char, i: int)
    requires
        0 <= i <= s.len(),
        forall|k: int| 0 <= k < i ==> s[k] != c && s[k] != d,
        i < s.len() ==> s[i] == c || s[i] == d,
    ensures
        first_of(s, c, d) == i,
{
    first_of_bounds(s, c, d);
}

/// Index in `v`, from `from` on, of the first `c` or `d`; `v.len()` if there is
/// none.
pub fn find_from(v: &Vec<char>, from: usize, c: char, d: char) -> (i: usize)
    requires
        from <= v.len(),
    ensures
        from <= i <= v.len(),
        i - from == first_of(v@.skip(from as int), c, d),
{
    let mut i: usize = from;
    while i < v.len() && v[i] != c && v[i] != d
        invariant
            from <= i <= v.len(),
            forall|k: int| from <= k < i ==> v@[k] != c && v@[k] != d,
        decreases v.len() - i,
    {
        i = i + 1;
    }
    proof {
        first_of_unique(v@.skip(from as int), c, d, i - from);
    }
    i
}

/// `s` up to the first `c` or `d`, or all of it.
pub open spec fn before(s: Seq<char>, c: char, d: char) -> Seq<char> {
    s.take(first_of(s, c, d))
}

/// The part of `s` up to the first `c` or `d`, or all of it.
pub fn prefix_before(s: &str, c: char, d: char) -> (r: &str)
    ensures
        r@ == before(s@, c, d),
{
    let v = chars_of(s);
    let i: usize = find_from(&v, 0, c, d);
    proof {
        assert(v@.skip(0) =~= s@);
        assert(s@.subrange(0, i as int) =~= s@.take(i as int));
    }
    s.substring_char(0, i)
}

/// Index of the last `c` in `s`; -1 if there is none.
pub open spec fn last_of(s: Seq<char>, c: char) -> int
    decreases s.len(),
{
    if s.len() == 0 {
        -1
    } else if s.last() == c {
        s.len() - 1
    } else {
        last_of(s.drop_last(), c)
    }
}

/// Index of the last `c` in `s`.
pub fn rfind(s: &str, c: char) -> (r: Option<usize>)
    ensures
        last_of(s@, c) < 0 <==> r is None,
        r is Some ==> r->0 == last_of(s@, c) && r->0 < s@.len(),
{
    let v = chars_of(s);
    let mut j: usize = v.len();
    proof {
        assert(s@.take(j as int) =~= s@);
    }
    while j > 0
        invariant
            v@ == s@,
            j <= v.len(),
            last_of(s@, c) == last_of(s@.take(j as int), c),
        decreases j,
    {
        proof {
            assert(s@.take(j as int).drop_last() =~= s@.take(j - 1));
        }
        if v[j - 1] == c {
            return Some(j - 1);
        }
        j = j - 1;
    }
    None
}

/// Does `s` begin with `p`?
pub open spec fn begins(s: Seq<char>, p: Seq<char>) -> bool {
    p.len() <= s.len() && s.take(p.len() as int) == p
}

/// Does `s` end with `p`?
pub open spec fn ends(s: Seq<char>, p: Seq<char>) -> bool {
    p.len() <= s.len() && s.skip(s.len() - p.len()) == p
}

/// Does `p` stand in `s` at `i`?
pub open spec fn stands_at(s: Seq<char>, p: Seq<char>, i: int) -> bool {
    0 <= i && i + p.len() <= s.len() && s.subrange(i, i + p.len()) == p
}

/// Does `p` stand anywhere in `s`?
pub open spec fn holds(s: Seq<char>, p: Seq<char>) -> bool {
    exists|i: int| stands_at(s, p, i)
}

/// Does `p` stand in `v` at `i`?
fn matches_at(v: &Vec<char>, p: &Vec<char>, i: usize) -> (r: bool)
    requires
        i <= v.len(),
    ensures
        r == stands_at(v@, p@, i as int),
{
    if p.len() > v.len() - i {
        return false;
    }
    let mut k: usize = 0;
    while k < p.len()
        invariant
            k <= p.len() <= v.len() - i,
            forall|m: int| 0 <= m < k ==> v@[i + m] == p@[m],
        decreases p.len() - k,
    {
        if v[i + k] != p[k] {
            proof {
                assert(v@.subrange(i as int, i + p.len())[k as int] == v@[i + k]);
            }
            return false;
        }
        k = k + 1;
    }
    proof {
        assert(v@.subrange(i as int, i + p.len()) =~= p@);
    }
    true
}

/// Does `s` begin with `p`?
pub fn starts_with(s: &str, p: &str) -> (r: bool)
    ensures
        r == begins(s@, p@),
{
    let v = chars_of(s);
    let q = chars_of(p);
    proof {
        if p@.len() <= s@.len() {
            assert(s@.subrange(0, p@.len() as int) =~= s@.take(p@.len() as int));
        }
    }
    matches_at(&v, &q, 0)
}

/// Does `s` end with `p`?
pub fn ends_with(s: &str, p: &str) -> (r: bool)
    ensures
        r == ends(s@, p@),
{
    let v = chars_of(s);
    let q = chars_of(p);
    if q.len() > v.len() {
        return false;
    }
    let i: usize = v.len() - q.len();
    proof {
        assert(s@.subrange(i as int, i + q.len()) =~= s@.skip(i as int));
    }
    matches_at(&v, &q, i)
}

/// Does `p` stand anywhere in `s`?
pub fn contains(s: &str, p: &str) -> (r: bool)
    ensures
        r == holds(s@, p@),
{
    let v = chars_of(s);
    let q = chars_of(p);
    let mut i: usize = 0;
    while i < v.len()
        invariant
            i <= v.len(),
            v@ == s@,
            q@ == p@,
            forall|k: int| 0 <= k < i ==> !stands_at(s@, p@, k),
        decreases v.len() - i,
    {
        if matches_at(&v, &q, i) {
            return true;
        }
        i = i + 1;
    }
    matches_at(&v, &q, i)
}

// ---------------------------------------------------------------- splitting

/// The pieces of `s` between its `c`s: one more than there are `c`s.
pub open spec fn split(s: Seq<char>, c: char) -> Seq<Seq<char>>
    decreases s.len(),
{
    let i = first_of(s, c, c);
    if 0 <= i < s.len() {
        seq![s.take(i)] + split(s.skip(i + 1), c)
    } else {
        seq![s]
    }
}

/// Splitting takes nothing away: the pieces, with `c` between each two, are `s`.
pub proof fn split_loses_nothing(s: Seq<char>, c: char)
    ensures
        split(s, c).len() > 0,
        rejoined(split(s, c), c) == s,
        forall|k: int| 0 <= k < split(s, c).len() ==> !(#[trigger] split(s, c)[k]).contains(c),
    decreases s.len(),
{
    first_of_bounds(s, c, c);
    let i = first_of(s, c, c);
    if i < s.len() {
        let rest = split(s.skip(i + 1), c);
        split_loses_nothing(s.skip(i + 1), c);
        let all = split(s, c);
        assert(all.drop_first() =~= rest);
        assert(rejoined(all, c) =~= s);
        assert forall|k: int| 0 <= k < all.len() implies !(#[trigger] all[k]).contains(c) by {
            if k > 0 {
                assert(all[k] == rest[k - 1]);
            }
        }
    }
}

/// The parts with the character `c` between each two of them.
pub open spec fn rejoined(parts: Seq<Seq<char>>, c: char) -> Seq<char>
    decreases parts.len(),
{
    if parts.len() == 0 {
        Seq::empty()
    } else if parts.len() == 1 {
        parts[0]
    } else {
        parts[0].push(c) + rejoined(parts.drop_first(), c)
    }
}

/// The pieces of `s` between its `c`s.
pub fn split_on(s: &str, c: char) -> (r: Vec<String>)
    ensures
        texts(r@) == split(s@, c),
        r.len() > 0,
{
    let v = chars_of(s);
    let mut out: Vec<String> = Vec::new();
    let mut from: usize = 0;
    proof {
        assert(v@.skip(0) =~= s@);
        assert(texts(out@) + split(s@, c) =~= split(s@, c));
    }
    loop
        invariant_except_break
            texts(out@) + split(v@.skip(from as int), c) == split(s@, c),
        invariant
            from <= v.len(),
        ensures
            texts(out@) == split(s@, c),
            out.len() > 0,
        decreases v.len() - from,
    {
        let i: usize = find_from(&v, from, c, c);
        let piece = string_of(&v, from, i);
        let ghost before = out@;
        let ghost rest = v@.skip(from as int);
        out.push(piece);
        proof {
            assert(piece@ =~= rest.take(i - from));
            assert(texts(out@) =~= texts(before).push(piece@));
        }
        if i == v.len() {
            proof {
                assert(split(rest, c) =~= seq![piece@]) by {
                    assert(rest.take(i - from) =~= rest);
                }
                assert(texts(out@) =~= texts(before) + seq![piece@]);
            }
            break;
        }
        proof {
            assert(rest.skip(i - from + 1) =~= v@.skip(i + 1));
            assert(texts(out@) + split(v@.skip(i + 1), c) =~= texts(before) + (seq![piece@] + split(
                v@.skip(i + 1),
                c,
            )));
        }
        from = i + 1;
    }
    out
}

// ---------------------------------------------------------------- order

/// Does `a` come before `b` in the order of their characters?
pub open spec fn precedes(a: Seq<char>, b: Seq<char>) -> bool
    decreases a.len(),
{
    if b.len() == 0 {
        false
    } else if a.len() == 0 {
        true
    } else if a[0] != b[0] {
        (a[0] as int) < (b[0] as int)
    } else {
        precedes(a.drop_first(), b.drop_first())
    }
}

/// No string comes before itself.
pub proof fn precedes_irreflexive(a: Seq<char>)
    ensures
        !precedes(a, a),
    decreases a.len(),
{
    if a.len() > 0 {
        precedes_irreflexive(a.drop_first());
    }
}

/// What comes before `b` comes before all that `b` comes before.
pub proof fn precedes_transitive(a: Seq<char>, b: Seq<char>, c: Seq<char>)
    requires
        precedes(a, b),
        precedes(b, c),
    ensures
        precedes(a, c),
    decreases a.len(),
{
    if a.len() > 0 {
        if a[0] == b[0] && b[0] == c[0] {
            precedes_transitive(a.drop_first(), b.drop_first(), c.drop_first());
        }
    }
}

/// Of two different strings one comes before the other.
pub proof fn precedes_total(a: Seq<char>, b: Seq<char>)
    ensures
        a == b || precedes(a, b) || precedes(b, a),
    decreases a.len(),
{
    if a.len() == 0 || b.len() == 0 {
        if a.len() == 0 && b.len() == 0 {
            assert(a =~= b);
        }
    } else if a[0] == b[0] {
        precedes_total(a.drop_first(), b.drop_first());
        if a.drop_first() == b.drop_first() {
            assert(a =~= seq![a[0]] + a.drop_first());
            assert(b =~= seq![b[0]] + b.drop_first());
        }
    }
}

/// Does `a` come before `b` in the order of their characters?
pub fn comes_before(a: &str, b: &str) -> (r: bool)
    ensures
        r == precedes(a@, b@),
{
    let x = chars_of(a);
    let y = chars_of(b);
    let mut i: usize = 0;
    proof {
        assert(a@.skip(0) =~= a@);
        assert(b@.skip(0) =~= b@);
    }
    while i < x.len() && i < y.len() && x[i] == y[i]
        invariant
            x@ == a@,
            y@ == b@,
            i <= x.len(),
            i <= y.len(),
            precedes(a@, b@) == precedes(a@.skip(i as int), b@.skip(i as int)),
        decreases x.len() - i,
    {
        proof {
            assert(a@.skip(i as int).drop_first() =~= a@.skip(i + 1));
            assert(b@.skip(i as int).drop_first() =~= b@.skip(i + 1));
        }
        i = i + 1;
    }
    if i == y.len() {
        false
    } else if i == x.len() {
        true
    } else {
        x[i] < y[i]
    }
}

// ---------------------------------------------------------------- numbers

/// The decimal digit of `d`, for `d` from 0 to 9.
pub open spec fn digit(d: int) -> char {
    ((48 + d) as u8) as char
}

/// `n` in decimal digits.
pub open spec fn dec(n: nat) -> Seq<char>
    decreases n,
{
    if n < 10 {
        seq![digit(n as int)]
    } else {
        dec(n / 10).push(digit((n % 10) as int))
    }
}

/// `i` in decimal digits, with a minus sign in front if it is negative.
pub open spec fn dec_int(i: int) -> Seq<char> {
    if i < 0 {
        seq!['-'] + dec((-i) as nat)
    } else {
        dec(i as nat)
    }
}

/// `n` in decimal digits.
pub fn decimal(n: u64) -> (s: String)
    ensures
        s@ == dec(n as nat),
    decreases n,
{
    let mut s = if n < 10 {
        String::new()
    } else {
        decimal(n / 10)
    };
    let c: char = (48u8 + ((n % 10) as u8)) as char;
    s.push(c);
    proof {
        if n < 10 {
            assert(s@ =~= seq![digit(n as int)]);
        }
    }
    s
}

/// `i` in decimal digits, with a minus sign in front if it is negative.
pub fn decimal_int(i: i64) -> (s: String)
    ensures
        s@ == dec_int(i as int),
{
    if i < 0 {
        let m: u64 = if i == i64::MIN {
            0x8000_0000_0000_0000
        } else {
            (-i) as u64
        };
        let d = decimal(m);
        let mut s = String::new();
        s.push('-');
        s.append(d.as_str());
        proof {
            assert(s@ =~= seq!['-'] + dec((-i) as nat));
        }
        s
    } else {
        decimal(i as u64)
    }
}

/// Is `c` one of the digits 0 to 9?
pub open spec fn is_digit(c: char) -> bool {
    48 <= c as u32 <= 57
}

/// Is `c` one of the digits 0 to 9?
pub fn decimal_digit(c: char) -> (r: bool)
    ensures
        r == is_digit(c),
{
    '0' <= c && c <= '9'
}

/// The number that a run of decimal digits stands for.
pub open spec fn digits_value(s: Seq<char>) -> nat
    decreases s.len(),
{
    if s.len() == 0 {
        0
    } else {
        digits_value(s.drop_last()) * 10 + ((s.last() as u32 - 48) as nat)
    }
}

/// Why a text is no number.
#[derive(Clone, Copy, Debug, PartialEq, Eq, Structural)]
pub enum NumberError {
    Empty,
    InvalidDigit,
    TooLarge,
}

/// `s` behind one leading plus sign, if it has one and more behind it.
pub open spec fn unsigned_digits(s: Seq<char>) -> Seq<char> {
    if s.len() > 1 && s[0] == '+' {
        s.drop_first()
    } else {
        s
    }
}

/// The number that `s` stands for, if it is a decimal number of at most `max`
/// with or without a plus sign. Digits are read from the left, and what is wrong
/// first is what is reported.
pub open spec fn unsigned_number(s: Seq<char>, max: nat) -> Result<nat, NumberError> {
    let d = unsigned_digits(s);
    if s.len() == 0 {
        Err(NumberError::Empty)
    } else {
        read_digits(d, max)
    }
}

/// The value of the digits `d`, or what is wrong first, read from the left.
pub open spec fn read_digits(d: Seq<char>, max: nat) -> Result<nat, NumberError>
    decreases d.len(),
{
    if d.len() == 0 {
        Ok(0)
    } else {
        match read_digits(d.drop_last(), max) {
            Err(e) => Err(e),
            Ok(n) => if !is_digit(d.last()) {
                Err(NumberError::InvalidDigit)
            } else if n * 10 + (d.last() as u32 - 48) > max {
                Err(NumberError::TooLarge)
            } else {
                Ok((n * 10 + (d.last() as u32 - 48)) as nat)
            },
        }
    }
}

/// Read a decimal number of at most `max`, with or without a plus sign.
pub fn parse_unsigned(s: &str, max: u64) -> (r: Result<u64, NumberError>)
    ensures
        match (r, unsigned_number(s@, max as nat)) {
            (Ok(n), Ok(m)) => n == m,
            (Err(e), Err(f)) => e == f,
            _ => false,
        },
{
    let v = chars_of(s);
    if v.len() == 0 {
        return Err(NumberError::Empty);
    }
    let start: usize = if v.len() > 1 && v[0] == '+' {
        1
    } else {
        0
    };
    let ghost d = unsigned_digits(s@);
    proof {
        assert(d =~= v@.skip(start as int));
        lemma_read_prefix_error(d, max as nat, 0);
        assert(d.take(0).len() == 0);
    }
    let mut n: u64 = 0;
    let mut i: usize = start;
    while i < v.len()
        invariant
            start <= i <= v.len(),
            d == v@.skip(start as int),
            n <= max,
            read_digits(d.take(i - start), max as nat) == Ok::<nat, NumberError>(n as nat),
            unsigned_number(s@, max as nat) == read_digits(d, max as nat),
        decreases v.len() - i,
    {
        let ghost k = i - start;
        proof {
            assert(d.take(k + 1).drop_last() =~= d.take(k));
            assert(d.take(k + 1).last() == v@[i as int]);
            lemma_read_prefix_error(d, max as nat, k + 1);
        }
        let c: u32 = v[i] as u32;
        if c < 48 || c > 57 {
            return Err(NumberError::InvalidDigit);
        }
        let add: u64 = (c - 48) as u64;
        let wide: u128 = (n as u128) * 10 + (add as u128);
        if wide > max as u128 {
            return Err(NumberError::TooLarge);
        }
        n = wide as u64;
        i = i + 1;
    }
    proof {
        assert(d.take(d.len() as int) =~= d);
    }
    Ok(n)
}

/// What is wrong with a prefix is what is wrong with the whole.
proof fn lemma_read_prefix_error(d: Seq<char>, max: nat, k: int)
    requires
        0 <= k <= d.len(),
    ensures
        read_digits(d.take(k), max) is Err ==> read_digits(d, max) == read_digits(d.take(k), max),
    decreases d.len(),
{
    if k == d.len() {
        assert(d.take(k) =~= d);
    } else {
        lemma_read_prefix_error(d.drop_last(), max, k);
        assert(d.drop_last().take(k) =~= d.take(k));
    }
}

/// The digits of a number are digits, and stand for it: reading what was printed
/// gives the number back.
pub proof fn printing_can_be_read_back(n: nat)
    ensures
        dec(n).len() > 0,
        forall|i: int| 0 <= i < dec(n).len() ==> is_digit(#[trigger] dec(n)[i]),
        digits_value(dec(n)) == n,
        forall|max: nat| n <= max ==> #[trigger] read_digits(dec(n), max) == Ok::<nat, NumberError>(n),
        forall|max: nat| n <= max ==> #[trigger] unsigned_number(dec(n), max) == Ok::<
            nat,
            NumberError,
        >(n),
    decreases n,
{
    reveal_with_fuel(digits_value, 2);
    reveal_with_fuel(read_digits, 2);
    let d = dec(n);
    if n >= 10 {
        printing_can_be_read_back(n / 10);
        assert(d.drop_last() =~= dec(n / 10));
        assert(d.last() == digit((n % 10) as int));
        assert forall|i: int| 0 <= i < d.len() implies is_digit(#[trigger] d[i]) by {
            if i < d.len() - 1 {
                assert(d[i] == dec(n / 10)[i]);
            }
        }
        assert forall|max: nat| n <= max implies #[trigger] read_digits(d, max) == Ok::<
            nat,
            NumberError,
        >(n) by {
            assert(read_digits(dec(n / 10), max) == Ok::<nat, NumberError>(n / 10));
        }
    } else {
        assert(d.drop_last() =~= Seq::<char>::empty());
        assert(d.last() == digit(n as int));
        assert(is_digit(d[0]));
    }
    assert forall|max: nat| n <= max implies #[trigger] unsigned_number(d, max) == Ok::<
        nat,
        NumberError,
    >(n) by {
        assert(is_digit(d[0]));
        assert(unsigned_digits(d) == d);
        assert(read_digits(d, max) == Ok::<nat, NumberError>(n));
    }
}

} // verus!
