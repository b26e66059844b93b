//! Character-level text handling shared by the transcript, prompt and
//! speech-to-text modules: Unicode whitespace, trimming, line splitting,
//! character-bounded prefixes and decimal rendering of integers.
use vstd::prelude::*;
use vstd::string::*;

verus! {

// ── Whitespace ────────────────────────────────────────────────────────────────

/// The Unicode `White_Space` property, the notion of whitespace that
/// `char::is_whitespace` and `str::trim` use.
pub open spec fn is_ws(c: char) -> bool {
    let u = c as u32;
    ||| 0x09 <= u <= 0x0D
    ||| u == 0x20
    ||| u == 0x85
    ||| u == 0xA0
    ||| u == 0x1680
    ||| 0x2000 <= u <= 0x200A
    ||| u == 0x2028
    ||| u == 0x2029
    ||| u == 0x202F
    ||| u == 0x205F
    ||| u == 0x3000
}

/// Whether `c` is whitespace (Unicode `White_Space`).
pub fn is_whitespace(c: char) -> (r: bool)
    ensures
        r == is_ws(c),
{
    let u = c as u32;
    (0x09 <= u && u <= 0x0D) || u == 0x20 || u == 0x85 || u == 0xA0 || u == 0x1680 || (0x2000
        <= u && u <= 0x200A) || u == 0x2028 || u == 0x2029 || u == 0x202F || u == 0x205F || u
        == 0x3000
}

/// `s` with its leading whitespace removed.
pub open spec fn trim_start(s: Seq<char>) -> Seq<char>
    decreases s.len(),
{
    if s.len() > 0 && is_ws(s[0]) {
        trim_start(s.drop_first())
    } else {
        s
    }
}

/// `s` with its trailing whitespace removed.
pub open spec fn trim_end(s: Seq<char>) -> Seq<char>
    decreases s.len(),
{
    if s.len() > 0 && is_ws(s.last()) {
        trim_end(s.drop_last())
    } else {
        s
    }
}

/// `s` with leading and trailing whitespace removed, as `str::trim` does.
pub open spec fn trim(s: Seq<char>) -> Seq<char> {
    trim_end(trim_start(s))
}

/// Whether `s` holds only whitespace (or nothing at all).
pub open spec fn is_blank(s: Seq<char>) -> bool {
    trim(s).len() == 0
}

proof fn lemma_trim_start_skip(s: Seq<char>, i: int)
    requires
        0 <= i <= s.len(),
        forall|k: int| 0 <= k < i ==> is_ws(#[trigger] s[k]),
        i == s.len() || !is_ws(s[i]),
    ensures
        trim_start(s) == s.skip(i),
    decreases i,
{
    if i == 0 {
        assert(s.skip(0) =~= s);
    } else {
        let t = s.drop_first();
        assert forall|k: int| 0 <= k < i - 1 implies is_ws(#[trigger] t[k]) by {
            assert(t[k] == s[k + 1]);
        }
        if i - 1 < t.len() {
            assert(t[i - 1] == s[i]);
        }
        lemma_trim_start_skip(t, i - 1);
        assert(t.skip(i - 1) =~= s.skip(i));
    }
}

proof fn lemma_trim_end_take(s: Seq<char>, j: int)
    requires
        0 <= j <= s.len(),
        forall|k: int| j <= k < s.len() ==> is_ws(#[trigger] s[k]),
        j == 0 || !is_ws(s[j - 1]),
    ensures
        trim_end(s) == s.take(j),
    decreases s.len() - j,
{
    if j == s.len() {
        assert(s.take(j) =~= s);
    } else {
        let t = s.drop_last();
        assert forall|k: int| j <= k < t.len() implies is_ws(#[trigger] t[k]) by {
            assert(t[k] == s[k]);
        }
        if j > 0 {
            assert(t[j - 1] == s[j - 1]);
        }
        lemma_trim_end_take(t, j);
        assert(t.take(j) =~= s.take(j));
    }
}

/// Where `trim_start` cuts: it drops the first `k` characters, all whitespace,
/// and keeps a first character that is not.
pub proof fn lemma_trim_start_cut(s: Seq<char>) -> (k: int)
    ensures
        0 <= k <= s.len(),
        trim_start(s) == s.skip(k),
        k < s.len() ==> !is_ws(s[k]),
    decreases s.len(),
{
    if s.len() > 0 && is_ws(s[0]) {
        let k1 = lemma_trim_start_cut(s.drop_first());
        assert(s.drop_first().skip(k1) =~= s.skip(k1 + 1));
        if k1 < s.drop_first().len() {
            assert(s.drop_first()[k1] == s[k1 + 1]);
        }
        k1 + 1
    } else {
        assert(s.skip(0) =~= s);
        0
    }
}

/// Where `trim_end` cuts: it keeps the first `k` characters, the last of
/// which is not whitespace.
pub proof fn lemma_trim_end_cut(s: Seq<char>) -> (k: int)
    ensures
        0 <= k <= s.len(),
        trim_end(s) == s.take(k),
        k > 0 ==> !is_ws(s[k - 1]),
    decreases s.len(),
{
    if s.len() > 0 && is_ws(s.last()) {
        let k1 = lemma_trim_end_cut(s.drop_last());
        assert(s.drop_last().take(k1) =~= s.take(k1));
        if k1 > 0 {
            assert(s.drop_last()[k1 - 1] == s[k1 - 1]);
        }
        k1
    } else {
        assert(s.take(s.len() as int) =~= s);
        s.len() as int
    }
}

/// Trimming keeps a contiguous part of the text, which neither starts nor
/// ends with whitespace.
pub proof fn lemma_trim_cut(s: Seq<char>) -> (r: (int, int))
    ensures
        0 <= r.0 <= r.1 <= s.len(),
        trim(s) == s.subrange(r.0, r.1),
        r.0 < r.1 ==> !is_ws(s[r.0]) && !is_ws(s[r.1 - 1]),
{
    let a = lemma_trim_start_cut(s);
    let t = s.skip(a);
    let b = lemma_trim_end_cut(t);
    assert(t.take(b) =~= s.subrange(a, a + b));
    if b > 0 {
        assert(t[0] == s[a]);
        assert(t[b - 1] == s[a + b - 1]);
    }
    (a, a + b)
}

/// Trimming twice is trimming once.
pub proof fn lemma_trim_idempotent(s: Seq<char>)
    ensures
        trim(trim(s)) == trim(s),
{
    let (a, b) = lemma_trim_cut(s);
    let u = trim(s);
    if u.len() > 0 {
        assert(u[0] == s[a]);
        assert(u.last() == s[b - 1]);
        assert(trim_start(u) == u);
        assert(trim_end(u) == u);
    } else {
        assert(trim_start(u) == u);
        assert(trim_end(u) == u);
    }
}

/// The bounds `(a, b)` of the trimmed part of `v[lo..hi]`: that part is `v[a..b]`.
pub fn trim_bounds(v: &Vec<char>, lo: usize, hi: usize) -> (r: (usize, usize))
    requires
        lo <= hi <= v@.len(),
    ensures
        lo <= r.0 <= r.1 <= hi,
        v@.subrange(r.0 as int, r.1 as int) == trim(v@.subrange(lo as int, hi as int)),
{
    let ghost s = v@.subrange(lo as int, hi as int);
    let mut a = lo;
    while a < hi && is_whitespace(v[a])
        invariant
            lo <= a <= hi <= v@.len(),
            s == v@.subrange(lo as int, hi as int),
            forall|k: int| lo <= k < a ==> is_ws(#[trigger] v@[k]),
        decreases hi - a,
    {
        a = a + 1;
    }
    proof {
        let i = a - lo;
        assert forall|k: int| 0 <= k < i implies is_ws(#[trigger] s[k]) by {
            assert(s[k] == v@[lo + k]);
        }
        if i < s.len() {
            assert(s[i] == v@[a as int]);
        }
        lemma_trim_start_skip(s, i);
        assert(s.skip(i) =~= v@.subrange(a as int, hi as int));
    }
    let mut b = hi;
    while b > a && is_whitespace(v[b - 1])
        invariant
            lo <= a <= b <= hi <= v@.len(),
            forall|k: int| b <= k < hi ==> is_ws(#[trigger] v@[k]),
        decreases b - a,
    {
        b = b - 1;
    }
    proof {
        let t = v@.subrange(a as int, hi as int);
        let j = b - a;
        assert forall|k: int| j <= k < t.len() implies is_ws(#[trigger] t[k]) by {
            assert(t[k] == v@[a + k]);
        }
        if j > 0 {
            assert(t[j - 1] == v@[b - 1]);
        }
        lemma_trim_end_take(t, j);
        assert(t.take(j) =~= v@.subrange(a as int, b as int));
    }
    (a, b)
}

/// The characters of `s`, in order.
pub fn chars_of(s: &str) -> (r: Vec<char>)
    ensures
        r@ == s@,
{
    let mut r: Vec<char> = Vec::new();
    for c in it: s.chars()
        invariant
            r@ == it.seq().take(it.index() as int),
            it.seq() == s@,
    {
        r.push(c);
    }
    r
}

/// The characters `from..to` of `s`, as an owned string.
pub fn substring(s: &str, from: usize, to: usize) -> (r: String)
    requires
        from <= to <= s@.len(),
    ensures
        r@ == s@.subrange(from as int, to as int),
{
    let part = s.substring_char(from, to);
    part.to_owned()
}

/// `s` with leading and trailing whitespace removed (`str::trim`).
pub fn trimmed(s: &str) -> (r: String)
    ensures
        r@ == trim(s@),
{
    let v = chars_of(s);
    let (a, b) = trim_bounds(&v, 0, v.len());
    assert(v@.subrange(0, v@.len() as int) =~= s@);
    substring(s, a, b)
}

/// Whether `s` is empty once trimmed.
pub fn blank(s: &str) -> (r: bool)
    ensures
        r == is_blank(s@),
{
    let v = chars_of(s);
    let (a, b) = trim_bounds(&v, 0, v.len());
    assert(v@.subrange(0, v@.len() as int) =~= s@);
    a == b
}

// ── Lines ─────────────────────────────────────────────────────────────────────

/// The pieces of `s` between `'\n'` characters, as `str::split('\n')` yields them:
/// `k` newlines give `k + 1` pieces, some of them possibly empty.
pub open spec fn split_lines(s: Seq<char>) -> Seq<Seq<char>>
    decreases s.len(),
{
    if s.len() == 0 {
        seq![Seq::<char>::empty()]
    } else {
        let prev = split_lines(s.drop_last());
        if s.last() == '\n' {
            prev.push(Seq::<char>::empty())
        } else {
            prev.update(prev.len() - 1, prev.last().push(s.last()))
        }
    }
}

pub proof fn lemma_split_lines_nonempty(s: Seq<char>)
    ensures
        split_lines(s).len() >= 1,
    decreases s.len(),
{
    if s.len() > 0 {
        lemma_split_lines_nonempty(s.drop_last());
    }
}

/// The trimmed pieces of `lines` that are not empty once trimmed.
pub open spec fn non_blank(lines: Seq<Seq<char>>) -> Seq<Seq<char>> {
    lines.map_values(|l: Seq<char>| trim(l)).filter(|l: Seq<char>| l.len() > 0)
}

/// The non-blank lines of `s`, each trimmed.
pub open spec fn content_lines(s: Seq<char>) -> Seq<Seq<char>> {
    non_blank(split_lines(s))
}

/// No piece of a split holds a newline.
pub proof fn lemma_split_lines_no_newline(s: Seq<char>)
    ensures
        forall|i: int, j: int|
            0 <= i < split_lines(s).len() && 0 <= j < split_lines(s)[i].len() ==> #[trigger] split_lines(
                s,
            )[i][j] != '\n',
    decreases s.len(),
{
    if s.len() > 0 {
        let prev = split_lines(s.drop_last());
        lemma_split_lines_no_newline(s.drop_last());
        lemma_split_lines_nonempty(s.drop_last());
        let cur = split_lines(s);
        assert forall|i: int, j: int| 0 <= i < cur.len() && 0 <= j < cur[i].len() implies #[trigger] cur[i][j]
            != '\n' by {
            if s.last() == '\n' {
                if i < prev.len() {
                    assert(cur[i] == prev[i]);
                }
            } else {
                if i < prev.len() - 1 {
                    assert(cur[i] == prev[i]);
                } else {
                    assert(cur[i] == prev.last().push(s.last()));
                    if j < prev.last().len() {
                        assert(cur[i][j] == prev[prev.len() - 1][j]);
                    }
                }
            }
        }
    }
}

/// Each entry of `content_lines(s)` is non-empty, has no surrounding
/// whitespace, and lies within one line of `s`.
pub proof fn lemma_content_lines(s: Seq<char>)
    ensures
        forall|i: int|
            0 <= i < content_lines(s).len() ==> {
                let c = #[trigger] content_lines(s)[i];
                &&& c.len() > 0
                &&& trim(c) == c
                &&& forall|j: int| 0 <= j < c.len() ==> c[j] != '\n'
            },
{
    let lines = split_lines(s);
    let trimmed_lines = lines.map_values(|l: Seq<char>| trim(l));
    let pred = |l: Seq<char>| l.len() > 0;
    lemma_split_lines_no_newline(s);
    assert forall|i: int| 0 <= i < content_lines(s).len() implies {
        let c = #[trigger] content_lines(s)[i];
        &&& c.len() > 0
        &&& trim(c) == c
        &&& forall|j: int| 0 <= j < c.len() ==> c[j] != '\n'
    } by {
        let c = content_lines(s)[i];
        assert(trimmed_lines.filter(pred)[i] == c);
        trimmed_lines.lemma_filter_pred(pred, i);
        assert(trimmed_lines.filter(pred).contains(c));
        trimmed_lines.lemma_filter_contains_rev(pred, c);
        let k = choose|k: int| 0 <= k < trimmed_lines.len() && trimmed_lines[k] == c;
        let l = lines[k];
        assert(c == trim(l));
        lemma_trim_idempotent(l);
        let (a, b) = lemma_trim_cut(l);
        assert forall|j: int| 0 <= j < c.len() implies c[j] != '\n' by {
            assert(c[j] == l[a + j]);
            assert(split_lines(s)[k][a + j] != '\n');
        }
    }
}

/// Splitting at a newline: the pieces of `a + "\n" + b` are those of `a`
/// followed by those of `b`.
pub proof fn lemma_split_lines_concat(a: Seq<char>, b: Seq<char>)
    ensures
        split_lines(a + seq!['\n'] + b) == split_lines(a) + split_lines(b),
    decreases b.len(),
{
    let s = a + seq!['\n'] + b;
    if b.len() == 0 {
        assert(s.drop_last() =~= a);
        assert(split_lines(a).push(Seq::<char>::empty()) =~= split_lines(a) + split_lines(b));
    } else {
        let b0 = b.drop_last();
        lemma_split_lines_concat(a, b0);
        assert(s.drop_last() =~= a + seq!['\n'] + b0);
        lemma_split_lines_nonempty(b0);
        let pa = split_lines(a);
        let pb = split_lines(b0);
        if b.last() == '\n' {
            assert((pa + pb).push(Seq::<char>::empty()) =~= pa + pb.push(Seq::<char>::empty()));
        } else {
            let prev = pa + pb;
            assert(prev.last() == pb.last());
            assert(prev.update(prev.len() - 1, prev.last().push(b.last())) =~= pa + pb.update(
                pb.len() - 1,
                pb.last().push(b.last()),
            ));
        }
    }
}

/// A piece without newline is a single line.
pub proof fn lemma_split_lines_single(l: Seq<char>)
    requires
        forall|j: int| 0 <= j < l.len() ==> l[j] != '\n',
    ensures
        split_lines(l) == seq![l],
    decreases l.len(),
{
    if l.len() == 0 {
        assert(l =~= Seq::<char>::empty());
    } else {
        lemma_split_lines_single(l.drop_last());
        assert(l.drop_last().push(l.last()) =~= l);
        assert(seq![l.drop_last()].update(0, l.drop_last().push(l.last())) =~= seq![l]);
    }
}

/// Every non-blank line becomes one entry, trimmed, with no cap on their
/// number: the content lines of two texts joined by a newline are those of
/// the first followed by those of the second, and a single line gives itself,
/// trimmed, unless it is blank.
pub proof fn lemma_content_lines_per_line(a: Seq<char>, b: Seq<char>, l: Seq<char>)
    requires
        forall|j: int| 0 <= j < l.len() ==> l[j] != '\n',
    ensures
        content_lines(a + seq!['\n'] + b) == content_lines(a) + content_lines(b),
        !is_blank(l) ==> content_lines(l) == seq![trim(l)],
        is_blank(l) ==> content_lines(l).len() == 0,
{
    lemma_split_lines_concat(a, b);
    let f = |x: Seq<char>| trim(x);
    let pred = |x: Seq<char>| x.len() > 0;
    let sa = split_lines(a);
    let sb = split_lines(b);
    assert((sa + sb).map_values(f) =~= sa.map_values(f) + sb.map_values(f));
    Seq::filter_distributes_over_add(sa.map_values(f), sb.map_values(f), pred);
    lemma_split_lines_single(l);
    let one = seq![l].map_values(f);
    assert(one =~= seq![trim(l)]);
    reveal_with_fuel(Seq::filter, 2);
    assert(one.drop_last() =~= Seq::<Seq<char>>::empty());
    if !is_blank(l) {
        assert(one.filter(pred) =~= seq![trim(l)]);
    } else {
        assert(one.filter(pred) =~= Seq::<Seq<char>>::empty());
    }
}

/// The views of a sequence of strings.
pub open spec fn views(v: Seq<String>) -> Seq<Seq<char>> {
    v.map_values(|x: String| x@)
}

proof fn lemma_map_filter_push(done: Seq<Seq<char>>, line: Seq<char>)
    ensures
        non_blank(done.push(line)) == if trim(line).len() > 0 {
            non_blank(done).push(trim(line))
        } else {
            non_blank(done)
        },
{
    let f = |l: Seq<char>| trim(l);
    let p = |l: Seq<char>| l.len() > 0;
    done.lemma_push_map_commute(f, line);
    done.map_values(f).lemma_filter_push(f(line), p);
}

proof fn lemma_views_push(v: Seq<String>, x: String)
    ensures
        views(v.push(x)) == views(v).push(x@),
{
    v.lemma_push_map_commute(|x: String| x@, x);
}

/// The non-blank lines of `s`, each with its surrounding whitespace removed.
pub fn non_blank_lines(s: &str) -> (r: Vec<String>)
    ensures
        views(r@) == content_lines(s@),
{
    let v = chars_of(s);
    let n = v.len();
    let mut r: Vec<String> = Vec::new();
    let mut start: usize = 0;
    let ghost mut done: Seq<Seq<char>> = Seq::empty();
    assert(v@.take(0) =~= Seq::<char>::empty());
    assert(split_lines(v@.take(0)) =~= done.push(v@.subrange(0, 0)));
    for k in 0..n
        invariant
            n == v@.len(),
            v@ == s@,
            start <= k,
            split_lines(v@.take(k as int)) == done.push(v@.subrange(start as int, k as int)),
            views(r@) == non_blank(done),
    {
        let ghost line = v@.subrange(start as int, k as int);
        let ghost prev = split_lines(v@.take(k as int));
        assert(v@.take(k + 1).drop_last() =~= v@.take(k as int));
        assert(v@.take(k + 1).last() == v@[k as int]);
        if v[k] == '\n' {
            let (a, b) = trim_bounds(&v, start, k);
            proof {
                lemma_map_filter_push(done, line);
            }
            if a < b {
                let piece = substring(s, a, b);
                proof {
                    lemma_views_push(r@, piece);
                }
                r.push(piece);
            }
            proof {
                done = done.push(line);
                assert(split_lines(v@.take(k + 1)) == prev.push(Seq::<char>::empty()));
                assert(v@.subrange(k + 1, k + 1) =~= Seq::<char>::empty());
            }
            start = k + 1;
        } else {
            proof {
                assert(v@.subrange(start as int, k + 1) =~= line.push(v@[k as int]));
                assert(split_lines(v@.take(k + 1)) =~= done.push(
                    v@.subrange(start as int, k + 1),
                ));
            }
        }
    }
    let ghost line = v@.subrange(start as int, n as int);
    assert(v@.take(n as int) =~= v@);
    let (a, b) = trim_bounds(&v, start, n);
    proof {
        lemma_map_filter_push(done, line);
    }
    if a < b {
        let piece = substring(s, a, b);
        proof {
            lemma_views_push(r@, piece);
        }
        r.push(piece);
    }
    r
}

// ── Prefixes ──────────────────────────────────────────────────────────────────

/// The first `max` characters of `s`, or all of `s` when it is shorter.
pub open spec fn prefix_chars(s: Seq<char>, max: nat) -> Seq<char> {
    if s.len() > max {
        s.take(max as int)
    } else {
        s
    }
}

// ── Decimal rendering ─────────────────────────────────────────────────────────

/// The character of decimal digit `d`.
pub open spec fn digit_char(d: nat) -> char {
    if d == 0 {
        '0'
    } else if d == 1 {
        '1'
    } else if d == 2 {
        '2'
    } else if d == 3 {
        '3'
    } else if d == 4 {
        '4'
    } else if d == 5 {
        '5'
    } else if d == 6 {
        '6'
    } else if d == 7 {
        '7'
    } else if d == 8 {
        '8'
    } else {
        '9'
    }
}

/// The decimal representation of `n`, without leading zeros (as `{}` prints it).
pub open spec fn decimal(n: nat) -> Seq<char>
    decreases n,
{
    if n < 10 {
        seq![digit_char(n)]
    } else {
        decimal(n / 10).push(digit_char(n % 10))
    }
}

/// `decimal(n)` left-padded with `'0'` to at least `width` characters (as `{:0w}` prints it).
pub open spec fn zero_padded(n: nat, width: nat) -> Seq<char> {
    let d = decimal(n);
    if d.len() < width {
        Seq::new((width - d.len()) as nat, |i: int| '0') + d
    } else {
        d
    }
}

pub proof fn lemma_decimal_len_small(n: nat)
    ensures
        n < 10 ==> decimal(n).len() == 1,
        10 <= n < 100 ==> decimal(n).len() == 2,
        100 <= n < 1000 ==> decimal(n).len() == 3,
        n >= 1000 ==> decimal(n).len() >= 4,
    decreases n,
{
    if n >= 10 {
        lemma_decimal_len_small(n / 10);
    }
}

proof fn lemma_digit_char_injective(a: nat, b: nat)
    requires
        a < 10,
        b < 10,
        digit_char(a) == digit_char(b),
    ensures
        a == b,
{
}

/// A decimal representation starts with `'0'` only for zero itself.
pub proof fn lemma_decimal_leading_digit(n: nat)
    ensures
        decimal(n).len() >= 1,
        decimal(n)[0] == '0' <==> n == 0,
    decreases n,
{
    if n >= 10 {
        lemma_decimal_leading_digit(n / 10);
        assert(decimal(n)[0] == decimal(n / 10)[0]);
    }
}

/// Different numbers have different decimal representations.
pub proof fn lemma_decimal_injective(a: nat, b: nat)
    requires
        decimal(a) == decimal(b),
    ensures
        a == b,
    decreases a,
{
    lemma_decimal_len_small(a);
    lemma_decimal_len_small(b);
    if a < 10 && b < 10 {
        assert(decimal(a) == seq![digit_char(a)]);
        assert(decimal(b) == seq![digit_char(b)]);
        assert(decimal(a)[0] == digit_char(a));
        assert(decimal(b)[0] == digit_char(b));
        lemma_digit_char_injective(a, b);
    } else if a >= 10 && b >= 10 {
        assert(decimal(a) == decimal(a / 10).push(digit_char(a % 10)));
        assert(decimal(b) == decimal(b / 10).push(digit_char(b % 10)));
        assert(decimal(a).last() == digit_char(a % 10));
        assert(decimal(b).last() == digit_char(b % 10));
        lemma_digit_char_injective(a % 10, b % 10);
        assert(decimal(a).drop_last() =~= decimal(a / 10));
        assert(decimal(b).drop_last() =~= decimal(b / 10));
        lemma_decimal_injective(a / 10, b / 10);
    }
}

/// Different numbers have different three-digit zero-padded representations.
pub proof fn lemma_zero_padded3_injective(a: nat, b: nat)
    requires
        zero_padded(a, 3) == zero_padded(b, 3),
    ensures
        a == b,
{
    lemma_decimal_len_small(a);
    lemma_decimal_len_small(b);
    lemma_decimal_leading_digit(a);
    lemma_decimal_leading_digit(b);
    let da = decimal(a);
    let db = decimal(b);
    let za = zero_padded(a, 3);
    let zb = zero_padded(b, 3);
    if da.len() >= 3 && db.len() >= 3 {
        lemma_decimal_injective(a, b);
    } else if da.len() < 3 && db.len() < 3 {
        if da.len() == db.len() {
            assert(za.subrange(3 - da.len(), 3) =~= da);
            assert(zb.subrange(3 - db.len(), 3) =~= db);
            lemma_decimal_injective(a, b);
        } else if da.len() < db.len() {
            assert(zb[3 - db.len()] == db[0]);
            assert(za[3 - db.len()] == '0');
        } else {
            assert(za[3 - da.len()] == da[0]);
            assert(zb[3 - da.len()] == '0');
        }
    } else if da.len() < 3 {
        assert(za[0] == '0');
        assert(zb[0] == db[0]);
    } else {
        assert(zb[0] == '0');
        assert(za[0] == da[0]);
    }
}

/// The one-character string of decimal digit `d`.
fn digit_str(d: u8) -> (r: &'static str)
    requires
        d < 10,
    ensures
        r@ == seq![digit_char(d as nat)],
{
    if d == 0 {
        proof { reveal_strlit("0"); }
        "0"
    } else if d == 1 {
        proof { reveal_strlit("1"); }
        "1"
    } else if d == 2 {
        proof { reveal_strlit("2"); }
        "2"
    } else if d == 3 {
        proof { reveal_strlit("3"); }
        "3"
    } else if d == 4 {
        proof { reveal_strlit("4"); }
        "4"
    } else if d == 5 {
        proof { reveal_strlit("5"); }
        "5"
    } else if d == 6 {
        proof { reveal_strlit("6"); }
        "6"
    } else if d == 7 {
        proof { reveal_strlit("7"); }
        "7"
    } else if d == 8 {
        proof { reveal_strlit("8"); }
        "8"
    } else {
        proof { reveal_strlit("9"); }
        "9"
    }
}

/// Appends the decimal representation of `n` to `out`.
pub fn append_decimal(out: &mut String, n: u128)
    ensures
        final(out)@ == old(out)@ + decimal(n as nat),
    decreases n,
{
    if n >= 10 {
        append_decimal(out, n / 10);
    }
    let d = (n % 10) as u8;
    out.append(digit_str(d));
    assert(final(out)@ =~= old(out)@ + decimal(n as nat));
}

/// Appends `n` in decimal, left-padded with zeros to at least three digits.
pub fn append_zero_padded3(out: &mut String, n: u128)
    ensures
        final(out)@ == old(out)@ + zero_padded(n as nat, 3),
{
    proof {
        lemma_decimal_len_small(n as nat);
        reveal_strlit("00");
        reveal_strlit("0");
    }
    if n < 10 {
        out.append("00");
    } else if n < 100 {
        out.append("0");
    }
    append_decimal(out, n);
    assert(final(out)@ =~= old(out)@ + zero_padded(n as nat, 3));
}

/// `n` in decimal, as a string.
pub fn decimal_string(n: u128) -> (r: String)
    ensures
        r@ == decimal(n as nat),
{
    let mut out = String::new();
    append_decimal(&mut out, n);
    assert(out@ =~= decimal(n as nat));
    out
}

} // verus!
