//! Character-level string helpers with exact specifications.
use vstd::prelude::*;

verus! {

/// `String::push` appends one character.
pub assume_specification[ String::push ](s: &mut String, ch: char)
    ensures
        final(s)@ == old(s)@.push(ch),
;

/// The characters of a string slice, in order.
pub fn chars_of(s: &str) -> (r: Vec<char>)
    ensures
        r@ == s@,
{
    let mut r: Vec<char> = Vec::new();
    for c in it: s.chars()
        invariant
            r@ == it.seq().take(it.index() as int),
            it.seq() == s@,
    {
        r.push(c);
    }
    r
}

/// A string holding the given characters.
pub fn string_of(cs: &Vec<char>) -> (r: String)
    ensures
        r@ == cs@,
{
    let mut r = String::new();
    let mut i: usize = 0;
    while i < cs.len()
        invariant
            i <= cs.len(),
            r@ == cs@.take(i as int),
        decreases cs.len() - i,
    {
        r.push(cs[i]);
        assert(cs@.take(i + 1) =~= cs@.take(i as int).push(cs@[i as int]));
        i += 1;
    }
    assert(cs@.take(cs.len() as int) =~= cs@);
    r
}

} // verus!

verus! {

/// `p` occurs at the very start of `s`.
pub open spec fn starts_with(s: Seq<char>, p: Seq<char>) -> bool {
    p.len() <= s.len() && s.take(p.len() as int) == p
}

/// Splitting `s` on a non-empty pattern `p`, left to right, without overlaps;
/// `cur` is the piece collected so far.
pub open spec fn split_from(s: Seq<char>, p: Seq<char>, cur: Seq<char>) -> Seq<Seq<char>>
    decreases s.len(),
{
    if s.len() == 0 {
        seq![cur]
    } else if p.len() > 0 && starts_with(s, p) {
        seq![cur] + split_from(s.skip(p.len() as int), p, Seq::empty())
    } else {
        split_from(s.drop_first(), p, cur.push(s[0]))
    }
}

/// The pieces of `s` between the occurrences of `p` (as `str::split` gives them).
pub open spec fn split(s: Seq<char>, p: Seq<char>) -> Seq<Seq<char>> {
    split_from(s, p, Seq::empty())
}

/// The views of a vector of character vectors.
pub open spec fn pieces(v: Seq<Vec<char>>) -> Seq<Seq<char>> {
    v.map_values(|x: Vec<char>| x@)
}

/// Whether `p` occurs in `s` at position `i`.
pub fn matches_at(s: &Vec<char>, i: usize, p: &Vec<char>) -> (r: bool)
    requires
        i <= s.len(),
    ensures
        r == starts_with(s@.skip(i as int), p@),
{
    if p.len() > s.len() - i {
        return false;
    }
    let mut j: usize = 0;
    while j < p.len()
        invariant
            j <= p.len(),
            p.len() <= s.len() - i,
            forall|k: int| 0 <= k < j ==> s@[i + k] == p@[k],
        decreases p.len() - j,
    {
        if s[i + j] != p[j] {
            assert(s@.skip(i as int).take(p.len() as int)[j as int] != p@[j as int]);
            return false;
        }
        j += 1;
    }
    assert(s@.skip(i as int).take(p.len() as int) =~= p@);
    true
}

/// Splits `s` on the non-empty pattern `p`.
pub fn split_chars(s: &Vec<char>, p: &Vec<char>) -> (r: Vec<Vec<char>>)
    requires
        p.len() > 0,
    ensures
        pieces(r@) == split(s@, p@),
{
    let mut out: Vec<Vec<char>> = Vec::new();
    let mut cur: Vec<char> = Vec::new();
    let mut i: usize = 0;
    assert(s@.skip(0) =~= s@);
    while i < s.len()
        invariant
            i <= s.len(),
            p.len() > 0,
            pieces(out@) + split_from(s@.skip(i as int), p@, cur@) == split(s@, p@),
        decreases s.len() - i,
    {
        let ghost rest = s@.skip(i as int);
        if matches_at(s, i, p) {
            assert(rest.skip(p.len() as int) =~= s@.skip(i + p.len()));
            assert(pieces(out@.push(cur)) =~= pieces(out@) + seq![cur@]);
            out.push(cur);
            cur = Vec::new();
            i = i + p.len();
        } else {
            assert(rest.drop_first() =~= s@.skip(i + 1));
            assert(rest[0] == s@[i as int]);
            cur.push(s[i]);
            i = i + 1;
        }
    }
    assert(s@.skip(i as int) =~= Seq::<char>::empty());
    assert(pieces(out@.push(cur)) =~= pieces(out@) + seq![cur@]);
    out.push(cur);
    out
}

} // verus!

verus! {

/// The characters that `char::is_whitespace` accepts (Unicode `White_Space`).
pub open spec fn is_whitespace(c: char) -> bool {
    ||| c == '\t'
    ||| c == '\n'
    ||| c == '\u{0B}'
    ||| c == '\u{0C}'
    ||| c == '\r'
    ||| c == ' '
    ||| c == '\u{85}'
    ||| c == '\u{A0}'
    ||| c == '\u{1680}'
    ||| ('\u{2000}' <= c && c <= '\u{200A}')
    ||| c == '\u{2028}'
    ||| c == '\u{2029}'
    ||| c == '\u{202F}'
    ||| c == '\u{205F}'
    ||| c == '\u{3000}'
}

/// Exec test for [`is_whitespace`].
pub fn char_is_whitespace(c: char) -> (r: bool)
    ensures
        r == is_whitespace(c),
{
    c == '\t' || c == '\n' || c == '\u{0B}' || c == '\u{0C}' || c == '\r' || c == ' '
        || c == '\u{85}' || c == '\u{A0}' || c == '\u{1680}' || ('\u{2000}' <= c && c
        <= '\u{200A}') || c == '\u{2028}' || c == '\u{2029}' || c == '\u{202F}' || c
        == '\u{205F}' || c == '\u{3000}'
}

/// `s` without its trailing whitespace.
pub open spec fn trim_end(s: Seq<char>) -> Seq<char>
    decreases s.len(),
{
    if s.len() > 0 && is_whitespace(s.last()) {
        trim_end(s.drop_last())
    } else {
        s
    }
}

/// `s` without its leading whitespace.
pub open spec fn trim_start(s: Seq<char>) -> Seq<char>
    decreases s.len(),
{
    if s.len() > 0 && is_whitespace(s[0]) {
        trim_start(s.drop_first())
    } else {
        s
    }
}

/// `s` without leading and trailing whitespace (as `str::trim` gives it).
pub open spec fn trim(s: Seq<char>) -> Seq<char> {
    trim_start(trim_end(s))
}

/// `s` without leading and trailing whitespace.
pub fn trim_chars(s: &Vec<char>) -> (r: Vec<char>)
    ensures
        r@ == trim(s@),
{
    let mut j: usize = s.len();
    assert(s@.take(j as int) =~= s@);
    while j > 0 && char_is_whitespace(s[j - 1])
        invariant
            j <= s.len(),
            trim_end(s@) == trim_end(s@.take(j as int)),
        decreases j,
    {
        assert(s@.take(j as int).drop_last() =~= s@.take(j - 1));
        j -= 1;
    }
    let mut i: usize = 0;
    assert(s@.subrange(0, j as int) =~= s@.take(j as int));
    while i < j && char_is_whitespace(s[i])
        invariant
            i <= j <= s.len(),
            trim_start(trim_end(s@)) == trim_start(s@.subrange(i as int, j as int)),
        decreases j - i,
    {
        assert(s@.subrange(i as int, j as int).drop_first() =~= s@.subrange(i + 1, j as int));
        i += 1;
    }
    let mut r: Vec<char> = Vec::new();
    let mut k: usize = i;
    while k < j
        invariant
            i <= k <= j <= s.len(),
            r@ == s@.subrange(i as int, k as int),
        decreases j - k,
    {
        r.push(s[k]);
        assert(s@.subrange(i as int, k + 1) =~= s@.subrange(i as int, k as int).push(s@[k as int]));
        k += 1;
    }
    r
}

/// `s` with every occurrence of the non-empty pattern `p` (left to right,
/// without overlaps) replaced by `to`, as `str::replace` does.
pub open spec fn replace(s: Seq<char>, p: Seq<char>, to: Seq<char>) -> Seq<char>
    decreases s.len(),
{
    if s.len() == 0 {
        Seq::empty()
    } else if p.len() > 0 && starts_with(s, p) {
        to + replace(s.skip(p.len() as int), p, to)
    } else {
        seq![s[0]] + replace(s.drop_first(), p, to)
    }
}

/// Replaces every occurrence of the non-empty pattern `p` in `s` by `to`.
pub fn replace_chars(s: &Vec<char>, p: &Vec<char>, to: &Vec<char>) -> (r: Vec<char>)
    requires
        p.len() > 0,
    ensures
        r@ == replace(s@, p@, to@),
{
    let mut out: Vec<char> = Vec::new();
    let mut i: usize = 0;
    assert(s@.skip(0) =~= s@);
    while i < s.len()
        invariant
            i <= s.len(),
            p.len() > 0,
            out@ + replace(s@.skip(i as int), p@, to@) == replace(s@, p@, to@),
        decreases s.len() - i,
    {
        let ghost rest = s@.skip(i as int);
        let ghost before = out@;
        if matches_at(s, i, p) {
            assert(rest.skip(p.len() as int) =~= s@.skip(i + p.len()));
            let mut k: usize = 0;
            while k < to.len()
                invariant
                    k <= to.len(),
                    out@ == before + to@.take(k as int),
                decreases to.len() - k,
            {
                out.push(to[k]);
                assert(to@.take(k + 1) =~= to@.take(k as int).push(to@[k as int]));
                k += 1;
            }
            assert(to@.take(to.len() as int) =~= to@);
            assert(before + (to@ + replace(s@.skip(i + p.len()), p@, to@)) =~= out@ + replace(
                s@.skip(i + p.len()),
                p@,
                to@,
            ));
            i = i + p.len();
        } else {
            assert(rest.drop_first() =~= s@.skip(i + 1));
            assert(rest[0] == s@[i as int]);
            out.push(s[i]);
            assert(before + (seq![s@[i as int]] + replace(s@.skip(i + 1), p@, to@)) =~= out@
                + replace(s@.skip(i + 1), p@, to@));
            i = i + 1;
        }
    }
    assert(s@.skip(i as int) =~= Seq::<char>::empty());
    assert(out@ + Seq::<char>::empty() =~= out@);
    out
}

/// The decimal digit for `d < 10`.
pub open spec fn digit_char(d: nat) -> char {
    if d == 0 { '0' }
    else if d == 1 { '1' }
    else if d == 2 { '2' }
    else if d == 3 { '3' }
    else if d == 4 { '4' }
    else if d == 5 { '5' }
    else if d == 6 { '6' }
    else if d == 7 { '7' }
    else if d == 8 { '8' }
    else { '9' }
}

/// The decimal notation of `n`, without leading zeros.
pub open spec fn decimal(n: nat) -> Seq<char>
    decreases n,
{
    if n < 10 {
        seq![digit_char(n)]
    } else {
        decimal(n / 10).push(digit_char(n % 10))
    }
}

fn digit(d: usize) -> (c: char)
    requires
        d < 10,
    ensures
        c == digit_char(d as nat),
{
    if d == 0 { '0' }
    else if d == 1 { '1' }
    else if d == 2 { '2' }
    else if d == 3 { '3' }
    else if d == 4 { '4' }
    else if d == 5 { '5' }
    else if d == 6 { '6' }
    else if d == 7 { '7' }
    else if d == 8 { '8' }
    else { '9' }
}

/// The decimal notation of `n` (as `format!("{}", n)` writes it).
pub fn decimal_chars(n: usize) -> (r: Vec<char>)
    ensures
        r@ == decimal(n as nat),
{
    let mut m: usize = n;
    let mut rev: Vec<char> = Vec::new();
    while m >= 10
        invariant
            decimal(n as nat) == decimal(m as nat) + rev@.reverse(),
        decreases m,
    {
        let ghost old_rev = rev@;
        rev.push(digit(m % 10));
        assert(rev@.reverse() =~= seq![digit_char((m % 10) as nat)] + old_rev.reverse());
        assert(decimal(m as nat) == decimal((m / 10) as nat).push(digit_char((m % 10) as nat)));
        assert(decimal((m / 10) as nat).push(digit_char((m % 10) as nat)) + old_rev.reverse()
            =~= decimal((m / 10) as nat) + rev@.reverse());
        m = m / 10;
    }
    let mut r: Vec<char> = Vec::new();
    r.push(digit(m));
    let mut k: usize = rev.len();
    while k > 0
        invariant
            k <= rev.len(),
            r@ == seq![digit_char(m as nat)] + rev@.subrange(k as int, rev.len() as int).reverse(),
        decreases k,
    {
        k -= 1;
        let ghost before = r@;
        r.push(rev[k]);
        assert(rev@.subrange(k as int, rev.len() as int).reverse() =~= rev@.subrange(
            k + 1,
            rev.len() as int,
        ).reverse().push(rev@[k as int]));
    }
    assert(rev@.subrange(0, rev.len() as int) =~= rev@);
    r
}

} // verus!

verus! {

/// Whether two character vectors hold the same characters.
pub fn chars_eq(a: &Vec<char>, b: &Vec<char>) -> (r: bool)
    ensures
        r == (a@ == b@),
{
    if a.len() != b.len() {
        return false;
    }
    let mut i: usize = 0;
    while i < a.len()
        invariant
            i <= a.len(),
            a.len() == b.len(),
            forall|k: int| 0 <= k < i ==> a@[k] == b@[k],
        decreases a.len() - i,
    {
        if a[i] != b[i] {
            return false;
        }
        i += 1;
    }
    assert(a@ =~= b@);
    true
}

/// `s` without one trailing `c`, if it ends with one (as `str::strip_suffix` with
/// `unwrap_or` gives it).
pub open spec fn strip_suffix(s: Seq<char>, c: char) -> Seq<char> {
    if s.len() > 0 && s.last() == c {
        s.drop_last()
    } else {
        s
    }
}

/// `s` without one leading `c`, if it starts with one.
pub open spec fn strip_prefix(s: Seq<char>, c: char) -> Seq<char> {
    if s.len() > 0 && s[0] == c {
        s.drop_first()
    } else {
        s
    }
}

/// The characters of `s` from `from` (inclusive) to `to` (exclusive).
pub fn sub_chars(s: &Vec<char>, from: usize, to: usize) -> (r: Vec<char>)
    requires
        from <= to <= s.len(),
    ensures
        r@ == s@.subrange(from as int, to as int),
{
    let mut r: Vec<char> = Vec::new();
    let mut k: usize = from;
    while k < to
        invariant
            from <= k <= to <= s.len(),
            r@ == s@.subrange(from as int, k as int),
        decreases to - k,
    {
        r.push(s[k]);
        assert(s@.subrange(from as int, k + 1) =~= s@.subrange(from as int, k as int).push(
            s@[k as int],
        ));
        k += 1;
    }
    r
}

/// `s` with one trailing `c` removed, if present.
pub fn strip_suffix_chars(s: &Vec<char>, c: char) -> (r: Vec<char>)
    ensures
        r@ == strip_suffix(s@, c),
{
    if s.len() > 0 && s[s.len() - 1] == c {
        sub_chars(s, 0, s.len() - 1)
    } else {
        sub_chars(s, 0, s.len())
    }
}

/// `s` with one leading `c` removed, if present.
pub fn strip_prefix_chars(s: &Vec<char>, c: char) -> (r: Vec<char>)
    ensures
        r@ == strip_prefix(s@, c),
{
    if s.len() > 0 && s[0] == c {
        sub_chars(s, 1, s.len())
    } else {
        sub_chars(s, 0, s.len())
    }
}

} // verus!

verus! {

/// Splitting never gives an empty list of pieces.
pub proof fn lemma_split_nonempty(s: Seq<char>, p: Seq<char>, cur: Seq<char>)
    ensures
        split_from(s, p, cur).len() >= 1,
    decreases s.len(),
{
    if s.len() == 0 {
    } else if p.len() > 0 && starts_with(s, p) {
        lemma_split_nonempty(s.skip(p.len() as int), p, Seq::empty());
    } else {
        lemma_split_nonempty(s.drop_first(), p, cur.push(s[0]));
    }
}

} // verus!

verus! {

/// No occurrence of `p` starts inside `a` when `a` is followed by `b`.
pub open spec fn no_match_within(a: Seq<char>, b: Seq<char>, p: Seq<char>) -> bool {
    forall|k: int| 0 <= k < a.len() ==> !#[trigger] starts_with((a + b).skip(k), p)
}

/// `c` does not occur in `s`.
pub open spec fn free_of(s: Seq<char>, c: char) -> bool {
    forall|i: int| 0 <= i < s.len() ==> #[trigger] s[i] != c
}

/// Text in which no occurrence of the pattern starts joins the current piece.
pub proof fn lemma_split_no_match(a: Seq<char>, b: Seq<char>, p: Seq<char>, cur: Seq<char>)
    requires
        p.len() > 0,
        no_match_within(a, b, p),
    ensures
        split_from(a + b, p, cur) == split_from(b, p, cur + a),
    decreases a.len(),
{
    if a.len() == 0 {
        assert(a + b =~= b);
        assert(cur + a =~= cur);
    } else {
        let s = a + b;
        assert(s.skip(0) =~= s);
        assert(!starts_with(s, p));
        assert(s.drop_first() =~= a.drop_first() + b);
        assert(s[0] == a[0]);
        assert forall|k: int| 0 <= k < a.drop_first().len() implies !#[trigger] starts_with(
            (a.drop_first() + b).skip(k),
            p,
        ) by {
            assert((a.drop_first() + b).skip(k) =~= (a + b).skip(k + 1));
        }
        lemma_split_no_match(a.drop_first(), b, p, cur.push(a[0]));
        assert(cur.push(a[0]) + a.drop_first() =~= cur + a);
    }
}

/// Text whose first character differs from the pattern's first character
/// holds no occurrence of it.
pub proof fn lemma_no_match_free(a: Seq<char>, b: Seq<char>, p: Seq<char>)
    requires
        p.len() > 0,
        free_of(a, p[0]),
    ensures
        no_match_within(a, b, p),
{
    assert forall|k: int| 0 <= k < a.len() implies !#[trigger] starts_with((a + b).skip(k), p) by {
        if starts_with((a + b).skip(k), p) {
            assert((a + b).skip(k).take(p.len() as int)[0] == (a + b)[k]);
            assert((a + b)[k] == a[k]);
        }
    }
}

/// An occurrence of the pattern at the start closes the current piece.
pub proof fn lemma_split_match(p: Seq<char>, b: Seq<char>, cur: Seq<char>)
    requires
        p.len() > 0,
    ensures
        split_from(p + b, p, cur) == seq![cur] + split_from(b, p, Seq::empty()),
{
    let s = p + b;
    assert(s.take(p.len() as int) =~= p);
    assert(s.skip(p.len() as int) =~= b);
}

/// Splitting text free of the pattern's first character gives one piece.
pub proof fn lemma_split_free(a: Seq<char>, p: Seq<char>, cur: Seq<char>)
    requires
        p.len() > 0,
        free_of(a, p[0]),
    ensures
        split_from(a, p, cur) == seq![cur + a],
{
    lemma_no_match_free(a, Seq::empty(), p);
    lemma_split_no_match(a, Seq::empty(), p, cur);
    assert(a + Seq::<char>::empty() =~= a);
}

/// Text free of `p[0]`, then `p`, then the rest: the text is the first piece.
pub proof fn lemma_split_piece(a: Seq<char>, p: Seq<char>, b: Seq<char>)
    requires
        p.len() > 0,
        free_of(a, p[0]),
    ensures
        split(a + p + b, p) == seq![a] + split(b, p),
{
    lemma_no_match_free(a, p + b, p);
    lemma_split_no_match(a, p + b, p, Seq::empty());
    assert(a + p + b =~= a + (p + b));
    lemma_split_match(p, b, Seq::<char>::empty() + a);
    assert(Seq::<char>::empty() + a =~= a);
}

/// The lines `xs`, each followed by `c`.
pub open spec fn terminated(xs: Seq<Seq<char>>, c: char) -> Seq<char>
    decreases xs.len(),
{
    if xs.len() == 0 {
        Seq::empty()
    } else {
        terminated(xs.drop_last(), c) + xs.last().push(c)
    }
}

/// The lines `xs` separated by `c` (no separator after the last).
pub open spec fn separated(xs: Seq<Seq<char>>, c: char) -> Seq<char> {
    if xs.len() == 0 {
        Seq::empty()
    } else {
        terminated(xs.drop_last(), c) + xs.last()
    }
}

/// `terminated` seen from the front.
pub proof fn lemma_terminated_front(xs: Seq<Seq<char>>, c: char)
    requires
        xs.len() > 0,
    ensures
        terminated(xs, c) == xs[0].push(c) + terminated(xs.drop_first(), c),
    decreases xs.len(),
{
    if xs.len() == 1 {
        assert(xs.drop_last() =~= Seq::<Seq<char>>::empty());
        assert(xs.drop_first() =~= Seq::<Seq<char>>::empty());
        assert(terminated(xs.drop_first(), c) =~= Seq::<char>::empty());
        assert(xs[0].push(c) + Seq::<char>::empty() =~= xs[0].push(c));
        assert(Seq::<char>::empty() + xs.last().push(c) =~= xs.last().push(c));
    } else {
        lemma_terminated_front(xs.drop_last(), c);
        assert(xs.drop_last().drop_first() =~= xs.drop_first().drop_last());
        assert(xs.drop_first().last() == xs.last());
        assert(xs.drop_last()[0] == xs[0]);
        assert(xs[0].push(c) + terminated(xs.drop_first().drop_last(), c) + xs.last().push(c)
            =~= xs[0].push(c) + (terminated(xs.drop_first().drop_last(), c) + xs.last().push(c)));
    }
}

/// Lines free of `c`, each followed by `c`, then the rest: splitting on `c`
/// gives the lines back first.
pub proof fn lemma_split_terminated(xs: Seq<Seq<char>>, c: char, r: Seq<char>)
    requires
        forall|i: int| 0 <= i < xs.len() ==> free_of(#[trigger] xs[i], c),
    ensures
        split(terminated(xs, c) + r, seq![c]) == xs + split(r, seq![c]),
    decreases xs.len(),
{
    if xs.len() == 0 {
        assert(terminated(xs, c) + r =~= r);
        assert(xs + split(r, seq![c]) =~= split(r, seq![c]));
    } else {
        lemma_terminated_front(xs, c);
        let rest = terminated(xs.drop_first(), c) + r;
        assert(terminated(xs, c) + r =~= xs[0] + seq![c] + rest);
        assert(free_of(xs[0], seq![c][0]));
        lemma_split_piece(xs[0], seq![c], rest);
        assert forall|i: int| 0 <= i < xs.drop_first().len() implies free_of(
            #[trigger] xs.drop_first()[i],
            c,
        ) by {
            assert(xs.drop_first()[i] == xs[i + 1]);
        }
        lemma_split_terminated(xs.drop_first(), c, r);
        assert(seq![xs[0]] + (xs.drop_first() + split(r, seq![c])) =~= xs + split(r, seq![c]));
    }
}

/// Lines free of `c` separated by `c`: splitting on `c` gives them back.
pub proof fn lemma_split_separated(xs: Seq<Seq<char>>, c: char)
    requires
        xs.len() > 0,
        forall|i: int| 0 <= i < xs.len() ==> free_of(#[trigger] xs[i], c),
    ensures
        split(separated(xs, c), seq![c]) == xs,
{
    assert forall|i: int| 0 <= i < xs.drop_last().len() implies free_of(
        #[trigger] xs.drop_last()[i],
        c,
    ) by {
        assert(xs.drop_last()[i] == xs[i]);
    }
    lemma_split_terminated(xs.drop_last(), c, xs.last());
    assert(free_of(xs.last(), seq![c][0]));
    lemma_split_free(xs.last(), seq![c], Seq::empty());
    assert(Seq::<char>::empty() + xs.last() =~= xs.last());
    assert(xs.drop_last() + seq![xs.last()] =~= xs);
}

/// Trimming `terminated` lines whose outer ends are not whitespace (and `c`
/// is) leaves them separated.
pub proof fn lemma_trim_terminated(xs: Seq<Seq<char>>, c: char)
    requires
        xs.len() > 0,
        is_whitespace(c),
        xs[0].len() > 0,
        !is_whitespace(xs[0][0]),
        xs.last().len() > 0,
        !is_whitespace(xs.last().last()),
    ensures
        trim(terminated(xs, c)) == separated(xs, c),
        separated(xs, c).len() > 0,
        separated(xs, c)[0] == xs[0][0],
        separated(xs, c).last() == xs.last().last(),
{
    let t = terminated(xs, c);
    let s = separated(xs, c);
    assert(t == s.push(c));
    assert(t.drop_last() =~= s);
    assert(s.len() > 0);
    assert(s.last() == xs.last().last());
    assert(trim_end(s) == s);
    assert(t.last() == c);
    assert(trim_end(t) == trim_end(t.drop_last()));
    assert(trim_end(t) == s);
    if xs.len() == 1 {
        assert(s =~= xs[0]);
    } else {
        lemma_terminated_front(xs.drop_last(), c);
        assert(xs.drop_last()[0] == xs[0]);
        assert(s[0] == xs[0][0]);
    }
}

} // verus!

verus! {

/// Text made of pieces free of `d` is free of `d`.
pub proof fn lemma_free_concat(a: Seq<char>, b: Seq<char>, d: char)
    requires
        free_of(a, d),
        free_of(b, d),
    ensures
        free_of(a + b, d),
{
    assert forall|i: int| 0 <= i < (a + b).len() implies #[trigger] (a + b)[i] != d by {
        if i >= a.len() {
            assert((a + b)[i] == b[i - a.len()]);
        }
    }
}

} // verus!

verus! {

/// No occurrence starts inside `a1 + a2` when none starts inside either part.
pub proof fn lemma_no_match_concat(a1: Seq<char>, a2: Seq<char>, b: Seq<char>, p: Seq<char>)
    requires
        no_match_within(a1, a2 + b, p),
        no_match_within(a2, b, p),
    ensures
        no_match_within(a1 + a2, b, p),
{
    assert forall|k: int| 0 <= k < (a1 + a2).len() implies !#[trigger] starts_with(
        (a1 + a2 + b).skip(k),
        p,
    ) by {
        if k < a1.len() {
            assert((a1 + a2 + b).skip(k) =~= (a1 + (a2 + b)).skip(k));
        } else {
            assert((a1 + a2 + b).skip(k) =~= (a2 + b).skip(k - a1.len()));
        }
    }
}

/// `##` followed by a character other than `#` holds no `###`.
pub proof fn lemma_no_triple_hash(c: char, b: Seq<char>)
    requires
        c != '#',
    ensures
        no_match_within(seq!['#', '#', c], b, seq!['#', '#', '#']),
{
    let a = seq!['#', '#', c];
    let p = seq!['#', '#', '#'];
    assert forall|k: int| 0 <= k < a.len() implies !#[trigger] starts_with((a + b).skip(k), p) by {
        if starts_with((a + b).skip(k), p) {
            let t = (a + b).skip(k).take(3);
            assert(t == p);
            if k == 0 {
                assert(t[2] == c);
            } else if k == 1 {
                assert(t[1] == c);
            } else {
                assert(t[0] == c);
            }
        }
    }
}

} // verus!

verus! {

/// No two neighbouring characters of `s` are both `c`.
pub open spec fn pair_free(s: Seq<char>, c: char) -> bool {
    forall|i: int, j: int|
        #![trigger s[i], s[j]]
        0 <= i && j == i + 1 && j < s.len() ==> !(s[i] == c && s[j] == c)
}

/// `a` and `b` do not meet in two `c`s.
pub open spec fn joins_apart(a: Seq<char>, b: Seq<char>, c: char) -> bool {
    !(a.len() > 0 && b.len() > 0 && a.last() == c && b[0] == c)
}

/// Two texts without pairs of `c`, that do not meet in two `c`s, make one
/// without pairs of `c`.
pub proof fn lemma_pair_free_concat(a: Seq<char>, b: Seq<char>, c: char)
    requires
        pair_free(a, c),
        pair_free(b, c),
        joins_apart(a, b, c),
    ensures
        pair_free(a + b, c),
{
    let s = a + b;
    assert forall|i: int, j: int|
        #![trigger s[i], s[j]]
        0 <= i && j == i + 1 && j < s.len() implies !(s[i] == c && s[j] == c) by {
        if j < a.len() {
            assert(s[i] == a[i] && s[j] == a[j]);
        } else if i >= a.len() {
            assert(s[i] == b[i - a.len()] && s[j] == b[j - a.len()]);
        } else {
            assert(s[i] == a.last());
            assert(s[j] == b[0]);
        }
    }
}

/// A pattern starting with two `c`s occurs nowhere inside `a` when `a` has no
/// pair of `c`s and does not meet what follows in two `c`s.
pub proof fn lemma_no_match_pair_free(a: Seq<char>, b: Seq<char>, p: Seq<char>, c: char)
    requires
        p.len() >= 2,
        p[0] == c,
        p[1] == c,
        pair_free(a, c),
        joins_apart(a, b, c),
    ensures
        no_match_within(a, b, p),
{
    assert forall|k: int| 0 <= k < a.len() implies !#[trigger] starts_with((a + b).skip(k), p) by {
        if starts_with((a + b).skip(k), p) {
            let t = (a + b).skip(k).take(p.len() as int);
            assert(t[0] == (a + b)[k]);
            assert(t[1] == (a + b)[k + 1]);
            if k + 1 < a.len() {
                assert((a + b)[k] == a[k] && (a + b)[k + 1] == a[k + 1]);
                assert(!(a[k] == c && a[k + 1] == c));
            } else {
                assert((a + b)[k] == a.last());
                assert((a + b)[k + 1] == b[0]);
            }
        }
    }
}

/// Lines without pairs of `c`, each followed by a separator other than `c`:
/// no pair of `c`s in the whole.
pub proof fn lemma_separated_pair_free(xs: Seq<Seq<char>>, sep: char, c: char)
    requires
        sep != c,
        forall|i: int| 0 <= i < xs.len() ==> pair_free(#[trigger] xs[i], c),
    ensures
        pair_free(terminated(xs, sep), c),
        pair_free(separated(xs, sep), c),
    decreases xs.len(),
{
    if xs.len() > 0 {
        assert forall|i: int| 0 <= i < xs.drop_last().len() implies pair_free(
            #[trigger] xs.drop_last()[i],
            c,
        ) by {
            assert(xs.drop_last()[i] == xs[i]);
        }
        lemma_separated_pair_free(xs.drop_last(), sep, c);
        let t = terminated(xs.drop_last(), sep);
        let l = xs.last();
        assert(pair_free(l, c));
        if t.len() > 0 {
            assert(t.last() == sep) by {
                assert(t == terminated(xs.drop_last().drop_last(), sep) + xs.drop_last().last().push(
                    sep,
                ));
            }
        }
        lemma_pair_free_concat(t, l, c);
        assert(pair_free(seq![sep], c));
        lemma_pair_free_concat(t + l, seq![sep], c);
        assert(t + l.push(sep) =~= t + l + seq![sep]);
    }
}

} // verus!

verus! {

/// The number that the decimal digits `s` stand for.
pub open spec fn digits_value(s: Seq<char>) -> int
    decreases s.len(),
{
    if s.len() == 0 {
        0
    } else {
        digits_value(s.drop_last()) * 10 + (s.last() as int - '0' as int)
    }
}

proof fn lemma_digit_char_value(d: nat)
    requires
        d < 10,
    ensures
        digit_char(d) as int - '0' as int == d,
        '0' <= digit_char(d) <= '9',
{
    assert('0' as int == 48 && '1' as int == 49 && '2' as int == 50 && '3' as int == 51 && '4' as int
        == 52 && '5' as int == 53 && '6' as int == 54 && '7' as int == 55 && '8' as int == 56
        && '9' as int == 57);
}

/// `decimal(n)` is the decimal notation of `n`: only the digits `0` to `9`,
/// no leading zero unless `n` is zero itself, and read back it is `n`.
pub proof fn lemma_decimal_reads_back(n: nat)
    ensures
        digits_value(decimal(n)) == n,
        decimal(n).len() > 0,
        forall|i: int| 0 <= i < decimal(n).len() ==> '0' <= #[trigger] decimal(n)[i] <= '9',
        n > 0 ==> decimal(n)[0] != '0',
    decreases n,
{
    if n < 10 {
        lemma_digit_char_value(n);
        assert(decimal(n).drop_last() =~= Seq::<char>::empty());
        assert(digits_value(Seq::<char>::empty()) == 0);
    } else {
        lemma_digit_char_value(n % 10);
        lemma_decimal_reads_back(n / 10);
        let d = decimal(n / 10);
        assert(decimal(n).drop_last() =~= d);
        assert(decimal(n).last() == digit_char(n % 10));
        assert(digits_value(decimal(n)) == digits_value(d) * 10 + (n % 10));
        assert((n / 10) * 10 + n % 10 == n);
        assert(decimal(n)[0] == d[0]);
        assert forall|i: int| 0 <= i < decimal(n).len() implies '0' <= #[trigger] decimal(n)[i]
            <= '9' by {
            if i < d.len() {
                assert(decimal(n)[i] == d[i]);
            }
        }
    }
}

} // verus!
