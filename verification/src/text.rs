//! Character-sequence utilities shared by the parser, the pipeline and the
//! renderer: conversions between `str` and `Vec<char>`, equality, splitting,
//! joining, trimming, and decimal rendering of numbers.

use vstd::prelude::*;

verus! {

/// Collects the characters of a string slice into a vector.
pub fn str_chars(s: &str) -> (r: Vec<char>)
    ensures
        r@ == s@,
{
    let n = s.unicode_len();
    let mut r: Vec<char> = Vec::new();
    let mut i: usize = 0;
    while i < n
        invariant
            i <= n,
            n == s@.len(),
            r@ == s@.subrange(0, i as int),
        decreases n - i,
    {
        r.push(s.get_char(i));
        i = i + 1;
        proof {
            assert(r@ =~= s@.subrange(0, i as int));
        }
    }
    proof {
        assert(r@ =~= s@);
    }
    r
}

/// Relies on `String`'s `FromIterator<char>` implementation: collecting
/// characters yields the string holding exactly those characters in order.
#[verifier::external_body]
pub fn chars_to_string(v: &Vec<char>) -> (r: String)
    ensures
        r@ == v@,
{
    v.iter().collect()
}

/// Whether two string slices hold the same characters.
pub fn str_eq(a: &str, b: &str) -> (r: bool)
    ensures
        r == (a@ == b@),
{
    let na = a.unicode_len();
    let nb = b.unicode_len();
    if na != nb {
        return false;
    }
    let mut i: usize = 0;
    while i < na
        invariant
            i <= na,
            na == a@.len(),
            na == b@.len(),
            forall|j: int| 0 <= j < i ==> a@[j] == b@[j],
        decreases na - i,
    {
        if a.get_char(i) != b.get_char(i) {
            return false;
        }
        i = i + 1;
    }
    proof {
        assert(a@ =~= b@);
    }
    true
}

/// The pieces of `s` between occurrences of the separator `sep`; always at
/// least one piece, and an occurrence at either end contributes an empty one.
pub open spec fn split_at(s: Seq<char>, sep: char) -> Seq<Seq<char>>
    decreases s.len(),
{
    if s.len() == 0 {
        seq![Seq::<char>::empty()]
    } else if s[0] == sep {
        seq![Seq::<char>::empty()] + split_at(s.drop_first(), sep)
    } else {
        let rest = split_at(s.drop_first(), sep);
        seq![seq![s[0]] + rest[0]] + rest.drop_first()
    }
}

pub proof fn lemma_split_at_len(s: Seq<char>, sep: char)
    ensures
        split_at(s, sep).len() >= 1,
    decreases s.len(),
{
    if s.len() != 0 {
        lemma_split_at_len(s.drop_first(), sep);
    }
}

/// `parts` with the first piece extended on the left by `prefix`.
pub open spec fn prepend_first(prefix: Seq<char>, parts: Seq<Seq<char>>) -> Seq<Seq<char>> {
    seq![prefix + parts[0]] + parts.drop_first()
}

/// Splits the characters of `s` on every occurrence of `sep`.
pub fn split_chars(s: &Vec<char>, sep: char) -> (r: Vec<Vec<char>>)
    ensures
        r.deep_view() == split_at(s@, sep),
        r.len() >= 1,
{
    let ghost whole = s@;
    let mut done: Vec<Vec<char>> = Vec::new();
    let mut cur: Vec<char> = Vec::new();
    let mut i: usize = 0;
    proof {
        assert(whole.subrange(0, whole.len() as int) =~= whole);
        assert(whole =~= whole.skip(0));
        lemma_split_at_len(whole.skip(0), sep);
    }
    while i < s.len()
        invariant
            i <= s.len(),
            whole == s@,
            split_at(whole.skip(i as int), sep).len() >= 1,
            split_at(whole, sep) == done.deep_view() + prepend_first(
                cur@,
                split_at(whole.skip(i as int), sep),
            ),
        decreases s.len() - i,
    {
        let ghost suffix = whole.skip(i as int);
        proof {
            assert(suffix.len() > 0);
            assert(suffix[0] == whole[i as int]);
            assert(suffix.drop_first() =~= whole.skip(i as int + 1));
            lemma_split_at_len(suffix.drop_first(), sep);
        }
        let c = s[i];
        if c == sep {
            proof {
                assert(split_at(suffix, sep) =~~= seq![Seq::<char>::empty()] + split_at(
                    suffix.drop_first(),
                    sep,
                ));
            }
            let ghost old_done = done.deep_view();
            let ghost old_cur = cur@;
            done.push(cur);
            cur = Vec::new();
            proof {
                assert(done.deep_view() =~~= old_done.push(old_cur));
                assert(prepend_first(old_cur, split_at(suffix, sep)) =~~= seq![old_cur]
                    + split_at(suffix.drop_first(), sep));
                assert(prepend_first(cur@, split_at(suffix.drop_first(), sep)) =~~= split_at(
                    suffix.drop_first(),
                    sep,
                ));
                assert(split_at(whole, sep) =~~= done.deep_view() + prepend_first(
                    cur@,
                    split_at(suffix.drop_first(), sep),
                ));
            }
        } else {
            let ghost old_cur = cur@;
            cur.push(c);
            proof {
                let rest = split_at(suffix.drop_first(), sep);
                assert(split_at(suffix, sep) =~~= seq![seq![suffix[0]] + rest[0]]
                    + rest.drop_first());
                assert(prepend_first(old_cur, split_at(suffix, sep)).len() == rest.len());
                assert(prepend_first(old_cur, split_at(suffix, sep)) =~~= prepend_first(
                    cur@,
                    rest,
                ));
            }
        }
        i = i + 1;
    }
    proof {
        let tail = whole.skip(i as int);
        assert(tail =~= Seq::<char>::empty());
        assert(split_at(tail, sep) =~~= seq![Seq::<char>::empty()]);
        assert(prepend_first(cur@, split_at(tail, sep)) =~~= seq![cur@]);
    }
    let ghost old_done = done.deep_view();
    let ghost last = cur@;
    done.push(cur);
    proof {
        assert(done.deep_view() =~~= old_done.push(last));
        assert(old_done.push(last) =~~= old_done + seq![last]);
        lemma_split_at_len(whole, sep);
    }
    done
}

/// The pieces of `parts` that are not empty, in order.
pub open spec fn nonempty_pieces(parts: Seq<Seq<char>>) -> Seq<Seq<char>>
    decreases parts.len(),
{
    if parts.len() == 0 {
        Seq::<Seq<char>>::empty()
    } else if parts[0].len() > 0 {
        seq![parts[0]] + nonempty_pieces(parts.drop_first())
    } else {
        nonempty_pieces(parts.drop_first())
    }
}

/// The pieces of `parts` concatenated, with `sep` between each pair.
pub open spec fn join_with(parts: Seq<Seq<char>>, sep: char) -> Seq<char>
    decreases parts.len(),
{
    if parts.len() == 0 {
        Seq::<char>::empty()
    } else if parts.len() == 1 {
        parts[0]
    } else {
        parts[0] + seq![sep] + join_with(parts.drop_first(), sep)
    }
}

pub proof fn lemma_join_with_push(parts: Seq<Seq<char>>, p: Seq<char>, sep: char)
    ensures
        parts.len() == 0 ==> join_with(parts.push(p), sep) == p,
        parts.len() > 0 ==> join_with(parts.push(p), sep) == join_with(parts, sep) + seq![sep]
            + p,
    decreases parts.len(),
{
    let pushed = parts.push(p);
    if parts.len() == 0 {
        assert(pushed[0] == p);
    } else {
        assert(pushed.drop_first() =~~= parts.drop_first().push(p));
        lemma_join_with_push(parts.drop_first(), p, sep);
        if parts.len() == 1 {
            assert(join_with(pushed, sep) == pushed[0] + seq![sep] + join_with(
                pushed.drop_first(),
                sep,
            ));
            assert(join_with(pushed, sep) =~= join_with(parts, sep) + seq![sep] + p);
        } else {
            assert(join_with(pushed, sep) =~= join_with(parts, sep) + seq![sep] + p);
        }
    }
}

/// Joins the given pieces with `sep` between each pair.
pub fn join_chars(parts: &Vec<Vec<char>>, sep: char) -> (r: Vec<char>)
    ensures
        r@ == join_with(parts.deep_view(), sep),
{
    let ghost all = parts.deep_view();
    let mut out: Vec<char> = Vec::new();
    let mut i: usize = 0;
    proof {
        assert(all.take(0) =~~= Seq::<Seq<char>>::empty());
    }
    while i < parts.len()
        invariant
            i <= parts.len(),
            all == parts.deep_view(),
            all.len() == parts.len(),
            out@ == join_with(all.take(i as int), sep),
        decreases parts.len() - i,
    {
        proof {
            lemma_join_with_push(all.take(i as int), all[i as int], sep);
            assert(all.take(i as int).push(all[i as int]) =~~= all.take(i as int + 1));
        }
        if i > 0 {
            out.push(sep);
        }
        let ghost mid = out@;
        let piece = &parts[i];
        let mut j: usize = 0;
        while j < piece.len()
            invariant
                j <= piece.len(),
                piece@ == all[i as int],
                out@ == mid + piece@.take(j as int),
            decreases piece.len() - j,
        {
            out.push(piece[j]);
            j = j + 1;
            proof {
                assert(mid + piece@.take(j as int) =~= (mid + piece@.take(j as int - 1)).push(
                    piece@[j as int - 1],
                ));
            }
        }
        proof {
            assert(piece@.take(piece@.len() as int) =~= piece@);
            if i == 0 {
                assert(out@ =~= join_with(all.take(i as int + 1), sep));
            } else {
                assert(out@ =~= join_with(all.take(i as int), sep) + seq![sep] + all[i as int]);
            }
        }
        i = i + 1;
    }
    proof {
        assert(all.take(all.len() as int) =~~= all);
    }
    out
}

/// The space-like characters: word boundaries for tokenizing, and what
/// surrounding trimming removes.
pub open spec fn is_space_char(c: char) -> bool {
    c == ' ' || c == '\t' || c == '\n' || c == '\r'
}

/// `s` with every space-like character replaced by a plain space; all other
/// characters are kept as they are. Splitting the result on the space
/// character therefore separates exactly the runs of non-space-like
/// characters of `s`.
pub open spec fn space_normalized(s: Seq<char>) -> Seq<char> {
    Seq::new(
        s.len(),
        |i: int|
            if is_space_char(s[i]) {
                ' '
            } else {
                s[i]
            },
    )
}

/// Replaces every space-like character with a plain space.
pub fn normalize_spaces(s: &Vec<char>) -> (r: Vec<char>)
    ensures
        r@ == space_normalized(s@),
{
    let mut r: Vec<char> = Vec::new();
    let mut i: usize = 0;
    while i < s.len()
        invariant
            i <= s@.len(),
            r@ == space_normalized(s@).take(i as int),
        decreases s@.len() - i,
    {
        let c = s[i];
        if is_space(c) {
            r.push(' ');
        } else {
            r.push(c);
        }
        i = i + 1;
        proof {
            assert(r@ =~= space_normalized(s@).take(i as int));
        }
    }
    proof {
        assert(r@ =~= space_normalized(s@));
    }
    r
}

/// `s` without its leading space-like characters.
pub open spec fn trim_start_spec(s: Seq<char>) -> Seq<char>
    decreases s.len(),
{
    if s.len() > 0 && is_space_char(s[0]) {
        trim_start_spec(s.drop_first())
    } else {
        s
    }
}

/// `s` without its trailing space-like characters.
pub open spec fn trim_end_spec(s: Seq<char>) -> Seq<char>
    decreases s.len(),
{
    if s.len() > 0 && is_space_char(s.last()) {
        trim_end_spec(s.drop_last())
    } else {
        s
    }
}

/// `s` without leading and trailing space-like characters.
pub open spec fn trim_spec(s: Seq<char>) -> Seq<char> {
    trim_end_spec(trim_start_spec(s))
}

proof fn lemma_trim_start_skip(s: Seq<char>, i: int)
    requires
        0 <= i <= s.len(),
        forall|j: int| 0 <= j < i ==> is_space_char(s[j]),
    ensures
        trim_start_spec(s) == trim_start_spec(s.skip(i)),
    decreases i,
{
    if i == 0 {
        assert(s.skip(0) =~= s);
    } else {
        assert(is_space_char(s[0]));
        assert(trim_start_spec(s) == trim_start_spec(s.drop_first()));
        lemma_trim_start_skip(s.drop_first(), i - 1);
        assert(s.drop_first().skip(i - 1) =~= s.skip(i));
    }
}

proof fn lemma_trim_end_take(s: Seq<char>, i: int)
    requires
        0 <= i <= s.len(),
        forall|j: int| i <= j < s.len() ==> is_space_char(s[j]),
    ensures
        trim_end_spec(s) == trim_end_spec(s.take(i)),
    decreases s.len() - i,
{
    if i == s.len() {
        assert(s.take(i) =~= s);
    } else {
        assert(is_space_char(s.last()));
        assert(trim_end_spec(s) == trim_end_spec(s.drop_last()));
        assert(s.drop_last() =~= s.take(s.len() - 1));
        lemma_trim_end_take(s.take(s.len() - 1), i);
        assert(s.take(s.len() - 1).take(i) =~= s.take(i));
    }
}

/// The characters of `s` with leading and trailing space-like characters
/// removed.
pub fn trim_chars(s: &Vec<char>) -> (r: Vec<char>)
    ensures
        r@ == trim_spec(s@),
{
    let mut a: usize = 0;
    while a < s.len() && is_space(s[a])
        invariant
            a <= s.len(),
            forall|j: int| 0 <= j < a ==> is_space_char(s@[j]),
        decreases s.len() - a,
    {
        a = a + 1;
    }
    proof {
        lemma_trim_start_skip(s@, a as int);
        assert(trim_start_spec(s@.skip(a as int)) == s@.skip(a as int));
    }
    let mut b: usize = s.len();
    while b > a && is_space(s[b - 1])
        invariant
            a <= b <= s.len(),
            forall|j: int| b <= j < s.len() ==> is_space_char(s@[j]),
        decreases b,
    {
        b = b - 1;
    }
    proof {
        let start = s@.skip(a as int);
        lemma_trim_end_take(start, b - a);
        assert(start.take(b - a) =~= s@.subrange(a as int, b as int));
        if b > a {
            assert(!is_space_char(start.take(b - a).last()));
        }
        assert(trim_end_spec(start.take(b - a)) == start.take(b - a));
    }
    let mut r: Vec<char> = Vec::new();
    let mut i: usize = a;
    while i < b
        invariant
            a <= i <= b <= s.len(),
            r@ == s@.subrange(a as int, i as int),
        decreases b - i,
    {
        r.push(s[i]);
        i = i + 1;
        proof {
            assert(r@ =~= s@.subrange(a as int, i as int));
        }
    }
    r
}

/// Whether trimming removes `c`.
pub fn is_space(c: char) -> (r: bool)
    ensures
        r == is_space_char(c),
{
    c == ' ' || c == '\t' || c == '\n' || c == '\r'
}

/// The character for the decimal digit `d`.
pub open spec fn digit_char(d: nat) -> char {
    if d == 0 {
        '0'
    } else if d == 1 {
        '1'
    } else if d == 2 {
        '2'
    } else if d == 3 {
        '3'
    } else if d == 4 {
        '4'
    } else if d == 5 {
        '5'
    } else if d == 6 {
        '6'
    } else if d == 7 {
        '7'
    } else if d == 8 {
        '8'
    } else {
        '9'
    }
}

/// The decimal rendering of `n`, most significant digit first.
pub open spec fn dec_of(n: nat) -> Seq<char>
    decreases n,
{
    if n < 10 {
        seq![digit_char(n)]
    } else {
        dec_of(n / 10) + seq![digit_char(n % 10)]
    }
}

fn digit(d: usize) -> (r: char)
    requires
        d < 10,
    ensures
        r == digit_char(d as nat),
{
    if d == 0 {
        '0'
    } else if d == 1 {
        '1'
    } else if d == 2 {
        '2'
    } else if d == 3 {
        '3'
    } else if d == 4 {
        '4'
    } else if d == 5 {
        '5'
    } else if d == 6 {
        '6'
    } else if d == 7 {
        '7'
    } else if d == 8 {
        '8'
    } else {
        '9'
    }
}

/// Appends the decimal rendering of `n` to `out`.
pub fn push_decimal(n: usize, out: &mut Vec<char>)
    ensures
        final(out)@ == old(out)@ + dec_of(n as nat),
    decreases n,
{
    if n < 10 {
        out.push(digit(n));
        proof {
            assert(out@ =~= old(out)@ + dec_of(n as nat));
        }
    } else {
        push_decimal(n / 10, out);
        out.push(digit(n % 10));
        proof {
            assert(out@ =~= old(out)@ + dec_of(n as nat));
        }
    }
}

} // verus!
