use vstd::prelude::*;

verus! {

/// Compares two strings character by character.
pub fn str_eq(a: &str, b: &str) -> (r: bool)
    ensures
        r == (a@ == b@),
{
    let n = a.unicode_len();
    let m = b.unicode_len();
    if n != m {
        return false;
    }
    let mut i: usize = 0;
    while i < n
        invariant
            n == a@.len(),
            m == b@.len(),
            n == m,
            i <= n,
            forall|j: int| 0 <= j < i ==> a@[j] == b@[j],
        decreases n - i,
    {
        if a.get_char(i) != b.get_char(i) {
            return false;
        }
        i = i + 1;
    }
    assert(a@ =~= b@);
    true
}

/// The decimal digit `d`.
pub open spec fn digit_char(d: int) -> char {
    if d == 0 { '0' } else if d == 1 { '1' } else if d == 2 { '2' } else if d == 3 { '3' } else if d == 4 { '4' }
    else if d == 5 { '5' } else if d == 6 { '6' } else if d == 7 { '7' } else if d == 8 { '8' } else { '9' }
}

/// The decimal writing of `n`, without leading zeros.
pub open spec fn decimal(n: nat) -> Seq<char>
    decreases n,
{
    if n < 10 {
        seq![digit_char(n as int)]
    } else {
        decimal(n / 10) + seq![digit_char((n % 10) as int)]
    }
}

/// The one-character text of digit `d`.
fn digit_str(d: u8) -> (r: &'static str)
    requires
        d < 10,
    ensures
        r@ == seq![digit_char(d as int)],
{
    proof {
        reveal_strlit("0");
        reveal_strlit("1");
        reveal_strlit("2");
        reveal_strlit("3");
        reveal_strlit("4");
        reveal_strlit("5");
        reveal_strlit("6");
        reveal_strlit("7");
        reveal_strlit("8");
        reveal_strlit("9");
    }
    let r = if d == 0 { "0" } else if d == 1 { "1" } else if d == 2 { "2" } else if d == 3 { "3" } else if d == 4 { "4" }
    else if d == 5 { "5" } else if d == 6 { "6" } else if d == 7 { "7" } else if d == 8 { "8" } else { "9" };
    assert(r@ =~= seq![digit_char(d as int)]);
    r
}

/// Appends the decimal writing of `n` to `s`.
pub fn push_decimal(s: &mut String, n: u8)
    ensures
        final(s)@ == old(s)@ + decimal(n as nat),
{
    if n >= 100 {
        s.append(digit_str(n / 100));
        s.append(digit_str((n / 10) % 10));
        s.append(digit_str(n % 10));
        assert(decimal(n as nat) =~= seq![digit_char((n / 100) as int), digit_char(((n / 10) % 10) as int), digit_char((n % 10) as int)]) by {
            assert(decimal((n / 100) as nat) =~= seq![digit_char((n / 100) as int)]);
            assert(decimal((n / 10) as nat) =~= decimal(((n / 10) / 10) as nat) + seq![digit_char(((n / 10) % 10) as int)]);
        }
    } else if n >= 10 {
        s.append(digit_str(n / 10));
        s.append(digit_str(n % 10));
        assert(decimal(n as nat) =~= seq![digit_char((n / 10) as int), digit_char((n % 10) as int)]) by {
            assert(decimal((n / 10) as nat) =~= seq![digit_char((n / 10) as int)]);
        }
    } else {
        s.append(digit_str(n));
    }
    assert(final(s)@ =~= old(s)@ + decimal(n as nat));
}

/// The characters of a text, one by one.
pub fn chars_of(s: &str) -> (r: Vec<char>)
    ensures
        r@ == s@,
{
    let n = s.unicode_len();
    let mut r: Vec<char> = Vec::new();
    let mut i: usize = 0;
    while i < n
        invariant
            n == s@.len(),
            i <= n,
            r@ == s@.subrange(0, i as int),
        decreases n - i,
    {
        r.push(s.get_char(i));
        i = i + 1;
        assert(r@ =~= s@.subrange(0, i as int));
    }
    assert(s@.subrange(0, n as int) =~= s@);
    r
}

/// `s` without its leading characters that belong to `set`.
pub open spec fn trim_front(s: Seq<char>, set: Seq<char>) -> Seq<char>
    decreases s.len(),
{
    if s.len() > 0 && set.contains(s[0]) {
        trim_front(s.drop_first(), set)
    } else {
        s
    }
}

/// `s` without its trailing characters that belong to `set`.
pub open spec fn trim_back(s: Seq<char>, set: Seq<char>) -> Seq<char>
    decreases s.len(),
{
    if s.len() > 0 && set.contains(s.last()) {
        trim_back(s.drop_last(), set)
    } else {
        s
    }
}

/// `s` without the characters of `set` at either end.
pub open spec fn trim_set(s: Seq<char>, set: Seq<char>) -> Seq<char> {
    trim_back(trim_front(s, set), set)
}

/// `c` belongs to `set`.
fn in_set(set: &Vec<char>, c: char) -> (r: bool)
    ensures
        r == set@.contains(c),
{
    let mut i: usize = 0;
    while i < set.len()
        invariant
            i <= set@.len(),
            forall|j: int| 0 <= j < i ==> set@[j] != c,
        decreases set@.len() - i,
    {
        if set[i] == c {
            return true;
        }
        i = i + 1;
    }
    false
}

/// The bounds, within `a..b`, of `cs[a..b]` trimmed of the characters of `set`.
pub fn trim_range(cs: &Vec<char>, a: usize, b: usize, set: &Vec<char>) -> (r: (usize, usize))
    requires
        a <= b <= cs@.len(),
    ensures
        a <= r.0 <= r.1 <= b,
        cs@.subrange(r.0 as int, r.1 as int) == trim_set(cs@.subrange(a as int, b as int), set@),
{
    let mut i: usize = a;
    while i < b && in_set(set, cs[i])
        invariant
            a <= i <= b <= cs@.len(),
            trim_front(cs@.subrange(a as int, b as int), set@) == trim_front(cs@.subrange(i as int, b as int), set@),
        decreases b - i,
    {
        assert(cs@.subrange(i as int, b as int).drop_first() =~= cs@.subrange(i + 1, b as int));
        i = i + 1;
    }
    assert(trim_front(cs@.subrange(i as int, b as int), set@) == cs@.subrange(i as int, b as int));
    let mut j: usize = b;
    while j > i && in_set(set, cs[j - 1])
        invariant
            a <= i <= j <= b <= cs@.len(),
            trim_back(cs@.subrange(i as int, b as int), set@) == trim_back(cs@.subrange(i as int, j as int), set@),
        decreases j - i,
    {
        assert(cs@.subrange(i as int, j as int).drop_last() =~= cs@.subrange(i as int, j - 1));
        j = j - 1;
    }
    (i, j)
}

/// The pieces of `s` between occurrences of `sep`, as `str::split` gives
/// them: one more piece than separators.
pub open spec fn pieces(s: Seq<char>, sep: char) -> Seq<Seq<char>>
    decreases s.len(),
{
    if s.len() == 0 {
        seq![Seq::<char>::empty()]
    } else {
        let prev = pieces(s.drop_last(), sep);
        if s.last() == sep {
            prev.push(Seq::<char>::empty())
        } else {
            prev.update(prev.len() - 1, prev.last().push(s.last()))
        }
    }
}

/// There is always at least one piece.
pub proof fn lemma_pieces_len(s: Seq<char>, sep: char)
    ensures
        pieces(s, sep).len() >= 1,
    decreases s.len(),
{
    if s.len() > 0 {
        lemma_pieces_len(s.drop_last(), sep);
    }
}

/// The characters of `cs` in each range of `rs`.
pub open spec fn range_texts(cs: Seq<char>, rs: Seq<(usize, usize)>) -> Seq<Seq<char>> {
    Seq::new(rs.len(), |k: int| cs.subrange(rs[k].0 as int, rs[k].1 as int))
}

/// Each range lies within `a..b` of a text of length `n`.
pub open spec fn ranges_within(rs: Seq<(usize, usize)>, a: int, b: int) -> bool {
    forall|k: int| 0 <= k < rs.len() ==> a <= (#[trigger] rs[k]).0 <= rs[k].1 <= b
}

/// The ranges of the pieces of `cs[a..b]` between occurrences of `sep`.
pub fn split_ranges(cs: &Vec<char>, a: usize, b: usize, sep: char) -> (r: Vec<(usize, usize)>)
    requires
        a <= b <= cs@.len(),
    ensures
        ranges_within(r@, a as int, b as int),
        range_texts(cs@, r@) == pieces(cs@.subrange(a as int, b as int), sep),
{
    let mut r: Vec<(usize, usize)> = Vec::new();
    let mut start: usize = a;
    let mut i: usize = a;
    assert(cs@.subrange(a as int, a as int) =~= Seq::<char>::empty());
    assert(range_texts(cs@, r@).push(cs@.subrange(start as int, i as int)) =~= pieces(cs@.subrange(a as int, i as int), sep));
    while i < b
        invariant
            a <= start <= i <= b <= cs@.len(),
            ranges_within(r@, a as int, i as int),
            range_texts(cs@, r@).push(cs@.subrange(start as int, i as int)) == pieces(cs@.subrange(a as int, i as int), sep),
        decreases b - i,
    {
        let ghost before = range_texts(cs@, r@);
        let ghost sub = cs@.subrange(a as int, i + 1);
        assert(sub.drop_last() =~= cs@.subrange(a as int, i as int));
        assert(sub.last() == cs@[i as int]);
        if cs[i] == sep {
            r.push((start, i));
            assert(range_texts(cs@, r@) =~= before.push(cs@.subrange(start as int, i as int)));
            start = i + 1;
            assert(cs@.subrange(start as int, i + 1) =~= Seq::<char>::empty());
        } else {
            assert(cs@.subrange(start as int, i + 1) =~= cs@.subrange(start as int, i as int).push(cs@[i as int]));
            assert(before.push(cs@.subrange(start as int, i + 1)) =~= before.push(cs@.subrange(start as int, i as int)).update(
                before.len() as int, cs@.subrange(start as int, i as int).push(cs@[i as int])));
        }
        i = i + 1;
    }
    let ghost rv = r@;
    r.push((start, b));
    assert(range_texts(cs@, r@) =~= range_texts(cs@, rv).push(cs@.subrange(start as int, b as int)));
    r
}

} // verus!
