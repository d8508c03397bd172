use vstd::prelude::*;

verus! {

/// `prefix` stands at the start of `s`.
pub open spec fn is_prefix(prefix: Seq<char>, s: Seq<char>) -> bool {
    prefix.len() <= s.len() && s.take(prefix.len() as int) == prefix
}

/// `suffix` stands at the end of `s`.
pub open spec fn is_suffix(suffix: Seq<char>, s: Seq<char>) -> bool {
    suffix.len() <= s.len() && s.skip(s.len() - suffix.len()) == suffix
}

/// The position of the last occurrence of `c` in `s`, if `c` occurs.
pub open spec fn last_index_of(s: Seq<char>, c: char) -> Option<int>
    decreases s.len(),
{
    if s.len() == 0 {
        None
    } else if s.last() == c {
        Some(s.len() - 1)
    } else {
        last_index_of(s.drop_last(), c)
    }
}

/// What follows the last `.` of `s`, if it has one (the right half of
/// `rsplit_once('.')`).
pub open spec fn after_last_dot(s: Seq<char>) -> Option<Seq<char>> {
    match last_index_of(s, '.') {
        Some(i) => Some(s.skip(i + 1)),
        None => None,
    }
}

/// The position of the first occurrence of `c` in `s`, if `c` occurs.
pub open spec fn first_index_of(s: Seq<char>, c: char) -> Option<int>
    decreases s.len(),
{
    if s.len() == 0 {
        None
    } else if s[0] == c {
        Some(0)
    } else {
        match first_index_of(s.drop_first(), c) {
            Some(i) => Some(i + 1),
            None => None,
        }
    }
}

/// Everything before the first `c` of `s`, or all of `s` where it holds
/// none (the first item of `split(c)`).
pub open spec fn before_first(s: Seq<char>, c: char) -> Seq<char> {
    match first_index_of(s, c) {
        Some(i) => s.take(i),
        None => s,
    }
}

/// `first_index_of` is the first position that holds `c`, where `c` stands
/// at `i` and not before it; where `c` stands nowhere it is `None`.
pub proof fn lemma_first_index_at(s: Seq<char>, c: char, i: int)
    requires
        0 <= i <= s.len(),
        i < s.len() ==> s[i] == c,
        forall|j: int| 0 <= j < i ==> s[j] != c,
    ensures
        i < s.len() ==> first_index_of(s, c) == Some(i),
        i == s.len() ==> first_index_of(s, c) is None,
    decreases s.len(),
{
    if s.len() > 0 && s[0] != c {
        let t = s.drop_first();
        assert forall|j: int| 0 <= j < i - 1 implies t[j] != c by {
            assert(t[j] == s[j + 1]);
        }
        lemma_first_index_at(t, c, i - 1);
    }
}

/// A sequence that differs from `prefix` at a position both hold does not
/// begin with it.
pub proof fn lemma_not_prefix_at(prefix: Seq<char>, s: Seq<char>, i: int)
    requires
        0 <= i < prefix.len(),
        i < s.len(),
        s[i] != prefix[i],
    ensures
        !is_prefix(prefix, s),
{
    if is_prefix(prefix, s) {
        assert(s.take(prefix.len() as int)[i] == s[i]);
    }
}

/// A sequence that differs from `suffix` at a position counted from the end
/// does not end with it.
pub proof fn lemma_not_suffix_at(suffix: Seq<char>, s: Seq<char>, i: int)
    requires
        0 <= i < suffix.len(),
        suffix.len() <= s.len(),
        s[s.len() - suffix.len() + i] != suffix[i],
    ensures
        !is_suffix(suffix, s),
{
    if is_suffix(suffix, s) {
        assert(s.skip(s.len() - suffix.len())[i] == s[s.len() - suffix.len() + i]);
    }
}

/// `is_suffix` in terms of single characters.
pub proof fn lemma_suffix_chars(suffix: Seq<char>, s: Seq<char>)
    requires
        suffix.len() <= s.len(),
        forall|i: int| 0 <= i < suffix.len() ==> s[s.len() - suffix.len() + i] == suffix[i],
    ensures
        is_suffix(suffix, s),
{
    assert(s.skip(s.len() - suffix.len()) =~= suffix);
}

/// The last occurrence of `c` is at `i` where `c` stands at `i` and nowhere
/// after it.
pub proof fn lemma_last_index_at(s: Seq<char>, c: char, i: int)
    requires
        0 <= i < s.len(),
        s[i] == c,
        forall|j: int| i < j < s.len() ==> s[j] != c,
    ensures
        last_index_of(s, c) == Some(i),
    decreases s.len(),
{
    if s.last() != c {
        let t = s.drop_last();
        assert forall|j: int| i < j < t.len() implies t[j] != c by {
            assert(t[j] == s[j]);
        }
        lemma_last_index_at(t, c, i);
    }
}

/// A sequence that does not hold `c` has no last occurrence of it.
pub proof fn lemma_last_index_none(s: Seq<char>, c: char)
    requires
        forall|j: int| 0 <= j < s.len() ==> s[j] != c,
    ensures
        last_index_of(s, c) is None,
    decreases s.len(),
{
    if s.len() > 0 {
        let t = s.drop_last();
        assert forall|j: int| 0 <= j < t.len() implies t[j] != c by {
            assert(t[j] == s[j]);
        }
        lemma_last_index_none(t, c);
    }
}

/// The text after the last dot, where the dot stands at `i` and no dot
/// follows it.
pub proof fn lemma_after_last_dot_at(s: Seq<char>, i: int)
    requires
        0 <= i < s.len(),
        s[i] == '.',
        forall|j: int| i < j < s.len() ==> s[j] != '.',
    ensures
        after_last_dot(s) == Some(s.skip(i + 1)),
{
    lemma_last_index_at(s, '.', i);
}

/// What the text predicates mean: a sequence begins with each of its
/// prefixes and ends with each of its suffixes; what follows the last dot
/// of `p.e` is `e` where `e` holds no dot; the first `c` cuts before it.
pub proof fn lemma_text_predicates(p: Seq<char>, e: Seq<char>, c: char)
    ensures
        is_prefix(p, p + e),
        is_suffix(e, p + e),
        (forall|j: int| 0 <= j < e.len() ==> e[j] != '.') ==> after_last_dot(p + seq!['.'] + e)
            == Some(e),
        (forall|j: int| 0 <= j < p.len() ==> p[j] != '.') ==> after_last_dot(p) is None,
        (forall|j: int| 0 <= j < p.len() ==> p[j] != c) ==> before_first(p + seq![c] + e, c) == p,
        (forall|j: int| 0 <= j < p.len() ==> p[j] != c) ==> before_first(p, c) == p,
{
    assert((p + e).take(p.len() as int) =~= p);
    assert((p + e).skip(p.len() as int) =~= e);
    let s = p + seq!['.'] + e;
    if forall|j: int| 0 <= j < e.len() ==> e[j] != '.' {
        assert forall|j: int| p.len() < j < s.len() implies s[j] != '.' by {
            assert(s[j] == e[j - p.len() - 1]);
        }
        lemma_after_last_dot_at(s, p.len() as int);
        assert(s.skip(p.len() as int + 1) =~= e);
    }
    if forall|j: int| 0 <= j < p.len() ==> p[j] != '.' {
        lemma_last_index_none(p, '.');
    }
    if forall|j: int| 0 <= j < p.len() ==> p[j] != c {
        let t = p + seq![c] + e;
        assert forall|j: int| 0 <= j < p.len() implies t[j] != c by {
            assert(t[j] == p[j]);
        }
        lemma_first_index_at(t, c, p.len() as int);
        assert(t.take(p.len() as int) =~= p);
        lemma_first_index_at(p, c, p.len() as int);
    }
}

/// The characters of `s`, one by one.
pub fn chars_of(s: &str) -> (r: Vec<char>)
    ensures
        r@ == s@,
{
    let mut r: Vec<char> = Vec::new();
    for c in it: s.chars()
        invariant
            r@ == it.seq().take(it.index() as int),
    {
        r.push(c);
    }
    r
}

/// The two sequences hold the same characters.
pub fn same_chars(a: &[char], b: &[char]) -> (r: bool)
    ensures
        r == (a@ == b@),
{
    if a.len() != b.len() {
        return false;
    }
    let n: usize = a.len();
    for i in 0..n
        invariant
            n == a@.len(),
            n == b@.len(),
            forall|j: int| 0 <= j < i ==> a@[j] == b@[j],
    {
        if a[i] != b[i] {
            return false;
        }
    }
    assert(a@ =~= b@);
    true
}

/// `s` equals the literal `lit`.
pub fn is_text(s: &[char], lit: &str) -> (r: bool)
    ensures
        r == (s@ == lit@),
{
    let l = chars_of(lit);
    same_chars(s, l.as_slice())
}

/// `s` begins with `prefix`.
pub fn starts_with(s: &[char], prefix: &[char]) -> (r: bool)
    ensures
        r == is_prefix(prefix@, s@),
{
    if prefix.len() > s.len() {
        return false;
    }
    let n: usize = prefix.len();
    for i in 0..n
        invariant
            n == prefix@.len(),
            n <= s@.len(),
            forall|j: int| 0 <= j < i ==> s@[j] == prefix@[j],
    {
        if s[i] != prefix[i] {
            assert(s@.take(n as int)[i as int] != prefix@[i as int]);
            return false;
        }
    }
    assert(s@.take(n as int) =~= prefix@);
    true
}

/// `s` ends with `suffix`.
pub fn ends_with(s: &[char], suffix: &[char]) -> (r: bool)
    ensures
        r == is_suffix(suffix@, s@),
{
    if suffix.len() > s.len() {
        return false;
    }
    let n: usize = suffix.len();
    let off: usize = s.len() - n;
    for i in 0..n
        invariant
            n == suffix@.len(),
            off + n == s@.len(),
            off + n == s.len(),
            forall|j: int| 0 <= j < i ==> s@[off + j] == suffix@[j],
    {
        if s[off + i] != suffix[i] {
            assert(s@.skip(off as int)[i as int] != suffix@[i as int]);
            return false;
        }
    }
    assert(s@.skip(off as int) =~= suffix@);
    true
}

/// The position of the last `c` in `s`.
pub fn find_last(s: &[char], c: char) -> (r: Option<usize>)
    ensures
        match r {
            Some(i) => last_index_of(s@, c) == Some(i as int),
            None => last_index_of(s@, c) is None,
        },
        r matches Some(i) ==> i < s@.len() && i < s.len(),
{
    let mut k: usize = s.len();
    assert(s@.take(k as int) =~= s@);
    while k > 0
        invariant
            k <= s@.len(),
            last_index_of(s@, c) == last_index_of(s@.take(k as int), c),
        decreases k,
    {
        let ghost t = s@.take(k as int);
        if s[k - 1] == c {
            assert(t.last() == c);
            return Some(k - 1);
        }
        assert(t.drop_last() =~= s@.take(k - 1));
        k = k - 1;
    }
    assert(s@.take(0) =~= Seq::<char>::empty());
    None
}

/// The position of the first `c` in `s` at or after `start`, or the length
/// of `s` where there is none.
pub fn find_first_from(s: &[char], c: char, start: usize) -> (r: usize)
    requires
        start <= s@.len(),
    ensures
        start <= r <= s@.len(),
        r < s@.len() ==> s@[r as int] == c,
        forall|j: int| start <= j < r ==> s@[j] != c,
{
    let mut i: usize = start;
    while i < s.len()
        invariant
            start <= i <= s@.len(),
            forall|j: int| start <= j < i ==> s@[j] != c,
        decreases s@.len() - i,
    {
        if s[i] == c {
            return i;
        }
        i = i + 1;
    }
    i
}

/// The characters of `s` from `start` on.
pub fn tail_from(s: &[char], start: usize) -> (r: Vec<char>)
    requires
        start <= s@.len(),
    ensures
        r@ == s@.skip(start as int),
{
    let mut r: Vec<char> = Vec::new();
    let mut i: usize = start;
    while i < s.len()
        invariant
            start <= i <= s@.len(),
            r@ == s@.subrange(start as int, i as int),
        decreases s@.len() - i,
    {
        r.push(s[i]);
        i = i + 1;
    }
    assert(r@ =~= s@.skip(start as int));
    r
}

} // verus!
