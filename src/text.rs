//! Character-level helpers on text: reading a string as a sequence of
//! characters, cutting out pieces, and splitting on a separator.
use vstd::prelude::*;
use vstd::std_specs::iter::IteratorSpec;

verus! {

/// The pieces of `s` between occurrences of `sep`, as `str::split` yields
/// them: one more piece than there are separators, empty pieces included.
pub open spec fn split_on(s: Seq<char>, sep: char) -> Seq<Seq<char>>
    decreases s.len(),
{
    if s.len() == 0 {
        seq![Seq::<char>::empty()]
    } else {
        let init = split_on(s.drop_last(), sep);
        if s.last() == sep {
            init.push(Seq::<char>::empty())
        } else {
            init.update(init.len() - 1, init.last().push(s.last()))
        }
    }
}

/// `k` is the position of the first `c` in `s`.
pub open spec fn first_index_is(s: Seq<char>, c: char, k: int) -> bool {
    0 <= k < s.len() && s[k] == c && forall|j: int| 0 <= j < k ==> s[j] != c
}

/// `s` cut at its first `c`: the text before it, and the text after it if
/// `c` occurs at all.
pub open spec fn split_first(s: Seq<char>, c: char) -> (Seq<char>, Option<Seq<char>>) {
    if exists|k: int| first_index_is(s, c, k) {
        let k = choose|k: int| first_index_is(s, c, k);
        (s.subrange(0, k), Some(s.subrange(k + 1, s.len() as int)))
    } else {
        (s, None)
    }
}

/// The views of a sequence of strings.
pub open spec fn strings_view(v: Seq<String>) -> Seq<Seq<char>> {
    v.map_values(|t: String| t@)
}

pub proof fn lemma_split_on_len(s: Seq<char>, sep: char)
    ensures
        split_on(s, sep).len() >= 1,
    decreases s.len(),
{
    if s.len() > 0 {
        lemma_split_on_len(s.drop_last(), sep);
    }
}

proof fn lemma_first_index_unique(s: Seq<char>, c: char, k: int)
    requires
        first_index_is(s, c, k),
    ensures
        split_first(s, c) == (s.subrange(0, k), Some(s.subrange(k + 1, s.len() as int))),
{
    let k2 = choose|k2: int| first_index_is(s, c, k2);
    assert(first_index_is(s, c, k2));
    if k2 < k {
        assert(s[k2] != c);
    } else if k < k2 {
        assert(s[k] != c);
    }
}

/// The characters of `s`, one by one.
pub fn chars_of(s: &str) -> (r: Vec<char>)
    ensures
        r@ == s@,
{
    let mut it = s.chars();
    let mut r: Vec<char> = Vec::new();
    loop
        invariant
            r@ + it.remaining() == s@,
        ensures
            r@ + it.remaining() == s@,
            it.remaining().len() == 0,
        decreases s@.len() - r@.len(),
    {
        match it.next() {
            Some(c) => {
                r.push(c);
            },
            None => {
                break;
            },
        }
    }
    assert(r@ =~= s@);
    r
}

/// The characters of `s` from `from` up to `to`, as a new string.
pub fn substring(s: &str, from: usize, to: usize) -> (r: String)
    requires
        from <= to <= s@.len(),
    ensures
        r@ == s@.subrange(from as int, to as int),
{
    s.substring_char(from, to).to_owned()
}

/// Splits `s` into the pieces between the occurrences of `sep`.
pub fn split(s: &str, sep: char) -> (r: Vec<String>)
    ensures
        strings_view(r@) == split_on(s@, sep),
{
    let cs = chars_of(s);
    let n = cs.len();
    let mut r: Vec<String> = Vec::new();
    let mut seg: usize = 0;
    let mut i: usize = 0;
    assert(s@.subrange(0, 0) =~= Seq::<char>::empty());
    assert(strings_view(r@).push(s@.subrange(0, 0)) =~= seq![Seq::<char>::empty()]);
    while i < n
        invariant
            n == s@.len(),
            cs@ == s@,
            seg <= i <= n,
            strings_view(r@).push(s@.subrange(seg as int, i as int)) == split_on(
                s@.subrange(0, i as int),
                sep,
            ),
        decreases n - i,
    {
        let ghost prefix = s@.subrange(0, i as int + 1);
        assert(prefix.drop_last() =~= s@.subrange(0, i as int));
        assert(prefix.last() == s@[i as int]);
        if cs[i] == sep {
            let piece = substring(s, seg, i);
            let ghost before = r@;
            r.push(piece);
            assert(strings_view(r@) =~= strings_view(before).push(piece@));
            seg = i + 1;
            assert(s@.subrange(seg as int, seg as int) =~= Seq::<char>::empty());
        } else {
            assert(s@.subrange(seg as int, i as int).push(s@[i as int]) =~= s@.subrange(
                seg as int,
                i as int + 1,
            ));
            let ghost init = split_on(s@.subrange(0, i as int), sep);
            assert(init.update(init.len() - 1, init.last().push(s@[i as int])) =~= strings_view(
                r@,
            ).push(s@.subrange(seg as int, i as int + 1)));
        }
        i = i + 1;
    }
    let last = substring(s, seg, n);
    let ghost before = r@;
    r.push(last);
    assert(s@.subrange(0, n as int) =~= s@);
    assert(strings_view(r@) =~= strings_view(before).push(last@));
    r
}

/// Cuts `s` at its first `c`.
pub fn cut_first(s: &str, c: char) -> (r: (String, Option<String>))
    ensures
        r.0@ == split_first(s@, c).0,
        match (r.1, split_first(s@, c).1) {
            (Some(a), Some(b)) => a@ == b,
            (None, None) => true,
            _ => false,
        },
{
    let cs = chars_of(s);
    let n = cs.len();
    let mut i: usize = 0;
    while i < n
        invariant
            n == s@.len(),
            cs@ == s@,
            i <= n,
            forall|j: int| 0 <= j < i ==> s@[j] != c,
        decreases n - i,
    {
        if cs[i] == c {
            proof {
                lemma_first_index_unique(s@, c, i as int);
            }
            return (substring(s, 0, i), Some(substring(s, i + 1, n)));
        }
        i = i + 1;
    }
    assert(s@.subrange(0, n as int) =~= s@);
    assert(!exists|k: int| first_index_is(s@, c, k)) by {
        if exists|k: int| first_index_is(s@, c, k) {
            let k = choose|k: int| first_index_is(s@, c, k);
            assert(s@[k] != c);
        }
    }
    (substring(s, 0, n), None)
}

} // verus!
