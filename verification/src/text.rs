//! Texts as sequences of characters: finding, splitting and joining them, and
//! writing numbers.

use vstd::prelude::*;

verus! {

/// `pat` stands in `s` at index `i`.
pub open spec fn occurs_at(s: Seq<char>, pat: Seq<char>, i: int) -> bool {
    &&& 0 <= i
    &&& i + pat.len() <= s.len()
    &&& s.subrange(i, i + pat.len()) == pat
}

/// `pat` stands somewhere in `s`.
pub open spec fn occurs(s: Seq<char>, pat: Seq<char>) -> bool {
    exists|i: int| occurs_at(s, pat, i)
}

/// `pat` stands in `s` at index `i` and at no index before it.
pub open spec fn is_first_occurrence(s: Seq<char>, pat: Seq<char>, i: int) -> bool {
    &&& occurs_at(s, pat, i)
    &&& forall|j: int| 0 <= j < i ==> !occurs_at(s, pat, j)
}

/// The least index at which `pat` stands in `s`, if it stands anywhere.
pub open spec fn first_occurrence(s: Seq<char>, pat: Seq<char>) -> Option<int> {
    if occurs(s, pat) {
        Some(choose|i: int| is_first_occurrence(s, pat, i))
    } else {
        None
    }
}

/// An occurrence at `k` leaves a first occurrence at or before `k`.
proof fn lemma_first_occurrence_exists(s: Seq<char>, pat: Seq<char>, k: int)
    requires
        occurs_at(s, pat, k),
    ensures
        exists|i: int| 0 <= i <= k && is_first_occurrence(s, pat, i),
    decreases k,
{
    if exists|j: int| 0 <= j < k && occurs_at(s, pat, j) {
        let j = choose|j: int| 0 <= j < k && occurs_at(s, pat, j);
        lemma_first_occurrence_exists(s, pat, j);
    } else {
        assert(is_first_occurrence(s, pat, k));
    }
}

/// `first_occurrence` is `Some(i)` exactly for the one first occurrence `i`.
pub proof fn lemma_first_occurrence(s: Seq<char>, pat: Seq<char>)
    ensures
        match first_occurrence(s, pat) {
            Some(i) => is_first_occurrence(s, pat, i),
            None => forall|j: int| !occurs_at(s, pat, j),
        },
        forall|i: int| is_first_occurrence(s, pat, i) ==> first_occurrence(s, pat) == Some(i),
{
    if occurs(s, pat) {
        let k = choose|k: int| occurs_at(s, pat, k);
        lemma_first_occurrence_exists(s, pat, k);
        let f = choose|i: int| is_first_occurrence(s, pat, i);
        assert forall|i: int| is_first_occurrence(s, pat, i) implies i == f by {
            if i < f {
                assert(!occurs_at(s, pat, i));
            } else if f < i {
                assert(!occurs_at(s, pat, f));
            }
        }
    }
}

/// The characters of `s`, one by one.
pub fn chars_of(s: &str) -> (v: Vec<char>)
    ensures
        v@ == s@,
{
    let mut v: Vec<char> = Vec::new();
    for c in it: s.chars()
        invariant
            it.seq() == s@,
            v@ == s@.take(it.index()),
    {
        v.push(c);
    }
    v
}

/// Tells whether `pat` stands in `hay` at index `at`.
pub fn matches_at(hay: &Vec<char>, pat: &Vec<char>, at: usize) -> (r: bool)
    ensures
        r == occurs_at(hay@, pat@, at as int),
{
    if pat.len() > hay.len() || at > hay.len() - pat.len() {
        return false;
    }
    let mut k: usize = 0;
    while k < pat.len()
        invariant
            k <= pat.len(),
            at + pat.len() <= hay.len(),
            forall|j: int| 0 <= j < k ==> hay@[at + j] == pat@[j],
        decreases pat.len() - k,
    {
        if hay[at + k] != pat[k] {
            assert(hay@.subrange(at as int, at + pat.len())[k as int] != pat@[k as int]);
            return false;
        }
        k += 1;
    }
    assert(hay@.subrange(at as int, at + pat.len()) =~= pat@);
    true
}

/// `pat` stands in what follows index `from` of `s` where it stands in `s`.
pub proof fn lemma_occurs_at_skip(s: Seq<char>, pat: Seq<char>, from: int, j: int)
    requires
        0 <= from <= s.len(),
        0 <= j,
    ensures
        occurs_at(s.skip(from), pat, j) <==> occurs_at(s, pat, from + j),
{
    if from + j + pat.len() <= s.len() {
        assert(s.skip(from).subrange(j, j + pat.len()) =~= s.subrange(
            from + j,
            from + j + pat.len(),
        ));
    }
}

/// The least index from `from` on at which `pat` stands in `hay`; none where
/// `from` is beyond the end.
pub fn find_from(hay: &Vec<char>, pat: &Vec<char>, from: usize) -> (r: Option<usize>)
    ensures
        from > hay.len() ==> r is None,
        from <= hay.len() ==> match r {
            Some(i) => from <= i && first_occurrence(hay@.skip(from as int), pat@) == Some(
                i - from,
            ),
            None => first_occurrence(hay@.skip(from as int), pat@) is None,
        },
{
    if from > hay.len() {
        return None;
    }
    let ghost rest = hay@.skip(from as int);
    if pat.len() > hay.len() - from {
        proof {
            lemma_first_occurrence(rest, pat@);
        }
        return None;
    }
    let last: usize = hay.len() - pat.len();
    let mut i: usize = from;
    loop
        invariant
            from <= i <= last,
            last + pat.len() == hay.len(),
            rest == hay@.skip(from as int),
            forall|j: int| 0 <= j < i - from ==> !occurs_at(rest, pat@, j),
        decreases last - i,
    {
        let here = matches_at(hay, pat, i);
        proof {
            lemma_occurs_at_skip(hay@, pat@, from as int, i - from);
            lemma_first_occurrence(rest, pat@);
        }
        if here {
            return Some(i);
        }
        if i == last {
            return None;
        }
        i += 1;
    }
}

/// The least index at which `pat` stands in `hay`.
pub fn find(hay: &Vec<char>, pat: &Vec<char>) -> (r: Option<usize>)
    ensures
        match r {
            Some(i) => first_occurrence(hay@, pat@) == Some(i as int),
            None => first_occurrence(hay@, pat@) is None,
        },
{
    assert(hay@.skip(0) =~= hay@);
    find_from(hay, pat, 0)
}

/// The text before the first `pat` in `s` and the text after it.
pub open spec fn spec_split_once(s: Seq<char>, pat: Seq<char>) -> Option<(Seq<char>, Seq<char>)> {
    match first_occurrence(s, pat) {
        Some(i) => Some((s.take(i), s.skip(i + pat.len()))),
        None => None,
    }
}

/// Splits `s` at the first `pat` in it.
pub fn split_once(s: &str, pat: &str) -> (r: Option<(String, String)>)
    ensures
        match r {
            Some((before, after)) => spec_split_once(s@, pat@) == Some((before@, after@)),
            None => spec_split_once(s@, pat@) is None,
        },
{
    let hay = chars_of(s);
    let needle = chars_of(pat);
    match find(&hay, &needle) {
        Some(i) => {
            proof {
                lemma_first_occurrence(s@, pat@);
            }
            let end = hay.len();
            let before = s.substring_char(0, i).to_owned();
            let after = s.substring_char(i + needle.len(), end).to_owned();
            Some((before, after))
        },
        None => None,
    }
}

/// Tells whether `c` is one of the characters of `s`.
pub fn contains_char(s: &str, c: char) -> (r: bool)
    ensures
        r == s@.contains(c),
{
    for ch in it: s.chars()
        invariant
            it.seq() == s@,
            forall|j: int| 0 <= j < it.index() ==> s@[j] != c,
    {
        if ch == c {
            return true;
        }
    }
    false
}

/// Tells whether `s` begins with the character `c`.
pub fn starts_with_char(s: &str, c: char) -> (r: bool)
    ensures
        r == (s@.len() > 0 && s@[0] == c),
{
    if s.unicode_len() == 0 {
        false
    } else {
        s.get_char(0) == c
    }
}

/// The pieces of `s` between the occurrences of `sep`, read from the left: always
/// at least one, and empty where two separators meet or `s` begins or ends with
/// one. An empty separator splits nothing.
pub open spec fn spec_split(s: Seq<char>, sep: Seq<char>) -> Seq<Seq<char>>
    decreases s.len(),
    via spec_split_decreases
{
    match first_occurrence(s, sep) {
        Some(i) => {
            if sep.len() > 0 {
                seq![s.take(i)] + spec_split(s.skip(i + sep.len()), sep)
            } else {
                seq![s]
            }
        },
        None => seq![s],
    }
}

#[via_fn]
proof fn spec_split_decreases(s: Seq<char>, sep: Seq<char>) {
    lemma_first_occurrence(s, sep);
}

/// Splits `s` at every `sep`, from the left.
pub fn split(s: &str, sep: &str) -> (parts: Vec<String>)
    ensures
        parts.deep_view() == spec_split(s@, sep@),
{
    let chars = chars_of(s);
    let pat = chars_of(sep);
    let end = chars.len();
    let mut parts: Vec<String> = Vec::new();
    let mut start: usize = 0;
    assert(s@.skip(0) =~= s@);
    if pat.len() > 0 {
        loop
            invariant
                chars@ == s@,
                pat@ == sep@,
                pat.len() > 0,
                end == chars.len(),
                start <= end,
                spec_split(s@, sep@) == parts.deep_view() + spec_split(
                    s@.skip(start as int),
                    sep@,
                ),
            ensures
                first_occurrence(s@.skip(start as int), sep@) is None,
            decreases end - start,
        {
            let ghost rest = s@.skip(start as int);
            match find_from(&chars, &pat, start) {
                Some(i) => {
                    proof {
                        lemma_first_occurrence(rest, sep@);
                    }
                    let piece = s.substring_char(start, i).to_owned();
                    proof {
                        assert(rest.take(i - start) =~= piece@);
                        assert(rest.skip(i - start + pat.len()) =~= s@.skip(i + pat.len()));
                    }
                    parts.push(piece);
                    start = i + pat.len();
                },
                None => {
                    break ;
                },
            }
        }
    }
    parts.push(s.substring_char(start, end).to_owned());
    parts
}

/// The texts of `parts` in a row, with `sep` between each two.
pub open spec fn spec_join(parts: Seq<Seq<char>>, sep: Seq<char>) -> Seq<char>
    decreases parts.len(),
{
    if parts.len() == 0 {
        Seq::empty()
    } else if parts.len() == 1 {
        parts[0]
    } else {
        spec_join(parts.drop_last(), sep) + sep + parts.last()
    }
}

/// `spec_join` read from the front: the first text, the separator, and the rest
/// joined.
pub proof fn lemma_join_from_front(first: Seq<char>, rest: Seq<Seq<char>>, sep: Seq<char>)
    requires
        rest.len() > 0,
    ensures
        spec_join(seq![first] + rest, sep) == first + sep + spec_join(rest, sep),
    decreases rest.len(),
{
    let all = seq![first] + rest;
    assert(all.last() == rest.last());
    if rest.len() == 1 {
        assert(spec_join(seq![first], sep) == first);
    } else {
        assert(all.drop_last() =~= seq![first] + rest.drop_last());
        lemma_join_from_front(first, rest.drop_last(), sep);
    }
}

/// Joining the pieces of `s` with the separator they were split at gives `s`.
pub proof fn lemma_join_inverts_split(s: Seq<char>, sep: Seq<char>)
    ensures
        spec_join(spec_split(s, sep), sep) == s,
    decreases s.len(),
{
    lemma_first_occurrence(s, sep);
    if let Some(i) = first_occurrence(s, sep) {
        if sep.len() > 0 {
            let rest = s.skip(i + sep.len());
            lemma_join_inverts_split(rest, sep);
            lemma_split_is_not_empty(rest, sep);
            lemma_join_from_front(s.take(i), spec_split(rest, sep), sep);
        }
    }
}

/// There is always at least one piece.
pub proof fn lemma_split_is_not_empty(s: Seq<char>, sep: Seq<char>)
    ensures
        spec_split(s, sep).len() > 0,
{
}

/// Splitting at a one-character separator what was joined with it gives the
/// texts back, where there is at least one text and the separator is in none.
pub proof fn lemma_split_inverts_join(parts: Seq<Seq<char>>, sep: char)
    requires
        parts.len() > 0,
        forall|i: int| 0 <= i < parts.len() ==> !(#[trigger] parts[i]).contains(sep),
    ensures
        spec_split(spec_join(parts, seq![sep]), seq![sep]) == parts,
    decreases parts.len(),
{
    let pat = seq![sep];
    let first = parts[0];
    if parts.len() == 1 {
        lemma_first_occurrence(first, pat);
        if let Some(i) = first_occurrence(first, pat) {
            assert(first.subrange(i, i + 1)[0] == first[i]);
        }
    } else {
        let rest = parts.drop_first();
        assert(parts =~= seq![first] + rest);
        lemma_join_from_front(first, rest, pat);
        let joined = spec_join(parts, pat);
        let at = first.len() as int;
        assert(joined.subrange(at, at + 1) =~= pat);
        assert forall|j: int| 0 <= j < at implies !occurs_at(joined, pat, j) by {
            assert(joined.subrange(j, j + 1)[0] == first[j]);
        }
        assert(is_first_occurrence(joined, pat, at));
        lemma_first_occurrence(joined, pat);
        assert(joined.take(at) =~= first);
        assert(joined.skip(at + 1) =~= spec_join(rest, pat));
        assert forall|i: int| 0 <= i < rest.len() implies !(#[trigger] rest[i]).contains(sep) by {
            assert(rest[i] == parts[i + 1]);
        }
        lemma_split_inverts_join(rest, sep);
    }
}

/// Joins `parts` with `sep` between each two.
pub fn join(parts: &Vec<String>, sep: &str) -> (r: String)
    ensures
        r@ == spec_join(parts.deep_view(), sep@),
{
    let mut r = String::new();
    let mut i: usize = 0;
    while i < parts.len()
        invariant
            i <= parts.len(),
            r@ == spec_join(parts.deep_view().take(i as int), sep@),
        decreases parts.len() - i,
    {
        if i > 0 {
            r.append(sep);
        }
        r.append(parts[i].as_str());
        proof {
            let all = parts.deep_view();
            assert(all.take(i + 1).drop_last() =~= all.take(i as int));
        }
        i += 1;
    }
    assert(parts.deep_view().take(i as int) =~= parts.deep_view());
    r
}

/// Tells whether one of `texts` reads `s`.
pub fn contains_text(texts: &Vec<String>, s: &str) -> (r: bool)
    ensures
        r == texts.deep_view().contains(s@),
{
    let wanted = s.to_owned();
    let mut i: usize = 0;
    while i < texts.len()
        invariant
            i <= texts.len(),
            wanted@ == s@,
            forall|j: int| 0 <= j < i ==> texts.deep_view()[j] != s@,
        decreases texts.len() - i,
    {
        if texts[i] == wanted {
            assert(texts.deep_view()[i as int] == s@);
            return true;
        }
        i += 1;
    }
    false
}

/// The decimal digit for `d`.
pub open spec fn digit(d: int) -> char {
    seq!['0', '1', '2', '3', '4', '5', '6', '7', '8', '9'][d]
}

/// A natural number in decimal: no sign, no leading zero but for zero itself.
pub open spec fn spec_decimal_nat(n: nat) -> Seq<char>
    decreases n,
{
    if n < 10 {
        seq![digit(n as int)]
    } else {
        spec_decimal_nat(n / 10).push(digit((n % 10) as int))
    }
}

/// An integer in decimal, with `-` before a negative one.
pub open spec fn spec_decimal(n: int) -> Seq<char> {
    if n < 0 {
        seq!['-'] + spec_decimal_nat((-n) as nat)
    } else {
        spec_decimal_nat(n as nat)
    }
}

fn digit_text(d: u32) -> (r: &'static str)
    requires
        d < 10,
    ensures
        r@ == seq![digit(d as int)],
{
    proof {
        reveal_strlit("0");
        reveal_strlit("1");
        reveal_strlit("2");
        reveal_strlit("3");
        reveal_strlit("4");
        reveal_strlit("5");
        reveal_strlit("6");
        reveal_strlit("7");
        reveal_strlit("8");
        reveal_strlit("9");
    }
    match d {
        0 => "0",
        1 => "1",
        2 => "2",
        3 => "3",
        4 => "4",
        5 => "5",
        6 => "6",
        7 => "7",
        8 => "8",
        _ => "9",
    }
}

fn append_decimal(out: &mut String, n: u32)
    ensures
        final(out)@ == old(out)@ + spec_decimal_nat(n as nat),
    decreases n,
{
    if n >= 10 {
        append_decimal(out, n / 10);
    }
    out.append(digit_text(n % 10));
}

/// Writes `n` in decimal.
pub fn decimal(n: i32) -> (r: String)
    ensures
        r@ == spec_decimal(n as int),
{
    let mut r = String::new();
    if n < 0 {
        proof {
            reveal_strlit("-");
        }
        r.append("-");
        let magnitude: i64 = -(n as i64);
        append_decimal(&mut r, magnitude as u32);
    } else {
        append_decimal(&mut r, n as u32);
    }
    r
}

} // verus!
