//! Text as a sequence of characters: white space, trimming and searching.

use vstd::prelude::*;

verus! {

/// The Unicode `White_Space` property.
pub open spec fn is_white(c: char) -> bool {
    ||| 0x9 <= c as int <= 0xd
    ||| c as int == 0x20
    ||| c as int == 0x85
    ||| c as int == 0xa0
    ||| c as int == 0x1680
    ||| 0x2000 <= c as int <= 0x200a
    ||| c as int == 0x2028
    ||| c as int == 0x2029
    ||| c as int == 0x202f
    ||| c as int == 0x205f
    ||| c as int == 0x3000
}

/// `s` without its leading white space.
pub open spec fn skip_white(s: Seq<char>) -> Seq<char>
    decreases s.len(),
{
    if s.len() > 0 && is_white(s[0]) {
        skip_white(s.drop_first())
    } else {
        s
    }
}

/// `s` without its trailing white space.
pub open spec fn drop_white(s: Seq<char>) -> Seq<char>
    decreases s.len(),
{
    if s.len() > 0 && is_white(s.last()) {
        drop_white(s.drop_last())
    } else {
        s
    }
}

/// `s` without white space at either end.
pub open spec fn trimmed(s: Seq<char>) -> Seq<char> {
    drop_white(skip_white(s))
}

/// `pat` stands in `s` at index `i`.
pub open spec fn matches_at(s: Seq<char>, pat: Seq<char>, i: int) -> bool {
    0 <= i && i + pat.len() <= s.len() && s.subrange(i, i + pat.len()) == pat
}

/// `pat` stands somewhere in `s`.
pub open spec fn has(s: Seq<char>, pat: Seq<char>) -> bool {
    exists|i: int| matches_at(s, pat, i)
}

/// The first index from `i` on at which `pat` stands in `s`.
pub open spec fn position_from(s: Seq<char>, pat: Seq<char>, i: int) -> Option<int>
    decreases s.len() - i + 1,
{
    if i + pat.len() > s.len() {
        None
    } else if matches_at(s, pat, i) {
        Some(i)
    } else {
        position_from(s, pat, i + 1)
    }
}

/// The first index at which `pat` stands in `s`.
pub open spec fn position(s: Seq<char>, pat: Seq<char>) -> Option<int> {
    position_from(s, pat, 0)
}

/// `s` starts with `pat`.
pub open spec fn begins(s: Seq<char>, pat: Seq<char>) -> bool {
    matches_at(s, pat, 0)
}

/// The characters of a text that may be missing.
pub open spec fn view_option(t: Option<String>) -> Option<Seq<char>> {
    match t {
        Some(s) => Some(s@),
        None => None,
    }
}

/// The characters of each text of a list.
pub open spec fn view_list(list: Seq<String>) -> Seq<Seq<char>> {
    list.map_values(|s: String| s@)
}

proof fn lemma_position_from(s: Seq<char>, pat: Seq<char>, i: int)
    requires
        0 <= i,
    ensures
        match position_from(s, pat, i) {
            Some(k) => i <= k && matches_at(s, pat, k) && (forall|j: int|
                i <= j < k ==> !matches_at(s, pat, j)),
            None => forall|j: int| i <= j ==> !matches_at(s, pat, j),
        },
    decreases s.len() - i + 1,
{
    if i + pat.len() <= s.len() && !matches_at(s, pat, i) {
        lemma_position_from(s, pat, i + 1);
    }
}

/// `position` names the first occurrence, and there is one exactly when the
/// pattern stands somewhere in the text.
pub proof fn lemma_position(s: Seq<char>, pat: Seq<char>)
    ensures
        position(s, pat) is Some <==> has(s, pat),
        position(s, pat) matches Some(k) ==> matches_at(s, pat, k) && (forall|j: int|
            j < k ==> !matches_at(s, pat, j)),
{
    lemma_position_from(s, pat, 0);
    if let Some(k) = position(s, pat) {
        assert(matches_at(s, pat, k));
    }
}

proof fn lemma_skip_white(s: Seq<char>)
    ensures
        skip_white(s).len() <= s.len(),
        skip_white(s) == s.skip(s.len() - skip_white(s).len()),
        forall|i: int|
            0 <= i < s.len() - skip_white(s).len() ==> is_white(#[trigger] s[i]),
        skip_white(s).len() > 0 ==> !is_white(skip_white(s)[0]),
    decreases s.len(),
{
    if s.len() > 0 && is_white(s[0]) {
        let rest = s.drop_first();
        lemma_skip_white(rest);
        assert forall|i: int| 0 <= i < s.len() - skip_white(s).len() implies is_white(
            #[trigger] s[i],
        ) by {
            if i > 0 {
                assert(s[i] == rest[i - 1]);
            }
        }
        assert(skip_white(s) =~= s.skip(s.len() - skip_white(s).len()));
    } else {
        assert(s.skip(0) =~= s);
    }
}

proof fn lemma_drop_white(s: Seq<char>)
    ensures
        drop_white(s).len() <= s.len(),
        drop_white(s) == s.take(drop_white(s).len() as int),
        forall|i: int|
            drop_white(s).len() <= i < s.len() ==> is_white(#[trigger] s[i]),
        drop_white(s).len() > 0 ==> !is_white(drop_white(s).last()),
    decreases s.len(),
{
    if s.len() > 0 && is_white(s.last()) {
        let rest = s.drop_last();
        lemma_drop_white(rest);
        assert forall|i: int| drop_white(s).len() <= i < s.len() implies is_white(
            #[trigger] s[i],
        ) by {
            if i < rest.len() {
                assert(s[i] == rest[i]);
            }
        }
        assert(drop_white(s) =~= s.take(drop_white(s).len() as int));
    } else {
        assert(s.take(s.len() as int) =~= s);
    }
}

/// Trimming takes white space from both ends and nothing else: what is left is
/// a run of the text, all that was taken is white space, and what is left
/// neither starts nor ends with white space.
pub proof fn lemma_trimmed(s: Seq<char>) -> (from: int)
    ensures
        0 <= from,
        from + trimmed(s).len() <= s.len(),
        trimmed(s) == s.subrange(from, from + trimmed(s).len()),
        forall|i: int| 0 <= i < from ==> is_white(#[trigger] s[i]),
        forall|i: int| from + trimmed(s).len() <= i < s.len() ==> is_white(#[trigger] s[i]),
        trimmed(s).len() > 0 ==> !is_white(trimmed(s)[0]) && !is_white(trimmed(s).last()),
{
    lemma_skip_white(s);
    let rest = skip_white(s);
    let from = s.len() - rest.len();
    lemma_drop_white(rest);
    assert forall|i: int| from + trimmed(s).len() <= i < s.len() implies is_white(
        #[trigger] s[i],
    ) by {
        assert(s[i] == rest[i - from]);
    }
    assert(trimmed(s) =~= s.subrange(from, from + trimmed(s).len()));
    from
}

/// Trimming twice is trimming once.
pub proof fn lemma_trimmed_idempotent(s: Seq<char>)
    ensures
        trimmed(trimmed(s)) == trimmed(s),
{
    let from = lemma_trimmed(s);
}

/// A text trims to nothing exactly when all of it is white space.
pub proof fn lemma_trimmed_empty(s: Seq<char>)
    ensures
        trimmed(s).len() == 0 <==> (forall|i: int| 0 <= i < s.len() ==> is_white(#[trigger] s[i])),
{
    let from = lemma_trimmed(s);
    if forall|i: int| 0 <= i < s.len() ==> is_white(#[trigger] s[i]) {
        if trimmed(s).len() > 0 {
            assert(trimmed(s)[0] == s[from]);
        }
    }
}

/// Whether `c` has the Unicode `White_Space` property.
pub fn is_whitespace(c: char) -> (r: bool)
    ensures
        r == is_white(c),
{
    let n: u32 = c as u32;
    (0x9 <= n && n <= 0xd) || n == 0x20 || n == 0x85 || n == 0xa0 || n == 0x1680 || (0x2000 <= n
        && n <= 0x200a) || n == 0x2028 || n == 0x2029 || n == 0x202f || n == 0x205f || n == 0x3000
}

/// The characters of `s`.
pub fn chars_of(s: &str) -> (v: Vec<char>)
    ensures
        v@ == s@,
{
    let mut v: Vec<char> = Vec::new();
    for c in it: s.chars()
        invariant
            it.seq() == s@,
            v@ == s@.take(it.index()),
    {
        proof {
            assert(s@.take(it.index() + 1) =~= s@.take(it.index()).push(c));
        }
        v.push(c);
    }
    assert(s@.take(s@.len() as int) =~= s@);
    v
}

/// `s` without white space at either end.
pub fn trim(s: &str) -> (r: &str)
    ensures
        r@ == trimmed(s@),
{
    let v = chars_of(s);
    let mut from: usize = 0;
    assert(v@.skip(0) =~= s@);
    while from < v.len() && is_whitespace(v[from])
        invariant
            from <= v.len(),
            v@ == s@,
            skip_white(s@) == skip_white(v@.skip(from as int)),
        decreases v.len() - from,
    {
        assert(v@.skip(from as int).drop_first() =~= v@.skip(from + 1));
        from = from + 1;
    }
    let ghost rest = v@.skip(from as int);
    assert(skip_white(s@) == rest);
    let mut to: usize = v.len();
    assert(rest =~= rest.take(to - from));
    while from < to && is_whitespace(v[to - 1])
        invariant
            from <= to <= v.len(),
            v@ == s@,
            rest == v@.skip(from as int),
            drop_white(rest) == drop_white(rest.take(to - from)),
        decreases to,
    {
        assert(rest.take(to - from).drop_last() =~= rest.take(to - 1 - from));
        to = to - 1;
    }
    assert(rest.take(to - from) =~= s@.subrange(from as int, to as int));
    s.substring_char(from, to)
}

/// Whether `pat` stands in `v` at index `i`.
fn stands_at(v: &Vec<char>, pat: &Vec<char>, i: usize) -> (r: bool)
    ensures
        r == matches_at(v@, pat@, i as int),
{
    if v.len() < pat.len() || v.len() - pat.len() < i {
        return false;
    }
    let mut k: usize = 0;
    while k < pat.len()
        invariant
            k <= pat.len(),
            i + pat.len() <= v.len(),
            forall|j: int| 0 <= j < k ==> v@[i + j] == #[trigger] pat@[j],
        decreases pat.len() - k,
    {
        if v[i + k] != pat[k] {
            assert(v@.subrange(i as int, i + pat.len())[k as int] != pat@[k as int]);
            return false;
        }
        k = k + 1;
    }
    assert(v@.subrange(i as int, i + pat.len()) =~= pat@);
    true
}

/// The first index at which `pat` stands in `v`.
pub fn find(v: &Vec<char>, pat: &str) -> (r: Option<usize>)
    ensures
        match r {
            Some(k) => position(v@, pat@) == Some(k as int),
            None => position(v@, pat@) is None,
        },
{
    let p = chars_of(pat);
    let mut i: usize = 0;
    while i <= v.len() && p.len() <= v.len() - i
        invariant
            p@ == pat@,
            i <= v.len() + 1,
            position(v@, pat@) == position_from(v@, pat@, i as int),
        decreases v.len() + 1 - i,
    {
        if stands_at(v, &p, i) {
            return Some(i);
        }
        if i == v.len() {
            proof {
                assert(position_from(v@, pat@, i + 1) is None);
            }
            return None;
        }
        i = i + 1;
    }
    None
}

/// Whether `pat` stands somewhere in `s`.
pub fn contains(s: &str, pat: &str) -> (r: bool)
    ensures
        r == has(s@, pat@),
{
    proof {
        lemma_position(s@, pat@);
    }
    let v = chars_of(s);
    find(&v, pat).is_some()
}

/// Whether `s` starts with `pat`.
pub fn starts_with(s: &str, pat: &str) -> (r: bool)
    ensures
        r == begins(s@, pat@),
{
    let v = chars_of(s);
    let p = chars_of(pat);
    stands_at(&v, &p, 0)
}

/// `a` with `b` behind it.
pub fn joined(a: &str, b: &str) -> (r: String)
    ensures
        r@ == a@ + b@,
{
    let mut r = a.to_owned();
    r.append(b);
    r
}

/// Whether two texts hold the same characters.
pub fn same_text(a: &str, b: &str) -> (r: bool)
    ensures
        r == (a@ == b@),
{
    a.to_owned() == b.to_owned()
}

/// A pattern stands at a place exactly where its characters do, one by one.
pub proof fn lemma_matches_at(s: Seq<char>, pat: Seq<char>, i: int)
    ensures
        matches_at(s, pat, i) <==> {
            &&& 0 <= i
            &&& i + pat.len() <= s.len()
            &&& forall|k: int| 0 <= k < pat.len() ==> s[i + k] == #[trigger] pat[k]
        },
{
    if 0 <= i && i + pat.len() <= s.len() {
        let part = s.subrange(i, i + pat.len());
        if matches_at(s, pat, i) {
            assert forall|k: int| 0 <= k < pat.len() implies s[i + k] == #[trigger] pat[k] by {
                assert(part[k] == pat[k]);
            }
        }
        if forall|k: int| 0 <= k < pat.len() ==> s[i + k] == #[trigger] pat[k] {
            assert(part =~= pat);
        }
    }
}

/// A text that is put together with a pattern in it holds the pattern there, and
/// a text that holds a pattern can be put together so.
pub proof fn lemma_has(s: Seq<char>, pat: Seq<char>, ahead: Seq<char>, behind: Seq<char>)
    ensures
        matches_at(ahead + pat + behind, pat, ahead.len() as int),
        has(ahead + pat + behind, pat),
        begins(pat + behind, pat),
        has(s, pat) ==> exists|a: Seq<char>, b: Seq<char>| s == #[trigger] (a + pat + b),
        begins(s, pat) ==> exists|b: Seq<char>| s == #[trigger] (pat + b),
{
    let whole = ahead + pat + behind;
    assert(whole.subrange(ahead.len() as int, (ahead.len() + pat.len()) as int) =~= pat);
    assert(matches_at(whole, pat, ahead.len() as int));
    assert((pat + behind).subrange(0, pat.len() as int) =~= pat);
    if has(s, pat) {
        let i = choose|i: int| matches_at(s, pat, i);
        let a = s.take(i);
        let b = s.skip(i + pat.len());
        assert(s =~= a + s.subrange(i, i + pat.len()) + b);
        assert(s == a + pat + b);
    }
    if begins(s, pat) {
        let b = s.skip(pat.len() as int);
        assert(s =~= s.subrange(0, pat.len() as int) + b);
        assert(s == pat + b);
    }
}

/// What is between white space is what trimming leaves.
pub proof fn lemma_trimmed_between(ahead: Seq<char>, s: Seq<char>, behind: Seq<char>)
    requires
        forall|i: int| 0 <= i < ahead.len() ==> is_white(#[trigger] ahead[i]),
        forall|i: int| 0 <= i < behind.len() ==> is_white(#[trigger] behind[i]),
        s.len() > 0,
        !is_white(s[0]),
        !is_white(s.last()),
    ensures
        trimmed(ahead + s + behind) == s,
    decreases ahead.len() + behind.len(),
{
    let whole = ahead + s + behind;
    if ahead.len() > 0 {
        assert(whole[0] == ahead[0]);
        assert(whole.drop_first() =~= ahead.drop_first() + s + behind);
        assert forall|i: int| 0 <= i < ahead.drop_first().len() implies is_white(
            #[trigger] ahead.drop_first()[i],
        ) by {
            assert(ahead.drop_first()[i] == ahead[i + 1]);
        }
        lemma_trimmed_between(ahead.drop_first(), s, behind);
        assert(skip_white(whole) == skip_white(whole.drop_first()));
    } else {
        assert(whole[0] == s[0]);
        assert(skip_white(whole) == whole);
        if behind.len() > 0 {
            assert(whole.last() == behind.last());
            let less = behind.drop_last();
            assert(whole.drop_last() =~= ahead + s + less);
            lemma_trimmed_between(ahead, s, less);
            assert((ahead + s + less)[0] == s[0]);
            assert(skip_white(ahead + s + less) == ahead + s + less);
        } else {
            assert(whole =~= s);
        }
    }
}

/// Texts in a list and texts that may be missing are seen one by one.
pub proof fn lemma_views(list: Seq<String>, t: Option<String>)
    ensures
        view_list(list).len() == list.len(),
        forall|i: int| 0 <= i < list.len() ==> #[trigger] view_list(list)[i] == list[i]@,
        view_option(t) is Some <==> t is Some,
        t is Some ==> view_option(t) == Some(t.unwrap()@),
{
}

} // verus!
