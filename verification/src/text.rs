//! Character-level text primitives with the semantics of the standard
//! library's `str` operations: Unicode whitespace trimming, single-character
//! splitting, ASCII case folding, integer parsing and decimal formatting.
use vstd::prelude::*;
use vstd::slice::slice_subrange;

verus! {

/// Characters with the Unicode White_Space property.
pub open spec fn is_ws(c: char) -> bool {
    let u = c as u32;
    ||| 0x09 <= u <= 0x0d
    ||| u == 0x20
    ||| u == 0x85
    ||| u == 0xa0
    ||| u == 0x1680
    ||| 0x2000 <= u <= 0x200a
    ||| u == 0x2028
    ||| u == 0x2029
    ||| u == 0x202f
    ||| u == 0x205f
    ||| u == 0x3000
}

pub fn is_whitespace(c: char) -> (r: bool)
    ensures
        r == is_ws(c),
{
    let u = c as u32;
    (0x09 <= u && u <= 0x0d) || u == 0x20 || u == 0x85 || u == 0xa0 || u == 0x1680 || (0x2000
        <= u && u <= 0x200a) || u == 0x2028 || u == 0x2029 || u == 0x202f || u == 0x205f || u
        == 0x3000
}

pub open spec fn trim_start(s: Seq<char>) -> Seq<char>
    decreases s.len(),
{
    if s.len() > 0 && is_ws(s[0]) {
        trim_start(s.drop_first())
    } else {
        s
    }
}

pub open spec fn trim_end(s: Seq<char>) -> Seq<char>
    decreases s.len(),
{
    if s.len() > 0 && is_ws(s.last()) {
        trim_end(s.drop_last())
    } else {
        s
    }
}

pub open spec fn trim(s: Seq<char>) -> Seq<char> {
    trim_end(trim_start(s))
}

/// The text without leading Unicode whitespace.
pub fn trim_start_chars(s: &[char]) -> (r: &[char])
    ensures
        r@ == trim_start(s@),
{
    let mut i: usize = 0;
    assert(s@.subrange(0, s@.len() as int) == s@);
    while i < s.len() && is_whitespace(s[i])
        invariant
            i <= s@.len(),
            trim_start(s@.subrange(i as int, s@.len() as int)) == trim_start(s@),
        decreases s@.len() - i,
    {
        assert(s@.subrange(i as int, s@.len() as int).drop_first() == s@.subrange(
            i + 1,
            s@.len() as int,
        ));
        i = i + 1;
    }
    let r = slice_subrange(s, i, s.len());
    if i < s.len() {
        assert(!is_ws(r@[0]));
    }
    r
}

/// The text without trailing Unicode whitespace.
pub fn trim_end_chars(s: &[char]) -> (r: &[char])
    ensures
        r@ == trim_end(s@),
{
    let mut j: usize = s.len();
    assert(s@.subrange(0, s@.len() as int) == s@);
    while j > 0 && is_whitespace(s[j - 1])
        invariant
            j <= s@.len(),
            trim_end(s@.subrange(0, j as int)) == trim_end(s@),
        decreases j,
    {
        assert(s@.subrange(0, j as int).drop_last() == s@.subrange(0, j - 1));
        j = j - 1;
    }
    let r = slice_subrange(s, 0, j);
    assert(s@.subrange(0, s@.len() as int) == s@);
    r
}

/// The text without leading and trailing Unicode whitespace.
pub fn trim_chars(s: &[char]) -> (r: &[char])
    ensures
        r@ == trim(s@),
{
    let t = trim_start_chars(s);
    trim_end_chars(t)
}

/// The first index holding `c`, if any.
pub open spec fn first_index(s: Seq<char>, c: char) -> Option<int>
    decreases s.len(),
{
    if s.len() == 0 {
        None
    } else if s[0] == c {
        Some(0)
    } else {
        match first_index(s.drop_first(), c) {
            Some(i) => Some(i + 1),
            None => None,
        }
    }
}

pub proof fn lemma_first_index(s: Seq<char>, c: char)
    ensures
        first_index(s, c) matches Some(i) ==> 0 <= i < s.len() && s[i] == c && forall|j: int|
            0 <= j < i ==> s[j] != c,
        first_index(s, c) is None ==> forall|j: int| 0 <= j < s.len() ==> s[j] != c,
    decreases s.len(),
{
    if s.len() > 0 && s[0] != c {
        lemma_first_index(s.drop_first(), c);
        if first_index(s.drop_first(), c) is None {
            assert forall|j: int| 0 <= j < s.len() implies s[j] != c by {
                if j > 0 {
                    assert(s[j] == s.drop_first()[j - 1]);
                }
            }
        } else {
            let i = first_index(s.drop_first(), c).unwrap();
            assert forall|j: int| 0 <= j < i + 1 implies s[j] != c by {
                if j > 0 {
                    assert(s[j] == s.drop_first()[j - 1]);
                }
            }
        }
    }
}

pub proof fn lemma_first_index_char(s: Seq<char>, c: char, i: int)
    requires
        0 <= i < s.len(),
        s[i] == c,
        forall|j: int| 0 <= j < i ==> s[j] != c,
    ensures
        first_index(s, c) == Some(i),
    decreases s.len(),
{
    if i > 0 {
        assert forall|j: int| 0 <= j < i - 1 implies s.drop_first()[j] != c by {
            assert(s.drop_first()[j] == s[j + 1]);
        }
        lemma_first_index_char(s.drop_first(), c, i - 1);
    }
}

pub proof fn lemma_first_index_none(s: Seq<char>, c: char)
    requires
        forall|j: int| 0 <= j < s.len() ==> s[j] != c,
    ensures
        first_index(s, c) is None,
    decreases s.len(),
{
    if s.len() > 0 {
        assert forall|j: int| 0 <= j < s.len() - 1 implies s.drop_first()[j] != c by {
            assert(s.drop_first()[j] == s[j + 1]);
        }
        lemma_first_index_none(s.drop_first(), c);
    }
}

/// Position of the first `c` in the text.
pub fn find_char(s: &[char], c: char) -> (r: Option<usize>)
    ensures
        r matches Some(i) ==> first_index(s@, c) == Some(i as int),
        r is None <==> first_index(s@, c) is None,
{
    let mut i: usize = 0;
    while i < s.len()
        invariant
            i <= s@.len(),
            forall|j: int| 0 <= j < i ==> s@[j] != c,
        decreases s@.len() - i,
    {
        if s[i] == c {
            proof {
                lemma_first_index_char(s@, c, i as int);
            }
            return Some(i);
        }
        i = i + 1;
    }
    proof {
        lemma_first_index_none(s@, c);
    }
    None
}

/// The text before and after the first `c`, as `str::split_once` gives them.
pub open spec fn split_once(s: Seq<char>, c: char) -> Option<(Seq<char>, Seq<char>)> {
    match first_index(s, c) {
        Some(i) => Some((s.subrange(0, i), s.subrange(i + 1, s.len() as int))),
        None => None,
    }
}

pub fn split_once_chars(s: &[char], c: char) -> (r: Option<(&[char], &[char])>)
    ensures
        r matches Some(p) ==> split_once(s@, c) == Some((p.0@, p.1@)),
        r is None <==> split_once(s@, c) is None,
{
    match find_char(s, c) {
        Some(i) => {
            proof {
                lemma_first_index(s@, c);
            }
            assert(i < s.len());
            Some((slice_subrange(s, 0, i), slice_subrange(s, i + 1, s.len())))
        },
        None => None,
    }
}

/// The pieces between occurrences of `c`, as `str::split` yields them.
pub open spec fn split(s: Seq<char>, c: char) -> Seq<Seq<char>>
    decreases s.len(),
{
    match first_index(s, c) {
        Some(i) => {
            if 0 <= i < s.len() {
                seq![s.subrange(0, i)] + split(s.subrange(i + 1, s.len() as int), c)
            } else {
                seq![s]
            }
        },
        None => seq![s],
    }
}

/// Every piece of the text between occurrences of `c`.
pub fn split_chars(s: &[char], c: char) -> (r: Vec<&[char]>)
    ensures
        r@.map_values(|p: &[char]| p@) == split(s@, c),
{
    let mut out: Vec<&[char]> = Vec::new();
    let mut rest: &[char] = s;
    loop
        invariant
            out@.map_values(|p: &[char]| p@) + split(rest@, c) == split(s@, c),
        decreases rest@.len(),
    {
        let ghost before = out@.map_values(|p: &[char]| p@);
        match find_char(rest, c) {
            Some(i) => {
                proof {
                    lemma_first_index(rest@, c);
                }
                assert(i < rest.len());
                let head = slice_subrange(rest, 0, i);
                let tail = slice_subrange(rest, i + 1, rest.len());
                out.push(head);
                assert(out@.map_values(|p: &[char]| p@) == before + seq![head@]);
                assert(split(rest@, c) == seq![head@] + split(tail@, c));
                rest = tail;
            },
            None => {
                out.push(rest);
                assert(out@.map_values(|p: &[char]| p@) == before + seq![rest@]);
                return out;
            },
        }
    }
}

/// ASCII case folding of one character.
pub open spec fn to_lower(c: char) -> char {
    if 'A' <= c <= 'Z' {
        ((c as u32) + 32) as char
    } else {
        c
    }
}

/// Equality after folding ASCII letters, as `str::eq_ignore_ascii_case`.
pub open spec fn eq_ignore_ascii_case(a: Seq<char>, b: Seq<char>) -> bool {
    a.len() == b.len() && forall|i: int| 0 <= i < a.len() ==> #[trigger] to_lower(a[i]) == to_lower(b[i])
}

pub fn lower(c: char) -> (r: char)
    ensures
        r == to_lower(c),
{
    if 'A' <= c && c <= 'Z' {
        let u: u8 = (c as u8) + 32;
        u as char
    } else {
        c
    }
}

pub fn eq_ignore_case(a: &[char], b: &[char]) -> (r: bool)
    ensures
        r == eq_ignore_ascii_case(a@, b@),
{
    if a.len() != b.len() {
        return false;
    }
    let mut i: usize = 0;
    while i < a.len()
        invariant
            a@.len() == b@.len(),
            i <= a@.len(),
            forall|j: int| 0 <= j < i ==> #[trigger] to_lower(a@[j]) == to_lower(b@[j]),
        decreases a@.len() - i,
    {
        if lower(a[i]) != lower(b[i]) {
            return false;
        }
        i = i + 1;
    }
    true
}

/// Exact text equality.
pub fn chars_eq(a: &[char], b: &[char]) -> (r: bool)
    ensures
        r == (a@ == b@),
{
    if a.len() != b.len() {
        return false;
    }
    let mut i: usize = 0;
    while i < a.len()
        invariant
            a@.len() == b@.len(),
            i <= a@.len(),
            forall|j: int| 0 <= j < i ==> a@[j] == b@[j],
        decreases a@.len() - i,
    {
        if a[i] != b[i] {
            return false;
        }
        i = i + 1;
    }
    assert(a@ == b@);
    true
}


proof fn lemma_trim_start_no_lead(s: Seq<char>)
    ensures
        trim_start(s).len() > 0 ==> !is_ws(trim_start(s)[0]),
        trim_start(trim_start(s)) == trim_start(s),
    decreases s.len(),
{
    if s.len() > 0 && is_ws(s[0]) {
        lemma_trim_start_no_lead(s.drop_first());
    }
}

proof fn lemma_trim_end_no_trail(s: Seq<char>)
    ensures
        trim_end(s).len() > 0 ==> !is_ws(trim_end(s).last()),
        trim_end(trim_end(s)) == trim_end(s),
    decreases s.len(),
{
    if s.len() > 0 && is_ws(s.last()) {
        lemma_trim_end_no_trail(s.drop_last());
    }
}

proof fn lemma_trim_end_keeps_start(s: Seq<char>)
    requires
        s.len() > 0 ==> !is_ws(s[0]),
    ensures
        trim_start(trim_end(s)) == trim_end(s),
    decreases s.len(),
{
    if s.len() > 0 && is_ws(s.last()) {
        if s.len() > 1 {
            assert(s.drop_last()[0] == s[0]);
        }
        lemma_trim_end_keeps_start(s.drop_last());
    }
}

/// Trimming twice is trimming once.
pub proof fn lemma_trim_idempotent(s: Seq<char>)
    ensures
        trim(trim(s)) == trim(s),
{
    let a = trim_start(s);
    lemma_trim_start_no_lead(s);
    lemma_trim_end_keeps_start(a);
    let t = trim_end(a);
    assert(trim_start(t) == t);
    lemma_trim_end_no_trail(a);
}


/// The maximal runs of non-whitespace characters, as `str::split_whitespace`
/// yields them; `cur` is the run in progress.
pub open spec fn words_from(s: Seq<char>, cur: Seq<char>) -> Seq<Seq<char>>
    decreases s.len(),
{
    let done = if cur.len() > 0 { seq![cur] } else { Seq::<Seq<char>>::empty() };
    if s.len() == 0 {
        done
    } else if is_ws(s[0]) {
        done + words_from(s.drop_first(), Seq::<char>::empty())
    } else {
        words_from(s.drop_first(), cur.push(s[0]))
    }
}

pub open spec fn words(s: Seq<char>) -> Seq<Seq<char>> {
    words_from(s, Seq::<char>::empty())
}

/// The whitespace-separated words of the text.
pub fn split_whitespace_chars(s: &[char]) -> (r: Vec<Vec<char>>)
    ensures
        r@.map_values(|w: Vec<char>| w@) == words(s@),
{
    let mut out: Vec<Vec<char>> = Vec::new();
    let mut cur: Vec<char> = Vec::new();
    let mut i: usize = 0;
    assert(s@.subrange(0, s@.len() as int) == s@);
    while i < s.len()
        invariant
            i <= s@.len(),
            out@.map_values(|w: Vec<char>| w@) + words_from(s@.subrange(i as int, s@.len() as int), cur@)
                == words(s@),
        decreases s@.len() - i,
    {
        let ghost rest = s@.subrange(i as int, s@.len() as int);
        assert(rest.drop_first() == s@.subrange(i + 1, s@.len() as int));
        assert(rest[0] == s@[i as int]);
        let ghost before = out@.map_values(|w: Vec<char>| w@);
        if is_whitespace(s[i]) {
            if cur.len() > 0 {
                let word = cur;
                out.push(word);
                assert(out@.map_values(|w: Vec<char>| w@) == before + seq![word@]);
                cur = Vec::new();
            } else {
                assert(before + Seq::<Seq<char>>::empty() == before);
            }
            assert(cur@ == Seq::<char>::empty());
        } else {
            cur.push(s[i]);
        }
        i = i + 1;
    }
    let ghost before = out@.map_values(|w: Vec<char>| w@);
    if cur.len() > 0 {
        let word = cur;
        out.push(word);
        assert(out@.map_values(|w: Vec<char>| w@) == before + seq![word@]);
    } else {
        assert(before + Seq::<Seq<char>>::empty() == before);
    }
    out
}


pub open spec fn has_prefix(s: Seq<char>, p: Seq<char>) -> bool {
    p.len() <= s.len() && s.subrange(0, p.len() as int) == p
}

pub open spec fn has_suffix(s: Seq<char>, p: Seq<char>) -> bool {
    p.len() <= s.len() && s.subrange(s.len() - p.len(), s.len() as int) == p
}

/// `pat` occurs somewhere in `s`.
pub open spec fn contains_sub(s: Seq<char>, pat: Seq<char>) -> bool {
    exists|i: int| 0 <= i <= s.len() - pat.len() && #[trigger] s.subrange(i, i + pat.len()) == pat
}

pub fn starts_with(s: &[char], p: &[char]) -> (r: bool)
    ensures
        r == has_prefix(s@, p@),
{
    if p.len() > s.len() {
        return false;
    }
    chars_eq(slice_subrange(s, 0, p.len()), p)
}

pub fn ends_with(s: &[char], p: &[char]) -> (r: bool)
    ensures
        r == has_suffix(s@, p@),
{
    if p.len() > s.len() {
        return false;
    }
    chars_eq(slice_subrange(s, s.len() - p.len(), s.len()), p)
}

pub fn contains_chars(s: &[char], pat: &[char]) -> (r: bool)
    ensures
        r == contains_sub(s@, pat@),
{
    if pat.len() > s.len() {
        return false;
    }
    if pat.len() == 0 {
        assert(s@.subrange(0int, 0int + pat@.len()) == pat@);
        return true;
    }
    let mut i: usize = 0;
    while i <= s.len() - pat.len()
        invariant
            0 < pat@.len() <= s@.len(),
            i <= s@.len() - pat@.len() + 1,
            forall|j: int| 0 <= j < i ==> #[trigger] s@.subrange(j, j + pat@.len()) != pat@,
        decreases s@.len() - pat@.len() + 1 - i,
    {
        if chars_eq(slice_subrange(s, i, i + pat.len()), pat) {
            return true;
        }
        assert(i < s.len());
        i = i + 1;
    }
    false
}

/// Append text to a character buffer.
pub fn push_chars(out: &mut Vec<char>, s: &[char])
    ensures
        final(out)@ == old(out)@ + s@,
{
    out.extend_from_slice(s);
}

/// Append a string's characters to a character buffer.
pub fn push_str(out: &mut Vec<char>, s: &str)
    ensures
        final(out)@ == old(out)@ + s@,
{
    let v = crate::decode::text_chars(s);
    out.extend_from_slice(v.as_slice());
}

/// The characters of a string.
pub fn chars_of(s: &str) -> (r: Vec<char>)
    ensures
        r@ == s@,
{
    crate::decode::text_chars(s)
}

/// Exact equality of two strings.
pub fn str_eq(a: &str, b: &str) -> (r: bool)
    ensures
        r == (a@ == b@),
{
    let x = chars_of(a);
    let y = chars_of(b);
    chars_eq(x.as_slice(), y.as_slice())
}

/// Whether `pat` occurs in the string.
pub fn str_contains(s: &str, pat: &str) -> (r: bool)
    ensures
        r == contains_sub(s@, pat@),
{
    let x = chars_of(s);
    let y = chars_of(pat);
    contains_chars(x.as_slice(), y.as_slice())
}


/// The first position where `pat` occurs in `s`.
pub open spec fn first_sub(s: Seq<char>, pat: Seq<char>) -> Option<int> {
    if exists|i: int| 0 <= i <= s.len() - pat.len() && #[trigger] s.subrange(i, i + pat.len()) == pat {
        Some(
            choose|i: int|
                0 <= i <= s.len() - pat.len() && #[trigger] s.subrange(i, i + pat.len()) == pat
                    && forall|j: int|
                    0 <= j < i ==> #[trigger] s.subrange(j, j + pat.len()) != pat,
        )
    } else {
        None
    }
}

/// The text before and after the first occurrence of `pat`, as
/// `str::split_once` with a string pattern gives them.
pub open spec fn split_once_sub(s: Seq<char>, pat: Seq<char>) -> Option<(Seq<char>, Seq<char>)> {
    match first_sub(s, pat) {
        Some(i) => Some((s.subrange(0, i), s.subrange(i + pat.len(), s.len() as int))),
        None => None,
    }
}

pub fn split_once_str<'a>(s: &'a [char], pat: &[char]) -> (r: Option<(&'a [char], &'a [char])>)
    ensures
        r matches Some(p) ==> split_once_sub(s@, pat@) == Some((p.0@, p.1@)),
        r is None <==> split_once_sub(s@, pat@) is None,
{
    if pat.len() > s.len() {
        return None;
    }
    let last: usize = s.len() - pat.len();
    let mut i: usize = 0;
    loop
        invariant
            pat@.len() <= s@.len(),
            last == s@.len() - pat@.len(),
            last + pat.len() == s.len(),
            i <= last,
            forall|j: int| 0 <= j < i ==> #[trigger] s@.subrange(j, j + pat@.len()) != pat@,
        decreases last - i,
    {
        if chars_eq(slice_subrange(s, i, i + pat.len()), pat) {
            proof {
                let w = choose|k: int|
                    0 <= k <= s@.len() - pat@.len() && #[trigger] s@.subrange(k, k + pat@.len()) == pat@
                        && forall|j: int|
                        0 <= j < k ==> #[trigger] s@.subrange(j, j + pat@.len()) != pat@;
                assert(0 <= i <= s@.len() - pat@.len() && s@.subrange(i as int, i + pat@.len())
                    == pat@ && forall|j: int|
                    0 <= j < i ==> #[trigger] s@.subrange(j, j + pat@.len()) != pat@);
                if w < i {
                    assert(s@.subrange(w, w + pat@.len()) != pat@);
                }
                if w > i {
                    assert(s@.subrange(i as int, i + pat@.len()) != pat@);
                }
                assert(first_sub(s@, pat@) == Some(i as int));
            }
            return Some((slice_subrange(s, 0, i), slice_subrange(s, i + pat.len(), s.len())));
        }
        if i == last {
            proof {
                assert(!exists|k: int|
                    0 <= k <= s@.len() - pat@.len() && #[trigger] s@.subrange(k, k + pat@.len())
                        == pat@);
            }
            return None;
        }
        i = i + 1;
    }
}

/// The text before the first of `stops`, or all of it.
pub open spec fn take_until(s: Seq<char>, stops: Seq<char>) -> Seq<char>
    decreases s.len(),
{
    if s.len() == 0 || stops.contains(s[0]) {
        Seq::empty()
    } else {
        seq![s[0]] + take_until(s.drop_first(), stops)
    }
}

pub fn take_until_chars<'a>(s: &'a [char], stops: &[char]) -> (r: &'a [char])
    ensures
        r@ == take_until(s@, stops@),
{
    let mut i: usize = 0;
    assert(s@.subrange(0, 0) + s@.subrange(0, s@.len() as int) == s@.subrange(0, s@.len() as int));
    assert(s@.subrange(0, s@.len() as int) == s@);
    while i < s.len()
        invariant
            i <= s@.len(),
            take_until(s@, stops@) == s@.subrange(0, i as int) + take_until(
                s@.subrange(i as int, s@.len() as int),
                stops@,
            ),
        decreases s@.len() - i,
    {
        let c = s[i];
        let mut k: usize = 0;
        let mut hit = false;
        while k < stops.len()
            invariant
                k <= stops@.len(),
                hit == exists|j: int| 0 <= j < k && stops@[j] == c,
            decreases stops@.len() - k,
        {
            if stops[k] == c {
                hit = true;
            }
            k = k + 1;
        }
        let ghost rest = s@.subrange(i as int, s@.len() as int);
        assert(rest[0] == c);
        assert(hit == stops@.contains(c));
        if hit {
            assert(take_until(rest, stops@) == Seq::<char>::empty());
            assert(s@.subrange(0, i as int) + Seq::<char>::empty() == s@.subrange(0, i as int));
            return slice_subrange(s, 0, i);
        }
        assert(rest.drop_first() == s@.subrange(i + 1, s@.len() as int));
        assert(s@.subrange(0, i + 1) == s@.subrange(0, i as int) + seq![c]);
        i = i + 1;
    }
    assert(s@.subrange(0, s@.len() as int) == s@);
    s
}

/// The parts with `sep` between neighbours, as `[&str]::join` builds them.
pub open spec fn join(parts: Seq<Seq<char>>, sep: Seq<char>) -> Seq<char>
    decreases parts.len(),
{
    if parts.len() == 0 {
        Seq::empty()
    } else if parts.len() == 1 {
        parts[0]
    } else {
        join(parts.drop_last(), sep) + sep + parts.last()
    }
}

/// The views of a list of strings.
pub open spec fn str_views(parts: Seq<&str>) -> Seq<Seq<char>> {
    parts.map_values(|p: &str| p@)
}

/// Append the parts with `sep` between neighbours.
pub fn push_joined(out: &mut Vec<char>, parts: &[&str], sep: &str)
    ensures
        final(out)@ == old(out)@ + join(str_views(parts@), sep@),
{
    let ghost base = out@;
    let ghost all = str_views(parts@);
    let mut i: usize = 0;
    while i < parts.len()
        invariant
            i <= parts@.len(),
            all == str_views(parts@),
            out@ == base + join(all.subrange(0, i as int), sep@),
        decreases parts@.len() - i,
    {
        let ghost prev = all.subrange(0, i as int);
        if i > 0 {
            push_str(out, sep);
        }
        push_str(out, parts[i]);
        proof {
            let next = all.subrange(0, i + 1);
            assert(next.drop_last() == prev);
            assert(next.last() == parts@[i as int]@);
        }
        i = i + 1;
    }
    assert(all.subrange(0, parts@.len() as int) == all);
}

proof fn lemma_words_through_word(w: Seq<char>, rest: Seq<char>, cur: Seq<char>)
    requires
        forall|i: int| 0 <= i < w.len() ==> !is_ws(#[trigger] w[i]),
    ensures
        words_from(w + rest, cur) == words_from(rest, cur + w),
    decreases w.len(),
{
    if w.len() > 0 {
        let s = w + rest;
        assert(s[0] == w[0]);
        assert(s.drop_first() == w.drop_first() + rest);
        assert forall|i: int| 0 <= i < w.drop_first().len() implies !is_ws(#[trigger] w.drop_first()[i]) by {
            assert(w.drop_first()[i] == w[i + 1]);
        }
        lemma_words_through_word(w.drop_first(), rest, cur.push(w[0]));
        assert(cur.push(w[0]) + w.drop_first() == cur + w);
    } else {
        assert(w + rest == rest);
        assert(cur + w == cur);
    }
}

/// Two words separated by a space split back into those two words.
pub proof fn lemma_words_of_pair(a: Seq<char>, b: Seq<char>)
    requires
        a.len() > 0,
        b.len() > 0,
        forall|i: int| 0 <= i < a.len() ==> !is_ws(#[trigger] a[i]),
        forall|i: int| 0 <= i < b.len() ==> !is_ws(#[trigger] b[i]),
    ensures
        words(a + seq![' '] + b) == seq![a, b],
{
    let e = Seq::<char>::empty();
    let tail = seq![' '] + b;
    assert(a + seq![' '] + b == a + tail);
    lemma_words_through_word(a, tail, e);
    assert(e + a == a);
    assert(tail[0] == ' ');
    assert(is_ws(' '));
    assert(tail.drop_first() == b);
    assert(words_from(tail, a) == seq![a] + words_from(b, e));
    lemma_words_through_word(b, e, e);
    assert(b + e == b);
    assert(e + b == b);
    assert(words_from(e, b) == seq![b]);
}

/// Splitting after a leading piece free of `c` yields that piece first.
pub proof fn lemma_split_after(a: Seq<char>, b: Seq<char>, c: char)
    requires
        forall|j: int| 0 <= j < a.len() ==> a[j] != c,
    ensures
        split(a + seq![c] + b, c) == seq![a] + split(b, c),
{
    let s = a + seq![c] + b;
    assert forall|j: int| 0 <= j < a.len() implies s[j] != c by {
        assert(s[j] == a[j]);
    }
    lemma_first_index_char(s, c, a.len() as int);
    assert(s.subrange(0, a.len() as int) == a);
    assert(s.subrange(a.len() as int + 1, s.len() as int) == b);
}

/// A text free of `c` splits into itself alone.
pub proof fn lemma_split_whole(a: Seq<char>, c: char)
    requires
        forall|j: int| 0 <= j < a.len() ==> a[j] != c,
    ensures
        split(a, c) == seq![a],
{
    lemma_first_index_none(a, c);
}

/// A run of `k` spaces, as width padding writes it.
pub open spec fn spaces(k: nat) -> Seq<char> {
    Seq::new(k, |i: int| ' ')
}

proof fn lemma_trim_start_spaces(k: nat, d: Seq<char>)
    requires
        d.len() > 0,
        !is_ws(d[0]),
    ensures
        trim_start(spaces(k) + d) == d,
    decreases k,
{
    let s = spaces(k) + d;
    if k > 0 {
        assert(s[0] == ' ');
        assert(s.drop_first() == spaces((k - 1) as nat) + d);
        lemma_trim_start_spaces((k - 1) as nat, d);
    } else {
        assert(s == d);
    }
}

/// Space padding before a field without surrounding whitespace is trimmed
/// away and nothing else is.
pub proof fn lemma_trim_padded(k: nat, d: Seq<char>)
    requires
        d.len() > 0,
        !is_ws(d[0]),
        !is_ws(d.last()),
    ensures
        trim(spaces(k) + d) == d,
{
    lemma_trim_start_spaces(k, d);
}

/// Trailing whitespace is trimmed only from what follows a character that is
/// not whitespace.
pub proof fn lemma_trim_end_concat(a: Seq<char>, b: Seq<char>)
    requires
        a.len() > 0,
        !is_ws(a.last()),
    ensures
        trim_end(a + b) == a + trim_end(b),
    decreases b.len(),
{
    let s = a + b;
    if b.len() == 0 {
        assert(s == a);
        assert(a + trim_end(b) == a);
    } else if is_ws(b.last()) {
        assert(s.drop_last() == a + b.drop_last());
        lemma_trim_end_concat(a, b.drop_last());
    } else {
        assert(s.last() == b.last());
    }
}

/// Trimming the end keeps a prefix, and keeps a first character that is not
/// whitespace.
pub proof fn lemma_trim_end_prefix(s: Seq<char>)
    ensures
        trim_end(s).len() <= s.len(),
        forall|i: int| 0 <= i < trim_end(s).len() ==> #[trigger] trim_end(s)[i] == s[i],
        s.len() > 0 && !is_ws(s[0]) ==> trim_end(s).len() > 0,
    decreases s.len(),
{
    if s.len() > 0 && is_ws(s.last()) {
        lemma_trim_end_prefix(s.drop_last());
        if s.len() > 1 {
            assert(s.drop_last()[0] == s[0]);
        }
    }
}

} // verus!
