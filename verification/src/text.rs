//! Character-level string operations with their exact meaning stated over
//! `Seq<char>`.  Every exec function here works on `Vec<char>` so that the
//! rest of the library can reason about text one character at a time.
use vstd::prelude::*;

verus! {

/// `String::push` appends one character: its documentation says so, and
/// the contract claims exactly that of the string's characters.
pub assume_specification[ String::push ](s: &mut String, ch: char)
    ensures
        final(s)@ == old(s)@.push(ch),
;

// ───────────────────────── character classes ─────────────────────────

/// Unicode `White_Space`, the set that `char::is_whitespace` (and so
/// `str::trim`) uses.
pub open spec fn is_ws(c: char) -> bool {
    let u = c as u32;
    ||| 0x9 <= u <= 0xD
    ||| u == 0x20
    ||| u == 0x85
    ||| u == 0xA0
    ||| u == 0x1680
    ||| 0x2000 <= u <= 0x200A
    ||| u == 0x2028
    ||| u == 0x2029
    ||| u == 0x202F
    ||| u == 0x205F
    ||| u == 0x3000
}

pub open spec fn is_ascii_lower(c: char) -> bool {
    'a' <= c && c <= 'z'
}

pub open spec fn is_ascii_upper(c: char) -> bool {
    'A' <= c && c <= 'Z'
}

pub open spec fn is_ascii_digit(c: char) -> bool {
    '0' <= c && c <= '9'
}

pub open spec fn is_ascii_alnum(c: char) -> bool {
    is_ascii_lower(c) || is_ascii_upper(c) || is_ascii_digit(c)
}

pub open spec fn is_ascii_char(c: char) -> bool {
    (c as u32) < 128
}

pub open spec fn ascii_upper(c: char) -> char {
    if is_ascii_lower(c) {
        ((c as u32) - 32) as char
    } else {
        c
    }
}

pub open spec fn ascii_lower(c: char) -> char {
    if is_ascii_upper(c) {
        ((c as u32) + 32) as char
    } else {
        c
    }
}

pub open spec fn all_ascii(s: Seq<char>) -> bool {
    forall|i: int| 0 <= i < s.len() ==> is_ascii_char(#[trigger] s[i])
}

pub open spec fn lacks(s: Seq<char>, c: char) -> bool {
    forall|i: int| 0 <= i < s.len() ==> #[trigger] s[i] != c
}

// ───────────────────────── sequence operations ─────────────────────────

pub open spec fn starts_with(s: Seq<char>, p: Seq<char>) -> bool {
    p.len() <= s.len() && s.take(p.len() as int) == p
}

pub open spec fn ends_with(s: Seq<char>, p: Seq<char>) -> bool {
    p.len() <= s.len() && s.skip(s.len() - p.len()) == p
}

/// `str::trim_start`.
pub open spec fn trim_start_ws(s: Seq<char>) -> Seq<char>
    decreases s.len(),
{
    if s.len() > 0 && is_ws(s[0]) {
        trim_start_ws(s.drop_first())
    } else {
        s
    }
}

/// `str::trim_end`.
pub open spec fn trim_end_ws(s: Seq<char>) -> Seq<char>
    decreases s.len(),
{
    if s.len() > 0 && is_ws(s.last()) {
        trim_end_ws(s.drop_last())
    } else {
        s
    }
}

/// `str::trim`.
pub open spec fn trim_ws(s: Seq<char>) -> Seq<char> {
    trim_end_ws(trim_start_ws(s))
}

/// `str::trim_start_matches(c)` for a single character.
pub open spec fn trim_start_ch(s: Seq<char>, c: char) -> Seq<char>
    decreases s.len(),
{
    if s.len() > 0 && s[0] == c {
        trim_start_ch(s.drop_first(), c)
    } else {
        s
    }
}

/// `str::trim_end_matches(c)` for a single character.
pub open spec fn trim_end_ch(s: Seq<char>, c: char) -> Seq<char>
    decreases s.len(),
{
    if s.len() > 0 && s.last() == c {
        trim_end_ch(s.drop_last(), c)
    } else {
        s
    }
}

/// `str::trim_matches(c)` for a single character.
pub open spec fn trim_ch(s: Seq<char>, c: char) -> Seq<char> {
    trim_end_ch(trim_start_ch(s, c), c)
}

/// `str::trim_end_matches(p)` for a non-empty pattern: strips `p` from the
/// end as many times as it occurs there.
pub open spec fn trim_end_pat(s: Seq<char>, p: Seq<char>) -> Seq<char>
    decreases s.len(),
{
    if p.len() > 0 && ends_with(s, p) {
        trim_end_pat(s.take(s.len() - p.len()), p)
    } else {
        s
    }
}

/// `str::replace(a, b)` for a single character `a`.
pub open spec fn replace_ch(s: Seq<char>, a: char, b: Seq<char>) -> Seq<char>
    decreases s.len(),
{
    if s.len() == 0 {
        s
    } else {
        replace_ch(s.drop_last(), a, b) + (if s.last() == a {
            b
        } else {
            seq![s.last()]
        })
    }
}

/// `str::find(p)` for a non-empty pattern: the first position at which `p`
/// occurs.
pub open spec fn find(s: Seq<char>, p: Seq<char>) -> Option<int>
    decreases s.len(),
{
    if s.len() == 0 {
        None
    } else {
        match find(s.drop_last(), p) {
            Some(i) => Some(i),
            None => if ends_with(s, p) {
                Some(s.len() - p.len())
            } else {
                None
            },
        }
    }
}

/// `str::rfind(c)`.
pub open spec fn last_index(s: Seq<char>, c: char) -> Option<int>
    decreases s.len(),
{
    if s.len() == 0 {
        None
    } else if s.last() == c {
        Some(s.len() - 1)
    } else {
        last_index(s.drop_last(), c)
    }
}

/// `s.rsplit(c).next().unwrap()`: everything after the last `c`.
pub open spec fn last_segment(s: Seq<char>, c: char) -> Seq<char>
    decreases s.len(),
{
    if s.len() == 0 {
        s
    } else if s.last() == c {
        Seq::empty()
    } else {
        last_segment(s.drop_last(), c).push(s.last())
    }
}

/// `str::split(c)`: the pieces between occurrences of `c`.
pub open spec fn split_ch(s: Seq<char>, c: char) -> Seq<Seq<char>>
    decreases s.len(),
{
    if s.len() == 0 {
        seq![Seq::<char>::empty()]
    } else {
        let p = split_ch(s.drop_last(), c);
        if s.last() == c {
            p.push(Seq::empty())
        } else {
            p.update(p.len() - 1, p.last().push(s.last()))
        }
    }
}

/// `str::split_inclusive('\n')`: pieces that each end with the newline that
/// closed them (the final piece may lack one).
pub open spec fn split_lines_incl(s: Seq<char>) -> Seq<Seq<char>>
    decreases s.len(),
{
    if s.len() == 0 {
        Seq::empty()
    } else {
        let p = split_lines_incl(s.drop_last());
        if p.len() == 0 || p.last().last() == '\n' {
            p.push(seq![s.last()])
        } else {
            p.update(p.len() - 1, p.last().push(s.last()))
        }
    }
}

/// The line that `str::lines` makes of one inclusive piece: a final `"\n"`
/// and then a `"\r"` before it are removed.
pub open spec fn strip_line_end(p: Seq<char>) -> Seq<char> {
    if p.len() > 0 && p.last() == '\n' {
        let q = p.drop_last();
        if q.len() > 0 && q.last() == '\r' {
            q.drop_last()
        } else {
            q
        }
    } else {
        p
    }
}

/// `str::lines`.
pub open spec fn lines(s: Seq<char>) -> Seq<Seq<char>> {
    split_lines_incl(s).map_values(|p: Seq<char>| strip_line_end(p))
}

/// `str::split_once(c)`.
pub open spec fn split_once(s: Seq<char>, c: char) -> Option<(Seq<char>, Seq<char>)> {
    match find(s, seq![c]) {
        Some(i) => Some((s.take(i), s.skip(i + 1))),
        None => None,
    }
}

/// The decimal digits of `n`.
pub open spec fn dec_nat(n: nat) -> Seq<char>
    decreases n,
{
    if n < 10 {
        seq![digit_char(n)]
    } else {
        dec_nat(n / 10).push(digit_char(n % 10))
    }
}

pub open spec fn digit_char(d: nat) -> char {
    ((d + 48) as u32) as char
}

/// The `Display` text of an integer.
pub open spec fn dec_int(i: int) -> Seq<char> {
    if i < 0 {
        seq!['-'] + dec_nat((-i) as nat)
    } else {
        dec_nat(i as nat)
    }
}

/// The `Display` text of a `bool`.
pub open spec fn bool_text(b: bool) -> Seq<char> {
    if b {
        seq!['t', 'r', 'u', 'e']
    } else {
        seq!['f', 'a', 'l', 's', 'e']
    }
}

// ───────────────────────── exec: conversions ─────────────────────────

/// The characters of `s`, in order.
pub fn chars_of(s: &str) -> (res: Vec<char>)
    ensures
        res@ == s@,
{
    let mut res: Vec<char> = Vec::new();
    for c in it: s.chars()
        invariant
            res@ == it.seq().take(it.index() as int),
            it.seq() == s@,
    {
        res.push(c);
    }
    res
}

/// A string holding exactly the characters of `v`.
pub fn string_of(v: &Vec<char>) -> (res: String)
    ensures
        res@ == v@,
{
    let mut res = String::new();
    for i in 0..v.len()
        invariant
            res@ == v@.take(i as int),
    {
        res.push(v[i]);
        assert(v@.take(i + 1) == v@.take(i as int).push(v@[i as int]));
    }
    assert(v@.take(v.len() as int) == v@);
    res
}

/// Appends all of `src` to `dst`.
pub fn push_all(dst: &mut Vec<char>, src: &Vec<char>)
    ensures
        final(dst)@ == old(dst)@ + src@,
{
    let ghost start = dst@;
    for i in 0..src.len()
        invariant
            dst@ == start + src@.take(i as int),
    {
        dst.push(src[i]);
        assert(src@.take(i + 1) == src@.take(i as int).push(src@[i as int]));
    }
    assert(src@.take(src.len() as int) == src@);
}

/// `a` followed by `b`.
pub fn concat(a: &Vec<char>, b: &Vec<char>) -> (res: Vec<char>)
    ensures
        res@ == a@ + b@,
{
    let mut res = a.clone();
    push_all(&mut res, b);
    res
}

/// The characters `v[from..to]`.
pub fn slice_chars(v: &Vec<char>, from: usize, to: usize) -> (res: Vec<char>)
    requires
        from <= to <= v.len(),
    ensures
        res@ == v@.subrange(from as int, to as int),
{
    let mut res: Vec<char> = Vec::new();
    let mut i = from;
    while i < to
        invariant
            from <= i <= to <= v.len(),
            res@ == v@.subrange(from as int, i as int),
        decreases to - i,
    {
        res.push(v[i]);
        assert(v@.subrange(from as int, i + 1) == v@.subrange(from as int, i as int).push(
            v@[i as int],
        ));
        i = i + 1;
    }
    res
}

/// Whether `a` and `b` hold the same characters.
pub fn same(a: &Vec<char>, b: &Vec<char>) -> (res: bool)
    ensures
        res == (a@ == b@),
{
    if a.len() != b.len() {
        return false;
    }
    let mut i: usize = 0;
    while i < a.len()
        invariant
            a.len() == b.len(),
            i <= a.len(),
            forall|k: int| 0 <= k < i ==> a@[k] == b@[k],
        decreases a.len() - i,
    {
        if a[i] != b[i] {
            return false;
        }
        i = i + 1;
    }
    assert(a@ =~= b@);
    true
}

// ───────────────────────── exec: character classes ─────────────────────────

pub fn is_ws_char(c: char) -> (res: bool)
    ensures
        res == is_ws(c),
{
    let u = c as u32;
    (0x9 <= u && u <= 0xD) || u == 0x20 || u == 0x85 || u == 0xA0 || u == 0x1680 || (0x2000 <= u
        && u <= 0x200A) || u == 0x2028 || u == 0x2029 || u == 0x202F || u == 0x205F || u == 0x3000
}

pub fn upper_ascii_char(c: char) -> (res: char)
    ensures
        res == ascii_upper(c),
{
    if 'a' <= c && c <= 'z' {
        let b: u8 = ((c as u32) - 32) as u8;
        b as char
    } else {
        c
    }
}

pub fn lower_ascii_char(c: char) -> (res: char)
    ensures
        res == ascii_lower(c),
{
    if 'A' <= c && c <= 'Z' {
        let b: u8 = ((c as u32) + 32) as u8;
        b as char
    } else {
        c
    }
}

// ───────────────────────── exec: sequence operations ─────────────────────────

pub fn starts_with_chars(s: &Vec<char>, p: &Vec<char>) -> (res: bool)
    ensures
        res == starts_with(s@, p@),
{
    if p.len() > s.len() {
        return false;
    }
    let mut i: usize = 0;
    while i < p.len()
        invariant
            p.len() <= s.len(),
            i <= p.len(),
            forall|k: int| 0 <= k < i ==> s@[k] == p@[k],
        decreases p.len() - i,
    {
        if s[i] != p[i] {
            assert(s@.take(p.len() as int)[i as int] != p@[i as int]);
            return false;
        }
        i = i + 1;
    }
    assert(s@.take(p.len() as int) =~= p@);
    true
}

/// Whether `s[..end]` ends with `p`.
fn prefix_ends_with(s: &Vec<char>, end: usize, p: &Vec<char>) -> (res: bool)
    requires
        end <= s.len(),
    ensures
        res == ends_with(s@.take(end as int), p@),
{
    let ghost t = s@.take(end as int);
    if p.len() > end {
        return false;
    }
    let start = end - p.len();
    let mut i: usize = 0;
    while i < p.len()
        invariant
            start + p.len() == end <= s.len(),
            t == s@.take(end as int),
            i <= p.len(),
            forall|k: int| 0 <= k < i ==> s@[start + k] == p@[k],
        decreases p.len() - i,
    {
        if s[start + i] != p[i] {
            assert(t.skip(t.len() - p.len())[i as int] != p@[i as int]);
            return false;
        }
        i = i + 1;
    }
    assert(t.skip(t.len() - p.len()) =~= p@);
    true
}

pub fn ends_with_chars(s: &Vec<char>, p: &Vec<char>) -> (res: bool)
    ensures
        res == ends_with(s@, p@),
{
    assert(s@.take(s.len() as int) == s@);
    prefix_ends_with(s, s.len(), p)
}

pub fn trim_ws_chars(s: &Vec<char>) -> (res: Vec<char>)
    ensures
        res@ == trim_ws(s@),
{
    let mut i: usize = 0;
    assert(s@.skip(0) == s@);
    while i < s.len() && is_ws_char(s[i])
        invariant
            i <= s.len(),
            trim_start_ws(s@) == trim_start_ws(s@.skip(i as int)),
        decreases s.len() - i,
    {
        assert(s@.skip(i as int).drop_first() == s@.skip(i + 1));
        i = i + 1;
    }
    assert(trim_start_ws(s@) == s@.skip(i as int));
    let mut j: usize = s.len();
    while j > i && is_ws_char(s[j - 1])
        invariant
            i <= j <= s.len(),
            trim_ws(s@) == trim_end_ws(s@.subrange(i as int, j as int)),
        decreases j,
    {
        assert(s@.subrange(i as int, j as int).drop_last() == s@.subrange(i as int, j - 1));
        j = j - 1;
    }
    assert(s@.skip(i as int) == s@.subrange(i as int, s.len() as int));
    slice_chars(s, i, j)
}

pub fn trim_start_char(s: &Vec<char>, c: char) -> (res: Vec<char>)
    ensures
        res@ == trim_start_ch(s@, c),
{
    let mut i: usize = 0;
    assert(s@.skip(0) == s@);
    while i < s.len() && s[i] == c
        invariant
            i <= s.len(),
            trim_start_ch(s@, c) == trim_start_ch(s@.skip(i as int), c),
        decreases s.len() - i,
    {
        assert(s@.skip(i as int).drop_first() == s@.skip(i + 1));
        i = i + 1;
    }
    assert(s@.skip(i as int) == s@.subrange(i as int, s.len() as int));
    slice_chars(s, i, s.len())
}

pub fn trim_end_char(s: &Vec<char>, c: char) -> (res: Vec<char>)
    ensures
        res@ == trim_end_ch(s@, c),
{
    let mut j: usize = s.len();
    assert(s@.subrange(0, j as int) == s@);
    while j > 0 && s[j - 1] == c
        invariant
            j <= s.len(),
            trim_end_ch(s@, c) == trim_end_ch(s@.subrange(0, j as int), c),
        decreases j,
    {
        assert(s@.subrange(0, j as int).drop_last() == s@.subrange(0, j - 1));
        j = j - 1;
    }
    slice_chars(s, 0, j)
}

pub fn trim_char(s: &Vec<char>, c: char) -> (res: Vec<char>)
    ensures
        res@ == trim_ch(s@, c),
{
    let t = trim_start_char(s, c);
    trim_end_char(&t, c)
}

pub fn trim_end_pattern(s: &Vec<char>, p: &Vec<char>) -> (res: Vec<char>)
    requires
        p.len() > 0,
    ensures
        res@ == trim_end_pat(s@, p@),
{
    let mut j: usize = s.len();
    assert(s@.take(j as int) == s@);
    while prefix_ends_with(s, j, p)
        invariant
            j <= s.len(),
            p.len() > 0,
            trim_end_pat(s@, p@) == trim_end_pat(s@.take(j as int), p@),
        decreases j,
    {
        assert(s@.take(j as int).take(j - p.len()) == s@.take(j - p.len()));
        j = j - p.len();
    }
    assert(s@.take(j as int) == s@.subrange(0, j as int));
    slice_chars(s, 0, j)
}

pub fn replace_char(s: &Vec<char>, a: char, b: &Vec<char>) -> (res: Vec<char>)
    ensures
        res@ == replace_ch(s@, a, b@),
{
    let mut res: Vec<char> = Vec::new();
    assert(s@.take(0) =~= Seq::<char>::empty());
    for i in 0..s.len()
        invariant
            res@ == replace_ch(s@.take(i as int), a, b@),
    {
        assert(s@.take(i + 1).drop_last() == s@.take(i as int));
        if s[i] == a {
            push_all(&mut res, b);
        } else {
            res.push(s[i]);
        }
    }
    assert(s@.take(s.len() as int) == s@);
    res
}

/// The first position at which the non-empty `p` occurs in `s`.
pub fn find_chars(s: &Vec<char>, p: &Vec<char>) -> (res: Option<usize>)
    requires
        p.len() > 0,
    ensures
        match find(s@, p@) {
            Some(i) => res == Some(i as usize),
            None => res is None,
        },
{
    let mut k: usize = 0;
    assert(s@.take(0) =~= Seq::<char>::empty());
    while k < s.len()
        invariant
            k <= s.len(),
            p.len() > 0,
            find(s@.take(k as int), p@) is None,
        decreases s.len() - k,
    {
        k = k + 1;
        assert(s@.take(k as int).drop_last() == s@.take(k - 1));
        if prefix_ends_with(s, k, p) {
            assert(s@.take(k as int).len() == k);
            assert(s@ == s@.take(k as int) + s@.skip(k as int));
            proof {
                lemma_find_extends(s@.take(k as int), s@.skip(k as int), p@);
            }
            return Some(k - p.len());
        }
    }
    assert(s@.take(s.len() as int) == s@);
    None
}

/// Once a pattern is found in a prefix, extending the text keeps that first
/// position.
pub proof fn lemma_find_extends(a: Seq<char>, b: Seq<char>, p: Seq<char>)
    requires
        find(a, p) is Some,
    ensures
        find(a + b, p) == find(a, p),
    decreases b.len(),
{
    if b.len() == 0 {
        assert(a + b == a);
    } else {
        lemma_find_extends(a, b.drop_last(), p);
        assert((a + b).drop_last() == a + b.drop_last());
    }
}

pub fn last_index_char(s: &Vec<char>, c: char) -> (res: Option<usize>)
    ensures
        match last_index(s@, c) {
            Some(i) => res == Some(i as usize),
            None => res is None,
        },
{
    let mut j: usize = s.len();
    assert(s@.take(j as int) == s@);
    while j > 0
        invariant
            j <= s.len(),
            last_index(s@, c) == last_index(s@.take(j as int), c),
        decreases j,
    {
        if s[j - 1] == c {
            assert(s@.take(j as int).last() == c);
            return Some(j - 1);
        }
        assert(s@.take(j as int).drop_last() == s@.take(j - 1));
        j = j - 1;
    }
    None
}

/// A found last position is a position of `c`.
pub proof fn lemma_last_index_bounds(s: Seq<char>, c: char)
    requires
        last_index(s, c) is Some,
    ensures
        0 <= last_index(s, c)->0 < s.len(),
        s[last_index(s, c)->0] == c,
    decreases s.len(),
{
    if s.last() != c {
        lemma_last_index_bounds(s.drop_last(), c);
    }
}

pub fn last_segment_chars(s: &Vec<char>, c: char) -> (res: Vec<char>)
    ensures
        res@ == last_segment(s@, c),
{
    let mut res: Vec<char> = Vec::new();
    assert(s@.take(0) =~= Seq::<char>::empty());
    for i in 0..s.len()
        invariant
            res@ == last_segment(s@.take(i as int), c),
    {
        assert(s@.take(i + 1).drop_last() == s@.take(i as int));
        if s[i] == c {
            res = Vec::new();
        } else {
            res.push(s[i]);
        }
    }
    assert(s@.take(s.len() as int) == s@);
    res
}

pub open spec fn views(v: Seq<Vec<char>>) -> Seq<Seq<char>> {
    v.map_values(|x: Vec<char>| x@)
}

pub proof fn lemma_views_push(v: Seq<Vec<char>>, x: Vec<char>)
    ensures
        views(v.push(x)) == views(v).push(x@),
{
    assert(views(v.push(x)) =~= views(v).push(x@));
}

pub fn split_char(s: &Vec<char>, c: char) -> (res: Vec<Vec<char>>)
    ensures
        views(res@) == split_ch(s@, c),
{
    let mut done: Vec<Vec<char>> = Vec::new();
    let mut cur: Vec<char> = Vec::new();
    assert(s@.take(0) =~= Seq::<char>::empty());
    assert(views(done@).push(cur@) =~= split_ch(s@.take(0), c));
    for i in 0..s.len()
        invariant
            views(done@).push(cur@) == split_ch(s@.take(i as int), c),
    {
        assert(s@.take(i + 1).drop_last() == s@.take(i as int));
        let ghost before = views(done@).push(cur@);
        if s[i] == c {
            let finished = cur;
            done.push(finished);
            cur = Vec::new();
            assert(views(done@) == before);
        } else {
            cur.push(s[i]);
            assert(views(done@).push(cur@) =~= before.update(
                before.len() - 1,
                before.last().push(s@[i as int]),
            ));
        }
    }
    assert(s@.take(s.len() as int) == s@);
    done.push(cur);
    assert(views(done@) =~= split_ch(s@, c));
    done
}

pub fn lines_chars(s: &Vec<char>) -> (res: Vec<Vec<char>>)
    ensures
        views(res@) == lines(s@),
{
    let mut pieces: Vec<Vec<char>> = Vec::new();
    let mut cur: Vec<char> = Vec::new();
    assert(s@.take(0) =~= Seq::<char>::empty());
    for i in 0..s.len()
        invariant
            cur@.len() == 0 ==> views(pieces@) == split_lines_incl(s@.take(i as int)),
            cur@.len() > 0 ==> views(pieces@).push(cur@) == split_lines_incl(s@.take(i as int)),
            cur@.len() > 0 ==> cur@.last() != '\n',
            forall|k: int|
                0 <= k < pieces@.len() ==> (#[trigger] pieces@[k])@.len() > 0 && pieces@[k]@.last()
                    == '\n',
    {
        let ghost before = split_lines_incl(s@.take(i as int));
        let ghost old_pieces = pieces@;
        let ghost old_cur = cur@;
        let ch = s[i];
        assert(s@.take(i + 1).drop_last() == s@.take(i as int));
        assert(s@.take(i + 1).last() == ch);
        assert(split_lines_incl(s@.take(i + 1)) == (if before.len() == 0 || before.last().last()
            == '\n' {
            before.push(seq![ch])
        } else {
            before.update(before.len() - 1, before.last().push(ch))
        }));
        proof {
            if old_cur.len() == 0 && old_pieces.len() > 0 {
                assert(old_pieces[old_pieces.len() - 1]@.last() == '\n');
                assert(before.last() == old_pieces[old_pieces.len() - 1]@);
            }
            if old_cur.len() > 0 {
                assert(before.last() == old_cur);
            }
        }
        cur.push(ch);
        proof {
            if old_cur.len() == 0 {
                assert(cur@ =~= seq![ch]);
                assert(split_lines_incl(s@.take(i + 1)) == views(old_pieces).push(cur@));
            } else {
                assert(split_lines_incl(s@.take(i + 1)) =~= views(old_pieces).push(cur@));
            }
        }
        if ch == '\n' {
            let finished = cur;
            pieces.push(finished);
            cur = Vec::new();
            proof {
                lemma_views_push(old_pieces, pieces@.last());
            }
        } else {
            assert(pieces@ == old_pieces);
        }
    }
    assert(s@.take(s.len() as int) == s@);
    if cur.len() > 0 {
        pieces.push(cur);
        assert(views(pieces@) =~= split_lines_incl(s@));
    }
    let mut res: Vec<Vec<char>> = Vec::new();
    for k in 0..pieces.len()
        invariant
            views(res@) == views(pieces@).take(k as int).map_values(
                |p: Seq<char>| strip_line_end(p),
            ),
    {
        let p = &pieces[k];
        let mut line = p.clone();
        if line.len() > 0 && line[line.len() - 1] == '\n' {
            line.pop();
            if line.len() > 0 && line[line.len() - 1] == '\r' {
                line.pop();
            }
        }
        assert(line@ == strip_line_end(pieces@[k as int]@));
        let ghost old_res = res@;
        res.push(line);
        proof {
            lemma_views_push(old_res, line);
            assert(views(pieces@).take(k + 1) == views(pieces@).take(k as int).push(pieces@[k as int]@));
        }
        assert(views(res@) =~= views(pieces@).take(k + 1).map_values(
            |p: Seq<char>| strip_line_end(p),
        ));
    }
    assert(views(pieces@).take(pieces.len() as int) == views(pieces@));
    res
}

pub fn split_once_char(s: &Vec<char>, c: char) -> (res: Option<(Vec<char>, Vec<char>)>)
    ensures
        match split_once(s@, c) {
            Some(pair) => res matches Some(r) && r.0@ == pair.0 && r.1@ == pair.1,
            None => res is None,
        },
{
    let p = vec![c];
    assert(p@ == seq![c]);
    match find_chars(s, &p) {
        Some(i) => {
            proof {
                lemma_find_bounds(s@, p@);
            }
            assert(i + 1 <= s.len());
            let a = slice_chars(s, 0, i);
            let b = slice_chars(s, i + 1, s.len());
            Some((a, b))
        },
        None => None,
    }
}

/// A found position leaves room for the whole pattern.
pub proof fn lemma_find_bounds(s: Seq<char>, p: Seq<char>)
    requires
        find(s, p) is Some,
    ensures
        0 <= find(s, p)->0 && find(s, p)->0 + p.len() <= s.len(),
        s.subrange(find(s, p)->0, find(s, p)->0 + p.len()) == p,
    decreases s.len(),
{
    if find(s.drop_last(), p) is Some {
        lemma_find_bounds(s.drop_last(), p);
        let i = find(s, p)->0;
        assert(s.subrange(i, i + p.len()) == s.drop_last().subrange(i, i + p.len()));
    } else {
        let i = s.len() - p.len();
        assert(s.subrange(i, i + p.len()) == s.skip(i));
    }
}

pub fn upper_ascii_chars(s: &Vec<char>) -> (res: Vec<char>)
    ensures
        res@ == s@.map_values(|c: char| ascii_upper(c)),
{
    let mut res: Vec<char> = Vec::new();
    for i in 0..s.len()
        invariant
            res@ == s@.take(i as int).map_values(|c: char| ascii_upper(c)),
    {
        res.push(upper_ascii_char(s[i]));
        assert(res@ =~= s@.take(i + 1).map_values(|c: char| ascii_upper(c)));
    }
    assert(s@.take(s.len() as int) == s@);
    res
}

pub fn lower_ascii_chars(s: &Vec<char>) -> (res: Vec<char>)
    ensures
        res@ == s@.map_values(|c: char| ascii_lower(c)),
{
    let mut res: Vec<char> = Vec::new();
    for i in 0..s.len()
        invariant
            res@ == s@.take(i as int).map_values(|c: char| ascii_lower(c)),
    {
        res.push(lower_ascii_char(s[i]));
        assert(res@ =~= s@.take(i + 1).map_values(|c: char| ascii_lower(c)));
    }
    assert(s@.take(s.len() as int) == s@);
    res
}

fn digit(d: u64) -> (res: char)
    requires
        d < 10,
    ensures
        res == digit_char(d as nat),
{
    let b: u8 = (d as u8) + 48;
    b as char
}

/// The decimal digits of `n`.
pub fn nat_text(n: u64) -> (res: Vec<char>)
    ensures
        res@ == dec_nat(n as nat),
    decreases n,
{
    if n < 10 {
        let mut v: Vec<char> = Vec::new();
        v.push(digit(n));
        v
    } else {
        let mut v = nat_text(n / 10);
        v.push(digit(n % 10));
        v
    }
}

/// The `Display` text of `i`.
pub fn int_text(i: i64) -> (res: Vec<char>)
    ensures
        res@ == dec_int(i as int),
{
    if i < 0 {
        let m: u64 = if i == i64::MIN {
            9223372036854775808u64
        } else {
            (-i) as u64
        };
        let mut v: Vec<char> = Vec::new();
        v.push('-');
        let d = nat_text(m);
        push_all(&mut v, &d);
        v
    } else {
        nat_text(i as u64)
    }
}

pub fn bool_chars(b: bool) -> (res: Vec<char>)
    ensures
        res@ == bool_text(b),
{
    if b {
        vec!['t', 'r', 'u', 'e']
    } else {
        vec!['f', 'a', 'l', 's', 'e']
    }
}

/// The number of bytes a character takes in UTF-8.
pub open spec fn char_width(c: char) -> nat {
    let u = c as u32;
    if u < 0x80 {
        1
    } else if u < 0x800 {
        2
    } else if u < 0x10000 {
        3
    } else {
        4
    }
}

/// The number of bytes that `s` takes in UTF-8 (what `str::len` returns).
pub open spec fn byte_len(s: Seq<char>) -> nat
    decreases s.len(),
{
    if s.len() == 0 {
        0
    } else {
        byte_len(s.drop_last()) + char_width(s.last())
    }
}

/// Whether the UTF-8 encoding of `s` takes at most `limit` bytes.
pub fn fits_bytes(s: &Vec<char>, limit: usize) -> (res: bool)
    ensures
        res == (byte_len(s@) <= limit),
{
    let mut total: usize = 0;
    assert(s@.take(0) =~= Seq::<char>::empty());
    for i in 0..s.len()
        invariant
            total <= limit,
            total == byte_len(s@.take(i as int)),
    {
        assert(s@.take(i + 1).drop_last() == s@.take(i as int));
        let u = s[i] as u32;
        let w: usize = if u < 0x80 {
            1
        } else if u < 0x800 {
            2
        } else if u < 0x10000 {
            3
        } else {
            4
        };
        if w > limit - total {
            proof {
                lemma_byte_len_prefix(s@, i + 1);
            }
            return false;
        }
        total = total + w;
    }
    assert(s@.take(s.len() as int) == s@);
    true
}

/// A prefix never takes more bytes than the whole.
pub proof fn lemma_byte_len_prefix(s: Seq<char>, k: int)
    requires
        0 <= k <= s.len(),
    ensures
        byte_len(s.take(k)) <= byte_len(s),
    decreases s.len() - k,
{
    if k < s.len() {
        lemma_byte_len_prefix(s, k + 1);
        assert(s.take(k + 1).drop_last() == s.take(k));
    } else {
        assert(s.take(k) == s);
    }
}


// ───────────────────────── lemmas ─────────────────────────

/// The first place where `p` occurs is what `find` reports.
pub proof fn lemma_find_first(s: Seq<char>, p: Seq<char>, i: int)
    requires
        p.len() > 0,
        0 <= i,
        i + p.len() <= s.len(),
        s.subrange(i, i + p.len()) == p,
        forall|j: int| 0 <= j < i ==> #[trigger] s.subrange(j, j + p.len()) != p,
    ensures
        find(s, p) == Some(i),
    decreases s.len(),
{
    let t = s.drop_last();
    if i + p.len() < s.len() {
        assert(t.subrange(i, i + p.len()) == s.subrange(i, i + p.len()));
        assert forall|j: int| 0 <= j < i implies #[trigger] t.subrange(j, j + p.len()) != p by {
            assert(t.subrange(j, j + p.len()) == s.subrange(j, j + p.len()));
        }
        lemma_find_first(t, p, i);
    } else {
        if find(t, p) is Some {
            lemma_find_bounds(t, p);
            let k = find(t, p)->0;
            assert(s.subrange(k, k + p.len()) == t.subrange(k, k + p.len()));
            assert(false);
        }
        assert(s.skip(s.len() - p.len()) == s.subrange(i, i + p.len()));
    }
}

/// A text without `c` has no position of `c`.
pub proof fn lemma_find_absent(s: Seq<char>, c: char)
    requires
        lacks(s, c),
    ensures
        find(s, seq![c]) is None,
    decreases s.len(),
{
    if s.len() > 0 {
        lemma_find_absent(s.drop_last(), c);
        assert(s.skip(s.len() - 1)[0] == s.last());
    }
}

proof fn lemma_split_lines_last(s: Seq<char>)
    ensures
        s.len() == 0 ==> split_lines_incl(s).len() == 0,
        s.len() > 0 ==> split_lines_incl(s).len() > 0 && split_lines_incl(s).last().len() > 0
            && split_lines_incl(s).last().last() == s.last(),
{
}

/// Text that follows a newline (or stands at the start) splits into lines
/// on its own.
pub proof fn lemma_split_lines_append(a: Seq<char>, b: Seq<char>)
    requires
        a.len() == 0 || a.last() == '\n',
    ensures
        split_lines_incl(a + b) == split_lines_incl(a) + split_lines_incl(b),
    decreases b.len(),
{
    if b.len() == 0 {
        assert(a + b =~= a);
        assert(split_lines_incl(a) + split_lines_incl(b) =~= split_lines_incl(a));
    } else {
        lemma_split_lines_append(a, b.drop_last());
        assert((a + b).drop_last() =~= a + b.drop_last());
        assert((a + b).last() == b.last());
        lemma_split_lines_last(a);
        lemma_split_lines_last(b.drop_last());
        let pa = split_lines_incl(a);
        let pb = split_lines_incl(b.drop_last());
        if pb.len() == 0 {
            assert(pa + pb =~= pa);
            assert(split_lines_incl(a + b) =~= pa + split_lines_incl(b));
        } else {
            assert((pa + pb).last() == pb.last());
            assert(split_lines_incl(a + b) =~= pa + split_lines_incl(b));
        }
    }
}

/// A text with no newline before its last character is one piece.
pub proof fn lemma_split_lines_single(x: Seq<char>)
    requires
        x.len() > 0,
        lacks(x.drop_last(), '\n'),
    ensures
        split_lines_incl(x) == seq![x],
    decreases x.len(),
{
    if x.len() == 1 {
        assert(x.drop_last() =~= Seq::<char>::empty());
        assert(split_lines_incl(x.drop_last()) =~= Seq::<Seq<char>>::empty());
        assert(seq![x.last()] =~= x);
        assert(split_lines_incl(x) =~= seq![x]);
    } else {
        assert(x.drop_last().drop_last() =~= x.drop_last().subrange(0, x.len() - 2));
        assert(lacks(x.drop_last().drop_last(), '\n'));
        lemma_split_lines_single(x.drop_last());
        assert(x.drop_last().last() != '\n');
        assert(x.drop_last().push(x.last()) =~= x);
    }
}

/// A line ending in a newline, then more text.
pub proof fn lemma_split_lines_line_then(x: Seq<char>, rest: Seq<char>)
    requires
        lacks(x, '\n'),
    ensures
        split_lines_incl(x + seq!['\n'] + rest) == seq![x + seq!['\n']] + split_lines_incl(rest),
{
    let a = x + seq!['\n'];
    assert(a.drop_last() =~= x);
    lemma_split_lines_single(a);
    lemma_split_lines_append(a, rest);
}

/// Leading whitespace goes, then the text stands from its first
/// non-whitespace character.
pub proof fn lemma_trim_ws_quoted(x: Seq<char>)
    requires
        x.len() > 0,
        !is_ws(x[0]),
        !is_ws(x.last()),
    ensures
        trim_ws(seq![' '] + x) == x,
        trim_ws(x) == x,
{
    let y = seq![' '] + x;
    assert(y[0] == ' ');
    assert((' ' as u32) == 0x20);
    assert(is_ws(y[0]));
    assert(y.drop_first() =~= x);
    assert(trim_start_ws(x) == x);
    assert(trim_start_ws(y) == x);
    assert(trim_end_ws(x) == x);
}

/// Quotes around a text without quotes are stripped, and only they.
pub proof fn lemma_trim_quotes(t: Seq<char>)
    requires
        t.len() > 0,
        lacks(t, '"'),
    ensures
        trim_ch(seq!['"'] + t + seq!['"'], '"') == t,
{
    let q = seq!['"'] + t + seq!['"'];
    let r = t + seq!['"'];
    assert(q[0] == '"');
    assert(q.drop_first() =~= r);
    assert(t[0] != '"');
    assert(r[0] == t[0]);
    assert(trim_start_ch(r, '"') == r);
    assert(trim_start_ch(q, '"') == r);
    assert(r.last() == '"');
    assert(r.drop_last() =~= t);
    assert(t.last() != '"');
    assert(trim_end_ch(t, '"') == t);
    assert(trim_end_ch(r, '"') == t);
}

/// Replacing a character that does not occur changes nothing.
pub proof fn lemma_replace_absent(s: Seq<char>, a: char, b: Seq<char>)
    requires
        lacks(s, a),
    ensures
        replace_ch(s, a, b) == s,
    decreases s.len(),
{
    if s.len() > 0 {
        lemma_replace_absent(s.drop_last(), a, b);
        assert(s.drop_last() + seq![s.last()] =~= s);
    }
}


/// A text of ASCII characters takes one byte per character.
pub proof fn lemma_ascii_byte_len(s: Seq<char>)
    requires
        forall|i: int| 0 <= i < s.len() ==> (#[trigger] s[i] as u32) < 128,
    ensures
        byte_len(s) == s.len(),
    decreases s.len(),
{
    if s.len() > 0 {
        assert forall|i: int| 0 <= i < s.drop_last().len() implies (#[trigger] s.drop_last()[i] as u32) < 128 by {
            assert(s.drop_last()[i] == s[i]);
        }
        lemma_ascii_byte_len(s.drop_last());
        assert((s[s.len() - 1] as u32) < 128);
    }
}

} // verus!
