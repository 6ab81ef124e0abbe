//! Which migrations run, and in which order: every `.sql` file of the
//! migrations directory, in file-name order, named by its stem.
use vstd::prelude::*;
use crate::text::{chars_of, last_index, last_index_char, slice_chars, string_of};

verus! {

pub open spec fn sql_ext() -> Seq<char> {
    seq!['s', 'q', 'l']
}

/// The stem of a file name whose extension is `sql`: as `Path` sees it, the
/// extension follows the last dot, unless that dot starts the name.
pub open spec fn sql_stem(name: Seq<char>) -> Option<Seq<char>> {
    match last_index(name, '.') {
        Some(i) => if i > 0 && name.skip(i + 1) == sql_ext() {
            Some(name.take(i))
        } else {
            None
        },
        None => None,
    }
}

/// The migration name of a file: its stem, when it is a `.sql` file.
pub fn migration_name(file_name: &str) -> (res: Option<String>)
    ensures
        match sql_stem(file_name@) {
            Some(s) => res matches Some(r) && r@ == s,
            None => res is None,
        },
{
    let v = chars_of(file_name);
    match last_index_char(&v, '.') {
        Some(i) => {
            proof {
                crate::text::lemma_last_index_bounds(v@, '.');
            }
            if i == 0 {
                return None;
            }
            let ext = slice_chars(&v, i + 1, v.len());
            assert(ext@ == v@.skip(i + 1));
            let want = vec!['s', 'q', 'l'];
            assert(want@ == sql_ext());
            if crate::text::same(&ext, &want) {
                let stem = slice_chars(&v, 0, i);
                assert(stem@ == v@.take(i as int));
                Some(string_of(&stem))
            } else {
                None
            }
        },
        None => None,
    }
}

/// Strict lexicographic order of texts, character by character.
pub open spec fn lex_lt(a: Seq<char>, b: Seq<char>) -> bool
    decreases a.len(),
{
    if a.len() == 0 {
        b.len() > 0
    } else if b.len() == 0 {
        false
    } else if a[0] != b[0] {
        a[0] < b[0]
    } else {
        lex_lt(a.drop_first(), b.drop_first())
    }
}

pub proof fn lemma_lex_irreflexive(a: Seq<char>)
    ensures
        !lex_lt(a, a),
    decreases a.len(),
{
    if a.len() > 0 {
        lemma_lex_irreflexive(a.drop_first());
    }
}

pub proof fn lemma_lex_transitive(a: Seq<char>, b: Seq<char>, c: Seq<char>)
    requires
        lex_lt(a, b),
        lex_lt(b, c),
    ensures
        lex_lt(a, c),
    decreases a.len(),
{
    if a.len() > 0 && b.len() > 0 && c.len() > 0 && a[0] == b[0] && b[0] == c[0] {
        lemma_lex_transitive(a.drop_first(), b.drop_first(), c.drop_first());
    }
}

pub proof fn lemma_lex_total(a: Seq<char>, b: Seq<char>)
    requires
        a != b,
    ensures
        lex_lt(a, b) || lex_lt(b, a),
    decreases a.len(),
{
    if a.len() > 0 && b.len() > 0 && a[0] == b[0] {
        if a.drop_first() == b.drop_first() {
            assert(a =~= seq![a[0]] + a.drop_first());
            assert(b =~= seq![b[0]] + b.drop_first());
        }
        lemma_lex_total(a.drop_first(), b.drop_first());
    } else if a.len() == 0 && b.len() == 0 {
        assert(a =~= b);
    }
}

fn lex_less(a: &Vec<char>, b: &Vec<char>) -> (res: bool)
    ensures
        res == lex_lt(a@, b@),
{
    let mut i: usize = 0;
    assert(a@.skip(0) == a@);
    assert(b@.skip(0) == b@);
    while i < a.len() && i < b.len() && a[i] == b[i]
        invariant
            i <= a.len(),
            i <= b.len(),
            lex_lt(a@, b@) == lex_lt(a@.skip(i as int), b@.skip(i as int)),
        decreases a.len() - i,
    {
        assert(a@.skip(i as int).drop_first() =~= a@.skip(i + 1));
        assert(b@.skip(i as int).drop_first() =~= b@.skip(i + 1));
        i = i + 1;
    }
    if i == a.len() {
        i < b.len()
    } else if i == b.len() {
        false
    } else {
        a[i] < b[i]
    }
}

/// The order migrations run in: by file name, files of equal names in the
/// order they were listed.
pub open spec fn runs_before(names: Seq<Seq<char>>, i: int, j: int) -> bool {
    lex_lt(names[i], names[j]) || (names[i] == names[j] && i < j)
}

/// The migrations to run, as positions into the listed file names: every
/// `.sql` file exactly once and nothing else, sorted by file name.
pub fn migration_order(files: &Vec<String>) -> (res: Vec<usize>)
    ensures
        forall|k: int| 0 <= k < res.len() ==> res@[k] < files.len() && sql_stem(files@[res@[k] as int]@) is Some,
        forall|i: int| 0 <= i < files.len() && sql_stem(#[trigger] files@[i]@) is Some ==> res@.contains(i as usize),
        forall|a: int, b: int|
            0 <= a < b < res.len() ==> runs_before(
                crate::dashboard::config::string_views(files@),
                res@[a] as int,
                res@[b] as int,
            ),
        forall|a: int, b: int| 0 <= a < b < res.len() ==> res@[a] != res@[b],
{
    let ghost names = crate::dashboard::config::string_views(files@);
    let n = files.len();
    let mut chars: Vec<Vec<char>> = Vec::new();
    for i in 0..n
        invariant
            n == files.len(),
            names == crate::dashboard::config::string_views(files@),
            chars.len() == i,
            forall|k: int| 0 <= k < i ==> (#[trigger] chars@[k])@ == names[k],
    {
        chars.push(chars_of(files[i].as_str()));
    }
    let mut res: Vec<usize> = Vec::new();
    for i in 0..n
        invariant
            n == files.len(),
            names == crate::dashboard::config::string_views(files@),
            chars.len() == n,
            forall|k: int| 0 <= k < n ==> (#[trigger] chars@[k])@ == names[k],
            forall|k: int| 0 <= k < res.len() ==> res@[k] < i && sql_stem(files@[res@[k] as int]@) is Some,
            forall|k: int| 0 <= k < i && sql_stem(#[trigger] files@[k]@) is Some ==> res@.contains(k as usize),
            forall|a: int, b: int|
                0 <= a < b < res.len() ==> runs_before(names, res@[a] as int, res@[b] as int),
    {
        if migration_name(files[i].as_str()).is_some() {
            let mut q: usize = 0;
            while q < res.len() && precedes(&chars, res[q], i)
                invariant
                    q <= res.len(),
                    i < n == files.len(),
                    chars.len() == n,
                    forall|k: int| 0 <= k < n ==> (#[trigger] chars@[k])@ == names[k],
                    forall|k: int| 0 <= k < res.len() ==> res@[k] < i,
                    forall|t: int| 0 <= t < q ==> runs_before(names, res@[t] as int, i as int),
                decreases res.len() - q,
            {
                q = q + 1;
            }
            let ghost old_res = res@;
            proof {
                assert forall|t: int| q <= t < old_res.len() implies runs_before(
                    names,
                    i as int,
                    #[trigger] old_res[t] as int,
                ) by {
                    let x = old_res[q as int] as int;
                    let y = old_res[t] as int;
                    assert(!runs_before(names, x, i as int));
                    if names[x] != names[i as int] {
                        lemma_lex_total(names[x], names[i as int]);
                    }
                    if t > q {
                        assert(runs_before(names, x, y));
                        if lex_lt(names[i as int], names[x]) && lex_lt(names[x], names[y]) {
                            lemma_lex_transitive(names[i as int], names[x], names[y]);
                        }
                    }
                }
                assert forall|t: int| 0 <= t < q implies !runs_before(names, i as int, #[trigger] old_res[t] as int) by {
                    lemma_lex_irreflexive(names[i as int]);
                    if lex_lt(names[i as int], names[old_res[t] as int]) && lex_lt(names[old_res[t] as int], names[i as int]) {
                        lemma_lex_transitive(names[i as int], names[old_res[t] as int], names[i as int]);
                    }
                }
            }
            res.insert(q, i);
            assert(res@ == old_res.insert(q as int, i));
            assert(res@[q as int] == i);
            assert forall|k: int| 0 <= k < i + 1 && sql_stem(#[trigger] files@[k]@) is Some implies res@.contains(k as usize) by {
                if k < i {
                    let w = choose|w: int| 0 <= w < old_res.len() && old_res[w] == k as usize;
                    if w < q {
                        assert(res@[w] == k as usize);
                    } else {
                        assert(res@[w + 1] == k as usize);
                    }
                } else {
                    assert(res@[q as int] == k as usize);
                }
            }
        }
    }
    assert forall|a: int, b: int| 0 <= a < b < res.len() implies res@[a] != res@[b] by {
        assert(runs_before(names, res@[a] as int, res@[b] as int));
        lemma_lex_irreflexive(names[res@[a] as int]);
    }
    res
}

fn precedes(chars: &Vec<Vec<char>>, x: usize, y: usize) -> (res: bool)
    requires
        x < chars.len(),
        y < chars.len(),
    ensures
        res == (lex_lt(chars@[x as int]@, chars@[y as int]@) || (chars@[x as int]@ == chars@[y as int]@ && x < y)),
{
    lex_less(&chars[x], &chars[y]) || (crate::text::same(&chars[x], &chars[y]) && x < y)
}

} // verus!
