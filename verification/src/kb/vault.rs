//! Obsidian-style vault export and import: front matter, note names and the
//! folder paths that documents are written under.
use vstd::prelude::*;
use crate::case::{char_upper, lower_of, str_lower, upper_of};
use crate::text::{bool_chars, bool_text, dec_int, dec_nat, digit_char, ends_with, int_text, push_all, trim_end_ch};
use crate::text::{
    is_ws, lacks, lemma_find_first, lemma_replace_absent, lemma_split_lines_line_then,
    lemma_split_lines_single, lemma_trim_quotes, lemma_trim_ws_quoted,
    strip_line_end,
};
use crate::text::{
    chars_of, concat, find, find_chars, is_ascii_char, last_index, last_index_char, last_segment,
    last_segment_chars, lemma_find_bounds, lines, lines_chars, replace_ch, replace_char,
    slice_chars, split_once, split_once_char, starts_with, starts_with_chars, string_of, trim_ch,
    trim_char, trim_end_pat, trim_end_pattern, trim_start_ch, trim_start_char, trim_ws,
    trim_ws_chars, views,
};

verus! {

/// One document of a vault: its path inside the vault (`a/b/note.md`), its
/// markdown text and whether it is a folder.
#[derive(Debug, Clone)]
pub struct VaultDocument {
    pub path: String,
    pub content: String,
    pub is_folder: bool,
}

/// A whole vault as exported.
#[derive(Debug, Clone)]
pub struct VaultExport {
    pub version: u32,
    pub exported_at: String,
    pub documents: Vec<VaultDocument>,
}

pub open spec fn open_lf() -> Seq<char> {
    seq!['-', '-', '-', '\n']
}

pub open spec fn open_crlf() -> Seq<char> {
    seq!['-', '-', '-', '\r', '\n']
}

pub open spec fn close_marker() -> Seq<char> {
    seq!['\n', '-', '-', '-']
}

pub open spec fn md_ext() -> Seq<char> {
    seq!['.', 'm', 'd']
}

pub open spec fn title_key() -> Seq<char> {
    seq!['t', 'i', 't', 'l', 'e']
}

pub open spec fn slug_key() -> Seq<char> {
    seq!['s', 'l', 'u', 'g']
}

/// The front-matter text and the body of a note that opens with `---`,
/// when a closing `\n---` follows; the body loses its leading newlines.
pub open spec fn split_frontmatter(raw: Seq<char>) -> Option<(Seq<char>, Seq<char>)> {
    if starts_with(raw, open_lf()) || starts_with(raw, open_crlf()) {
        match find(raw.skip(4), close_marker()) {
            Some(e) => Some((raw.subrange(4, 4 + e), trim_start_ch(raw.skip(4 + e + 4), '\n'))),
            None => None,
        }
    } else {
        None
    }
}

/// The `key: value` entry of one front-matter line: both sides trimmed, and
/// the value stripped of surrounding double quotes.
pub open spec fn entry_of(line: Seq<char>) -> Option<(Seq<char>, Seq<char>)> {
    match split_once(line, ':') {
        Some(kv) => Some((trim_ws(kv.0), trim_ch(trim_ws(kv.1), '"'))),
        None => None,
    }
}

/// The entries of the lines that hold a `:`, in order.
pub open spec fn entries_of(ls: Seq<Seq<char>>) -> Seq<(Seq<char>, Seq<char>)>
    decreases ls.len(),
{
    if ls.len() == 0 {
        Seq::empty()
    } else {
        entries_of(ls.drop_last()) + match entry_of(ls.last()) {
            Some(e) => seq![e],
            None => Seq::empty(),
        }
    }
}

/// The value of the last entry named `key`, or the empty text.
pub open spec fn value_for(es: Seq<(Seq<char>, Seq<char>)>, key: Seq<char>) -> Seq<char>
    decreases es.len(),
{
    if es.len() == 0 {
        Seq::empty()
    } else if es.last().0 == key {
        es.last().1
    } else {
        value_for(es.drop_last(), key)
    }
}

/// The file name of a vault path without its `.md` endings.
pub open spec fn note_name(path: Seq<char>) -> Seq<char> {
    trim_end_pat(last_segment(path, '/'), md_ext())
}

/// A title whose first character is ASCII gets that character uppercased.
pub open spec fn cap_first_ascii(t: Seq<char>) -> Seq<char> {
    if t.len() > 0 && is_ascii_char(t[0]) {
        upper_of(t[0]) + t.skip(1)
    } else {
        t
    }
}

/// The title a note gets from its path: dashes and underscores become
/// spaces and an ASCII first letter is capitalized.
pub open spec fn fallback_title(path: Seq<char>) -> Seq<char> {
    cap_first_ascii(replace_ch(replace_ch(note_name(path), '-', seq![' ']), '_', seq![' ']))
}

/// The slug a note gets from its path: lowercased, spaces become dashes.
pub open spec fn fallback_slug(path: Seq<char>) -> Seq<char> {
    replace_ch(lower_of(note_name(path)), ' ', seq!['-'])
}

/// The front-matter entries of a note.
pub open spec fn note_entries(raw: Seq<char>) -> Seq<(Seq<char>, Seq<char>)> {
    match split_frontmatter(raw) {
        Some(parts) => entries_of(lines(parts.0)),
        None => Seq::empty(),
    }
}

/// The body of a note.
pub open spec fn note_body(raw: Seq<char>) -> Seq<char> {
    match split_frontmatter(raw) {
        Some(parts) => parts.1,
        None => raw,
    }
}

/// The title of a note: from its front matter, else from its path.
pub open spec fn note_title(raw: Seq<char>, path: Seq<char>) -> Seq<char> {
    let t = value_for(note_entries(raw), title_key());
    if t.len() == 0 {
        fallback_title(path)
    } else {
        t
    }
}

/// The slug of a note: from its front matter, else from its path.
pub open spec fn note_slug(raw: Seq<char>, path: Seq<char>) -> Seq<char> {
    let s = value_for(note_entries(raw), slug_key());
    if s.len() == 0 {
        fallback_slug(path)
    } else {
        s
    }
}

pub open spec fn pair_views(v: Seq<(String, String)>) -> Seq<(Seq<char>, Seq<char>)> {
    v.map_values(|p: (String, String)| (p.0@, p.1@))
}

pub open spec fn chars_pair_views(v: Seq<(Vec<char>, Vec<char>)>) -> Seq<(Seq<char>, Seq<char>)> {
    v.map_values(|p: (Vec<char>, Vec<char>)| (p.0@, p.1@))
}

fn frontmatter_parts(raw: &Vec<char>) -> (res: Option<(Vec<char>, Vec<char>)>)
    ensures
        match split_frontmatter(raw@) {
            Some(parts) => res matches Some(r) && r.0@ == parts.0 && r.1@ == parts.1,
            None => res is None,
        },
{
    let lf = vec!['-', '-', '-', '\n'];
    let crlf = vec!['-', '-', '-', '\r', '\n'];
    assert(lf@ == open_lf());
    assert(crlf@ == open_crlf());
    if !(starts_with_chars(raw, &lf) || starts_with_chars(raw, &crlf)) {
        return None;
    }
    let rest = slice_chars(raw, 4, raw.len());
    assert(rest@ == raw@.skip(4));
    let close = vec!['\n', '-', '-', '-'];
    assert(close@ == close_marker());
    match find_chars(&rest, &close) {
        Some(e) => {
            proof {
                lemma_find_bounds(rest@, close@);
            }
            let fm = slice_chars(raw, 4, 4 + e);
            let after = slice_chars(raw, 4 + e + 4, raw.len());
            assert(after@ == raw@.skip(4 + e + 4));
            let body = trim_start_char(&after, '\n');
            Some((fm, body))
        },
        None => None,
    }
}

fn entries(ls: &Vec<Vec<char>>) -> (res: Vec<(Vec<char>, Vec<char>)>)
    ensures
        chars_pair_views(res@) == entries_of(views(ls@)),
{
    let mut res: Vec<(Vec<char>, Vec<char>)> = Vec::new();
    assert(views(ls@).take(0) =~= Seq::<Seq<char>>::empty());
    for i in 0..ls.len()
        invariant
            chars_pair_views(res@) == entries_of(views(ls@).take(i as int)),
    {
        let ghost before = res@;
        assert(views(ls@).take(i + 1).drop_last() == views(ls@).take(i as int));
        assert(views(ls@).take(i + 1).last() == ls@[i as int]@);
        match split_once_char(&ls[i], ':') {
            Some(kv) => {
                let k = trim_ws_chars(&kv.0);
                let v0 = trim_ws_chars(&kv.1);
                let v = trim_char(&v0, '"');
                res.push((k, v));
                assert(chars_pair_views(res@) =~= chars_pair_views(before).push((k@, v@)));
            },
            None => {},
        }
    }
    assert(views(ls@).take(ls.len() as int) == views(ls@));
    res
}

fn value_of(es: &Vec<(Vec<char>, Vec<char>)>, key: &Vec<char>) -> (res: Vec<char>)
    ensures
        res@ == value_for(chars_pair_views(es@), key@),
{
    let mut res: Vec<char> = Vec::new();
    assert(chars_pair_views(es@).take(0) =~= Seq::<(Seq<char>, Seq<char>)>::empty());
    for i in 0..es.len()
        invariant
            res@ == value_for(chars_pair_views(es@).take(i as int), key@),
    {
        let ghost t = chars_pair_views(es@).take(i + 1);
        assert(t.drop_last() == chars_pair_views(es@).take(i as int));
        assert(t.last() == (es@[i as int].0@, es@[i as int].1@));
        if crate::text::same(&es[i].0, key) {
            res = es[i].1.clone();
        }
    }
    assert(chars_pair_views(es@).take(es.len() as int) == chars_pair_views(es@));
    res
}

fn name_of_path(path: &Vec<char>) -> (res: Vec<char>)
    ensures
        res@ == note_name(path@),
{
    let seg = last_segment_chars(path, '/');
    let md = vec!['.', 'm', 'd'];
    assert(md@ == md_ext());
    trim_end_pattern(&seg, &md)
}

fn title_from_path(path: &Vec<char>) -> (res: Vec<char>)
    ensures
        res@ == fallback_title(path@),
{
    let name = name_of_path(path);
    let space = vec![' '];
    assert(space@ == seq![' ']);
    let a = replace_char(&name, '-', &space);
    let t = replace_char(&a, '_', &space);
    if t.len() > 0 && (t[0] as u32) < 128 {
        let c0 = t[0];
        assert(c0 == t@[0]);
        assert(is_ascii_char(t@[0]));
        let first = char_upper(c0);
        let rest = slice_chars(&t, 1, t.len());
        assert(rest@ == t@.skip(1));
        let res = concat(&first, &rest);
        assert(res@ == upper_of(t@[0]) + t@.skip(1));
        res
    } else {
        t
    }
}

fn slug_from_path(path: &Vec<char>) -> (res: Vec<char>)
    ensures
        res@ == fallback_slug(path@),
{
    let name = name_of_path(path);
    let name_text = string_of(&name);
    let lowered = str_lower(name_text.as_str());
    assert(lowered@ == lower_of(note_name(path@)));
    let l = chars_of(lowered.as_str());
    let dash = vec!['-'];
    assert(dash@ == seq!['-']);
    replace_char(&l, ' ', &dash)
}

/// Reads a note as exported by a vault: its title, slug, body and
/// front-matter entries.  Front matter is the text between an opening
/// `---` line and the first following `\n---`; a title or slug missing from
/// it is derived from the note's path.
pub fn parse_obsidian_md(raw: &str, path: &str) -> (res: (String, String, String, Vec<(String, String)>))
    ensures
        res.0@ == note_title(raw@, path@),
        res.1@ == note_slug(raw@, path@),
        res.2@ == note_body(raw@),
        pair_views(res.3@) == note_entries(raw@),
{
    let r = chars_of(raw);
    let p = chars_of(path);
    let mut es: Vec<(Vec<char>, Vec<char>)> = Vec::new();
    let content: Vec<char>;
    match frontmatter_parts(&r) {
        Some(parts) => {
            let ls = lines_chars(&parts.0);
            es = entries(&ls);
            content = parts.1;
        },
        None => {
            assert(chars_pair_views(es@) =~= Seq::<(Seq<char>, Seq<char>)>::empty());
            content = r;
        },
    }
    assert(chars_pair_views(es@) == note_entries(raw@));
    let tk = vec!['t', 'i', 't', 'l', 'e'];
    let sk = vec!['s', 'l', 'u', 'g'];
    assert(tk@ == title_key());
    assert(sk@ == slug_key());
    let mut title = value_of(&es, &tk);
    if title.len() == 0 {
        title = title_from_path(&p);
    }
    let mut slug = value_of(&es, &sk);
    if slug.len() == 0 {
        slug = slug_from_path(&p);
    }
    let mut fm: Vec<(String, String)> = Vec::new();
    for i in 0..es.len()
        invariant
            pair_views(fm@) == chars_pair_views(es@).take(i as int),
    {
        let k = string_of(&es[i].0);
        let v = string_of(&es[i].1);
        let ghost before = fm@;
        fm.push((k, v));
        assert(chars_pair_views(es@).take(i + 1) == chars_pair_views(es@).take(i as int).push(
            (es@[i as int].0@, es@[i as int].1@),
        ));
        assert(pair_views(fm@) =~= pair_views(before).push((k@, v@)));
    }
    assert(chars_pair_views(es@).take(es.len() as int) == chars_pair_views(es@));
    (string_of(&title), string_of(&slug), string_of(&content), fm)
}

/// The folder a vault path lives in: everything before the last `/` once
/// the `.md` endings are removed.
pub open spec fn parent_path(path: Seq<char>) -> Option<Seq<char>> {
    let p = trim_end_pat(path, md_ext());
    match last_index(p, '/') {
        Some(i) => Some(p.take(i)),
        None => None,
    }
}

/// The folder a vault path lives in, if it is not at the top.
pub fn parent_path_of(path: &str) -> (res: Option<String>)
    ensures
        match parent_path(path@) {
            Some(pp) => res matches Some(r) && r@ == pp,
            None => res is None,
        },
{
    let v = chars_of(path);
    let md = vec!['.', 'm', 'd'];
    assert(md@ == md_ext());
    let p = trim_end_pattern(&v, &md);
    match last_index_char(&p, '/') {
        Some(i) => {
            proof {
                crate::text::lemma_last_index_bounds(p@, '/');
            }
            let pre = slice_chars(&p, 0, i);
            assert(pre@ == p@.take(i as int));
            Some(string_of(&pre))
        },
        None => None,
    }
}

/// The key under which an imported document is remembered: its path
/// without the `.md` endings.
pub fn path_key(path: &str) -> (res: String)
    ensures
        res@ == trim_end_pat(path@, md_ext()),
{
    let v = chars_of(path);
    let md = vec!['.', 'm', 'd'];
    assert(md@ == md_ext());
    string_of(&trim_end_pattern(&v, &md))
}


/// A stored document as the export reads it; timestamps are already in
/// RFC 3339 text.
#[derive(Debug, Clone)]
pub struct DbDoc {
    pub id: u128,
    pub title: String,
    pub slug: String,
    pub content: String,
    pub parent_id: Option<u128>,
    pub is_folder: bool,
    pub sort_order: i32,
    pub created_at: String,
    pub updated_at: String,
}

/// The file name a document is exported under.
pub open spec fn file_name(d: DbDoc) -> Seq<char> {
    if d.is_folder {
        d.slug@
    } else {
        d.slug@ + md_ext()
    }
}

pub fn doc_filename(doc: &DbDoc) -> (res: String)
    ensures
        res@ == file_name(*doc),
{
    if doc.is_folder {
        doc.slug.clone()
    } else {
        let mut name = chars_of(doc.slug.as_str());
        let md = vec!['.', 'm', 'd'];
        assert(md@ == md_ext());
        push_all(&mut name, &md);
        string_of(&name)
    }
}

/// The position of the first document with the given id.
pub open spec fn first_with_id(docs: Seq<DbDoc>, id: u128) -> Option<int>
    decreases docs.len(),
{
    if docs.len() == 0 {
        None
    } else {
        match first_with_id(docs.drop_last(), id) {
            Some(k) => Some(k),
            None => if docs.last().id == id {
                Some(docs.len() - 1)
            } else {
                None
            },
        }
    }
}

/// Whether walking up from `pid` through parents reaches a document without
/// a (known) parent within `fuel` steps.
pub open spec fn chain_ends(docs: Seq<DbDoc>, pid: Option<u128>, fuel: nat) -> bool
    decreases fuel,
{
    match pid {
        None => true,
        Some(id) => match first_with_id(docs, id) {
            None => true,
            Some(k) => fuel > 0 && chain_ends(docs, docs[k].parent_id, (fuel - 1) as nat),
        },
    }
}

/// The slugs met walking up from `pid`, nearest parent first.
pub open spec fn parent_slugs(docs: Seq<DbDoc>, pid: Option<u128>, fuel: nat) -> Seq<Seq<char>>
    decreases fuel,
{
    match pid {
        None => Seq::empty(),
        Some(id) => match first_with_id(docs, id) {
            None => Seq::empty(),
            Some(k) => if fuel == 0 {
                Seq::empty()
            } else {
                seq![docs[k].slug@] + parent_slugs(docs, docs[k].parent_id, (fuel - 1) as nat)
            },
        },
    }
}

/// Segments listed from a document upwards, written from the top down and
/// joined with `/`.
pub open spec fn join_upward(segs: Seq<Seq<char>>) -> Seq<char>
    decreases segs.len(),
{
    if segs.len() == 0 {
        Seq::empty()
    } else if segs.len() == 1 {
        segs[0]
    } else {
        join_upward(segs.drop_first()) + seq!['/'] + segs[0]
    }
}

/// The vault path of a document: its ancestors' slugs and its file name.
pub open spec fn vault_path(doc: DbDoc, docs: Seq<DbDoc>) -> Seq<char> {
    join_upward(seq![file_name(doc)] + parent_slugs(docs, doc.parent_id, docs.len()))
}

fn index_of_id(docs: &Vec<DbDoc>, id: u128) -> (res: Option<usize>)
    ensures
        match res {
            Some(k) => first_with_id(docs@, id) == Some(k as int),
            None => first_with_id(docs@, id) is None,
        },
{
    assert(docs@.take(0) =~= Seq::<DbDoc>::empty());
    for i in 0..docs.len()
        invariant
            first_with_id(docs@.take(i as int), id) is None,
    {
        assert(docs@.take(i + 1).drop_last() == docs@.take(i as int));
        if docs[i].id == id {
            proof {
                lemma_first_with_id_extends(docs@.take(i + 1), docs@.skip(i + 1), id);
                assert(docs@ == docs@.take(i + 1) + docs@.skip(i + 1));
            }
            return Some(i);
        }
    }
    assert(docs@.take(docs.len() as int) == docs@);
    None
}

proof fn lemma_first_with_id_extends(a: Seq<DbDoc>, b: Seq<DbDoc>, id: u128)
    requires
        first_with_id(a, id) is Some,
    ensures
        first_with_id(a + b, id) == first_with_id(a, id),
    decreases b.len(),
{
    if b.len() == 0 {
        assert(a + b == a);
    } else {
        lemma_first_with_id_extends(a, b.drop_last(), id);
        assert((a + b).drop_last() == a + b.drop_last());
    }
}

proof fn lemma_first_with_id_bounds(docs: Seq<DbDoc>, id: u128)
    requires
        first_with_id(docs, id) is Some,
    ensures
        0 <= first_with_id(docs, id)->0 < docs.len(),
    decreases docs.len(),
{
    if first_with_id(docs.drop_last(), id) is Some {
        lemma_first_with_id_bounds(docs.drop_last(), id);
    }
}

/// Once a walk ends within some number of steps, more steps give the same
/// slugs.
proof fn lemma_parent_slugs_fuel(docs: Seq<DbDoc>, pid: Option<u128>, f: nat, g: nat)
    requires
        chain_ends(docs, pid, f),
        f <= g,
    ensures
        chain_ends(docs, pid, g),
        parent_slugs(docs, pid, f) == parent_slugs(docs, pid, g),
    decreases f,
{
    match pid {
        None => {},
        Some(id) => match first_with_id(docs, id) {
            None => {},
            Some(k) => {
                lemma_parent_slugs_fuel(docs, docs[k].parent_id, (f - 1) as nat, (g - 1) as nat);
            },
        },
    }
}

fn join_upward_chars(segs: &Vec<Vec<char>>) -> (res: Vec<char>)
    ensures
        res@ == join_upward(views(segs@)),
{
    let n = segs.len();
    if n == 0 {
        return Vec::new();
    }
    let mut res = segs[n - 1].clone();
    let mut k = n - 1;
    assert(views(segs@).skip(k as int) =~= seq![segs@[k as int]@]);
    while k > 0
        invariant
            0 <= k < n == segs.len(),
            res@ == join_upward(views(segs@).skip(k as int)),
        decreases k,
    {
        let ghost tail = views(segs@).skip(k as int);
        k = k - 1;
        assert(views(segs@).skip(k as int).drop_first() == tail);
        assert(views(segs@).skip(k as int)[0] == segs@[k as int]@);
        res.push('/');
        push_all(&mut res, &segs[k]);
    }
    assert(views(segs@).skip(0) == views(segs@));
    res
}

/// The path a document is exported under: the slugs of its ancestors, top
/// first, then its file name.  The walk up the parents must come to an end
/// (it does when parents form no cycle); a parent id that matches no
/// document ends it.
pub fn build_path(doc: &DbDoc, all_docs: &Vec<DbDoc>) -> (res: String)
    requires
        chain_ends(all_docs@, doc.parent_id, all_docs@.len()),
    ensures
        res@ == vault_path(*doc, all_docs@),
{
    let ghost docs = all_docs@;
    let ghost n = docs.len();
    let fname = doc_filename(doc);
    let mut segments: Vec<Vec<char>> = Vec::new();
    segments.push(chars_of(fname.as_str()));
    let mut pid = doc.parent_id;
    let ghost mut fuel: nat = n;
    assert(views(segments@) =~= seq![file_name(*doc)]);
    loop
        invariant
            chain_ends(docs, pid, fuel),
            docs == all_docs@,
            seq![file_name(*doc)] + parent_slugs(docs, doc.parent_id, n) == views(segments@)
                + parent_slugs(docs, pid, fuel),
        ensures
            seq![file_name(*doc)] + parent_slugs(docs, doc.parent_id, n) == views(segments@),
        decreases fuel,
    {
        match pid {
            None => {
                assert(views(segments@) + parent_slugs(docs, pid, fuel) =~= views(segments@));
                break;
            },
            Some(id) => {
                match index_of_id(all_docs, id) {
                    None => {
                        assert(views(segments@) + parent_slugs(docs, pid, fuel) =~= views(
                            segments@,
                        ));
                        break;
                    },
                    Some(k) => {
                        proof {
                            lemma_first_with_id_bounds(docs, id);
                        }
                        let ghost old_vec = segments@;
                        let ghost old_segs = views(segments@);
                        let ghost old_pid = pid;
                        let ghost old_fuel = fuel;
                        assert(first_with_id(docs, id) == Some(k as int));
                        assert(chain_ends(docs, docs[k as int].parent_id, (old_fuel - 1) as nat));
                        assert(parent_slugs(docs, old_pid, old_fuel) == seq![docs[k as int].slug@]
                            + parent_slugs(docs, docs[k as int].parent_id, (old_fuel - 1) as nat));
                        let slug = chars_of(all_docs[k].slug.as_str());
                        segments.push(slug);
                        proof {
                            crate::text::lemma_views_push(old_vec, segments@.last());
                            assert(segments@ == old_vec.push(segments@.last()));
                        }
                        pid = all_docs[k].parent_id;
                        proof {
                            fuel = (fuel - 1) as nat;
                        }
                        assert(views(segments@) + parent_slugs(docs, pid, fuel) =~= old_segs + (
                        seq![docs[k as int].slug@] + parent_slugs(docs, pid, fuel)));
                    },
                }
            },
        }
    }
    string_of(&join_upward_chars(&segments))
}


/// The markdown a document is exported as: a front-matter block of six
/// `key: value` lines between `---` fences, a blank line, then `content`.
pub open spec fn frontmatter_text(d: DbDoc, content: Seq<char>) -> Seq<char> {
    open_lf() + fm_block_from(d, 0) + close_marker() + seq!['\n', '\n'] + content
}

fn fm_line_chars(key: &Vec<char>, value: &Vec<char>) -> (res: Vec<char>)
    ensures
        res@ == fm_line(key@, value@),
{
    let colon = vec![':'];
    let space = vec![' '];
    assert(colon@ == seq![':']);
    assert(space@ == seq![' ']);
    concat(&concat(&concat(key, &colon), &space), value)
}

fn quoted_chars(t: &Vec<char>) -> (res: Vec<char>)
    ensures
        res@ == quoted(t@),
{
    let q = vec!['"'];
    assert(q@ == seq!['"']);
    concat(&concat(&q, t), &q)
}

fn fm_lines_chars(doc: &DbDoc) -> (res: Vec<Vec<char>>)
    ensures
        views(res@) == fm_lines(*doc),
        res@.len() == 6,
{
    let esc = vec!['\\', '"'];
    assert(esc@ == seq!['\\', '"']);
    let title = replace_char(&chars_of(doc.title.as_str()), '"', &esc);
    let tk = vec!['t', 'i', 't', 'l', 'e'];
    let sk = vec!['s', 'l', 'u', 'g'];
    let fk = vec!['i', 's', '_', 'f', 'o', 'l', 'd', 'e', 'r'];
    let ok = vec!['s', 'o', 'r', 't', '_', 'o', 'r', 'd', 'e', 'r'];
    let ck = vec!['c', 'r', 'e', 'a', 't', 'e', 'd', '_', 'a', 't'];
    let uk = vec!['u', 'p', 'd', 'a', 't', 'e', 'd', '_', 'a', 't'];
    assert(tk@ == title_key());
    assert(sk@ == slug_key());
    assert(fk@ == key_is_folder());
    assert(ok@ == key_sort_order());
    assert(ck@ == key_created_at());
    assert(uk@ == key_updated_at());
    let mut res: Vec<Vec<char>> = Vec::new();
    res.push(fm_line_chars(&tk, &quoted_chars(&title)));
    res.push(fm_line_chars(&sk, &quoted_chars(&chars_of(doc.slug.as_str()))));
    res.push(fm_line_chars(&fk, &bool_chars(doc.is_folder)));
    res.push(fm_line_chars(&ok, &int_text(doc.sort_order as i64)));
    res.push(fm_line_chars(&ck, &quoted_chars(&chars_of(doc.created_at.as_str()))));
    res.push(fm_line_chars(&uk, &quoted_chars(&chars_of(doc.updated_at.as_str()))));
    assert(views(res@) =~= fm_lines(*doc));
    res
}

pub fn format_frontmatter(doc: &DbDoc, content: &str) -> (res: String)
    ensures
        res@ == frontmatter_text(*doc, content@),
{
    let ls = fm_lines_chars(doc);
    let nl = vec!['\n'];
    assert(nl@ == seq!['\n']);
    let mut block = ls[5].clone();
    let mut k: usize = 5;
    assert(block@ == fm_block_from(*doc, 5));
    while k > 0
        invariant
            0 <= k <= 5,
            ls@.len() == 6,
            views(ls@) == fm_lines(*doc),
            nl@ == seq!['\n'],
            block@ == fm_block_from(*doc, k as int),
        decreases k,
    {
        k = k - 1;
        assert(ls@[k as int]@ == fm_lines(*doc)[k as int]);
        block = concat(&concat(&ls[k], &nl), &block);
    }
    let open = vec!['-', '-', '-', '\n'];
    let close = vec!['\n', '-', '-', '-'];
    let gap = vec!['\n', '\n'];
    assert(open@ == open_lf());
    assert(close@ == close_marker());
    assert(gap@ == seq!['\n', '\n']);
    let out = concat(&concat(&concat(&concat(&open, &block), &close), &gap), &chars_of(content));
    string_of(&out)
}

/// The title and slug of a folder created for an imported path: the last
/// path segment with dashes and underscores turned to spaces, and the same
/// segment lowercased with spaces turned to dashes.
pub open spec fn folder_title(folder_path: Seq<char>) -> Seq<char> {
    replace_ch(replace_ch(last_segment(folder_path, '/'), '-', seq![' ']), '_', seq![' '])
}

pub open spec fn folder_slug(folder_path: Seq<char>) -> Seq<char> {
    replace_ch(lower_of(last_segment(folder_path, '/')), ' ', seq!['-'])
}

pub fn folder_title_slug(folder_path: &str) -> (res: (String, String))
    ensures
        res.0@ == folder_title(folder_path@),
        res.1@ == folder_slug(folder_path@),
{
    let v = chars_of(folder_path);
    let name = last_segment_chars(&v, '/');
    let space = vec![' '];
    assert(space@ == seq![' ']);
    let dash = vec!['-'];
    assert(dash@ == seq!['-']);
    let t1 = replace_char(&name, '-', &space);
    let title = replace_char(&t1, '_', &space);
    let name_text = string_of(&name);
    let lowered = str_lower(name_text.as_str());
    let l = chars_of(lowered.as_str());
    let slug = replace_char(&l, ' ', &dash);
    (string_of(&title), string_of(&slug))
}

/// The folder above a folder path, found as for a note at `folder_path.md`.
pub fn parent_folder_of(folder_path: &str) -> (res: Option<String>)
    ensures
        match parent_path(folder_path@ + md_ext()) {
            Some(pp) => res matches Some(r) && r@ == pp,
            None => res is None,
        },
{
    let mut v = chars_of(folder_path);
    let md = vec!['.', 'm', 'd'];
    assert(md@ == md_ext());
    push_all(&mut v, &md);
    let s = string_of(&v);
    parent_path_of(s.as_str())
}

/// How many times `c` occurs in `s`.
pub open spec fn count_ch(s: Seq<char>, c: char) -> nat
    decreases s.len(),
{
    if s.len() == 0 {
        0
    } else {
        count_ch(s.drop_last(), c) + if s.last() == c {
            1nat
        } else {
            0nat
        }
    }
}

/// Import order: folders before documents, then shallower paths first,
/// then the order they were given in.
pub open spec fn import_before(docs: Seq<VaultDocument>, i: int, j: int) -> bool {
    let ri: int = if docs[i].is_folder {
        0
    } else {
        1
    };
    let rj: int = if docs[j].is_folder {
        0
    } else {
        1
    };
    let di = count_ch(docs[i].path@, '/');
    let dj = count_ch(docs[j].path@, '/');
    ri < rj || (ri == rj && (di < dj || (di == dj && i < j)))
}

fn slash_count(s: &str) -> (res: usize)
    ensures
        res == count_ch(s@, '/'),
{
    let v = chars_of(s);
    let mut n: usize = 0;
    assert(v@.take(0) =~= Seq::<char>::empty());
    for i in 0..v.len()
        invariant
            n == count_ch(v@.take(i as int), '/'),
            n <= i,
    {
        assert(v@.take(i + 1).drop_last() == v@.take(i as int));
        if v[i] == '/' {
            n = n + 1;
        }
    }
    assert(v@.take(v.len() as int) == v@);
    n
}

fn goes_before(rank: &Vec<u8>, depth: &Vec<usize>, x: usize, y: usize) -> (res: bool)
    requires
        x < rank.len(),
        y < rank.len(),
        rank.len() == depth.len(),
    ensures
        res == (rank@[x as int] < rank@[y as int] || (rank@[x as int] == rank@[y as int] && (
        depth@[x as int] < depth@[y as int] || (depth@[x as int] == depth@[y as int] && x < y)))),
{
    rank[x] < rank[y] || (rank[x] == rank[y] && (depth[x] < depth[y] || (depth[x] == depth[y] && x
        < y)))
}

/// The order in which the documents of a vault are imported, as positions
/// into `docs`, each exactly once: a stable sort that puts folders first and
/// shallower paths before deeper ones, so that a folder exists before what
/// it holds.
pub fn import_order(docs: &Vec<VaultDocument>) -> (res: Vec<usize>)
    ensures
        res.len() == docs.len(),
        forall|k: int| 0 <= k < res.len() ==> res@[k] < docs.len(),
        forall|a: int, b: int|
            0 <= a < b < res.len() ==> import_before(docs@, res@[a] as int, res@[b] as int),
        forall|a: int, b: int| 0 <= a < b < res.len() ==> res@[a] != res@[b],
{
    let n = docs.len();
    let mut rank: Vec<u8> = Vec::new();
    let mut depth: Vec<usize> = Vec::new();
    for i in 0..n
        invariant
            n == docs.len(),
            rank.len() == i,
            depth.len() == i,
            forall|k: int| 0 <= k < i ==> rank@[k] == (if docs@[k].is_folder { 0u8 } else { 1u8 }),
            forall|k: int| 0 <= k < i ==> depth@[k] == count_ch(docs@[k].path@, '/'),
    {
        rank.push(if docs[i].is_folder { 0 } else { 1 });
        depth.push(slash_count(docs[i].path.as_str()));
    }
    let mut res: Vec<usize> = Vec::new();
    for i in 0..n
        invariant
            n == docs.len(),
            rank.len() == n,
            depth.len() == n,
            forall|k: int| 0 <= k < n ==> rank@[k] == (if docs@[k].is_folder { 0u8 } else { 1u8 }),
            forall|k: int| 0 <= k < n ==> depth@[k] == count_ch(docs@[k].path@, '/'),
            res.len() == i,
            forall|k: int| 0 <= k < res.len() ==> res@[k] < i,
            forall|a: int, b: int|
                0 <= a < b < res.len() ==> import_before(docs@, res@[a] as int, res@[b] as int),
    {
        let mut q: usize = 0;
        while q < res.len() && goes_before(&rank, &depth, res[q], i)
            invariant
                q <= res.len(),
                i < n == docs.len(),
                rank.len() == n,
                depth.len() == n,
                forall|k: int| 0 <= k < n ==> rank@[k] == (if docs@[k].is_folder { 0u8 } else { 1u8 }),
                forall|k: int| 0 <= k < n ==> depth@[k] == count_ch(docs@[k].path@, '/'),
                forall|k: int| 0 <= k < res.len() ==> res@[k] < i,
                forall|t: int| 0 <= t < q ==> import_before(docs@, res@[t] as int, i as int),
            decreases res.len() - q,
        {
            q = q + 1;
        }
        let ghost old_res = res@;
        proof {
            if q < old_res.len() {
                assert(!import_before(docs@, old_res[q as int] as int, i as int));
                assert(import_before(docs@, i as int, old_res[q as int] as int));
            }
            assert forall|t: int| q <= t < old_res.len() implies import_before(
                docs@,
                i as int,
                #[trigger] old_res[t] as int,
            ) by {
                if t > q {
                    assert(import_before(docs@, old_res[q as int] as int, old_res[t] as int));
                }
            }
        }
        res.insert(q, i);
        assert(res@ == old_res.insert(q as int, i));
    }
    assert forall|a: int, b: int| 0 <= a < b < res.len() implies res@[a] != res@[b] by {
        assert(import_before(docs@, res@[a] as int, res@[b] as int));
    }
    res
}


// ───────────────────────── export then import ─────────────────────────

/// Every newline is followed by something other than a dash.
pub open spec fn newline_no_dash(s: Seq<char>) -> bool {
    forall|j: int| 0 <= j < s.len() && #[trigger] s[j] == '\n' ==> j + 1 < s.len() && s[j + 1] != '-'
}

proof fn lemma_newline_no_dash_join(a: Seq<char>, b: Seq<char>)
    requires
        lacks(a, '\n'),
        newline_no_dash(b),
        b.len() > 0,
        b[0] != '-',
    ensures
        newline_no_dash(a + seq!['\n'] + b),
{
    let s = a + seq!['\n'] + b;
    assert forall|j: int| 0 <= j < s.len() && #[trigger] s[j] == '\n' implies j + 1 < s.len() && s[j + 1] != '-' by {
        if j < a.len() {
            assert(s[j] == a[j]);
        } else if j == a.len() {
            assert(s[j + 1] == b[0]);
        } else {
            assert(s[j] == b[j - a.len() - 1]);
            assert(s[j + 1] == b[j + 1 - a.len() - 1]);
        }
    }
}

/// A front-matter line `key: value`.
pub open spec fn fm_line(key: Seq<char>, value: Seq<char>) -> Seq<char> {
    key + seq![':'] + seq![' '] + value
}

pub open spec fn quoted(t: Seq<char>) -> Seq<char> {
    seq!['"'] + t + seq!['"']
}

proof fn lemma_entry_of_line(key: Seq<char>, value: Seq<char>)
    requires
        key.len() > 0,
        lacks(key, ':'),
        !is_ws(key[0]),
        !is_ws(key.last()),
        value.len() > 0,
        !is_ws(value[0]),
        !is_ws(value.last()),
    ensures
        entry_of(fm_line(key, value)) == Some((key, trim_ch(value, '"'))),
{
    let line = fm_line(key, value);
    let colon = seq![':'];
    assert(line.subrange(key.len() as int, key.len() as int + 1) =~= colon);
    assert forall|j: int| 0 <= j < key.len() implies #[trigger] line.subrange(j, j + colon.len())
        != colon by {
        assert(line.subrange(j, j + 1)[0] == key[j]);
    }
    lemma_find_first(line, colon, key.len() as int);
    assert(line.take(key.len() as int) =~= key);
    assert(line.skip(key.len() as int + 1) =~= seq![' '] + value);
    lemma_trim_ws_quoted(key);
    lemma_trim_ws_quoted(value);
}

proof fn lemma_dec_nat_last(n: nat)
    ensures
        dec_nat(n).len() > 0,
        dec_nat(n).last() == digit_char(n % 10),
    decreases n,
{
    if n >= 10 {
        lemma_dec_nat_last(n / 10);
    }
}

pub open spec fn key_is_folder() -> Seq<char> {
    seq!['i', 's', '_', 'f', 'o', 'l', 'd', 'e', 'r']
}

pub open spec fn key_sort_order() -> Seq<char> {
    seq!['s', 'o', 'r', 't', '_', 'o', 'r', 'd', 'e', 'r']
}

pub open spec fn key_created_at() -> Seq<char> {
    seq!['c', 'r', 'e', 'a', 't', 'e', 'd', '_', 'a', 't']
}

pub open spec fn key_updated_at() -> Seq<char> {
    seq!['u', 'p', 'd', 'a', 't', 'e', 'd', '_', 'a', 't']
}

/// The six front-matter lines of an exported document.
pub open spec fn fm_lines(d: DbDoc) -> Seq<Seq<char>> {
    seq![
        fm_line(title_key(), quoted(replace_ch(d.title@, '"', seq!['\\', '"']))),
        fm_line(slug_key(), quoted(d.slug@)),
        fm_line(key_is_folder(), bool_text(d.is_folder)),
        fm_line(key_sort_order(), dec_int(d.sort_order as int)),
        fm_line(key_created_at(), quoted(d.created_at@)),
        fm_line(key_updated_at(), quoted(d.updated_at@)),
    ]
}

/// Lines `k..6` of the front matter joined by newlines.
pub open spec fn fm_block_from(d: DbDoc, k: int) -> Seq<char>
    decreases 6 - k,
{
    if k >= 5 {
        fm_lines(d)[5]
    } else {
        fm_lines(d)[k] + seq!['\n'] + fm_block_from(d, k + 1)
    }
}

/// The requirements under which an exported document imports back as it was.
pub open spec fn exports_cleanly(d: DbDoc) -> bool {
    &&& d.title@.len() > 0
    &&& lacks(d.title@, '"')
    &&& lacks(d.title@, '\n')
    &&& d.slug@.len() > 0
    &&& lacks(d.slug@, '"')
    &&& lacks(d.slug@, '\n')
    &&& lacks(d.created_at@, '\n')
    &&& lacks(d.updated_at@, '\n')
}

proof fn lemma_sort_order_text(i: int)
    ensures
        lacks(dec_int(i), '\n'),
        dec_int(i).len() > 0,
        !is_ws(dec_int(i)[0]),
        !is_ws(dec_int(i).last()),
{
    let nn: nat = if i < 0 {
        (-i) as nat
    } else {
        i as nat
    };
    lemma_dec_nat_last(nn);
    lemma_dec_nat_chars(nn, 0);
    let n = dec_int(i);
    assert forall|k: int| 0 <= k < n.len() implies #[trigger] n[k] != '\n' by {
        if i < 0 {
            if k > 0 {
                lemma_dec_nat_chars(nn, k - 1);
            }
        } else {
            lemma_dec_nat_chars(nn, k);
        }
    }
}

proof fn lemma_fm_lines_shape(d: DbDoc)
    requires
        exports_cleanly(d),
    ensures
        forall|k: int| 0 <= k < 6 ==> lacks(#[trigger] fm_lines(d)[k], '\n'),
        forall|k: int| 0 <= k < 6 ==> (#[trigger] fm_lines(d)[k]).len() > 0 && fm_lines(d)[k][0] != '-',
        forall|k: int| 0 <= k < 6 ==> (#[trigger] fm_lines(d)[k]).last() != '\r',
{
    lemma_sort_order_text(d.sort_order as int);
    lemma_replace_absent(d.title@, '"', seq!['\\', '"']);
    let ls = fm_lines(d);
    assert(lacks(ls[0], '\n'));
    assert(lacks(ls[1], '\n'));
    assert(lacks(ls[2], '\n'));
    assert(lacks(ls[3], '\n'));
    assert(lacks(ls[4], '\n'));
    assert(lacks(ls[5], '\n'));
    assert(ls[3].last() == dec_int(d.sort_order as int).last());
}

proof fn lemma_fm_block_splits(d: DbDoc, k: int)
    requires
        exports_cleanly(d),
        0 <= k <= 5,
    ensures
        newline_no_dash(fm_block_from(d, k)),
        fm_block_from(d, k).len() > 0,
        fm_block_from(d, k)[0] != '-',
        lines(fm_block_from(d, k)) == fm_lines(d).skip(k),
    decreases 6 - k,
{
    lemma_fm_lines_shape(d);
    let x = fm_lines(d)[k];
    if k == 5 {
        lemma_split_lines_single(x);
        assert(newline_no_dash(x));
        assert(fm_lines(d).skip(5) =~= seq![x]);
        assert(lines(x) =~= seq![strip_line_end(x)]);
    } else {
        lemma_fm_block_splits(d, k + 1);
        let r = fm_block_from(d, k + 1);
        lemma_newline_no_dash_join(x, r);
        lemma_split_lines_line_then(x, r);
        assert((x + seq!['\n']).drop_last() =~= x);
        assert(strip_line_end(x + seq!['\n']) == x);
        assert(lines(fm_block_from(d, k)) =~= seq![x] + lines(r));
        assert(fm_lines(d).skip(k) =~= seq![x] + fm_lines(d).skip(k + 1));
    }
}

proof fn lemma_frontmatter_splits(d: DbDoc, content: Seq<char>)
    requires
        exports_cleanly(d),
        content.len() == 0 || content[0] != '\n',
    ensures
        split_frontmatter(frontmatter_text(d, content)) == Some((fm_block_from(d, 0), content)),
{
    lemma_fm_block_splits(d, 0);
    let j = fm_block_from(d, 0);
    let raw = frontmatter_text(d, content);
    let rest = raw.skip(4);
    assert(rest =~= j + close_marker() + seq!['\n', '\n'] + content);
    assert(rest.subrange(j.len() as int, j.len() as int + 4) =~= close_marker());
    assert forall|k: int| 0 <= k < j.len() implies #[trigger] rest.subrange(
        k,
        k + close_marker().len(),
    ) != close_marker() by {
        if rest.subrange(k, k + 4) == close_marker() {
            assert(rest.subrange(k, k + 4)[0] == rest[k]);
            assert(rest.subrange(k, k + 4)[1] == rest[k + 1]);
            assert(rest[k] == j[k]);
            assert(j[k] == '\n');
            assert(rest[k + 1] == j[k + 1]);
        }
    }
    lemma_find_first(rest, close_marker(), j.len() as int);
    assert(raw.take(4) =~= open_lf());
    assert(raw.subrange(4, 4 + j.len() as int) =~= j);
    let after = raw.skip(4 + j.len() as int + 4);
    assert(after =~= seq!['\n', '\n'] + content);
    assert(after.drop_first() =~= seq!['\n'] + content);
    assert((seq!['\n'] + content).drop_first() =~= content);
    assert(trim_start_ch(content, '\n') == content);
    assert(trim_start_ch(seq!['\n'] + content, '\n') == trim_start_ch(content, '\n'));
    assert(trim_start_ch(after, '\n') == trim_start_ch(seq!['\n'] + content, '\n'));
}

proof fn lemma_fm_entries(d: DbDoc)
    requires
        exports_cleanly(d),
    ensures
        value_for(entries_of(fm_lines(d)), title_key()) == d.title@,
        value_for(entries_of(fm_lines(d)), slug_key()) == d.slug@,
        value_for(entries_of(fm_lines(d)), key_is_folder()) == bool_text(d.is_folder),
        value_for(entries_of(fm_lines(d)), key_sort_order()) == dec_int(d.sort_order as int),
        entries_of(fm_lines(d)).len() == 6,
        entries_of(fm_lines(d))[2] == (key_is_folder(), bool_text(d.is_folder)),
        entries_of(fm_lines(d))[3] == (key_sort_order(), dec_int(d.sort_order as int)),
{
    let t = d.title@;
    let sl = d.slug@;
    let b = bool_text(d.is_folder);
    let n = dec_int(d.sort_order as int);
    let c = d.created_at@;
    let u = d.updated_at@;
    assert(is_ws('"') == false);
    assert(quoted(t).len() > 0 && quoted(t)[0] == '"' && quoted(t).last() == '"');
    assert(quoted(sl)[0] == '"' && quoted(sl).last() == '"');
    assert(quoted(c)[0] == '"' && quoted(c).last() == '"');
    assert(quoted(u)[0] == '"' && quoted(u).last() == '"');
    lemma_entry_of_line(title_key(), quoted(t));
    lemma_entry_of_line(slug_key(), quoted(sl));
    lemma_entry_of_line(key_created_at(), quoted(c));
    lemma_entry_of_line(key_updated_at(), quoted(u));
    assert(!is_ws(b[0]) && !is_ws(b.last()));
    lemma_entry_of_line(key_is_folder(), b);
    lemma_sort_order_text(d.sort_order as int);
    lemma_entry_of_line(key_sort_order(), n);
    lemma_trim_quotes(t);
    lemma_trim_quotes(sl);
    lemma_replace_absent(t, '"', seq!['\\', '"']);
    let ls = fm_lines(d);
    assert(ls.take(1).last() == ls[0]);
    assert(ls.take(2).last() == ls[1]);
    assert(ls.take(3).last() == ls[2]);
    assert(ls.take(4).last() == ls[3]);
    assert(ls.take(5).last() == ls[4]);
    assert(ls.last() == ls[5]);
    let e1 = (title_key(), t);
    let e2 = (slug_key(), sl);
    let e3 = entry_of(ls[2]).unwrap();
    let e4 = entry_of(ls[3]).unwrap();
    let e5 = entry_of(ls[4]).unwrap();
    let e6 = entry_of(ls[5]).unwrap();
    assert(entry_of(ls[0]) == Some(e1));
    assert(entry_of(ls[1]) == Some(e2));
    assert(ls.take(1).drop_last() =~= Seq::<Seq<char>>::empty());
    assert(ls.take(2).drop_last() =~= ls.take(1));
    assert(ls.take(3).drop_last() =~= ls.take(2));
    assert(ls.take(4).drop_last() =~= ls.take(3));
    assert(ls.take(5).drop_last() =~= ls.take(4));
    assert(ls.drop_last() =~= ls.take(5));
    assert(entries_of(ls.take(1).drop_last()) == Seq::<(Seq<char>, Seq<char>)>::empty());
    assert(entries_of(ls.take(1)) =~= seq![e1]);
    assert(entries_of(ls.take(2)) =~= seq![e1, e2]);
    assert(entries_of(ls.take(3)) =~= seq![e1, e2, e3]);
    assert(entries_of(ls.take(4)) =~= seq![e1, e2, e3, e4]);
    assert(entries_of(ls.take(5)) =~= seq![e1, e2, e3, e4, e5]);
    assert(entries_of(ls) =~= seq![e1, e2] + seq![e3, e4, e5, e6]);
    let extra = seq![e3, e4, e5, e6];
    assert forall|k: int| 0 <= k < extra.len() implies (#[trigger] extra[k]).0 != title_key()
        && extra[k].0 != slug_key() by {
        assert(extra[k].0.len() >= 9);
    }
    lemma_value_for_skip(seq![e1, e2], extra, title_key());
    lemma_value_for_skip(seq![e1, e2], extra, slug_key());
    assert(seq![e1, e2].drop_last() =~= seq![e1]);
    assert(slug_key().len() != title_key().len());
    assert(seq![e1, e2].last().0 != title_key());
    assert(value_for(seq![e1], title_key()) == t);
    assert(value_for(seq![e1, e2], title_key()) == t);
    // the folder flag and the sort order read back unchanged
    lemma_trim_plain(b, '"');
    lemma_sort_order_quotes(d.sort_order as int);
    lemma_trim_plain(n, '"');
    assert(e3 == (key_is_folder(), b));
    assert(e4 == (key_sort_order(), n));
    assert(e5.0 == key_created_at());
    assert(e6.0 == key_updated_at());
    let head3 = seq![e1, e2, e3];
    let tail3 = seq![e4, e5, e6];
    assert(entries_of(ls) =~= head3 + tail3);
    assert forall|k: int| 0 <= k < tail3.len() implies (#[trigger] tail3[k]).0 != key_is_folder() by {
        assert(tail3[k].0.len() == 10);
    }
    lemma_value_for_skip(head3, tail3, key_is_folder());
    assert(value_for(head3, key_is_folder()) == b);
    let head4 = seq![e1, e2, e3, e4];
    let tail2 = seq![e5, e6];
    assert(entries_of(ls) =~= head4 + tail2);
    assert forall|k: int| 0 <= k < tail2.len() implies (#[trigger] tail2[k]).0 != key_sort_order() by {
        assert(tail2[k].0[0] != key_sort_order()[0]);
    }
    lemma_value_for_skip(head4, tail2, key_sort_order());
    assert(value_for(head4, key_sort_order()) == n);
}

/// A text that neither starts nor ends with `c` is left alone by trimming
/// `c` from both ends.
proof fn lemma_trim_plain(s: Seq<char>, c: char)
    requires
        s.len() > 0,
        s[0] != c,
        s.last() != c,
    ensures
        trim_ch(s, c) == s,
{
    assert(trim_start_ch(s, c) == s);
    assert(trim_end_ch(s, c) == s);
}

proof fn lemma_sort_order_quotes(i: int)
    ensures
        dec_int(i).len() > 0,
        dec_int(i)[0] != '"',
        dec_int(i).last() != '"',
{
    let nn: nat = if i < 0 {
        (-i) as nat
    } else {
        i as nat
    };
    lemma_dec_nat_last(nn);
    lemma_dec_nat_chars(nn, 0);
    lemma_dec_nat_chars(nn, dec_nat(nn).len() - 1);
    if i < 0 {
        assert(dec_int(i).last() == dec_nat(nn).last());
    }
}

/// Exporting a document and importing the note it became gives back the
/// document's title, slug and content, whatever path the note is imported
/// from, and the front matter read back holds the folder flag and the sort
/// order as they were written.  This holds when the title and slug are
/// non-empty and hold neither double quotes (the export escapes them, the
/// import does not unescape) nor newlines, the timestamps hold no newline
/// (a newline there could end the front matter early), and the content does
/// not start with a newline (the import drops leading newlines of the body).
pub proof fn lemma_export_import_roundtrip(d: DbDoc, content: Seq<char>, path: Seq<char>)
    requires
        exports_cleanly(d),
        content.len() == 0 || content[0] != '\n',
    ensures
        note_title(frontmatter_text(d, content), path) == d.title@,
        note_slug(frontmatter_text(d, content), path) == d.slug@,
        note_body(frontmatter_text(d, content)) == content,
        note_entries(frontmatter_text(d, content)).contains((key_is_folder(), bool_text(d.is_folder))),
        note_entries(frontmatter_text(d, content)).contains(
            (key_sort_order(), dec_int(d.sort_order as int)),
        ),
        value_for(note_entries(frontmatter_text(d, content)), key_is_folder()) == bool_text(
            d.is_folder,
        ),
        value_for(note_entries(frontmatter_text(d, content)), key_sort_order()) == dec_int(
            d.sort_order as int,
        ),
{
    lemma_frontmatter_splits(d, content);
    lemma_fm_block_splits(d, 0);
    assert(fm_lines(d).skip(0) == fm_lines(d));
    lemma_fm_entries(d);
    let es = note_entries(frontmatter_text(d, content));
    assert(es == entries_of(fm_lines(d)));
    assert(es[2] == (key_is_folder(), bool_text(d.is_folder)));
    assert(es[3] == (key_sort_order(), dec_int(d.sort_order as int)));
}

/// Entries under other keys, added at the end, leave a key's value alone.
proof fn lemma_value_for_skip(
    es: Seq<(Seq<char>, Seq<char>)>,
    extra: Seq<(Seq<char>, Seq<char>)>,
    key: Seq<char>,
)
    requires
        forall|k: int| 0 <= k < extra.len() ==> (#[trigger] extra[k]).0 != key,
    ensures
        value_for(es + extra, key) == value_for(es, key),
    decreases extra.len(),
{
    if extra.len() == 0 {
        assert(es + extra =~= es);
    } else {
        assert((es + extra).drop_last() =~= es + extra.drop_last());
        assert((es + extra).last() == extra.last());
        lemma_value_for_skip(es, extra.drop_last(), key);
    }
}

proof fn lemma_dec_nat_chars(n: nat, k: int)
    requires
        0 <= k < dec_nat(n).len(),
    ensures
        '0' <= dec_nat(n)[k] <= '9',
    decreases n,
{
    if n >= 10 {
        if k < dec_nat(n / 10).len() {
            lemma_dec_nat_chars(n / 10, k);
        }
    }
}

// ───────────────────────── whole exports and import steps ─────────────────────────

/// The entry a stored document becomes in an export.
pub fn export_entry(doc: &DbDoc, all_docs: &Vec<DbDoc>) -> (res: VaultDocument)
    requires
        chain_ends(all_docs@, doc.parent_id, all_docs@.len()),
    ensures
        res.path@ == vault_path(*doc, all_docs@),
        res.content@ == frontmatter_text(*doc, doc.content@),
        res.is_folder == doc.is_folder,
{
    VaultDocument {
        path: build_path(doc, all_docs),
        content: format_frontmatter(doc, doc.content.as_str()),
        is_folder: doc.is_folder,
    }
}

/// Whether every document's walk up its parents comes to an end.
pub open spec fn parents_end(docs: Seq<DbDoc>) -> bool {
    forall|i: int| 0 <= i < docs.len() ==> chain_ends(docs, #[trigger] docs[i].parent_id, docs.len())
}

/// The export of all stored documents, in the order given, stamped with the
/// time it was made (format version 1).
pub fn export_vault(docs: &Vec<DbDoc>, exported_at: String) -> (res: VaultExport)
    requires
        parents_end(docs@),
    ensures
        res.version == 1,
        res.exported_at@ == exported_at@,
        res.documents.len() == docs.len(),
        forall|i: int|
            0 <= i < docs.len() ==> {
                &&& (#[trigger] res.documents@[i]).path@ == vault_path(docs@[i], docs@)
                &&& res.documents@[i].content@ == frontmatter_text(docs@[i], docs@[i].content@)
                &&& res.documents@[i].is_folder == docs@[i].is_folder
            },
{
    let mut out: Vec<VaultDocument> = Vec::new();
    for i in 0..docs.len()
        invariant
            parents_end(docs@),
            out.len() == i,
            forall|k: int|
                0 <= k < i ==> {
                    &&& (#[trigger] out@[k]).path@ == vault_path(docs@[k], docs@)
                    &&& out@[k].content@ == frontmatter_text(docs@[k], docs@[k].content@)
                    &&& out@[k].is_folder == docs@[k].is_folder
                },
    {
        assert(chain_ends(docs@, docs@[i as int].parent_id, docs@.len()));
        out.push(export_entry(&docs[i], docs));
    }
    VaultExport { version: 1, exported_at, documents: out }
}

/// What the import stores for one vault document: the title, slug and body
/// read from the note, the folder it goes in, and the key it is remembered
/// under.
#[derive(Debug, Clone)]
pub struct ImportItem {
    pub title: String,
    pub slug: String,
    pub content: String,
    pub parent_path: Option<String>,
    pub key: String,
    pub is_folder: bool,
}

/// The import step for one vault document.
pub fn import_item(doc: &VaultDocument) -> (res: ImportItem)
    ensures
        res.title@ == note_title(doc.content@, doc.path@),
        res.slug@ == note_slug(doc.content@, doc.path@),
        res.content@ == note_body(doc.content@),
        match parent_path(doc.path@) {
            Some(pp) => res.parent_path matches Some(r) && r@ == pp,
            None => res.parent_path is None,
        },
        res.key@ == trim_end_pat(doc.path@, md_ext()),
        res.is_folder == doc.is_folder,
{
    let (title, slug, content, _) = parse_obsidian_md(doc.content.as_str(), doc.path.as_str());
    ImportItem {
        title,
        slug,
        content,
        parent_path: parent_path_of(doc.path.as_str()),
        key: path_key(doc.path.as_str()),
        is_folder: doc.is_folder,
    }
}

/// The error recorded when the folder of a document cannot be created.
pub fn folder_failure(path: &str, error: &str) -> (res: String)
    ensures
        res@ == "Failed to create folder for "@ + path@ + ": "@ + error@,
{
    let a = concat(&chars_of("Failed to create folder for "), &chars_of(path));
    let b = concat(&a, &chars_of(": "));
    string_of(&concat(&b, &chars_of(error)))
}

/// The error recorded when a document cannot be stored.
pub fn import_failure(path: &str, error: &str) -> (res: String)
    ensures
        res@ == path@ + ": "@ + error@,
{
    let a = concat(&chars_of(path), &chars_of(": "));
    string_of(&concat(&a, &chars_of(error)))
}

/// The status an import answers with: `200` when every document went in,
/// `207` when some failed.
pub fn import_status(failures: usize) -> (res: u16)
    ensures
        failures == 0 ==> res == 200,
        failures > 0 ==> res == 207,
{
    if failures == 0 {
        200
    } else {
        207
    }
}

// ───────────────────────── folders survive export and import ─────────────────────────

/// Trimming a suffix that holds no `/` never reaches past the last `/`.
proof fn lemma_trim_after_slash(a: Seq<char>, b: Seq<char>, p: Seq<char>)
    requires
        p.len() > 0,
        lacks(p, '/'),
        lacks(b, '/'),
    ensures
        trim_end_pat(a + seq!['/'] + b, p) == a + seq!['/'] + trim_end_pat(b, p),
    decreases b.len(),
{
    let x = a + seq!['/'] + b;
    if ends_with(x, p) {
        if p.len() > b.len() {
            let j = a.len() - (x.len() - p.len());
            assert(x[a.len() as int] == '/');
            assert(p[j] == x.skip(x.len() - p.len())[j]);
        }
        assert(b.skip(b.len() - p.len()) =~= x.skip(x.len() - p.len()));
        assert(ends_with(b, p));
        let b2 = b.take(b.len() - p.len());
        assert(x.take(x.len() - p.len()) =~= a + seq!['/'] + b2);
        lemma_trim_after_slash(a, b2, p);
    } else {
        if ends_with(b, p) {
            assert(x.skip(x.len() - p.len()) =~= b.skip(b.len() - p.len()));
        }
    }
}

/// Trimming keeps a text free of `/`.
proof fn lemma_trim_lacks(b: Seq<char>, p: Seq<char>)
    requires
        lacks(b, '/'),
    ensures
        lacks(trim_end_pat(b, p), '/'),
    decreases b.len(),
{
    if p.len() > 0 && ends_with(b, p) {
        let b2 = b.take(b.len() - p.len());
        assert forall|i: int| 0 <= i < b2.len() implies #[trigger] b2[i] != '/' by {
            assert(b2[i] == b[i]);
        }
        lemma_trim_lacks(b2, p);
    }
}

/// The last `/` of `a/t`, when `t` holds none, is the one after `a`.
proof fn lemma_last_slash(a: Seq<char>, t: Seq<char>)
    requires
        lacks(t, '/'),
    ensures
        last_index(a + seq!['/'] + t, '/') == Some(a.len() as int),
    decreases t.len(),
{
    let x = a + seq!['/'] + t;
    if t.len() == 0 {
        assert(x.last() == '/');
    } else {
        assert(x.last() == t.last());
        assert(x.drop_last() =~= a + seq!['/'] + t.drop_last());
        assert forall|i: int| 0 <= i < t.drop_last().len() implies #[trigger] t.drop_last()[i] != '/' by {
            assert(t.drop_last()[i] == t[i]);
        }
        lemma_last_slash(a, t.drop_last());
    }
}

/// A name without `/` has no parent folder.
proof fn lemma_no_slash_no_parent(name: Seq<char>)
    requires
        lacks(name, '/'),
    ensures
        parent_path(name) is None,
{
    lemma_trim_lacks(name, md_ext());
    lemma_last_index_none(trim_end_pat(name, md_ext()));
}

proof fn lemma_last_index_none(t: Seq<char>)
    requires
        lacks(t, '/'),
    ensures
        last_index(t, '/') is None,
    decreases t.len(),
{
    if t.len() > 0 {
        assert(t.last() == t[t.len() - 1]);
        assert forall|i: int| 0 <= i < t.drop_last().len() implies #[trigger] t.drop_last()[i] != '/' by {
            assert(t.drop_last()[i] == t[i]);
        }
        lemma_last_index_none(t.drop_last());
    }
}

proof fn lemma_file_name_lacks(d: DbDoc)
    requires
        lacks(d.slug@, '/'),
    ensures
        lacks(file_name(d), '/'),
{
    assert forall|i: int| 0 <= i < file_name(d).len() implies #[trigger] file_name(d)[i] != '/' by {
        if !d.is_folder && i >= d.slug@.len() {
            assert(file_name(d)[i] == md_ext()[i - d.slug@.len()]);
        }
    }
}

/// A slug that does not end in `.md` is its file name with the `.md`
/// endings trimmed.
proof fn lemma_trimmed_file_name(d: DbDoc)
    requires
        !ends_with(d.slug@, md_ext()),
    ensures
        trim_end_pat(file_name(d), md_ext()) == d.slug@,
{
    assert(trim_end_pat(d.slug@, md_ext()) == d.slug@);
    if !d.is_folder {
        let f = d.slug@ + md_ext();
        assert(f.skip(f.len() - 3) =~= md_ext());
        assert(f.take(f.len() - 3) =~= d.slug@);
        assert(trim_end_pat(f, md_ext()) == trim_end_pat(d.slug@, md_ext()));
    }
}

/// The path of the parent of a document, and the document's own path.
proof fn lemma_path_split(docs: Seq<DbDoc>, i: int, k: int)
    requires
        0 <= i < docs.len(),
        0 <= k < docs.len(),
        parents_end(docs),
        docs[i].parent_id == Some(docs[k].id),
        first_with_id(docs, docs[k].id) == Some(k),
    ensures
        vault_path(docs[i], docs) == join_upward(seq![docs[k].slug@] + parent_slugs(docs, docs[k].parent_id, docs.len()))
            + seq!['/'] + file_name(docs[i]),
{
    let n = docs.len();
    assert(chain_ends(docs, docs[i].parent_id, n));
    lemma_parent_slugs_fuel(docs, docs[k].parent_id, (n - 1) as nat, n);
    let s = seq![docs[k].slug@] + parent_slugs(docs, docs[k].parent_id, n);
    assert(parent_slugs(docs, docs[i].parent_id, n) == s);
    let all = seq![file_name(docs[i])] + s;
    assert(all.drop_first() =~= s);
    assert(all[0] == file_name(docs[i]));
}

/// Export then import keeps every document in its folder: the folder the
/// import reads from an exported document's path is the key under which its
/// parent's exported path is remembered (slugs holding no `/`, the parent's
/// not ending in `.md`).
pub proof fn lemma_export_keeps_parent(docs: Seq<DbDoc>, i: int, k: int)
    requires
        0 <= i < docs.len(),
        0 <= k < docs.len(),
        parents_end(docs),
        docs[i].parent_id == Some(docs[k].id),
        first_with_id(docs, docs[k].id) == Some(k),
        lacks(docs[i].slug@, '/'),
        lacks(docs[k].slug@, '/'),
        !ends_with(docs[k].slug@, md_ext()),
    ensures
        parent_path(vault_path(docs[i], docs)) == Some(trim_end_pat(vault_path(docs[k], docs), md_ext())),
{
    let n = docs.len();
    lemma_path_split(docs, i, k);
    let up = parent_slugs(docs, docs[k].parent_id, n);
    let j = join_upward(seq![docs[k].slug@] + up);
    let fi = file_name(docs[i]);
    lemma_file_name_lacks(docs[i]);
    lemma_file_name_lacks(docs[k]);
    lemma_trim_after_slash(j, fi, md_ext());
    lemma_trim_lacks(fi, md_ext());
    lemma_last_slash(j, trim_end_pat(fi, md_ext()));
    assert((j + seq!['/'] + trim_end_pat(fi, md_ext())).take(j.len() as int) =~= j);
    // the parent's own path
    let fk = file_name(docs[k]);
    let pk = seq![fk] + up;
    lemma_trimmed_file_name(docs[k]);
    if up.len() == 0 {
        assert(pk =~= seq![fk]);
        assert(seq![docs[k].slug@] + up =~= seq![docs[k].slug@]);
    } else {
        assert(pk.drop_first() =~= up);
        assert((seq![docs[k].slug@] + up).drop_first() =~= up);
        lemma_trim_after_slash(join_upward(up), fk, md_ext());
    }
}

/// A document exported at the top of the vault, or whose parent is not
/// exported, is imported at the top (its slug holding no `/`).
pub proof fn lemma_export_top_level(docs: Seq<DbDoc>, i: int)
    requires
        0 <= i < docs.len(),
        match docs[i].parent_id {
            Some(pid) => first_with_id(docs, pid) is None,
            None => true,
        },
        lacks(docs[i].slug@, '/'),
    ensures
        parent_path(vault_path(docs[i], docs)) is None,
{
    let all = seq![file_name(docs[i])] + parent_slugs(docs, docs[i].parent_id, docs.len());
    assert(all =~= seq![file_name(docs[i])]);
    lemma_file_name_lacks(docs[i]);
    lemma_no_slash_no_parent(file_name(docs[i]));
}


/// The slug of an imported folder holds no space: it is the lowercased last
/// path segment with every space replaced by `-`, character for character.
pub proof fn lemma_folder_slug_dashes(folder_path: Seq<char>)
    ensures
        lacks(folder_slug(folder_path), ' '),
        folder_slug(folder_path).len() == lower_of(last_segment(folder_path, '/')).len(),
        forall|i: int|
            0 <= i < folder_slug(folder_path).len() ==> #[trigger] folder_slug(folder_path)[i] == {
                let c = lower_of(last_segment(folder_path, '/'))[i];
                if c == ' ' {
                    '-'
                } else {
                    c
                }
            },
{
    lemma_dash_for_space(lower_of(last_segment(folder_path, '/')));
}

proof fn lemma_dash_for_space(t: Seq<char>)
    ensures
        replace_ch(t, ' ', seq!['-']).len() == t.len(),
        forall|i: int|
            0 <= i < t.len() ==> #[trigger] replace_ch(t, ' ', seq!['-'])[i] == (if t[i] == ' ' {
                '-'
            } else {
                t[i]
            }),
        lacks(replace_ch(t, ' ', seq!['-']), ' '),
    decreases t.len(),
{
    if t.len() > 0 {
        lemma_dash_for_space(t.drop_last());
        let r = replace_ch(t, ' ', seq!['-']);
        let p = replace_ch(t.drop_last(), ' ', seq!['-']);
        let tail: Seq<char> = if t.last() == ' ' {
            seq!['-']
        } else {
            seq![t.last()]
        };
        assert(r == p + tail);
        assert forall|i: int| 0 <= i < t.len() implies #[trigger] r[i] == (if t[i] == ' ' {
            '-'
        } else {
            t[i]
        }) by {
            if i < t.len() - 1 {
                assert(r[i] == p[i]);
                assert(t.drop_last()[i] == t[i]);
            }
        }
    }
}


/// The slug a note gets from its path holds no space either: every space of
/// the lowercased file name becomes `-`.
pub proof fn lemma_fallback_slug_dashes(path: Seq<char>)
    ensures
        lacks(fallback_slug(path), ' '),
        fallback_slug(path).len() == lower_of(note_name(path)).len(),
{
    lemma_dash_for_space(lower_of(note_name(path)));
}

} // verus!
