//! The bookkeeping of a vault import: which stored id each imported path
//! received, which folders a document still needs (created from the top
//! down), and what one document's outcome does to the counts and errors.
use vstd::prelude::*;
use crate::dashboard::config::string_views;
use crate::kb::vault::{
    count_ch, folder_failure, import_failure, md_ext, parent_folder_of, parent_path, parent_path_of,
};
use crate::text::{chars_of, ends_with, last_index, same, trim_end_pat};

verus! {

// ───────────────────────── every parent has one `/` fewer ─────────────────────────

/// How deep a vault path lies: the `/`s left once `.md` endings are trimmed.
pub open spec fn depth(p: Seq<char>) -> nat {
    count_ch(trim_end_pat(p, md_ext()), '/')
}

proof fn lemma_count_append(a: Seq<char>, b: Seq<char>, c: char)
    ensures
        count_ch(a + b, c) == count_ch(a, c) + count_ch(b, c),
    decreases b.len(),
{
    if b.len() == 0 {
        assert(a + b =~= a);
    } else {
        assert((a + b).drop_last() =~= a + b.drop_last());
        assert((a + b).last() == b.last());
        lemma_count_append(a, b.drop_last(), c);
    }
}

proof fn lemma_count_trim(s: Seq<char>)
    ensures
        count_ch(trim_end_pat(s, md_ext()), '/') == count_ch(s, '/'),
    decreases s.len(),
{
    if ends_with(s, md_ext()) {
        let a = s.take(s.len() - 3);
        assert(s =~= a + md_ext());
        lemma_count_append(a, md_ext(), '/');
        assert(count_ch(md_ext(), '/') == 0) by {
            reveal_with_fuel(count_ch, 4);
            assert(md_ext().drop_last() =~= seq!['.', 'm']);
            assert(seq!['.', 'm'].drop_last() =~= seq!['.']);
            assert(seq!['.'].drop_last() =~= Seq::<char>::empty());
        }
        lemma_count_trim(a);
    }
}

proof fn lemma_count_before_last(t: Seq<char>)
    requires
        last_index(t, '/') is Some,
    ensures
        count_ch(t.take(last_index(t, '/')->0), '/') + 1 == count_ch(t, '/'),
    decreases t.len(),
{
    if t.last() == '/' {
        assert(t.take(t.len() - 1) =~= t.drop_last());
    } else {
        let i = last_index(t, '/')->0;
        lemma_count_before_last(t.drop_last());
        crate::text::lemma_last_index_bounds(t.drop_last(), '/');
        assert(t.drop_last().take(i) =~= t.take(i));
    }
}

proof fn lemma_count_none(t: Seq<char>)
    requires
        last_index(t, '/') is None,
    ensures
        count_ch(t, '/') == 0,
    decreases t.len(),
{
    if t.len() > 0 {
        lemma_count_none(t.drop_last());
    }
}

/// A vault path has a parent exactly when it holds a `/` (once `.md`
/// endings are trimmed), and the parent lies one `/` higher.
pub proof fn lemma_parent_one_fewer(p: Seq<char>)
    ensures
        parent_path(p) is Some <==> depth(p) > 0,
        parent_path(p) matches Some(q) ==> depth(q) + 1 == depth(p),
{
    let t = trim_end_pat(p, md_ext());
    match last_index(t, '/') {
        Some(i) => {
            lemma_count_before_last(t);
            lemma_count_trim(t.take(i));
        },
        None => {
            lemma_count_none(t);
        },
    }
}

/// The path reached from `p` by taking the parent `k` times.
pub open spec fn parent_steps(p: Seq<char>, k: nat) -> Option<Seq<char>>
    decreases k,
{
    if k == 0 {
        Some(p)
    } else {
        match parent_path(p) {
            Some(q) => parent_steps(q, (k - 1) as nat),
            None => None,
        }
    }
}

/// Taking the parent of a path of depth `n` again and again gives a path
/// exactly `n` times, each one `/` higher, and then nothing: the walk up
/// the folders of an imported path always ends.
pub proof fn lemma_parent_steps(p: Seq<char>, k: nat)
    ensures
        k <= depth(p) ==> (parent_steps(p, k) matches Some(q) && depth(q) + k == depth(p)),
        k > depth(p) ==> parent_steps(p, k) is None,
    decreases k,
{
    if k > 0 {
        lemma_parent_one_fewer(p);
        match parent_path(p) {
            Some(q) => {
                lemma_parent_steps(q, (k - 1) as nat);
            },
            None => {},
        }
    }
}

// ───────────────────────── the ids imported so far ─────────────────────────

/// The ids recorded in a list of `(key, id)` pairs; a later pair for the
/// same key replaces an earlier one.
pub open spec fn assoc(s: Seq<(String, u128)>) -> Map<Seq<char>, u128>
    decreases s.len(),
{
    if s.len() == 0 {
        Map::empty()
    } else {
        assoc(s.drop_last()).insert(s.last().0@, s.last().1)
    }
}

pub open spec fn lookup(ids: Map<Seq<char>, u128>, key: Seq<char>) -> Option<u128> {
    if ids.contains_key(key) {
        Some(ids[key])
    } else {
        None
    }
}

proof fn lemma_assoc_suffix(s: Seq<(String, u128)>, i: int, key: Seq<char>)
    requires
        0 <= i <= s.len(),
        forall|j: int| i <= j < s.len() ==> (#[trigger] s[j]).0@ != key,
    ensures
        lookup(assoc(s), key) == lookup(assoc(s.take(i)), key),
    decreases s.len() - i,
{
    if i < s.len() {
        lemma_assoc_suffix(s.drop_last(), i, key);
        assert(s.drop_last().take(i) =~= s.take(i));
        assert(s.last() == s[s.len() - 1]);
    } else {
        assert(s.take(i) =~= s);
    }
}

/// The folder above a folder path, as the import finds it.
pub open spec fn parent_folder(p: Seq<char>) -> Option<Seq<char>> {
    parent_path(p + md_ext())
}

/// The folders to create for `p`, from the top down: `p` itself unless it
/// is already known, preceded by the folders its parent still needs.
pub open spec fn folders_from(ids: Map<Seq<char>, u128>, p: Seq<char>, fuel: nat) -> Seq<Seq<char>>
    decreases fuel,
{
    if ids.contains_key(p) {
        Seq::empty()
    } else if fuel == 0 {
        seq![p]
    } else {
        match parent_folder(p) {
            Some(q) => folders_from(ids, q, (fuel - 1) as nat).push(p),
            None => seq![p],
        }
    }
}

/// The folders an import creates so that `p` exists, from the top down.
pub open spec fn folder_plan(ids: Map<Seq<char>, u128>, p: Seq<char>) -> Seq<Seq<char>> {
    folders_from(ids, p, depth(p))
}

proof fn lemma_folder_parent(p: Seq<char>)
    ensures
        depth(p + md_ext()) == depth(p),
        parent_folder(p) is Some <==> depth(p) > 0,
        parent_folder(p) matches Some(q) ==> depth(q) + 1 == depth(p),
{
    let f = p + md_ext();
    assert(f.skip(f.len() - 3) =~= md_ext());
    assert(f.take(f.len() - 3) =~= p);
    assert(trim_end_pat(f, md_ext()) == trim_end_pat(p, md_ext()));
    lemma_parent_one_fewer(f);
}

proof fn lemma_folders_from(ids: Map<Seq<char>, u128>, p: Seq<char>)
    ensures
        ({
            let pl = folders_from(ids, p, depth(p));
            &&& ids.contains_key(p) ==> pl.len() == 0
            &&& !ids.contains_key(p) ==> pl.len() > 0 && pl.last() == p
            &&& forall|i: int| 0 <= i < pl.len() ==> !ids.contains_key(#[trigger] pl[i])
            &&& pl.len() > 0 ==> match parent_folder(pl[0]) {
                Some(q) => ids.contains_key(q),
                None => true,
            }
            &&& forall|i: int| 0 < i < pl.len() ==> parent_folder(#[trigger] pl[i]) == Some(pl[i - 1])
        }),
    decreases depth(p),
{
    lemma_folder_parent(p);
    if !ids.contains_key(p) && depth(p) > 0 {
        let q = parent_folder(p)->0;
        lemma_folders_from(ids, q);
        let pre = folders_from(ids, q, depth(q));
        let pl = pre.push(p);
        assert(folders_from(ids, p, depth(p)) == pl);
        assert forall|i: int| 0 < i < pl.len() implies parent_folder(#[trigger] pl[i]) == Some(pl[i - 1]) by {
            if i == pl.len() - 1 {
                if pre.len() == 0 {
                    assert(false);
                }
            } else {
                assert(pl[i] == pre[i]);
            }
        }
        if pre.len() == 0 {
            assert(pl[0] == p);
        } else {
            assert(pl[0] == pre[0]);
        }
    }
}

/// The folder plan creates every folder still missing, from the top down:
/// nothing when `p` is known, else it ends with `p`; no folder in it is
/// known yet; the first one's parent is known (or it has none); and each
/// later folder's parent is the one just before it.  Created in this order,
/// every folder finds its parent's id already recorded.
pub proof fn lemma_plan_top_down(ids: Map<Seq<char>, u128>, p: Seq<char>)
    ensures
        ({
            let pl = folder_plan(ids, p);
            &&& ids.contains_key(p) ==> pl.len() == 0
            &&& !ids.contains_key(p) ==> pl.len() > 0 && pl.last() == p
            &&& forall|i: int| 0 <= i < pl.len() ==> !ids.contains_key(#[trigger] pl[i])
            &&& pl.len() > 0 ==> match parent_folder(pl[0]) {
                Some(q) => ids.contains_key(q),
                None => true,
            }
            &&& forall|i: int| 0 < i < pl.len() ==> parent_folder(#[trigger] pl[i]) == Some(pl[i - 1])
        }),
{
    lemma_folders_from(ids, p);
}

/// The id of the folder a document is placed in: its parent path's id, if
/// that was recorded.
pub open spec fn placed_in(ids: Map<Seq<char>, u128>, path: Seq<char>) -> Option<u128> {
    match parent_path(path) {
        Some(pp) => lookup(ids, pp),
        None => None,
    }
}

/// What the import records for a stored document, a later document in that
/// folder finds: it is placed under the recorded id.
pub proof fn lemma_recorded_folder_found(ids: Map<Seq<char>, u128>, folder_path: Seq<char>, id: u128, child: Seq<char>)
    requires
        parent_path(child) == Some(trim_end_pat(folder_path, md_ext())),
    ensures
        placed_in(ids.insert(trim_end_pat(folder_path, md_ext()), id), child) == Some(id),
{
}

/// What happens to one vault document before it is stored.
#[derive(Debug, Clone)]
pub enum DocStep {
    /// It lies at the top of the vault.
    TopLevel,
    /// Its folder was already recorded under this id.
    InFolder(u128),
    /// These folders must be created first, in order.
    CreateFolders(Vec<String>),
}

/// The running state of an import: the ids recorded by path key, how many
/// documents were stored, and the errors met.
#[derive(Debug, Clone)]
pub struct ImportState {
    pub path_to_id: Vec<(String, u128)>,
    pub imported: u32,
    pub errors: Vec<String>,
}

impl ImportState {
    pub open spec fn ids(&self) -> Map<Seq<char>, u128> {
        assoc(self.path_to_id@)
    }

    /// Nothing imported yet.
    pub fn new() -> (res: ImportState)
        ensures
            res.ids() == Map::<Seq<char>, u128>::empty(),
            res.imported == 0,
            res.errors@.len() == 0,
    {
        ImportState { path_to_id: Vec::new(), imported: 0, errors: Vec::new() }
    }

    /// The id recorded under `key`.
    pub fn id_of(&self, key: &str) -> (res: Option<u128>)
        ensures
            res == lookup(self.ids(), key@),
    {
        let k = chars_of(key);
        let s = &self.path_to_id;
        let mut i: usize = s.len();
        while i > 0
            invariant
                i <= s.len(),
                s@ == self.path_to_id@,
                k@ == key@,
                forall|j: int| i <= j < s.len() ==> (#[trigger] s@[j]).0@ != key@,
            decreases i,
        {
            i = i - 1;
            if same(&chars_of(s[i].0.as_str()), &k) {
                proof {
                    lemma_assoc_suffix(s@, i + 1, key@);
                    assert(s@.take(i + 1).drop_last() =~= s@.take(i as int));
                    assert(s@.take(i + 1).last() == s@[i as int]);
                    assert(s@[i as int].0@ == key@);
                    assert(assoc(s@.take(i + 1)) == assoc(s@.take(i as int)).insert(
                        s@[i as int].0@,
                        s@[i as int].1,
                    ));
                }
                return Some(s[i].1);
            }
        }
        proof {
            lemma_assoc_suffix(s@, 0, key@);
            assert(s@.take(0) =~= Seq::<(String, u128)>::empty());
        }
        None
    }

    /// Records `id` under `key`, replacing what was recorded there.
    pub fn record(&mut self, key: String, id: u128)
        ensures
            final(self).ids() == old(self).ids().insert(key@, id),
            final(self).imported == old(self).imported,
            final(self).errors@ == old(self).errors@,
    {
        let ghost before = self.path_to_id@;
        self.path_to_id.push((key, id));
        assert(self.path_to_id@.drop_last() =~= before);
    }

    /// The folders still to create so that `folder` exists, from the top
    /// down (what the recursive folder creation of an import does).
    pub fn folders_to_create(&self, folder: &str) -> (res: Vec<String>)
        ensures
            string_views(res@) == folder_plan(self.ids(), folder@),
    {
        let ghost ids = self.ids();
        let mut cur = String::from_str(folder);
        let mut acc: Vec<String> = Vec::new();
        let mut done = false;
        assert(string_views(acc@) =~= Seq::<Seq<char>>::empty());
        assert(folders_from(ids, cur@, depth(cur@)) + string_views(acc@) =~= folder_plan(ids, folder@));
        while !done
            invariant
                ids == self.ids(),
                done ==> string_views(acc@) == folder_plan(ids, folder@),
                !done ==> folders_from(ids, cur@, depth(cur@)) + string_views(acc@) == folder_plan(
                    ids,
                    folder@,
                ),
            decreases (if done { 0 } else { depth(cur@) + 1 }),
        {
            proof {
                lemma_folder_parent(cur@);
            }
            if self.id_of(cur.as_str()).is_some() {
                assert(folders_from(ids, cur@, depth(cur@)) =~= Seq::<Seq<char>>::empty());
                assert(Seq::<Seq<char>>::empty() + string_views(acc@) =~= string_views(acc@));
                done = true;
            } else {
                let ghost tail = string_views(acc@);
                let ghost c = cur@;
                match parent_folder_of(cur.as_str()) {
                    Some(q) => {
                        assert(parent_folder(c) == Some(q@));
                        acc.insert(0, cur);
                        assert(string_views(acc@) =~= seq![c] + tail);
                        assert(folders_from(ids, c, depth(c)) == folders_from(ids, q@, depth(q@)).push(c));
                        assert(folders_from(ids, q@, depth(q@)).push(c) + tail =~= folders_from(
                            ids,
                            q@,
                            depth(q@),
                        ) + (seq![c] + tail));
                        cur = q;
                    },
                    None => {
                        assert(parent_folder(c) is None);
                        acc.insert(0, cur.clone());
                        assert(string_views(acc@) =~= seq![c] + tail);
                        assert(folders_from(ids, c, depth(c)) == seq![c]);
                        done = true;
                    },
                }
            }
        }
        acc
    }

    /// The folder id a newly created folder is placed under: its parent's
    /// recorded id, or none at the top.
    pub fn folder_parent_id(&self, folder: &str) -> (res: Option<u128>)
        ensures
            res == match parent_folder(folder@) {
                Some(q) => lookup(self.ids(), q),
                None => None,
            },
    {
        match parent_folder_of(folder) {
            Some(q) => self.id_of(q.as_str()),
            None => None,
        }
    }

    /// What a document at `doc_path` needs before it is stored: nothing at
    /// the top, its folder's recorded id, or the folders still to create.
    pub fn document_step(&self, doc_path: &str) -> (res: DocStep)
        ensures
            match parent_path(doc_path@) {
                None => res is TopLevel,
                Some(pp) => if self.ids().contains_key(pp) {
                    res matches DocStep::InFolder(id) && id == self.ids()[pp]
                } else {
                    res matches DocStep::CreateFolders(v) && string_views(v@) == folder_plan(
                        self.ids(),
                        pp,
                    )
                },
            },
    {
        match parent_path_of(doc_path) {
            None => DocStep::TopLevel,
            Some(pp) => match self.id_of(pp.as_str()) {
                Some(id) => DocStep::InFolder(id),
                None => DocStep::CreateFolders(self.folders_to_create(pp.as_str())),
            },
        }
    }

    /// A folder for the document at `doc_path` could not be created: the
    /// document is skipped and the error recorded.
    pub fn folder_failed(&mut self, doc_path: &str, error: &str)
        ensures
            final(self).ids() == old(self).ids(),
            final(self).imported == old(self).imported,
            string_views(final(self).errors@) == string_views(old(self).errors@).push(
                "Failed to create folder for "@ + doc_path@ + ": "@ + error@,
            ),
    {
        let ghost before = self.errors@;
        self.errors.push(folder_failure(doc_path, error));
        assert(string_views(self.errors@) =~= string_views(before).push(
            "Failed to create folder for "@ + doc_path@ + ": "@ + error@,
        ));
    }

    /// The outcome of storing the document at `doc_path`: its id is recorded
    /// under the path without `.md` endings and it is counted, or the error
    /// is recorded.
    pub fn document_stored(&mut self, doc_path: &str, outcome: Result<u128, String>)
        requires
            old(self).imported < u32::MAX,
        ensures
            match outcome {
                Ok(id) => {
                    &&& final(self).ids() == old(self).ids().insert(trim_end_pat(doc_path@, md_ext()), id)
                    &&& final(self).imported == old(self).imported + 1
                    &&& final(self).errors@ == old(self).errors@
                },
                Err(e) => {
                    &&& final(self).ids() == old(self).ids()
                    &&& final(self).imported == old(self).imported
                    &&& string_views(final(self).errors@) == string_views(old(self).errors@).push(
                        doc_path@ + ": "@ + e@,
                    )
                },
            },
    {
        match outcome {
            Ok(id) => {
                self.record(crate::kb::vault::path_key(doc_path), id);
                self.imported = self.imported + 1;
            },
            Err(e) => {
                let ghost before = self.errors@;
                self.errors.push(import_failure(doc_path, e.as_str()));
                assert(string_views(self.errors@) =~= string_views(before).push(
                    doc_path@ + ": "@ + e@,
                ));
            },
        }
    }
}

} // verus!
