//! The content-addressed manifest of a rendered site: one entry per artifact,
//! keyed by its site-relative path and holding the digest of its bytes.

use crate::text::same_text;
use vstd::prelude::*;

verus! {

/// An entry of a manifest as the contracts see it: a path and the digest
/// recorded for it.
pub type Entry = (Seq<char>, Seq<char>);

/// Whether some entry of `e` is keyed by `path`.
pub open spec fn has_path(e: Seq<Entry>, path: Seq<char>) -> bool {
    exists|i: int| 0 <= i < e.len() && (#[trigger] e[i]).0 == path
}

/// The position of an entry keyed by `path`, where there is one.
pub open spec fn index_of_path(e: Seq<Entry>, path: Seq<char>) -> int {
    choose|i: int| 0 <= i < e.len() && (#[trigger] e[i]).0 == path
}

/// No two entries of `e` share a path.
pub open spec fn distinct_paths(e: Seq<Entry>) -> bool {
    forall|i: int, j: int| 0 <= i < j < e.len() ==> (#[trigger] e[i]).0 != (#[trigger] e[j]).0
}

/// The mapping from path to digest that the entries `e` stand for.
pub open spec fn entries_map(e: Seq<Entry>) -> Map<Seq<char>, Seq<char>> {
    Map::new(|p: Seq<char>| has_path(e, p), |p: Seq<char>| e[index_of_path(e, p)].1)
}

/// The entries after recording `hash` for `path`: an entry already keyed by
/// `path` keeps its place and takes the new digest, a new path goes to the end.
pub open spec fn insert_entry(e: Seq<Entry>, path: Seq<char>, hash: Seq<char>) -> Seq<Entry> {
    if has_path(e, path) {
        e.update(index_of_path(e, path), (path, hash))
    } else {
        e.push((path, hash))
    }
}

/// With distinct paths, the entry keyed by `e[i].0` is `e[i]` itself.
pub proof fn lemma_index_of_path(e: Seq<Entry>, i: int)
    requires
        distinct_paths(e),
        0 <= i < e.len(),
    ensures
        has_path(e, e[i].0),
        index_of_path(e, e[i].0) == i,
        entries_map(e).dom().contains(e[i].0),
        entries_map(e)[e[i].0] == e[i].1,
{
    let j = index_of_path(e, e[i].0);
    assert(0 <= j < e.len() && e[j].0 == e[i].0);
    if j < i {
        assert(e[j].0 != e[i].0);
    } else if i < j {
        assert(e[i].0 != e[j].0);
    }
}

/// Recording a digest keeps the paths distinct and changes the mapping at
/// that one path only.
pub proof fn lemma_insert_entry(e: Seq<Entry>, path: Seq<char>, hash: Seq<char>)
    requires
        distinct_paths(e),
    ensures
        distinct_paths(insert_entry(e, path, hash)),
        entries_map(insert_entry(e, path, hash)) == entries_map(e).insert(path, hash),
        has_path(e, path) ==> insert_entry(e, path, hash).len() == e.len(),
        !has_path(e, path) ==> insert_entry(e, path, hash).len() == e.len() + 1,
{
    let r = insert_entry(e, path, hash);
    let m = entries_map(e).insert(path, hash);
    if has_path(e, path) {
        let k = index_of_path(e, path);
        assert(0 <= k < e.len() && e[k].0 == path);
        assert forall|i: int, j: int| 0 <= i < j < r.len() implies (#[trigger] r[i]).0 != (
        #[trigger] r[j]).0 by {
            assert(r[i].0 == e[i].0);
            assert(r[j].0 == e[j].0);
        }
        assert forall|p: Seq<char>| has_path(r, p) == has_path(e, p) by {
            if has_path(e, p) {
                let i = index_of_path(e, p);
                assert(r[i].0 == p);
            }
            if has_path(r, p) {
                let i = index_of_path(r, p);
                assert(e[i].0 == p);
            }
        }
        assert forall|p: Seq<char>| has_path(r, p) implies #[trigger] entries_map(r)[p] == m[p] by {
            let i = index_of_path(r, p);
            assert(0 <= i < r.len() && r[i].0 == p);
            lemma_index_of_path(r, i);
            if p != path {
                assert(e[i].0 == p);
                lemma_index_of_path(e, i);
            } else {
                lemma_index_of_path(r, k);
            }
        }
        assert(entries_map(r).dom() =~= m.dom());
        assert(entries_map(r) =~= m);
    } else {
        assert forall|i: int, j: int| 0 <= i < j < r.len() implies (#[trigger] r[i]).0 != (
        #[trigger] r[j]).0 by {
            if j == e.len() {
                assert(e[i].0 != path);
            }
        }
        assert forall|p: Seq<char>| has_path(r, p) == (has_path(e, p) || p == path) by {
            if has_path(e, p) {
                let i = index_of_path(e, p);
                assert(r[i].0 == p);
            }
            if p == path {
                assert(r[e.len() as int].0 == p);
            }
            if has_path(r, p) {
                let i = index_of_path(r, p);
                if i < e.len() {
                    assert(e[i].0 == p);
                }
            }
        }
        assert forall|p: Seq<char>| has_path(r, p) implies #[trigger] entries_map(r)[p] == m[p] by {
            let i = index_of_path(r, p);
            assert(0 <= i < r.len() && r[i].0 == p);
            lemma_index_of_path(r, i);
            if i < e.len() {
                assert(e[i].0 == p);
                lemma_index_of_path(e, i);
            }
        }
        assert(entries_map(r).dom() =~= m.dom());
        assert(entries_map(r) =~= m);
    }
}

/// A content-addressed manifest: the digest recorded for each site-relative
/// path, in the order in which the paths were first recorded.
#[derive(Debug)]
pub struct FileHashes {
    pub files: Vec<(String, String)>,
}

impl View for FileHashes {
    type V = Map<Seq<char>, Seq<char>>;

    /// The mapping from path to digest.
    open spec fn view(&self) -> Map<Seq<char>, Seq<char>> {
        entries_map(self.entries())
    }
}

impl FileHashes {
    /// The entries in recording order, as plain sequences of characters.
    pub open spec fn entries(&self) -> Seq<Entry> {
        self.files@.map_values(|f: (String, String)| (f.0@, f.1@))
    }

    /// The manifest's invariant: keys are unique, one entry per artifact.
    pub open spec fn wf(&self) -> bool {
        distinct_paths(self.entries())
    }

    /// A manifest without entries.
    pub fn new() -> (r: FileHashes)
        ensures
            r.wf(),
            r.entries() == Seq::<Entry>::empty(),
            r@ == Map::<Seq<char>, Seq<char>>::empty(),
    {
        let r = FileHashes { files: Vec::new() };
        proof {
            assert(r.entries() =~= Seq::<Entry>::empty());
            assert(r@ =~= Map::<Seq<char>, Seq<char>>::empty());
        }
        r
    }

    /// A manifest that holds the same entries in the same order.
    pub fn duplicate(&self) -> (r: FileHashes)
        ensures
            r.entries() == self.entries(),
    {
        let mut files: Vec<(String, String)> = Vec::new();
        let mut i: usize = 0;
        while i < self.files.len()
            invariant
                i <= self.files.len(),
                files@.len() == i,
                forall|k: int|
                    0 <= k < i ==> (#[trigger] files@[k]).0@ == self.files@[k].0@ && files@[k].1@
                        == self.files@[k].1@,
            decreases self.files.len() - i,
        {
            files.push((self.files[i].0.clone(), self.files[i].1.clone()));
            i += 1;
        }
        let r = FileHashes { files };
        assert(r.entries() =~= self.entries());
        r
    }

    /// The number of entries.
    pub fn len(&self) -> (n: usize)
        ensures
            n == self.entries().len(),
    {
        self.files.len()
    }

    /// The position of the entry keyed by `path`, if there is one.
    pub fn position(&self, path: &str) -> (r: Option<usize>)
        requires
            self.wf(),
        ensures
            r is Some <==> has_path(self.entries(), path@),
            r is Some ==> r->0 == index_of_path(self.entries(), path@),
    {
        let mut i: usize = 0;
        while i < self.files.len()
            invariant
                i <= self.files.len(),
                self.wf(),
                forall|k: int| 0 <= k < i ==> (#[trigger] self.entries()[k]).0 != path@,
            decreases self.files.len() - i,
        {
            if same_text(self.files[i].0.as_str(), path) {
                proof {
                    assert(self.entries()[i as int].0 == path@);
                    lemma_index_of_path(self.entries(), i as int);
                }
                return Some(i);
            }
            assert(self.entries()[i as int].0 != path@);
            i += 1;
        }
        None
    }

    /// The digest recorded for `path`, if there is one.
    pub fn get(&self, path: &str) -> (r: Option<&String>)
        requires
            self.wf(),
        ensures
            r is Some <==> self@.dom().contains(path@),
            r is Some ==> r->0@ == self@[path@],
    {
        match self.position(path) {
            Some(i) => {
                proof {
                    assert(self.entries()[i as int].1 == self.files@[i as int].1@);
                }
                Some(&self.files[i].1)
            },
            None => None,
        }
    }

    /// Records `hash` for `path`, replacing the digest of an entry that is
    /// already keyed by `path`.
    pub fn insert(&mut self, path: String, hash: String)
        requires
            old(self).wf(),
        ensures
            final(self).wf(),
            final(self).entries() == insert_entry(old(self).entries(), path@, hash@),
            final(self)@ == old(self)@.insert(path@, hash@),
    {
        proof {
            lemma_insert_entry(self.entries(), path@, hash@);
        }
        let ghost before = self.entries();
        match self.position(path.as_str()) {
            Some(i) => {
                self.files.set(i, (path, hash));
                assert(self.entries() =~= before.update(i as int, (path@, hash@)));
            },
            None => {
                self.files.push((path, hash));
                assert(self.entries() =~= before.push((path@, hash@)));
            },
        }
    }
}

/// The digest that `sha1_smol` computes of `data`, as it prints it.
pub uninterp spec fn sha1_hex(data: Seq<u8>) -> Seq<char>;

/// Calls `sha1_smol::Sha1::from`, `Sha1::digest` and the digest's `to_string`:
/// the SHA-1 digest of `data` in the crate's text form. The contract only
/// names that text; nothing is claimed of its shape.
#[verifier::external_body]
fn sha1_hex_digest(data: &[u8]) -> (r: String)
    ensures
        r@ == sha1_hex(data@),
{
    sha1_smol::Sha1::from(data).digest().to_string()
}

/// The digest of `data` under which the hosting provider addresses it.
pub fn content_hash(data: &[u8]) -> (r: String)
    ensures
        r@ == sha1_hex(data@),
{
    sha1_hex_digest(data)
}

/// A rendered file as it was read from the output directory.
#[derive(Debug)]
pub struct Artifact {
    /// The file's name inside its directory.
    pub name: String,
    /// The file's bytes.
    pub content: Vec<u8>,
}

/// A rendered file as the contracts see it: its name and its bytes.
pub type ArtifactModel = (Seq<char>, Seq<u8>);

/// The rendered files `posts` as the contracts see them.
pub open spec fn artifacts_view(posts: Seq<Artifact>) -> Seq<ArtifactModel> {
    posts.map_values(|a: Artifact| (a.name@, a.content@))
}

/// The manifest path of the site's root document.
pub open spec fn index_path() -> Seq<char> {
    "/index.html"@
}

/// The manifest path of the rendered post named `name`.
pub open spec fn post_path(name: Seq<char>) -> Seq<char> {
    "/posts/"@ + name
}

/// The entries of the manifest of a site whose root document holds `index`
/// and whose posts directory holds `posts`: the root document first, then each
/// post in turn, a later file replacing the digest of an earlier one of the
/// same name.
pub open spec fn manifest_entries(index: Seq<u8>, posts: Seq<ArtifactModel>) -> Seq<Entry>
    decreases posts.len(),
{
    if posts.len() == 0 {
        seq![(index_path(), sha1_hex(index))]
    } else {
        insert_entry(
            manifest_entries(index, posts.drop_last()),
            post_path(posts.last().0),
            sha1_hex(posts.last().1),
        )
    }
}

/// No post path is the root document's path, and post paths differ as the
/// names do.
pub proof fn lemma_paths(a: Seq<char>, b: Seq<char>)
    ensures
        post_path(a) != index_path(),
        post_path(a) == post_path(b) <==> a == b,
{
    reveal_strlit("/index.html");
    reveal_strlit("/posts/");
    assert(post_path(a)[1] == 'p');
    assert(index_path()[1] == 'i');
    if post_path(a) == post_path(b) {
        assert(a.len() == b.len()) by {
            assert(post_path(a).len() == 7 + a.len());
            assert(post_path(b).len() == 7 + b.len());
        }
        assert forall|i: int| 0 <= i < a.len() implies a[i] == b[i] by {
            assert(post_path(a)[i + 7] == a[i]);
            assert(post_path(b)[i + 7] == b[i]);
        }
        assert(a =~= b);
    }
}

/// The manifest of a site has distinct paths, holds the root document, and
/// holds nothing but the root document and the posts.
pub proof fn lemma_manifest_entries(index: Seq<u8>, posts: Seq<ArtifactModel>)
    ensures
        distinct_paths(manifest_entries(index, posts)),
        entries_map(manifest_entries(index, posts)).dom().contains(index_path()),
        entries_map(manifest_entries(index, posts))[index_path()] == sha1_hex(index),
        forall|i: int|
            0 <= i < posts.len() ==> entries_map(manifest_entries(index, posts)).dom().contains(
                post_path(#[trigger] posts[i].0),
            ),
        forall|p: Seq<char>|
            entries_map(manifest_entries(index, posts)).dom().contains(p) ==> p == index_path()
                || exists|i: int| 0 <= i < posts.len() && p == post_path(#[trigger] posts[i].0),
        manifest_entries(index, posts).len() <= posts.len() + 1,
    decreases posts.len(),
{
    let e = manifest_entries(index, posts);
    if posts.len() == 0 {
        assert(e[0].0 == index_path());
        lemma_index_of_path(e, 0);
        assert forall|p: Seq<char>| entries_map(e).dom().contains(p) implies p == index_path() by {
            let i = index_of_path(e, p);
            assert(0 <= i < e.len() && e[i].0 == p);
        }
    } else {
        let rest = posts.drop_last();
        let prev = manifest_entries(index, rest);
        let path = post_path(posts.last().0);
        let hash = sha1_hex(posts.last().1);
        lemma_manifest_entries(index, rest);
        lemma_insert_entry(prev, path, hash);
        lemma_paths(posts.last().0, posts.last().0);
        assert(entries_map(e) == entries_map(prev).insert(path, hash));
        assert forall|i: int| 0 <= i < posts.len() implies entries_map(e).dom().contains(
            post_path(#[trigger] posts[i].0),
        ) by {
            if i < rest.len() {
                assert(rest[i] == posts[i]);
            }
        }
        assert forall|p: Seq<char>| entries_map(e).dom().contains(p) implies p == index_path()
            || exists|i: int| 0 <= i < posts.len() && p == post_path(#[trigger] posts[i].0) by {
            if p == path {
                assert(p == post_path(posts[posts.len() - 1].0));
            } else if p != index_path() {
                let i = choose|i: int| 0 <= i < rest.len() && p == post_path(#[trigger] rest[i].0);
                assert(rest[i] == posts[i]);
            }
        }
    }
}

/// Where the posts carry distinct names, each post's path maps to the digest
/// of that post's bytes.
pub proof fn lemma_manifest_post(index: Seq<u8>, posts: Seq<ArtifactModel>, k: int)
    requires
        0 <= k < posts.len(),
        forall|i: int, j: int|
            0 <= i < j < posts.len() ==> (#[trigger] posts[i]).0 != (#[trigger] posts[j]).0,
    ensures
        entries_map(manifest_entries(index, posts)).dom().contains(post_path(posts[k].0)),
        entries_map(manifest_entries(index, posts))[post_path(posts[k].0)] == sha1_hex(
            posts[k].1,
        ),
    decreases posts.len(),
{
    let rest = posts.drop_last();
    let prev = manifest_entries(index, rest);
    let path = post_path(posts.last().0);
    let hash = sha1_hex(posts.last().1);
    lemma_manifest_entries(index, rest);
    lemma_insert_entry(prev, path, hash);
    if k < rest.len() {
        assert(rest[k] == posts[k]);
        assert forall|i: int, j: int| 0 <= i < j < rest.len() implies (#[trigger] rest[i]).0 != (
        #[trigger] rest[j]).0 by {
            assert(rest[i] == posts[i]);
            assert(rest[j] == posts[j]);
        }
        lemma_manifest_post(index, rest, k);
        assert(posts[k].0 != posts[posts.len() - 1].0);
        lemma_paths(posts[k].0, posts.last().0);
    }
}

/// Hashing the same contents twice gives the same manifest: two manifests
/// built from one root document and one list of posts hold the same entries
/// in the same order.
pub proof fn lemma_manifest_is_deterministic(
    first: FileHashes,
    second: FileHashes,
    index: Seq<u8>,
    posts: Seq<ArtifactModel>,
)
    requires
        first.entries() == manifest_entries(index, posts),
        second.entries() == manifest_entries(index, posts),
    ensures
        first.entries() == second.entries(),
        first@ == second@,
{
}

/// Changing the bytes of one post changes no entry but that post's: the two
/// manifests have the same paths and agree on every path other than the
/// changed post's.
pub proof fn lemma_manifest_change_is_local(
    index: Seq<u8>,
    before: Seq<ArtifactModel>,
    after: Seq<ArtifactModel>,
    k: int,
)
    requires
        before.len() == after.len(),
        0 <= k < before.len(),
        forall|i: int| 0 <= i < before.len() ==> (#[trigger] before[i]).0 == after[i].0,
        forall|i: int| 0 <= i < before.len() && i != k ==> #[trigger] before[i] == after[i],
    ensures
        entries_map(manifest_entries(index, before)).dom() == entries_map(
            manifest_entries(index, after),
        ).dom(),
        forall|p: Seq<char>|
            p != post_path(before[k].0) && entries_map(manifest_entries(index, before)).dom().contains(
                p,
            ) ==> #[trigger] entries_map(manifest_entries(index, before))[p] == entries_map(
                manifest_entries(index, after),
            )[p],
    decreases before.len(),
{
    let n = before.len() - 1;
    let b_rest = before.drop_last();
    let a_rest = after.drop_last();
    let b_prev = manifest_entries(index, b_rest);
    let a_prev = manifest_entries(index, a_rest);
    lemma_manifest_entries(index, b_rest);
    lemma_manifest_entries(index, a_rest);
    let path = post_path(before.last().0);
    assert(before[n].0 == after[n].0);
    lemma_insert_entry(b_prev, path, sha1_hex(before.last().1));
    lemma_insert_entry(a_prev, path, sha1_hex(after.last().1));
    let mb = entries_map(manifest_entries(index, before));
    let ma = entries_map(manifest_entries(index, after));
    if k == n {
        assert(b_rest =~= a_rest);
        assert(mb.dom() =~= ma.dom());
    } else {
        assert forall|i: int| 0 <= i < b_rest.len() implies (#[trigger] b_rest[i]).0
            == a_rest[i].0 by {
            assert(b_rest[i] == before[i]);
            assert(a_rest[i] == after[i]);
        }
        assert forall|i: int| 0 <= i < b_rest.len() && i != k implies #[trigger] b_rest[i]
            == a_rest[i] by {
            assert(b_rest[i] == before[i]);
            assert(a_rest[i] == after[i]);
        }
        assert(b_rest[k] == before[k]);
        lemma_manifest_change_is_local(index, b_rest, a_rest, k);
        assert(before[n] == after[n]);
        assert(mb.dom() =~= ma.dom());
    }
}

/// Where the posts carry distinct names, the entry of a changed post is the
/// digest of its new bytes: it differs from the entry before the change
/// exactly where the digests of the old and the new bytes differ.
pub proof fn lemma_manifest_changed_entry(
    index: Seq<u8>,
    before: Seq<ArtifactModel>,
    after: Seq<ArtifactModel>,
    k: int,
)
    requires
        before.len() == after.len(),
        0 <= k < before.len(),
        forall|i: int| 0 <= i < before.len() ==> (#[trigger] before[i]).0 == after[i].0,
        forall|i: int, j: int|
            0 <= i < j < before.len() ==> (#[trigger] before[i]).0 != (#[trigger] before[j]).0,
    ensures
        entries_map(manifest_entries(index, before))[post_path(before[k].0)] == sha1_hex(
            before[k].1,
        ),
        entries_map(manifest_entries(index, after))[post_path(before[k].0)] == sha1_hex(
            after[k].1,
        ),
        entries_map(manifest_entries(index, before))[post_path(before[k].0)] != entries_map(
            manifest_entries(index, after),
        )[post_path(before[k].0)] <==> sha1_hex(before[k].1) != sha1_hex(after[k].1),
{
    lemma_manifest_post(index, before, k);
    assert forall|i: int, j: int| 0 <= i < j < after.len() implies (#[trigger] after[i]).0 != (
    #[trigger] after[j]).0 by {
        assert(before[i].0 == after[i].0);
        assert(before[j].0 == after[j].0);
        assert(before[i].0 != before[j].0);
    }
    lemma_manifest_post(index, after, k);
    assert(before[k].0 == after[k].0);
}

/// Changing the bytes of the root document changes no entry but the root
/// document's.
pub proof fn lemma_manifest_index_change_is_local(
    before: Seq<u8>,
    after: Seq<u8>,
    posts: Seq<ArtifactModel>,
)
    ensures
        entries_map(manifest_entries(before, posts)).dom() == entries_map(
            manifest_entries(after, posts),
        ).dom(),
        forall|p: Seq<char>|
            p != index_path() && entries_map(manifest_entries(before, posts)).dom().contains(p)
                ==> #[trigger] entries_map(manifest_entries(before, posts))[p] == entries_map(
                manifest_entries(after, posts),
            )[p],
    decreases posts.len(),
{
    let mb = entries_map(manifest_entries(before, posts));
    let ma = entries_map(manifest_entries(after, posts));
    lemma_manifest_entries(before, posts);
    lemma_manifest_entries(after, posts);
    if posts.len() == 0 {
        assert forall|p: Seq<char>| mb.dom().contains(p) == ma.dom().contains(p) by {
            lemma_manifest_entries(before, posts);
            lemma_manifest_entries(after, posts);
        }
        assert(mb.dom() =~= ma.dom());
    } else {
        let rest = posts.drop_last();
        lemma_manifest_entries(before, rest);
        lemma_manifest_entries(after, rest);
        lemma_manifest_index_change_is_local(before, after, rest);
        let path = post_path(posts.last().0);
        let hash = sha1_hex(posts.last().1);
        lemma_insert_entry(manifest_entries(before, rest), path, hash);
        lemma_insert_entry(manifest_entries(after, rest), path, hash);
        assert(mb.dom() =~= ma.dom());
    }
}

/// The path under which the rendered post named `name` is recorded.
pub fn post_manifest_path(name: &str) -> (r: String)
    ensures
        r@ == post_path(name@),
{
    let mut path = String::from_str("/posts/");
    path.append(name);
    path
}

/// The manifest of a rendered site, from the bytes of its root document and
/// the files of its posts directory.
pub fn build_manifest(index: &[u8], posts: &Vec<Artifact>) -> (r: FileHashes)
    ensures
        r.wf(),
        r.entries() == manifest_entries(index@, artifacts_view(posts@)),
{
    let ghost model = artifacts_view(posts@);
    let mut manifest = FileHashes::new();
    manifest.insert(String::from_str("/index.html"), content_hash(index));
    proof {
        assert(model.take(0) =~= Seq::<ArtifactModel>::empty());
        assert(manifest.entries() =~= manifest_entries(index@, model.take(0)));
    }
    let mut i: usize = 0;
    while i < posts.len()
        invariant
            i <= posts.len(),
            model == artifacts_view(posts@),
            manifest.wf(),
            manifest.entries() == manifest_entries(index@, model.take(i as int)),
        decreases posts.len() - i,
    {
        let path = post_manifest_path(posts[i].name.as_str());
        let hash = content_hash(posts[i].content.as_slice());
        manifest.insert(path, hash);
        proof {
            let next = model.take(i + 1);
            assert(next.drop_last() =~= model.take(i as int));
            assert(next.last() == model[i as int]);
        }
        i += 1;
    }
    proof {
        assert(model.take(posts.len() as int) =~= model);
    }
    manifest
}

} // verus!
