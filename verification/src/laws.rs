//! Laws of the directory jail, proved once for every reachable state.

use vstd::prelude::*;
use crate::fs::FsModel;
use crate::paths::display_spec;
use crate::paths::joined;
use crate::paths::resolve_spec;
use crate::paths::apply_segment_spec;
use crate::paths::resolve_segs;
use crate::paths::is_dotdot;
use crate::text::split_spec;
use crate::text::lemma_first_idx_at;

verus! {

/// Containment: whatever the jail-relative segments are, the displayed
/// working directory always begins with the account root, so no reachable
/// state ever lies above it.
pub proof fn lemma_jail_containment(root: Seq<char>, rel: Seq<Seq<char>>)
    ensures
        display_spec(root, rel).len() >= root.len(),
        display_spec(root, rel).subrange(0, root.len() as int) == root,
{
    if rel.len() > 0 {
        assert((root + seq!['/'] + joined(rel)).subrange(0, root.len() as int) =~= root);
    } else {
        assert(root.subrange(0, root.len() as int) =~= root);
    }
}

/// A `..` argument moves exactly one step up, and at the root it moves
/// nowhere: `currentDirectory` can never rise above `rootPath`.
pub proof fn lemma_dotdot_never_escapes(cur: Seq<Seq<char>>)
    ensures
        resolve_spec(cur, ".."@) == if cur.len() > 0 {
            cur.drop_last()
        } else {
            cur
        },
{
    reveal_strlit("..");
    let s = ".."@;
    assert(s.len() == 2 && s[0] == '.' && s[1] == '.');
    assert(is_dotdot(s));
    assert(forall|j: int| 0 <= j < s.len() ==> s[j] != '/');
    lemma_first_idx_at(s, '/', s.len() as int);
    assert(split_spec(s, '/') == seq![s]);
    assert(seq![s].drop_first() =~= Seq::<Seq<char>>::empty());
    assert(split_spec(s, '/')[0] == s);
    if cur.len() > 0 {
        assert(apply_segment_spec(cur, s) == cur.drop_last());
        assert(resolve_segs(cur.drop_last(), Seq::<Seq<char>>::empty()) == cur.drop_last());
    } else {
        assert(apply_segment_spec(cur, s) == cur);
        assert(resolve_segs(cur, Seq::<Seq<char>>::empty()) == cur);
    }
}

/// Round trip: storing a file and then retrieving it at the same path
/// yields byte-identical content. The store pins the content at the path
/// to the uploaded bytes, and the retrieve returns exactly the content
/// there, so what comes back is what went in.
pub proof fn lemma_stor_retr_roundtrip(
    stored: FsModel,
    p: Seq<Seq<char>>,
    data: Seq<u8>,
    fetched: Seq<u8>,
)
    requires
        stored.content(p) == Some(data),
        stored.content(p) matches Some(c) && fetched == c,
    ensures
        fetched == data,
{
}

} // verus!
