//! The walks up and down a tile tree. Each walk is a state that says which
//! lookup to make next and takes the answer of that lookup; the store makes
//! the lookups against its database.

use vstd::prelude::*;

use crate::tile::StorableTile;

verus! {

/// A walk up the parent chain from a tile. It asks for the tile with
/// `next_id`; a tile found with a parent joins `found` and its parent is
/// asked for next; the walk ends at a missing tile or at one without a
/// parent, which is not kept.
pub struct AncestorWalk {
    pub found: Vec<StorableTile>,
    pub next_id: Option<String>,
}

/// The state that a walk up moves to when the lookup of its next tile
/// answers `fetched`.
pub open spec fn ancestor_step(found: Seq<StorableTile>, fetched: Option<StorableTile>) -> (Seq<StorableTile>, Option<String>) {
    match fetched {
        None => (found, None),
        Some(t) => match t.parent_id {
            Some(p) => (found.push(t), Some(p)),
            None => (found, None),
        },
    }
}

/// Every tile a walk up has kept has a parent, and while the walk goes on
/// it asks for the parent of the last tile it kept.
pub open spec fn ancestors_linked(found: Seq<StorableTile>, next_id: Option<String>) -> bool {
    &&& forall|i: int| 0 <= i < found.len() ==> (#[trigger] found[i]).parent_id is Some
    &&& (next_id is Some && found.len() > 0) ==> next_id == found.last().parent_id
}

impl AncestorWalk {
    /// A walk up from the tile `tile_id`.
    pub fn start(tile_id: &str) -> (res: AncestorWalk)
        ensures
            res.found@ == Seq::<StorableTile>::empty(),
            res.next_id is Some,
            res.next_id->0@ == tile_id@,
    {
        AncestorWalk { found: Vec::new(), next_id: Some(String::from_str(tile_id)) }
    }

    /// Takes the answer of the lookup of the tile `next_id`.
    pub fn step(&mut self, fetched: Option<StorableTile>)
        ensures
            (final(self).found@, final(self).next_id) == ancestor_step(old(self).found@, fetched),
    {
        match fetched {
            None => {
                self.next_id = None;
            },
            Some(tile) => {
                match &tile.parent_id {
                    Some(pid) => {
                        self.next_id = Some(pid.clone());
                        self.found.push(tile);
                    },
                    None => {
                        self.next_id = None;
                    },
                }
            },
        }
    }
}

/// Each step of a walk up keeps its kept tiles linked: a walk that starts
/// with nothing kept stays linked whatever the lookups answer.
pub proof fn law_ancestor_step_linked(
    found: Seq<StorableTile>,
    next_id: Option<String>,
    fetched: Option<StorableTile>,
)
    requires
        ancestors_linked(found, next_id),
    ensures
        ancestors_linked(ancestor_step(found, fetched).0, ancestor_step(found, fetched).1),
        ancestors_linked(Seq::<StorableTile>::empty(), next_id),
{
    let (f2, n2) = ancestor_step(found, fetched);
    assert forall|i: int| 0 <= i < f2.len() implies (#[trigger] f2[i]).parent_id is Some by {
        if i < found.len() {
            assert(f2[i] == found[i]);
        }
    }
}

/// The tiles a walk up from the tile `id` keeps within `n` lookups, where
/// `db` answers the lookup of each id: the tile itself, its parent, and so
/// on, up to (and not including) the first tile that is missing or has no
/// parent.
pub open spec fn ancestor_chain(db: spec_fn(Seq<char>) -> Option<StorableTile>, id: Seq<char>, n: nat) -> Seq<StorableTile>
    decreases n,
{
    if n == 0 {
        Seq::empty()
    } else {
        match db(id) {
            None => Seq::empty(),
            Some(t) => match t.parent_id {
                None => Seq::empty(),
                Some(p) => seq![t] + ancestor_chain(db, p@, (n - 1) as nat),
            },
        }
    }
}

/// Within `n` lookups, the chain up from `id` reaches a tile that is
/// missing or has no parent.
pub open spec fn ancestor_chain_ends(db: spec_fn(Seq<char>) -> Option<StorableTile>, id: Seq<char>, n: nat) -> bool
    decreases n,
{
    if n == 0 {
        false
    } else {
        match db(id) {
            None => true,
            Some(t) => match t.parent_id {
                None => true,
                Some(p) => ancestor_chain_ends(db, p@, (n - 1) as nat),
            },
        }
    }
}

/// The state of a walk up after `n` more lookups answered by `db`, each
/// taken by `AncestorWalk::step`.
pub open spec fn ancestor_walk_after(
    db: spec_fn(Seq<char>) -> Option<StorableTile>,
    found: Seq<StorableTile>,
    next_id: Option<String>,
    n: nat,
) -> (Seq<StorableTile>, Option<String>)
    decreases n,
{
    if n == 0 {
        (found, next_id)
    } else {
        match next_id {
            None => (found, None),
            Some(id) => {
                let s = ancestor_step(found, db(id@));
                ancestor_walk_after(db, s.0, s.1, (n - 1) as nat)
            },
        }
    }
}

/// `db` answers the lookup of an id with the tile of that id, if any.
pub open spec fn answers_by_id(db: spec_fn(Seq<char>) -> Option<StorableTile>) -> bool {
    forall|id: Seq<char>| #[trigger] db(id) matches Some(t) ==> t.id@ == id
}

proof fn lemma_ancestor_walk_after(
    db: spec_fn(Seq<char>) -> Option<StorableTile>,
    found: Seq<StorableTile>,
    id: String,
    n: nat,
)
    ensures
        ancestor_walk_after(db, found, Some(id), n).0 == found + ancestor_chain(db, id@, n),
        ancestor_walk_after(db, found, Some(id), n).1 is None <==> ancestor_chain_ends(db, id@, n),
    decreases n,
{
    if n == 0 {
        assert(found + ancestor_chain(db, id@, n) =~= found);
    } else {
        match db(id@) {
            None => {
                assert(found + ancestor_chain(db, id@, n) =~= found);
                assert(ancestor_walk_after(db, found, None, (n - 1) as nat) == (found, None::<String>)) by {
                    if n - 1 > 0 {
                    }
                }
            },
            Some(t) => match t.parent_id {
                None => {
                    assert(found + ancestor_chain(db, id@, n) =~= found);
                    assert(ancestor_walk_after(db, found, None, (n - 1) as nat) == (found, None::<String>)) by {
                        if n - 1 > 0 {
                        }
                    }
                },
                Some(p) => {
                    lemma_ancestor_walk_after(db, found.push(t), p, (n - 1) as nat);
                    assert(found.push(t) + ancestor_chain(db, p@, (n - 1) as nat) =~= found + (seq![t]
                        + ancestor_chain(db, p@, (n - 1) as nat)));
                },
            },
        }
    }
}

proof fn lemma_ancestor_chain_linked(db: spec_fn(Seq<char>) -> Option<StorableTile>, id: Seq<char>, n: nat)
    requires
        answers_by_id(db),
    ensures
        ({
            let c = ancestor_chain(db, id, n);
            &&& c.len() > 0 ==> c[0].id@ == id
            &&& forall|i: int| 0 <= i < c.len() ==> (#[trigger] c[i]).parent_id is Some
            &&& forall|i: int| 0 <= i < c.len() - 1 ==> #[trigger] c[i + 1].id@ == c[i].parent_id->0@
        }),
        ancestor_chain_ends(db, id, n) ==> forall|m: nat| m >= n ==> #[trigger] ancestor_chain(db, id, m)
            == ancestor_chain(db, id, n),
    decreases n,
{
    if n > 0 {
        match db(id) {
            None => {
                assert forall|m: nat| m >= n implies #[trigger] ancestor_chain(db, id, m) == ancestor_chain(db, id, n) by {
                }
            },
            Some(t) => match t.parent_id {
                None => {
                    assert forall|m: nat| m >= n implies #[trigger] ancestor_chain(db, id, m) == ancestor_chain(db, id, n) by {
                    }
                },
                Some(p) => {
                    lemma_ancestor_chain_linked(db, p@, (n - 1) as nat);
                    let rest = ancestor_chain(db, p@, (n - 1) as nat);
                    let c = ancestor_chain(db, id, n);
                    assert(c == seq![t] + rest);
                    assert forall|i: int| 0 <= i < c.len() implies (#[trigger] c[i]).parent_id is Some by {
                        if i > 0 {
                            assert(c[i] == rest[i - 1]);
                        }
                    }
                    assert forall|i: int| 0 <= i < c.len() - 1 implies #[trigger] c[i + 1].id@
                        == c[i].parent_id->0@ by {
                        if i == 0 {
                            assert(c[0] == t);
                            assert(rest.len() > 0);
                            assert(c[1] == rest[0]);
                        } else {
                            assert(c[i + 1] == rest[i]);
                            assert(c[i] == rest[i - 1]);
                            let j = i - 1;
                            assert(rest[j + 1].id@ == rest[j].parent_id->0@);
                        }
                    }
                    if ancestor_chain_ends(db, id, n) {
                        assert forall|m: nat| m >= n implies #[trigger] ancestor_chain(db, id, m)
                            == ancestor_chain(db, id, n) by {
                            assert(ancestor_chain(db, p@, (m - 1) as nat) == rest);
                        }
                    }
                },
            },
        }
    }
}

/// A walk up from `tile_id` whose lookups `db` answers with the tile of
/// each id keeps exactly the chain of tiles above it: after `n` lookups it
/// has kept `ancestor_chain(db, tile_id, n)`, which starts with the tile
/// `tile_id` itself, in which each tile's parent is the next tile, and
/// which leaves out the first tile that is missing or has no parent; the
/// walk has ended exactly when that tile is reached, and then no further
/// lookup would add to it. An unknown or parentless `tile_id` keeps nothing.
pub proof fn law_ancestor_walk(db: spec_fn(Seq<char>) -> Option<StorableTile>, tile_id: String, n: nat)
    requires
        answers_by_id(db),
    ensures
        ({
            let (found, next_id) = ancestor_walk_after(db, Seq::empty(), Some(tile_id), n);
            &&& found == ancestor_chain(db, tile_id@, n)
            &&& next_id is None <==> ancestor_chain_ends(db, tile_id@, n)
            &&& found.len() > 0 ==> found[0].id@ == tile_id@
            &&& forall|i: int| 0 <= i < found.len() ==> (#[trigger] found[i]).parent_id is Some
            &&& forall|i: int| 0 <= i < found.len() - 1 ==> #[trigger] found[i + 1].id@
                == found[i].parent_id->0@
        }),
        ancestor_chain_ends(db, tile_id@, n) ==> forall|m: nat| m >= n ==> #[trigger] ancestor_chain(
            db,
            tile_id@,
            m,
        ) == ancestor_chain(db, tile_id@, n),
        n > 0 && (db(tile_id@) is None || db(tile_id@)->0.parent_id is None) ==> ancestor_walk_after(
            db,
            Seq::empty(),
            Some(tile_id),
            n,
        ).0 == Seq::<StorableTile>::empty(),
{
    lemma_ancestor_walk_after(db, Seq::empty(), tile_id, n);
    lemma_ancestor_chain_linked(db, tile_id@, n);
    assert(Seq::<StorableTile>::empty() + ancestor_chain(db, tile_id@, n) =~= ancestor_chain(db, tile_id@, n));
}

/// A walk down the tree below a tile. `stack` holds the tiles whose
/// children are still to be asked for, the last first; the children of each
/// join `found` in the order the lookup gives them, and their ids join the
/// stack.
pub struct DescendantWalk {
    pub root: String,
    pub stack: Vec<String>,
    pub found: Vec<StorableTile>,
}

/// The ids of a list of tiles.
pub open spec fn tile_ids(tiles: Seq<StorableTile>) -> Seq<String> {
    tiles.map_values(|t: StorableTile| t.id)
}

/// Every id waiting on a walk down is the root's or that of a tile the walk
/// has found.
pub open spec fn descendants_covered(root: String, stack: Seq<String>, found: Seq<StorableTile>) -> bool {
    forall|i: int|
        0 <= i < stack.len() ==> #[trigger] stack[i] == root || tile_ids(found).contains(stack[i])
}

impl DescendantWalk {
    /// A walk down from the tile `tile_id`.
    pub fn start(tile_id: &str) -> (res: DescendantWalk)
        ensures
            res.root@ == tile_id@,
            res.stack@ == seq![res.root],
            res.found@ == Seq::<StorableTile>::empty(),
    {
        let root = String::from_str(tile_id);
        let first = root.clone();
        let mut stack: Vec<String> = Vec::new();
        stack.push(first);
        DescendantWalk { root, stack, found: Vec::new() }
    }

    /// The tile whose children to ask for next, taken off the stack; `None`
    /// when the walk is over.
    pub fn next_parent(&mut self) -> (res: Option<String>)
        ensures
            final(self).root == old(self).root,
            final(self).found == old(self).found,
            old(self).stack@.len() == 0 ==> res is None && final(self).stack@ == old(self).stack@,
            old(self).stack@.len() > 0 ==> res == Some(old(self).stack@.last())
                && final(self).stack@ == old(self).stack@.drop_last(),
    {
        self.stack.pop()
    }

    /// Takes the children found for the tile last taken off the stack.
    pub fn record_children(&mut self, children: Vec<StorableTile>)
        ensures
            final(self).root == old(self).root,
            final(self).found@ == old(self).found@ + children@,
            final(self).stack@ == old(self).stack@ + tile_ids(children@),
    {
        let n = children.len();
        let ghost stack0 = self.stack@;
        let ghost found0 = self.found@;
        let ghost root0 = self.root;
        let mut i: usize = 0;
        while i < n
            invariant
                n == children@.len(),
                self.found@ == found0,
                self.root == root0,
                i <= n,
                self.stack@ == stack0 + tile_ids(children@).take(i as int),
            decreases n - i,
        {
            let id = children[i].id.clone();
            self.stack.push(id);
            proof {
                assert(tile_ids(children@).take((i + 1) as int) =~= tile_ids(children@).take(
                    i as int,
                ).push(children@[i as int].id));
            }
            i = i + 1;
        }
        assert(tile_ids(children@).take(n as int) =~= tile_ids(children@));
        let mut rest = children;
        self.found.append(&mut rest);
    }
}

/// Taking a tile off the stack and recording the children found for it
/// keeps every waiting id the root's or a found tile's.
pub proof fn law_descendants_covered(
    root: String,
    stack: Seq<String>,
    found: Seq<StorableTile>,
    children: Seq<StorableTile>,
)
    requires
        descendants_covered(root, stack, found),
    ensures
        stack.len() > 0 ==> descendants_covered(root, stack.drop_last(), found),
        descendants_covered(root, stack + tile_ids(children), found + children),
        descendants_covered(root, seq![root], Seq::<StorableTile>::empty()),
{
    let s2 = stack + tile_ids(children);
    let f2 = found + children;
    assert forall|i: int| 0 <= i < stack.len() - 1 implies #[trigger] stack.drop_last()[i] == root
        || tile_ids(found).contains(stack.drop_last()[i]) by {
        assert(stack.drop_last()[i] == stack[i]);
    }
    assert forall|i: int| 0 <= i < s2.len() implies #[trigger] s2[i] == root || tile_ids(
        f2,
    ).contains(s2[i]) by {
        if i < stack.len() {
            assert(s2[i] == stack[i]);
            if s2[i] != root {
                let j = choose|j: int| 0 <= j < tile_ids(found).len() && tile_ids(found)[j] == stack[i];
                assert(tile_ids(f2)[j] == f2[j].id);
                assert(f2[j] == found[j]);
            }
        } else {
            let j = i - stack.len();
            assert(s2[i] == tile_ids(children)[j]);
            assert(tile_ids(f2)[found.len() + j] == f2[found.len() + j].id);
            assert(f2[found.len() + j] == children[j]);
        }
    }
}

/// The state of a walk down after it takes the id on top of `stack` and
/// records the children that `kids` answers for it: what
/// `DescendantWalk::next_parent` followed by `record_children` does.
pub open spec fn descendant_step(
    kids: spec_fn(Seq<char>) -> Seq<StorableTile>,
    stack: Seq<String>,
    found: Seq<StorableTile>,
) -> (Seq<String>, Seq<StorableTile>) {
    if stack.len() == 0 {
        (stack, found)
    } else {
        let pid = stack.last();
        (stack.drop_last() + tile_ids(kids(pid@)), found + kids(pid@))
    }
}

/// The state of a walk down after `n` more steps whose children lookups
/// `kids` answers.
pub open spec fn descendant_walk_after(
    kids: spec_fn(Seq<char>) -> Seq<StorableTile>,
    stack: Seq<String>,
    found: Seq<StorableTile>,
    n: nat,
) -> (Seq<String>, Seq<StorableTile>)
    decreases n,
{
    if n == 0 || stack.len() == 0 {
        (stack, found)
    } else {
        let s = descendant_step(kids, stack, found);
        descendant_walk_after(kids, s.0, s.1, (n - 1) as nat)
    }
}

/// `path` goes down from `root`: its first tile is a child of `root` and
/// each next tile a child of the one before, by the answers of `kids`.
pub open spec fn is_descent(kids: spec_fn(Seq<char>) -> Seq<StorableTile>, root: Seq<char>, path: Seq<StorableTile>) -> bool {
    &&& path.len() > 0
    &&& kids(root).contains(path[0])
    &&& forall|i: int| 0 <= i < path.len() - 1 ==> kids((#[trigger] path[i]).id@).contains(path[i + 1])
}

/// `t` lies below `root`: some path down from `root` ends at it.
pub open spec fn is_descendant(kids: spec_fn(Seq<char>) -> Seq<StorableTile>, root: Seq<char>, t: StorableTile) -> bool {
    exists|path: Seq<StorableTile>| #[trigger] is_descent(kids, root, path) && path.last() == t
}

/// `x` is the root's id or that of a found tile.
pub open spec fn is_reached(root: Seq<char>, found: Seq<StorableTile>, x: Seq<char>) -> bool {
    x == root || exists|j: int| 0 <= j < found.len() && (#[trigger] found[j]).id@ == x
}

/// `x` waits on the stack.
pub open spec fn is_waiting(stack: Seq<String>, x: Seq<char>) -> bool {
    exists|i: int| 0 <= i < stack.len() && (#[trigger] stack[i])@ == x
}

/// What a walk down keeps true: it has found only tiles below the root;
/// every waiting id is reached; and the children of every reached id that
/// no longer waits have all been found.
pub open spec fn descendant_walk_inv(
    kids: spec_fn(Seq<char>) -> Seq<StorableTile>,
    root: Seq<char>,
    stack: Seq<String>,
    found: Seq<StorableTile>,
) -> bool {
    &&& forall|j: int| 0 <= j < found.len() ==> is_descendant(kids, root, #[trigger] found[j])
    &&& forall|i: int| 0 <= i < stack.len() ==> is_reached(root, found, (#[trigger] stack[i])@)
    &&& forall|x: Seq<char>, t: StorableTile|
        #![trigger is_reached(root, found, x), kids(x).contains(t)]
        is_reached(root, found, x) && !is_waiting(stack, x) && kids(x).contains(t) ==> found.contains(t)
}

proof fn lemma_child_is_descendant(
    kids: spec_fn(Seq<char>) -> Seq<StorableTile>,
    root: Seq<char>,
    found: Seq<StorableTile>,
    x: Seq<char>,
    t: StorableTile,
)
    requires
        forall|j: int| 0 <= j < found.len() ==> is_descendant(kids, root, #[trigger] found[j]),
        is_reached(root, found, x),
        kids(x).contains(t),
    ensures
        is_descendant(kids, root, t),
{
    if x == root {
        let path = seq![t];
        assert(is_descent(kids, root, path));
    } else {
        let j = choose|j: int| 0 <= j < found.len() && (#[trigger] found[j]).id@ == x;
        assert(is_descendant(kids, root, found[j]));
        let p = choose|p: Seq<StorableTile>| #[trigger] is_descent(kids, root, p) && p.last() == found[j];
        let path = p.push(t);
        assert forall|i: int| 0 <= i < path.len() - 1 implies kids((#[trigger] path[i]).id@).contains(
            path[i + 1],
        ) by {
            if i < p.len() - 1 {
                assert(path[i] == p[i] && path[i + 1] == p[i + 1]);
            } else {
                assert(path[i] == found[j]);
            }
        }
        assert(is_descent(kids, root, path));
        assert(path.last() == t);
    }
}

proof fn lemma_descendant_step_inv(
    kids: spec_fn(Seq<char>) -> Seq<StorableTile>,
    root: Seq<char>,
    stack: Seq<String>,
    found: Seq<StorableTile>,
)
    requires
        descendant_walk_inv(kids, root, stack, found),
        stack.len() > 0,
    ensures
        descendant_walk_inv(kids, root, descendant_step(kids, stack, found).0, descendant_step(kids, stack, found).1),
{
    let pid = stack.last();
    let ch = kids(pid@);
    let s2 = stack.drop_last() + tile_ids(ch);
    let f2 = found + ch;
    assert(is_reached(root, found, stack[stack.len() - 1]@));
    assert forall|j: int| 0 <= j < f2.len() implies is_descendant(kids, root, #[trigger] f2[j]) by {
        if j < found.len() {
            assert(f2[j] == found[j]);
        } else {
            assert(f2[j] == ch[j - found.len()]);
            assert(ch.contains(f2[j]));
            lemma_child_is_descendant(kids, root, found, pid@, f2[j]);
        }
    }
    assert forall|x: Seq<char>| is_reached(root, found, x) implies is_reached(root, f2, x) by {
        if x != root {
            let j = choose|j: int| 0 <= j < found.len() && (#[trigger] found[j]).id@ == x;
            assert(f2[j] == found[j]);
        }
    }
    assert forall|i: int| 0 <= i < s2.len() implies is_reached(root, f2, (#[trigger] s2[i])@) by {
        if i < stack.len() - 1 {
            assert(s2[i] == stack[i]);
            assert(is_reached(root, found, stack[i]@));
        } else {
            let k = i - (stack.len() - 1);
            assert(s2[i] == ch[k].id);
            assert(f2[found.len() + k] == ch[k]);
        }
    }
    assert forall|x: Seq<char>, t: StorableTile|
        #![trigger is_reached(root, f2, x), kids(x).contains(t)]
        is_reached(root, f2, x) && !is_waiting(s2, x) && kids(x).contains(t) implies f2.contains(t) by {
        if x == pid@ {
            let k = choose|k: int| 0 <= k < ch.len() && ch[k] == t;
            assert(f2[found.len() + k] == t);
        } else {
            if x != root && !(exists|j: int| 0 <= j < found.len() && (#[trigger] found[j]).id@ == x) {
                let j = choose|j: int| 0 <= j < f2.len() && (#[trigger] f2[j]).id@ == x;
                let k = j - found.len();
                assert(f2[j] == ch[k]);
                assert(s2[stack.len() - 1 + k] == ch[k].id);
                assert(false);
            }
            assert(is_reached(root, found, x));
            if is_waiting(stack, x) {
                let i = choose|i: int| 0 <= i < stack.len() && (#[trigger] stack[i])@ == x;
                assert(i != stack.len() - 1);
                assert(s2[i] == stack[i]);
                assert(false);
            }
            assert(found.contains(t));
            let j = choose|j: int| 0 <= j < found.len() && found[j] == t;
            assert(f2[j] == t);
        }
    }
}

proof fn lemma_descendant_walk_after_inv(
    kids: spec_fn(Seq<char>) -> Seq<StorableTile>,
    root: Seq<char>,
    stack: Seq<String>,
    found: Seq<StorableTile>,
    n: nat,
)
    requires
        descendant_walk_inv(kids, root, stack, found),
    ensures
        descendant_walk_inv(
            kids,
            root,
            descendant_walk_after(kids, stack, found, n).0,
            descendant_walk_after(kids, stack, found, n).1,
        ),
    decreases n,
{
    if n > 0 && stack.len() > 0 {
        lemma_descendant_step_inv(kids, root, stack, found);
        let s = descendant_step(kids, stack, found);
        lemma_descendant_walk_after_inv(kids, root, s.0, s.1, (n - 1) as nat);
    }
}

proof fn lemma_finished_walk_complete(
    kids: spec_fn(Seq<char>) -> Seq<StorableTile>,
    root: Seq<char>,
    found: Seq<StorableTile>,
    path: Seq<StorableTile>,
    i: int,
)
    requires
        descendant_walk_inv(kids, root, Seq::<String>::empty(), found),
        is_descent(kids, root, path),
        0 <= i < path.len(),
    ensures
        found.contains(path[i]),
    decreases i,
{
    let empty = Seq::<String>::empty();
    assert(!is_waiting(empty, root));
    if i == 0 {
        assert(is_reached(root, found, root));
        assert(kids(root).contains(path[0]));
    } else {
        lemma_finished_walk_complete(kids, root, found, path, i - 1);
        let x = path[i - 1].id@;
        let j = choose|j: int| 0 <= j < found.len() && found[j] == path[i - 1];
        assert(found[j].id@ == x);
        assert(is_reached(root, found, x));
        assert(!is_waiting(empty, x));
        assert(kids(path[i - 1].id@).contains(path[(i - 1) + 1]));
    }
}

/// A walk down from `root` whose children lookups `kids` answers finds
/// only tiles below the root (each reached by a path of children from it),
/// and once its stack is empty it has found every tile below the root:
/// the tiles it found are exactly the descendants of `root`.
pub proof fn law_descendant_walk(kids: spec_fn(Seq<char>) -> Seq<StorableTile>, root: String, n: nat)
    ensures
        ({
            let (stack, found) = descendant_walk_after(kids, seq![root], Seq::empty(), n);
            &&& forall|t: StorableTile| #[trigger] found.contains(t) ==> is_descendant(kids, root@, t)
            &&& stack.len() == 0 ==> forall|t: StorableTile|
                is_descendant(kids, root@, t) <==> #[trigger] found.contains(t)
        }),
{
    let s0 = seq![root];
    let f0 = Seq::<StorableTile>::empty();
    assert forall|i: int| 0 <= i < s0.len() implies is_reached(root@, f0, (#[trigger] s0[i])@) by {
    }
    assert forall|x: Seq<char>, t: StorableTile|
        #![trigger is_reached(root@, f0, x), kids(x).contains(t)]
        is_reached(root@, f0, x) && !is_waiting(s0, x) && kids(x).contains(t) implies f0.contains(t) by {
        assert(s0[0]@ == root@);
    }
    assert(descendant_walk_inv(kids, root@, s0, f0));
    lemma_descendant_walk_after_inv(kids, root@, s0, f0, n);
    let (stack, found) = descendant_walk_after(kids, s0, f0, n);
    assert forall|t: StorableTile| #[trigger] found.contains(t) implies is_descendant(kids, root@, t) by {
        let j = choose|j: int| 0 <= j < found.len() && found[j] == t;
        assert(is_descendant(kids, root@, found[j]));
    }
    if stack.len() == 0 {
        assert(stack =~= Seq::<String>::empty());
        assert forall|t: StorableTile| is_descendant(kids, root@, t) implies #[trigger] found.contains(t) by {
            let p = choose|p: Seq<StorableTile>| #[trigger] is_descent(kids, root@, p) && p.last() == t;
            lemma_finished_walk_complete(kids, root@, found, p, p.len() - 1);
        }
    }
}

/// The children lookups answer from a table of tiles keyed by id: each
/// answer lists, once each, tiles whose parent is the id asked about, and
/// two answered tiles with the same id are the same tile.
pub open spec fn answers_children(kids: spec_fn(Seq<char>) -> Seq<StorableTile>) -> bool {
    &&& forall|p: Seq<char>, t: StorableTile| #[trigger] kids(p).contains(t) ==> t.parent_id is Some && t.parent_id->0@ == p
    &&& forall|p: Seq<char>| (#[trigger] kids(p)).no_duplicates()
    &&& forall|p: Seq<char>, q: Seq<char>, t: StorableTile, u: StorableTile|
        #![trigger kids(p).contains(t), kids(q).contains(u)]
        kids(p).contains(t) && kids(q).contains(u) && t.id@ == u.id@ ==> t == u
}

/// No tile below `root` has `root`'s id, so following parents from below
/// never comes back round to it.
pub open spec fn no_cycle_through(kids: spec_fn(Seq<char>) -> Seq<StorableTile>, root: Seq<char>) -> bool {
    forall|t: StorableTile| #[trigger] is_descendant(kids, root, t) ==> t.id@ != root
}

/// What a walk down keeps true of what it has found when lookups answer
/// from a table: nothing found twice, no id waiting twice, the children of
/// a waiting id not found yet, and each found tile the child of a reached
/// id that no longer waits.
pub open spec fn descendant_walk_once(
    kids: spec_fn(Seq<char>) -> Seq<StorableTile>,
    root: Seq<char>,
    stack: Seq<String>,
    found: Seq<StorableTile>,
) -> bool {
    &&& found.no_duplicates()
    &&& forall|i: int, j: int|
        0 <= i < stack.len() && 0 <= j < stack.len() && i != j ==> (#[trigger] stack[i])@ != (#[trigger] stack[j])@
    &&& forall|y: Seq<char>, t: StorableTile|
        #![trigger is_waiting(stack, y), kids(y).contains(t)]
        is_waiting(stack, y) && kids(y).contains(t) ==> !found.contains(t)
    &&& forall|j: int| 0 <= j < found.len() ==> has_settled_parent(kids, root, stack, found, #[trigger] found[j])
}

/// `t` is a child of a reached id that no longer waits.
pub open spec fn has_settled_parent(
    kids: spec_fn(Seq<char>) -> Seq<StorableTile>,
    root: Seq<char>,
    stack: Seq<String>,
    found: Seq<StorableTile>,
    t: StorableTile,
) -> bool {
    exists|x: Seq<char>| is_reached(root, found, x) && !is_waiting(stack, x) && #[trigger] kids(x).contains(t)
}

/// The facts about the children of the top id that a step of the walk
/// down relies on: each is new, and its id is not reached yet (so it is
/// neither the root's, a found tile's, nor the top id).
pub open spec fn children_are_new(
    kids: spec_fn(Seq<char>) -> Seq<StorableTile>,
    root: Seq<char>,
    pid: Seq<char>,
    found: Seq<StorableTile>,
) -> bool {
    forall|c: StorableTile| #[trigger] kids(pid).contains(c) ==> !found.contains(c) && !is_reached(root, found, c.id@)
}

proof fn lemma_children_are_new(
    kids: spec_fn(Seq<char>) -> Seq<StorableTile>,
    root: Seq<char>,
    stack: Seq<String>,
    found: Seq<StorableTile>,
)
    requires
        answers_children(kids),
        no_cycle_through(kids, root),
        descendant_walk_inv(kids, root, stack, found),
        descendant_walk_once(kids, root, stack, found),
        stack.len() > 0,
    ensures
        children_are_new(kids, root, stack.last()@, found),
{
    let top = stack.len() - 1;
    let pid = stack.last();
    assert(stack[top] == pid);
    assert(is_waiting(stack, pid@));
    assert(is_reached(root, found, stack[top]@));
    assert forall|c: StorableTile| #[trigger] kids(pid@).contains(c) implies !found.contains(c) && !is_reached(
        root,
        found,
        c.id@,
    ) by {
        lemma_child_is_descendant(kids, root, found, pid@, c);
        if is_reached(root, found, c.id@) && c.id@ != root {
            let j = choose|j: int| 0 <= j < found.len() && (#[trigger] found[j]).id@ == c.id@;
            let x = choose|x: Seq<char>|
                is_reached(root, found, x) && !is_waiting(stack, x) && #[trigger] kids(x).contains(found[j]);
            assert(kids(x).contains(found[j]) && kids(pid@).contains(c));
            assert(found.contains(found[j]));
        }
    }
}

proof fn lemma_step_no_duplicates(
    kids: spec_fn(Seq<char>) -> Seq<StorableTile>,
    root: Seq<char>,
    pid: Seq<char>,
    found: Seq<StorableTile>,
)
    requires
        answers_children(kids),
        found.no_duplicates(),
        children_are_new(kids, root, pid, found),
    ensures
        (found + kids(pid)).no_duplicates(),
{
    let ch = kids(pid);
    let f2 = found + ch;
    assert(ch.no_duplicates());
    assert forall|a: int, b: int| 0 <= a < f2.len() && 0 <= b < f2.len() && a != b implies f2[a] != f2[b] by {
        if a < found.len() && b < found.len() {
            assert(f2[a] == found[a] && f2[b] == found[b]);
        } else if a >= found.len() && b >= found.len() {
            assert(f2[a] == ch[a - found.len()] && f2[b] == ch[b - found.len()]);
        } else if a < found.len() {
            assert(f2[a] == found[a]);
            assert(f2[b] == ch[b - found.len()]);
            assert(ch.contains(ch[b - found.len()]));
            assert(found.contains(found[a]));
        } else {
            assert(f2[b] == found[b]);
            assert(f2[a] == ch[a - found.len()]);
            assert(ch.contains(ch[a - found.len()]));
            assert(found.contains(found[b]));
        }
    }
}

proof fn lemma_step_stack_distinct(
    kids: spec_fn(Seq<char>) -> Seq<StorableTile>,
    root: Seq<char>,
    stack: Seq<String>,
    found: Seq<StorableTile>,
)
    requires
        answers_children(kids),
        stack.len() > 0,
        forall|i: int| 0 <= i < stack.len() ==> is_reached(root, found, (#[trigger] stack[i])@),
        forall|i: int, j: int|
            0 <= i < stack.len() && 0 <= j < stack.len() && i != j ==> (#[trigger] stack[i])@ != (#[trigger] stack[j])@,
        children_are_new(kids, root, stack.last()@, found),
    ensures
        ({
            let s2 = stack.drop_last() + tile_ids(kids(stack.last()@));
            forall|i: int, j: int|
                0 <= i < s2.len() && 0 <= j < s2.len() && i != j ==> (#[trigger] s2[i])@ != (#[trigger] s2[j])@
        }),
{
    let top = stack.len() - 1;
    let pid = stack.last();
    let ch = kids(pid@);
    let s2 = stack.drop_last() + tile_ids(ch);
    assert(ch.no_duplicates());
    assert forall|i: int, j: int| 0 <= i < s2.len() && 0 <= j < s2.len() && i != j implies (#[trigger] s2[i])@
        != (#[trigger] s2[j])@ by {
        if i < top && j < top {
            assert(s2[i] == stack[i] && s2[j] == stack[j]);
        } else if i >= top && j >= top {
            let ci = ch[i - top];
            let cj = ch[j - top];
            assert(s2[i] == ci.id && s2[j] == cj.id);
            assert(ch.contains(ci) && ch.contains(cj));
        } else {
            let (a, b) = if i < top { (i, j) } else { (j, i) };
            let c = ch[b - top];
            assert(s2[a] == stack[a] && s2[b] == c.id);
            assert(ch.contains(c));
            assert(is_reached(root, found, stack[a]@));
        }
    }
}

proof fn lemma_step_waiting(stack: Seq<String>, ch: Seq<StorableTile>, y: Seq<char>)
    requires
        stack.len() > 0,
        forall|i: int, j: int|
            0 <= i < stack.len() && 0 <= j < stack.len() && i != j ==> (#[trigger] stack[i])@ != (#[trigger] stack[j])@,
        is_waiting(stack.drop_last() + tile_ids(ch), y),
    ensures
        (is_waiting(stack, y) && y != stack.last()@) || exists|k: int| 0 <= k < ch.len() && (#[trigger] ch[k]).id@ == y,
{
    let top = stack.len() - 1;
    let s2 = stack.drop_last() + tile_ids(ch);
    let i = choose|i: int| 0 <= i < s2.len() && (#[trigger] s2[i])@ == y;
    if i < top {
        assert(s2[i] == stack[i]);
        assert(stack[i]@ != stack[top]@);
    } else {
        assert(s2[i] == ch[i - top].id);
    }
}

proof fn lemma_step_waiting_kids_new(
    kids: spec_fn(Seq<char>) -> Seq<StorableTile>,
    root: Seq<char>,
    stack: Seq<String>,
    found: Seq<StorableTile>,
)
    requires
        answers_children(kids),
        stack.len() > 0,
        descendant_walk_inv(kids, root, stack, found),
        descendant_walk_once(kids, root, stack, found),
        children_are_new(kids, root, stack.last()@, found),
    ensures
        ({
            let s2 = stack.drop_last() + tile_ids(kids(stack.last()@));
            let f2 = found + kids(stack.last()@);
            forall|y: Seq<char>, t: StorableTile|
                #![trigger is_waiting(s2, y), kids(y).contains(t)]
                is_waiting(s2, y) && kids(y).contains(t) ==> !f2.contains(t)
        }),
{
    let pid = stack.last();
    let ch = kids(pid@);
    let s2 = stack.drop_last() + tile_ids(ch);
    let f2 = found + ch;
    assert forall|y: Seq<char>, t: StorableTile|
        #![trigger is_waiting(s2, y), kids(y).contains(t)]
        is_waiting(s2, y) && kids(y).contains(t) implies !f2.contains(t) by {
        lemma_step_waiting(stack, ch, y);
        if f2.contains(t) {
            let j = choose|j: int| 0 <= j < f2.len() && f2[j] == t;
            if is_waiting(stack, y) && y != pid@ {
                if j < found.len() {
                    assert(found[j] == t);
                    assert(found.contains(t));
                } else {
                    assert(f2[j] == ch[j - found.len()]);
                    assert(ch.contains(t));
                }
            } else {
                let k = choose|k: int| 0 <= k < ch.len() && (#[trigger] ch[k]).id@ == y;
                let c = ch[k];
                assert(ch.contains(c));
                if j < found.len() {
                    assert(found[j] == t);
                    let x = choose|x: Seq<char>|
                        is_reached(root, found, x) && !is_waiting(stack, x) && #[trigger] kids(x).contains(found[j]);
                    assert(kids(x).contains(t));
                    assert(x == y);
                } else {
                    assert(f2[j] == ch[j - found.len()]);
                    assert(ch.contains(t));
                    assert(y == pid@);
                    assert(is_reached(root, found, stack[stack.len() - 1]@));
                }
            }
        }
    }
}

proof fn lemma_reached_grows(root: Seq<char>, found: Seq<StorableTile>, more: Seq<StorableTile>, x: Seq<char>)
    requires
        is_reached(root, found, x),
    ensures
        is_reached(root, found + more, x),
{
    if x != root {
        let j = choose|j: int| 0 <= j < found.len() && (#[trigger] found[j]).id@ == x;
        assert((found + more)[j] == found[j]);
    }
}

proof fn lemma_step_found_parent(
    kids: spec_fn(Seq<char>) -> Seq<StorableTile>,
    root: Seq<char>,
    stack: Seq<String>,
    found: Seq<StorableTile>,
    j: int,
)
    requires
        answers_children(kids),
        stack.len() > 0,
        descendant_walk_inv(kids, root, stack, found),
        descendant_walk_once(kids, root, stack, found),
        children_are_new(kids, root, stack.last()@, found),
        0 <= j < found.len() + kids(stack.last()@).len(),
    ensures
        ({
            let s2 = stack.drop_last() + tile_ids(kids(stack.last()@));
            let f2 = found + kids(stack.last()@);
            has_settled_parent(kids, root, s2, f2, f2[j])
        }),
{
    let top = stack.len() - 1;
    let pid = stack.last();
    let ch = kids(pid@);
    let s2 = stack.drop_last() + tile_ids(ch);
    let f2 = found + ch;
    assert(stack[top] == pid);
    assert(is_reached(root, found, stack[top]@));
    if j < found.len() {
        assert(f2[j] == found[j]);
        let x = choose|x: Seq<char>|
            is_reached(root, found, x) && !is_waiting(stack, x) && #[trigger] kids(x).contains(found[j]);
        if is_waiting(s2, x) {
            lemma_step_waiting(stack, ch, x);
            if !(is_waiting(stack, x) && x != pid@) {
                let k = choose|k: int| 0 <= k < ch.len() && (#[trigger] ch[k]).id@ == x;
                assert(ch.contains(ch[k]));
            }
        }
        lemma_reached_grows(root, found, ch, x);
        assert(is_reached(root, f2, x) && !is_waiting(s2, x) && kids(x).contains(f2[j]));
    } else {
        assert(f2[j] == ch[j - found.len()]);
        assert(kids(pid@).contains(f2[j]));
        if is_waiting(s2, pid@) {
            lemma_step_waiting(stack, ch, pid@);
            let k = choose|k: int| 0 <= k < ch.len() && (#[trigger] ch[k]).id@ == pid@;
            assert(ch.contains(ch[k]));
        }
        lemma_reached_grows(root, found, ch, pid@);
        assert(is_reached(root, f2, pid@) && !is_waiting(s2, pid@) && kids(pid@).contains(f2[j]));
    }
}

proof fn lemma_descendant_step_once(
    kids: spec_fn(Seq<char>) -> Seq<StorableTile>,
    root: Seq<char>,
    stack: Seq<String>,
    found: Seq<StorableTile>,
)
    requires
        answers_children(kids),
        no_cycle_through(kids, root),
        descendant_walk_inv(kids, root, stack, found),
        descendant_walk_once(kids, root, stack, found),
        stack.len() > 0,
    ensures
        descendant_walk_once(kids, root, descendant_step(kids, stack, found).0, descendant_step(kids, stack, found).1),
{
    lemma_children_are_new(kids, root, stack, found);
    lemma_step_no_duplicates(kids, root, stack.last()@, found);
    lemma_step_stack_distinct(kids, root, stack, found);
    lemma_step_waiting_kids_new(kids, root, stack, found);
    let pid = stack.last();
    let s2 = stack.drop_last() + tile_ids(kids(pid@));
    let f2 = found + kids(pid@);
    assert forall|j: int| 0 <= j < f2.len() implies has_settled_parent(kids, root, s2, f2, #[trigger] f2[j]) by {
        lemma_step_found_parent(kids, root, stack, found, j);
    }
    assert(descendant_step(kids, stack, found) == (s2, f2));
}

proof fn lemma_descendant_walk_after_once(
    kids: spec_fn(Seq<char>) -> Seq<StorableTile>,
    root: Seq<char>,
    stack: Seq<String>,
    found: Seq<StorableTile>,
    n: nat,
)
    requires
        answers_children(kids),
        no_cycle_through(kids, root),
        descendant_walk_inv(kids, root, stack, found),
        descendant_walk_once(kids, root, stack, found),
    ensures
        descendant_walk_once(
            kids,
            root,
            descendant_walk_after(kids, stack, found, n).0,
            descendant_walk_after(kids, stack, found, n).1,
        ),
    decreases n,
{
    if n > 0 && stack.len() > 0 {
        lemma_descendant_step_inv(kids, root, stack, found);
        lemma_descendant_step_once(kids, root, stack, found);
        let s = descendant_step(kids, stack, found);
        lemma_descendant_walk_after_once(kids, root, s.0, s.1, (n - 1) as nat);
    }
}

/// When the children lookups answer from a table of tiles keyed by id and
/// no tile below `root` has `root`'s id (no cycle through it), a walk down
/// finds each tile at most once, never the root itself, and no two found
/// tiles share an id: with `law_descendant_walk`, a finished walk lists
/// each descendant of `root` exactly once.
pub proof fn law_descendant_walk_once(kids: spec_fn(Seq<char>) -> Seq<StorableTile>, root: String, n: nat)
    requires
        answers_children(kids),
        no_cycle_through(kids, root@),
    ensures
        ({
            let found = descendant_walk_after(kids, seq![root], Seq::empty(), n).1;
            &&& found.no_duplicates()
            &&& forall|j: int| 0 <= j < found.len() ==> (#[trigger] found[j]).id@ != root@
            &&& forall|i: int, j: int|
                0 <= i < found.len() && 0 <= j < found.len() && i != j ==> (#[trigger] found[i]).id@
                    != (#[trigger] found[j]).id@
        }),
{
    let s0 = seq![root];
    let f0 = Seq::<StorableTile>::empty();
    assert forall|i: int| 0 <= i < s0.len() implies is_reached(root@, f0, (#[trigger] s0[i])@) by {
    }
    assert forall|x: Seq<char>, t: StorableTile|
        #![trigger is_reached(root@, f0, x), kids(x).contains(t)]
        is_reached(root@, f0, x) && !is_waiting(s0, x) && kids(x).contains(t) implies f0.contains(t) by {
        assert(s0[0]@ == root@);
    }
    assert(descendant_walk_inv(kids, root@, s0, f0));
    assert(descendant_walk_once(kids, root@, s0, f0));
    lemma_descendant_walk_after_inv(kids, root@, s0, f0, n);
    lemma_descendant_walk_after_once(kids, root@, s0, f0, n);
    let (stack, found) = descendant_walk_after(kids, s0, f0, n);
    assert forall|j: int| 0 <= j < found.len() implies (#[trigger] found[j]).id@ != root@ by {
        assert(is_descendant(kids, root@, found[j]));
    }
    assert forall|i: int, j: int| 0 <= i < found.len() && 0 <= j < found.len() && i != j implies (
    #[trigger] found[i]).id@ != (#[trigger] found[j]).id@ by {
        assert(has_settled_parent(kids, root@, stack, found, found[i]));
        assert(has_settled_parent(kids, root@, stack, found, found[j]));
        let x = choose|x: Seq<char>|
            is_reached(root@, found, x) && !is_waiting(stack, x) && #[trigger] kids(x).contains(found[i]);
        let y = choose|y: Seq<char>|
            is_reached(root@, found, y) && !is_waiting(stack, y) && #[trigger] kids(y).contains(found[j]);
        assert(kids(x).contains(found[i]) && kids(y).contains(found[j]));
    }
}

/// One step of a walk up: a fetched tile with a parent is always kept and
/// its parent asked for next, whatever its status or other fields; a
/// missing tile or one without a parent ends the walk and keeps nothing
/// more.
pub proof fn law_ancestor_step_keeps_parented(found: Seq<StorableTile>, t: StorableTile)
    ensures
        t.parent_id is Some ==> ancestor_step(found, Some(t)) == (found.push(t), t.parent_id),
        t.parent_id is None ==> ancestor_step(found, Some(t)) == (found, None::<String>),
        ancestor_step(found, None) == (found, None::<String>),
{
}

} // verus!
