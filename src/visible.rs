use vstd::prelude::*;

use crate::board::Cell;

verus! {

/// The spawned sprites of a board, keyed by grid position. A sprite is
/// named by the integer form of its entity id.
pub struct VisibleBoard {
    entries: Vec<((u32, u32), u64)>,
}

/// Whether no two entries share a position.
pub open spec fn keys_unique(s: Seq<((u32, u32), u64)>) -> bool {
    forall|i: int, j: int| 0 <= i < s.len() && 0 <= j < s.len() && i != j ==> s[i].0 != s[j].0
}

/// The map that a list of entries with unique positions stands for.
pub open spec fn entries_map(s: Seq<((u32, u32), u64)>) -> Map<(u32, u32), u64>
    decreases s.len(),
{
    if s.len() == 0 {
        Map::empty()
    } else {
        entries_map(s.drop_last()).insert(s.last().0, s.last().1)
    }
}

proof fn lemma_entries_map_domain(s: Seq<((u32, u32), u64)>, k: (u32, u32))
    ensures
        entries_map(s).contains_key(k) <==> exists|i: int| 0 <= i < s.len() && s[i].0 == k,
    decreases s.len(),
{
    if s.len() > 0 {
        lemma_entries_map_domain(s.drop_last(), k);
        if entries_map(s).contains_key(k) && s.last().0 != k {
            let i = choose|i: int| 0 <= i < s.len() - 1 && s.drop_last()[i].0 == k;
            assert(s[i].0 == k);
        }
        if exists|i: int| 0 <= i < s.len() && s[i].0 == k {
            let i = choose|i: int| 0 <= i < s.len() && s[i].0 == k;
            if i < s.len() - 1 {
                assert(s.drop_last()[i].0 == k);
            }
        }
    }
}

proof fn lemma_entries_map_at(s: Seq<((u32, u32), u64)>, i: int)
    requires
        keys_unique(s),
        0 <= i < s.len(),
    ensures
        entries_map(s).contains_key(s[i].0),
        entries_map(s)[s[i].0] == s[i].1,
    decreases s.len(),
{
    if i < s.len() - 1 {
        assert(keys_unique(s.drop_last()));
        lemma_entries_map_at(s.drop_last(), i);
        assert(s.drop_last()[i] == s[i]);
    }
}

proof fn lemma_entries_map_update(s: Seq<((u32, u32), u64)>, i: int, v: u64)
    requires
        keys_unique(s),
        0 <= i < s.len(),
    ensures
        keys_unique(s.update(i, (s[i].0, v))),
        entries_map(s.update(i, (s[i].0, v))) == entries_map(s).insert(s[i].0, v),
{
    let t = s.update(i, (s[i].0, v));
    assert(keys_unique(t));
    assert forall|k: (u32, u32)| #[trigger] entries_map(t).contains_key(k) <==> entries_map(s).insert(s[i].0, v).contains_key(k) by {
        lemma_entries_map_domain(t, k);
        lemma_entries_map_domain(s, k);
        if exists|j: int| 0 <= j < s.len() && s[j].0 == k {
            let j = choose|j: int| 0 <= j < s.len() && s[j].0 == k;
            assert(t[j].0 == k);
        }
        if exists|j: int| 0 <= j < t.len() && t[j].0 == k {
            let j = choose|j: int| 0 <= j < t.len() && t[j].0 == k;
            assert(s[j].0 == k);
        }
    }
    assert forall|k: (u32, u32)| #[trigger] entries_map(t).contains_key(k) implies entries_map(t)[k] == entries_map(s).insert(s[i].0, v)[k] by {
        lemma_entries_map_domain(t, k);
        let j = choose|j: int| 0 <= j < t.len() && t[j].0 == k;
        lemma_entries_map_at(t, j);
        if j != i {
            lemma_entries_map_at(s, j);
        }
    }
    assert(entries_map(t) =~= entries_map(s).insert(s[i].0, v));
}

impl VisibleBoard {
    pub closed spec fn view(&self) -> Map<(u32, u32), u64> {
        entries_map(self.entries@)
    }

    pub closed spec fn wf(&self) -> bool {
        keys_unique(self.entries@)
    }

    /// A board with no sprite yet.
    pub fn new() -> (r: Self)
        ensures
            r.wf(),
            r@ == Map::<(u32, u32), u64>::empty(),
    {
        VisibleBoard { entries: Vec::new() }
    }

    /// Number of positions that hold a sprite.
    pub fn len(&self) -> (r: usize)
        requires
            self.wf(),
        ensures
            r == self@.len(),
    {
        proof {
            lemma_len_of(self.entries@);
        }
        self.entries.len()
    }

    /// The sprite at `pos`, if one was recorded there.
    pub fn get(&self, pos: (u32, u32)) -> (r: Option<u64>)
        requires
            self.wf(),
        ensures
            r == (if self@.contains_key(pos) { Some(self@[pos]) } else { None::<u64> }),
    {
        let mut i: usize = 0;
        while i < self.entries.len()
            invariant
                i <= self.entries@.len(),
                keys_unique(self.entries@),
                forall|j: int| 0 <= j < i ==> self.entries@[j].0 != pos,
            decreases self.entries@.len() - i,
        {
            if self.entries[i].0.0 == pos.0 && self.entries[i].0.1 == pos.1 {
                proof {
                    lemma_entries_map_at(self.entries@, i as int);
                }
                return Some(self.entries[i].1);
            }
            i = i + 1;
        }
        proof {
            lemma_entries_map_domain(self.entries@, pos);
        }
        None
    }

    /// Records the sprite at `pos`, replacing any sprite recorded there before.
    pub fn insert(&mut self, pos: (u32, u32), id: u64)
        requires
            old(self).wf(),
        ensures
            final(self).wf(),
            final(self)@ == old(self)@.insert(pos, id),
    {
        let mut i: usize = 0;
        while i < self.entries.len()
            invariant
                i <= self.entries@.len(),
                self.entries@ == old(self).entries@,
                keys_unique(self.entries@),
                forall|j: int| 0 <= j < i ==> self.entries@[j].0 != pos,
            decreases self.entries@.len() - i,
        {
            if self.entries[i].0.0 == pos.0 && self.entries[i].0.1 == pos.1 {
                proof {
                    lemma_entries_map_update(self.entries@, i as int, id);
                }
                self.entries.set(i, (pos, id));
                return;
            }
            i = i + 1;
        }
        let ghost s = self.entries@;
        self.entries.push((pos, id));
        assert(self.entries@.drop_last() == s);
    }
}

proof fn lemma_len_of(s: Seq<((u32, u32), u64)>)
    requires
        keys_unique(s),
    ensures
        entries_map(s).len() == s.len(),
        entries_map(s).dom().finite(),
    decreases s.len(),
{
    if s.len() > 0 {
        let p = s.drop_last();
        assert(keys_unique(p));
        lemma_len_of(p);
        lemma_entries_map_domain(p, s.last().0);
        if entries_map(p).contains_key(s.last().0) {
            let i = choose|i: int| 0 <= i < p.len() && p[i].0 == s.last().0;
            assert(s[i].0 == s[s.len() - 1].0);
        }
    }
}

/// Whether, among the first `n` cells, cell `i` is the last one at its
/// position.
pub open spec fn last_at(cells: Seq<Cell>, n: int, i: int) -> bool {
    forall|j: int| i < j < n ==> !(#[trigger] cells[j].x == cells[i].x && cells[j].y == cells[i].y)
}

/// What a board built from the first `n` cells, cell `i` drawn as sprite
/// `ids[i]`, holds: every position of those cells, each with the sprite of
/// the last cell there.
pub open spec fn recorded(m: Map<(u32, u32), u64>, cells: Seq<Cell>, ids: Seq<u64>, n: int) -> bool {
    &&& forall|i: int| 0 <= i < n ==> #[trigger] m.contains_key((cells[i].x, cells[i].y))
    &&& forall|i: int| 0 <= i < n && last_at(cells, n, i) ==> #[trigger] m[(cells[i].x, cells[i].y)] == ids[i]
    &&& forall|k: (u32, u32)| #[trigger] m.contains_key(k) ==> exists|i: int| 0 <= i < n && (cells[i].x, cells[i].y) == k
}

/// The board of the sprites spawned for `cells`, cell `i` having been drawn
/// as sprite `ids[i]`. Where two cells share a position the later one wins.
pub fn visible_board_of(cells: &Vec<Cell>, ids: &Vec<u64>) -> (r: VisibleBoard)
    requires
        cells@.len() == ids@.len(),
    ensures
        r.wf(),
        recorded(r@, cells@, ids@, cells@.len() as int),
{
    let mut board = VisibleBoard::new();
    let mut i: usize = 0;
    while i < cells.len()
        invariant
            i <= cells@.len(),
            cells@.len() == ids@.len(),
            board.wf(),
            recorded(board@, cells@, ids@, i as int),
        decreases cells@.len() - i,
    {
        let ghost before = board@;
        board.insert((cells[i].x, cells[i].y), ids[i]);
        proof {
            let n = i + 1;
            let c = cells@;
            assert forall|j: int| 0 <= j < n && last_at(c, n, j) implies #[trigger] board@[(c[j].x, c[j].y)] == ids@[j] by {
                if j < i {
                    assert(!(c[i as int].x == c[j].x && c[i as int].y == c[j].y));
                    assert(last_at(c, i as int, j));
                }
            }
            assert forall|k: (u32, u32)| #[trigger] board@.contains_key(k) implies exists|j: int| 0 <= j < n && (c[j].x, c[j].y) == k by {
                if k != (c[i as int].x, c[i as int].y) {
                    assert(before.contains_key(k));
                    let j = choose|j: int| 0 <= j < i && (c[j].x, c[j].y) == k;
                    assert(0 <= j < n);
                } else {
                    assert((c[i as int].x, c[i as int].y) == k);
                }
            }
            assert forall|j: int| 0 <= j < n implies #[trigger] board@.contains_key((c[j].x, c[j].y)) by {
                if j < i {
                    assert(before.contains_key((c[j].x, c[j].y)));
                }
            }
        }
        i = i + 1;
    }
    board
}

} // verus!
