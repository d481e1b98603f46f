//! Tables whose rows are found by a text.
use vstd::prelude::*;
use crate::text;

verus! {

broadcast use vstd::seq::group_seq_axioms;

/// Rows that are found by a text.
pub trait Keyed: Sized {
    /// What the row is found by.
    spec fn keyed_by(&self) -> Seq<char>;

    /// What the row is found by.
    fn key(&self) -> (key: &str)
        ensures
            key@ == self.keyed_by(),
    ;
}

/// A table that holds at most one row under a key.
#[derive(Debug)]
pub struct Table<R> {
    pub rows: Vec<R>,
}

/// Where a row with a key stands.
pub open spec fn at_key<R: Keyed>(rows: Seq<R>, key: Seq<char>, at: int) -> bool {
    0 <= at < rows.len() && rows[at].keyed_by() == key
}

/// Whether some row has a key.
pub open spec fn has_key<R: Keyed>(rows: Seq<R>, key: Seq<char>) -> bool {
    exists|at: int| at_key(rows, key, at)
}

/// Whether no two rows have the same key.
pub open spec fn distinct<R: Keyed>(rows: Seq<R>) -> bool {
    forall|i: int, k: int|
        #![trigger rows[i], rows[k]]
        0 <= i < rows.len() && 0 <= k < rows.len() && rows[i].keyed_by() == rows[k].keyed_by() ==> i == k
}

/// The row under each key.
pub open spec fn mapped<R: Keyed>(rows: Seq<R>) -> Map<Seq<char>, R> {
    Map::new(|key: Seq<char>| has_key(rows, key), |key: Seq<char>| rows[choose|at: int| at_key(rows, key, at)])
}

impl<R: Keyed> View for Table<R> {
    type V = Map<Seq<char>, R>;

    open spec fn view(&self) -> Map<Seq<char>, R> {
        mapped(self.rows@)
    }
}

/// The row at a place is the one under its key.
pub proof fn mapped_at<R: Keyed>(rows: Seq<R>, at: int)
    requires
        distinct(rows),
        0 <= at < rows.len(),
    ensures
        mapped(rows).contains_key(rows[at].keyed_by()),
        mapped(rows)[rows[at].keyed_by()] == rows[at],
{
    let key = rows[at].keyed_by();
    assert(at_key(rows, key, at));
    let other = choose|other: int| at_key(rows, key, other);
    assert(at_key(rows, key, other));
    assert(rows[other].keyed_by() == rows[at].keyed_by());
}

impl<R: Keyed> Table<R> {
    /// Whether no two rows have the same key.
    pub open spec fn well_formed(self) -> bool {
        distinct(self.rows@)
    }

    /// A table without rows.
    pub fn new() -> (table: Self)
        ensures
            table.well_formed(),
            table@ == Map::<Seq<char>, R>::empty(),
            table.rows@.len() == 0,
    {
        let table = Table { rows: Vec::new() };
        assert(table@ =~= Map::<Seq<char>, R>::empty());
        table
    }

    /// Where the row with a key stands.
    fn find(&self, key: &str) -> (at: Option<usize>)
        ensures
            match at {
                Some(at) => at_key(self.rows@, key@, at as int),
                None => !has_key(self.rows@, key@),
            },
    {
        let mut k: usize = 0;
        while k < self.rows.len()
            invariant
                k <= self.rows@.len(),
                forall|i: int| 0 <= i < k ==> (#[trigger] self.rows@[i]).keyed_by() != key@,
            decreases self.rows@.len() - k,
        {
            if text::same(self.rows[k].key(), key) {
                return Some(k);
            }
            k = k + 1;
        }
        None
    }

    /// The row under a key.
    pub fn get(&self, key: &str) -> (row: Option<&R>)
        requires
            self.well_formed(),
        ensures
            match row {
                Some(row) => self@.contains_key(key@) && *row == self@[key@],
                None => !self@.contains_key(key@),
            },
    {
        match self.find(key) {
            Some(at) => {
                proof {
                    mapped_at(self.rows@, at as int);
                }
                Some(&self.rows[at])
            },
            None => None,
        }
    }

    /// Whether there is a row under a key.
    pub fn contains(&self, key: &str) -> (found: bool)
        requires
            self.well_formed(),
        ensures
            found == self@.contains_key(key@),
    {
        self.get(key).is_some()
    }

    /// Puts a row under its key, in place of one that stood there.
    pub fn put(&mut self, row: R)
        requires
            old(self).well_formed(),
        ensures
            final(self).well_formed(),
            final(self)@ == old(self)@.insert(row.keyed_by(), row),
    {
        let ghost before = self.rows@;
        let ghost key = row.keyed_by();
        let found = self.find(row.key());
        match found {
            Some(at) => {
                self.rows.set(at, row);
                proof {
                    let after = self.rows@;
                    assert(after =~= before.update(at as int, row));
                    assert forall|i: int| 0 <= i < after.len() implies (#[trigger] after[i]).keyed_by()
                        == before[i].keyed_by() by {}
                    assert forall|i: int, k: int|
                        #![trigger after[i], after[k]]
                        0 <= i < after.len() && 0 <= k < after.len() && after[i].keyed_by()
                            == after[k].keyed_by() implies i == k by {
                        assert(before[i].keyed_by() == before[k].keyed_by());
                    }
                    mapped_at(after, at as int);
                    assert forall|other: Seq<char>| other != key implies has_key(before, other) == has_key(
                        after,
                        other,
                    ) && (has_key(before, other) ==> mapped(before)[other] == mapped(after)[other]) by {
                        if has_key(before, other) {
                            let i = choose|i: int| at_key(before, other, i);
                            assert(at_key(after, other, i));
                            mapped_at(before, i);
                            mapped_at(after, i);
                        }
                        if has_key(after, other) {
                            let i = choose|i: int| at_key(after, other, i);
                            assert(at_key(before, other, i));
                        }
                    }
                }
            },
            None => {
                self.rows.push(row);
                proof {
                    let after = self.rows@;
                    assert(after =~= before.push(row));
                    let last = after.len() - 1;
                    assert forall|i: int, k: int|
                        #![trigger after[i], after[k]]
                        0 <= i < after.len() && 0 <= k < after.len() && after[i].keyed_by()
                            == after[k].keyed_by() implies i == k by {
                        if i < last && k == last {
                            assert(at_key(before, key, i));
                        } else if k < last && i == last {
                            assert(at_key(before, key, k));
                        } else if i < last && k < last {
                            assert(before[i].keyed_by() == before[k].keyed_by());
                        }
                    }
                    mapped_at(after, last);
                    assert forall|other: Seq<char>| other != key implies has_key(before, other) == has_key(
                        after,
                        other,
                    ) && (has_key(before, other) ==> mapped(before)[other] == mapped(after)[other]) by {
                        if has_key(before, other) {
                            let i = choose|i: int| at_key(before, other, i);
                            assert(at_key(after, other, i));
                            mapped_at(before, i);
                            mapped_at(after, i);
                        }
                        if has_key(after, other) {
                            let i = choose|i: int| at_key(after, other, i);
                            assert(at_key(before, other, i));
                        }
                    }
                }
            },
        }
        assert(mapped(self.rows@) =~= mapped(before).insert(key, row));
    }

    /// Takes the row under a key away.
    pub fn remove(&mut self, key: &str) -> (row: Option<R>)
        requires
            old(self).well_formed(),
        ensures
            final(self).well_formed(),
            final(self)@ == old(self)@.remove(key@),
            match row {
                Some(row) => old(self)@.contains_key(key@) && row == old(self)@[key@],
                None => !old(self)@.contains_key(key@),
            },
    {
        let ghost before = self.rows@;
        match self.find(key) {
            None => {
                assert(mapped(before).remove(key@) =~= mapped(before));
                None
            },
            Some(at) => {
                let row = self.rows.remove(at);
                proof {
                    let after = self.rows@;
                    assert(after =~= before.remove(at as int));
                    mapped_at(before, at as int);
                    assert forall|i: int, k: int|
                        #![trigger after[i], after[k]]
                        0 <= i < after.len() && 0 <= k < after.len() && after[i].keyed_by()
                            == after[k].keyed_by() implies i == k by {
                        let a = if i < at { i } else { i + 1 };
                        let b = if k < at { k } else { k + 1 };
                        assert(after[i] == before[a] && after[k] == before[b]);
                    }
                    if has_key(after, key@) {
                        let i = choose|i: int| at_key(after, key@, i);
                        let a = if i < at { i } else { i + 1 };
                        assert(after[i] == before[a]);
                        assert(before[a].keyed_by() == before[at as int].keyed_by());
                    }
                    assert forall|other: Seq<char>| other != key@ implies has_key(before, other) == has_key(
                        after,
                        other,
                    ) && (has_key(before, other) ==> mapped(before)[other] == mapped(after)[other]) by {
                        if has_key(before, other) {
                            let i = choose|i: int| at_key(before, other, i);
                            let a = if i < at { i } else { i - 1 };
                            assert(after[a] == before[i]);
                            assert(at_key(after, other, a));
                            mapped_at(before, i);
                            mapped_at(after, a);
                        }
                        if has_key(after, other) {
                            let i = choose|i: int| at_key(after, other, i);
                            let a = if i < at { i } else { i + 1 };
                            assert(after[i] == before[a]);
                            assert(at_key(before, other, a));
                        }
                    }
                    assert(mapped(after) =~= mapped(before).remove(key@));
                }
                Some(row)
            },
        }
    }

    /// Keeps the rows that are marked, and drops the others. Returns how many
    /// were dropped.
    pub fn retain(&mut self, marks: &Vec<bool>) -> (dropped: usize)
        requires
            old(self).well_formed(),
            marks@.len() == old(self).rows@.len(),
        ensures
            final(self).well_formed(),
            final(self).rows@ == marked(old(self).rows@, marks@),
            dropped == old(self).rows@.len() - final(self).rows@.len(),
            forall|key: Seq<char>| #[trigger]
                final(self)@.contains_key(key) <==> exists|at: int|
                    #[trigger] at_key(old(self).rows@, key, at) && marks@[at],
            forall|key: Seq<char>| #[trigger]
                final(self)@.contains_key(key) ==> old(self)@.contains_key(key) && final(self)@[key]
                    == old(self)@[key],
    {
        let ghost before = self.rows@;
        let ghost flags = marks@;
        let len: usize = marks.len();
        let mut gone: usize = 0;
        let mut k: usize = 0;
        assert(marked(before.take(0), flags.take(0)) + before.skip(0) =~= before);
        while k < len
            invariant
                len == flags.len(),
                flags == marks@,
                before.len() == flags.len(),
                k <= len,
                gone <= k,
                marked(before.take(k as int), flags.take(k as int)).len() == k - gone,
                self.rows@ == marked(before.take(k as int), flags.take(k as int)) + before.skip(k as int),
            decreases len - k,
        {
            let ghost front = marked(before.take(k as int), flags.take(k as int));
            assert(before.take(k + 1).drop_last() =~= before.take(k as int));
            assert(flags.take(k + 1).drop_last() =~= flags.take(k as int));
            assert(self.rows@[k - gone] == before[k as int]);
            if marks[k] {
                assert(front.push(before[k as int]) + before.skip(k + 1) =~= self.rows@);
            } else {
                let _ = self.rows.remove(k - gone);
                assert(front + before.skip(k + 1) =~= self.rows@);
                gone = gone + 1;
            }
            k = k + 1;
        }
        assert(before.take(k as int) =~= before);
        assert(flags.take(k as int) =~= flags);
        assert(self.rows@ =~= marked(before, flags));
        proof {
            marked_members(before, flags);
            let after = self.rows@;
            assert forall|key: Seq<char>| #[trigger]
                mapped(after).contains_key(key) <==> exists|at: int| #[trigger] at_key(before, key, at) && flags[at] by {
                if has_key(after, key) {
                    let i = choose|i: int| at_key(after, key, i);
                    assert(is_marked(before, flags, after[i]));
                    let at = choose|at: int| 0 <= at < before.len() && #[trigger] before[at] == after[i] && flags[at];
                    assert(at_key(before, key, at));
                }
                if exists|at: int| #[trigger] at_key(before, key, at) && flags[at] {
                    let at = choose|at: int| #[trigger] at_key(before, key, at) && flags[at];
                    assert(after.contains(before[at]));
                    let i = choose|i: int| 0 <= i < after.len() && after[i] == before[at];
                    assert(at_key(after, key, i));
                }
            }
            assert forall|key: Seq<char>| #[trigger] mapped(after).contains_key(key) implies mapped(
                before,
            ).contains_key(key) && mapped(after)[key] == mapped(before)[key] by {
                let i = choose|i: int| at_key(after, key, i);
                assert(is_marked(before, flags, after[i]));
                let at = choose|at: int| 0 <= at < before.len() && #[trigger] before[at] == after[i] && flags[at];
                mapped_at(after, i);
                mapped_at(before, at);
            }
        }
        gone
    }
}

/// The rows that are marked.
pub open spec fn marked<R>(rows: Seq<R>, marks: Seq<bool>) -> Seq<R>
    decreases rows.len(),
{
    if rows.len() == 0 {
        Seq::empty()
    } else if marks.last() {
        marked(rows.drop_last(), marks.drop_last()).push(rows.last())
    } else {
        marked(rows.drop_last(), marks.drop_last())
    }
}

/// Whether a row is one of those that are marked.
pub open spec fn is_marked<R>(rows: Seq<R>, marks: Seq<bool>, row: R) -> bool {
    exists|at: int| 0 <= at < rows.len() && #[trigger] rows[at] == row && marks[at]
}

/// What the marked rows are.
proof fn marked_members<R: Keyed>(rows: Seq<R>, marks: Seq<bool>)
    requires
        distinct(rows),
        marks.len() == rows.len(),
    ensures
        distinct(marked(rows, marks)),
        forall|i: int|
            0 <= i < marked(rows, marks).len() ==> is_marked(rows, marks, #[trigger] marked(rows, marks)[i]),
        forall|at: int|
            0 <= at < rows.len() && marks[at] ==> marked(rows, marks).contains(#[trigger] rows[at]),
    decreases rows.len(),
{
    if rows.len() > 0 {
        let front = rows.drop_last();
        let flags = marks.drop_last();
        assert(distinct(front)) by {
            assert forall|i: int, k: int|
                #![trigger front[i], front[k]]
                0 <= i < front.len() && 0 <= k < front.len() && front[i].keyed_by() == front[k].keyed_by() implies i
                == k by {
                assert(front[i] == rows[i] && front[k] == rows[k]);
            }
        }
        marked_members(front, flags);
        let inner = marked(front, flags);
        let whole = marked(rows, marks);
        let last = rows.len() - 1;
        assert forall|i: int| 0 <= i < whole.len() implies is_marked(rows, marks, #[trigger] whole[i]) by {
            if i < inner.len() {
                assert(whole[i] == inner[i]);
                assert(is_marked(front, flags, inner[i]));
                let at = choose|at: int| 0 <= at < front.len() && #[trigger] front[at] == inner[i] && flags[at];
                assert(rows[at] == whole[i] && marks[at]);
            } else {
                assert(rows[last] == whole[i] && marks[last]);
            }
        }
        assert forall|at: int| 0 <= at < rows.len() && marks[at] implies whole.contains(#[trigger] rows[at]) by {
            if at < last {
                assert(flags[at] && front[at] == rows[at]);
                assert(inner.contains(front[at]));
                let i = choose|i: int| 0 <= i < inner.len() && inner[i] == front[at];
                assert(whole[i] == rows[at]);
            } else {
                assert(whole[whole.len() - 1] == rows[at]);
            }
        }
        assert forall|i: int, k: int|
            #![trigger whole[i], whole[k]]
            0 <= i < whole.len() && 0 <= k < whole.len() && whole[i].keyed_by() == whole[k].keyed_by() implies i
            == k by {
            if i < inner.len() && k < inner.len() {
                assert(whole[i] == inner[i] && whole[k] == inner[k]);
            } else if i < inner.len() {
                assert(whole[i] == inner[i]);
                assert(is_marked(front, flags, inner[i]));
                let at = choose|at: int| 0 <= at < front.len() && #[trigger] front[at] == inner[i] && flags[at];
                assert(rows[at].keyed_by() == rows[last].keyed_by());
            } else if k < inner.len() {
                assert(whole[k] == inner[k]);
                assert(is_marked(front, flags, inner[k]));
                let at = choose|at: int| 0 <= at < front.len() && #[trigger] front[at] == inner[k] && flags[at];
                assert(rows[at].keyed_by() == rows[last].keyed_by());
            }
        }
    }
}

// ---------------------------------------------------------------------------
// Laws
// ---------------------------------------------------------------------------

/// A table maps the key of each of its rows to that row, and no other key.
pub proof fn law_a_row_stands_under_its_key<R: Keyed>(rows: Seq<R>, k: int, key: Seq<char>)
    requires
        distinct(rows),
    ensures
        0 <= k < rows.len() ==> mapped(rows).contains_key(rows[k].keyed_by()) && mapped(rows)[rows[k].keyed_by()]
            == rows[k],
        mapped(rows).contains_key(key) ==> mapped(rows)[key].keyed_by() == key && rows.contains(mapped(rows)[key]),
{
    if 0 <= k < rows.len() {
        assert(at_key(rows, rows[k].keyed_by(), k));
        let at = choose|at: int| at_key(rows, rows[k].keyed_by(), at);
        assert(rows[at].keyed_by() == rows[k].keyed_by());
    }
    if mapped(rows).contains_key(key) {
        let at = choose|at: int| at_key(rows, key, at);
        assert(at_key(rows, key, at));
        assert(rows[at] == mapped(rows)[key]);
    }
}

/// The marked rows of two lists are those of the first and behind them those of
/// the second.
pub proof fn law_marked_rows_keep_their_order<R>(
    first: Seq<R>,
    second: Seq<R>,
    first_marks: Seq<bool>,
    second_marks: Seq<bool>,
)
    requires
        first.len() == first_marks.len(),
        second.len() == second_marks.len(),
    ensures
        marked(first + second, first_marks + second_marks) == marked(first, first_marks) + marked(second, second_marks),
        first.len() == 1 && first_marks[0] ==> marked(first, first_marks) == first,
        first.len() == 1 && !first_marks[0] ==> marked(first, first_marks).len() == 0,
    decreases second.len(),
{
    let rows = first + second;
    let marks = first_marks + second_marks;
    if second.len() == 0 {
        assert(rows =~= first);
        assert(marks =~= first_marks);
        assert(marked(second, second_marks) =~= Seq::<R>::empty());
    } else {
        assert(rows.drop_last() =~= first + second.drop_last());
        assert(marks.drop_last() =~= first_marks + second_marks.drop_last());
        assert(rows.last() == second.last());
        assert(marks.last() == second_marks.last());
        law_marked_rows_keep_their_order(first, second.drop_last(), first_marks, second_marks.drop_last());
    }
    assert(marked(rows, marks) =~= marked(first, first_marks) + marked(second, second_marks));
    if first.len() == 1 {
        assert(marked(first.drop_last(), first_marks.drop_last()) =~= Seq::<R>::empty());
        if first_marks[0] {
            assert(marked(first, first_marks) =~= first);
        }
    }
}

} // verus!
