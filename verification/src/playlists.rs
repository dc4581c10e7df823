use vstd::prelude::*;
use crate::ui::dec_digits;

verus! {

/// One entry of a playlist: where the file lives and the display name it
/// was given.
#[derive(PartialEq, Eq, Clone, Debug)]
pub struct PlaylistItem {
    pub path: String,
    pub name: String,
}

/// How renaming a playlist went.
#[derive(PartialEq, Eq, Structural, Clone, Copy, Debug)]
pub enum RenameOutcome {
    NotFound,
    NameExists,
    Renamed,
}

/// How deleting a playlist went.
#[derive(PartialEq, Eq, Structural, Clone, Copy, Debug)]
pub enum DeleteOutcome {
    LastPlaylist,
    NotFound,
    Deleted,
}

/// How removing one entry from a playlist went.
#[derive(PartialEq, Eq, Structural, Clone, Copy, Debug)]
pub enum RemoveOutcome {
    PlaylistNotFound,
    IndexOutOfBounds,
    Removed,
}

/// Index of the first list called `name`, at or after `from`.
pub open spec fn find_name(
    s: Seq<(String, Vec<PlaylistItem>)>,
    name: Seq<char>,
    from: int,
) -> Option<int>
    decreases s.len() - from,
{
    if from < 0 || from >= s.len() {
        None
    } else if s[from].0@ == name {
        Some(from)
    } else {
        find_name(s, name, from + 1)
    }
}

/// The in-memory playlist document shared by the window and the remote
/// control surface: named lists of files, and the name of the list
/// currently shown.  How the document is persisted is not this type's
/// concern; it only keeps the names unique and the edits consistent.
pub struct Playlists {
    pub current_name: String,
    pub lists: Vec<(String, Vec<PlaylistItem>)>,
}

impl Playlists {
    /// List names are unique.
    pub open spec fn wf(self) -> bool {
        forall|i: int, j: int|
            0 <= i < j < self.lists@.len() ==> (#[trigger] self.lists@[i]).0@ != (
            #[trigger] self.lists@[j]).0@
    }

    /// Where the list called `name` stands, if anywhere.
    pub open spec fn spec_find(self, name: Seq<char>) -> Option<int> {
        find_name(self.lists@, name, 0)
    }

    /// A document with one empty list, which is also the current one.
    pub fn new(initial_name: String) -> (r: Playlists)
        ensures
            r.wf(),
            r.current_name == initial_name,
            r.lists@.len() == 1,
            r.lists@[0].0 == initial_name,
            r.lists@[0].1@.len() == 0,
    {
        let name_copy = initial_name.clone();
        let mut lists: Vec<(String, Vec<PlaylistItem>)> = Vec::new();
        lists.push((name_copy, Vec::new()));
        Playlists { current_name: initial_name, lists }
    }

    /// Find the list called `name`.
    pub fn find_list(&self, name: &String) -> (r: Option<usize>)
        ensures
            match r {
                Some(i) => i < self.lists@.len() && self.spec_find(name@) == Some(i as int),
                None => self.spec_find(name@) is None,
            },
    {
        let ghost s = self.lists@;
        let mut i: usize = 0;
        while i < self.lists.len()
            invariant
                i <= s.len(),
                s == self.lists@,
                find_name(s, name@, 0) == find_name(s, name@, i as int),
            decreases self.lists.len() - i,
        {
            if self.lists[i].0 == *name {
                return Some(i);
            }
            i = i + 1;
        }
        None
    }

    /// Make `name` the current list, when it exists; the result says
    /// whether it did.  Nothing else changes.
    pub fn switch_playlist(&mut self, name: String) -> (r: bool)
        ensures
            r == (old(self).spec_find(name@) is Some),
            final(self).lists == old(self).lists,
            r ==> final(self).current_name == name,
            !r ==> final(self).current_name == old(self).current_name,
    {
        match self.find_list(&name) {
            Some(_) => {
                self.current_name = name;
                true
            },
            None => false,
        }
    }

    /// Rename the list called `old_name` to `new_name`.  The rename is
    /// refused when no list has the old name, or any list (the same one
    /// included) already has the new one; a refused rename changes
    /// nothing.  Renaming the current list carries the current name along.
    pub fn rename_playlist(&mut self, old_name: &String, new_name: &String) -> (r: RenameOutcome)
        requires
            old(self).wf(),
        ensures
            final(self).wf(),
            ({
                let o = *old(self);
                match r {
                    RenameOutcome::NotFound => o.spec_find(old_name@) is None && *final(self) == o,
                    RenameOutcome::NameExists => o.spec_find(old_name@) is Some && o.spec_find(
                        new_name@,
                    ) is Some && *final(self) == o,
                    RenameOutcome::Renamed => {
                        &&& o.spec_find(old_name@) matches Some(i) && final(self).lists@ == o.lists@
                            .update(i, (*new_name, o.lists@[i].1))
                        &&& o.spec_find(new_name@) is None
                        &&& final(self).current_name@ == (if o.current_name@ == old_name@ {
                            new_name@
                        } else {
                            o.current_name@
                        })
                    },
                }
            }),
    {
        let idx = match self.find_list(old_name) {
            None => {
                return RenameOutcome::NotFound;
            },
            Some(i) => i,
        };
        if self.find_list(new_name).is_some() {
            return RenameOutcome::NameExists;
        }
        proof {
            lemma_find_name_absent(self.lists@, new_name@);
        }
        let ghost before = self.lists@;
        let removed = self.lists.remove(idx);
        self.lists.insert(idx, (new_name.clone(), removed.1));
        proof {
            assert(self.lists@ =~= before.update(idx as int, (*new_name, before[idx as int].1)))
                by {
                assert forall|k: int| 0 <= k < self.lists@.len() implies self.lists@[k] == before
                    .update(idx as int, (*new_name, before[idx as int].1))[k] by {
                    if k < idx {
                        assert(self.lists@[k] == before.remove(idx as int).insert(
                            idx as int,
                            self.lists@[idx as int],
                        )[k]);
                    }
                }
            }
            lemma_find_name_found(before, old_name@, idx as int);
            assert forall|i: int, j: int|
                0 <= i < j < self.lists@.len() implies (#[trigger] self.lists@[i]).0@ != (
            #[trigger] self.lists@[j]).0@ by {
                if i != idx && j != idx {
                    assert(self.lists@[i] == before[i]);
                    assert(self.lists@[j] == before[j]);
                }
            }
        }
        if self.current_name == *old_name {
            self.current_name = new_name.clone();
        }
        RenameOutcome::Renamed
    }

    /// Delete the list called `name`.  The last remaining list can never
    /// be deleted; deleting the current list makes the first remaining
    /// one current.  A refused delete changes nothing.
    pub fn delete_playlist(&mut self, name: &String) -> (r: DeleteOutcome)
        requires
            old(self).wf(),
        ensures
            final(self).wf(),
            ({
                let o = *old(self);
                match r {
                    DeleteOutcome::LastPlaylist => o.lists@.len() <= 1 && *final(self) == o,
                    DeleteOutcome::NotFound => o.lists@.len() > 1 && o.spec_find(name@) is None
                        && *final(self) == o,
                    DeleteOutcome::Deleted => {
                        &&& o.lists@.len() > 1
                        &&& o.spec_find(name@) matches Some(i) && final(self).lists@ == o.lists@
                            .remove(i)
                        &&& final(self).lists@.len() > 0
                        &&& final(self).current_name@ == (if o.current_name@ == name@ {
                            final(self).lists@[0].0@
                        } else {
                            o.current_name@
                        })
                    },
                }
            }),
    {
        if self.lists.len() <= 1 {
            return DeleteOutcome::LastPlaylist;
        }
        let idx = match self.find_list(name) {
            None => {
                return DeleteOutcome::NotFound;
            },
            Some(i) => i,
        };
        let was_current = self.current_name == *name;
        let ghost before = self.lists@;
        self.lists.remove(idx);
        proof {
            assert forall|i: int, j: int|
                0 <= i < j < self.lists@.len() implies (#[trigger] self.lists@[i]).0@ != (
            #[trigger] self.lists@[j]).0@ by {
                let bi = if i < idx {
                    i
                } else {
                    i + 1
                };
                let bj = if j < idx {
                    j
                } else {
                    j + 1
                };
                assert(self.lists@[i] == before[bi]);
                assert(self.lists@[j] == before[bj]);
            }
        }
        if was_current {
            self.current_name = self.lists[0].0.clone();
        }
        DeleteOutcome::Deleted
    }

    /// Remove the entry at `index` from the list called `list_name`.
    /// A missing list or an index past the end changes nothing.
    pub fn remove_item(&mut self, list_name: &String, index: usize) -> (r: RemoveOutcome)
        requires
            old(self).wf(),
        ensures
            final(self).wf(),
            final(self).current_name == old(self).current_name,
            ({
                let o = *old(self);
                match r {
                    RemoveOutcome::PlaylistNotFound => o.spec_find(list_name@) is None
                        && *final(self) == o,
                    RemoveOutcome::IndexOutOfBounds => o.spec_find(list_name@) matches Some(i)
                        && index >= o.lists@[i].1@.len() && *final(self) == o,
                    RemoveOutcome::Removed => {
                        &&& o.spec_find(list_name@) matches Some(i) && index < o.lists@[i].1@.len()
                            && final(self).lists@ == o.lists@.update(
                            i,
                            (o.lists@[i].0, final(self).lists@[i].1),
                        ) && final(self).lists@[i].1@ == o.lists@[i].1@.remove(index as int)
                    },
                }
            }),
    {
        let idx = match self.find_list(list_name) {
            None => {
                return RemoveOutcome::PlaylistNotFound;
            },
            Some(i) => i,
        };
        if index >= self.lists[idx].1.len() {
            return RemoveOutcome::IndexOutOfBounds;
        }
        let ghost before = self.lists@;
        let (kept_name, mut items) = self.lists.remove(idx);
        items.remove(index);
        self.lists.insert(idx, (kept_name, items));
        proof {
            assert(self.lists@ =~= before.update(
                idx as int,
                (before[idx as int].0, self.lists@[idx as int].1),
            )) by {
                assert forall|k: int| 0 <= k < self.lists@.len() implies self.lists@[k] == before
                    .update(idx as int, (before[idx as int].0, self.lists@[idx as int].1))[k] by {
                    if k < idx {
                        assert(self.lists@[k] == before.remove(idx as int).insert(
                            idx as int,
                            self.lists@[idx as int],
                        )[k]);
                    }
                }
            }
            assert forall|i: int, j: int|
                0 <= i < j < self.lists@.len() implies (#[trigger] self.lists@[i]).0@ != (
            #[trigger] self.lists@[j]).0@ by {
                assert(self.lists@[i].0 == before[i].0);
                assert(self.lists@[j].0 == before[j].0);
            }
        }
        RemoveOutcome::Removed
    }

    /// The list called `name`, created empty at the end when absent; the
    /// result is its index either way.
    pub fn ensure_list(&mut self, name: String) -> (idx: usize)
        requires
            old(self).wf(),
        ensures
            final(self).wf(),
            final(self).current_name == old(self).current_name,
            idx < final(self).lists@.len(),
            final(self).lists@[idx as int].0@ == name@,
            ({
                let o = *old(self);
                match o.spec_find(name@) {
                    Some(i) => i == idx && final(self).lists == o.lists,
                    None => {
                        &&& idx == o.lists@.len()
                        &&& final(self).lists@.len() == o.lists@.len() + 1
                        &&& final(self).lists@.subrange(0, o.lists@.len() as int) == o.lists@
                        &&& final(self).lists@[idx as int].0 == name
                        &&& final(self).lists@[idx as int].1@.len() == 0
                    },
                }
            }),
    {
        match self.find_list(&name) {
            Some(i) => {
                proof {
                    lemma_find_name_found(self.lists@, name@, i as int);
                }
                i
            },
            None => {
                proof {
                    lemma_find_name_absent(self.lists@, name@);
                }
                let idx = self.lists.len();
                let empty: Vec<PlaylistItem> = Vec::new();
                let ghost before = self.lists@;
                self.lists.push((name, empty));
                proof {
                    assert forall|i: int, j: int|
                        0 <= i < j < self.lists@.len() implies (#[trigger] self.lists@[i]).0@ != (
                    #[trigger] self.lists@[j]).0@ by {
                        if j < idx {
                            assert(self.lists@[i] == before[i]);
                            assert(self.lists@[j] == before[j]);
                        } else {
                            if i < idx {
                                assert(self.lists@[i] == before[i]);
                            }
                        }
                    }
                }
                idx
            },
        }
    }

    /// Put `item` at the top of the list at `idx`: newest first.
    pub fn insert_top(&mut self, idx: usize, item: PlaylistItem) -> (r: ())
        requires
            old(self).wf(),
            idx < old(self).lists@.len(),
        ensures
            final(self).wf(),
            final(self).current_name == old(self).current_name,
            final(self).lists@ == old(self).lists@.update(
                idx as int,
                (old(self).lists@[idx as int].0, final(self).lists@[idx as int].1),
            ),
            final(self).lists@[idx as int].1@ == old(self).lists@[idx as int].1@.insert(0, item),
    {
        let ghost before = self.lists@;
        let (kept_name, mut items) = self.lists.remove(idx);
        items.insert(0, item);
        self.lists.insert(idx, (kept_name, items));
        proof {
            assert(self.lists@ =~= before.update(
                idx as int,
                (before[idx as int].0, self.lists@[idx as int].1),
            )) by {
                assert forall|k: int| 0 <= k < self.lists@.len() implies self.lists@[k] == before
                    .update(idx as int, (before[idx as int].0, self.lists@[idx as int].1))[k] by {
                    if k < idx {
                        assert(self.lists@[k] == before.remove(idx as int).insert(
                            idx as int,
                            self.lists@[idx as int],
                        )[k]);
                    }
                }
            }
            assert forall|i: int, j: int|
                0 <= i < j < self.lists@.len() implies (#[trigger] self.lists@[i]).0@ != (
            #[trigger] self.lists@[j]).0@ by {
                assert(self.lists@[i].0 == before[i].0);
                assert(self.lists@[j].0 == before[j].0);
            }
        }
    }
}

/// When a search from the front fails, no entry has the name.
proof fn lemma_find_name_absent(s: Seq<(String, Vec<PlaylistItem>)>, name: Seq<char>)
    requires
        find_name(s, name, 0) is None,
    ensures
        forall|k: int| 0 <= k < s.len() ==> (#[trigger] s[k]).0@ != name,
{
    assert forall|k: int| 0 <= k < s.len() implies (#[trigger] s[k]).0@ != name by {
        lemma_find_name_none_range(s, name, 0, k);
    }
}

/// A failed search saw every index it passed.
proof fn lemma_find_name_none_range(
    s: Seq<(String, Vec<PlaylistItem>)>,
    name: Seq<char>,
    from: int,
    k: int,
)
    requires
        find_name(s, name, from) is None,
        0 <= from <= k < s.len(),
    ensures
        s[k].0@ != name,
    decreases k - from,
{
    if from < k {
        lemma_find_name_none_range(s, name, from + 1, k);
    }
}

/// A successful search names an entry that really has the name.
proof fn lemma_find_name_found(
    s: Seq<(String, Vec<PlaylistItem>)>,
    name: Seq<char>,
    idx: int,
)
    requires
        find_name(s, name, 0) == Some(idx),
    ensures
        0 <= idx < s.len() && s[idx].0@ == name,
{
    lemma_find_name_found_from(s, name, 0, idx);
}

proof fn lemma_find_name_found_from(
    s: Seq<(String, Vec<PlaylistItem>)>,
    name: Seq<char>,
    from: int,
    idx: int,
)
    requires
        find_name(s, name, from) == Some(idx),
        0 <= from,
    ensures
        from <= idx < s.len() && s[idx].0@ == name,
    decreases s.len() - from,
{
    if from < s.len() && s[from].0@ != name {
        lemma_find_name_found_from(s, name, from + 1, idx);
    }
}

/// Whether any entry of the list carries this display name.
pub fn name_taken(items: &Vec<PlaylistItem>, name: &String) -> (r: bool)
    ensures
        r == exists|i: int| 0 <= i < items@.len() && (#[trigger] items@[i]).name@ == name@,
{
    let mut i: usize = 0;
    while i < items.len()
        invariant
            i <= items@.len(),
            forall|k: int| 0 <= k < i ==> (#[trigger] items@[k]).name@ != name@,
        decreases items.len() - i,
    {
        if items[i].name == *name {
            return true;
        }
        i = i + 1;
    }
    false
}

/// Index of the first entry pointing at `path`, for finding the track
/// that is currently playing.
pub fn index_of_path(items: &Vec<PlaylistItem>, path: &String) -> (r: Option<usize>)
    ensures
        match r {
            Some(i) => i < items@.len() && items@[i as int].path@ == path@ && (forall|k: int|
                0 <= k < i ==> (#[trigger] items@[k]).path@ != path@),
            None => forall|k: int|
                0 <= k < items@.len() ==> (#[trigger] items@[k]).path@ != path@,
        },
{
    let mut i: usize = 0;
    while i < items.len()
        invariant
            i <= items@.len(),
            forall|k: int| 0 <= k < i ==> (#[trigger] items@[k]).path@ != path@,
        decreases items.len() - i,
    {
        if items[i].path == *path {
            return Some(i);
        }
        i = i + 1;
    }
    None
}

/// Whether any entry of the list points at this path.
pub fn path_in_list(items: &Vec<PlaylistItem>, path: &String) -> (r: bool)
    ensures
        r == exists|i: int| 0 <= i < items@.len() && (#[trigger] items@[i]).path@ == path@,
{
    let mut i: usize = 0;
    while i < items.len()
        invariant
            i <= items@.len(),
            forall|k: int| 0 <= k < i ==> (#[trigger] items@[k]).path@ != path@,
        decreases items.len() - i,
    {
        if items[i].path == *path {
            return true;
        }
        i = i + 1;
    }
    false
}

/// The display name a duplicate gets on its `k`-th retry: the base name
/// with the retry number in parentheses.
pub fn numbered_name(base: &String, k: u64) -> (r: String)
    ensures
        r@ == base@ + seq![' ', '('] + dec_digits(k as int) + seq![')'],
{
    let mut r = base.clone();
    proof {
        reveal_strlit(" (");
        reveal_strlit(")");
    }
    r.append(" (");
    crate::ui::push_decimal(&mut r, k);
    r.append(")");
    proof {
        assert(((base@ + " ("@) + dec_digits(k as int)) + ")"@ =~= base@ + seq![' ', '(']
            + dec_digits(k as int) + seq![')']);
    }
    r
}

} // verus!
