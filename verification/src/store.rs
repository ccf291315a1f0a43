//! The record store adapter: typed get / set / set-with-expiry / delete /
//! list-append / list-range operations over a key-value store, modelled as
//! two maps — one from keys to text values with their recorded expiry, one
//! from keys to lists of text values. This adapter keeps its records in
//! memory; a deployment that keeps them in an external store instead can
//! drive the same decision functions around its own reads and writes.

use vstd::prelude::*;
use vstd::string::*;
use crate::text::str_eq;

verus! {

/// A stored text value: the key, the value, and the expiry in seconds the
/// value was written with — none for a plain write, which clears any
/// earlier expiry.
pub struct TextCell {
    pub key: String,
    pub value: String,
    pub ttl: Option<u64>,
}

/// What a text key holds: the value and its recorded expiry.
pub struct TextData {
    pub value: Seq<char>,
    pub ttl: Option<u64>,
}

/// A stored list of text values.
pub struct ListCell {
    pub key: String,
    pub items: Vec<String>,
}

/// The views of a list's items.
pub open spec fn strings_view(s: Seq<String>) -> Seq<Seq<char>> {
    s.map_values(|x: String| x@)
}

/// The map a sequence of text cells denotes; later cells win, though the
/// store never keeps two cells with one key.
pub open spec fn text_map_of(s: Seq<TextCell>) -> Map<Seq<char>, TextData>
    decreases s.len(),
{
    if s.len() == 0 {
        Map::empty()
    } else {
        text_map_of(s.drop_last()).insert(
            s.last().key@,
            TextData { value: s.last().value@, ttl: s.last().ttl },
        )
    }
}

/// The map a sequence of list cells denotes.
pub open spec fn list_map_of(s: Seq<ListCell>) -> Map<Seq<char>, Seq<Seq<char>>>
    decreases s.len(),
{
    if s.len() == 0 {
        Map::empty()
    } else {
        list_map_of(s.drop_last()).insert(s.last().key@, strings_view(s.last().items@))
    }
}

/// No two cells share a key.
pub open spec fn nodup_text_keys(s: Seq<TextCell>) -> bool {
    forall|i: int, j: int| 0 <= i < j < s.len() ==> s[i].key@ != s[j].key@
}

/// No two cells share a key.
pub open spec fn nodup_list_keys(s: Seq<ListCell>) -> bool {
    forall|i: int, j: int| 0 <= i < j < s.len() ==> s[i].key@ != s[j].key@
}

proof fn lemma_text_map_contains(s: Seq<TextCell>, k: Seq<char>)
    ensures
        text_map_of(s).contains_key(k) <==> exists|i: int| 0 <= i < s.len() && s[i].key@ == k,
    decreases s.len(),
{
    if s.len() > 0 {
        lemma_text_map_contains(s.drop_last(), k);
        if exists|i: int| 0 <= i < s.drop_last().len() && s.drop_last()[i].key@ == k {
            let i = choose|i: int| 0 <= i < s.drop_last().len() && s.drop_last()[i].key@ == k;
            assert(s[i].key@ == k);
        }
        if s.last().key@ == k {
            assert(s[s.len() - 1].key@ == k);
        }
        if exists|i: int| 0 <= i < s.len() && s[i].key@ == k {
            let i = choose|i: int| 0 <= i < s.len() && s[i].key@ == k;
            if i < s.len() - 1 {
                assert(s.drop_last()[i] == s[i]);
                assert(exists|j: int| 0 <= j < s.drop_last().len() && s.drop_last()[j].key@ == k);
            }
        }
    }
}

proof fn lemma_text_map_at(s: Seq<TextCell>, i: int)
    requires
        nodup_text_keys(s),
        0 <= i < s.len(),
    ensures
        text_map_of(s).contains_key(s[i].key@),
        text_map_of(s)[s[i].key@] == (TextData { value: s[i].value@, ttl: s[i].ttl }),
    decreases s.len(),
{
    if i < s.len() - 1 {
        assert(s.drop_last()[i] == s[i]);
        lemma_text_map_at(s.drop_last(), i);
        assert(s[i].key@ != s.last().key@);
    }
}

proof fn lemma_text_map_remove(s: Seq<TextCell>, i: int)
    requires
        nodup_text_keys(s),
        0 <= i < s.len(),
    ensures
        text_map_of(s.remove(i)) == text_map_of(s).remove(s[i].key@),
    decreases s.len(),
{
    let k = s[i].key@;
    if i == s.len() - 1 {
        assert(s.remove(i) =~= s.drop_last());
        lemma_text_map_contains(s.drop_last(), k);
        assert(!text_map_of(s.drop_last()).contains_key(k)) by {
            if exists|j: int| 0 <= j < s.drop_last().len() && s.drop_last()[j].key@ == k {
                let j = choose|j: int| 0 <= j < s.drop_last().len() && s.drop_last()[j].key@ == k;
                assert(s[j].key@ == s[i].key@);
            }
        }
        assert(text_map_of(s.drop_last()) =~= text_map_of(s).remove(k));
    } else {
        assert(s.remove(i).drop_last() =~= s.drop_last().remove(i));
        assert(s.remove(i).last() == s.last());
        assert(s.drop_last()[i] == s[i]);
        lemma_text_map_remove(s.drop_last(), i);
        assert(s[i].key@ != s.last().key@);
        assert(text_map_of(s.remove(i)) =~= text_map_of(s).remove(k));
    }
}

proof fn lemma_list_map_contains(s: Seq<ListCell>, k: Seq<char>)
    ensures
        list_map_of(s).contains_key(k) <==> exists|i: int| 0 <= i < s.len() && s[i].key@ == k,
    decreases s.len(),
{
    if s.len() > 0 {
        lemma_list_map_contains(s.drop_last(), k);
        if exists|i: int| 0 <= i < s.drop_last().len() && s.drop_last()[i].key@ == k {
            let i = choose|i: int| 0 <= i < s.drop_last().len() && s.drop_last()[i].key@ == k;
            assert(s[i].key@ == k);
        }
        if s.last().key@ == k {
            assert(s[s.len() - 1].key@ == k);
        }
        if exists|i: int| 0 <= i < s.len() && s[i].key@ == k {
            let i = choose|i: int| 0 <= i < s.len() && s[i].key@ == k;
            if i < s.len() - 1 {
                assert(s.drop_last()[i] == s[i]);
                assert(exists|j: int| 0 <= j < s.drop_last().len() && s.drop_last()[j].key@ == k);
            }
        }
    }
}

proof fn lemma_list_map_at(s: Seq<ListCell>, i: int)
    requires
        nodup_list_keys(s),
        0 <= i < s.len(),
    ensures
        list_map_of(s).contains_key(s[i].key@),
        list_map_of(s)[s[i].key@] == strings_view(s[i].items@),
    decreases s.len(),
{
    if i < s.len() - 1 {
        assert(s.drop_last()[i] == s[i]);
        lemma_list_map_at(s.drop_last(), i);
        assert(s[i].key@ != s.last().key@);
    }
}

proof fn lemma_list_map_remove(s: Seq<ListCell>, i: int)
    requires
        nodup_list_keys(s),
        0 <= i < s.len(),
    ensures
        list_map_of(s.remove(i)) == list_map_of(s).remove(s[i].key@),
    decreases s.len(),
{
    let k = s[i].key@;
    if i == s.len() - 1 {
        assert(s.remove(i) =~= s.drop_last());
        lemma_list_map_contains(s.drop_last(), k);
        assert(!list_map_of(s.drop_last()).contains_key(k)) by {
            if exists|j: int| 0 <= j < s.drop_last().len() && s.drop_last()[j].key@ == k {
                let j = choose|j: int| 0 <= j < s.drop_last().len() && s.drop_last()[j].key@ == k;
                assert(s[j].key@ == s[i].key@);
            }
        }
        assert(list_map_of(s.drop_last()) =~= list_map_of(s).remove(k));
    } else {
        assert(s.remove(i).drop_last() =~= s.drop_last().remove(i));
        assert(s.remove(i).last() == s.last());
        assert(s.drop_last()[i] == s[i]);
        lemma_list_map_remove(s.drop_last(), i);
        assert(s[i].key@ != s.last().key@);
        assert(list_map_of(s.remove(i)) =~= list_map_of(s).remove(k));
    }
}

/// The in-memory record store.
pub struct RecordStore {
    cells: Vec<TextCell>,
    rows: Vec<ListCell>,
}

impl RecordStore {
    /// The store keeps at most one cell per key.
    pub closed spec fn wf(self) -> bool {
        nodup_text_keys(self.cells@) && nodup_list_keys(self.rows@)
    }

    /// The text keys and what they hold.
    pub closed spec fn texts(self) -> Map<Seq<char>, TextData> {
        text_map_of(self.cells@)
    }

    /// The list keys and what they hold.
    pub closed spec fn lists(self) -> Map<Seq<char>, Seq<Seq<char>>> {
        list_map_of(self.rows@)
    }

    /// An empty store.
    pub fn new() -> (s: Self)
        ensures
            s.wf(),
            s.texts() == Map::<Seq<char>, TextData>::empty(),
            s.lists() == Map::<Seq<char>, Seq<Seq<char>>>::empty(),
    {
        RecordStore { cells: Vec::new(), rows: Vec::new() }
    }

    /// The position of the cell under `key`, if any.
    fn find_cell(&self, key: &str) -> (r: Option<usize>)
        ensures
            match r {
                Some(i) => i < self.cells@.len() && self.cells@[i as int].key@ == key@,
                None => !self.texts().contains_key(key@),
            },
    {
        let n = self.cells.len();
        let mut i: usize = 0;
        while i < n
            invariant
                i <= n,
                n == self.cells@.len(),
                forall|j: int| 0 <= j < i ==> self.cells@[j].key@ != key@,
            decreases n - i,
        {
            if str_eq(self.cells[i].key.as_str(), key) {
                return Some(i);
            }
            i = i + 1;
        }
        proof {
            lemma_text_map_contains(self.cells@, key@);
        }
        None
    }

    /// The position of the list under `key`, if any.
    fn find_row(&self, key: &str) -> (r: Option<usize>)
        ensures
            match r {
                Some(i) => i < self.rows@.len() && self.rows@[i as int].key@ == key@,
                None => !self.lists().contains_key(key@),
            },
    {
        let n = self.rows.len();
        let mut i: usize = 0;
        while i < n
            invariant
                i <= n,
                n == self.rows@.len(),
                forall|j: int| 0 <= j < i ==> self.rows@[j].key@ != key@,
            decreases n - i,
        {
            if str_eq(self.rows[i].key.as_str(), key) {
                return Some(i);
            }
            i = i + 1;
        }
        proof {
            lemma_list_map_contains(self.rows@, key@);
        }
        None
    }

    /// The text value under `key`, if any.
    pub fn get(&self, key: &str) -> (r: Option<String>)
        requires
            self.wf(),
        ensures
            match r {
                Some(v) => self.texts().contains_key(key@) && v@ == self.texts()[key@].value,
                None => !self.texts().contains_key(key@),
            },
    {
        match self.find_cell(key) {
            Some(i) => {
                proof {
                    lemma_text_map_at(self.cells@, i as int);
                }
                Some(self.cells[i].value.clone())
            },
            None => None,
        }
    }

    /// The expiry recorded for the text value under `key`, if the key is
    /// there: the seconds the value was written with, or none for a plain
    /// write.
    pub fn expiry_of(&self, key: &str) -> (r: Option<Option<u64>>)
        requires
            self.wf(),
        ensures
            match r {
                Some(t) => self.texts().contains_key(key@) && t == self.texts()[key@].ttl,
                None => !self.texts().contains_key(key@),
            },
    {
        match self.find_cell(key) {
            Some(i) => {
                proof {
                    lemma_text_map_at(self.cells@, i as int);
                }
                Some(self.cells[i].ttl)
            },
            None => None,
        }
    }

    /// Removes the cell under `key`, if any; the map loses the key.
    fn drop_cell(&mut self, key: &str)
        requires
            old(self).wf(),
        ensures
            final(self).wf(),
            final(self).texts() == old(self).texts().remove(key@),
            final(self).lists() == old(self).lists(),
            final(self).rows == old(self).rows,
    {
        match self.find_cell(key) {
            Some(i) => {
                proof {
                    lemma_text_map_remove(self.cells@, i as int);
                    assert forall|a: int, b: int|
                        0 <= a < b < self.cells@.remove(i as int).len() implies self.cells@.remove(
                        i as int,
                    )[a].key@ != self.cells@.remove(i as int)[b].key@ by {
                        let s = self.cells@;
                        let a0 = if a < i { a } else { a + 1 };
                        let b0 = if b < i { b } else { b + 1 };
                        assert(s.remove(i as int)[a] == s[a0]);
                        assert(s.remove(i as int)[b] == s[b0]);
                    }
                }
                self.cells.remove(i);
            },
            None => {
                proof {
                    assert(self.texts().remove(key@) =~= self.texts());
                }
            },
        }
    }

    /// Writes `value` under `key` with no expiry, replacing whatever text
    /// value was there; an earlier expiry is cleared.
    pub fn set(&mut self, key: &str, value: &str)
        requires
            old(self).wf(),
        ensures
            final(self).wf(),
            final(self).texts() == old(self).texts().insert(
                key@,
                TextData { value: value@, ttl: None },
            ),
            final(self).lists() == old(self).lists(),
    {
        self.put_cell(key, value, None)
    }

    /// Writes `value` under `key` with an expiry of `ttl_seconds`,
    /// replacing whatever text value was there.
    pub fn set_with_expiry(&mut self, key: &str, value: &str, ttl_seconds: u64)
        requires
            old(self).wf(),
        ensures
            final(self).wf(),
            final(self).texts() == old(self).texts().insert(
                key@,
                TextData { value: value@, ttl: Some(ttl_seconds) },
            ),
            final(self).lists() == old(self).lists(),
    {
        self.put_cell(key, value, Some(ttl_seconds))
    }

    /// Writes `value` under `key` with the given recorded expiry.
    fn put_cell(&mut self, key: &str, value: &str, ttl: Option<u64>)
        requires
            old(self).wf(),
        ensures
            final(self).wf(),
            final(self).texts() == old(self).texts().insert(
                key@,
                TextData { value: value@, ttl: ttl },
            ),
            final(self).lists() == old(self).lists(),
    {
        self.drop_cell(key);
        let ghost mid = self.cells@;
        let cell = TextCell { key: key.to_owned(), value: value.to_owned(), ttl };
        self.cells.push(cell);
        proof {
            assert(self.cells@.drop_last() =~= mid);
            lemma_text_map_contains(mid, key@);
            assert forall|a: int, b: int| 0 <= a < b < self.cells@.len() implies self.cells@[a].key@
                != self.cells@[b].key@ by {
                if b < self.cells@.len() - 1 {
                    assert(mid[a] == self.cells@[a]);
                    assert(mid[b] == self.cells@[b]);
                } else {
                    assert(mid[a] == self.cells@[a]);
                    if self.cells@[a].key@ == key@ {
                        assert(exists|j: int| 0 <= j < mid.len() && mid[j].key@ == key@);
                    }
                }
            }
            assert(old(self).texts().remove(key@).insert(key@, TextData { value: value@, ttl })
                =~= old(self).texts().insert(key@, TextData { value: value@, ttl }));
        }
    }

    /// Removes `key` and whatever it holds, text or list.
    pub fn delete(&mut self, key: &str)
        requires
            old(self).wf(),
        ensures
            final(self).wf(),
            final(self).texts() == old(self).texts().remove(key@),
            final(self).lists() == old(self).lists().remove(key@),
    {
        self.drop_cell(key);
        match self.find_row(key) {
            Some(i) => {
                proof {
                    lemma_list_map_remove(self.rows@, i as int);
                    assert forall|a: int, b: int|
                        0 <= a < b < self.rows@.remove(i as int).len() implies self.rows@.remove(
                        i as int,
                    )[a].key@ != self.rows@.remove(i as int)[b].key@ by {
                        let s = self.rows@;
                        let a0 = if a < i { a } else { a + 1 };
                        let b0 = if b < i { b } else { b + 1 };
                        assert(s.remove(i as int)[a] == s[a0]);
                        assert(s.remove(i as int)[b] == s[b0]);
                    }
                }
                self.rows.remove(i);
            },
            None => {
                proof {
                    assert(self.lists().remove(key@) =~= self.lists());
                }
            },
        }
    }

    /// Appends `value` to the list under `key`, creating the list where the
    /// key is absent.
    pub fn list_append(&mut self, key: &str, value: &str)
        requires
            old(self).wf(),
        ensures
            final(self).wf(),
            final(self).texts() == old(self).texts(),
            final(self).lists() == old(self).lists().insert(
                key@,
                (if old(self).lists().contains_key(key@) {
                    old(self).lists()[key@]
                } else {
                    Seq::<Seq<char>>::empty()
                }).push(value@),
            ),
    {
        match self.find_row(key) {
            Some(i) => {
                proof {
                    lemma_list_map_at(self.rows@, i as int);
                    lemma_list_map_remove(self.rows@, i as int);
                    assert forall|a: int, b: int|
                        0 <= a < b < self.rows@.remove(i as int).len() implies self.rows@.remove(
                        i as int,
                    )[a].key@ != self.rows@.remove(i as int)[b].key@ by {
                        let s = self.rows@;
                        let a0 = if a < i { a } else { a + 1 };
                        let b0 = if b < i { b } else { b + 1 };
                        assert(s.remove(i as int)[a] == s[a0]);
                        assert(s.remove(i as int)[b] == s[b0]);
                    }
                }
                let mut row = self.rows.remove(i);
                let ghost old_items = row.items@;
                let ghost mid = self.rows@;
                row.items.push(value.to_owned());
                proof {
                    assert(strings_view(row.items@) =~= strings_view(old_items).push(value@));
                }
                self.rows.push(row);
                proof {
                    assert(self.rows@.drop_last() =~= mid);
                    lemma_list_map_contains(mid, key@);
                    assert forall|a: int, b: int|
                        0 <= a < b < self.rows@.len() implies self.rows@[a].key@
                        != self.rows@[b].key@ by {
                        if b < self.rows@.len() - 1 {
                            assert(mid[a] == self.rows@[a]);
                            assert(mid[b] == self.rows@[b]);
                        } else {
                            assert(mid[a] == self.rows@[a]);
                            if self.rows@[a].key@ == key@ {
                                assert(exists|j: int| 0 <= j < mid.len() && mid[j].key@ == key@);
                            }
                        }
                    }
                    assert(old(self).lists().remove(key@).insert(
                        key@,
                        strings_view(old_items).push(value@),
                    ) =~= old(self).lists().insert(
                        key@,
                        old(self).lists()[key@].push(value@),
                    ));
                }
            },
            None => {
                let mut items: Vec<String> = Vec::new();
                items.push(value.to_owned());
                let ghost before = self.rows@;
                let row = ListCell { key: key.to_owned(), items };
                self.rows.push(row);
                proof {
                    assert(self.rows@.drop_last() =~= before);
                    assert(strings_view(self.rows@.last().items@) =~= Seq::<
                        Seq<char>,
                    >::empty().push(value@));
                    lemma_list_map_contains(before, key@);
                    assert forall|a: int, b: int|
                        0 <= a < b < self.rows@.len() implies self.rows@[a].key@
                        != self.rows@[b].key@ by {
                        if b < self.rows@.len() - 1 {
                            assert(before[a] == self.rows@[a]);
                            assert(before[b] == self.rows@[b]);
                        } else {
                            assert(before[a] == self.rows@[a]);
                            if self.rows@[a].key@ == key@ {
                                assert(exists|j: int|
                                    0 <= j < before.len() && before[j].key@ == key@);
                            }
                        }
                    }
                }
            },
        }
    }

    /// The items of the list under `key`, in insertion order; an absent key
    /// reads as the empty list.
    pub fn list_range(&self, key: &str) -> (r: Vec<String>)
        requires
            self.wf(),
        ensures
            strings_view(r@) == (if self.lists().contains_key(key@) {
                self.lists()[key@]
            } else {
                Seq::<Seq<char>>::empty()
            }),
    {
        match self.find_row(key) {
            Some(i) => {
                proof {
                    lemma_list_map_at(self.rows@, i as int);
                }
                let row = &self.rows[i];
                let n = row.items.len();
                let mut out: Vec<String> = Vec::new();
                let mut j: usize = 0;
                while j < n
                    invariant
                        j <= n,
                        n == row.items@.len(),
                        out@.len() == j,
                        forall|k: int| 0 <= k < j ==> out@[k]@ == row.items@[k]@,
                    decreases n - j,
                {
                    out.push(row.items[j].clone());
                    j = j + 1;
                }
                proof {
                    assert(strings_view(out@) =~= strings_view(row.items@));
                }
                out
            },
            None => {
                let out: Vec<String> = Vec::new();
                proof {
                    assert(strings_view(out@) =~= Seq::<Seq<char>>::empty());
                }
                out
            },
        }
    }
}

} // verus!
