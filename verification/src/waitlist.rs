//! The waiting list: registration requests pending approval, stored as an
//! ordered list of serialized entries under one key, with emails unique
//! among pending entries. Removal reads the whole list, filters by email,
//! deletes the key and re-appends the survivors — not atomic, by design: a
//! concurrent submission that lands between the read and the rewrite can
//! be lost, which is accepted for administrator-paced traffic.

use vstd::prelude::*;
use vstd::string::*;
use crate::errors::Failure;
use crate::records::{building_view, decode_entry_wire, decode_waiting_entry, encode_waiting_entry, entry_wire, WaitingEntry};
use crate::store::{strings_view, RecordStore};
use crate::text::str_eq;

verus! {

/// The key the waiting list is stored under.
pub open spec fn wl_key() -> Seq<char> {
    "waiting-list"@
}

/// The stored waiting list: the raw serialized entries, an absent key
/// reading as the empty list.
pub open spec fn raw_list(lists: Map<Seq<char>, Seq<Seq<char>>>) -> Seq<Seq<char>> {
    if lists.contains_key(wl_key()) {
        lists[wl_key()]
    } else {
        Seq::empty()
    }
}

/// The fields of one decoded entry.
pub struct EntryData {
    pub name: Seq<char>,
    pub email: Seq<char>,
    pub building: Option<Seq<char>>,
    pub calls: i64,
}

/// The view of one entry.
pub open spec fn entry_view(e: WaitingEntry) -> EntryData {
    EntryData { name: e.name@, email: e.email@, building: building_view(&e), calls: e.calls }
}

/// The views of a sequence of entries.
pub open spec fn entry_views(es: Seq<WaitingEntry>) -> Seq<EntryData> {
    es.map_values(|e: WaitingEntry| entry_view(e))
}

/// All stored entries decoded, in order; nothing where any one of them is
/// malformed.
pub open spec fn decode_all(raw: Seq<Seq<char>>) -> Option<Seq<EntryData>>
    decreases raw.len(),
{
    if raw.len() == 0 {
        Some(Seq::empty())
    } else {
        match decode_all(raw.drop_last()) {
            None => None,
            Some(es) => match decode_entry_wire(raw.last()) {
                None => None,
                Some((name, email, building, calls)) => Some(
                    es.push(EntryData { name, email, building, calls }),
                ),
            },
        }
    }
}

/// Some pending entry has this email.
pub open spec fn email_listed(es: Seq<EntryData>, email: Seq<char>) -> bool {
    exists|i: int| 0 <= i < es.len() && es[i].email == email
}

/// The serialized survivors after removing every entry with this email,
/// in order.
pub open spec fn survivors(es: Seq<EntryData>, email: Seq<char>) -> Seq<Seq<char>>
    decreases es.len(),
{
    if es.len() == 0 {
        Seq::empty()
    } else {
        survivors(es.drop_last(), email) + (if es.last().email == email {
            Seq::empty()
        } else {
            seq![entry_wire(es.last().name, es.last().email, es.last().building, es.last().calls)]
        })
    }
}

/// Decodes every stored entry, in order; the first malformed one is a
/// decode fault.
pub fn entries_from(raw: &Vec<String>) -> (r: Result<Vec<WaitingEntry>, Failure>)
    ensures
        match r {
            Ok(es) => decode_all(strings_view(raw@)) == Some(entry_views(es@)),
            Err(f) => decode_all(strings_view(raw@)) is None && f == Failure::DecodeError,
        },
{
    let n = raw.len();
    let mut out: Vec<WaitingEntry> = Vec::new();
    let mut i: usize = 0;
    while i < n
        invariant
            i <= n,
            n == raw@.len(),
            decode_all(strings_view(raw@.subrange(0, i as int))) == Some(entry_views(out@)),
        decreases n - i,
    {
        let ghost prefix = raw@.subrange(0, i as int);
        match decode_waiting_entry(raw[i].as_str()) {
            Some(e) => {
                out.push(e);
            },
            None => {
                proof {
                    lemma_decode_all_prefix_fail(raw@, i as int);
                }
                return Err(Failure::DecodeError);
            },
        }
        proof {
            assert(strings_view(raw@.subrange(0, i + 1)).drop_last() =~= strings_view(prefix));
            assert(strings_view(raw@.subrange(0, i + 1)).last() == raw@[i as int]@);
            assert(entry_views(out@).drop_last() =~= entry_views(out@.drop_last()));
            assert(entry_views(out@) =~= entry_views(out@.drop_last()).push(
                entry_view(out@.last()),
            ));
        }
        i = i + 1;
    }
    proof {
        assert(raw@.subrange(0, n as int) =~= raw@);
    }
    Ok(out)
}

/// A malformed entry anywhere makes the whole list malformed.
proof fn lemma_decode_all_prefix_fail(raw: Seq<String>, i: int)
    requires
        0 <= i < raw.len(),
        decode_entry_wire(raw[i]@) is None,
    ensures
        decode_all(strings_view(raw)) is None,
    decreases raw.len(),
{
    if raw.len() > 0 {
        assert(strings_view(raw).drop_last() =~= strings_view(raw.drop_last()));
        if i < raw.len() - 1 {
            assert(raw.drop_last()[i] == raw[i]);
            lemma_decode_all_prefix_fail(raw.drop_last(), i);
        } else {
            assert(strings_view(raw).last() == raw[i]@);
        }
    }
}

/// Whether some entry of the raw stored list carries this email.
pub fn email_on_list(raw: &Vec<String>, email: &str) -> (r: Result<bool, Failure>)
    ensures
        match r {
            Ok(b) => match decode_all(strings_view(raw@)) {
                Some(es) => b == email_listed(es, email@),
                None => false,
            },
            Err(f) => decode_all(strings_view(raw@)) is None && f == Failure::DecodeError,
        },
{
    let es = match entries_from(raw) {
        Ok(es) => es,
        Err(f) => {
            return Err(f);
        },
    };
    let n = es.len();
    let mut i: usize = 0;
    while i < n
        invariant
            i <= n,
            n == es@.len(),
            decode_all(strings_view(raw@)) == Some(entry_views(es@)),
            forall|j: int| 0 <= j < i ==> entry_views(es@)[j].email != email@,
        decreases n - i,
    {
        if str_eq(es[i].email.as_str(), email) {
            proof {
                assert(entry_views(es@)[i as int].email == email@);
            }
            return Ok(true);
        }
        i = i + 1;
    }
    proof {
        if email_listed(entry_views(es@), email@) {
            let j = choose|j: int|
                0 <= j < entry_views(es@).len() && entry_views(es@)[j].email == email@;
            assert(entry_views(es@)[j].email != email@);
        }
    }
    Ok(false)
}

/// How one registration lands against the stored raw list.
pub enum SubmitPlan {
    /// Some pending entry already has this email; nothing is to change.
    Duplicate,
    /// A stored entry is malformed; nothing is to change.
    Malformed,
    /// The email is new: append this serialized entry.
    Append(String),
}

/// Decides how a registration lands against the raw stored list: a
/// duplicate email is turned away, a malformed list is a fault, and
/// otherwise the serialized entry is to be appended.
pub fn submit_plan(raw: &Vec<String>, entry: &WaitingEntry) -> (r: SubmitPlan)
    ensures
        match decode_all(strings_view(raw@)) {
            None => r == SubmitPlan::Malformed,
            Some(es) => if email_listed(es, entry.email@) {
                r == SubmitPlan::Duplicate
            } else {
                match r {
                    SubmitPlan::Append(s) => s@ == entry_wire(
                        entry.name@,
                        entry.email@,
                        building_view(entry),
                        entry.calls,
                    ),
                    _ => false,
                }
            },
        },
{
    let es = match entries_from(raw) {
        Ok(es) => es,
        Err(_) => {
            return SubmitPlan::Malformed;
        },
    };
    let n = es.len();
    let mut i: usize = 0;
    while i < n
        invariant
            i <= n,
            n == es@.len(),
            decode_all(strings_view(raw@)) == Some(entry_views(es@)),
            forall|j: int| 0 <= j < i ==> entry_views(es@)[j].email != entry.email@,
        decreases n - i,
    {
        if str_eq(es[i].email.as_str(), entry.email.as_str()) {
            proof {
                assert(entry_views(es@)[i as int].email == entry.email@);
            }
            return SubmitPlan::Duplicate;
        }
        i = i + 1;
    }
    proof {
        assert(!email_listed(entry_views(es@), entry.email@)) by {
            if email_listed(entry_views(es@), entry.email@) {
                let j = choose|j: int|
                    0 <= j < entry_views(es@).len() && entry_views(es@)[j].email == entry.email@;
                assert(entry_views(es@)[j].email != entry.email@);
            }
        }
    }
    SubmitPlan::Append(encode_waiting_entry(entry))
}

/// Puts a registration on the waiting list: turned away where a pending
/// entry already has its email, a decode fault where the stored list is
/// malformed, and appended in insertion order otherwise.
pub fn submit(store: &mut RecordStore, entry: &WaitingEntry) -> (r: Result<(), Failure>)
    requires
        old(store).wf(),
    ensures
        final(store).wf(),
        final(store).texts() == old(store).texts(),
        ({
            let raw = raw_list(old(store).lists());
            match decode_all(raw) {
                None => r == Err::<(), Failure>(Failure::DecodeError) && final(store).lists()
                    == old(store).lists(),
                Some(es) => if email_listed(es, entry.email@) {
                    r == Err::<(), Failure>(Failure::AlreadyExists) && final(store).lists() == old(
                        store,
                    ).lists()
                } else {
                    r == Ok::<(), Failure>(()) && final(store).lists() == old(
                        store,
                    ).lists().insert(
                        wl_key(),
                        raw.push(
                            entry_wire(entry.name@, entry.email@, building_view(entry), entry.calls),
                        ),
                    )
                },
            }
        }),
{
    let raw = store.list_range("waiting-list");
    match submit_plan(&raw, entry) {
        SubmitPlan::Malformed => Err(Failure::DecodeError),
        SubmitPlan::Duplicate => Err(Failure::AlreadyExists),
        SubmitPlan::Append(s) => {
            store.list_append("waiting-list", s.as_str());
            Ok(())
        },
    }
}

/// The pending registrations, in insertion order; a malformed stored entry
/// is a decode fault.
pub fn list_all(store: &RecordStore) -> (r: Result<Vec<WaitingEntry>, Failure>)
    requires
        store.wf(),
    ensures
        match r {
            Ok(es) => decode_all(raw_list(store.lists())) == Some(entry_views(es@)),
            Err(f) => decode_all(raw_list(store.lists())) is None && f == Failure::DecodeError,
        },
{
    let raw = store.list_range("waiting-list");
    entries_from(&raw)
}

/// The serialized survivors of removing `email` from the decoded raw list:
/// every entry with another email, re-serialized in order.
pub fn remove_plan(raw: &Vec<String>, email: &str) -> (r: Result<Vec<String>, Failure>)
    ensures
        match r {
            Ok(vs) => match decode_all(strings_view(raw@)) {
                Some(es) => strings_view(vs@) == survivors(es, email@),
                None => false,
            },
            Err(f) => decode_all(strings_view(raw@)) is None && f == Failure::DecodeError,
        },
{
    let es = match entries_from(raw) {
        Ok(es) => es,
        Err(_) => {
            return Err(Failure::DecodeError);
        },
    };
    let n = es.len();
    let mut out: Vec<String> = Vec::new();
    let mut i: usize = 0;
    while i < n
        invariant
            i <= n,
            n == es@.len(),
            decode_all(strings_view(raw@)) == Some(entry_views(es@)),
            strings_view(out@) == survivors(entry_views(es@.subrange(0, i as int)), email@),
        decreases n - i,
    {
        let ghost prefix = es@.subrange(0, i as int);
        let keep = !str_eq(es[i].email.as_str(), email);
        if keep {
            let s = encode_waiting_entry(&es[i]);
            out.push(s);
        }
        proof {
            assert(entry_views(es@.subrange(0, i + 1)).drop_last() =~= entry_views(prefix));
            assert(entry_views(es@.subrange(0, i + 1)).last() == entry_view(es@[i as int]));
            assert(strings_view(out@) =~= survivors(entry_views(es@.subrange(0, i + 1)), email@));
        }
        i = i + 1;
    }
    proof {
        assert(es@.subrange(0, n as int) =~= es@);
    }
    Ok(out)
}

/// Takes every entry with this email off the waiting list, by reading all
/// entries, deleting the key, and re-appending the survivors in order. An
/// empty survivor list leaves the key absent.
pub fn remove(store: &mut RecordStore, email: &str) -> (r: Result<(), Failure>)
    requires
        old(store).wf(),
    ensures
        final(store).wf(),
        ({
            let raw = raw_list(old(store).lists());
            match decode_all(raw) {
                None => r == Err::<(), Failure>(Failure::DecodeError) && final(store).lists()
                    == old(store).lists() && final(store).texts() == old(store).texts(),
                Some(es) => r == Ok::<(), Failure>(()) && final(store).texts() == old(
                    store,
                ).texts().remove(wl_key()) && final(store).lists() == (if survivors(
                    es,
                    email@,
                ).len() > 0 {
                    old(store).lists().remove(wl_key()).insert(wl_key(), survivors(es, email@))
                } else {
                    old(store).lists().remove(wl_key())
                }),
            }
        }),
{
    let raw = store.list_range("waiting-list");
    let keep = match remove_plan(&raw, email) {
        Ok(vs) => vs,
        Err(f) => {
            return Err(f);
        },
    };
    store.delete("waiting-list");
    let ghost base = store.lists();
    let n = keep.len();
    let mut i: usize = 0;
    while i < n
        invariant
            i <= n,
            n == keep@.len(),
            store.wf(),
            store.texts() == old(store).texts().remove(wl_key()),
            store.lists() == (if i == 0 {
                base
            } else {
                base.insert(wl_key(), strings_view(keep@.subrange(0, i as int)))
            }),
            base == old(store).lists().remove(wl_key()),
            !base.contains_key(wl_key()),
        decreases n - i,
    {
        store.list_append("waiting-list", keep[i].as_str());
        proof {
            assert(strings_view(keep@.subrange(0, i + 1)) =~= strings_view(
                keep@.subrange(0, i as int),
            ).push(keep@[i as int]@));
            if i == 0 {
                assert(strings_view(keep@.subrange(0, 0)) =~= Seq::<Seq<char>>::empty());
                assert(strings_view(keep@.subrange(0, 1)) =~= Seq::<Seq<char>>::empty().push(
                    keep@[0]@,
                ));
            }
            if i > 0 {
                assert(base.insert(wl_key(), strings_view(keep@.subrange(0, i as int))).insert(
                    wl_key(),
                    strings_view(keep@.subrange(0, i + 1)),
                ) =~= base.insert(wl_key(), strings_view(keep@.subrange(0, i + 1))));
            }
        }
        i = i + 1;
    }
    proof {
        assert(keep@.subrange(0, n as int) =~= keep@);
        assert(strings_view(keep@) == survivors(
            decode_all(raw_list(old(store).lists()))->0,
            email@,
        ));
        if n == 0 {
            assert(strings_view(keep@) =~= Seq::<Seq<char>>::empty());
        }
    }
    Ok(())
}

} // verus!
