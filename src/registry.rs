//! The session registry: live sessions by id, the ids ever handed out, and
//! the session commands that act on it (write, resize, close).

use vstd::prelude::*;
use vstd::string::StringExecFns;

use crate::ids::random_uuid;
use crate::session::{PtyEvent, TerminalSession};

verus! {

/// The message returned when a command names a session that is not live.
pub open spec fn not_found_message(id: Seq<char>) -> Seq<char> {
    "Session not found: "@ + id
}

/// Builds the not-found message for `id`.
pub fn not_found_error(id: &str) -> (r: String)
    ensures
        r@ == not_found_message(id@),
{
    let mut s = String::from_str("Session not found: ");
    s.append(id);
    s
}

/// How many random ids `issue_id` draws before it gives up.
pub const ID_DRAWS: usize = 8;

/// The live sessions of the process, keyed by session id, together with every
/// id that was ever handed out (so that no id is handed out twice).
pub struct SessionRegistry<R> {
    ids: Vec<String>,
    records: Vec<R>,
    issued: Vec<String>,
    model: Ghost<Map<Seq<char>, R>>,
}

impl<R> SessionRegistry<R> {
    /// The live sessions: id to record.
    pub closed spec fn sessions(&self) -> Map<Seq<char>, R> {
        self.model@
    }

    /// Every id handed out so far, live or not.
    pub closed spec fn issued_ids(&self) -> Set<Seq<char>> {
        Set::new(|k: Seq<char>| exists|i: int| 0 <= i < self.issued@.len() && self.issued@[i]@ == k)
    }

    pub closed spec fn wf(&self) -> bool {
        &&& self.ids@.len() == self.records@.len()
        &&& forall|i: int, j: int|
            0 <= i < self.ids@.len() && 0 <= j < self.ids@.len() && i != j ==> self.ids@[i]@
                != self.ids@[j]@
        &&& forall|i: int|
            0 <= i < self.ids@.len() ==> #[trigger] self.model@.contains_key(self.ids@[i]@)
                && self.model@[self.ids@[i]@] == self.records@[i]
        &&& forall|k: Seq<char>|
            #[trigger] self.model@.contains_key(k) ==> exists|i: int|
                0 <= i < self.ids@.len() && self.ids@[i]@ == k
        &&& forall|k: Seq<char>|
            #[trigger] self.model@.contains_key(k) ==> self.issued_ids().contains(k)
    }

    /// An empty registry that has issued no id.
    pub fn new() -> (r: Self)
        ensures
            r.wf(),
            r.sessions() == Map::<Seq<char>, R>::empty(),
            r.issued_ids() == Set::<Seq<char>>::empty(),
    {
        let r = SessionRegistry {
            ids: Vec::new(),
            records: Vec::new(),
            issued: Vec::new(),
            model: Ghost(Map::empty()),
        };
        assert(r.issued_ids() =~= Set::<Seq<char>>::empty());
        r
    }

    fn position(&self, id: &String) -> (r: Option<usize>)
        requires
            self.wf(),
        ensures
            match r {
                Some(i) => i < self.ids@.len() && self.ids@[i as int]@ == id@,
                None => !self.sessions().contains_key(id@),
            },
    {
        let mut i: usize = 0;
        while i < self.ids.len()
            invariant
                self.wf(),
                i <= self.ids@.len(),
                forall|j: int| 0 <= j < i ==> self.ids@[j]@ != id@,
            decreases self.ids@.len() - i,
        {
            if self.ids[i].eq(id) {
                return Some(i);
            }
            i = i + 1;
        }
        None
    }

    /// Whether `id` names a live session.
    pub fn contains(&self, id: &str) -> (r: bool)
        requires
            self.wf(),
        ensures
            r == self.sessions().contains_key(id@),
    {
        let key = String::from_str(id);
        self.position(&key).is_some()
    }

    /// The record of session `id`, if it is live.
    pub fn get(&self, id: &str) -> (r: Option<&R>)
        requires
            self.wf(),
        ensures
            match r {
                Some(rec) => self.sessions().contains_key(id@) && *rec == self.sessions()[id@],
                None => !self.sessions().contains_key(id@),
            },
    {
        let key = String::from_str(id);
        match self.position(&key) {
            Some(i) => {
                assert(self.model@.contains_key(self.ids@[i as int]@));
                Some(&self.records[i])
            },
            None => None,
        }
    }

    /// Whether no session is live.
    pub fn is_empty(&self) -> (r: bool)
        requires
            self.wf(),
        ensures
            r == (self.sessions() == Map::<Seq<char>, R>::empty()),
    {
        if self.ids.len() == 0 {
            assert(self.sessions() =~= Map::<Seq<char>, R>::empty());
            true
        } else {
            assert(self.sessions().contains_key(self.ids@[0]@));
            assert(!Map::<Seq<char>, R>::empty().contains_key(self.ids@[0]@));
            false
        }
    }

    /// Draws a random id that was never handed out before, records it as
    /// handed out, and returns it. `None` only when every one of `ID_DRAWS`
    /// draws hit an id already handed out.
    pub fn issue_id(&mut self) -> (r: Option<String>)
        requires
            old(self).wf(),
        ensures
            final(self).wf(),
            final(self).sessions() == old(self).sessions(),
            match r {
                Some(id) => {
                    &&& !old(self).issued_ids().contains(id@)
                    &&& !final(self).sessions().contains_key(id@)
                    &&& final(self).issued_ids() == old(self).issued_ids().insert(id@)
                    &&& id@.len() == 36
                },
                None => final(self).issued_ids() == old(self).issued_ids(),
            },
    {
        let mut draws: usize = 0;
        while draws < ID_DRAWS
            invariant
                self.wf(),
                self.sessions() == old(self).sessions(),
                self.issued_ids() == old(self).issued_ids(),
            decreases ID_DRAWS - draws,
        {
            let id = random_uuid();
            if !self.was_issued(id.as_str()) {
                let ghost before = self.issued_ids();
                let ghost prev = self.issued@;
                self.issued.push(id.clone());
                proof {
                    let last = self.issued@.len() - 1;
                    assert(self.issued@[last]@ == id@);
                    assert forall|k: Seq<char>|
                        self.issued_ids().contains(k) == before.insert(id@).contains(k) by {
                        if before.contains(k) {
                            let i = choose|i: int| 0 <= i < prev.len() && prev[i]@ == k;
                            assert(self.issued@[i] == prev[i]);
                        }
                        if self.issued_ids().contains(k) && k != id@ {
                            let i = choose|i: int| 0 <= i < self.issued@.len() && self.issued@[i]@ == k;
                            assert(i != last);
                            assert(self.issued@[i] == prev[i]);
                        }
                    }
                    assert(self.issued_ids() =~= before.insert(id@));
                }
                return Some(id);
            }
            draws = draws + 1;
        }
        None
    }

    /// Registers `record` under `id`. The id must have been handed out by
    /// `issue_id` and must not be live; otherwise the record is handed back.
    pub fn insert(&mut self, id: String, record: R) -> (r: Result<(), R>)
        requires
            old(self).wf(),
        ensures
            final(self).wf(),
            final(self).issued_ids() == old(self).issued_ids(),
            r.is_ok() == (old(self).issued_ids().contains(id@) && !old(self).sessions().contains_key(
                id@,
            )),
            r.is_ok() ==> final(self).sessions() == old(self).sessions().insert(id@, record),
            r.is_err() ==> final(self).sessions() == old(self).sessions() && r == Err::<(), R>(
                record,
            ),
    {
        if !self.was_issued(id.as_str()) {
            return Err(record);
        }
        match self.position(&id) {
            Some(_) => Err(record),
            None => {
                let ghost old_model = self.model@;
                let ghost key = id@;
                self.ids.push(id);
                self.records.push(record);
                self.model = Ghost(old_model.insert(key, record));
                proof {
                    let n = self.ids@.len() - 1;
                    assert(self.ids@[n]@ == key);
                    assert forall|i: int| 0 <= i < self.ids@.len() implies #[trigger] self.model@.contains_key(
                        self.ids@[i]@,
                    ) && self.model@[self.ids@[i]@] == self.records@[i] by {
                        if i < n {
                            assert(self.ids@[i] == old(self).ids@[i]);
                            assert(old_model.contains_key(self.ids@[i]@));
                        }
                    }
                    assert forall|k: Seq<char>| #[trigger] self.model@.contains_key(k) implies exists|i: int|
                        0 <= i < self.ids@.len() && self.ids@[i]@ == k by {
                        if k != key {
                            let i = choose|i: int| 0 <= i < old(self).ids@.len() && old(self).ids@[i]@ == k;
                            assert(self.ids@[i] == old(self).ids@[i]);
                        }
                    }
                }
                Ok(())
            },
        }
    }

    /// Takes the session `id` out of the registry and hands its record back;
    /// `None`, with nothing changed, when `id` is not live.
    pub fn remove(&mut self, id: &str) -> (r: Option<R>)
        requires
            old(self).wf(),
        ensures
            final(self).wf(),
            final(self).issued_ids() == old(self).issued_ids(),
            final(self).sessions() == old(self).sessions().remove(id@),
            match r {
                Some(rec) => old(self).sessions().contains_key(id@) && rec == old(self).sessions()[id@],
                None => !old(self).sessions().contains_key(id@),
            },
    {
        let key = String::from_str(id);
        match self.position(&key) {
            None => {
                assert(self.sessions().remove(id@) =~= self.sessions());
                None
            },
            Some(i) => {
                let ghost old_model = self.model@;
                assert(old_model.contains_key(old(self).ids@[i as int]@));
                let _ = self.ids.remove(i);
                let rec = self.records.remove(i);
                self.model = Ghost(old_model.remove(id@));
                proof {
                    assert forall|a: int, b: int|
                        0 <= a < self.ids@.len() && 0 <= b < self.ids@.len() && a != b implies self.ids@[a]@
                        != self.ids@[b]@ by {
                        let oa = if a < i { a } else { a + 1 };
                        let ob = if b < i { b } else { b + 1 };
                        assert(self.ids@[a] == old(self).ids@[oa]);
                        assert(self.ids@[b] == old(self).ids@[ob]);
                    }
                    assert forall|j: int| 0 <= j < self.ids@.len() implies #[trigger] self.model@.contains_key(
                        self.ids@[j]@,
                    ) && self.model@[self.ids@[j]@] == self.records@[j] by {
                        let oj = if j < i { j } else { j + 1 };
                        assert(self.ids@[j] == old(self).ids@[oj]);
                        assert(self.records@[j] == old(self).records@[oj]);
                        assert(old(self).ids@[oj]@ != old(self).ids@[i as int]@);
                        assert(old_model.contains_key(old(self).ids@[oj]@));
                    }
                    assert forall|k: Seq<char>| #[trigger] self.model@.contains_key(k) implies exists|j: int|
                        0 <= j < self.ids@.len() && self.ids@[j]@ == k by {
                        let oj = choose|oj: int| 0 <= oj < old(self).ids@.len() && old(self).ids@[oj]@ == k;
                        assert(oj != i);
                        let j = if oj < i { oj } else { oj - 1 };
                        assert(self.ids@[j] == old(self).ids@[oj]);
                    }
                }
                Some(rec)
            },
        }
    }

    /// After the record at position `i` was replaced (and the model updated at
    /// its key), the registry is still well formed.
    proof fn lemma_replaced(&self, prev: Self, i: int)
        requires
            prev.wf(),
            0 <= i < prev.ids@.len(),
            self.ids == prev.ids,
            self.issued == prev.issued,
            self.records@.len() == prev.records@.len(),
            forall|j: int| 0 <= j < self.records@.len() && j != i ==> self.records@[j] == prev.records@[j],
            self.model@ == prev.model@.insert(prev.ids@[i]@, self.records@[i]),
        ensures
            self.wf(),
            self.issued_ids() == prev.issued_ids(),
            self.sessions().dom() == prev.sessions().dom(),
    {
        assert(prev.model@.contains_key(prev.ids@[i]@));
        assert(self.sessions().dom() =~= prev.sessions().dom());
        assert(self.issued_ids() =~= prev.issued_ids());
        assert forall|j: int| 0 <= j < self.ids@.len() implies #[trigger] self.model@.contains_key(
            self.ids@[j]@,
        ) && self.model@[self.ids@[j]@] == self.records@[j] by {
            assert(prev.model@.contains_key(prev.ids@[j]@));
        }
    }

    /// Whether `id` was ever handed out.
    pub fn was_issued(&self, id: &str) -> (r: bool)
        ensures
            r == self.issued_ids().contains(id@),
    {
        let key = String::from_str(id);
        let mut i: usize = 0;
        while i < self.issued.len()
            invariant
                i <= self.issued@.len(),
                key@ == id@,
                forall|j: int| 0 <= j < i ==> self.issued@[j]@ != key@,
            decreases self.issued@.len() - i,
        {
            if self.issued[i].eq(&key) {
                assert(self.issued@[i as int]@ == id@);
                return true;
            }
            i = i + 1;
        }
        false
    }
}

/// Writes `data` to the input of session `id`. Fails with the not-found
/// message, changing nothing, when `id` is not live; otherwise the result
/// is that of the session's own write, and no other session is touched.
pub fn write_to_terminal<R: TerminalSession>(
    registry: &mut SessionRegistry<R>,
    id: &str,
    data: &str,
) -> (r: Result<(), String>)
    requires
        old(registry).wf(),
    ensures
        final(registry).wf(),
        final(registry).issued_ids() == old(registry).issued_ids(),
        final(registry).sessions().dom() == old(registry).sessions().dom(),
        forall|k: Seq<char>|
            k != id@ && #[trigger] old(registry).sessions().contains_key(k) ==> final(registry).sessions()[k]
                == old(registry).sessions()[k],
        !old(registry).sessions().contains_key(id@) ==> {
            &&& *final(registry) == *old(registry)
            &&& r matches Err(e) && e@ == not_found_message(id@)
        },
        old(registry).sessions().contains_key(id@) ==> {
            let before = old(registry).sessions()[id@];
            let after = final(registry).sessions()[id@];
            &&& after.writes() == before.writes().push((data@, r is Ok))
            &&& after.resizes() == before.resizes()
            &&& after.is_shut_down() == before.is_shut_down()
        },
{
    let key = String::from_str(id);
    match registry.position(&key) {
        None => Err(not_found_error(id)),
        Some(i) => {
            let ghost old_model = registry.model@;
            assert(old_model.contains_key(registry.ids@[i as int]@));
            let mut rec = registry.records.remove(i);
            let res = rec.write_input(data);
            registry.records.insert(i, rec);
            registry.model = Ghost(old_model.insert(id@, rec));
            proof { registry.lemma_replaced(*old(registry), i as int); }
            res
        },
    }
}

/// Resizes the PTY of session `id`. Fails with the not-found message,
/// changing nothing, when `id` is not live; otherwise the result is that of
/// the session's own resize, and no other session is touched.
pub fn resize_terminal<R: TerminalSession>(
    registry: &mut SessionRegistry<R>,
    id: &str,
    rows: u16,
    cols: u16,
) -> (r: Result<(), String>)
    requires
        old(registry).wf(),
    ensures
        final(registry).wf(),
        final(registry).issued_ids() == old(registry).issued_ids(),
        final(registry).sessions().dom() == old(registry).sessions().dom(),
        forall|k: Seq<char>|
            k != id@ && #[trigger] old(registry).sessions().contains_key(k) ==> final(registry).sessions()[k]
                == old(registry).sessions()[k],
        !old(registry).sessions().contains_key(id@) ==> {
            &&& *final(registry) == *old(registry)
            &&& r matches Err(e) && e@ == not_found_message(id@)
        },
        old(registry).sessions().contains_key(id@) ==> {
            let before = old(registry).sessions()[id@];
            let after = final(registry).sessions()[id@];
            &&& after.resizes() == before.resizes().push((rows, cols, r is Ok))
            &&& after.writes() == before.writes()
            &&& after.is_shut_down() == before.is_shut_down()
        },
{
    let key = String::from_str(id);
    match registry.position(&key) {
        None => Err(not_found_error(id)),
        Some(i) => {
            let ghost old_model = registry.model@;
            assert(old_model.contains_key(registry.ids@[i as int]@));
            let mut rec = registry.records.remove(i);
            let res = rec.resize(rows, cols);
            registry.records.insert(i, rec);
            registry.model = Ghost(old_model.insert(id@, rec));
            proof { registry.lemma_replaced(*old(registry), i as int); }
            res
        },
    }
}

/// Ends session `id`: takes it out of the registry, asks its output pump to
/// stop and kills its child, and returns the closed event to emit with the
/// record, now shut down (dropping it releases the PTY). Closing an id that
/// is not live changes nothing and returns nothing.
pub fn close_terminal<R: TerminalSession>(registry: &mut SessionRegistry<R>, id: &str) -> (r: Option<
    (PtyEvent, R),
>)
    requires
        old(registry).wf(),
    ensures
        final(registry).wf(),
        final(registry).issued_ids() == old(registry).issued_ids(),
        final(registry).sessions() == old(registry).sessions().remove(id@),
        r.is_some() == old(registry).sessions().contains_key(id@),
        r matches Some((e, rec)) ==> {
            let before = old(registry).sessions()[id@];
            &&& e.is_closed_for(id@)
            &&& rec.is_shut_down()
            &&& rec.writes() == before.writes()
            &&& rec.resizes() == before.resizes()
        },
{
    match registry.remove(id) {
        Some(mut rec) => {
            rec.shut_down();
            Some((PtyEvent::Closed { session_id: String::from_str(id) }, rec))
        },
        None => None,
    }
}

/// Closing a session twice: once the first close has taken `id` out, the
/// second finds it absent, so it returns no event and changes nothing.
pub proof fn lemma_close_twice<R>(sessions: Map<Seq<char>, R>, id: Seq<char>)
    ensures
        !sessions.remove(id).contains_key(id),
        sessions.remove(id).remove(id) == sessions.remove(id),
{
    assert(sessions.remove(id).remove(id) =~= sessions.remove(id));
}

/// The live sessions and the number of closed events after `close_terminal`
/// was called on each id of `ids` in turn, starting from `sessions`.
pub open spec fn close_each<R>(sessions: Map<Seq<char>, R>, ids: Seq<Seq<char>>) -> (Map<
    Seq<char>,
    R,
>, nat)
    decreases ids.len(),
{
    if ids.len() == 0 {
        (sessions, 0)
    } else {
        let (rest, events) = close_each(sessions, ids.drop_last());
        (rest.remove(ids.last()), events + if rest.contains_key(ids.last()) {
            1nat
        } else {
            0nat
        })
    }
}

proof fn lemma_close_each_prefix<R>(sessions: Map<Seq<char>, R>, ids: Seq<Seq<char>>)
    requires
        ids.no_duplicates(),
        forall|i: int| 0 <= i < ids.len() ==> sessions.contains_key(#[trigger] ids[i]),
    ensures
        close_each(sessions, ids).0 == sessions.remove_keys(ids.to_set()),
        close_each(sessions, ids).1 == ids.len(),
    decreases ids.len(),
{
    if ids.len() == 0 {
        assert(sessions.remove_keys(ids.to_set()) =~= sessions);
    } else {
        let front = ids.drop_last();
        assert forall|i: int| 0 <= i < front.len() implies sessions.contains_key(#[trigger] front[i]) by {
            assert(front[i] == ids[i]);
        }
        lemma_close_each_prefix(sessions, front);
        let last = ids.last();
        assert(!front.contains(last)) by {
            if front.contains(last) {
                let j = choose|j: int| 0 <= j < front.len() && front[j] == last;
                assert(ids[j] == ids[ids.len() - 1]);
            }
        }
        assert(ids.to_set() =~= front.to_set().insert(last)) by {
            assert forall|k: Seq<char>| ids.to_set().contains(k) implies front.to_set().insert(
                last,
            ).contains(k) by {
                let j = choose|j: int| 0 <= j < ids.len() && ids[j] == k;
                if j < ids.len() - 1 {
                    assert(front[j] == k);
                }
            }
            assert forall|k: Seq<char>| front.to_set().insert(last).contains(k) implies ids.to_set().contains(
                k,
            ) by {
                if k == last {
                    assert(ids[ids.len() - 1] == k);
                } else {
                    let j = choose|j: int| 0 <= j < front.len() && front[j] == k;
                    assert(ids[j] == k);
                }
            }
        }
        assert(sessions.contains_key(ids[ids.len() - 1]));
        assert(sessions.remove_keys(front.to_set()).contains_key(last));
        assert(sessions.remove_keys(front.to_set()).remove(last) =~= sessions.remove_keys(
            ids.to_set(),
        ));
    }
}

/// Closing every live session once, in any order, leaves no session live and
/// yields exactly one closed event per session.
pub proof fn lemma_close_all<R>(sessions: Map<Seq<char>, R>, ids: Seq<Seq<char>>)
    requires
        ids.no_duplicates(),
        ids.to_set() == sessions.dom(),
    ensures
        close_each(sessions, ids).0 == Map::<Seq<char>, R>::empty(),
        close_each(sessions, ids).1 == ids.len(),
{
    assert forall|i: int| 0 <= i < ids.len() implies sessions.contains_key(#[trigger] ids[i]) by {
        assert(ids.to_set().contains(ids[i]));
    }
    lemma_close_each_prefix(sessions, ids);
    assert(sessions.remove_keys(ids.to_set()) =~= Map::<Seq<char>, R>::empty());
}

} // verus!
