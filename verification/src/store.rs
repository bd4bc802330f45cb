//! The mapping store: the persisted table that links a (board, original
//! message) pair to the derived message that was posted for it, together
//! with the last committed qualifying count.
//!
//! The store's one invariant is that the (board, original message) key is
//! unique: a starred entry exists exactly when a derived message is
//! believed to exist. Upsert is idempotent; on a key conflict it
//! overwrites the derived-message id and the count only, keeping the
//! author and channel as first recorded. Deletion exists in two forms,
//! by key and by derived-message id: the latter supports cleanup when the
//! board cannot be re-derived from the event.

use vstd::prelude::*;

verus! {

/// One persisted row: a board's derived copy of one original message.
#[derive(Clone, Copy, Debug, PartialEq, Eq, Structural)]
pub struct StarredEntry {
    /// The board (its watch channel id); half of the unique key.
    pub board_id: i64,
    /// The original message; the other half of the unique key.
    pub message_id: i64,
    /// The derived message posted in the board's channel.
    pub derived_message_id: i64,
    /// The original message's author, as first recorded.
    pub author_id: i64,
    /// The original message's channel, as first recorded.
    pub channel_id: i64,
    /// The qualifying count last committed for this entry.
    pub count: i64,
}

/// Whether an entry carries the given (board, original message) key.
pub open spec fn key_matches(e: StarredEntry, board_id: i64, message_id: i64) -> bool {
    e.board_id == board_id && e.message_id == message_id
}

/// The first entry with the given key, if any.
pub open spec fn spec_lookup(
    s: Seq<StarredEntry>,
    board_id: i64,
    message_id: i64,
) -> Option<StarredEntry>
    decreases s.len(),
{
    if s.len() == 0 {
        None
    } else if key_matches(s[0], board_id, message_id) {
        Some(s[0])
    } else {
        spec_lookup(s.drop_first(), board_id, message_id)
    }
}

/// Whether any entry carries the given key.
pub open spec fn spec_has_key(s: Seq<StarredEntry>, board_id: i64, message_id: i64) -> bool {
    spec_lookup(s, board_id, message_id) is Some
}

/// No two entries share a (board, original message) key.
pub open spec fn key_unique(s: Seq<StarredEntry>) -> bool {
    forall|i: int, j: int|
        0 <= i < j < s.len() ==> !key_matches(
            #[trigger] s[i],
            (#[trigger] s[j]).board_id,
            s[j].message_id,
        )
}

/// What a conflicting upsert writes: the derived-message id and count
/// come from the new row, everything else stays as first recorded.
pub open spec fn spec_merge(o: StarredEntry, e: StarredEntry) -> StarredEntry {
    StarredEntry {
        board_id: o.board_id,
        message_id: o.message_id,
        derived_message_id: e.derived_message_id,
        author_id: o.author_id,
        channel_id: o.channel_id,
        count: e.count,
    }
}

/// The entries that remain after deleting by key.
pub open spec fn spec_remove_key(
    s: Seq<StarredEntry>,
    board_id: i64,
    message_id: i64,
) -> Seq<StarredEntry>
    decreases s.len(),
{
    if s.len() == 0 {
        Seq::empty()
    } else {
        let rest = spec_remove_key(s.drop_first(), board_id, message_id);
        if key_matches(s[0], board_id, message_id) {
            rest
        } else {
            seq![s[0]] + rest
        }
    }
}

/// The entries that remain after deleting by derived-message id.
pub open spec fn spec_remove_derived(s: Seq<StarredEntry>, derived_id: i64) -> Seq<StarredEntry>
    decreases s.len(),
{
    if s.len() == 0 {
        Seq::empty()
    } else {
        let rest = spec_remove_derived(s.drop_first(), derived_id);
        if s[0].derived_message_id == derived_id {
            rest
        } else {
            seq![s[0]] + rest
        }
    }
}

/// Every entry recorded for one original message, over all boards.
pub open spec fn spec_for_message(s: Seq<StarredEntry>, message_id: i64) -> Seq<StarredEntry>
    decreases s.len(),
{
    if s.len() == 0 {
        Seq::empty()
    } else {
        let rest = spec_for_message(s.drop_first(), message_id);
        if s[0].message_id == message_id {
            seq![s[0]] + rest
        } else {
            rest
        }
    }
}

/// An entry at some index gives the key.
pub proof fn lemma_index_implies_has_key(
    s: Seq<StarredEntry>,
    i: int,
    board_id: i64,
    message_id: i64,
)
    requires
        0 <= i < s.len(),
        key_matches(s[i], board_id, message_id),
    ensures
        spec_has_key(s, board_id, message_id),
    decreases s.len(),
{
    if i > 0 && !key_matches(s[0], board_id, message_id) {
        lemma_index_implies_has_key(s.drop_first(), i - 1, board_id, message_id);
    }
}

/// A successful lookup names an entry that stands at some index.
pub proof fn lemma_lookup_some_implies_index(
    s: Seq<StarredEntry>,
    board_id: i64,
    message_id: i64,
)
    requires
        spec_has_key(s, board_id, message_id),
    ensures
        exists|i: int|
            0 <= i < s.len() && #[trigger] s[i] == spec_lookup(s, board_id, message_id)->0
                && key_matches(s[i], board_id, message_id),
    decreases s.len(),
{
    if !key_matches(s[0], board_id, message_id) {
        lemma_lookup_some_implies_index(s.drop_first(), board_id, message_id);
        let j = choose|j: int|
            0 <= j < s.drop_first().len() && #[trigger] s.drop_first()[j] == spec_lookup(
                s.drop_first(),
                board_id,
                message_id,
            )->0 && key_matches(s.drop_first()[j], board_id, message_id);
        assert(s[j + 1] == s.drop_first()[j]);
    }
}

/// A failed lookup means no entry matches, at any index.
pub proof fn lemma_lookup_none_implies_no_match(
    s: Seq<StarredEntry>,
    board_id: i64,
    message_id: i64,
)
    requires
        !spec_has_key(s, board_id, message_id),
    ensures
        forall|i: int| 0 <= i < s.len() ==> !key_matches(#[trigger] s[i], board_id, message_id),
{
    assert forall|i: int| 0 <= i < s.len() implies !key_matches(
        #[trigger] s[i],
        board_id,
        message_id,
    ) by {
        if key_matches(s[i], board_id, message_id) {
            lemma_index_implies_has_key(s, i, board_id, message_id);
        }
    }
}

/// Under uniqueness, the entry at a matching index is what lookup finds.
pub proof fn lemma_unique_lookup_at_index(
    s: Seq<StarredEntry>,
    k: int,
    board_id: i64,
    message_id: i64,
)
    requires
        key_unique(s),
        0 <= k < s.len(),
        key_matches(s[k], board_id, message_id),
    ensures
        spec_lookup(s, board_id, message_id) == Some(s[k]),
    decreases s.len(),
{
    if k == 0 {
    } else {
        assert(!key_matches(s[0], s[k].board_id, s[k].message_id));
        assert(key_unique(s.drop_first())) by {
            assert forall|i: int, j: int| 0 <= i < j < s.drop_first().len() implies !key_matches(
                #[trigger] s.drop_first()[i],
                (#[trigger] s.drop_first()[j]).board_id,
                s.drop_first()[j].message_id,
            ) by {
                assert(s.drop_first()[i] == s[i + 1]);
                assert(s.drop_first()[j] == s[j + 1]);
            }
        }
        assert(s.drop_first()[k - 1] == s[k]);
        lemma_unique_lookup_at_index(s.drop_first(), k - 1, board_id, message_id);
    }
}

/// Uniqueness restricted to the tail.
pub proof fn lemma_key_unique_drop_first(s: Seq<StarredEntry>)
    requires
        key_unique(s),
        s.len() > 0,
    ensures
        key_unique(s.drop_first()),
{
    assert forall|i: int, j: int| 0 <= i < j < s.drop_first().len() implies !key_matches(
        #[trigger] s.drop_first()[i],
        (#[trigger] s.drop_first()[j]).board_id,
        s.drop_first()[j].message_id,
    ) by {
        assert(s.drop_first()[i] == s[i + 1]);
        assert(s.drop_first()[j] == s[j + 1]);
    }
}

/// What lookup sees after appending one entry at the end.
pub proof fn lemma_lookup_push(
    s: Seq<StarredEntry>,
    e: StarredEntry,
    board_id: i64,
    message_id: i64,
)
    ensures
        spec_lookup(s.push(e), board_id, message_id) == (if spec_has_key(s, board_id, message_id) {
            spec_lookup(s, board_id, message_id)
        } else if key_matches(e, board_id, message_id) {
            Some(e)
        } else {
            None::<StarredEntry>
        }),
    decreases s.len(),
{
    if s.len() == 0 {
        assert(s.push(e)[0] == e);
        assert(s.push(e).drop_first() =~= Seq::<StarredEntry>::empty());
    } else {
        assert(s.push(e)[0] == s[0]);
        assert(s.push(e).drop_first() =~= s.drop_first().push(e));
        lemma_lookup_push(s.drop_first(), e, board_id, message_id);
    }
}

/// What lookup sees after replacing the entry at `k` with one that
/// carries the same key.
pub proof fn lemma_lookup_update(
    s: Seq<StarredEntry>,
    k: int,
    v: StarredEntry,
    board_id: i64,
    message_id: i64,
)
    requires
        key_unique(s),
        0 <= k < s.len(),
        v.board_id == s[k].board_id,
        v.message_id == s[k].message_id,
    ensures
        spec_lookup(s.update(k, v), board_id, message_id) == (if key_matches(
            v,
            board_id,
            message_id,
        ) {
            Some(v)
        } else {
            spec_lookup(s, board_id, message_id)
        }),
    decreases s.len(),
{
    let t = s.update(k, v);
    if k == 0 {
        assert(t[0] == v);
        assert(t.drop_first() =~= s.drop_first());
        if key_matches(v, board_id, message_id) {
        } else {
            assert(!key_matches(s[0], board_id, message_id));
        }
    } else {
        assert(t[0] == s[0]);
        assert(t.drop_first() =~= s.drop_first().update(k - 1, v));
        lemma_key_unique_drop_first(s);
        assert(s.drop_first()[k - 1] == s[k]);
        lemma_lookup_update(s.drop_first(), k - 1, v, board_id, message_id);
        if key_matches(s[0], board_id, message_id) {
            // The head already holds the key, so by uniqueness the
            // replaced entry at k cannot also hold it.
            assert(!key_matches(s[k], s[0].board_id, s[0].message_id));
        }
    }
}

/// Replacing an entry with one of the same key keeps keys unique.
pub proof fn lemma_update_same_key_unique(s: Seq<StarredEntry>, k: int, v: StarredEntry)
    requires
        key_unique(s),
        0 <= k < s.len(),
        v.board_id == s[k].board_id,
        v.message_id == s[k].message_id,
    ensures
        key_unique(s.update(k, v)),
{
    let t = s.update(k, v);
    assert forall|i: int, j: int| 0 <= i < j < t.len() implies !key_matches(
        #[trigger] t[i],
        (#[trigger] t[j]).board_id,
        t[j].message_id,
    ) by {
        assert(t[i].board_id == s[i].board_id && t[i].message_id == s[i].message_id);
        assert(t[j].board_id == s[j].board_id && t[j].message_id == s[j].message_id);
        assert(!key_matches(s[i], s[j].board_id, s[j].message_id));
    }
}

/// Appending an entry whose key is absent keeps keys unique.
pub proof fn lemma_push_new_key_unique(s: Seq<StarredEntry>, e: StarredEntry)
    requires
        key_unique(s),
        !spec_has_key(s, e.board_id, e.message_id),
    ensures
        key_unique(s.push(e)),
{
    lemma_lookup_none_implies_no_match(s, e.board_id, e.message_id);
    let t = s.push(e);
    assert forall|i: int, j: int| 0 <= i < j < t.len() implies !key_matches(
        #[trigger] t[i],
        (#[trigger] t[j]).board_id,
        t[j].message_id,
    ) by {
        if j < s.len() {
            assert(t[i] == s[i] && t[j] == s[j]);
            assert(!key_matches(s[i], s[j].board_id, s[j].message_id));
        } else {
            assert(t[i] == s[i] && t[j] == e);
        }
    }
}

/// Everything left after a removal stood in the source.
pub proof fn lemma_remove_derived_element_of(s: Seq<StarredEntry>, derived_id: i64, i: int)
    requires
        0 <= i < spec_remove_derived(s, derived_id).len(),
    ensures
        exists|j: int|
            0 <= j < s.len() && #[trigger] s[j] == spec_remove_derived(s, derived_id)[i],
        spec_remove_derived(s, derived_id)[i].derived_message_id != derived_id,
    decreases s.len(),
{
    let r = spec_remove_derived(s, derived_id);
    let rest = spec_remove_derived(s.drop_first(), derived_id);
    if s[0].derived_message_id == derived_id {
        lemma_remove_derived_element_of(s.drop_first(), derived_id, i);
        let j = choose|j: int|
            0 <= j < s.drop_first().len() && #[trigger] s.drop_first()[j] == rest[i];
        assert(s[j + 1] == rest[i]);
    } else {
        if i == 0 {
            assert(r[0] == s[0]);
        } else {
            assert(r[i] == rest[i - 1]);
            lemma_remove_derived_element_of(s.drop_first(), derived_id, i - 1);
            let j = choose|j: int|
                0 <= j < s.drop_first().len() && #[trigger] s.drop_first()[j] == rest[i - 1];
            assert(s[j + 1] == rest[i - 1]);
        }
    }
}

/// Every entry that carries the message id is kept by `spec_for_message`.
pub proof fn lemma_for_message_complete(s: Seq<StarredEntry>, message_id: i64)
    ensures
        forall|j: int|
            0 <= j < s.len() && (#[trigger] s[j]).message_id == message_id ==> spec_for_message(
                s,
                message_id,
            ).contains(s[j]),
    decreases s.len(),
{
    if s.len() > 0 {
        lemma_for_message_complete(s.drop_first(), message_id);
        let rest = spec_for_message(s.drop_first(), message_id);
        let r = spec_for_message(s, message_id);
        assert forall|j: int|
            0 <= j < s.len() && (#[trigger] s[j]).message_id == message_id implies r.contains(
            s[j],
        ) by {
            if j == 0 {
                assert(s[0].message_id == message_id);
                assert(r[0] == s[0]);
            } else {
                assert(s.drop_first()[j - 1] == s[j]);
                assert(rest.contains(s[j]));
                let k = choose|k: int| 0 <= k < rest.len() && rest[k] == s[j];
                if s[0].message_id == message_id {
                    assert(r[k + 1] == rest[k]);
                } else {
                    assert(r[k] == rest[k]);
                }
            }
        }
    }
}

/// The persisted mapping from (board, original message) to the derived
/// message, modelled as the table the engine reconciles against.
pub struct MappingStore {
    entries: Vec<StarredEntry>,
}

impl View for MappingStore {
    type V = Seq<StarredEntry>;

    closed spec fn view(&self) -> Seq<StarredEntry> {
        self.entries@
    }
}

impl MappingStore {
    /// The store's invariant: one entry per (board, original message).
    pub open spec fn wf(&self) -> bool {
        key_unique(self@)
    }

    /// An empty store.
    pub fn new() -> (s: MappingStore)
        ensures
            s@ == Seq::<StarredEntry>::empty(),
            s.wf(),
    {
        MappingStore { entries: Vec::new() }
    }

    /// How many entries are persisted.
    pub fn entry_count(&self) -> (n: usize)
        ensures
            n == self@.len(),
    {
        self.entries.len()
    }

    /// Looks the key up; returns the entry when one is persisted.
    pub fn find(&self, board_id: i64, message_id: i64) -> (r: Option<StarredEntry>)
        ensures
            r == spec_lookup(self@, board_id, message_id),
    {
        let ghost all = self@;
        let mut i: usize = 0;
        proof {
            assert(all.skip(0int) =~= all);
        }
        while i < self.entries.len()
            invariant
                i <= self.entries.len(),
                all == self@,
                spec_lookup(all, board_id, message_id) == spec_lookup(
                    all.skip(i as int),
                    board_id,
                    message_id,
                ),
            decreases self.entries.len() - i,
        {
            let e = &self.entries[i];
            proof {
                assert(all.skip(i as int)[0] == all[i as int]);
                assert(all.skip(i as int).drop_first() =~= all.skip(i + 1));
            }
            if e.board_id == board_id && e.message_id == message_id {
                return Some(*e);
            }
            i += 1;
        }
        proof {
            assert(all.skip(self.entries.len() as int) =~= Seq::<StarredEntry>::empty());
        }
        None
    }

    /// Records or refreshes the entry for `(e.board_id, e.message_id)`.
    ///
    /// Idempotent: on a key conflict only the derived-message id and the
    /// count are overwritten; author and channel stay as first recorded.
    pub fn upsert(&mut self, e: StarredEntry)
        requires
            old(self).wf(),
        ensures
            final(self).wf(),
            spec_has_key(old(self)@, e.board_id, e.message_id) ==> exists|k: int|
                0 <= k < old(self)@.len() && key_matches(
                    #[trigger] old(self)@[k],
                    e.board_id,
                    e.message_id,
                ) && final(self)@ == old(self)@.update(k, spec_merge(old(self)@[k], e)),
            !spec_has_key(old(self)@, e.board_id, e.message_id) ==> final(self)@ == old(
                self,
            )@.push(e),
            spec_lookup(final(self)@, e.board_id, e.message_id) == Some(
                if spec_has_key(old(self)@, e.board_id, e.message_id) {
                    spec_merge(spec_lookup(old(self)@, e.board_id, e.message_id)->0, e)
                } else {
                    e
                },
            ),
            forall|b: i64, m: i64|
                !(b == e.board_id && m == e.message_id) ==> #[trigger] spec_lookup(
                    final(self)@,
                    b,
                    m,
                ) == spec_lookup(old(self)@, b, m),
            final(self)@.len() == old(self)@.len() + (if spec_has_key(
                old(self)@,
                e.board_id,
                e.message_id,
            ) {
                0int
            } else {
                1int
            }),
    {
        let ghost all = self@;
        let mut i: usize = 0;
        proof {
            assert(all.skip(0int) =~= all);
        }
        while i < self.entries.len()
            invariant
                i <= self.entries.len(),
                all == self@,
                old(self)@ == self@,
                self.wf(),
                spec_lookup(all, e.board_id, e.message_id) == spec_lookup(
                    all.skip(i as int),
                    e.board_id,
                    e.message_id,
                ),
            decreases self.entries.len() - i,
        {
            let o = self.entries[i];
            proof {
                assert(all.skip(i as int)[0] == all[i as int]);
                assert(all.skip(i as int).drop_first() =~= all.skip(i + 1));
            }
            if o.board_id == e.board_id && o.message_id == e.message_id {
                let merged = StarredEntry {
                    board_id: o.board_id,
                    message_id: o.message_id,
                    derived_message_id: e.derived_message_id,
                    author_id: o.author_id,
                    channel_id: o.channel_id,
                    count: e.count,
                };
                proof {
                    assert(merged == spec_merge(all[i as int], e));
                    lemma_unique_lookup_at_index(all, i as int, e.board_id, e.message_id);
                    lemma_update_same_key_unique(all, i as int, merged);
                    lemma_lookup_update(
                        all,
                        i as int,
                        merged,
                        e.board_id,
                        e.message_id,
                    );
                    assert forall|b: i64, m: i64|
                        !(b == e.board_id && m == e.message_id) implies #[trigger] spec_lookup(
                        all.update(i as int, merged),
                        b,
                        m,
                    ) == spec_lookup(all, b, m) by {
                        lemma_lookup_update(all, i as int, merged, b, m);
                    }
                }
                self.entries.set(i, merged);
                return ;
            }
            i += 1;
        }
        proof {
            assert(all.skip(self.entries.len() as int) =~= Seq::<StarredEntry>::empty());
            assert(!spec_has_key(all, e.board_id, e.message_id));
            lemma_push_new_key_unique(all, e);
            lemma_lookup_push(all, e, e.board_id, e.message_id);
            assert forall|b: i64, m: i64|
                !(b == e.board_id && m == e.message_id) implies #[trigger] spec_lookup(
                all.push(e),
                b,
                m,
            ) == spec_lookup(all, b, m) by {
                lemma_lookup_push(all, e, b, m);
            }
        }
        self.entries.push(e);
    }

    /// Deletes the entry with the given key, if one is persisted.
    pub fn delete_key(&mut self, board_id: i64, message_id: i64)
        requires
            old(self).wf(),
        ensures
            final(self).wf(),
            final(self)@ == spec_remove_key(old(self)@, board_id, message_id),
    {
        let ghost all = self@;
        let mut kept: Vec<StarredEntry> = Vec::new();
        let mut i: usize = 0;
        proof {
            assert(all.skip(0int) =~= all);
            assert(kept@ =~= Seq::<StarredEntry>::empty());
            assert(Seq::<StarredEntry>::empty() + spec_remove_key(all, board_id, message_id)
                =~= spec_remove_key(all, board_id, message_id));
        }
        while i < self.entries.len()
            invariant
                i <= self.entries.len(),
                all == self@,
                spec_remove_key(all, board_id, message_id) == kept@ + spec_remove_key(
                    all.skip(i as int),
                    board_id,
                    message_id,
                ),
            decreases self.entries.len() - i,
        {
            let e = self.entries[i];
            proof {
                assert(all.skip(i as int)[0] == all[i as int]);
                assert(all.skip(i as int).drop_first() =~= all.skip(i + 1));
            }
            if !(e.board_id == board_id && e.message_id == message_id) {
                proof {
                    assert(kept@ + (seq![e] + spec_remove_key(
                        all.skip(i + 1),
                        board_id,
                        message_id,
                    )) =~= kept@.push(e) + spec_remove_key(all.skip(i + 1), board_id, message_id));
                }
                kept.push(e);
            }
            i += 1;
        }
        proof {
            assert(all.skip(self.entries.len() as int) =~= Seq::<StarredEntry>::empty());
            assert(kept@ + Seq::<StarredEntry>::empty() =~= kept@);
            lemma_remove_key_unique_helper(all, board_id, message_id);
        }
        self.entries = kept;
    }

    /// Deletes every entry that points at the given derived message.
    pub fn delete_by_derived(&mut self, derived_id: i64)
        requires
            old(self).wf(),
        ensures
            final(self).wf(),
            final(self)@ == spec_remove_derived(old(self)@, derived_id),
    {
        let ghost all = self@;
        let mut kept: Vec<StarredEntry> = Vec::new();
        let mut i: usize = 0;
        proof {
            assert(all.skip(0int) =~= all);
            assert(kept@ =~= Seq::<StarredEntry>::empty());
            assert(Seq::<StarredEntry>::empty() + spec_remove_derived(all, derived_id)
                =~= spec_remove_derived(all, derived_id));
        }
        while i < self.entries.len()
            invariant
                i <= self.entries.len(),
                all == self@,
                spec_remove_derived(all, derived_id) == kept@ + spec_remove_derived(
                    all.skip(i as int),
                    derived_id,
                ),
            decreases self.entries.len() - i,
        {
            let e = self.entries[i];
            proof {
                assert(all.skip(i as int)[0] == all[i as int]);
                assert(all.skip(i as int).drop_first() =~= all.skip(i + 1));
            }
            if e.derived_message_id != derived_id {
                proof {
                    assert(kept@ + (seq![e] + spec_remove_derived(all.skip(i + 1), derived_id))
                        =~= kept@.push(e) + spec_remove_derived(all.skip(i + 1), derived_id));
                }
                kept.push(e);
            }
            i += 1;
        }
        proof {
            assert(all.skip(self.entries.len() as int) =~= Seq::<StarredEntry>::empty());
            assert(kept@ + Seq::<StarredEntry>::empty() =~= kept@);
            lemma_remove_derived_unique_helper(all, derived_id);
        }
        self.entries = kept;
    }

    /// Every persisted entry for one original message, over all boards.
    pub fn entries_for_message(&self, message_id: i64) -> (r: Vec<StarredEntry>)
        ensures
            r@ == spec_for_message(self@, message_id),
    {
        let ghost all = self@;
        let mut r: Vec<StarredEntry> = Vec::new();
        let mut i: usize = 0;
        proof {
            assert(all.skip(0int) =~= all);
            assert(r@ =~= Seq::<StarredEntry>::empty());
            assert(Seq::<StarredEntry>::empty() + spec_for_message(all, message_id)
                =~= spec_for_message(all, message_id));
        }
        while i < self.entries.len()
            invariant
                i <= self.entries.len(),
                all == self@,
                spec_for_message(all, message_id) == r@ + spec_for_message(
                    all.skip(i as int),
                    message_id,
                ),
            decreases self.entries.len() - i,
        {
            let e = self.entries[i];
            proof {
                assert(all.skip(i as int)[0] == all[i as int]);
                assert(all.skip(i as int).drop_first() =~= all.skip(i + 1));
            }
            if e.message_id == message_id {
                proof {
                    assert(r@ + (seq![e] + spec_for_message(all.skip(i + 1), message_id))
                        =~= r@.push(e) + spec_for_message(all.skip(i + 1), message_id));
                }
                r.push(e);
            }
            i += 1;
        }
        proof {
            assert(all.skip(self.entries.len() as int) =~= Seq::<StarredEntry>::empty());
            assert(r@ + Seq::<StarredEntry>::empty() =~= r@);
        }
        r
    }
}

/// Deleting by key keeps keys unique.
proof fn lemma_remove_key_unique_helper(s: Seq<StarredEntry>, board_id: i64, message_id: i64)
    requires
        key_unique(s),
    ensures
        key_unique(spec_remove_key(s, board_id, message_id)),
        forall|i: int|
            0 <= i < spec_remove_key(s, board_id, message_id).len() ==> exists|j: int|
                0 <= j < s.len() && #[trigger] s[j] == #[trigger] spec_remove_key(
                    s,
                    board_id,
                    message_id,
                )[i],
    decreases s.len(),
{
    if s.len() > 0 {
        lemma_key_unique_drop_first(s);
        lemma_remove_key_unique_helper(s.drop_first(), board_id, message_id);
        let rest = spec_remove_key(s.drop_first(), board_id, message_id);
        assert forall|i: int| 0 <= i < rest.len() implies exists|j: int|
            0 <= j < s.len() && #[trigger] s[j] == #[trigger] rest[i] by {
            let j0 = choose|j0: int|
                0 <= j0 < s.drop_first().len() && #[trigger] s.drop_first()[j0] == rest[i];
            assert(s[j0 + 1] == rest[i]);
        }
        if !key_matches(s[0], board_id, message_id) {
            let r = seq![s[0]] + rest;
            assert forall|i: int, j: int| 0 <= i < j < r.len() implies !key_matches(
                #[trigger] r[i],
                (#[trigger] r[j]).board_id,
                r[j].message_id,
            ) by {
                if i == 0 {
                    assert(r[j] == rest[j - 1]);
                    let j2 = choose|j2: int|
                        0 <= j2 < s.drop_first().len() && #[trigger] s.drop_first()[j2] == rest[j
                            - 1];
                    assert(s[j2 + 1] == rest[j - 1]);
                    assert(!key_matches(s[0], s[j2 + 1].board_id, s[j2 + 1].message_id));
                } else {
                    assert(r[i] == rest[i - 1] && r[j] == rest[j - 1]);
                    assert(!key_matches(rest[i - 1], rest[j - 1].board_id, rest[j - 1].message_id));
                }
            }
            assert forall|i: int| 0 <= i < r.len() implies exists|j: int|
                0 <= j < s.len() && #[trigger] s[j] == #[trigger] r[i] by {
                if i == 0 {
                    assert(s[0] == r[0]);
                } else {
                    assert(r[i] == rest[i - 1]);
                    let j0 = choose|j0: int| 0 <= j0 < s.len() && #[trigger] s[j0] == rest[i - 1];
                }
            }
        }
    }
}

/// Deleting by derived-message id keeps keys unique.
proof fn lemma_remove_derived_unique_helper(s: Seq<StarredEntry>, derived_id: i64)
    requires
        key_unique(s),
    ensures
        key_unique(spec_remove_derived(s, derived_id)),
        forall|i: int|
            0 <= i < spec_remove_derived(s, derived_id).len() ==> exists|j: int|
                0 <= j < s.len() && #[trigger] s[j] == #[trigger] spec_remove_derived(
                    s,
                    derived_id,
                )[i],
    decreases s.len(),
{
    if s.len() > 0 {
        lemma_key_unique_drop_first(s);
        lemma_remove_derived_unique_helper(s.drop_first(), derived_id);
        let rest = spec_remove_derived(s.drop_first(), derived_id);
        assert forall|i: int| 0 <= i < rest.len() implies exists|j: int|
            0 <= j < s.len() && #[trigger] s[j] == #[trigger] rest[i] by {
            let j0 = choose|j0: int|
                0 <= j0 < s.drop_first().len() && #[trigger] s.drop_first()[j0] == rest[i];
            assert(s[j0 + 1] == rest[i]);
        }
        if s[0].derived_message_id != derived_id {
            let r = seq![s[0]] + rest;
            assert forall|i: int, j: int| 0 <= i < j < r.len() implies !key_matches(
                #[trigger] r[i],
                (#[trigger] r[j]).board_id,
                r[j].message_id,
            ) by {
                if i == 0 {
                    assert(r[j] == rest[j - 1]);
                    let j2 = choose|j2: int|
                        0 <= j2 < s.drop_first().len() && #[trigger] s.drop_first()[j2] == rest[j
                            - 1];
                    assert(s[j2 + 1] == rest[j - 1]);
                    assert(!key_matches(s[0], s[j2 + 1].board_id, s[j2 + 1].message_id));
                } else {
                    assert(r[i] == rest[i - 1] && r[j] == rest[j - 1]);
                    assert(!key_matches(rest[i - 1], rest[j - 1].board_id, rest[j - 1].message_id));
                }
            }
            assert forall|i: int| 0 <= i < r.len() implies exists|j: int|
                0 <= j < s.len() && #[trigger] s[j] == #[trigger] r[i] by {
                if i == 0 {
                    assert(s[0] == r[0]);
                } else {
                    assert(r[i] == rest[i - 1]);
                    let j0 = choose|j0: int| 0 <= j0 < s.len() && #[trigger] s[j0] == rest[i - 1];
                }
            }
        }
    }
}

} // verus!
