//! Per-server progress-token bookkeeping for language-server WorkDone
//! progress, together with the status text computed from an entry.

use vstd::prelude::*;
use crate::text::{push_str, push_char, push_decimal, push_decimal_signed, spec_decimal, spec_decimal_signed};

verus! {

/// A progress token as the wire carries it: a number or a string label.
pub enum Token {
    Number(i64),
    Label(String),
}

/// The mathematical value of a token.
pub enum TokenV {
    Number(i64),
    Label(Seq<char>),
}

impl View for Token {
    type V = TokenV;

    open spec fn view(&self) -> TokenV {
        match self {
            Token::Number(n) => TokenV::Number(*n),
            Token::Label(s) => TokenV::Label(s@),
        }
    }
}

/// Decides equality of two tokens by their mathematical value.
pub fn token_eq(a: &Token, b: &Token) -> (r: bool)
    ensures
        r == (a@ == b@),
{
    match (a, b) {
        (Token::Number(x), Token::Number(y)) => *x == *y,
        (Token::Label(x), Token::Label(y)) => x.eq(y),
        _ => false,
    }
}

/// What is known about one progress token: the fields reported so far.
/// Absent fields were never reported; present fields hold the latest report.
pub struct ProgressEntry {
    pub title: Option<String>,
    pub message: Option<String>,
    pub percentage: Option<u32>,
}

/// One phase of the WorkDone progress lifecycle, with the fields the wire
/// carries for that phase.
pub enum WorkProgress {
    Begin { title: String, message: Option<String>, percentage: Option<u32> },
    Report { message: Option<String>, percentage: Option<u32> },
    End { message: Option<String> },
}

/// The entry created for a token that was only just created: nothing reported.
pub open spec fn fresh_entry() -> ProgressEntry {
    ProgressEntry { title: None, message: None, percentage: None }
}

/// The merge of one progress phase onto an existing entry: fields present in
/// the phase overwrite, absent fields keep their previous value.
pub open spec fn merged_entry(e: ProgressEntry, w: WorkProgress) -> ProgressEntry {
    match w {
        WorkProgress::Begin { title, message, percentage } => ProgressEntry {
            title: Some(title),
            message: if message is Some { message } else { e.message },
            percentage: if percentage is Some { percentage } else { e.percentage },
        },
        WorkProgress::Report { message, percentage } => ProgressEntry {
            title: e.title,
            message: if message is Some { message } else { e.message },
            percentage: if percentage is Some { percentage } else { e.percentage },
        },
        WorkProgress::End { message } => ProgressEntry {
            title: e.title,
            message: if message is Some { message } else { e.message },
            percentage: e.percentage,
        },
    }
}

/// One tracked token: the server it belongs to, the token, and its entry.
pub struct Slot {
    pub server_id: u64,
    pub token: Token,
    pub entry: ProgressEntry,
}

/// Whether a slot is keyed by `(sid, t)`.
pub open spec fn slot_matches(s: Slot, sid: u64, t: TokenV) -> bool {
    s.server_id == sid && s.token@ == t
}

/// The entry recorded for `(sid, t)`, if any: the first slot with that key.
pub open spec fn slot_lookup(slots: Seq<Slot>, sid: u64, t: TokenV) -> Option<ProgressEntry>
    decreases slots.len(),
{
    if slots.len() == 0 {
        None
    } else if slot_matches(slots[0], sid, t) {
        Some(slots[0].entry)
    } else {
        slot_lookup(slots.drop_first(), sid, t)
    }
}

/// Whether any slot belongs to `sid`.
pub open spec fn spec_progressing(slots: Seq<Slot>, sid: u64) -> bool {
    exists|i: int| 0 <= i < slots.len() && slots[i].server_id == sid
}

/// No two slots share a key. All tracker operations keep this.
pub open spec fn no_duplicate_keys(slots: Seq<Slot>) -> bool {
    forall|i: int, j: int|
        0 <= i < j < slots.len() ==> !(slots[i].server_id == slots[j].server_id
            && slots[i].token@ == slots[j].token@)
}

/// Replacing a slot that is not keyed `(sid, t)` by another slot that is not
/// keyed `(sid, t)` leaves the lookup for `(sid, t)` unchanged.
proof fn lemma_lookup_update_other(s: Seq<Slot>, i: int, slot: Slot, sid: u64, t: TokenV)
    requires
        0 <= i < s.len(),
        !slot_matches(s[i], sid, t),
        !slot_matches(slot, sid, t),
    ensures
        slot_lookup(s.update(i, slot), sid, t) == slot_lookup(s, sid, t),
    decreases s.len(),
{
    let s2 = s.update(i, slot);
    if i == 0 {
        assert(s2.drop_first() =~= s.drop_first());
    } else {
        assert(s2[0] == s[0]);
        assert(s2.drop_first() =~= s.drop_first().update(i - 1, slot));
        lemma_lookup_update_other(s.drop_first(), i - 1, slot, sid, t);
    }
}

/// Removing a slot that is not keyed `(sid, t)` leaves the lookup unchanged.
proof fn lemma_lookup_remove_other(s: Seq<Slot>, i: int, sid: u64, t: TokenV)
    requires
        0 <= i < s.len(),
        !slot_matches(s[i], sid, t),
    ensures
        slot_lookup(s.remove(i), sid, t) == slot_lookup(s, sid, t),
    decreases s.len(),
{
    let s2 = s.remove(i);
    if i == 0 {
        assert(s2 =~= s.drop_first());
    } else {
        assert(s2[0] == s[0]);
        assert(s2.drop_first() =~= s.drop_first().remove(i - 1));
        lemma_lookup_remove_other(s.drop_first(), i - 1, sid, t);
    }
}

/// Appending a slot that is not keyed `(sid, t)` leaves the lookup unchanged.
proof fn lemma_lookup_push_other(s: Seq<Slot>, slot: Slot, sid: u64, t: TokenV)
    requires
        !slot_matches(slot, sid, t),
    ensures
        slot_lookup(s.push(slot), sid, t) == slot_lookup(s, sid, t),
    decreases s.len(),
{
    let s2 = s.push(slot);
    if s.len() == 0 {
        assert(!slot_matches(s2[0], sid, t));
        assert(s2.drop_first() =~= Seq::<Slot>::empty());
    } else {
        assert(s2[0] == s[0]);
        assert(s2.drop_first() =~= s.drop_first().push(slot));
        lemma_lookup_push_other(s.drop_first(), slot, sid, t);
    }
}

/// When slot `i` is the first slot keyed `(sid, t)`, the lookup answers its
/// entry.
proof fn lemma_lookup_first(s: Seq<Slot>, i: int, sid: u64, t: TokenV)
    requires
        0 <= i < s.len(),
        slot_matches(s[i], sid, t),
        forall|j: int| 0 <= j < i ==> !slot_matches(s[j], sid, t),
    ensures
        slot_lookup(s, sid, t) == Some(s[i].entry),
    decreases s.len(),
{
    if i == 0 {
    } else {
        assert(!slot_matches(s[0], sid, t));
        assert(s.drop_first()[i - 1] == s[i]);
        assert forall|j: int| 0 <= j < i - 1 implies !slot_matches(s.drop_first()[j], sid, t) by {
            assert(s.drop_first()[j] == s[j + 1]);
        }
        lemma_lookup_first(s.drop_first(), i - 1, sid, t);
    }
}

/// When no slot is keyed `(sid, t)`, the lookup answers nothing.
proof fn lemma_lookup_none(s: Seq<Slot>, sid: u64, t: TokenV)
    requires
        forall|j: int| 0 <= j < s.len() ==> !slot_matches(s[j], sid, t),
    ensures
        slot_lookup(s, sid, t) is None,
    decreases s.len(),
{
    if s.len() > 0 {
        assert forall|j: int| 0 <= j < s.drop_first().len() implies !slot_matches(
            s.drop_first()[j],
            sid,
            t,
        ) by {
            assert(s.drop_first()[j] == s[j + 1]);
        }
        lemma_lookup_none(s.drop_first(), sid, t);
    }
}

/// Tracks, per server, what each progress token has reported so far.
pub struct ProgressTracker {
    pub slots: Vec<Slot>,
}

impl ProgressTracker {
    /// An empty tracker.
    pub fn new() -> (r: ProgressTracker)
        ensures
            r.slots@.len() == 0,
            no_duplicate_keys(r.slots@),
    {
        ProgressTracker { slots: Vec::new() }
    }

    /// The index of the first slot for `(sid, t)`, if one exists.
    fn find_slot(&self, sid: u64, t: &Token) -> (r: Option<usize>)
        ensures
            match r {
                Some(i) => i < self.slots@.len() && slot_matches(self.slots@[i as int], sid, t@)
                    && (forall|j: int| 0 <= j < i ==> !slot_matches(self.slots@[j], sid, t@)),
                None => forall|i: int|
                    0 <= i < self.slots@.len() ==> !slot_matches(self.slots@[i], sid, t@),
            },
    {
        let mut i: usize = 0;
        while i < self.slots.len()
            invariant
                i <= self.slots@.len(),
                forall|j: int| 0 <= j < i ==> !slot_matches(self.slots@[j], sid, t@),
            decreases self.slots@.len() - i,
        {
            let s = &self.slots[i];
            if s.server_id == sid && token_eq(&s.token, t) {
                return Some(i);
            }
            i = i + 1;
        }
        None
    }

    /// Creates the entry for `(sid, token)` with nothing reported yet;
    /// re-creation overwrites an existing entry.
    pub fn create(&mut self, sid: u64, token: Token)
        ensures
            slot_lookup(final(self).slots@, sid, token@) == Some(fresh_entry()),
            forall|s: u64, t: TokenV|
                !(s == sid && t == token@) ==> slot_lookup(final(self).slots@, s, t)
                    == slot_lookup(old(self).slots@, s, t),
            spec_progressing(final(self).slots@, sid),
            forall|s: u64|
                s != sid ==> spec_progressing(final(self).slots@, s) == spec_progressing(
                    old(self).slots@, s),
            final(self).slots@.len() == old(self).slots@.len() + (
            if slot_lookup(old(self).slots@, sid, token@) is Some {
                0int
            } else {
                1int
            }),
            no_duplicate_keys(old(self).slots@) ==> no_duplicate_keys(final(self).slots@),
    {
        self.upsert(sid, token, None);
    }

    /// Merges one progress phase onto the entry for `(sid, token)`; a token
    /// never seen before is created implicitly, as if freshly created, then
    /// merged.
    pub fn update(&mut self, sid: u64, token: Token, work: WorkProgress)
        ensures
            slot_lookup(final(self).slots@, sid, token@) == Some(
                merged_entry(
                    match slot_lookup(old(self).slots@, sid, token@) {
                        Some(e) => e,
                        None => fresh_entry(),
                    },
                    work,
                ),
            ),
            forall|s: u64, t: TokenV|
                !(s == sid && t == token@) ==> slot_lookup(final(self).slots@, s, t)
                    == slot_lookup(old(self).slots@, s, t),
            spec_progressing(final(self).slots@, sid),
            forall|s: u64|
                s != sid ==> spec_progressing(final(self).slots@, s) == spec_progressing(
                    old(self).slots@, s),
            final(self).slots@.len() == old(self).slots@.len() + (
            if slot_lookup(old(self).slots@, sid, token@) is Some {
                0int
            } else {
                1int
            }),
            no_duplicate_keys(old(self).slots@) ==> no_duplicate_keys(final(self).slots@),
    {
        self.upsert(sid, token, Some(work));
    }

    /// Inserts or overwrites the slot for `(sid, token)`: the fresh entry when
    /// `work` is absent, else the merge of `work` onto what was there.
    fn upsert(&mut self, sid: u64, token: Token, work: Option<WorkProgress>)
        ensures
            slot_lookup(final(self).slots@, sid, token@) == Some(
                match work {
                    None => fresh_entry(),
                    Some(w) => merged_entry(
                        match slot_lookup(old(self).slots@, sid, token@) {
                            Some(e) => e,
                            None => fresh_entry(),
                        },
                        w,
                    ),
                },
            ),
            forall|s: u64, t: TokenV|
                !(s == sid && t == token@) ==> slot_lookup(final(self).slots@, s, t)
                    == slot_lookup(old(self).slots@, s, t),
            spec_progressing(final(self).slots@, sid),
            forall|s: u64|
                s != sid ==> spec_progressing(final(self).slots@, s) == spec_progressing(
                    old(self).slots@, s),
            final(self).slots@.len() == old(self).slots@.len() + (
            if slot_lookup(old(self).slots@, sid, token@) is Some {
                0int
            } else {
                1int
            }),
            no_duplicate_keys(old(self).slots@) ==> no_duplicate_keys(final(self).slots@),
    {
        let found = self.find_slot(sid, &token);
        let ghost prev = self.slots@;
        match found {
            Some(i) => {
                proof {
                    lemma_lookup_first(prev, i as int, sid, token@);
                }
                let previous = clone_entry(&self.slots[i].entry);
                let entry = match work {
                    None => ProgressEntry { title: None, message: None, percentage: None },
                    Some(w) => merge_fields(previous, w),
                };
                let slot = Slot { server_id: sid, token, entry };
                let ghost new_slot = slot;
                self.slots.set(i, slot);
                proof {
                    let now = self.slots@;
                    assert(now == prev.update(i as int, new_slot));
                    assert forall|j: int| 0 <= j < i as int implies !slot_matches(
                        now[j],
                        sid,
                        new_slot.token@,
                    ) by {
                        assert(now[j] == prev[j]);
                    }
                    lemma_lookup_first(now, i as int, sid, new_slot.token@);
                    assert forall|s: u64, t: TokenV| !(s == sid && t == new_slot.token@) implies
                        slot_lookup(now, s, t) == slot_lookup(prev, s, t) by {
                        lemma_lookup_update_other(prev, i as int, new_slot, s, t);
                    }
                    assert(spec_progressing(now, sid)) by {
                        assert(now[i as int].server_id == sid);
                    }
                    assert forall|s: u64| s != sid implies spec_progressing(now, s)
                        == spec_progressing(prev, s) by {
                        if spec_progressing(prev, s) {
                            let j = choose|j: int| 0 <= j < prev.len() && prev[j].server_id == s;
                            assert(j != i as int);
                            assert(now[j].server_id == s);
                        }
                        if spec_progressing(now, s) {
                            let j = choose|j: int| 0 <= j < now.len() && now[j].server_id == s;
                            assert(j != i as int);
                            assert(prev[j].server_id == s);
                        }
                    }
                    if no_duplicate_keys(prev) {
                        assert forall|a: int, b: int| 0 <= a < b < now.len() implies !(
                        now[a].server_id == now[b].server_id && now[a].token@
                            == now[b].token@) by {
                            assert(prev[a].server_id == now[a].server_id && prev[a].token@
                                == now[a].token@);
                            assert(prev[b].server_id == now[b].server_id && prev[b].token@
                                == now[b].token@);
                        }
                    }
                }
            },
            None => {
                proof {
                    lemma_lookup_none(prev, sid, token@);
                }
                let entry = match work {
                    None => ProgressEntry { title: None, message: None, percentage: None },
                    Some(w) => merge_fields(
                        ProgressEntry { title: None, message: None, percentage: None },
                        w,
                    ),
                };
                let slot = Slot { server_id: sid, token, entry };
                let ghost new_slot = slot;
                self.slots.push(slot);
                proof {
                    let now = self.slots@;
                    assert(now == prev.push(new_slot));
                    assert(slot_matches(now[now.len() - 1], sid, new_slot.token@));
                    assert forall|j: int| 0 <= j < now.len() - 1 implies !slot_matches(
                        now[j],
                        sid,
                        new_slot.token@,
                    ) by {
                        assert(now[j] == prev[j]);
                    }
                    lemma_lookup_first(now, now.len() - 1, sid, new_slot.token@);
                    assert forall|s: u64, t: TokenV| !(s == sid && t == new_slot.token@) implies
                        slot_lookup(now, s, t) == slot_lookup(prev, s, t) by {
                        lemma_lookup_push_other(prev, new_slot, s, t);
                    }
                    assert(spec_progressing(now, sid)) by {
                        assert(now[now.len() - 1].server_id == sid);
                    }
                    assert forall|s: u64| s != sid implies spec_progressing(now, s)
                        == spec_progressing(prev, s) by {
                        if spec_progressing(prev, s) {
                            let j = choose|j: int| 0 <= j < prev.len() && prev[j].server_id == s;
                            assert(now[j].server_id == s);
                        }
                        if spec_progressing(now, s) {
                            let j = choose|j: int| 0 <= j < now.len() && now[j].server_id == s;
                            assert(j != now.len() - 1);
                            assert(prev[j].server_id == s);
                        }
                    }
                    if no_duplicate_keys(prev) {
                        assert forall|a: int, b: int| 0 <= a < b < now.len() implies !(
                        now[a].server_id == now[b].server_id && now[a].token@
                            == now[b].token@) by {
                            assert(now[a] == prev[a]);
                            if b < now.len() - 1 {
                                assert(now[b] == prev[b]);
                            }
                        }
                    }
                }
            },
        }
    }

    /// Removes the first entry for `(sid, token)`, if present. Under distinct
    /// keys this removes the key outright, and a server whose only tracked
    /// token this was stops progressing.
    pub fn end_progress(&mut self, sid: u64, token: &Token)
        ensures
            forall|s: u64, t: TokenV|
                !(s == sid && t == token@) ==> slot_lookup(final(self).slots@, s, t)
                    == slot_lookup(old(self).slots@, s, t),
            forall|s: u64|
                s != sid ==> spec_progressing(final(self).slots@, s) == spec_progressing(
                    old(self).slots@, s),
            slot_lookup(old(self).slots@, sid, token@) is None ==> final(self).slots@ == old(self).slots@,
            final(self).slots@.len() == old(self).slots@.len() - (
            if slot_lookup(old(self).slots@, sid, token@) is Some {
                1int
            } else {
                0int
            }),
            no_duplicate_keys(old(self).slots@) ==> (slot_lookup(final(self).slots@, sid, token@)
                is None && no_duplicate_keys(final(self).slots@)),
            (no_duplicate_keys(old(self).slots@) && (forall|j: int|
                0 <= j < old(self).slots@.len() && old(self).slots@[j].server_id == sid
                    ==> slot_matches(old(self).slots@[j], sid, token@))) ==> !spec_progressing(
                final(self).slots@,
                sid,
            ),
    {
        let found = self.find_slot(sid, token);
        let ghost prev = self.slots@;
        match found {
            Some(i) => {
                proof {
                    lemma_lookup_first(prev, i as int, sid, token@);
                }
                self.slots.remove(i);
                proof {
                    let now = self.slots@;
                    assert(now == prev.remove(i as int));
                    assert forall|s: u64, t: TokenV| !(s == sid && t == token@) implies
                        slot_lookup(now, s, t) == slot_lookup(prev, s, t) by {
                        lemma_lookup_remove_other(prev, i as int, s, t);
                    }
                    assert forall|s: u64| s != sid implies spec_progressing(now, s)
                        == spec_progressing(prev, s) by {
                        if spec_progressing(prev, s) {
                            let j = choose|j: int| 0 <= j < prev.len() && prev[j].server_id == s;
                            assert(j != i as int);
                            if j < i as int {
                                assert(now[j].server_id == s);
                            } else {
                                assert(now[j - 1] == prev[j]);
                            }
                        }
                        if spec_progressing(now, s) {
                            let j = choose|j: int| 0 <= j < now.len() && now[j].server_id == s;
                            if j < i as int {
                                assert(prev[j].server_id == s);
                            } else {
                                assert(prev[j + 1] == now[j]);
                            }
                        }
                    }
                    if no_duplicate_keys(prev) {
                        assert forall|j: int| 0 <= j < now.len() implies !slot_matches(
                            now[j],
                            sid,
                            token@,
                        ) by {
                            if j < i as int {
                                assert(now[j] == prev[j]);
                            } else {
                                assert(now[j] == prev[j + 1]);
                            }
                        }
                        lemma_lookup_none(now, sid, token@);
                        assert forall|a: int, b: int| 0 <= a < b < now.len() implies !(
                        now[a].server_id == now[b].server_id && now[a].token@
                            == now[b].token@) by {
                            let a0 = if a < i as int {
                                a
                            } else {
                                a + 1
                            };
                            let b0 = if b < i as int {
                                b
                            } else {
                                b + 1
                            };
                            assert(now[a] == prev[a0] && now[b] == prev[b0]);
                        }
                        if forall|j: int|
                            0 <= j < prev.len() && prev[j].server_id == sid ==> slot_matches(
                                prev[j],
                                sid,
                                token@,
                            ) {
                            assert forall|j: int| 0 <= j < now.len() implies now[j].server_id
                                != sid by {
                                let j0 = if j < i as int {
                                    j
                                } else {
                                    j + 1
                                };
                                assert(now[j] == prev[j0]);
                                if now[j].server_id == sid {
                                    assert(slot_matches(prev[j0], sid, token@));
                                    if j0 < i as int {
                                        assert(!(prev[j0].server_id == prev[i as int].server_id
                                            && prev[j0].token@ == prev[i as int].token@));
                                    } else {
                                        assert(!(prev[i as int].server_id == prev[j0].server_id
                                            && prev[i as int].token@ == prev[j0].token@));
                                    }
                                }
                            }
                        }
                    }
                }
            },
            None => {
                proof {
                    lemma_lookup_none(prev, sid, token@);
                }
            },
        }
    }

    /// Whether the server still has any tracked token.
    pub fn is_progressing(&self, sid: u64) -> (r: bool)
        ensures
            r == spec_progressing(self.slots@, sid),
    {
        let mut i: usize = 0;
        while i < self.slots.len()
            invariant
                i <= self.slots@.len(),
                forall|j: int| 0 <= j < i ==> self.slots@[j].server_id != sid,
            decreases self.slots@.len() - i,
        {
            if self.slots[i].server_id == sid {
                return true;
            }
            i = i + 1;
        }
        false
    }
}

/// Exact copy of an entry, equal as a value.
pub fn clone_entry(e: &ProgressEntry) -> (r: ProgressEntry)
    ensures
        r == *e,
{
    ProgressEntry {
        title: match &e.title {
            Some(t) => Some(t.clone()),
            None => None,
        },
        message: match &e.message {
            Some(m) => Some(m.clone()),
            None => None,
        },
        percentage: e.percentage,
    }
}

/// Executable merge, equal to `merged_entry`.
fn merge_fields(e: ProgressEntry, w: WorkProgress) -> (r: ProgressEntry)
    ensures
        r == merged_entry(e, w),
{
    match w {
        WorkProgress::Begin { title, message, percentage } => ProgressEntry {
            title: Some(title),
            message: match message {
                Some(m) => Some(m),
                None => e.message,
            },
            percentage: match percentage {
                Some(p) => Some(p),
                None => e.percentage,
            },
        },
        WorkProgress::Report { message, percentage } => ProgressEntry {
            title: e.title,
            message: match message {
                Some(m) => Some(m),
                None => e.message,
            },
            percentage: match percentage {
                Some(p) => Some(p),
                None => e.percentage,
            },
        },
        WorkProgress::End { message } => ProgressEntry {
            title: e.title,
            message: match message {
                Some(m) => Some(m),
                None => e.message,
            },
            percentage: e.percentage,
        },
    }
}

/// The token's display label: its decimal value or its text.
pub open spec fn spec_token_label(t: TokenV) -> Seq<char> {
    match t {
        TokenV::Number(n) => spec_decimal_signed(n as int),
        TokenV::Label(s) => s,
    }
}

/// The view of an optional string.
pub open spec fn view_opt(o: Option<&String>) -> Option<Seq<char>> {
    match o {
        Some(s) => Some(s@),
        None => None,
    }
}

/// The status line for one progress entry: one of eight formats, depending on
/// which of title, message and percentage are present; with all three absent,
/// a bare token label.
pub open spec fn spec_progress_status(
    t: TokenV,
    title: Option<Seq<char>>,
    message: Option<Seq<char>>,
    percentage: Option<u32>,
) -> Seq<char> {
    let head = seq!['['] + spec_token_label(t) + seq![']'];
    match (title, message, percentage) {
        (Some(ti), Some(m), Some(p)) => head + " "@ + spec_decimal(p as int) + "% "@ + ti + " - "@
            + m,
        (Some(ti), None, Some(p)) => head + " "@ + spec_decimal(p as int) + "% "@ + ti,
        (Some(ti), Some(m), None) => head + " "@ + ti + " - "@ + m,
        (None, Some(m), Some(p)) => head + " "@ + spec_decimal(p as int) + "% "@ + m,
        (Some(ti), None, None) => head + " "@ + ti,
        (None, Some(m), None) => head + " "@ + m,
        (None, None, Some(p)) => head + " "@ + spec_decimal(p as int) + "%"@,
        (None, None, None) => head,
    }
}

/// Appends the token's display label to `dst`.
fn push_token_label(dst: &mut String, t: &Token)
    ensures
        final(dst)@ == old(dst)@ + spec_token_label(t@),
{
    match t {
        Token::Number(n) => push_decimal_signed(dst, *n),
        Token::Label(s) => push_str(dst, s.as_str()),
    }
}

/// Composes the status line for one progress entry.
pub fn format_status(
    token: &Token,
    title: Option<&String>,
    message: Option<&String>,
    percentage: Option<u32>,
) -> (r: String)
    ensures
        r@ == spec_progress_status(token@, view_opt(title), view_opt(message), percentage),
{
    let mut out = String::new();
    push_char(&mut out, '[');
    push_token_label(&mut out, token);
    push_char(&mut out, ']');
    proof {
        assert(out@ =~= seq!['['] + spec_token_label(token@) + seq![']']);
    }
    match (title, message, percentage) {
        (Some(ti), Some(m), Some(p)) => {
            push_str(&mut out, " ");
            push_decimal(&mut out, p as u64);
            push_str(&mut out, "% ");
            push_str(&mut out, ti.as_str());
            push_str(&mut out, " - ");
            push_str(&mut out, m.as_str());
        },
        (Some(ti), None, Some(p)) => {
            push_str(&mut out, " ");
            push_decimal(&mut out, p as u64);
            push_str(&mut out, "% ");
            push_str(&mut out, ti.as_str());
        },
        (Some(ti), Some(m), None) => {
            push_str(&mut out, " ");
            push_str(&mut out, ti.as_str());
            push_str(&mut out, " - ");
            push_str(&mut out, m.as_str());
        },
        (None, Some(m), Some(p)) => {
            push_str(&mut out, " ");
            push_decimal(&mut out, p as u64);
            push_str(&mut out, "% ");
            push_str(&mut out, m.as_str());
        },
        (Some(ti), None, None) => {
            push_str(&mut out, " ");
            push_str(&mut out, ti.as_str());
        },
        (None, Some(m), None) => {
            push_str(&mut out, " ");
            push_str(&mut out, m.as_str());
        },
        (None, None, Some(p)) => {
            push_str(&mut out, " ");
            push_decimal(&mut out, p as u64);
            push_str(&mut out, "%");
        },
        (None, None, None) => {},
    }
    proof {
        assert(out@ =~= spec_progress_status(
            token@,
            view_opt(title),
            view_opt(message),
            percentage,
        ));
    }
    out
}

/// Progress lifecycle: creating a token and then ending it on a tracker
/// that held nothing leaves the map empty again — no server is progressing.
/// The two hypotheses are exactly what `create` and `end_progress` ensure
/// of the states before, between and after the two calls.
pub proof fn lemma_progress_lifecycle(
    before: Seq<Slot>,
    mid: Seq<Slot>,
    after: Seq<Slot>,
    sid: u64,
    t: TokenV,
)
    requires
        before.len() == 0,
        slot_lookup(mid, sid, t) == Some(fresh_entry()),
        mid.len() == before.len() + (if slot_lookup(before, sid, t) is Some {
            0int
        } else {
            1int
        }),
        after.len() == mid.len() - (if slot_lookup(mid, sid, t) is Some {
            1int
        } else {
            0int
        }),
    ensures
        after.len() == 0,
        forall|s: u64| !spec_progressing(after, s),
{
}

} // verus!
