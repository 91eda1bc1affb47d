//! The runner's on-screen log: the most recent messages first, each stamped
//! with the seconds since the log was started or last cleared.

use vstd::prelude::*;
use std::collections::VecDeque;
use std::time::{Duration, Instant};
use crate::text::{
    decimal, decimal_string, is_digit, lemma_decimal_digits, lemma_decimal_injective,
    lemma_trim_idempotent, spec_trim, trim,
};

verus! {

/// The number of entries that the log keeps.
pub const LOG_SIZE: usize = 32;

#[verifier::external_type_specification]
#[verifier::external_body]
pub struct ExInstant(Instant);

/// `Instant::now`: the current time. Nothing is stated of it; it comes from
/// the machine's clock.
#[verifier::external_body]
fn instant_now() -> Instant {
    Instant::now()
}

/// `Instant::elapsed`: the time passed since `since`. Nothing is stated of it;
/// it comes from the machine's clock.
#[verifier::external_body]
fn instant_elapsed(since: &Instant) -> Duration {
    since.elapsed()
}

/// `Duration::as_secs`: the whole seconds of `d`. Nothing is stated of it,
/// since a `Duration` is opaque here.
#[verifier::external_body]
fn duration_as_secs(d: &Duration) -> u64 {
    d.as_secs()
}

/// The text of an entry: the seconds, a ` | ` separator, and the message.
pub open spec fn log_entry(secs: u64, msg: Seq<char>) -> Seq<char> {
    decimal(secs as nat) + seq![' ', '|', ' '] + msg
}

/// Whether `e` is a log entry: some seconds, ` | `, and a message that is
/// not empty and has no white space at either end.
pub open spec fn is_log_entry(e: Seq<char>) -> bool {
    exists|secs: u64, m: Seq<char>|
        m.len() > 0 && spec_trim(m) == m && e == #[trigger] log_entry(secs, m)
}

/// Whether every entry of `history` is a log entry.
pub open spec fn entries_well_formed(history: Seq<Seq<char>>) -> bool {
    forall|i: int| 0 <= i < history.len() ==> is_log_entry(#[trigger] history[i])
}

/// The entries after adding `msg` at `secs` seconds: a message that is blank
/// once trimmed is dropped; otherwise its trimmed text goes first, and the
/// oldest entry leaves when the log is full.
pub open spec fn history_after_add(history: Seq<Seq<char>>, secs: u64, msg: Seq<char>) -> Seq<
    Seq<char>,
> {
    let t = spec_trim(msg);
    if t.len() == 0 {
        history
    } else {
        let kept = if history.len() == LOG_SIZE {
            history.drop_last()
        } else {
            history
        };
        seq![log_entry(secs, t)] + kept
    }
}

/// The log: its entries, newest first, and the time it was started.
pub struct Logs {
    history: VecDeque<String>,
    startup_time: Instant,
}

impl View for Logs {
    type V = Seq<Seq<char>>;

    closed spec fn view(&self) -> Seq<Seq<char>> {
        self.history.deep_view()
    }
}

impl Logs {
    #[verifier::type_invariant]
    spec fn bounded(self) -> bool {
        &&& self.history@.len() <= LOG_SIZE
        &&& entries_well_formed(self.history.deep_view())
    }

    /// The time the log was started or last cleared.
    pub closed spec fn start(&self) -> Instant {
        self.startup_time
    }

    /// Adds `msg`, stamped with `secs` (see `history_after_add`).
    pub fn add_at(&mut self, secs: u64, msg: &str)
        ensures
            final(self)@ == history_after_add(old(self)@, secs, msg@),
            final(self)@.len() <= LOG_SIZE,
            entries_well_formed(final(self)@),
            final(self).start() == old(self).start(),
            stamps_ordered(old(self)@) && (old(self)@.len() > 0 ==> secs >= stamp_of(old(self)@[0]))
                ==> stamps_ordered(final(self)@),
    {
        proof {
            use_type_invariant(&*self);
        }
        proof {
            lemma_add_keeps_entries_well_formed(self@, secs, msg@);
            if stamps_ordered(self@) && (self@.len() > 0 ==> secs >= stamp_of(self@[0])) {
                lemma_add_keeps_stamps_ordered(self@, secs, msg@);
            }
        }
        let trim_msg = trim(msg);
        if trim_msg.unicode_len() == 0 {
            return;
        }
        let mut history: VecDeque<String> = VecDeque::new();
        std::mem::swap(&mut history, &mut self.history);
        if history.len() == LOG_SIZE {
            history.pop_back();
        }
        let mut entry = decimal_string(secs);
        proof {
            reveal_strlit(" | ");
        }
        entry.append(" | ");
        entry.append(trim_msg);
        let ghost before = history@;
        history.push_front(entry);
        proof {
            let t = spec_trim(msg@);
            assert(entry@ == log_entry(secs, t));
            let kept = if old(self)@.len() == LOG_SIZE {
                old(self)@.drop_last()
            } else {
                old(self)@
            };
            assert(before.map_values(|s: String| s@) =~= kept);
            assert(history.deep_view() =~= seq![log_entry(secs, t)] + kept);
            assert(history.deep_view() == history_after_add(old(self)@, secs, msg@));
        }
        self.history = history;
    }

    /// Adds `msg`, stamped with the whole seconds since the log was started.
    pub fn add(&mut self, msg: String)
        ensures
            exists|secs: u64| final(self)@ == history_after_add(old(self)@, secs, msg@),
            final(self)@.len() <= LOG_SIZE,
            entries_well_formed(final(self)@),
            final(self).start() == old(self).start(),
    {
        let elapsed = instant_elapsed(&self.startup_time);
        let secs = duration_as_secs(&elapsed);
        self.add_at(secs, msg.as_str());
        assert(final(self)@ == history_after_add(old(self)@, secs, msg@));
    }

    /// Removes every entry and restarts the clock: the start time becomes a
    /// new reading of `Instant::now`, of which nothing is stated.
    pub fn clear(&mut self)
        ensures
            final(self)@ == Seq::<Seq<char>>::empty(),
            stamps_ordered(final(self)@),
    {
        proof {
            use_type_invariant(&*self);
        }
        self.startup_time = instant_now();
        self.history = VecDeque::new();
        assert(self@ =~= Seq::<Seq<char>>::empty());
    }

    /// The entries, newest first.
    pub fn get_all(&self) -> (res: &VecDeque<String>)
        ensures
            res.deep_view() == self@,
            res@.len() <= LOG_SIZE,
            entries_well_formed(self@),
    {
        proof {
            use_type_invariant(self);
        }
        &self.history
    }
}

impl Default for Logs {
    /// An empty log, started now.
    fn default() -> (res: Logs)
        ensures
            res@ == Seq::<Seq<char>>::empty(),
            stamps_ordered(res@),
    {
        let res = Logs { history: VecDeque::new(), startup_time: instant_now() };
        assert(res@ =~= Seq::<Seq<char>>::empty());
        res
    }
}


/// A message that is blank once trimmed leaves the log as it is.
pub proof fn lemma_blank_message_ignored(history: Seq<Seq<char>>, secs: u64, msg: Seq<char>)
    requires
        spec_trim(msg).len() == 0,
    ensures
        history_after_add(history, secs, msg) == history,
{
}

/// Adding a message puts its entry first and shifts the older entries back
/// by one, in order; the log never grows past `LOG_SIZE`, and when it is full
/// the oldest entry is the one that leaves.
pub proof fn lemma_add_newest_first(history: Seq<Seq<char>>, secs: u64, msg: Seq<char>)
    requires
        history.len() <= LOG_SIZE,
        spec_trim(msg).len() > 0,
    ensures
        ({
            let h = history_after_add(history, secs, msg);
            &&& h[0] == log_entry(secs, spec_trim(msg))
            &&& h.len() == if history.len() == LOG_SIZE { LOG_SIZE as int } else { history.len() + 1int }
            &&& forall|i: int| 0 <= i < h.len() - 1 ==> #[trigger] h[i + 1] == history[i]
        }),
{
}


/// Adding keeps every entry a log entry: the new one is the stamp and the
/// trimmed, non-empty message, the others are kept as they were.
pub proof fn lemma_add_keeps_entries_well_formed(history: Seq<Seq<char>>, secs: u64, msg: Seq<char>)
    requires
        entries_well_formed(history),
    ensures
        entries_well_formed(history_after_add(history, secs, msg)),
{
    let t = spec_trim(msg);
    if t.len() > 0 {
        lemma_trim_idempotent(msg);
        assert(is_log_entry(log_entry(secs, t)));
        let h = history_after_add(history, secs, msg);
        assert forall|i: int| 0 <= i < h.len() implies is_log_entry(#[trigger] h[i]) by {
            if i > 0 {
                assert(h[i] == history[i - 1]);
            }
        }
    }
}


/// An entry determines its stamp: the stamp's digits end at the first space.
pub proof fn lemma_stamp_unique(s1: u64, m1: Seq<char>, s2: u64, m2: Seq<char>)
    requires
        log_entry(s1, m1) == log_entry(s2, m2),
    ensures
        s1 == s2,
{
    let d1 = decimal(s1 as nat);
    let d2 = decimal(s2 as nat);
    let e = log_entry(s1, m1);
    lemma_decimal_digits(s1 as nat);
    lemma_decimal_digits(s2 as nat);
    assert(e == d1 + seq![' ', '|', ' '] + m1);
    assert(e == d2 + seq![' ', '|', ' '] + m2);
    if d1.len() < d2.len() {
        assert(e[d1.len() as int] == ' ');
        assert(e[d1.len() as int] == d2[d1.len() as int]);
        assert(is_digit(d2[d1.len() as int]));
    } else if d2.len() < d1.len() {
        assert(e[d2.len() as int] == ' ');
        assert(e[d2.len() as int] == d1[d2.len() as int]);
        assert(is_digit(d1[d2.len() as int]));
    } else {
        assert(d1 =~= e.subrange(0, d1.len() as int));
        assert(d2 =~= e.subrange(0, d2.len() as int));
        lemma_decimal_injective(s1 as nat, s2 as nat);
    }
}

/// Whether entry `e` is stamped with `secs`.
pub open spec fn has_stamp(e: Seq<char>, secs: u64) -> bool {
    exists|m: Seq<char>| e == #[trigger] log_entry(secs, m)
}

/// The seconds that entry `e` is stamped with.
pub open spec fn stamp_of(e: Seq<char>) -> u64 {
    choose|secs: u64| #[trigger] has_stamp(e, secs)
}

/// The stamp of an entry is the seconds it was made with.
pub proof fn lemma_stamp_of_entry(secs: u64, m: Seq<char>)
    ensures
        stamp_of(log_entry(secs, m)) == secs,
{
    let e = log_entry(secs, m);
    assert(has_stamp(e, secs));
    let s = stamp_of(e);
    assert(has_stamp(e, s));
    let mm = choose|mm: Seq<char>| e == #[trigger] log_entry(s, mm);
    lemma_stamp_unique(s, mm, secs, m);
}

/// Whether the stamps of `history` never increase from the newest entry to
/// the oldest.
pub open spec fn stamps_ordered(history: Seq<Seq<char>>) -> bool {
    forall|i: int, j: int|
        0 <= i < j < history.len() ==> stamp_of(#[trigger] history[i]) >= stamp_of(
            #[trigger] history[j],
        )
}

/// Adding at a stamp no earlier than the newest entry's keeps the stamps in
/// order, newest first. (The clock that `Logs::add` reads supplies such
/// stamps as long as it does not go back; that premise is the caller's.)
pub proof fn lemma_add_keeps_stamps_ordered(history: Seq<Seq<char>>, secs: u64, msg: Seq<char>)
    requires
        stamps_ordered(history),
        history.len() > 0 ==> secs >= stamp_of(history[0]),
    ensures
        stamps_ordered(history_after_add(history, secs, msg)),
{
    let t = spec_trim(msg);
    if t.len() > 0 {
        let h = history_after_add(history, secs, msg);
        lemma_stamp_of_entry(secs, t);
        assert forall|i: int, j: int| 0 <= i < j < h.len() implies stamp_of(#[trigger] h[i])
            >= stamp_of(#[trigger] h[j]) by {
            assert(h[j] == history[j - 1]);
            if i == 0 {
                if j - 1 > 0 {
                    assert(stamp_of(history[0]) >= stamp_of(history[j - 1]));
                }
            } else {
                assert(h[i] == history[i - 1]);
            }
        }
    }
}

/// An empty log is in order.
pub proof fn lemma_empty_stamps_ordered()
    ensures
        stamps_ordered(Seq::<Seq<char>>::empty()),
{
}

} // verus!
