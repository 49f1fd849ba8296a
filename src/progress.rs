use vstd::prelude::*;

verus! {

/// The byte that ends each chunk of the transfer's output.
pub const PERCENT: u8 = 37;

/// The byte between the whole and the fractional digits.
pub const DOT: u8 = 46;

/// Progress of a completed transfer, in tenths of a percent.
pub const COMPLETE: u32 = 1000;

pub open spec fn is_digit(b: u8) -> bool {
    48 <= b && b <= 57
}

pub open spec fn digit_value(b: u8) -> nat {
    (b - 48) as nat
}

/// The value of the decimal digits, at most `k` of them, that end `s`.
pub open spec fn tail_value(s: Seq<u8>, k: nat) -> nat
    decreases k,
{
    if k == 0 || s.len() == 0 || !is_digit(s.last()) {
        0
    } else {
        tail_value(s.drop_last(), (k - 1) as nat) * 10 + digit_value(s.last())
    }
}

/// The progress that a chunk of output reports, in tenths of a percent.
/// A chunk reports progress when it ends with one to three digits,
/// optionally followed by a dot and at most one fractional digit, and then
/// a `%`. Where more digits precede, the last three count.
pub open spec fn progress_of(c: Seq<u8>) -> Option<nat> {
    if c.len() == 0 || c.last() != PERCENT {
        None
    } else {
        let b = c.drop_last();
        let n = b.len();
        if n >= 3 && is_digit(b[n - 1]) && b[n - 2] == DOT && is_digit(b[n - 3]) {
            Some(tail_value(b.subrange(0, n - 2), 3) * 10 + digit_value(b[n - 1]))
        } else if n >= 2 && b[n - 1] == DOT && is_digit(b[n - 2]) {
            Some(tail_value(b.drop_last(), 3) * 10)
        } else if n >= 1 && is_digit(b[n - 1]) {
            Some(tail_value(b, 3) * 10)
        } else {
            None
        }
    }
}

/// What the read loop does with one chunk of the transfer's output.
#[derive(Clone, Copy, Debug, PartialEq, Eq, Structural)]
pub enum ProgressStep {
    /// The output is exhausted: the loop ends.
    Exhausted,
    /// The chunk reports no progress: the loop reads on.
    Skipped,
    /// The chunk reports this progress, in tenths of a percent: it is sent
    /// and the loop reads on.
    Progress(u32),
    /// The chunk reports a complete transfer: `COMPLETE` is sent and the
    /// loop ends.
    Completed,
}

pub open spec fn step_of(c: Seq<u8>) -> ProgressStep {
    if c.len() == 0 {
        ProgressStep::Exhausted
    } else {
        match progress_of(c) {
            None => ProgressStep::Skipped,
            Some(v) => if v == COMPLETE {
                ProgressStep::Completed
            } else {
                ProgressStep::Progress(v as u32)
            },
        }
    }
}

/// The values that the read loop sends for output `s`, read byte by byte
/// after the bytes `cur` of the chunk in progress.
pub open spec fn sent_from(s: Seq<u8>, cur: Seq<u8>) -> Seq<nat>
    decreases s.len(),
{
    if s.len() == 0 {
        Seq::empty()
    } else if s[0] == PERCENT {
        match progress_of(cur.push(s[0])) {
            None => sent_from(s.drop_first(), Seq::empty()),
            Some(v) => if v == COMPLETE {
                seq![v]
            } else {
                seq![v] + sent_from(s.drop_first(), Seq::empty())
            },
        }
    } else {
        sent_from(s.drop_first(), cur.push(s[0]))
    }
}

/// The values that the read loop sends for the whole output `s`.
pub open spec fn sent_values(s: Seq<u8>) -> Seq<nat> {
    sent_from(s, Seq::empty())
}

pub open spec fn as_nats(v: Seq<u32>) -> Seq<nat> {
    v.map_values(|x: u32| x as nat)
}

proof fn lemma_tail_value_bound(s: Seq<u8>, k: nat)
    requires
        k <= 3,
    ensures
        tail_value(s, k) <= 999,
        k <= 2 ==> tail_value(s, k) <= 99,
        k <= 1 ==> tail_value(s, k) <= 9,
        k == 0 ==> tail_value(s, k) == 0,
    decreases k,
{
    if k > 0 && s.len() > 0 && is_digit(s.last()) {
        lemma_tail_value_bound(s.drop_last(), (k - 1) as nat);
    }
}

fn tail_value_in(c: &[u8], start: usize, end: usize, k: usize) -> (r: u32)
    requires
        start <= end <= c@.len(),
        k <= 3,
    ensures
        r as nat == tail_value(c@.subrange(start as int, end as int), k as nat),
        r <= 999,
    decreases k,
{
    proof {
        lemma_tail_value_bound(c@.subrange(start as int, end as int), k as nat);
    }
    if k == 0 || end == start || !(48 <= c[end - 1] && c[end - 1] <= 57) {
        0
    } else {
        let v = tail_value_in(c, start, end - 1, k - 1);
        proof {
            assert(c@.subrange(start as int, end as int).drop_last() =~= c@.subrange(
                start as int,
                end - 1,
            ));
            lemma_tail_value_bound(c@.subrange(start as int, end - 1), (k - 1) as nat);
        }
        v * 10 + (c[end - 1] - 48) as u32
    }
}

fn progress_in(c: &[u8], start: usize, end: usize) -> (r: Option<u32>)
    requires
        start <= end <= c@.len(),
    ensures
        r.is_some() == progress_of(c@.subrange(start as int, end as int)).is_some(),
        r.is_some() ==> r.unwrap() as nat == progress_of(
            c@.subrange(start as int, end as int),
        ).unwrap(),
        r.is_some() ==> r.unwrap() <= 9999,
{
    let ghost s = c@.subrange(start as int, end as int);
    if end == start || c[end - 1] != PERCENT {
        return None;
    }
    let e = end - 1;
    let ghost b = s.drop_last();
    assert(b =~= c@.subrange(start as int, e as int));
    let n = e - start;
    if n >= 3 && 48 <= c[e - 1] && c[e - 1] <= 57 && c[e - 2] == DOT && 48 <= c[e - 3] && c[e
        - 3] <= 57 {
        let w = tail_value_in(c, start, e - 2, 3);
        assert(b.subrange(0, n - 2) =~= c@.subrange(start as int, e - 2));
        Some(w * 10 + (c[e - 1] - 48) as u32)
    } else if n >= 2 && c[e - 1] == DOT && 48 <= c[e - 2] && c[e - 2] <= 57 {
        let w = tail_value_in(c, start, e - 1, 3);
        assert(b.drop_last() =~= c@.subrange(start as int, e - 1));
        Some(w * 10)
    } else if n >= 1 && 48 <= c[e - 1] && c[e - 1] <= 57 {
        let w = tail_value_in(c, start, e, 3);
        Some(w * 10)
    } else {
        None
    }
}

/// The progress that `chunk` reports, in tenths of a percent: `455` for a
/// chunk that ends with `45.5%`.
pub fn parse_progress(chunk: &[u8]) -> (r: Option<u32>)
    ensures
        r.is_some() == progress_of(chunk@).is_some(),
        r.is_some() ==> r.unwrap() as nat == progress_of(chunk@).unwrap(),
        r.is_some() ==> r.unwrap() <= 9999,
{
    assert(chunk@.subrange(0, chunk@.len() as int) =~= chunk@);
    progress_in(chunk, 0, chunk.len())
}

/// Decides what the read loop does with a chunk of output, read up to and
/// including the next `%`; an empty chunk means the output is exhausted.
pub fn scan_step(chunk: &[u8]) -> (r: ProgressStep)
    ensures
        r == step_of(chunk@),
{
    if chunk.len() == 0 {
        return ProgressStep::Exhausted;
    }
    match parse_progress(chunk) {
        None => ProgressStep::Skipped,
        Some(v) => if v == COMPLETE {
            ProgressStep::Completed
        } else {
            ProgressStep::Progress(v)
        },
    }
}

/// The read loop stops right after it sends `COMPLETE`: no value follows it.
pub proof fn lemma_nothing_after_complete(s: Seq<u8>, cur: Seq<u8>)
    ensures
        forall|i: int| 0 <= i < sent_from(s, cur).len() - 1 ==> sent_from(s, cur)[i] != COMPLETE,
    decreases s.len(),
{
    if s.len() > 0 {
        let all = sent_from(s, cur);
        if s[0] == PERCENT {
            let rest = sent_from(s.drop_first(), Seq::empty());
            lemma_nothing_after_complete(s.drop_first(), Seq::empty());
            match progress_of(cur.push(s[0])) {
                None => {
                    assert(all == rest);
                },
                Some(v) => if v != COMPLETE {
                    assert(all == seq![v] + rest);
                    assert forall|i: int| 0 <= i < all.len() - 1 implies all[i] != COMPLETE by {
                        if i > 0 {
                            assert(all[i] == rest[i - 1]);
                        } else {
                            assert(all[0] == v);
                        }
                    }
                } else {
                    assert(all == seq![v]);
                },
            }
        } else {
            lemma_nothing_after_complete(s.drop_first(), cur.push(s[0]));
            assert(all == sent_from(s.drop_first(), cur.push(s[0])));
        }
    }
}

/// Runs the read loop over the whole output of a transfer, split into
/// chunks after each `%`, and returns the values it sends in order. The
/// loop ends at the end of the output or right after a complete transfer
/// is reported.
pub fn progress_values(output: &[u8]) -> (r: Vec<u32>)
    ensures
        as_nats(r@) == sent_values(output@),
        forall|i: int| 0 <= i < r@.len() - 1 ==> r@[i] != COMPLETE,
{
    let n = output.len();
    let mut out: Vec<u32> = Vec::new();
    let mut start: usize = 0;
    let mut i: usize = 0;
    proof {
        assert(output@.subrange(0, n as int) =~= output@);
        assert(output@.subrange(0, 0) =~= Seq::<u8>::empty());
        assert(as_nats(out@) =~= Seq::<nat>::empty());
    }
    while i < n
        invariant
            n == output@.len(),
            start <= i <= n,
            as_nats(out@) + sent_from(
                output@.subrange(i as int, n as int),
                output@.subrange(start as int, i as int),
            ) == sent_values(output@),
            forall|k: int| 0 <= k < out@.len() ==> out@[k] != COMPLETE,
        decreases n - i,
    {
        let ghost s = output@.subrange(i as int, n as int);
        let ghost cur = output@.subrange(start as int, i as int);
        proof {
            assert(s[0] == output@[i as int]);
            assert(s.drop_first() =~= output@.subrange(i + 1, n as int));
            assert(cur.push(s[0]) =~= output@.subrange(start as int, i + 1));
        }
        if output[i] == PERCENT {
            let p = progress_in(output, start, i + 1);
            match p {
                None => {
                    proof {
                        assert(output@.subrange(i + 1, i + 1) =~= Seq::<u8>::empty());
                    }
                },
                Some(v) => {
                    let ghost before = out@;
                    out.push(v);
                    proof {
                        assert(as_nats(out@) =~= as_nats(before).push(v as nat));
                    }
                    if v == COMPLETE {
                        proof {
                            assert(as_nats(out@) =~= as_nats(before) + seq![v as nat]);
                            lemma_nothing_after_complete(output@, Seq::empty());
                        }
                        return out;
                    }
                    proof {
                        assert(as_nats(before) + (seq![v as nat] + sent_from(
                            s.drop_first(),
                            Seq::empty(),
                        )) =~= as_nats(out@) + sent_from(s.drop_first(), Seq::empty()));
                        assert(output@.subrange(i + 1, i + 1) =~= Seq::<u8>::empty());
                    }
                },
            }
            start = i + 1;
        }
        i = i + 1;
    }
    proof {
        assert(output@.subrange(n as int, n as int) =~= Seq::<u8>::empty());
        assert(as_nats(out@) + Seq::<nat>::empty() =~= as_nats(out@));
    }
    out
}

} // verus!
